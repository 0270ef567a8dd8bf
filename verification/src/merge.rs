//! Merging two tables: what it means, the function that does it, and what follows.

use crate::keys::{lemma_seen_all, lemma_seen_next, lists, seen};
use crate::table::{
    keys_of, table_get, table_insert, table_items, table_new, value_as_table, value_clone,
    value_from_table, value_item, Item, Items,
};
use vstd::prelude::*;

verus! {

/// The value under a key that `base` maps to `b` and `over` maps to `o`.
///
/// Two tables are merged key by key; in every other case `o` stands, whatever `b` is.
pub open spec fn merged_value(b: Item, o: Item) -> Item
    decreases b,
{
    match (b, o) {
        (Item::Table(bt), Item::Table(ot)) => Item::Table(
            Map::new(
                |k: Seq<char>| bt.contains_key(k) || ot.contains_key(k),
                |k: Seq<char>|
                    if bt.contains_key(k) && ot.contains_key(k) {
                        merged_value(bt[k], ot[k])
                    } else if ot.contains_key(k) {
                        ot[k]
                    } else if bt.contains_key(k) {
                        bt[k]
                    } else {
                        arbitrary()
                    },
            ),
        ),
        (_, w) => w,
    }
}

/// The value that the merge of `base` with `over` holds under a key `k` of either.
pub open spec fn merged_entry(base: Items, over: Items, k: Seq<char>) -> Item
    recommends
        base.contains_key(k) || over.contains_key(k),
{
    if base.contains_key(k) && over.contains_key(k) {
        merged_value(base[k], over[k])
    } else if over.contains_key(k) {
        over[k]
    } else if base.contains_key(k) {
        base[k]
    } else {
        arbitrary()
    }
}

/// The merge of the table `base` with the table `over`, whose values take precedence.
///
/// The result has the keys of both. Where both hold a table under a key, the two tables are
/// merged in the same way. Under every other key of `over` stands the value of `over`,
/// whatever `base` holds there; under the remaining keys stands the value of `base`.
pub open spec fn merged(base: Items, over: Items) -> Items {
    Map::new(
        |k: Seq<char>| base.contains_key(k) || over.contains_key(k),
        |k: Seq<char>| merged_entry(base, over, k),
    )
}

/// Merging two tables that stand under the same key gives the merge of the two.
pub proof fn lemma_merged_tables(bt: Items, ot: Items)
    ensures
        merged_value(Item::Table(bt), Item::Table(ot)) == Item::Table(
            merged(bt, ot),
        ),
{
    assert(merged_value(Item::Table(bt), Item::Table(ot))->Table_0 =~= merged(bt, ot));
}

/// The value found in `v` by following the keys of `path`, one table after the other.
///
/// The empty path leads to `v` itself. A path leads nowhere where one of its keys is missing
/// or where a value on the way, before the end of the path, is no table.
pub open spec fn value_at(v: Item, path: Seq<Seq<char>>) -> Option<Item>
    decreases path.len(),
{
    if path.len() == 0 {
        Some(v)
    } else {
        match v {
            Item::Table(t) => if t.contains_key(path[0]) {
                value_at(t[path[0]], path.drop_first())
            } else {
                None
            },
            _ => None,
        }
    }
}

/// Whether `v` leaves everything along `path` as a base holds it: `path` is not empty, `v` is
/// a table, and under the first key of `path` it holds either nothing or a value that leaves
/// the rest of `path` alone. Then `path` leads nowhere in `v`, and no value of `v` that is not
/// a table stands on the way.
pub open spec fn leaves_alone(v: Item, path: Seq<Seq<char>>) -> bool
    decreases path.len(),
{
    path.len() > 0 && match v {
        Item::Table(t) => !t.contains_key(path[0]) || leaves_alone(
            t[path[0]],
            path.drop_first(),
        ),
        _ => false,
    }
}

proof fn lemma_value_precedence(b: Item, o: Item, path: Seq<Seq<char>>)
    requires
        value_at(b, path) is Some,
        value_at(o, path) is Some,
        !(value_at(b, path)->Some_0 is Table && value_at(o, path)->Some_0 is Table),
    ensures
        value_at(merged_value(b, o), path) == value_at(o, path),
    decreases path.len(),
{
    if path.len() > 0 {
        let bt = b->Table_0;
        let ot = o->Table_0;
        let k = path[0];
        lemma_merged_tables(bt, ot);
        assert(merged(bt, ot)[k] == merged_value(bt[k], ot[k]));
        lemma_value_precedence(bt[k], ot[k], path.drop_first());
    }
}

proof fn lemma_value_recursion(b: Item, o: Item, path: Seq<Seq<char>>)
    requires
        value_at(b, path) is Some,
        value_at(o, path) is Some,
    ensures
        value_at(merged_value(b, o), path) == Some(
            merged_value(value_at(b, path)->Some_0, value_at(o, path)->Some_0),
        ),
    decreases path.len(),
{
    if path.len() > 0 {
        let bt = b->Table_0;
        let ot = o->Table_0;
        let k = path[0];
        lemma_merged_tables(bt, ot);
        assert(merged(bt, ot)[k] == merged_value(bt[k], ot[k]));
        lemma_value_recursion(bt[k], ot[k], path.drop_first());
    }
}

proof fn lemma_left_alone_is_absent(o: Item, path: Seq<Seq<char>>)
    requires
        leaves_alone(o, path),
    ensures
        value_at(o, path) is None,
    decreases path.len(),
{
    let ot = o->Table_0;
    if ot.contains_key(path[0]) {
        lemma_left_alone_is_absent(ot[path[0]], path.drop_first());
    }
}

proof fn lemma_value_preservation(b: Item, o: Item, path: Seq<Seq<char>>)
    requires
        leaves_alone(o, path),
    ensures
        value_at(merged_value(b, o), path) == value_at(b, path),
    decreases path.len(),
{
    let ot = o->Table_0;
    let k = path[0];
    lemma_left_alone_is_absent(o, path);
    match b {
        Item::Table(bt) => {
            lemma_merged_tables(bt, ot);
            if bt.contains_key(k) && ot.contains_key(k) {
                assert(merged(bt, ot)[k] == merged_value(bt[k], ot[k]));
                lemma_value_preservation(bt[k], ot[k], path.drop_first());
            } else if ot.contains_key(k) {
                assert(merged(bt, ot)[k] == ot[k]);
                lemma_left_alone_is_absent(ot[k], path.drop_first());
            } else if bt.contains_key(k) {
                assert(merged(bt, ot)[k] == bt[k]);
            }
        },
        _ => {},
    }
}

/// Precedence: where a path leads to a value in both tables, and the two values are not both
/// tables, the merge holds at that path what `over` holds there. This covers scalars and
/// arrays on both sides, and values of different kinds.
pub proof fn lemma_merge_precedence(base: Items, over: Items, path: Seq<Seq<char>>)
    requires
        value_at(Item::Table(base), path) is Some,
        value_at(Item::Table(over), path) is Some,
        !(value_at(Item::Table(base), path)->Some_0 is Table && value_at(
            Item::Table(over),
            path,
        )->Some_0 is Table),
    ensures
        value_at(Item::Table(merged(base, over)), path) == value_at(
            Item::Table(over),
            path,
        ),
{
    lemma_merged_tables(base, over);
    lemma_value_precedence(Item::Table(base), Item::Table(over), path);
}

/// Preservation: where `over` leaves a path alone, the merge holds at that path what `base`
/// holds there. A path that leads nowhere in `over` is left alone unless `over` holds, at some
/// key on the way, a value that is not a table: that value takes the place of the table of
/// `base`, and with it goes what `base` held below.
pub proof fn lemma_merge_preservation(base: Items, over: Items, path: Seq<Seq<char>>)
    requires
        leaves_alone(Item::Table(over), path),
    ensures
        value_at(Item::Table(over), path) is None,
        value_at(Item::Table(merged(base, over)), path) == value_at(
            Item::Table(base),
            path,
        ),
{
    lemma_merged_tables(base, over);
    lemma_left_alone_is_absent(Item::Table(over), path);
    lemma_value_preservation(Item::Table(base), Item::Table(over), path);
}

/// Recursion: where a path leads to a table in both tables, the merge holds at that path the
/// merge of the two, not one of them.
pub proof fn lemma_merge_recursion(
    base: Items,
    over: Items,
    path: Seq<Seq<char>>,
    b: Items,
    o: Items,
)
    requires
        value_at(Item::Table(base), path) == Some(Item::Table(b)),
        value_at(Item::Table(over), path) == Some(Item::Table(o)),
    ensures
        value_at(Item::Table(merged(base, over)), path) == Some(
            Item::Table(merged(b, o)),
        ),
{
    lemma_merged_tables(base, over);
    lemma_merged_tables(b, o);
    lemma_value_recursion(Item::Table(base), Item::Table(over), path);
}

/// Merging with the empty table, on either side, changes nothing.
pub proof fn lemma_merge_empty(t: Items)
    ensures
        merged(t, Map::empty()) == t,
        merged(Map::empty(), t) == t,
{
    assert(merged(t, Map::empty()) =~= t);
    assert(merged(Map::empty(), t) =~= t);
}

/// An array of `over` takes the place of whatever `base` holds under the same key.
pub proof fn lemma_merge_array(base: Items, over: Items, k: Seq<char>)
    requires
        over.contains_key(k),
        over[k] is Array,
    ensures
        merged(base, over).contains_key(k),
        merged(base, over)[k] == over[k],
{
}

/// The value that the merge of `base` with `over` holds under `key`.
fn merge_entry(base: &toml::Table, over: &toml::Table, key: &str) -> (r: toml::Value)
    requires
        table_items(*base).dom().finite(),
        table_items(*base).contains_key(key@) || table_items(*over).contains_key(key@),
    ensures
        value_item(r) == merged_entry(table_items(*base), table_items(*over), key@),
    decreases table_items(*base), 0int,
{
    match table_get(over, key) {
        Some(theirs) => match table_get(base, key) {
            Some(mine) => match value_as_table(theirs) {
                Some(their_table) => match value_as_table(mine) {
                    Some(my_table) => {
                        proof {
                            lemma_merged_tables(table_items(*my_table), table_items(*their_table));
                        }
                        value_from_table(merge_tables(my_table, their_table))
                    },
                    None => value_clone(theirs),
                },
                None => value_clone(theirs),
            },
            None => value_clone(theirs),
        },
        None => match table_get(base, key) {
            Some(mine) => value_clone(mine),
            None => vstd::pervasive::unreached(),
        },
    }
}

/// Merges the table `base` with the table `over`, whose values take precedence.
///
/// Two tables under the same key are merged in turn. Everything else that `over` holds
/// stands in the result as it is, arrays too: an array of `over` takes the place of the
/// array of `base`, it is not appended to it.
pub fn merge_tables(base: &toml::Table, over: &toml::Table) -> (r: toml::Table)
    ensures
        table_items(r) == merged(table_items(*base), table_items(*over)),
    decreases table_items(*base), 1int,
{
    let ghost mine = table_items(*base);
    let ghost theirs = table_items(*over);
    let mut result = table_new();
    let base_keys = keys_of(base);
    let mut i: usize = 0;
    while i < base_keys.len()
        invariant
            i <= base_keys@.len(),
            mine == table_items(*base),
            theirs == table_items(*over),
            mine.dom().finite(),
            lists(base_keys@, mine.dom()),
            forall|k: Seq<char>| #[trigger]
                table_items(result).contains_key(k) <==> seen(base_keys@, i as int, k),
            forall|k: Seq<char>| #[trigger]
                table_items(result).contains_key(k) ==> table_items(result)[k] == merged_entry(
                    mine,
                    theirs,
                    k,
                ),
        decreases base_keys@.len() - i,
    {
        let key = &base_keys[i];
        assert(mine.dom().contains(key@));
        let value = merge_entry(base, over, key.as_str());
        table_insert(&mut result, key.clone(), value);
        proof {
            assert forall|k: Seq<char>| #[trigger]
                table_items(result).contains_key(k) <==> seen(base_keys@, i + 1, k) by {
                lemma_seen_next(base_keys@, i as int, k);
            }
        }
        i += 1;
    }
    let over_keys = keys_of(over);
    proof {
        assert forall|k: Seq<char>| #[trigger]
            table_items(result).contains_key(k) <==> mine.contains_key(k) by {
            lemma_seen_all(base_keys@, mine.dom(), k);
        }
    }
    let mut i: usize = 0;
    while i < over_keys.len()
        invariant
            i <= over_keys@.len(),
            mine == table_items(*base),
            theirs == table_items(*over),
            mine.dom().finite(),
            lists(over_keys@, theirs.dom()),
            forall|k: Seq<char>| #[trigger]
                table_items(result).contains_key(k) <==> (mine.contains_key(k) || seen(
                    over_keys@,
                    i as int,
                    k,
                )),
            forall|k: Seq<char>| #[trigger]
                table_items(result).contains_key(k) ==> table_items(result)[k] == merged_entry(
                    mine,
                    theirs,
                    k,
                ),
        decreases over_keys@.len() - i,
    {
        let key = &over_keys[i];
        assert(theirs.dom().contains(key@));
        let value = merge_entry(base, over, key.as_str());
        table_insert(&mut result, key.clone(), value);
        proof {
            assert forall|k: Seq<char>| #[trigger]
                table_items(result).contains_key(k) <==> (mine.contains_key(k) || seen(
                    over_keys@,
                    i + 1,
                    k,
                )) by {
                lemma_seen_next(over_keys@, i as int, k);
            }
        }
        i += 1;
    }
    proof {
        let target = merged(mine, theirs);
        assert forall|k: Seq<char>| #[trigger]
            target.contains_key(k) <==> table_items(result).contains_key(k) by {
            lemma_seen_all(over_keys@, theirs.dom(), k);
        }
        assert(table_items(result) =~= target);
    }
    result
}

} // verus!
