//! Profiles: loading, validation and the merge with a project's `pyproject.toml`.
//!
//! A profile is a partial `pyproject.toml` that holds the `[tool.*]` settings of the supported
//! tools, and nothing else. The default profile is part of this crate; another one is named
//! by a URL that returns it as TOML.

use crate::merge::{lemma_merge_empty, merge_tables, merged};
use crate::keys::{lemma_seen_all, lemma_seen_next, lists, seen};
use crate::table::{
    keys_of, no_items, table_get, table_insert, table_items, table_new, table_parse,
    table_write, toml_parsed, toml_text, value_as_table, value_clone, value_from_table, Item,
    Items,
};
use crate::text::starts_with;
use vstd::prelude::*;

verus! {

/// The profile that is used where no other is named.
pub const DEFAULT_PROFILE: &'static str =
    "[tool.mypy]\nstrict = true\nwarn_no_return = true\npython_version = \"${TIRE_MIN_PYTHON_VERSION}\"\n\n[tool.ruff]\nline-length = 100\n";

/// Whether `name` is one of the tools that a profile may configure.
pub open spec fn known_tool(name: Seq<char>) -> bool {
    name == "mypy"@ || name == "ruff"@
}

/// Whether `name` reads as an HTTP or HTTPS URL.
pub open spec fn is_url(name: Seq<char>) -> bool {
    "http://"@.is_prefix_of(name) || "https://"@.is_prefix_of(name)
}

/// Whether `root` holds a table under `tool`.
pub open spec fn has_tool_table(root: Items) -> bool {
    root.contains_key("tool"@) && root["tool"@] is Table
}

/// The table that `root` holds under `tool`.
pub open spec fn tool_table(root: Items) -> Items
    recommends
        has_tool_table(root),
{
    root["tool"@]->Table_0
}

/// What holds of a profile once it is validated: `tool` is its only key, if it has one, and
/// under it stands a table whose keys all name supported tools.
pub open spec fn valid(root: Items) -> bool {
    &&& forall|k: Seq<char>| root.contains_key(k) ==> k == "tool"@
    &&& root.contains_key("tool"@) ==> root["tool"@] is Table
    &&& forall|k: Seq<char>|
        has_tool_table(root) && #[trigger] tool_table(root).contains_key(k) ==> known_tool(k)
}

/// What is left of `root` when all that a profile may not hold is taken out: the `tool`
/// table with the supported tools, or nothing where `root` has no such table.
pub open spec fn repaired(root: Items) -> Items {
    if has_tool_table(root) {
        Map::<Seq<char>, Item>::empty().insert(
            "tool"@,
            Item::Table(tool_table(root).restrict(Set::new(|k: Seq<char>| known_tool(k)))),
        )
    } else {
        Map::<Seq<char>, Item>::empty()
    }
}

/// The keys of `table` that may not stand in it.
pub open spec fn offending(table: Items, top_level: bool) -> Set<Seq<char>> {
    Set::new(|k: Seq<char>| table.contains_key(k) && !allowed_key(top_level, k))
}

/// Whether the key `k` may stand in a table: at the top level only `tool` may, in the `tool`
/// table only the name of a supported tool.
pub open spec fn allowed_key(top_level: bool, k: Seq<char>) -> bool {
    if top_level {
        k == "tool"@
    } else {
        known_tool(k)
    }
}

/// Says whether the given name is one of the supported tools.
pub fn is_known_tool(tool: &str) -> (r: bool)
    ensures
        r == known_tool(tool@),
{
    let name = tool.to_owned();
    let mypy = "mypy".to_owned();
    let ruff = "ruff".to_owned();
    name == mypy || name == ruff
}

/// Why a profile could not be loaded or written out.
#[derive(Debug)]
pub enum ProfileError {
    /// The merged document could not be written as TOML.
    Ser(toml::ser::Error),
    /// A text is no TOML document.
    De(toml::de::Error),
    /// The name of the profile is neither `default` nor a URL.
    InvalidProfile(String),
}

/// What strict validation found wrong with a profile.
#[derive(Debug)]
pub enum ValidationError {
    /// The profile has these top-level keys besides `tool`.
    DisallowedTopLevelKeys(Vec<String>),
    /// The `tool` table has these keys, which name no supported tool.
    DisallowedToolKeys(Vec<String>),
    /// The profile has no `tool` key, or what stands under it is no table.
    MissingOrInvalidToolKey,
}

/// What lenient validation took out of a profile.
#[derive(Debug)]
pub struct Repairs {
    /// The top-level keys besides `tool`.
    pub top_level: Vec<String>,
    /// Whether the profile had no table under `tool`.
    pub tool_missing: bool,
    /// The keys of the `tool` table that name no supported tool.
    pub tools: Vec<String>,
}

/// The outcome of [`Profile::load`].
#[derive(Debug)]
pub enum Load {
    /// The profile is loaded.
    Ready(Profile),
    /// The profile lies behind this URL: its text is to be fetched and handed to
    /// [`Profile::load_string`], with the URL as the name.
    Fetch(String),
}

/// A profile as it was read, validated or not.
#[derive(Debug)]
pub struct Profile {
    /// The name of the profile: `default`, or the URL it came from.
    pub name: String,
    /// The document of the profile.
    pub root: toml::Table,
}

/// The keys of `table` that may not stand there.
fn offending_keys(table: &toml::Table, top_level: bool) -> (r: Vec<String>)
    ensures
        lists(r@, offending(table_items(*table), top_level)),
{
    let keys = keys_of(table);
    let ghost items = table_items(*table);
    let tool = "tool".to_owned();
    let mut out: Vec<String> = Vec::new();
    let mut i: usize = 0;
    while i < keys.len()
        invariant
            i <= keys@.len(),
            tool@ == "tool"@,
            items == table_items(*table),
            lists(keys@, items.dom()),
            forall|a: int|
                0 <= a < out@.len() ==> !allowed_key(top_level, (#[trigger] out@[a])@)
                    && exists|j: int| 0 <= j < i && (#[trigger] keys@[j])@ == out@[a]@,
            forall|j: int|
                0 <= j < i && !allowed_key(top_level, (#[trigger] keys@[j])@) ==> exists|a: int|
                    0 <= a < out@.len() && (#[trigger] out@[a])@ == keys@[j]@,
            forall|a: int, b: int|
                0 <= a < out@.len() && 0 <= b < out@.len() && a != b ==> (#[trigger] out@[a])@
                    != (#[trigger] out@[b])@,
        decreases keys@.len() - i,
    {
        let allowed = if top_level {
            keys[i] == tool
        } else {
            is_known_tool(keys[i].as_str())
        };
        if !allowed {
            let ghost before = out@;
            out.push(keys[i].clone());
            proof {
                let last = out@.len() - 1;
                assert(out@[last]@ == keys@[i as int]@);
                assert forall|a: int| 0 <= a < out@.len() implies !allowed_key(
                    top_level,
                    (#[trigger] out@[a])@,
                ) && exists|j: int| 0 <= j < i + 1 && (#[trigger] keys@[j])@ == out@[a]@ by {
                    if a < last {
                        assert(out@[a] == before[a]);
                        let j = choose|j: int| 0 <= j < i && (#[trigger] keys@[j])@ == before[a]@;
                        assert(keys@[j]@ == out@[a]@);
                    } else {
                        assert(keys@[i as int]@ == out@[a]@);
                    }
                }
                assert forall|j: int|
                    0 <= j < i + 1 && !allowed_key(
                        top_level,
                        (#[trigger] keys@[j])@,
                    ) implies exists|a: int|
                    0 <= a < out@.len() && (#[trigger] out@[a])@ == keys@[j]@ by {
                    if j < i {
                        let a = choose|a: int|
                            0 <= a < before.len() && (#[trigger] before[a])@ == keys@[j]@;
                        assert(out@[a] == before[a]);
                    } else {
                        assert(out@[last]@ == keys@[j]@);
                    }
                }
                assert forall|a: int, b: int|
                    0 <= a < out@.len() && 0 <= b < out@.len() && a != b implies (
                #[trigger] out@[a])@ != (#[trigger] out@[b])@ by {
                    if a < last && b < last {
                        assert(before[a]@ != before[b]@);
                    } else {
                        let c = if a < last {
                            a
                        } else {
                            b
                        };
                        assert(out@[c] == before[c]);
                        let j = choose|j: int| 0 <= j < i && (#[trigger] keys@[j])@ == before[c]@;
                        assert(keys@[j]@ != keys@[i as int]@);
                    }
                }
            }
        }
        i += 1;
    }
    proof {
        let wanted = offending(items, top_level);
        assert forall|a: int| 0 <= a < out@.len() implies wanted.contains((#[trigger] out@[a])@) by {
            let j = choose|j: int| 0 <= j < i && (#[trigger] keys@[j])@ == out@[a]@;
            assert(items.dom().contains(keys@[j]@));
        }
        assert forall|k: Seq<char>| #[trigger] wanted.contains(k) implies exists|a: int|
            0 <= a < out@.len() && (#[trigger] out@[a])@ == k by {
            assert(items.dom().contains(k));
            let j = choose|j: int| 0 <= j < keys@.len() && (#[trigger] keys@[j])@ == k;
            assert(!allowed_key(top_level, keys@[j]@));
        }
    }
    out
}

/// The document of the project: what its `pyproject.toml` reads as, or the empty table where
/// the project has none.
pub open spec fn project_document(pyproject: Option<&str>) -> Option<Items> {
    match pyproject {
        Some(text) => toml_parsed(text@),
        None => Some(no_items()),
    }
}

/// Whether `name` asks for the default profile.
pub open spec fn names_default(name: Option<String>) -> bool {
    match name {
        Some(n) => n@ == "default"@,
        None => true,
    }
}

impl Profile {
    /// What the document of the profile holds.
    pub open spec fn items(self) -> Items {
        table_items(self.root)
    }

    /// Loads the profile that `name` asks for, as far as that takes no network.
    ///
    /// No name and the name `default` give the default profile. A name that begins with
    /// `http://` or `https://` is a URL: it comes back for the caller to fetch. Any other name
    /// is refused.
    pub fn load(name: Option<String>) -> (r: Result<Load, ProfileError>)
        ensures
            match r {
                Ok(Load::Ready(p)) => names_default(name) && p.name@ == "default"@ && toml_parsed(
                    DEFAULT_PROFILE@,
                ) == Some(p.items()),
                Ok(Load::Fetch(url)) => name == Some(url) && url@ != "default"@ && is_url(url@),
                Err(ProfileError::De(_)) => names_default(name) && toml_parsed(DEFAULT_PROFILE@)
                    is None,
                Err(ProfileError::InvalidProfile(n)) => name == Some(n) && n@ != "default"@
                    && !is_url(n@),
                Err(ProfileError::Ser(_)) => false,
            },
    {
        let default_name = "default".to_owned();
        match name {
            None => Self::load_default(default_name),
            Some(name) => {
                if name == default_name {
                    Self::load_default(default_name)
                } else if starts_with(name.as_str(), "http://") || starts_with(
                    name.as_str(),
                    "https://",
                ) {
                    Ok(Load::Fetch(name))
                } else {
                    Err(ProfileError::InvalidProfile(name))
                }
            },
        }
    }

    /// Loads the default profile under the name `name`.
    fn load_default(name: String) -> (r: Result<Load, ProfileError>)
        ensures
            match r {
                Ok(Load::Ready(p)) => p.name == name && toml_parsed(DEFAULT_PROFILE@) == Some(
                    p.items(),
                ),
                Err(ProfileError::De(_)) => toml_parsed(DEFAULT_PROFILE@) is None,
                _ => false,
            },
    {
        match Self::load_string(name, DEFAULT_PROFILE.to_owned()) {
            Ok(profile) => Ok(Load::Ready(profile)),
            Err(e) => Err(e),
        }
    }

    /// Loads a profile from TOML text. The profile is not validated.
    pub fn load_string(name: String, toml_text: String) -> (r: Result<Profile, ProfileError>)
        ensures
            match r {
                Ok(p) => p.name == name && toml_parsed(toml_text@) == Some(p.items()),
                Err(ProfileError::De(_)) => toml_parsed(toml_text@) is None,
                Err(_) => false,
            },
    {
        match table_parse(toml_text.as_str()) {
            Ok(root) => Ok(Profile { name, root }),
            Err(e) => Err(ProfileError::De(e)),
        }
    }

    /// Validates the profile and refuses it where it holds what a profile may not hold. The
    /// profile is left as it is.
    ///
    /// The top-level keys are looked at first, then the `tool` key, then the keys of the
    /// `tool` table: the first of these that is at fault decides the error.
    pub fn validate_strict(&self) -> (r: Result<(), ValidationError>)
        ensures
            match r {
                Ok(()) => valid(self.items()) && has_tool_table(self.items()),
                Err(ValidationError::DisallowedTopLevelKeys(keys)) => keys@.len() > 0 && lists(
                    keys@,
                    offending(self.items(), true),
                ),
                Err(ValidationError::MissingOrInvalidToolKey) => offending(self.items(), true)
                    == Set::<Seq<char>>::empty() && !has_tool_table(self.items()),
                Err(ValidationError::DisallowedToolKeys(keys)) => offending(self.items(), true)
                    == Set::<Seq<char>>::empty() && has_tool_table(self.items()) && keys@.len() > 0
                    && lists(keys@, offending(tool_table(self.items()), false)),
            },
    {
        let top_level = offending_keys(&self.root, true);
        if top_level.len() > 0 {
            return Err(ValidationError::DisallowedTopLevelKeys(top_level));
        }
        assert(offending(self.items(), true) =~= Set::<Seq<char>>::empty());
        match table_get(&self.root, "tool") {
            Some(value) => match value_as_table(value) {
                Some(tool) => {
                    let tools = offending_keys(tool, false);
                    if tools.len() > 0 {
                        Err(ValidationError::DisallowedToolKeys(tools))
                    } else {
                        assert forall|k: Seq<char>| self.items().contains_key(k) implies k
                            == "tool"@ by {
                            assert(!offending(self.items(), true).contains(k));
                        }
                        assert forall|k: Seq<char>| #[trigger]
                            tool_table(self.items()).contains_key(k) implies known_tool(k) by {
                            assert(!offending(table_items(*tool), false).contains(k));
                        }
                        Ok(())
                    }
                },
                None => Err(ValidationError::MissingOrInvalidToolKey),
            },
            None => Err(ValidationError::MissingOrInvalidToolKey),
        }
    }

    /// Validates the profile and takes out of it what a profile may not hold: every top-level
    /// key but `tool`, the `tool` key itself where no table stands under it, and every key
    /// of the `tool` table that names no supported tool. Says what was taken out.
    pub fn validate(&mut self) -> (r: Repairs)
        ensures
            final(self).name == old(self).name,
            final(self).items() == repaired(old(self).items()),
            valid(final(self).items()),
            lists(r.top_level@, offending(old(self).items(), true)),
            r.tool_missing == !has_tool_table(old(self).items()),
            has_tool_table(old(self).items()) ==> lists(
                r.tools@,
                offending(tool_table(old(self).items()), false),
            ),
            !has_tool_table(old(self).items()) ==> r.tools@.len() == 0,
    {
        let ghost before = self.items();
        let top_level = offending_keys(&self.root, true);
        let mut root = table_new();
        let mut tools: Vec<String> = Vec::new();
        let mut tool_missing = true;
        match table_get(&self.root, "tool") {
            Some(value) => match value_as_table(value) {
                Some(tool) => {
                    tools = offending_keys(tool, false);
                    let kept = Self::supported_part(tool);
                    table_insert(&mut root, "tool".to_owned(), value_from_table(kept));
                    tool_missing = false;
                },
                None => {},
            },
            None => {},
        }
        self.root = root;
        proof {
            lemma_repaired_is_valid(before);
        }
        Repairs { top_level, tool_missing, tools }
    }

    /// What `tool` holds for the supported tools.
    fn supported_part(tool: &toml::Table) -> (r: toml::Table)
        ensures
            table_items(r) == table_items(*tool).restrict(Set::new(|k: Seq<char>| known_tool(k))),
    {
        let ghost full = table_items(*tool);
        let keys = keys_of(tool);
        let mut kept = table_new();
        let mut i: usize = 0;
        while i < keys.len()
            invariant
                i <= keys@.len(),
                full == table_items(*tool),
                lists(keys@, full.dom()),
                forall|k: Seq<char>| #[trigger]
                    table_items(kept).contains_key(k) <==> (seen(keys@, i as int, k) && known_tool(
                        k,
                    )),
                forall|k: Seq<char>| #[trigger]
                    table_items(kept).contains_key(k) ==> table_items(kept)[k] == full[k],
            decreases keys@.len() - i,
        {
            let key = &keys[i];
            assert(full.dom().contains(key@));
            if is_known_tool(key.as_str()) {
                match table_get(tool, key.as_str()) {
                    Some(value) => {
                        table_insert(&mut kept, key.clone(), value_clone(value));
                    },
                    None => {},
                }
            }
            proof {
                assert forall|k: Seq<char>| #[trigger]
                    table_items(kept).contains_key(k) <==> (seen(keys@, i + 1, k) && known_tool(
                        k,
                    )) by {
                    lemma_seen_next(keys@, i as int, k);
                }
            }
            i += 1;
        }
        proof {
            let target = full.restrict(Set::new(|k: Seq<char>| known_tool(k)));
            assert forall|k: Seq<char>| #[trigger]
                target.contains_key(k) <==> table_items(kept).contains_key(k) by {
                lemma_seen_all(keys@, full.dom(), k);
            }
            assert(table_items(kept) =~= target);
        }
        kept
    }

    /// Merges the profile with the project's document, whose values take precedence.
    pub fn merge(&self, pyproject_toml: &toml::Table) -> (r: toml::Table)
        ensures
            table_items(r) == merged(self.items(), table_items(*pyproject_toml)),
    {
        merge_tables(&self.root, pyproject_toml)
    }

    /// The text of the merged `pyproject.toml`: the profile, merged with the project's
    /// `pyproject.toml` where the project has one, written out as TOML.
    ///
    /// Without a project file the profile itself is written out.
    pub fn materialize(&self, pyproject: Option<&str>) -> (r: Result<String, ProfileError>)
        ensures
            match r {
                Ok(text) => project_document(pyproject) is Some && toml_text(
                    merged(self.items(), project_document(pyproject)->Some_0),
                ) == Some(text@),
                Err(ProfileError::De(_)) => project_document(pyproject) is None,
                Err(ProfileError::Ser(_)) => project_document(pyproject) is Some && toml_text(
                    merged(self.items(), project_document(pyproject)->Some_0),
                ) is None,
                Err(ProfileError::InvalidProfile(_)) => false,
            },
            pyproject is None ==> match r {
                Ok(text) => toml_text(self.items()) == Some(text@),
                Err(_) => toml_text(self.items()) is None,
            },
    {
        let project = match pyproject {
            Some(text) => match table_parse(text) {
                Ok(table) => table,
                Err(e) => {
                    return Err(ProfileError::De(e));
                },
            },
            None => table_new(),
        };
        proof {
            lemma_merge_empty(self.items());
        }
        let merged = self.merge(&project);
        match table_write(&merged) {
            Ok(text) => Ok(text),
            Err(e) => Err(ProfileError::Ser(e)),
        }
    }
}

/// What validation leaves of a profile is valid.
pub proof fn lemma_repaired_is_valid(root: Items)
    ensures
        valid(repaired(root)),
{
    let fixed = repaired(root);
    if has_tool_table(root) {
        assert(fixed["tool"@] is Table);
        assert(has_tool_table(fixed));
        assert forall|k: Seq<char>|
            has_tool_table(fixed) && #[trigger] tool_table(fixed).contains_key(k) implies known_tool(
            k,
        ) by {}
    }
}

/// Validation leaves a valid profile with a `tool` table as it is.
pub proof fn lemma_valid_is_kept(root: Items)
    requires
        valid(root),
        root.contains_key("tool"@),
    ensures
        repaired(root) == root,
{
    let fixed = repaired(root);
    assert(tool_table(root).restrict(Set::new(|k: Seq<char>| known_tool(k))) =~= tool_table(root));
    assert(fixed =~= root);
}

/// Validation does nothing the second time.
pub proof fn lemma_repaired_twice(root: Items)
    ensures
        repaired(repaired(root)) == repaired(root),
{
    lemma_repaired_is_valid(root);
    if has_tool_table(root) {
        lemma_valid_is_kept(repaired(root));
    } else {
        assert(repaired(repaired(root)) =~= repaired(root));
    }
}

} // verus!
