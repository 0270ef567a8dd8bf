use tire::merge::merge_tables;
use tire::profile::{Load, Profile, ProfileError, DEFAULT_PROFILE};
use toml::value::Table;
use toml::Value;

fn parse(text: &str) -> Table {
    text.parse().unwrap()
}

fn strings(words: &[&str]) -> Value {
    Value::Array(words.iter().map(|w| Value::String(w.to_string())).collect())
}

#[test]
fn test_merge() {
    // Load the default profile
    let profile_table: Table = DEFAULT_PROFILE.parse().unwrap();

    // Create a simple pyproject.toml
    let pyproject_content = r#"
            [tool.mypy]
            strict = false
            warn_unused_ignores = false

            [tool.ruff]
            line-length = 80

            [tool.ruff.lint]
            select = ["E4", "D"]
        "#;

    let pyproject_table: Table = pyproject_content.parse().unwrap();

    // Create a Profile instance
    let profile = Profile { name: "test".to_owned(), root: profile_table };

    // Merge the profiles
    let merged = profile.merge(&pyproject_table);

    // Check that the merged profile has the expected values
    assert_eq!(merged.get("tool").unwrap()["mypy"]["strict"], Value::Boolean(false));
    assert_eq!(
        merged.get("tool").unwrap()["mypy"]["warn_unused_ignores"],
        Value::Boolean(false)
    );
    assert_eq!(merged.get("tool").unwrap()["ruff"]["line-length"], Value::Integer(80));
    assert_eq!(
        merged.get("tool").unwrap()["ruff"]["lint"]["select"],
        Value::Array(vec![Value::String("E4".to_string()), Value::String("D".to_string()),])
    );

    // Check that original values are preserved when not overridden
    assert_eq!(merged.get("tool").unwrap()["mypy"]["warn_no_return"], Value::Boolean(true));
    assert_eq!(
        merged.get("tool").unwrap()["mypy"]["python_version"],
        Value::String("${TIRE_MIN_PYTHON_VERSION}".to_string())
    );
}

#[test]
fn default_profile_holds_its_settings() {
    let root = parse(DEFAULT_PROFILE);
    assert_eq!(root["tool"]["mypy"]["strict"], Value::Boolean(true));
    assert_eq!(root["tool"]["mypy"]["warn_no_return"], Value::Boolean(true));
    assert_eq!(root["tool"]["ruff"]["line-length"], Value::Integer(100));
    assert_eq!(root.keys().collect::<Vec<_>>(), vec!["tool"]);
}

#[test]
fn override_wins_at_a_scalar() {
    let base = parse("a = 1\n[t]\nx = \"base\"\ny = true\n");
    let over = parse("a = 2\n[t]\nx = \"over\"\n");
    let merged = merge_tables(&base, &over);
    assert_eq!(merged, parse("a = 2\n[t]\nx = \"over\"\ny = true\n"));
}

#[test]
fn base_is_kept_where_override_is_silent() {
    let base = parse("[t.u]\nx = 1\ny = 2\n");
    let over = parse("[t.u]\ny = 3\n[t.v]\nz = 4\n");
    let merged = merge_tables(&base, &over);
    assert_eq!(merged["t"]["u"]["x"], Value::Integer(1));
    assert_eq!(merged, parse("[t.u]\nx = 1\ny = 3\n[t.v]\nz = 4\n"));
}

#[test]
fn tables_are_merged_not_replaced() {
    let base = parse("[t]\na = 1\nb = 2\n");
    let over = parse("[t]\nb = 3\nc = 4\n");
    let merged = merge_tables(&base, &over);
    assert_eq!(merged, parse("[t]\na = 1\nb = 3\nc = 4\n"));
    assert_eq!(
        merged["t"].as_table().unwrap(),
        &merge_tables(base["t"].as_table().unwrap(), over["t"].as_table().unwrap())
    );
}

#[test]
fn arrays_are_replaced_not_appended() {
    let base = parse("[lint]\nselect = [\"E4\"]\n");
    let over = parse("[lint]\nselect = [\"D\"]\n");
    let merged = merge_tables(&base, &over);
    assert_eq!(merged["lint"]["select"], strings(&["D"]));
}

#[test]
fn override_of_another_kind_wins() {
    let base = parse("[t]\nx = 1\n");
    let over = parse("t = \"text\"\n");
    let merged = merge_tables(&base, &over);
    assert_eq!(merged, over);
    assert_eq!(merge_tables(&over, &base), base);

    let base = parse("a = [1, 2]\nb = 1\n");
    let over = parse("a = 5\nb = [3]\n");
    assert_eq!(merge_tables(&base, &over), over);
}

#[test]
fn merge_with_the_empty_table_changes_nothing() {
    let table = parse("a = 1\nb = [1, 2]\nf = 1.5\nd = 1979-05-27T07:32:00Z\n[t]\nx = \"y\"\n[t.u]\nz = false\n");
    let empty = Table::new();
    assert_eq!(merge_tables(&table, &empty), table);
    assert_eq!(merge_tables(&empty, &table), table);
    assert_eq!(merge_tables(&empty, &empty), empty);
}

#[test]
fn merge_leaves_its_arguments_alone() {
    let base = parse("[t]\na = 1\n");
    let over = parse("[t]\na = 2\n");
    let _ = merge_tables(&base, &over);
    assert_eq!(base, parse("[t]\na = 1\n"));
    assert_eq!(over, parse("[t]\na = 2\n"));
}

#[test]
fn end_to_end() {
    let profile = match Profile::load(None).unwrap() {
        Load::Ready(p) => p,
        other => panic!("the default profile was not loaded: {:?}", other),
    };
    assert_eq!(profile.name, "default");
    assert!(profile.validate_strict().is_ok());
    let project = "[tool.mypy]\nstrict = false\nwarn_unused_ignores = false\n\n[tool.ruff]\nline-length = 80\n\n[tool.ruff.lint]\nselect = [\"E4\", \"D\"]\n";
    let text = profile.materialize(Some(project)).unwrap();
    let merged = parse(&text);
    assert_eq!(merged["tool"]["mypy"]["strict"], Value::Boolean(false));
    assert_eq!(merged["tool"]["mypy"]["warn_no_return"], Value::Boolean(true));
    assert_eq!(
        merged["tool"]["mypy"]["python_version"],
        Value::String("${TIRE_MIN_PYTHON_VERSION}".to_string())
    );
    assert_eq!(merged["tool"]["mypy"]["warn_unused_ignores"], Value::Boolean(false));
    assert_eq!(merged["tool"]["ruff"]["line-length"], Value::Integer(80));
    assert_eq!(merged["tool"]["ruff"]["lint"]["select"], strings(&["E4", "D"]));
    assert_eq!(merged["tool"].as_table().unwrap().len(), 2);
    assert_eq!(merged["tool"]["mypy"].as_table().unwrap().len(), 4);
}

#[test]
fn materialize_without_a_project_file_writes_the_profile() {
    let profile = Profile::load_string("p".to_string(), DEFAULT_PROFILE.to_string()).unwrap();
    let text = profile.materialize(None).unwrap();
    assert_eq!(text, toml::to_string(&profile.root).unwrap());
    assert_eq!(
        text,
        "[tool.mypy]\npython_version = \"${TIRE_MIN_PYTHON_VERSION}\"\nstrict = true\nwarn_no_return = true\n\n[tool.ruff]\nline-length = 100\n"
    );
}

#[test]
fn materialize_writes_the_merge() {
    let profile = Profile::load_string("p".to_string(), "[tool.ruff]\nline-length = 100\n".to_string()).unwrap();
    let text = profile.materialize(Some("x = 1.5\n[tool.ruff]\nline-length = 80\n")).unwrap();
    assert_eq!(text, "x = 1.5\n\n[tool.ruff]\nline-length = 80\n");
}

#[test]
fn materialize_refuses_a_broken_project_file() {
    let profile = Profile::load_string("p".to_string(), DEFAULT_PROFILE.to_string()).unwrap();
    match profile.materialize(Some("[tool\nx = ")) {
        Err(ProfileError::De(_)) => {}
        other => panic!("expected a parse error, got {:?}", other),
    }
}

#[test]
fn keys_of_a_table() {
    let table = parse("b = 1\na = 2\n[c]\nd = 3\n");
    let mut keys = tire::table::keys_of(&table);
    keys.sort();
    assert_eq!(keys, vec!["a".to_string(), "b".to_string(), "c".to_string()]);
    assert!(tire::table::keys_of(&Table::new()).is_empty());
}
