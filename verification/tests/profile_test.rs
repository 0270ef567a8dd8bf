use tire::profile::{is_known_tool, Load, Profile, ProfileError, ValidationError};
use toml::value::Table;
use toml::Value;

fn parse(text: &str) -> Table {
    text.parse().unwrap()
}

fn profile(text: &str) -> Profile {
    Profile::load_string("test".to_string(), text.to_string()).unwrap()
}

fn sorted(mut keys: Vec<String>) -> Vec<String> {
    keys.sort();
    keys
}

#[test]
fn known_tools() {
    assert!(is_known_tool("mypy"));
    assert!(is_known_tool("ruff"));
    assert!(!is_known_tool("pytest"));
    assert!(!is_known_tool("flake8"));
    assert!(!is_known_tool(""));
    assert!(!is_known_tool("mypy "));
}

#[test]
fn load_without_a_name_gives_the_default_profile() {
    match Profile::load(None) {
        Ok(Load::Ready(p)) => {
            assert_eq!(p.name, "default");
            assert!(p.root.contains_key("tool"));
        }
        other => panic!("unexpected: {:?}", other),
    }
    match Profile::load(Some("default".to_string())) {
        Ok(Load::Ready(p)) => assert_eq!(p.name, "default"),
        other => panic!("unexpected: {:?}", other),
    }
}

#[test]
fn load_hands_back_a_url() {
    match Profile::load(Some("https://example.com/p.toml".to_string())) {
        Ok(Load::Fetch(url)) => assert_eq!(url, "https://example.com/p.toml"),
        other => panic!("unexpected: {:?}", other),
    }
    match Profile::load(Some("http://example.com/p.toml".to_string())) {
        Ok(Load::Fetch(url)) => assert_eq!(url, "http://example.com/p.toml"),
        other => panic!("unexpected: {:?}", other),
    }
}

#[test]
fn load_refuses_another_name() {
    for name in ["ftp://example.com/p", "profile.toml", "", "http:/x", "defaults", "xhttp://a"] {
        match Profile::load(Some(name.to_string())) {
            Err(ProfileError::InvalidProfile(n)) => assert_eq!(n, name),
            other => panic!("unexpected: {:?}", other),
        }
    }
}

#[test]
fn load_string_keeps_name_and_document() {
    let p = Profile::load_string("n".to_string(), "[tool.ruff]\nline-length = 7\n".to_string())
        .unwrap();
    assert_eq!(p.name, "n");
    assert_eq!(p.root, parse("[tool.ruff]\nline-length = 7\n"));
}

#[test]
fn load_string_refuses_broken_text() {
    match Profile::load_string("n".to_string(), "[tool".to_string()) {
        Err(ProfileError::De(_)) => {}
        other => panic!("unexpected: {:?}", other),
    }
}

#[test]
fn strict_validation_accepts_the_default_profile() {
    let p = profile(tire::profile::DEFAULT_PROFILE);
    assert!(p.validate_strict().is_ok());
}

#[test]
fn strict_validation_rejects_an_unknown_tool() {
    let p = profile("[tool.mypy]\nstrict = true\n[tool.flake8]\nmax-line-length = 100\n[tool.pytest]\nx = 1\n");
    match p.validate_strict() {
        Err(ValidationError::DisallowedToolKeys(keys)) => {
            assert_eq!(sorted(keys), vec!["flake8".to_string(), "pytest".to_string()])
        }
        other => panic!("unexpected: {:?}", other),
    }
    assert!(p.root.get("tool").is_some());
}

#[test]
fn strict_validation_rejects_a_top_level_key() {
    let p = profile("extra = 1\nmore = 2\n[tool.flake8]\nx = 1\n");
    match p.validate_strict() {
        Err(ValidationError::DisallowedTopLevelKeys(keys)) => {
            assert_eq!(sorted(keys), vec!["extra".to_string(), "more".to_string()])
        }
        other => panic!("unexpected: {:?}", other),
    }
}

#[test]
fn strict_validation_wants_a_tool_table() {
    match profile("").validate_strict() {
        Err(ValidationError::MissingOrInvalidToolKey) => {}
        other => panic!("unexpected: {:?}", other),
    }
    match profile("tool = 3\n").validate_strict() {
        Err(ValidationError::MissingOrInvalidToolKey) => {}
        other => panic!("unexpected: {:?}", other),
    }
}

#[test]
fn lenient_validation_strips_an_unknown_tool() {
    let mut p = profile("[tool.mypy]\nstrict = true\n[tool.flake8]\nmax-line-length = 100\n");
    let repairs = p.validate();
    assert_eq!(repairs.tools, vec!["flake8".to_string()]);
    assert!(repairs.top_level.is_empty());
    assert!(!repairs.tool_missing);
    assert_eq!(p.name, "test");
    assert_eq!(p.root, parse("[tool.mypy]\nstrict = true\n"));
    assert!(p.validate_strict().is_ok());
}

#[test]
fn lenient_validation_strips_a_top_level_key() {
    let mut p = profile("extra = 1\n[tool.ruff]\nline-length = 5\n[other]\nx = 1\n");
    let repairs = p.validate();
    assert_eq!(sorted(repairs.top_level), vec!["extra".to_string(), "other".to_string()]);
    assert!(repairs.tools.is_empty());
    assert!(!repairs.tool_missing);
    assert_eq!(p.root, parse("[tool.ruff]\nline-length = 5\n"));
}

#[test]
fn lenient_validation_drops_a_tool_key_that_is_no_table() {
    let mut p = profile("tool = \"x\"\nextra = 1\n");
    let repairs = p.validate();
    assert!(repairs.tool_missing);
    assert_eq!(repairs.top_level, vec!["extra".to_string()]);
    assert!(repairs.tools.is_empty());
    assert!(p.root.is_empty());

    let mut p = profile("");
    let repairs = p.validate();
    assert!(repairs.tool_missing);
    assert!(p.root.is_empty());
}

#[test]
fn lenient_validation_leaves_a_valid_profile_alone() {
    let mut p = profile(tire::profile::DEFAULT_PROFILE);
    let repairs = p.validate();
    assert!(repairs.top_level.is_empty() && repairs.tools.is_empty() && !repairs.tool_missing);
    assert_eq!(p.root, parse(tire::profile::DEFAULT_PROFILE));
    let again = p.validate();
    assert!(again.top_level.is_empty() && again.tools.is_empty() && !again.tool_missing);
}

#[test]
fn profile_merge_takes_the_project_settings() {
    let p = profile("[tool.ruff]\nline-length = 100\n");
    let mut ruff = Table::new();
    ruff.insert("line-length".to_string(), Value::Integer(80));
    let mut tool = Table::new();
    tool.insert("ruff".to_string(), Value::Table(ruff));
    let mut project = Table::new();
    project.insert("tool".to_string(), Value::Table(tool));
    project.insert("name".to_string(), Value::String("x".to_string()));
    let merged = p.merge(&project);
    assert_eq!(merged, project);
    assert_eq!(merged["tool"]["ruff"]["line-length"], Value::Integer(80));
}
