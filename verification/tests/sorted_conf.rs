use rust_zero::conf::{Config, ConfigError, Format, Options};
use rust_zero::sorted::SortedSet;

fn chars(s: &str) -> Vec<char> {
    s.chars().collect()
}

#[test]
fn sorted_set_orders_like_string_and_drops_duplicates() {
    let mut s = SortedSet::new();
    for w in ["pear", "apple", "Zebra", "apple", "app"] {
        s.insert(chars(w));
    }
    assert_eq!(s.len(), 4);
    assert_eq!(
        s.to_strings(),
        vec!["Zebra".to_string(), "app".to_string(), "apple".to_string(), "pear".to_string()]
    );
    assert!(s.contains(&chars("app")));
    assert!(!s.contains(&chars("ap")));
    assert_eq!(s.get(0), &chars("Zebra"));
    assert_eq!(s.to_chars().len(), 4);
}

#[test]
fn load_options_builder() {
    let o = Options::new();
    assert!(!o.env);
    let o = o.use_env().build();
    assert!(o.env);
}

#[test]
fn config_picks_format_by_extension() {
    let c = Config::new();
    assert_eq!(c.format_of("conf/app.json").ok(), Some(Format::Json));
    assert_eq!(c.format_of("app.YAML").ok(), Some(Format::Yaml));
    assert_eq!(c.format_of("app.yml").ok(), Some(Format::Yaml));
    assert_eq!(c.format_of("app.toml").ok(), Some(Format::Toml));
    match c.format_of("app.ini") {
        Err(ConfigError::UnsupportedFileType(e)) => assert_eq!(e, "ini"),
        _ => panic!("expected an unsupported type"),
    }
    match c.format_of("Makefile") {
        Err(ConfigError::UnsupportedFileType(e)) => assert_eq!(e, "Makefile"),
        _ => panic!("expected an unsupported type"),
    }
    assert_eq!(
        ConfigError::UnsupportedFileType("ini".to_string()).message(),
        "Unsupported file type: ini"
    );
    assert_eq!(ConfigError::Validation("x".to_string()).message(), "Validation error: x");
}

#[test]
fn config_format_for_lowercased_extension() {
    let c = Config::new();
    assert_eq!(c.format_for_extension("yml").ok(), Some(Format::Yaml));
    assert_eq!(c.format_for_extension("json").ok(), Some(Format::Json));
    match c.format_for_extension("JSON") {
        Err(ConfigError::UnsupportedFileType(e)) => assert_eq!(e, "JSON"),
        _ => panic!("expected an unsupported type"),
    }
}
