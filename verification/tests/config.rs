use dupes::config::{Config, ConfigError, Mode, Policy};

fn text(value: &str) -> Option<String> {
    Some(value.to_string())
}

#[test]
fn delete_needs_no_target() {
    let config = Config::new(text("tree"), None, Mode::Delete).unwrap();
    assert_eq!(config.source, "tree");
    assert_eq!(config.policy, Policy::Delete);
    assert_eq!(config.mode(), Mode::Delete);
    assert_eq!(config.target(), None);
}

#[test]
fn delete_leaves_a_target_aside() {
    let config = Config::new(text("tree"), text("out"), Mode::Delete).unwrap();
    assert_eq!(config.policy, Policy::Delete);
    assert_eq!(config.target(), None);
}

#[test]
fn relocate_carries_its_target() {
    let config = Config::new(text("tree"), text("out"), Mode::Relocate).unwrap();
    assert_eq!(config.source, "tree");
    assert_eq!(config.policy, Policy::Relocate { target: "out".to_string() });
    assert_eq!(config.mode(), Mode::Relocate);
    assert_eq!(config.target(), Some(&"out".to_string()));
}

#[test]
fn keep_shortest_carries_its_target() {
    let config = Config::new(text("tree"), text("out"), Mode::RelocateKeepShortest).unwrap();
    assert_eq!(
        config.policy,
        Policy::RelocateKeepShortest { target: "out".to_string() }
    );
    assert_eq!(config.mode(), Mode::RelocateKeepShortest);
    assert_eq!(config.target(), Some(&"out".to_string()));
}

#[test]
fn missing_source_is_refused() {
    assert_eq!(Config::new(None, None, Mode::Delete), Err(ConfigError::MissingSource));
    assert_eq!(
        Config::new(None, text("out"), Mode::Relocate),
        Err(ConfigError::MissingSource)
    );
}

#[test]
fn missing_target_is_refused_when_relocating() {
    assert_eq!(
        Config::new(text("tree"), None, Mode::Relocate),
        Err(ConfigError::MissingTarget)
    );
    assert_eq!(
        Config::new(text("tree"), None, Mode::RelocateKeepShortest),
        Err(ConfigError::MissingTarget)
    );
}

#[test]
fn missing_source_is_reported_before_missing_target() {
    assert_eq!(
        Config::new(None, None, Mode::Relocate),
        Err(ConfigError::MissingSource)
    );
    assert_eq!(
        Config::new(None, None, Mode::RelocateKeepShortest),
        Err(ConfigError::MissingSource)
    );
}
