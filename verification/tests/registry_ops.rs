use configrs::error::ConfigrsError;
use configrs::registry::Config;
use configrs::{add, edit, from_pairs, remove};

fn pairs(entries: &[(&str, &str)]) -> Vec<(String, String)> {
    entries.iter().map(|(n, p)| (n.to_string(), p.to_string())).collect()
}

fn sample() -> Config {
    from_pairs("0.1.0".to_string(), pairs(&[("a", "/x/a.conf"), ("b", "/y/b.conf")]))
}

#[test]
fn default_registry_is_empty_with_version() {
    let cfg = Config::default();
    assert_eq!(cfg.version, "0.1.0");
    assert!(cfg.repo.is_empty());
}

#[test]
fn add_then_edit_finds_the_just_added_path() {
    let mut cfg = Config::default();
    add(&mut cfg, &"vimrc".to_string(), &"/home/u/.vimrc".to_string());
    match edit(&cfg, &"vimrc".to_string()) {
        Ok(path) => assert_eq!(path, "/home/u/.vimrc"),
        Err(_) => panic!("just-added name not found"),
    }
}

#[test]
fn add_overwrites_an_existing_name() {
    let mut cfg = Config::default();
    add(&mut cfg, &"rc".to_string(), &"/old".to_string());
    add(&mut cfg, &"rc".to_string(), &"/new".to_string());
    assert_eq!(cfg.repo.len(), 1);
    match edit(&cfg, &"rc".to_string()) {
        Ok(path) => assert_eq!(path, "/new"),
        Err(_) => panic!("overwritten name not found"),
    }
}

#[test]
fn remove_absent_fails_not_found_and_leaves_registry_unchanged() {
    let mut cfg = sample();
    let before = cfg.repo.clone();
    let version_before = cfg.version.clone();
    match remove(&mut cfg, &"missing".to_string()) {
        Err(ConfigrsError::NotFound(name)) => assert_eq!(name, "missing"),
        _ => panic!("expected NotFound"),
    }
    assert_eq!(cfg.repo, before);
    assert_eq!(cfg.version, version_before);
}

#[test]
fn remove_present_deletes_exactly_that_entry() {
    let mut cfg = sample();
    let len_before = cfg.repo.len();
    match remove(&mut cfg, &"a".to_string()) {
        Ok(path) => assert_eq!(path, "/x/a.conf"),
        Err(_) => panic!("present name not removed"),
    }
    assert_eq!(cfg.repo.len(), len_before - 1);
    assert!(matches!(edit(&cfg, &"a".to_string()), Err(ConfigrsError::NotFound(_))));
    match edit(&cfg, &"b".to_string()) {
        Ok(path) => assert_eq!(path, "/y/b.conf"),
        Err(_) => panic!("other entry was disturbed"),
    }
}

#[test]
fn edit_absent_fails_not_found() {
    let cfg = Config::default();
    match edit(&cfg, &"nope".to_string()) {
        Err(ConfigrsError::NotFound(name)) => assert_eq!(name, "nope"),
        _ => panic!("expected NotFound"),
    }
}

#[test]
fn round_trip_through_stored_pairs_is_value_equal() {
    let cfg = from_pairs(
        "0.1.0".to_string(),
        pairs(&[("name with space", "/p/a b.conf"), ("unicode", "/tmp/\u{00fc}bergr\u{00f6}\u{00df}e")]),
    );
    let reloaded = from_pairs(cfg.version.clone(), cfg.repo.clone());
    assert_eq!(reloaded.version, cfg.version);
    assert_eq!(reloaded.repo, cfg.repo);
}

#[test]
fn round_trip_of_empty_registry() {
    let cfg = Config::default();
    let reloaded = from_pairs(cfg.version.clone(), cfg.repo.clone());
    assert_eq!(reloaded.version, cfg.version);
    assert_eq!(reloaded.repo, cfg.repo);
}

#[test]
fn reloading_reordered_pairs_keeps_every_lookup() {
    let cfg = sample();
    let reordered = from_pairs(
        cfg.version.clone(),
        pairs(&[("b", "/y/b.conf"), ("a", "/x/a.conf")]),
    );
    for (name, path) in &cfg.repo {
        match edit(&reordered, name) {
            Ok(found) => assert_eq!(&found, path),
            Err(_) => panic!("reordered registry lost an entry"),
        }
    }
    assert_eq!(reordered.repo.len(), cfg.repo.len());
}

#[test]
fn from_pairs_keeps_the_later_pair_on_a_repeated_name() {
    let cfg = from_pairs("0.1.0".to_string(), pairs(&[("x", "/first"), ("x", "/second")]));
    assert_eq!(cfg.repo.len(), 1);
    match edit(&cfg, &"x".to_string()) {
        Ok(path) => assert_eq!(path, "/second"),
        Err(_) => panic!("deduplicated name not found"),
    }
}

#[test]
fn not_found_message_names_the_missing_entry() {
    let err = ConfigrsError::NotFound("vimrc".to_string());
    assert_eq!(err.message(), "vimrc is not in the repository");
}

#[test]
fn outside_error_messages_carry_their_payload() {
    assert_eq!(ConfigrsError::LoadConfig("bad load".to_string()).message(), "bad load");
    assert_eq!(ConfigrsError::SaveConfig("bad save".to_string()).message(), "bad save");
    assert_eq!(ConfigrsError::Io("copy failed".to_string()).message(), "copy failed");
    assert_eq!(ConfigrsError::Editor("no editor".to_string()).message(), "no editor");
}
