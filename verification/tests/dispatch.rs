use configrs::error::ConfigrsError;
use configrs::registry::{Command, Config, Opt};
use configrs::{from_pairs, run, yeet_plan, yoink_plan};

fn pairs(entries: &[(&str, &str)]) -> Vec<(String, String)> {
    entries.iter().map(|(n, p)| (n.to_string(), p.to_string())).collect()
}

fn opt(cmd: Command) -> Opt {
    Opt { cmd, config_file: None }
}

#[test]
fn end_to_end_add_remove_remove() {
    let mut cfg = Config::default();

    let out = run(
        &mut cfg,
        &opt(Command::Add { name: "vimrc".to_string(), file: "/home/u/.vimrc".to_string() }),
    )
    .expect("add always succeeds");
    assert!(out.changed);
    assert_eq!(cfg.repo, pairs(&[("vimrc", "/home/u/.vimrc")]));

    let out = run(&mut cfg, &opt(Command::Remove { name: "vimrc".to_string() }))
        .expect("remove of a present name succeeds");
    assert!(out.changed);
    assert_eq!(out.removed.as_deref(), Some("/home/u/.vimrc"));
    assert!(cfg.repo.is_empty());

    let before = cfg.repo.clone();
    match run(&mut cfg, &opt(Command::Remove { name: "vimrc".to_string() })) {
        Err(ConfigrsError::NotFound(name)) => assert_eq!(name, "vimrc"),
        _ => panic!("second remove must fail with NotFound"),
    }
    assert_eq!(cfg.repo, before);
}

#[test]
fn yoink_plans_one_copy_per_entry_into_the_directory() {
    let cfg = from_pairs("0.1.0".to_string(), pairs(&[("a", "/x/a.conf"), ("b", "/y/b.conf")]));
    let plan = yoink_plan(&cfg, &"/backup".to_string());
    assert_eq!(
        plan,
        pairs(&[("/x/a.conf", "/backup/a"), ("/y/b.conf", "/backup/b")])
    );
}

#[test]
fn yoink_plan_is_the_same_both_times() {
    let cfg = from_pairs("0.1.0".to_string(), pairs(&[("a", "/x/a.conf"), ("b", "/y/b.conf")]));
    let first = yoink_plan(&cfg, &"/backup".to_string());
    let second = yoink_plan(&cfg, &"/backup".to_string());
    assert_eq!(first, second);
}

#[test]
fn yeet_plans_the_inverse_copies() {
    let cfg = from_pairs("0.1.0".to_string(), pairs(&[("a", "/x/a.conf"), ("b", "/y/b.conf")]));
    let plan = yeet_plan(&cfg, &"/backup".to_string());
    assert_eq!(
        plan,
        pairs(&[("/backup/a", "/x/a.conf"), ("/backup/b", "/y/b.conf")])
    );
}

#[test]
fn dispatched_yoink_does_not_mutate_and_asks_for_copies() {
    let mut cfg = from_pairs("0.1.0".to_string(), pairs(&[("a", "/x/a.conf")]));
    let before = cfg.repo.clone();
    let out = run(&mut cfg, &opt(Command::Yoink { directory: "/backup".to_string() }))
        .expect("yoink planning succeeds");
    assert!(!out.changed);
    assert!(out.perform_copies);
    assert_eq!(out.copies, pairs(&[("/x/a.conf", "/backup/a")]));
    assert_eq!(cfg.repo, before);
}

#[test]
fn dry_run_yeet_asks_for_no_writes_at_all() {
    let mut cfg = from_pairs("0.1.0".to_string(), pairs(&[("a", "/x/a.conf"), ("b", "/y/b.conf")]));
    let before = cfg.repo.clone();
    let out = run(
        &mut cfg,
        &opt(Command::Yeet { directory: "/backup".to_string(), dry_run: true }),
    )
    .expect("dry-run yeet always succeeds");
    assert!(!out.changed);
    assert!(!out.perform_copies);
    assert_eq!(out.copies, pairs(&[("/backup/a", "/x/a.conf"), ("/backup/b", "/y/b.conf")]));
    assert_eq!(cfg.repo, before);
}

#[test]
fn real_yeet_asks_for_the_copies_to_be_performed() {
    let mut cfg = from_pairs("0.1.0".to_string(), pairs(&[("a", "/x/a.conf")]));
    let out = run(
        &mut cfg,
        &opt(Command::Yeet { directory: "/backup".to_string(), dry_run: false }),
    )
    .expect("yeet planning succeeds");
    assert!(!out.changed);
    assert!(out.perform_copies);
    assert_eq!(out.copies, pairs(&[("/backup/a", "/x/a.conf")]));
}

#[test]
fn dispatched_edit_hands_back_the_path_without_change() {
    let mut cfg = from_pairs("0.1.0".to_string(), pairs(&[("a", "/x/a.conf")]));
    let before = cfg.repo.clone();
    let out = run(&mut cfg, &opt(Command::Edit { name: "a".to_string() }))
        .expect("edit of a present name succeeds");
    assert!(!out.changed);
    assert_eq!(out.edit_path.as_deref(), Some("/x/a.conf"));
    assert!(out.copies.is_empty());
    assert_eq!(cfg.repo, before);
}

#[test]
fn dispatched_edit_of_absent_name_fails_not_found() {
    let mut cfg = Config::default();
    match run(&mut cfg, &opt(Command::Edit { name: "a".to_string() })) {
        Err(ConfigrsError::NotFound(name)) => assert_eq!(name, "a"),
        _ => panic!("expected NotFound"),
    }
}
