use kitsune_hub::catalog::{categories, create_all_installers, find_installer, InstallerModule};
use kitsune_hub::installer::Installer;
use kitsune_hub::registry::Snapshot;
use kitsune_hub::script::{ScriptInstaller, ScriptInstallerConfig, ScriptPaths};
use kitsune_hub::watch::{FileStamp, WatchState};

fn installer(id: &str, category: &str, dir: &str) -> ScriptInstaller {
    let scripts = ScriptPaths {
        install: Some("install.sh".to_string()),
        update: None,
        uninstall: None,
        check: None,
        version: None,
        latest_version: None,
    };
    let config = ScriptInstallerConfig {
        id: id.to_string(),
        name: id.to_uppercase(),
        description: String::new(),
        category: category.to_string(),
        dependencies: Vec::new(),
        scripts,
    };
    ScriptInstaller::new(config, dir.to_string())
}

fn ids(s: &Snapshot) -> Vec<String> {
    s.get_all().iter().map(|i| i.id().to_string()).collect()
}

#[test]
fn reload_of_n_descriptors_gives_n_installers() {
    let snap = Snapshot::from_descriptors(vec![
        Some(installer("a", "dev", "/d")),
        Some(installer("b", "dev", "/d")),
        Some(installer("c", "net", "/d")),
    ]);
    assert_eq!(ids(&snap), vec!["a", "b", "c"]);
    assert_eq!(snap.get("b").unwrap().config.category, "dev");
}

#[test]
fn malformed_descriptor_is_skipped() {
    let snap = Snapshot::from_descriptors(vec![
        Some(installer("a", "dev", "/d")),
        None,
        Some(installer("b", "dev", "/d")),
    ]);
    assert_eq!(ids(&snap), vec!["a", "b"]);
}

#[test]
fn later_descriptor_with_same_id_replaces() {
    let snap = Snapshot::from_descriptors(vec![
        Some(installer("a", "dev", "/one")),
        Some(installer("a", "net", "/two")),
    ]);
    assert_eq!(ids(&snap), vec!["a"]);
    assert_eq!(snap.get("a").unwrap().base_path, "/two");
}

#[test]
fn empty_snapshot_finds_nothing() {
    let snap = Snapshot::empty();
    assert!(snap.get_all().is_empty());
    assert!(snap.get("a").is_none());
}

#[test]
fn unknown_id_is_not_found_anywhere() {
    let builtins = create_all_installers();
    assert!(builtins.is_empty());
    let snap = Snapshot::from_descriptors(vec![Some(installer("a", "dev", "/d"))]);
    assert!(find_installer(&builtins, &snap, "missing").is_none());
    assert_eq!(find_installer(&builtins, &snap, "a").unwrap().id(), "a");
}

#[test]
fn builtins_are_searched_first() {
    let builtins = vec![installer("a", "builtin", "/b")];
    let snap = Snapshot::from_descriptors(vec![Some(installer("a", "dev", "/d"))]);
    assert_eq!(find_installer(&builtins, &snap, "a").unwrap().category(), "builtin");
}

#[test]
fn categories_are_distinct_and_sorted() {
    let builtins = vec![installer("z", "web", "/b")];
    let snap = Snapshot::from_descriptors(vec![
        Some(installer("a", "net", "/d")),
        Some(installer("b", "dev", "/d")),
        Some(installer("c", "net", "/d")),
    ]);
    assert_eq!(categories(&builtins, &snap), vec!["dev", "net", "web"]);
}

#[test]
fn module_registration_replaces_same_id() {
    let mut module = InstallerModule::new();
    module.register(installer("a", "dev", "/one"));
    module.register(installer("b", "dev", "/one"));
    module.register(installer("a", "net", "/two"));
    assert_eq!(module.get_all().len(), 2);
    assert_eq!(module.get("a").unwrap().base_path, "/two");
    assert!(module.get("c").is_none());
}

fn stamp(path: &str, modified: u64) -> FileStamp {
    FileStamp { path: path.to_string(), modified }
}

#[test]
fn poll_reports_only_change_triggering_ticks() {
    let mut watch = WatchState::new();
    assert!(!watch.tick(&vec![]));
    assert!(watch.tick(&vec![stamp("a.json", 10), stamp("b.json", 10)]));
    assert!(!watch.tick(&vec![stamp("a.json", 10), stamp("b.json", 10)]));
    assert!(watch.tick(&vec![stamp("a.json", 11), stamp("b.json", 10)]));
    assert!(!watch.tick(&vec![stamp("a.json", 11), stamp("b.json", 10)]));
    assert!(!watch.tick(&vec![stamp("a.json", 5)]));
    assert!(watch.tick(&vec![stamp("a.json", 5), stamp("c.json", 1)]));
}

#[test]
fn observe_single_file() {
    let mut watch = WatchState::new();
    assert!(watch.observe(&"a.json".to_string(), 3));
    assert!(!watch.observe(&"a.json".to_string(), 3));
    assert!(watch.observe(&"a.json".to_string(), 4));
}
