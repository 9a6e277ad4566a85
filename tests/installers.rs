use kitsune_hub::installer::{compute_can_update, Installer};
use kitsune_hub::script::{ScriptAction, ScriptInstaller, ScriptInstallerConfig, ScriptPaths};

fn paths() -> ScriptPaths {
    ScriptPaths {
        install: None,
        update: None,
        uninstall: None,
        check: None,
        version: None,
        latest_version: None,
    }
}

fn config(id: &str, category: &str, scripts: ScriptPaths) -> ScriptInstallerConfig {
    ScriptInstallerConfig {
        id: id.to_string(),
        name: format!("{} name", id),
        description: format!("{} description", id),
        category: category.to_string(),
        dependencies: vec!["base".to_string()],
        scripts,
    }
}

fn with_all_scripts() -> ScriptInstaller {
    let scripts = ScriptPaths {
        install: Some("install.sh".to_string()),
        update: Some("update.sh".to_string()),
        uninstall: Some("".to_string()),
        check: Some("probe.sh".to_string()),
        version: Some("version.sh".to_string()),
        latest_version: Some("latest.sh".to_string()),
    };
    ScriptInstaller::new(config("tool", "dev", scripts), "/opt/descriptors".to_string())
}

#[test]
fn can_update_same_versions_is_false() {
    let cur = Some("1.0".to_string());
    let latest = Some("1.0".to_string());
    assert!(!compute_can_update(true, &cur, &latest));
}

#[test]
fn can_update_different_versions_is_true() {
    let cur = Some("1.0".to_string());
    let latest = Some("2.0".to_string());
    assert!(compute_can_update(true, &cur, &latest));
}

#[test]
fn can_update_not_installed_is_false() {
    let latest = Some("2.0".to_string());
    assert!(!compute_can_update(false, &None, &latest));
}

#[test]
fn can_update_missing_latest_is_false() {
    let cur = Some("1.0".to_string());
    assert!(!compute_can_update(true, &cur, &None));
}

#[test]
fn check_absent_is_never_installed() {
    let inst = ScriptInstaller::new(config("x", "dev", paths()), "/nowhere".to_string());
    assert!(!inst.check_installed(&Ok("1".to_string())));
    assert!(!inst.check_installed(&Ok("installed".to_string())));
    assert!(!inst.check_installed(&Err("boom".to_string())));
    assert_eq!(inst.script_for(ScriptAction::Check), None);
}

#[test]
fn check_output_markers() {
    let inst = with_all_scripts();
    assert!(inst.check_installed(&Ok("1\n".to_string())));
    assert!(inst.check_installed(&Ok("  TRUE  ".to_string())));
    assert!(inst.check_installed(&Ok("Installed\n".to_string())));
    assert!(!inst.check_installed(&Ok("".to_string())));
    assert!(!inst.check_installed(&Ok("yes".to_string())));
    assert!(!inst.check_installed(&Err("true".to_string())));
}

#[test]
fn versions_are_trimmed_text() {
    let inst = with_all_scripts();
    assert_eq!(inst.get_current_version(&Ok("  1.2.3\n".to_string())), Some("1.2.3".to_string()));
    assert_eq!(inst.get_latest_version(&Ok("v2 beta\n".to_string())), Some("v2 beta".to_string()));
    assert_eq!(inst.get_current_version(&Err("failed".to_string())), None);
    let bare = ScriptInstaller::new(config("x", "dev", paths()), "/d".to_string());
    assert_eq!(bare.get_latest_version(&Ok("3.0".to_string())), None);
}

#[test]
fn script_references_resolve_against_base() {
    let inst = with_all_scripts();
    assert_eq!(inst.script_path(""), None);
    assert_eq!(inst.script_path("a.sh"), Some("/opt/descriptors/a.sh".to_string()));
    assert_eq!(
        inst.script_for(ScriptAction::Install),
        Some("/opt/descriptors/install.sh".to_string())
    );
    assert_eq!(inst.script_for(ScriptAction::Uninstall), None);
}

#[test]
fn operation_results_carry_messages() {
    let ok = ScriptInstaller::operation_result(ScriptAction::Install, &Ok("  done\n".to_string()))
        .unwrap();
    assert!(ok.success);
    assert_eq!(ok.message, "Installation finished: done");
    let err = ScriptInstaller::operation_result(ScriptAction::Update, &Err("boom".to_string()));
    assert_eq!(err.unwrap_err(), "Update error: boom");
    let ok = ScriptInstaller::operation_result(ScriptAction::Uninstall, &Ok("gone".to_string()))
        .unwrap();
    assert_eq!(ok.message, "Removal finished: gone");
}

#[test]
fn info_of_installed_outdated_tool() {
    let inst = with_all_scripts();
    let info = inst.get_info(true, Some("1.0".to_string()), Some("2.0".to_string()));
    assert_eq!(info.id, "tool");
    assert_eq!(info.name, "tool name");
    assert_eq!(info.category, "dev");
    assert!(info.installed);
    assert!(info.can_update);
    assert_eq!(info.dependencies, vec!["base".to_string()]);
}

#[test]
fn info_of_missing_tool_drops_current_version() {
    let inst = with_all_scripts();
    let info = inst.get_info(false, Some("1.0".to_string()), Some("2.0".to_string()));
    assert!(!info.installed);
    assert_eq!(info.current_version, None);
    assert_eq!(info.latest_version, Some("2.0".to_string()));
    assert!(!info.can_update);
}

#[test]
fn accessors_read_the_descriptor() {
    let inst = with_all_scripts();
    assert_eq!(inst.id(), "tool");
    assert_eq!(inst.name(), "tool name");
    assert_eq!(inst.description(), "tool description");
    assert_eq!(inst.category(), "dev");
    assert_eq!(inst.dependencies(), vec!["base".to_string()]);
}
