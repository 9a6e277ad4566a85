use kitsune_hub::batch::{operation_finished, operation_started, BatchRun, ItemOutcome};
use kitsune_hub::installer::{BatchInstallRequest, InstallResult, InstallStatus};
use kitsune_hub::script::ScriptAction;

fn run(ids: &[&str], outcomes: Vec<ItemOutcome>) -> (kitsune_hub::installer::BatchInstallResponse, Vec<String>) {
    let request = BatchInstallRequest { ids: ids.iter().map(|s| s.to_string()).collect() };
    let mut batch = BatchRun::new(&request);
    let mut statuses = Vec::new();
    let mut outcomes = outcomes.into_iter();
    while !batch.is_done() {
        let started = batch.start_item();
        statuses.push(started.status);
        let line = batch.finish_item(&outcomes.next().unwrap());
        statuses.push(line.status);
    }
    (batch.into_response(), statuses)
}

fn ok(message: &str) -> ItemOutcome {
    ItemOutcome::Finished(InstallResult { success: true, message: message.to_string() })
}

#[test]
fn batch_with_missing_installer() {
    let (resp, logged) = run(&["a", "missing", "b"], vec![ok("a done"), ItemOutcome::NotFound, ok("b done")]);
    assert_eq!(resp.total, 3);
    assert_eq!(resp.completed, 2);
    assert_eq!(resp.failed, 1);
    let ids: Vec<&str> = resp.progress.iter().map(|p| p.id.as_str()).collect();
    assert_eq!(ids, vec!["a", "missing", "b"]);
    assert_eq!(resp.progress[0].status, InstallStatus::Completed);
    assert_eq!(resp.progress[1].status, InstallStatus::Failed);
    assert_eq!(resp.progress[1].message, "installer not found");
    assert_eq!(resp.progress[2].status, InstallStatus::Completed);
    assert_eq!(resp.progress[2].message, "b done");
    assert!(resp.progress.iter().all(|p| p.progress == 100));
    assert_eq!(logged, vec!["started", "success", "started", "failed", "started", "success"]);
}

#[test]
fn batch_errors_and_business_failures_fail_items() {
    let failed = ItemOutcome::Finished(InstallResult { success: false, message: "nope".to_string() });
    let (resp, _) = run(&["x", "y"], vec![failed, ItemOutcome::Error("boom".to_string())]);
    assert_eq!(resp.completed, 0);
    assert_eq!(resp.failed, 2);
    assert_eq!(resp.progress[0].message, "nope");
    assert_eq!(resp.progress[1].message, "Error: boom");
}

#[test]
fn empty_batch() {
    let (resp, logged) = run(&[], vec![]);
    assert_eq!(resp.total, 0);
    assert_eq!(resp.completed, 0);
    assert_eq!(resp.failed, 0);
    assert!(resp.progress.is_empty());
    assert!(logged.is_empty());
}

#[test]
fn started_item_is_installing() {
    let request = BatchInstallRequest { ids: vec!["a".to_string()] };
    let mut batch = BatchRun::new(&request);
    assert_eq!(batch.current_id(), "a");
    let line = batch.start_item();
    assert_eq!(line.action, "install");
    assert_eq!(line.message, "starting installation");
    assert!(!batch.is_done());
    batch.finish_item(&ok("fine"));
    assert!(batch.is_done());
}

#[test]
fn single_operation_error_becomes_failed_result() {
    let (res, line) = operation_finished(ScriptAction::Uninstall, Err("no script".to_string()));
    assert!(!res.success);
    assert_eq!(res.message, "no script");
    assert_eq!(line.action, "uninstall");
    assert_eq!(line.status, "failed");
    assert_eq!(line.output, "no script");
    let started = operation_started(ScriptAction::Update);
    assert_eq!(started.action, "update");
    assert_eq!(started.status, "started");
}

#[test]
fn single_operation_result_passes_through() {
    let given = InstallResult { success: false, message: "partial".to_string() };
    let (res, line) = operation_finished(ScriptAction::Install, Ok(given));
    assert!(!res.success);
    assert_eq!(res.message, "partial");
    assert_eq!(line.status, "failed");
    assert_eq!(line.message, "partial");
}
