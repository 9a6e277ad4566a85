use vstd::prelude::*;
use vstd::string::StringExecFns;
use crate::script::ScriptAction;
use crate::installer::{
    BatchInstallRequest, BatchInstallResponse, InstallProgress, InstallResult, InstallStatus,
};

verus! {

/// What became of the install call for one item of a batch.
pub enum ItemOutcome {
    /// No installer has the item's id.
    NotFound,
    /// The install ran to completion, successfully or not.
    Finished(InstallResult),
    /// The install call itself failed.
    Error(String),
}

/// A log entry to be written for an item of a batch.
pub struct LogLine {
    pub action: String,
    pub status: String,
    pub message: String,
    pub output: String,
}

/// Whether an item ends as completed.
pub open spec fn outcome_succeeded(o: ItemOutcome) -> bool {
    match o {
        ItemOutcome::Finished(r) => r.success,
        _ => false,
    }
}

/// The final message of an item.
pub open spec fn outcome_message(o: ItemOutcome) -> Seq<char> {
    match o {
        ItemOutcome::NotFound => "installer not found"@,
        ItemOutcome::Finished(r) => r.message@,
        ItemOutcome::Error(e) => "Error: "@ + e@,
    }
}

/// The output recorded in the log for an item's final entry.
pub open spec fn outcome_output(o: ItemOutcome) -> Seq<char> {
    match o {
        ItemOutcome::NotFound => Seq::empty(),
        _ => outcome_message(o),
    }
}

/// Completed and failed are final.
pub open spec fn is_terminal(s: InstallStatus) -> bool {
    s == InstallStatus::Completed || s == InstallStatus::Failed
}

/// How many items have the given status.
pub open spec fn count_status(items: Seq<InstallProgress>, s: InstallStatus) -> nat
    decreases items.len(),
{
    if items.len() == 0 {
        0
    } else {
        count_status(items.drop_last(), s) + if items.last().status == s {
            1nat
        } else {
            0nat
        }
    }
}

fn outcome_message_text(o: &ItemOutcome) -> (r: String)
    ensures
        r@ == outcome_message(*o),
{
    match o {
        ItemOutcome::NotFound => "installer not found".to_owned(),
        ItemOutcome::Finished(r) => r.message.clone(),
        ItemOutcome::Error(e) => "Error: ".to_owned().concat(e.as_str()),
    }
}

/// The name an action is logged under.
pub open spec fn action_name(action: ScriptAction) -> Seq<char> {
    match action {
        ScriptAction::Install => "install"@,
        ScriptAction::Update => "update"@,
        ScriptAction::Uninstall => "uninstall"@,
        ScriptAction::Check => "check"@,
        ScriptAction::Version => "version"@,
        ScriptAction::LatestVersion => "latest_version"@,
    }
}

fn action_name_text(action: ScriptAction) -> (r: String)
    ensures
        r@ == action_name(action),
{
    match action {
        ScriptAction::Install => "install".to_owned(),
        ScriptAction::Update => "update".to_owned(),
        ScriptAction::Uninstall => "uninstall".to_owned(),
        ScriptAction::Check => "check".to_owned(),
        ScriptAction::Version => "version".to_owned(),
        ScriptAction::LatestVersion => "latest_version".to_owned(),
    }
}

/// The message logged when an operation starts.
pub open spec fn start_message(action: ScriptAction) -> Seq<char> {
    match action {
        ScriptAction::Install => "starting installation"@,
        ScriptAction::Update => "starting update"@,
        ScriptAction::Uninstall => "starting removal"@,
        _ => "starting"@,
    }
}

/// The entry logged when an operation on an installer starts.
pub fn operation_started(action: ScriptAction) -> (r: LogLine)
    ensures
        r.action@ == action_name(action),
        r.status@ == "started"@,
        r.message@ == start_message(action),
        r.output@ == Seq::<char>::empty(),
{
    let message = match action {
        ScriptAction::Install => "starting installation".to_owned(),
        ScriptAction::Update => "starting update".to_owned(),
        ScriptAction::Uninstall => "starting removal".to_owned(),
        _ => "starting".to_owned(),
    };
    LogLine { action: action_name_text(action), status: "started".to_owned(), message, output: String::new() }
}

/// The response to a single operation and the entry logged for it: a
/// result is passed on as it is, an error becomes a failed result that
/// carries the error text.
pub fn operation_finished(action: ScriptAction, outcome: Result<InstallResult, String>) -> (r: (
    InstallResult,
    LogLine,
))
    ensures
        r.1.action@ == action_name(action),
        match outcome {
            Ok(res) => {
                &&& r.0 == res
                &&& r.1.status@ == (if res.success {
                    "success"@
                } else {
                    "failed"@
                })
                &&& r.1.message@ == res.message@
                &&& r.1.output@ == res.message@
            },
            Err(e) => {
                &&& !r.0.success
                &&& r.0.message@ == e@
                &&& r.1.status@ == "failed"@
                &&& r.1.message@ == e@
                &&& r.1.output@ == e@
            },
        },
{
    match outcome {
        Ok(res) => {
            let status = if res.success {
                "success".to_owned()
            } else {
                "failed".to_owned()
            };
            let line = LogLine {
                action: action_name_text(action),
                status,
                message: res.message.clone(),
                output: res.message.clone(),
            };
            (res, line)
        },
        Err(e) => {
            let line = LogLine {
                action: action_name_text(action),
                status: "failed".to_owned(),
                message: e.clone(),
                output: e.clone(),
            };
            (InstallResult { success: false, message: e }, line)
        },
    }
}

/// A batch in progress: items are taken strictly in the order requested.
pub struct BatchRun {
    ids: Vec<String>,
    items: Vec<InstallProgress>,
    next: usize,
    started: bool,
    completed: usize,
    failed: usize,
}

impl BatchRun {
    /// The requested ids.
    pub closed spec fn ids_view(self) -> Seq<String> {
        self.ids@
    }

    /// The state of every item.
    pub closed spec fn items_view(self) -> Seq<InstallProgress> {
        self.items@
    }

    /// Index of the item being processed; the length of the batch once done.
    pub closed spec fn position(self) -> int {
        self.next as int
    }

    /// Whether the item at `position` has been started.
    pub closed spec fn in_flight(self) -> bool {
        self.started
    }

    /// Items before `position` are final, those after it pending, and the
    /// counters count the final ones.
    pub closed spec fn wf(self) -> bool {
        &&& self.items@.len() == self.ids@.len()
        &&& self.next <= self.ids@.len()
        &&& self.started ==> self.next < self.ids@.len()
        &&& forall|i: int| 0 <= i < self.items@.len() ==> #[trigger] self.items@[i].id@ == self.ids@[i]@
        &&& forall|i: int|
            0 <= i < self.next ==> is_terminal(#[trigger] self.items@[i].status) && self.items@[i].progress == 100
        &&& forall|i: int|
            self.next < i < self.items@.len() ==> #[trigger] self.items@[i].status == InstallStatus::Pending
                && self.items@[i].progress == 0
        &&& self.next < self.items@.len() ==> if self.started {
            self.items@[self.next as int].status == InstallStatus::Installing
                && self.items@[self.next as int].progress == 30
        } else {
            self.items@[self.next as int].status == InstallStatus::Pending
                && self.items@[self.next as int].progress == 0
        }
        &&& self.completed == count_status(self.items@.take(self.next as int), InstallStatus::Completed)
        &&& self.failed == count_status(self.items@.take(self.next as int), InstallStatus::Failed)
        &&& self.completed + self.failed == self.next
    }
    /// A batch with one pending item per requested id, in request order.
    pub fn new(request: &BatchInstallRequest) -> (r: BatchRun)
        ensures
            r.wf(),
            r.ids_view().len() == request.ids@.len(),
            forall|i: int| 0 <= i < request.ids@.len() ==> #[trigger] r.ids_view()[i]@ == request.ids@[i]@,
            r.items_view().len() == request.ids@.len(),
            forall|i: int|
                0 <= i < request.ids@.len() ==> #[trigger] r.items_view()[i].status == InstallStatus::Pending
                    && r.items_view()[i].progress == 0 && r.items_view()[i].id@ == request.ids@[i]@,
            r.position() == 0,
            !r.in_flight(),
    {
        let mut ids: Vec<String> = Vec::new();
        let mut items: Vec<InstallProgress> = Vec::new();
        let mut i: usize = 0;
        while i < request.ids.len()
            invariant
                i <= request.ids@.len(),
                ids@.len() == i,
                items@.len() == i,
                forall|k: int| 0 <= k < i ==> #[trigger] ids@[k]@ == request.ids@[k]@,
                forall|k: int| 0 <= k < i ==> #[trigger] items@[k].id@ == ids@[k]@,
                forall|k: int|
                    0 <= k < i ==> #[trigger] items@[k].status == InstallStatus::Pending
                        && items@[k].progress == 0,
            decreases request.ids.len() - i,
        {
            ids.push(request.ids[i].clone());
            items.push(
                InstallProgress {
                    id: request.ids[i].clone(),
                    status: InstallStatus::Pending,
                    progress: 0,
                    message: "waiting".to_owned(),
                },
            );
            i = i + 1;
        }
        let r = BatchRun { ids, items, next: 0, started: false, completed: 0, failed: 0 };
        assert(r.items@.take(0) =~= Seq::<InstallProgress>::empty());
        r
    }

    /// Whether every item has reached a final state.
    pub fn is_done(&self) -> (r: bool)
        requires
            self.wf(),
        ensures
            r == (self.position() == self.ids_view().len()),
    {
        self.next == self.ids.len()
    }

    /// The id of the item to process next.
    pub fn current_id(&self) -> (r: &String)
        requires
            self.wf(),
            self.position() < self.ids_view().len(),
        ensures
            *r == self.ids_view()[self.position()],
    {
        &self.ids[self.next]
    }

    /// Marks the next item as installing and gives the entry to log for it.
    pub fn start_item(&mut self) -> (r: LogLine)
        requires
            old(self).wf(),
            old(self).position() < old(self).ids_view().len(),
            !old(self).in_flight(),
        ensures
            final(self).wf(),
            final(self).in_flight(),
            final(self).position() == old(self).position(),
            final(self).ids_view() == old(self).ids_view(),
            final(self).items_view() == old(self).items_view().update(
                old(self).position(),
                final(self).items_view()[old(self).position()],
            ),
            final(self).items_view()[old(self).position()].status == InstallStatus::Installing,
            final(self).items_view()[old(self).position()].progress == 30,
            r.action@ == action_name(ScriptAction::Install),
            r.status@ == "started"@,
            r.message@ == start_message(ScriptAction::Install),
            r.output@ == Seq::<char>::empty(),
    {
        let j = self.next;
        let ghost pre = self.items@;
        self.items[j] = InstallProgress {
            id: self.ids[j].clone(),
            status: InstallStatus::Installing,
            progress: 30,
            message: "installing".to_owned(),
        };
        self.started = true;
        assert(self.items@.take(j as int) =~= pre.take(j as int));
        operation_started(ScriptAction::Install)
    }

    /// Records the final state of the item in flight and gives the entry to
    /// log for it; the batch moves on to the next item.
    pub fn finish_item(&mut self, outcome: &ItemOutcome) -> (r: LogLine)
        requires
            old(self).wf(),
            old(self).in_flight(),
        ensures
            final(self).wf(),
            !final(self).in_flight(),
            final(self).position() == old(self).position() + 1,
            final(self).ids_view() == old(self).ids_view(),
            final(self).items_view() == old(self).items_view().update(
                old(self).position(),
                final(self).items_view()[old(self).position()],
            ),
            final(self).items_view()[old(self).position()].status == (if outcome_succeeded(*outcome) {
                InstallStatus::Completed
            } else {
                InstallStatus::Failed
            }),
            final(self).items_view()[old(self).position()].progress == 100,
            final(self).items_view()[old(self).position()].message@ == outcome_message(*outcome),
            r.action@ == action_name(ScriptAction::Install),
            r.status@ == (if outcome_succeeded(*outcome) {
                "success"@
            } else {
                "failed"@
            }),
            r.message@ == outcome_message(*outcome),
            r.output@ == outcome_output(*outcome),
    {
        let j = self.next;
        let ghost pre = self.items@;
        let succeeded = match outcome {
            ItemOutcome::Finished(res) => res.success,
            _ => false,
        };
        let status = if succeeded {
            InstallStatus::Completed
        } else {
            InstallStatus::Failed
        };
        let message = outcome_message_text(outcome);
        let output = match outcome {
            ItemOutcome::NotFound => String::new(),
            _ => message.clone(),
        };
        self.items[j] = InstallProgress {
            id: self.ids[j].clone(),
            status,
            progress: 100,
            message: message.clone(),
        };
        let n = self.ids.len();
        assert(self.completed + self.failed == j && j < n);
        if succeeded {
            self.completed = self.completed + 1;
        } else {
            self.failed = self.failed + 1;
        }
        self.next = j + 1;
        self.started = false;
        proof {
            let t = self.items@.take(j + 1);
            assert(t.drop_last() =~= pre.take(j as int));
            assert(t.last() == self.items@[j as int]);
        }
        LogLine {
            action: action_name_text(ScriptAction::Install),
            status: if succeeded {
                "success".to_owned()
            } else {
                "failed".to_owned()
            },
            message,
            output,
        }
    }

    /// The final report: every requested id exactly once, in request order.
    pub fn into_response(self) -> (r: BatchInstallResponse)
        requires
            self.wf(),
            self.position() == self.ids_view().len(),
        ensures
            r.total == self.ids_view().len(),
            r.progress@ == self.items_view(),
            r.completed == count_status(r.progress@, InstallStatus::Completed),
            r.failed == count_status(r.progress@, InstallStatus::Failed),
            r.completed + r.failed == r.total,
            forall|i: int| 0 <= i < r.progress@.len() ==> #[trigger] r.progress@[i].id@ == self.ids_view()[i]@,
            forall|i: int|
                0 <= i < r.progress@.len() ==> is_terminal(#[trigger] r.progress@[i].status)
                    && r.progress@[i].progress == 100,
    {
        assert(self.items@.take(self.next as int) =~= self.items@);
        BatchInstallResponse {
            total: self.ids.len(),
            completed: self.completed,
            failed: self.failed,
            progress: self.items,
        }
    }
}

} // verus!
