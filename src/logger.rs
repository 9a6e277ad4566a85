use vstd::prelude::*;

verus! {

/// Relies on `chrono::Utc::now` and `DateTime::to_rfc3339`: the current UTC time
/// as RFC 3339 text. Nothing is promised of its value.
#[verifier::external_body]
fn now_rfc3339() -> (r: String) {
    chrono::Utc::now().to_rfc3339()
}

/// One recorded action of an installer. Entries are never changed once written.
#[derive(Debug, Clone)]
pub struct LogEntry {
    pub timestamp: String,
    pub action: String,
    pub status: String,
    pub message: String,
    pub output: String,
}

/// The durable record of one installer: its whole history, in order.
#[derive(Debug, Clone)]
pub struct InstallerLogs {
    pub installer_id: String,
    pub entries: Vec<LogEntry>,
}

impl LogEntry {
    /// A field-for-field copy.
    pub fn duplicate(&self) -> (r: LogEntry)
        ensures
            r == *self,
    {
        LogEntry {
            timestamp: self.timestamp.clone(),
            action: self.action.clone(),
            status: self.status.clone(),
            message: self.message.clone(),
            output: self.output.clone(),
        }
    }
}

/// A copy of a sequence of entries.
pub fn copy_entries(entries: &Vec<LogEntry>) -> (r: Vec<LogEntry>)
    ensures
        r@ == entries@,
{
    let mut r: Vec<LogEntry> = Vec::new();
    let mut i: usize = 0;
    while i < entries.len()
        invariant
            i <= entries.len(),
            r@ == entries@.take(i as int),
        decreases entries.len() - i,
    {
        r.push(entries[i].duplicate());
        i = i + 1;
        assert(r@ =~= entries@.take(i as int));
    }
    assert(entries@.take(i as int) =~= entries@);
    r
}

/// `post` is `pre` with one more entry at the end.
pub open spec fn appends_one(pre: Seq<LogEntry>, post: Seq<LogEntry>) -> bool {
    post.len() == pre.len() + 1 && post.drop_last() == pre
}

/// The entries of the last record for `id` among recovered records, or none.
pub open spec fn last_with_id(recs: Seq<InstallerLogs>, id: Seq<char>) -> Seq<LogEntry>
    decreases recs.len(),
{
    if recs.len() == 0 {
        Seq::empty()
    } else if recs.last().installer_id@ == id {
        recs.last().entries@
    } else {
        last_with_id(recs.drop_last(), id)
    }
}

/// The log store: for each installer id, its entries in the order they were
/// logged.
pub struct Logger {
    logs_dir: String,
    records: Vec<InstallerLogs>,
}

impl Logger {
    /// No two records share an installer id.
    pub closed spec fn wf(self) -> bool {
        forall|i: int, j: int|
            0 <= i < self.records@.len() && 0 <= j < self.records@.len() && i != j
                ==> self.records@[i].installer_id@ != self.records@[j].installer_id@
    }

    /// The directory the records are persisted in.
    pub closed spec fn dir(self) -> Seq<char> {
        self.logs_dir@
    }

    /// The directory the records are persisted in.
    pub fn logs_dir(&self) -> (r: &str)
        ensures
            r@ == self.dir(),
    {
        self.logs_dir.as_str()
    }

    /// Whether the store holds a record for `id`.
    pub closed spec fn has_record(self, id: Seq<char>) -> bool {
        exists|i: int| 0 <= i < self.records@.len() && self.records@[i].installer_id@ == id
    }

    /// The entries logged for `id`, oldest first; empty for an unknown id.
    pub closed spec fn entries_of(self, id: Seq<char>) -> Seq<LogEntry> {
        if self.has_record(id) {
            let i = choose|i: int| 0 <= i < self.records@.len() && self.records@[i].installer_id@ == id;
            self.records@[i].entries@
        } else {
            Seq::empty()
        }
    }

    proof fn lemma_entries_at(self, j: int)
        requires
            self.wf(),
            0 <= j < self.records@.len(),
        ensures
            self.entries_of(self.records@[j].installer_id@) == self.records@[j].entries@,
    {
        let id = self.records@[j].installer_id@;
        assert(self.has_record(id));
    }

    fn find(&self, id: &String) -> (r: Option<usize>)
        requires
            self.wf(),
        ensures
            match r {
                Some(j) => j < self.records@.len() && self.records@[j as int].installer_id@ == id@,
                None => !self.has_record(id@),
            },
    {
        let mut i: usize = 0;
        while i < self.records.len()
            invariant
                i <= self.records@.len(),
                forall|k: int| 0 <= k < i ==> self.records@[k].installer_id@ != id@,
            decreases self.records.len() - i,
        {
            if self.records[i].installer_id == *id {
                return Some(i);
            }
            i = i + 1;
        }
        None
    }
    fn put(&mut self, rec: InstallerLogs)
        requires
            old(self).wf(),
        ensures
            final(self).wf(),
            final(self).dir() == old(self).dir(),
            final(self).entries_of(rec.installer_id@) == rec.entries@,
            forall|id: Seq<char>|
                id != rec.installer_id@ ==> #[trigger] final(self).entries_of(id) == old(self).entries_of(id),
    {
        let ghost pre = *self;
        let ghost key = rec.installer_id@;
        match self.find(&rec.installer_id) {
            Some(j) => {
                self.records[j] = rec;
                proof {
                    self.lemma_entries_at(j as int);
                    assert forall|id: Seq<char>| id != key implies #[trigger] self.entries_of(id) == pre.entries_of(id) by {
                        if pre.has_record(id) {
                            let k = choose|k: int| 0 <= k < pre.records@.len() && pre.records@[k].installer_id@ == id;
                            pre.lemma_entries_at(k);
                            self.lemma_entries_at(k);
                        }
                        if self.has_record(id) {
                            let k = choose|k: int| 0 <= k < self.records@.len() && self.records@[k].installer_id@ == id;
                            assert(pre.records@[k] == self.records@[k]);
                        }
                    }
                }
            },
            None => {
                self.records.push(rec);
                proof {
                    let n = pre.records@.len() as int;
                    self.lemma_entries_at(n);
                    assert forall|id: Seq<char>| id != key implies #[trigger] self.entries_of(id) == pre.entries_of(id) by {
                        if pre.has_record(id) {
                            let k = choose|k: int| 0 <= k < pre.records@.len() && pre.records@[k].installer_id@ == id;
                            pre.lemma_entries_at(k);
                            assert(self.records@[k] == pre.records@[k]);
                            self.lemma_entries_at(k);
                        }
                        if self.has_record(id) {
                            let k = choose|k: int| 0 <= k < self.records@.len() && self.records@[k].installer_id@ == id;
                            assert(k < n);
                            assert(pre.records@[k] == self.records@[k]);
                        }
                    }
                }
            },
        }
    }

    /// The store seeded from recovered records, in the order they were read;
    /// where two records carry the same id, the later one wins.
    pub fn new(logs_dir: String, recovered: &Vec<InstallerLogs>) -> (r: Logger)
        ensures
            r.wf(),
            r.dir() == logs_dir@,
            forall|id: Seq<char>| #[trigger] r.entries_of(id) == last_with_id(recovered@, id),
    {
        let mut r = Logger { logs_dir, records: Vec::new() };
        let mut i: usize = 0;
        while i < recovered.len()
            invariant
                i <= recovered@.len(),
                r.wf(),
                r.dir() == logs_dir@,
                forall|id: Seq<char>| #[trigger] r.entries_of(id) == last_with_id(recovered@.take(i as int), id),
            decreases recovered.len() - i,
        {
            let rec = InstallerLogs {
                installer_id: recovered[i].installer_id.clone(),
                entries: copy_entries(&recovered[i].entries),
            };
            r.put(rec);
            i = i + 1;
            proof {
                let t = recovered@.take(i as int);
                assert(t.drop_last() =~= recovered@.take(i - 1));
                assert(t.last() == recovered@[i - 1]);
                assert forall|id: Seq<char>| #[trigger] r.entries_of(id) == last_with_id(t, id) by {
                    assert(last_with_id(t, id) == if t.last().installer_id@ == id {
                        t.last().entries@
                    } else {
                        last_with_id(t.drop_last(), id)
                    });
                }
            }
        }
        assert(recovered@.take(i as int) =~= recovered@);
        r
    }

    /// The entries logged for an installer, oldest first; empty when none were.
    pub fn get_logs(&self, installer_id: &str) -> (r: Vec<LogEntry>)
        requires
            self.wf(),
        ensures
            r@ == self.entries_of(installer_id@),
    {
        let key = installer_id.to_owned();
        match self.find(&key) {
            Some(j) => {
                proof {
                    self.lemma_entries_at(j as int);
                }
                copy_entries(&self.records[j].entries)
            },
            None => Vec::new(),
        }
    }

    /// The record of every installer that has entries, in no particular order.
    pub fn get_all_logs(&self) -> (r: Vec<InstallerLogs>)
        requires
            self.wf(),
        ensures
            forall|i: int|
                0 <= i < r@.len() ==> #[trigger] self.entries_of(r@[i].installer_id@)
                    == r@[i].entries@,
            forall|id: Seq<char>|
                self.entries_of(id).len() > 0 ==> exists|i: int|
                    0 <= i < r@.len() && #[trigger] r@[i].installer_id@ == id,
    {
        let mut r: Vec<InstallerLogs> = Vec::new();
        let mut i: usize = 0;
        while i < self.records.len()
            invariant
                i <= self.records@.len(),
                self.wf(),
                r@.len() == i,
                forall|k: int|
                    0 <= k < i ==> r@[k].installer_id@ == self.records@[k].installer_id@
                        && r@[k].entries@ == self.records@[k].entries@,
            decreases self.records.len() - i,
        {
            let rec = InstallerLogs {
                installer_id: self.records[i].installer_id.clone(),
                entries: copy_entries(&self.records[i].entries),
            };
            r.push(rec);
            i = i + 1;
        }
        proof {
            assert forall|k: int|
                0 <= k < r@.len() implies #[trigger] self.entries_of(r@[k].installer_id@)
                    == r@[k].entries@ by {
                self.lemma_entries_at(k);
            }
            assert forall|id: Seq<char>|
                self.entries_of(id).len() > 0 implies exists|k: int|
                    0 <= k < r@.len() && #[trigger] r@[k].installer_id@ == id by {
                let k = choose|k: int| 0 <= k < self.records@.len() && self.records@[k].installer_id@ == id;
                assert(r@[k].installer_id@ == id);
            }
        }
        r
    }

    /// Appends an entry, stamped with the current UTC time, to the history
    /// of `installer_id`, and returns that installer's whole record, to be
    /// persisted in place of the previous one.
    pub fn log(
        &mut self,
        installer_id: &str,
        action: &str,
        status: &str,
        message: &str,
        output: &str,
    ) -> (r: InstallerLogs)
        requires
            old(self).wf(),
        ensures
            final(self).wf(),
            final(self).dir() == old(self).dir(),
            appends_one(old(self).entries_of(installer_id@), final(self).entries_of(installer_id@)),
            final(self).entries_of(installer_id@).last().action@ == action@,
            final(self).entries_of(installer_id@).last().status@ == status@,
            final(self).entries_of(installer_id@).last().message@ == message@,
            final(self).entries_of(installer_id@).last().output@ == output@,
            forall|id: Seq<char>|
                id != installer_id@ ==> #[trigger] final(self).entries_of(id) == old(self).entries_of(id),
            r.installer_id@ == installer_id@,
            r.entries@ == final(self).entries_of(installer_id@),
    {
        let entry = LogEntry {
            timestamp: now_rfc3339(),
            action: action.to_owned(),
            status: status.to_owned(),
            message: message.to_owned(),
            output: output.to_owned(),
        };
        let mut entries = self.get_logs(installer_id);
        let ghost before = entries@;
        entries.push(entry);
        assert(entries@.drop_last() =~= before);
        let copy = copy_entries(&entries);
        self.put(InstallerLogs { installer_id: installer_id.to_owned(), entries });
        InstallerLogs { installer_id: installer_id.to_owned(), entries: copy }
    }
}

/// Logging accumulates: over a run of calls that each append one entry to
/// an installer's history, the final history is the first one followed by
/// the appended entries, in call order.
pub proof fn lemma_logs_accumulate(hist: Seq<Seq<LogEntry>>)
    requires
        hist.len() >= 1,
        forall|i: int| 0 <= i < hist.len() - 1 ==> appends_one(#[trigger] hist[i], hist[i + 1]),
    ensures
        hist.last().len() == hist[0].len() + hist.len() - 1,
        hist.last().take(hist[0].len() as int) == hist[0],
        forall|i: int|
            1 <= i < hist.len() ==> hist.last()[hist[0].len() + i - 1] == #[trigger] hist[i].last(),
    decreases hist.len(),
{
    if hist.len() > 1 {
        let h = hist.drop_last();
        assert forall|i: int| 0 <= i < h.len() - 1 implies appends_one(#[trigger] h[i], h[i + 1]) by {
            assert(h[i] == hist[i] && h[i + 1] == hist[i + 1]);
        }
        lemma_logs_accumulate(h);
        let n = hist.len() - 1;
        assert(appends_one(hist[n - 1], hist[n]));
        let last = hist.last();
        let prev = h.last();
        assert(prev == hist[n - 1]);
        assert(last.drop_last() == prev);
        assert(last.take(hist[0].len() as int) =~= prev.take(hist[0].len() as int));
        assert forall|i: int| 1 <= i < hist.len() implies last[hist[0].len() + i - 1] == #[trigger] hist[i].last() by {
            if i < n {
                assert(h[i] == hist[i]);
                assert(prev[hist[0].len() + i - 1] == h[i].last());
                assert(last[hist[0].len() + i - 1] == prev[hist[0].len() + i - 1]);
            }
        }
    }
}

/// Recovery reproduces a persisted history: when the record written for an
/// installer is the only one with its id among the recovered records, the
/// recovered store holds exactly its entries for that id.
pub proof fn lemma_recovery_reproduces(recovered: Seq<InstallerLogs>, j: int)
    requires
        0 <= j < recovered.len(),
        forall|k: int|
            0 <= k < recovered.len() && k != j ==> recovered[k].installer_id@ != recovered[j].installer_id@,
    ensures
        last_with_id(recovered, recovered[j].installer_id@) == recovered[j].entries@,
    decreases recovered.len(),
{
    if j != recovered.len() - 1 {
        let d = recovered.drop_last();
        assert forall|k: int| 0 <= k < d.len() && k != j implies d[k].installer_id@ != d[j].installer_id@ by {
            assert(d[k] == recovered[k]);
        }
        lemma_recovery_reproduces(d, j);
        assert(d[j] == recovered[j]);
    }
}

} // verus!
