use vstd::prelude::*;

use crate::jobs::FileRecord;
use crate::jobs::JobStatus;
use crate::jobs::RecordView;
use crate::jobs::StatusView;
use crate::jobs::init_record;

verus! {

/// The index of the first record whose identity is `path`, or -1 when no
/// record matches.
pub open spec fn find_record(s: Seq<RecordView>, path: Seq<char>) -> int
    decreases s.len(),
{
    if s.len() == 0 {
        -1
    } else if s[0].path == path {
        0
    } else {
        let rest: int = find_record(s.drop_first(), path);
        if rest == -1 {
            -1
        } else {
            rest + 1
        }
    }
}

pub proof fn lemma_find_record(s: Seq<RecordView>, path: Seq<char>)
    ensures
        find_record(s, path) == -1 ==> forall|j: int| 0 <= j < s.len() ==> s[j].path != path,
        find_record(s, path) != -1 ==> {
            let i: int = find_record(s, path);
            &&& 0 <= i < s.len()
            &&& s[i].path == path
            &&& forall|j: int| 0 <= j < i ==> s[j].path != path
        },
    decreases s.len(),
{
    if s.len() > 0 && s[0].path != path {
        lemma_find_record(s.drop_first(), path);
        let rest: int = find_record(s.drop_first(), path);
        if rest == -1 {
            assert forall|j: int| 0 <= j < s.len() implies s[j].path != path by {
                if j > 0 {
                    assert(s.drop_first()[j - 1] == s[j]);
                }
            }
        } else {
            assert(s.drop_first()[rest] == s[rest + 1]);
            assert forall|j: int| 0 <= j < rest + 1 implies s[j].path != path by {
                if j > 0 {
                    assert(s.drop_first()[j - 1] == s[j]);
                }
            }
        }
    }
}

pub proof fn lemma_find_record_is(s: Seq<RecordView>, path: Seq<char>, i: int)
    requires
        0 <= i < s.len(),
        s[i].path == path,
        forall|j: int| 0 <= j < i ==> s[j].path != path,
    ensures
        find_record(s, path) == i,
    decreases s.len(),
{
    if i > 0 {
        assert(s.drop_first()[i - 1] == s[i]);
        assert forall|j: int| 0 <= j < i - 1 implies s.drop_first()[j].path != path by {
            assert(s.drop_first()[j] == s[j + 1]);
        }
        lemma_find_record_is(s.drop_first(), path, i - 1);
    }
}

/// The first match is decided by the record identities alone.
pub proof fn lemma_find_record_same_paths(s1: Seq<RecordView>, s2: Seq<RecordView>, path: Seq<char>)
    requires
        s1.len() == s2.len(),
        forall|j: int| 0 <= j < s1.len() ==> s1[j].path == s2[j].path,
    ensures
        find_record(s1, path) == find_record(s2, path),
{
    lemma_find_record(s1, path);
    lemma_find_record(s2, path);
    if find_record(s1, path) != -1 {
        lemma_find_record_is(s2, path, find_record(s1, path));
    } else if find_record(s2, path) != -1 {
        let i2: int = find_record(s2, path);
        assert(s1[i2].path == path);
    }
}

/// What one event does to the record it addresses. A terminal record never
/// changes; otherwise the status advances and the timestamps are set the
/// first time work is seen to start or to finish.
pub open spec fn step_record(r: RecordView, st: StatusView, now: u64) -> RecordView {
    if r.status.is_terminal() {
        r
    } else {
        match st {
            StatusView::Pending => r,
            StatusView::Working => RecordView {
                path: r.path,
                status: StatusView::Working,
                started_at: if r.started_at is None {
                    Some(now)
                } else {
                    r.started_at
                },
                finished_at: r.finished_at,
            },
            StatusView::Done(d) => RecordView {
                path: r.path,
                status: StatusView::Done(d),
                started_at: r.started_at,
                finished_at: if r.finished_at is None {
                    Some(now)
                } else {
                    r.finished_at
                },
            },
            StatusView::Error(e) => RecordView {
                path: r.path,
                status: StatusView::Error(e),
                started_at: r.started_at,
                finished_at: if r.finished_at is None {
                    Some(now)
                } else {
                    r.finished_at
                },
            },
        }
    }
}

/// What one event does to the whole ledger: it touches the first record
/// with the event's identity, and nothing else. An event for an unknown
/// identity is ignored.
pub open spec fn apply_spec(s: Seq<RecordView>, path: Seq<char>, st: StatusView, now: u64) -> Seq<
    RecordView,
> {
    let i: int = find_record(s, path);
    if i == -1 {
        s
    } else {
        s.update(i, step_record(s[i], st, now))
    }
}

/// Applying a batch of events, front to back, all stamped with one clock
/// reading.
pub open spec fn apply_events_spec(
    s: Seq<RecordView>,
    evs: Seq<(Seq<char>, StatusView)>,
    now: u64,
) -> Seq<RecordView>
    decreases evs.len(),
{
    if evs.len() == 0 {
        s
    } else {
        apply_events_spec(apply_spec(s, evs[0].0, evs[0].1, now), evs.drop_first(), now)
    }
}

/// The mathematical shape of a drained event batch.
pub open spec fn events_view(evs: Seq<(String, JobStatus)>) -> Seq<(Seq<char>, StatusView)> {
    evs.map_values(|e: (String, JobStatus)| (e.0@, e.1@))
}

pub open spec fn all_terminal_spec(s: Seq<RecordView>) -> bool {
    forall|i: int| 0 <= i < s.len() ==> s[i].status.is_terminal()
}

/// What one consumer round returns: keep going, the run finished, or the
/// user asked to stop early.
#[derive(Clone, Copy, Debug, PartialEq, Eq, Structural)]
pub enum TickOutcome {
    Continue,
    Complete,
    Cancelled,
}

/// The consumer-side table of per-file records. Only its own methods mutate
/// the records, by applying status events; membership is fixed at creation.
pub struct Ledger {
    records: Vec<FileRecord>,
}

impl View for Ledger {
    type V = Seq<RecordView>;

    closed spec fn view(&self) -> Seq<RecordView> {
        self.records@.map_values(|r: FileRecord| r@)
    }
}

impl Ledger {
    /// One fresh `Pending` record per discovered path, in discovery order.
    pub fn new(paths: &Vec<String>) -> (ledger: Ledger)
        ensures
            ledger@.len() == paths@.len(),
            forall|i: int| 0 <= i < paths@.len() ==> ledger@[i] == init_record(paths@[i]@),
    {
        let mut records: Vec<FileRecord> = Vec::new();
        let mut i: usize = 0;
        while i < paths.len()
            invariant
                i <= paths@.len(),
                records@.len() == i,
                forall|j: int| 0 <= j < i ==> records@[j]@ == init_record(paths@[j]@),
            decreases paths@.len() - i,
        {
            records.push(FileRecord::new(paths[i].clone()));
            i = i + 1;
        }
        Ledger { records }
    }

    pub fn len(&self) -> (n: usize)
        ensures
            n == self@.len(),
    {
        self.records.len()
    }

    /// Read-only access to one record, for observers of the run.
    pub fn record_at(&self, i: usize) -> (record: &FileRecord)
        requires
            i < self@.len(),
        ensures
            record@ == self@[i as int],
    {
        &self.records[i]
    }

    /// The position of the first record whose identity is `path`, if any.
    fn position_of(&self, path: &String) -> (r: Option<usize>)
        ensures
            match r {
                Some(i) => i < self@.len() && find_record(self@, path@) == i,
                None => find_record(self@, path@) == -1,
            },
    {
        let len = self.records.len();
        let mut i: usize = 0;
        while i < len
            invariant
                len == self.records@.len(),
                i <= len,
                forall|j: int| 0 <= j < i ==> self@[j].path != path@,
            decreases len - i,
        {
            if self.records[i].path == *path {
                proof {
                    lemma_find_record_is(self@, path@, i as int);
                }
                return Some(i);
            }
            i = i + 1;
        }
        proof {
            lemma_find_record(self@, path@);
            assert(find_record(self@, path@) == -1) by {
                if find_record(self@, path@) != -1 {
                    assert(self@[find_record(self@, path@)].path == path@);
                }
            }
        }
        None
    }

    /// Apply one status event to the record it addresses, stamping `now` on
    /// a first start or first finish. Events for unknown identities and
    /// events for already-terminal records change nothing.
    pub fn apply_event(&mut self, path: &String, status: JobStatus, now: u64)
        ensures
            final(self)@ == apply_spec(old(self)@, path@, status@, now),
    {
        let ghost s0 = self@;
        match self.position_of(path) {
            None => {},
            Some(i) => {
                let ghost records0 = self.records@;
                let mut rec = self.records.remove(i);
                if !rec.status.is_terminal() {
                    match status {
                        JobStatus::Pending => {},
                        JobStatus::Working => {
                            rec.status = JobStatus::Working;
                            if rec.started_at.is_none() {
                                rec.started_at = Some(now);
                            }
                        },
                        JobStatus::Done(d) => {
                            rec.status = JobStatus::Done(d);
                            if rec.finished_at.is_none() {
                                rec.finished_at = Some(now);
                            }
                        },
                        JobStatus::Error(e) => {
                            rec.status = JobStatus::Error(e);
                            if rec.finished_at.is_none() {
                                rec.finished_at = Some(now);
                            }
                        },
                    }
                }
                proof {
                    assert(rec@ == step_record(s0[i as int], status@, now));
                }
                self.records.insert(i, rec);
                proof {
                    let after = records0.remove(i as int).insert(i as int, rec);
                    assert forall|k: int|
                        0 <= k < records0.len() implies after[k] == records0.update(
                        i as int,
                        rec,
                    )[k] by {}
                    assert(self.records@ =~= records0.update(i as int, rec));
                    let target = apply_spec(s0, path@, status@, now);
                    assert forall|k: int| 0 <= k < s0.len() implies self@[k] == target[k] by {
                        if k != i as int {
                            assert(self.records@[k] == records0[k]);
                        }
                    }
                    assert(self@ =~= target);
                }
            },
        }
    }

    pub fn all_terminal(&self) -> (r: bool)
        ensures
            r == all_terminal_spec(self@),
    {
        let len = self.records.len();
        let mut i: usize = 0;
        while i < len
            invariant
                len == self.records@.len(),
                i <= len,
                forall|j: int| 0 <= j < i ==> self@[j].status.is_terminal(),
            decreases len - i,
        {
            if !self.records[i].status.is_terminal() {
                proof {
                    assert(!self@[i as int].status.is_terminal());
                }
                return false;
            }
            i = i + 1;
        }
        true
    }

    /// One round of the consumer loop: apply every drained event, then
    /// decide whether to keep going. A cancellation request wins over
    /// everything else; otherwise the round reports completion exactly when
    /// every record is terminal.
    pub fn consumer_tick(
        &mut self,
        events: Vec<(String, JobStatus)>,
        now: u64,
        cancel_requested: bool,
    ) -> (outcome: TickOutcome)
        ensures
            final(self)@ == apply_events_spec(old(self)@, events_view(events@), now),
            outcome == (if cancel_requested {
                TickOutcome::Cancelled
            } else if all_terminal_spec(final(self)@) {
                TickOutcome::Complete
            } else {
                TickOutcome::Continue
            }),
    {
        let ghost s0 = self@;
        let ghost evs0 = events@;
        let mut events = events;
        while events.len() > 0
            invariant
                apply_events_spec(s0, events_view(evs0), now) == apply_events_spec(
                    self@,
                    events_view(events@),
                    now,
                ),
            decreases events@.len(),
        {
            let ghost epre = events@;
            let pair = events.remove(0);
            let path = pair.0;
            let status = pair.1;
            proof {
                assert(events_view(events@) =~= events_view(epre).drop_first());
            }
            self.apply_event(&path, status, now);
            proof {
                assert(events_view(epre)[0] == (path@, status@));
            }
        }
        proof {
            assert(events_view(events@).len() == 0);
            assert(self@ == apply_events_spec(s0, events_view(evs0), now));
        }
        if cancel_requested {
            TickOutcome::Cancelled
        } else if self.all_terminal() {
            TickOutcome::Complete
        } else {
            TickOutcome::Continue
        }
    }
}

/// Law: terminal states are absorbing. A record already in `Done` or
/// `Error` is left exactly as it is by every further event, whatever its
/// identity or payload.
pub proof fn lemma_terminal_is_absorbing(
    s: Seq<RecordView>,
    path: Seq<char>,
    st: StatusView,
    now: u64,
    i: int,
)
    requires
        0 <= i < s.len(),
        s[i].status.is_terminal(),
    ensures
        apply_spec(s, path, st, now)[i] == s[i],
{
    lemma_find_record(s, path);
}

/// Law: applying an event changes no record's identity and neither adds nor
/// removes records; the ledger's membership is fixed.
pub proof fn lemma_apply_preserves_membership(
    s: Seq<RecordView>,
    path: Seq<char>,
    st: StatusView,
    now: u64,
)
    ensures
        apply_spec(s, path, st, now).len() == s.len(),
        forall|j: int| 0 <= j < s.len() ==> apply_spec(s, path, st, now)[j].path == s[j].path,
{
    lemma_find_record(s, path);
}

/// The transitions the ledger can take a record through: stay put, leave
/// `Pending`, or close out of `Working`. Nothing leaves a terminal state.
pub open spec fn transition_ok(a: StatusView, b: StatusView) -> bool {
    ||| b == a
    ||| (a is Pending && (b is Working || b.is_terminal()))
    ||| (a is Working && b.is_terminal())
}

/// Law: every record moves along the status state machine only; in
/// particular no record ever transitions out of a terminal state.
pub proof fn lemma_apply_follows_state_machine(
    s: Seq<RecordView>,
    path: Seq<char>,
    st: StatusView,
    now: u64,
    i: int,
)
    requires
        0 <= i < s.len(),
    ensures
        transition_ok(s[i].status, apply_spec(s, path, st, now)[i].status),
{
    lemma_find_record(s, path);
}

/// Law: a terminal event lands. Applying `Done` or `Error` to the record it
/// addresses leaves that record in a terminal state — the one just applied,
/// or the terminal state the record already held.
pub proof fn lemma_terminal_event_reaches_terminal(
    s: Seq<RecordView>,
    path: Seq<char>,
    st: StatusView,
    now: u64,
    i: int,
)
    requires
        st.is_terminal(),
        0 <= i < s.len(),
        find_record(s, path) == i,
    ensures
        apply_spec(s, path, st, now)[i].status.is_terminal(),
{
}

/// No two records share an identity; discovery guarantees this upstream.
pub open spec fn unique_paths(s: Seq<RecordView>) -> bool {
    forall|i: int, j: int| 0 <= i < j < s.len() ==> s[i].path != s[j].path
}

/// Law: a ledger built from validated inputs has distinct identities, so
/// the completion law below applies to every run that passed validation.
pub proof fn lemma_new_ledger_has_unique_paths(paths: Seq<String>, s: Seq<RecordView>)
    requires
        crate::cli::no_duplicate_inputs(paths),
        s.len() == paths.len(),
        forall|i: int| 0 <= i < paths.len() ==> s[i] == init_record(paths[i]@),
    ensures
        unique_paths(s),
{
}

/// Somewhere in the batch there is a terminal event for this identity.
pub open spec fn has_terminal_event_for(
    evs: Seq<(Seq<char>, StatusView)>,
    path: Seq<char>,
) -> bool {
    exists|k: int| 0 <= k < evs.len() && evs[k].0 == path && evs[k].1.is_terminal()
}

/// Law: every discovered file ends in exactly one terminal state. If the
/// identities are distinct and the drained batch carries a terminal event
/// for every record that is not already finished, then after applying the
/// batch every record is terminal.
pub proof fn lemma_every_file_ends_terminal(
    s: Seq<RecordView>,
    evs: Seq<(Seq<char>, StatusView)>,
    now: u64,
)
    requires
        unique_paths(s),
        forall|i: int|
            0 <= i < s.len() ==> s[i].status.is_terminal() || has_terminal_event_for(
                evs,
                s[i].path,
            ),
    ensures
        all_terminal_spec(apply_events_spec(s, evs, now)),
    decreases evs.len(),
{
    if evs.len() == 0 {
        assert forall|i: int| 0 <= i < s.len() implies s[i].status.is_terminal() by {
            assert(!has_terminal_event_for(evs, s[i].path));
        }
    } else {
        let path0 = evs[0].0;
        let st0 = evs[0].1;
        let s1 = apply_spec(s, path0, st0, now);
        lemma_apply_preserves_membership(s, path0, st0, now);
        assert forall|i: int, j: int| 0 <= i < j < s1.len() implies s1[i].path != s1[j].path by {
            assert(s1[i].path == s[i].path);
            assert(s1[j].path == s[j].path);
        }
        assert forall|i: int|
            0 <= i < s1.len() implies s1[i].status.is_terminal() || has_terminal_event_for(
            evs.drop_first(),
            s1[i].path,
        ) by {
            if !s1[i].status.is_terminal() {
                if s[i].status.is_terminal() {
                    lemma_terminal_is_absorbing(s, path0, st0, now, i);
                } else {
                    assert(has_terminal_event_for(evs, s[i].path));
                    let k = choose|k: int|
                        0 <= k < evs.len() && evs[k].0 == s[i].path && evs[k].1.is_terminal();
                    if k == 0 {
                        assert forall|j: int| 0 <= j < i implies s[j].path != s[i].path by {}
                        lemma_find_record_is(s, s[i].path, i);
                        lemma_terminal_event_reaches_terminal(s, path0, st0, now, i);
                    } else {
                        assert(evs.drop_first()[k - 1] == evs[k]);
                        assert(s1[i].path == s[i].path);
                    }
                }
            }
        }
        lemma_every_file_ends_terminal(s1, evs.drop_first(), now);
    }
}

/// Law: a worker's event pair finishes its record. Applying `Working` and
/// then a terminal event — the pair a worker emits for one job — leaves the
/// job's record in a terminal state, whatever else the ledger holds.
pub proof fn lemma_worker_events_finish_record(
    s: Seq<RecordView>,
    path: Seq<char>,
    st_term: StatusView,
    now1: u64,
    now2: u64,
    i: int,
)
    requires
        st_term.is_terminal(),
        0 <= i < s.len(),
        find_record(s, path) == i,
    ensures
        apply_spec(
            apply_spec(s, path, StatusView::Working, now1),
            path,
            st_term,
            now2,
        )[i].status.is_terminal(),
{
    let s1 = apply_spec(s, path, StatusView::Working, now1);
    lemma_apply_preserves_membership(s, path, StatusView::Working, now1);
    lemma_find_record_same_paths(s, s1, path);
    lemma_terminal_event_reaches_terminal(s1, path, st_term, now2, i);
}

/// Law: terminal events are idempotent. Once a terminal event has been
/// applied, applying the same event again — at any later clock reading —
/// leaves the whole ledger unchanged.
pub proof fn lemma_terminal_event_idempotent(
    s: Seq<RecordView>,
    path: Seq<char>,
    st: StatusView,
    now1: u64,
    now2: u64,
)
    requires
        st.is_terminal(),
    ensures
        apply_spec(apply_spec(s, path, st, now1), path, st, now2) == apply_spec(
            s,
            path,
            st,
            now1,
        ),
{
    let s1 = apply_spec(s, path, st, now1);
    lemma_find_record(s, path);
    lemma_apply_preserves_membership(s, path, st, now1);
    lemma_find_record_same_paths(s, s1, path);
    if find_record(s, path) != -1 {
        let i: int = find_record(s, path);
        assert(s1[i].status.is_terminal());
        assert(apply_spec(s1, path, st, now2) =~= s1);
    }
}

} // verus!
