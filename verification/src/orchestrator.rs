//! The state machine of one key-generation request.
//!
//! The request is stored, one unit of work is started for each party, and
//! every unit is awaited whatever the others do. Only when all of them have
//! reported are the outcomes partitioned, the failures emitted as
//! diagnostics, and the payloads that succeeded stored and returned.
//!
//! The machine decides; its caller does the outside work that an action
//! asks for and hands back what came of it as the next event.

use crate::error::{reply_view, ManagerError, ManagerErrorView};
use crate::keygen::{
    diagnostic_lines, diagnostics_of, report_views, successes_of, text_views, PartyOutcomeView,
    PartyReport, PartyReportView,
};
use crate::request::{KeyGenRequest, KeyGenRequestView};
use vstd::prelude::*;
use vstd::set_lib::{lemma_int_range, lemma_subset_equality, set_int_range};

verus! {

/// Where a key-generation request stands.
#[derive(Debug, PartialEq, Eq)]
pub enum KeygenState {
    /// Nothing has been done yet.
    Idle,
    /// The request is being stored.
    Persisting,
    /// The units are running; `reports` holds the outcomes of those that
    /// have finished, in the order in which they finished.
    Awaiting { reports: Vec<PartyReport> },
    /// Every unit has finished and the diagnostics are being emitted.
    Reporting { reports: Vec<PartyReport> },
    /// The payloads that succeeded are being stored.
    Recording { reports: Vec<PartyReport> },
    /// The payloads that succeeded have been stored and returned.
    Done { reports: Vec<PartyReport> },
    /// The request was given up.
    Failed { error: ManagerError },
}

/// What a [`KeygenState`] holds, as mathematical values.
pub enum KeygenStateView {
    Idle,
    Persisting,
    Awaiting { reports: Seq<PartyReportView> },
    Reporting { reports: Seq<PartyReportView> },
    Recording { reports: Seq<PartyReportView> },
    Done { reports: Seq<PartyReportView> },
    Failed { error: ManagerErrorView },
}

impl View for KeygenState {
    type V = KeygenStateView;

    open spec fn view(&self) -> KeygenStateView {
        match self {
            KeygenState::Idle => KeygenStateView::Idle,
            KeygenState::Persisting => KeygenStateView::Persisting,
            KeygenState::Awaiting { reports } => KeygenStateView::Awaiting {
                reports: report_views(reports@),
            },
            KeygenState::Reporting { reports } => KeygenStateView::Reporting {
                reports: report_views(reports@),
            },
            KeygenState::Recording { reports } => KeygenStateView::Recording {
                reports: report_views(reports@),
            },
            KeygenState::Done { reports } => KeygenStateView::Done {
                reports: report_views(reports@),
            },
            KeygenState::Failed { error } => KeygenStateView::Failed { error: error@ },
        }
    }
}

/// What the caller hands to the machine.
#[derive(Debug, PartialEq, Eq)]
pub enum KeygenEvent {
    /// The request has arrived.
    Started,
    /// Storage has answered the write that was asked for.
    Stored(Result<(), String>),
    /// One unit has finished.
    PartyFinished(PartyReport),
    /// The diagnostics have been emitted.
    Emitted,
}

/// What a [`KeygenEvent`] holds, as mathematical values.
pub enum KeygenEventView {
    Started,
    Stored(Result<(), Seq<char>>),
    PartyFinished(PartyReportView),
    Emitted,
}

impl View for KeygenEvent {
    type V = KeygenEventView;

    open spec fn view(&self) -> KeygenEventView {
        match self {
            KeygenEvent::Started => KeygenEventView::Started,
            KeygenEvent::Stored(reply) => KeygenEventView::Stored(reply_view(*reply)),
            KeygenEvent::PartyFinished(report) => KeygenEventView::PartyFinished(report@),
            KeygenEvent::Emitted => KeygenEventView::Emitted,
        }
    }
}

/// The input of one unit of work. Each unit owns its own copy of the
/// coordinator's address and of the request.
#[derive(Debug, PartialEq, Eq)]
pub struct PartyTask {
    pub party_index: u16,
    pub coordinator_address: String,
    pub request: KeyGenRequest,
}

/// What a [`PartyTask`] holds, as mathematical values.
pub struct PartyTaskView {
    pub party_index: u16,
    pub coordinator_address: Seq<char>,
    pub request: KeyGenRequestView,
}

impl View for PartyTask {
    type V = PartyTaskView;

    open spec fn view(&self) -> PartyTaskView {
        PartyTaskView {
            party_index: self.party_index,
            coordinator_address: self.coordinator_address@,
            request: self.request@,
        }
    }
}

/// The views of a sequence of tasks, in the same order.
pub open spec fn task_views(tasks: Seq<PartyTask>) -> Seq<PartyTaskView> {
    Seq::new(tasks.len(), |i: int| tasks[i]@)
}

/// What the machine asks its caller to do.
#[derive(Debug, PartialEq, Eq)]
pub enum KeygenAction {
    /// Store the request.
    PersistRequest(KeyGenRequest),
    /// Start one unit of work for each task, all of them at once.
    SpawnParties { tasks: Vec<PartyTask> },
    /// Nothing new: go on waiting for the work that is outstanding.
    Wait,
    /// Emit the lines as one diagnostic record.
    EmitDiagnostics { lines: Vec<String> },
    /// Store the payloads under the identifier of the request.
    PersistResult { request_id: String, successes: Vec<String> },
    /// Return the payloads to the author of the request.
    Return { successes: Vec<String> },
    /// Return the error to the author of the request.
    Abort { error: ManagerError },
}

/// What a [`KeygenAction`] holds, as mathematical values.
pub enum KeygenActionView {
    PersistRequest(KeyGenRequestView),
    SpawnParties { tasks: Seq<PartyTaskView> },
    Wait,
    EmitDiagnostics { lines: Seq<Seq<char>> },
    PersistResult { request_id: Seq<char>, successes: Seq<Seq<char>> },
    Return { successes: Seq<Seq<char>> },
    Abort { error: ManagerErrorView },
}

impl View for KeygenAction {
    type V = KeygenActionView;

    open spec fn view(&self) -> KeygenActionView {
        match self {
            KeygenAction::PersistRequest(request) => KeygenActionView::PersistRequest(request@),
            KeygenAction::SpawnParties { tasks } => KeygenActionView::SpawnParties {
                tasks: task_views(tasks@),
            },
            KeygenAction::Wait => KeygenActionView::Wait,
            KeygenAction::EmitDiagnostics { lines } => KeygenActionView::EmitDiagnostics {
                lines: text_views(lines@),
            },
            KeygenAction::PersistResult { request_id, successes } => {
                KeygenActionView::PersistResult {
                    request_id: request_id@,
                    successes: text_views(successes@),
                }
            },
            KeygenAction::Return { successes } => KeygenActionView::Return {
                successes: text_views(successes@),
            },
            KeygenAction::Abort { error } => KeygenActionView::Abort { error: error@ },
        }
    }
}

/// The tasks of a request: one for each party index from 0 up to the
/// number of parties, in order.
pub open spec fn party_tasks(
    request: KeyGenRequestView,
    coordinator_address: Seq<char>,
) -> Seq<PartyTaskView> {
    Seq::new(
        request.keygen_params.parties as nat,
        |i: int| PartyTaskView { party_index: i as u16, coordinator_address, request },
    )
}

/// Whether the unit with index `party_index` is among those that reported.
pub open spec fn has_reported(reports: Seq<PartyReportView>, party_index: u16) -> bool {
    exists|j: int| 0 <= j < reports.len() && #[trigger] reports[j].party_index == party_index
}

/// Whether a report is taken: it is the first of its unit, and the unit is
/// one of the request.
pub open spec fn accepts(
    request: KeyGenRequestView,
    reports: Seq<PartyReportView>,
    report: PartyReportView,
) -> bool {
    report.party_index < request.keygen_params.parties && !has_reported(
        reports,
        report.party_index,
    )
}

/// Where the request stands once `reports` are in, and what to do next:
/// wait while a unit is outstanding; then emit the diagnostics, if there
/// are any; else store the payloads that succeeded.
pub open spec fn settle(request: KeyGenRequestView, reports: Seq<PartyReportView>) -> (
    KeygenStateView,
    KeygenActionView,
) {
    if reports.len() < request.keygen_params.parties {
        (KeygenStateView::Awaiting { reports }, KeygenActionView::Wait)
    } else if diagnostics_of(reports).len() > 0 {
        (
            KeygenStateView::Reporting { reports },
            KeygenActionView::EmitDiagnostics {
                lines: diagnostic_lines(diagnostics_of(reports)),
            },
        )
    } else {
        record(request, reports)
    }
}

/// The step that stores the payloads that succeeded, however few.
pub open spec fn record(request: KeyGenRequestView, reports: Seq<PartyReportView>) -> (
    KeygenStateView,
    KeygenActionView,
) {
    (
        KeygenStateView::Recording { reports },
        KeygenActionView::PersistResult {
            request_id: request.id,
            successes: successes_of(reports),
        },
    )
}

/// The step that gives the request up.
pub open spec fn give_up(error: ManagerErrorView) -> (KeygenStateView, KeygenActionView) {
    (KeygenStateView::Failed { error }, KeygenActionView::Abort { error })
}

/// One step of the machine: the state that follows `state` on `event`, and
/// the action to take. An event that does not fit the state changes
/// nothing.
pub open spec fn keygen_step(
    request: KeyGenRequestView,
    coordinator_address: Seq<char>,
    state: KeygenStateView,
    event: KeygenEventView,
) -> (KeygenStateView, KeygenActionView) {
    match (state, event) {
        (KeygenStateView::Idle, KeygenEventView::Started) => (
            KeygenStateView::Persisting,
            KeygenActionView::PersistRequest(request),
        ),
        (KeygenStateView::Persisting, KeygenEventView::Stored(Ok(_))) => {
            if request.keygen_params.parties == 0 {
                record(request, Seq::empty())
            } else {
                (
                    KeygenStateView::Awaiting { reports: Seq::empty() },
                    KeygenActionView::SpawnParties {
                        tasks: party_tasks(request, coordinator_address),
                    },
                )
            }
        },
        (KeygenStateView::Persisting, KeygenEventView::Stored(Err(reason))) => give_up(
            ManagerErrorView::Persistence(reason),
        ),
        (KeygenStateView::Awaiting { reports }, KeygenEventView::PartyFinished(report)) => {
            if accepts(request, reports, report) {
                settle(request, reports.push(report))
            } else {
                (state, KeygenActionView::Wait)
            }
        },
        (KeygenStateView::Reporting { reports }, KeygenEventView::Emitted) => record(
            request,
            reports,
        ),
        (KeygenStateView::Recording { reports }, KeygenEventView::Stored(Ok(_))) => (
            KeygenStateView::Done { reports },
            KeygenActionView::Return { successes: successes_of(reports) },
        ),
        (KeygenStateView::Recording { reports }, KeygenEventView::Stored(Err(reason))) => give_up(
            ManagerErrorView::Persistence(reason),
        ),
        _ => (state, KeygenActionView::Wait),
    }
}

/// The reports come from units of the request, and no unit reports twice.
pub open spec fn distinct_parties(
    request: KeyGenRequestView,
    reports: Seq<PartyReportView>,
) -> bool {
    &&& forall|j: int|
        0 <= j < reports.len() ==> (#[trigger] reports[j]).party_index
            < request.keygen_params.parties
    &&& forall|i: int, j: int|
        0 <= i < j < reports.len() ==> (#[trigger] reports[i]).party_index != (
        #[trigger] reports[j]).party_index
}

impl KeygenStateView {
    /// The reports that the state holds.
    pub open spec fn reports(self) -> Seq<PartyReportView> {
        match self {
            KeygenStateView::Awaiting { reports } => reports,
            KeygenStateView::Reporting { reports } => reports,
            KeygenStateView::Recording { reports } => reports,
            KeygenStateView::Done { reports } => reports,
            _ => Seq::empty(),
        }
    }

    /// Whether the wait for the units is over: the outcomes have been
    /// partitioned.
    pub open spec fn past_waiting(self) -> bool {
        self is Reporting || self is Recording || self is Done
    }

    /// The invariant of the machine. While it waits, fewer units than the
    /// request has have reported. Once it has gone on, every report is in:
    /// their number is the number of parties.
    pub open spec fn wf(self, request: KeyGenRequestView) -> bool {
        &&& distinct_parties(request, self.reports())
        &&& self is Awaiting ==> self.reports().len() < request.keygen_params.parties
        &&& self.past_waiting() ==> self.reports().len() == request.keygen_params.parties
        &&& self is Reporting ==> diagnostics_of(self.reports()).len() > 0
    }
}

/// The state that a sequence of events leads to, from the start.
pub open spec fn keygen_run(
    request: KeyGenRequestView,
    coordinator_address: Seq<char>,
    events: Seq<KeygenEventView>,
) -> KeygenStateView
    decreases events.len(),
{
    if events.len() == 0 {
        KeygenStateView::Idle
    } else {
        keygen_step(
            request,
            coordinator_address,
            keygen_run(request, coordinator_address, events.drop_last()),
            events.last(),
        ).0
    }
}

/// The events of a request that was stored and of which the units
/// reported in the order of `reports`.
pub open spec fn reporting_events(reports: Seq<PartyReportView>) -> Seq<KeygenEventView> {
    seq![KeygenEventView::Started, KeygenEventView::Stored(Ok(()))] + Seq::new(
        reports.len(),
        |i: int| KeygenEventView::PartyFinished(reports[i]),
    )
}

/// The number of reports of units that did not succeed.
pub open spec fn failure_count(reports: Seq<PartyReportView>) -> nat
    decreases reports.len(),
{
    if reports.len() == 0 {
        0
    } else if reports.last().succeeded() {
        failure_count(reports.drop_last())
    } else {
        failure_count(reports.drop_last()) + 1
    }
}

/// A step keeps the invariant of the machine.
pub proof fn lemma_step_keeps_wf(
    request: KeyGenRequestView,
    coordinator_address: Seq<char>,
    state: KeygenStateView,
    event: KeygenEventView,
)
    requires
        state.wf(request),
    ensures
        keygen_step(request, coordinator_address, state, event).0.wf(request),
{
    let next = keygen_step(request, coordinator_address, state, event).0;
    match (state, event) {
        (KeygenStateView::Awaiting { reports }, KeygenEventView::PartyFinished(report)) => {
            if accepts(request, reports, report) {
                let grown = reports.push(report);
                assert forall|i: int, j: int| 0 <= i < j < grown.len() implies (
                #[trigger] grown[i]).party_index != (#[trigger] grown[j]).party_index by {
                    if j == reports.len() {
                        assert(grown[i] == reports[i]);
                    } else {
                        assert(grown[i] == reports[i] && grown[j] == reports[j]);
                    }
                }
                assert(distinct_parties(request, grown));
                assert(next.reports() == grown);
            }
        },
        _ => {},
    }
}

/// Every state that the machine reaches satisfies its invariant.
pub proof fn lemma_reachable_states_wf(
    request: KeyGenRequestView,
    coordinator_address: Seq<char>,
    events: Seq<KeygenEventView>,
)
    ensures
        keygen_run(request, coordinator_address, events).wf(request),
    decreases events.len(),
{
    if events.len() > 0 {
        lemma_reachable_states_wf(request, coordinator_address, events.drop_last());
        lemma_step_keeps_wf(
            request,
            coordinator_address,
            keygen_run(request, coordinator_address, events.drop_last()),
            events.last(),
        );
    }
}

/// When as many distinct units have reported as the request has parties,
/// every unit has reported.
pub proof fn lemma_full_count_covers_every_party(
    request: KeyGenRequestView,
    reports: Seq<PartyReportView>,
)
    requires
        distinct_parties(request, reports),
        reports.len() == request.keygen_params.parties,
    ensures
        forall|party_index: u16|
            party_index < request.keygen_params.parties ==> has_reported(reports, party_index),
{
    let parties = request.keygen_params.parties as int;
    let indices = Seq::new(reports.len(), |j: int| reports[j].party_index as int);
    assert(indices.no_duplicates()) by {
        assert forall|i: int, j: int|
            0 <= i < indices.len() && 0 <= j < indices.len() && i != j implies indices[i]
            != indices[j] by {
            if i < j {
                assert(reports[i].party_index != reports[j].party_index);
            } else {
                assert(reports[j].party_index != reports[i].party_index);
            }
        }
    }
    indices.unique_seq_to_set();
    lemma_int_range(0, parties);
    let reported = indices.to_set();
    let all = set_int_range(0, parties);
    assert(reported.subset_of(all)) by {
        assert forall|p: int| reported.contains(p) implies all.contains(p) by {
            let j = choose|j: int| 0 <= j < indices.len() && indices[j] == p;
            assert(reports[j].party_index < parties);
        }
    }
    vstd::set_lib::lemma_len_subset(reported, all);
    lemma_subset_equality(reported, all);
    assert forall|party_index: u16| party_index < parties implies has_reported(
        reports,
        party_index,
    ) by {
        assert(all.contains(party_index as int));
        assert(reported.contains(party_index as int));
        let j = choose|j: int| 0 <= j < indices.len() && indices[j] == party_index as int;
        assert(reports[j].party_index == party_index);
    }
}

/// The machine goes past the wait only when every unit of the request has
/// reported, however many of them failed: whatever the events, a state in
/// which the outcomes have been partitioned holds exactly one report for
/// each party.
pub proof fn lemma_every_unit_is_awaited(
    request: KeyGenRequestView,
    coordinator_address: Seq<char>,
    events: Seq<KeygenEventView>,
)
    requires
        keygen_run(request, coordinator_address, events).past_waiting(),
    ensures
        keygen_run(request, coordinator_address, events).reports().len()
            == request.keygen_params.parties,
        distinct_parties(request, keygen_run(request, coordinator_address, events).reports()),
        forall|party_index: u16|
            party_index < request.keygen_params.parties ==> has_reported(
                keygen_run(request, coordinator_address, events).reports(),
                party_index,
            ),
{
    lemma_reachable_states_wf(request, coordinator_address, events);
    lemma_full_count_covers_every_party(
        request,
        keygen_run(request, coordinator_address, events).reports(),
    );
}

/// No report is lost and none is reordered: when the units of a stored
/// request report one after the other, each for the first time, the
/// machine holds their reports in the order in which they came. It waits
/// while fewer units than the request has have reported, and goes on with
/// the last of them.
pub proof fn lemma_reports_are_collected_in_order(
    request: KeyGenRequestView,
    coordinator_address: Seq<char>,
    reports: Seq<PartyReportView>,
)
    requires
        distinct_parties(request, reports),
        reports.len() <= request.keygen_params.parties,
    ensures
        keygen_run(request, coordinator_address, reporting_events(reports)) == settle(
            request,
            reports,
        ).0,
        keygen_run(request, coordinator_address, reporting_events(reports)).reports() == reports,
        reports.len() < request.keygen_params.parties <==> keygen_run(
            request,
            coordinator_address,
            reporting_events(reports),
        ) is Awaiting,
    decreases reports.len(),
{
    let events = reporting_events(reports);
    if reports.len() == 0 {
        assert(events =~= seq![KeygenEventView::Started, KeygenEventView::Stored(Ok(()))]);
        assert(events.drop_last() =~= seq![KeygenEventView::Started]);
        assert(events.drop_last().drop_last() =~= Seq::<KeygenEventView>::empty());
        assert(keygen_run(request, coordinator_address, events.drop_last().drop_last())
            == KeygenStateView::Idle);
        assert(keygen_run(request, coordinator_address, events.drop_last())
            == KeygenStateView::Persisting);
        assert(reports =~= Seq::<PartyReportView>::empty());
    } else {
        let earlier = reports.drop_last();
        let last = reports.last();
        assert(distinct_parties(request, earlier)) by {
            assert forall|j: int| 0 <= j < earlier.len() implies (#[trigger] earlier[j]).party_index
                < request.keygen_params.parties by {
                assert(earlier[j] == reports[j]);
            }
            assert forall|i: int, j: int| 0 <= i < j < earlier.len() implies (
            #[trigger] earlier[i]).party_index != (#[trigger] earlier[j]).party_index by {
                assert(earlier[i] == reports[i] && earlier[j] == reports[j]);
            }
        }
        lemma_reports_are_collected_in_order(request, coordinator_address, earlier);
        assert(events.drop_last() =~= reporting_events(earlier));
        assert(events.last() == KeygenEventView::PartyFinished(last));
        assert(!has_reported(earlier, last.party_index)) by {
            if has_reported(earlier, last.party_index) {
                let j = choose|j: int|
                    0 <= j < earlier.len() && (#[trigger] earlier[j]).party_index
                        == last.party_index;
                assert(earlier[j] == reports[j]);
                assert(reports[j].party_index != reports[reports.len() - 1].party_index);
            }
        }
        assert(last == reports[reports.len() - 1]);
        assert(accepts(request, earlier, last));
        assert(earlier.push(last) =~= reports);
    }
}

/// Diagnostics are emitted, and payloads stored or returned, only once the
/// wait is over: whatever the events before, a step that asks for any of
/// these leads to a state that holds one report for each party of the
/// request.
pub proof fn lemma_results_follow_every_unit(
    request: KeyGenRequestView,
    coordinator_address: Seq<char>,
    events: Seq<KeygenEventView>,
    event: KeygenEventView,
)
    requires
        ({
            let action = keygen_step(
                request,
                coordinator_address,
                keygen_run(request, coordinator_address, events),
                event,
            ).1;
            action is EmitDiagnostics || action is PersistResult || action is Return
        }),
    ensures
        keygen_run(request, coordinator_address, events.push(event)).past_waiting(),
        keygen_run(request, coordinator_address, events.push(event)).reports().len()
            == request.keygen_params.parties,
        forall|party_index: u16|
            party_index < request.keygen_params.parties ==> has_reported(
                keygen_run(request, coordinator_address, events.push(event)).reports(),
                party_index,
            ),
{
    let later = events.push(event);
    assert(later.drop_last() =~= events);
    assert(later.last() == event);
    lemma_every_unit_is_awaited(request, coordinator_address, later);
}

/// Each report adds either a payload or a diagnostic: the payloads number
/// the reports less the failures, and the diagnostics number the failures.
pub proof fn lemma_partition_counts(reports: Seq<PartyReportView>)
    ensures
        diagnostics_of(reports).len() == failure_count(reports),
        successes_of(reports).len() == reports.len() - failure_count(reports),
    decreases reports.len(),
{
    if reports.len() > 0 {
        lemma_partition_counts(reports.drop_last());
    }
}

/// When `k` of the `N` units of a request fail, exactly `N - k` payloads
/// are stored, and the same payloads are returned once storage has
/// confirmed them.
pub proof fn lemma_stores_and_returns_the_successes(
    request: KeyGenRequestView,
    coordinator_address: Seq<char>,
    reports: Seq<PartyReportView>,
)
    requires
        reports.len() == request.keygen_params.parties,
    ensures
        record(request, reports).1 == (KeygenActionView::PersistResult {
            request_id: request.id,
            successes: successes_of(reports),
        }),
        keygen_step(
            request,
            coordinator_address,
            record(request, reports).0,
            KeygenEventView::Stored(Ok(())),
        ).1 == (KeygenActionView::Return { successes: successes_of(reports) }),
        successes_of(reports).len() == request.keygen_params.parties - failure_count(reports),
{
    lemma_partition_counts(reports);
}

/// When every unit fails there is no payload and one diagnostic for each
/// unit.
pub proof fn lemma_all_failed_leaves_no_success(reports: Seq<PartyReportView>)
    requires
        forall|j: int| 0 <= j < reports.len() ==> !(#[trigger] reports[j]).succeeded(),
    ensures
        successes_of(reports) == Seq::<Seq<char>>::empty(),
        diagnostics_of(reports).len() == reports.len(),
        failure_count(reports) == reports.len(),
    decreases reports.len(),
{
    if reports.len() > 0 {
        let earlier = reports.drop_last();
        assert forall|j: int| 0 <= j < earlier.len() implies !(#[trigger] earlier[j]).succeeded() by {
            assert(earlier[j] == reports[j]);
        }
        lemma_all_failed_leaves_no_success(earlier);
        assert(!reports.last().succeeded());
    }
}

/// A request of which every unit failed is not an error: once the last
/// report is in, one diagnostic for each unit is emitted, then the empty
/// sequence of payloads is stored, and then it is returned.
pub proof fn lemma_total_failure_still_completes(
    request: KeyGenRequestView,
    coordinator_address: Seq<char>,
    reports: Seq<PartyReportView>,
)
    requires
        reports.len() == request.keygen_params.parties,
        forall|j: int| 0 <= j < reports.len() ==> !(#[trigger] reports[j]).succeeded(),
    ensures
        diagnostic_lines(diagnostics_of(reports)).len() == request.keygen_params.parties,
        settle(request, reports) == if request.keygen_params.parties > 0 {
            (
                KeygenStateView::Reporting { reports },
                KeygenActionView::EmitDiagnostics {
                    lines: diagnostic_lines(diagnostics_of(reports)),
                },
            )
        } else {
            record(request, reports)
        },
        keygen_step(
            request,
            coordinator_address,
            KeygenStateView::Reporting { reports },
            KeygenEventView::Emitted,
        ) == record(request, reports),
        record(request, reports) == (
            KeygenStateView::Recording { reports },
            KeygenActionView::PersistResult {
                request_id: request.id,
                successes: Seq::<Seq<char>>::empty(),
            },
        ),
        keygen_step(
            request,
            coordinator_address,
            KeygenStateView::Recording { reports },
            KeygenEventView::Stored(Ok(())),
        ) == (
            KeygenStateView::Done { reports },
            KeygenActionView::Return { successes: Seq::<Seq<char>>::empty() },
        ),
{
    lemma_all_failed_leaves_no_success(reports);
}

/// Every diagnostic is that of a report of a unit that did not succeed, and
/// so carries the index of that unit.
pub proof fn lemma_diagnostics_come_from_failures(reports: Seq<PartyReportView>, k: int)
    requires
        0 <= k < diagnostics_of(reports).len(),
    ensures
        exists|j: int|
            0 <= j < reports.len() && (#[trigger] reports[j]).diagnostic() == Some(
                diagnostics_of(reports)[k],
            ),
    decreases reports.len(),
{
    if reports.len() > 0 {
        let earlier = reports.drop_last();
        if k < diagnostics_of(earlier).len() {
            lemma_diagnostics_come_from_failures(earlier, k);
            let j = choose|j: int|
                0 <= j < earlier.len() && (#[trigger] earlier[j]).diagnostic() == Some(
                    diagnostics_of(earlier)[k],
                );
            assert(reports[j] == earlier[j]);
        } else {
            assert(reports[reports.len() - 1].diagnostic() == Some(diagnostics_of(reports)[k]));
        }
    }
}

/// Every payload that is kept is that of a report of a unit that
/// succeeded.
pub proof fn lemma_successes_come_from_reports(reports: Seq<PartyReportView>, k: int)
    requires
        0 <= k < successes_of(reports).len(),
    ensures
        exists|j: int|
            0 <= j < reports.len() && (#[trigger] reports[j]).outcome
                == PartyOutcomeView::Success(successes_of(reports)[k]),
    decreases reports.len(),
{
    if reports.len() > 0 {
        let earlier = reports.drop_last();
        if k < successes_of(earlier).len() {
            lemma_successes_come_from_reports(earlier, k);
            let j = choose|j: int|
                0 <= j < earlier.len() && (#[trigger] earlier[j]).outcome
                    == PartyOutcomeView::Success(successes_of(earlier)[k]);
            assert(reports[j] == earlier[j]);
        } else {
            assert(reports[reports.len() - 1].outcome == PartyOutcomeView::Success(
                successes_of(reports)[k],
            ));
        }
    }
}

/// The payload of every unit that succeeded is kept, and the diagnostic of
/// every unit that did not.
pub proof fn lemma_every_report_is_kept(reports: Seq<PartyReportView>, j: int)
    requires
        0 <= j < reports.len(),
    ensures
        match reports[j].outcome {
            PartyOutcomeView::Success(payload) => successes_of(reports).contains(payload),
            _ => diagnostics_of(reports).contains(reports[j].diagnostic().unwrap()),
        },
    decreases reports.len(),
{
    let earlier = reports.drop_last();
    if j < reports.len() - 1 {
        lemma_every_report_is_kept(earlier, j);
        assert(earlier[j] == reports[j]);
        match reports[j].outcome {
            PartyOutcomeView::Success(payload) => {
                let k = choose|k: int|
                    0 <= k < successes_of(earlier).len() && successes_of(earlier)[k] == payload;
                assert(successes_of(reports)[k] == payload);
            },
            _ => {
                let diagnostic = reports[j].diagnostic().unwrap();
                let k = choose|k: int|
                    0 <= k < diagnostics_of(earlier).len() && diagnostics_of(earlier)[k]
                        == diagnostic;
                assert(diagnostics_of(reports)[k] == diagnostic);
            },
        }
    } else {
        match reports[j].outcome {
            PartyOutcomeView::Success(payload) => {
                assert(successes_of(reports)[successes_of(reports).len() - 1] == payload);
            },
            _ => {
                assert(diagnostics_of(reports)[diagnostics_of(reports).len() - 1]
                    == reports[j].diagnostic().unwrap());
            },
        }
    }
}

} // verus!
