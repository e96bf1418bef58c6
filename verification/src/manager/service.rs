//! The manager service.

use crate::coordinator::{
    direct_step, notification_for, queued_step, Notification, SigningAction, SigningEvent,
    SigningState,
};
use crate::digest::{digest, room_id_of};
use crate::error::{ManagerError, ManagerErrorView};
use crate::keygen::{describe_all, partition_outcomes, report_views, PartyReport};
use crate::orchestrator::{
    has_reported, keygen_step, party_tasks, task_views, KeygenAction, KeygenEvent, KeygenState,
    PartyTask,
};
use crate::request::{KeyGenRequest, SigningRequest};
use crate::room::{registry_create, RoomRegistry, RoomView};
use vstd::prelude::*;

verus! {

/// The coordination core of the manager: the registry of signing rooms and
/// the configuration that requests are handled with.
pub struct ManagerService {
    /// The rooms of the signing requests handled so far.
    pub signing_rooms: RoomRegistry,
    /// The number of parties whose cooperation a usable result requires.
    /// It is kept for the layers above and is not enforced here.
    pub threshold: u16,
    /// The capacity of the rooms that are created.
    pub total_parties: u16,
}

/// What a [`ManagerService`] holds, as mathematical values.
pub struct ManagerServiceView {
    pub signing_rooms: Map<Seq<char>, RoomView>,
    pub threshold: u16,
    pub total_parties: u16,
}

impl View for ManagerService {
    type V = ManagerServiceView;

    open spec fn view(&self) -> ManagerServiceView {
        ManagerServiceView {
            signing_rooms: self.signing_rooms@,
            threshold: self.threshold,
            total_parties: self.total_parties,
        }
    }
}

/// Whether the unit with index `party_index` is among those that reported.
fn already_reported(reports: &Vec<PartyReport>, party_index: u16) -> (found: bool)
    ensures
        found == has_reported(report_views(reports@), party_index),
{
    let mut i: usize = 0;
    while i < reports.len()
        invariant
            i <= reports.len(),
            forall|j: int| 0 <= j < i ==> report_views(reports@)[j].party_index != party_index,
        decreases reports.len() - i,
    {
        if reports[i].party_index == party_index {
            assert(report_views(reports@)[i as int].party_index == party_index);
            return true;
        }
        i = i + 1;
    }
    false
}

/// The tasks of a request: one for each party, each with its own copy of
/// the coordinator's address and of the request.
fn plan_tasks(request: &KeyGenRequest, manager_addr: &String) -> (tasks: Vec<PartyTask>)
    ensures
        task_views(tasks@) == party_tasks(request@, manager_addr@),
{
    let mut tasks: Vec<PartyTask> = Vec::new();
    let mut party_index: u16 = 0;
    while party_index < request.keygen_params.parties
        invariant
            party_index <= request.keygen_params.parties,
            tasks@.len() == party_index,
            forall|i: int|
                0 <= i < party_index ==> (#[trigger] tasks@[i])@ == party_tasks(
                    request@,
                    manager_addr@,
                )[i],
        decreases request.keygen_params.parties - party_index,
    {
        tasks.push(
            PartyTask {
                party_index,
                coordinator_address: manager_addr.clone(),
                request: request.clone(),
            },
        );
        party_index = party_index + 1;
    }
    assert(task_views(tasks@) =~= party_tasks(request@, manager_addr@));
    tasks
}

/// The step that stores the payloads that succeeded.
fn record_step(request: &KeyGenRequest, reports: Vec<PartyReport>) -> (next: (
    KeygenState,
    KeygenAction,
))
    ensures
        (next.0@, next.1@) == crate::orchestrator::record(request@, report_views(reports@)),
{
    let (successes, _) = partition_outcomes(&reports);
    (
        KeygenState::Recording { reports },
        KeygenAction::PersistResult { request_id: request.id.clone(), successes },
    )
}

/// The step that gives a signing request up.
fn abandon_step(error: ManagerError) -> (next: (SigningState, SigningAction))
    ensures
        (next.0@, next.1@) == crate::coordinator::abandon(error@),
{
    let returned = error.clone();
    (SigningState::Failed { error }, SigningAction::Abort { error: returned })
}

/// The step that gives the request up for a failure of storage.
fn storage_failure(reason: String) -> (next: (KeygenState, KeygenAction))
    ensures
        (next.0@, next.1@) == crate::orchestrator::give_up(ManagerErrorView::Persistence(reason@)),
{
    let error = ManagerError::Persistence(reason);
    let returned = error.clone();
    (KeygenState::Failed { error }, KeygenAction::Abort { error: returned })
}

impl ManagerService {
    /// A manager with an empty registry. The signing timeout is accepted
    /// for the layers above: nothing here enforces it.
    pub fn new(signing_timeout: u64, threshold: u16, total_parties: u16) -> (service: ManagerService)
        ensures
            service@.signing_rooms == Map::<Seq<char>, RoomView>::empty(),
            service@.threshold == threshold,
            service@.total_parties == total_parties,
    {
        ManagerService { signing_rooms: RoomRegistry::new(), threshold, total_parties }
    }

    /// Opens the room of a message: the room is created under the digest
    /// of the message, with the capacity that the manager is configured
    /// with, and takes the place of a room that was there before.
    pub fn initiate_signing(&mut self, message: &[u8]) -> (room_id: String)
        ensures
            room_id@ == room_id_of(message@),
            final(self)@.signing_rooms == registry_create(
                old(self)@.signing_rooms,
                room_id_of(message@),
                old(self)@.total_parties,
            ),
            final(self)@.threshold == old(self)@.threshold,
            final(self)@.total_parties == old(self)@.total_parties,
    {
        let room_id = digest(message);
        self.signing_rooms.create_or_get(room_id.clone(), self.total_parties);
        room_id
    }

    /// The notification that tells the party `party_number` of `request`.
    /// It is addressed by the number of the party and by the room of the
    /// message, so that the party finds the pending request by its room.
    pub fn notify_signer(&self, party_number: u16, request: &SigningRequest) -> (notification:
        Notification)
        ensures
            notification@ == notification_for(party_number, request@),
    {
        Notification {
            party_number,
            room_id: digest(request.message.as_slice()),
            request: request.clone(),
        }
    }

    /// The step that turns to the party at position `next` of the roster.
    fn notify_step(&self, request: &SigningRequest, roster: Vec<u16>, next: usize) -> (step: (
        SigningState,
        SigningAction,
    ))
        ensures
            (step.0@, step.1@) == crate::coordinator::notify_from(request@, roster@, next as nat),
    {
        if next < roster.len() {
            let notification = self.notify_signer(roster[next], request);
            (SigningState::Notifying { roster, next }, SigningAction::Notify(notification))
        } else {
            (SigningState::Done, SigningAction::Finish)
        }
    }

    /// One step of a signing request on the direct path: given where the
    /// request stands and what has just happened, where it stands next and
    /// what to do.
    ///
    /// The request is stored first, and a failure to store it ends the
    /// request. Then its room is opened and the parties on the roster of
    /// the room are notified one at a time, in the order of their numbers.
    /// The first notification that fails ends the request: the parties
    /// after it are not notified.
    pub fn handle_signing_request(
        &mut self,
        request: &SigningRequest,
        state: SigningState,
        event: SigningEvent,
    ) -> (next: (SigningState, SigningAction))
        ensures
            (final(self)@.signing_rooms, next.0@, next.1@) == direct_step(
                old(self)@.signing_rooms,
                old(self)@.total_parties,
                request@,
                state@,
                event@,
            ),
            final(self)@.threshold == old(self)@.threshold,
            final(self)@.total_parties == old(self)@.total_parties,
    {
        match state {
            SigningState::Idle => match event {
                SigningEvent::Started => (
                    SigningState::Persisting,
                    SigningAction::PersistRequest(request.clone()),
                ),
                _ => (SigningState::Idle, SigningAction::Wait),
            },
            SigningState::Persisting => match event {
                SigningEvent::Stored(Ok(_)) => {
                    let room_id = self.initiate_signing(request.message.as_slice());
                    match self.signing_rooms.read(room_id.as_str()) {
                        Some(room) => self.notify_step(request, room.member_info, 0),
                        None => (SigningState::Done, SigningAction::Finish),
                    }
                },
                SigningEvent::Stored(Err(reason)) => abandon_step(ManagerError::Persistence(reason)),
                _ => (SigningState::Persisting, SigningAction::Wait),
            },
            SigningState::Notifying { roster, next } => match event {
                SigningEvent::Notified(Ok(_)) => {
                    if next < roster.len() {
                        self.notify_step(request, roster, next + 1)
                    } else {
                        (SigningState::Done, SigningAction::Finish)
                    }
                },
                SigningEvent::Notified(Err(reason)) => abandon_step(ManagerError::Transport(reason)),
                _ => (SigningState::Notifying { roster, next }, SigningAction::Wait),
            },
            SigningState::Publishing => (SigningState::Publishing, SigningAction::Wait),
            SigningState::Done => (SigningState::Done, SigningAction::Wait),
            SigningState::Failed { error } => (SigningState::Failed { error }, SigningAction::Wait),
        }
    }

    /// One step of a signing request on the queued path: given where the
    /// request stands and what has just happened, where it stands next and
    /// what to do.
    ///
    /// The request is stored and then handed to the queue, which
    /// distributes it: no room is opened and no party is notified from
    /// here. A failure of either step ends the request.
    pub fn process_signing_request(
        &self,
        request: &SigningRequest,
        state: SigningState,
        event: SigningEvent,
    ) -> (next: (SigningState, SigningAction))
        ensures
            (next.0@, next.1@) == queued_step(request@, state@, event@),
    {
        match state {
            SigningState::Idle => match event {
                SigningEvent::Started => (
                    SigningState::Persisting,
                    SigningAction::PersistRequest(request.clone()),
                ),
                _ => (SigningState::Idle, SigningAction::Wait),
            },
            SigningState::Persisting => match event {
                SigningEvent::Stored(Ok(_)) => (
                    SigningState::Publishing,
                    SigningAction::Publish(request.clone()),
                ),
                SigningEvent::Stored(Err(reason)) => abandon_step(ManagerError::Persistence(reason)),
                _ => (SigningState::Persisting, SigningAction::Wait),
            },
            SigningState::Publishing => match event {
                SigningEvent::Published(Ok(_)) => (SigningState::Done, SigningAction::Finish),
                SigningEvent::Published(Err(reason)) => abandon_step(
                    ManagerError::Transport(reason),
                ),
                _ => (SigningState::Publishing, SigningAction::Wait),
            },
            SigningState::Notifying { roster, next } => (
                SigningState::Notifying { roster, next },
                SigningAction::Wait,
            ),
            SigningState::Done => (SigningState::Done, SigningAction::Wait),
            SigningState::Failed { error } => (SigningState::Failed { error }, SigningAction::Wait),
        }
    }

    /// One step of a key-generation request: given where the request
    /// stands and what has just happened, where it stands next and what to
    /// do.
    ///
    /// The request is stored first, and a failure to store it ends the
    /// request. Then one unit is started for each party, and every one of
    /// them is awaited: a report neither ends the wait early nor stops the
    /// other units. When the last unit has reported, the failures are
    /// emitted as diagnostics, and the payloads that succeeded are stored
    /// and returned, whether or not there are enough of them to meet any
    /// threshold.
    pub fn process_keygen_request(
        &self,
        request: &KeyGenRequest,
        manager_addr: &String,
        state: KeygenState,
        event: KeygenEvent,
    ) -> (next: (KeygenState, KeygenAction))
        ensures
            (next.0@, next.1@) == keygen_step(request@, manager_addr@, state@, event@),
    {
        match state {
            KeygenState::Idle => match event {
                KeygenEvent::Started => (
                    KeygenState::Persisting,
                    KeygenAction::PersistRequest(request.clone()),
                ),
                _ => (KeygenState::Idle, KeygenAction::Wait),
            },
            KeygenState::Persisting => match event {
                KeygenEvent::Stored(Ok(_)) => {
                    if request.keygen_params.parties == 0 {
                        let reports: Vec<PartyReport> = Vec::new();
                        assert(report_views(reports@) =~= Seq::empty());
                        record_step(request, reports)
                    } else {
                        let reports: Vec<PartyReport> = Vec::new();
                        assert(report_views(reports@) =~= Seq::empty());
                        let tasks = plan_tasks(request, manager_addr);
                        (KeygenState::Awaiting { reports }, KeygenAction::SpawnParties { tasks })
                    }
                },
                KeygenEvent::Stored(Err(reason)) => storage_failure(reason),
                _ => (KeygenState::Persisting, KeygenAction::Wait),
            },
            KeygenState::Awaiting { reports } => match event {
                KeygenEvent::PartyFinished(report) => {
                    if report.party_index < request.keygen_params.parties && !already_reported(
                        &reports,
                        report.party_index,
                    ) {
                        let ghost before = report_views(reports@);
                        let mut reports = reports;
                        reports.push(report);
                        assert(report_views(reports@) =~= before.push(report@));
                        if reports.len() < request.keygen_params.parties as usize {
                            (KeygenState::Awaiting { reports }, KeygenAction::Wait)
                        } else {
                            let (_, diagnostics) = partition_outcomes(&reports);
                            if diagnostics.len() > 0 {
                                let lines = describe_all(&diagnostics);
                                (
                                    KeygenState::Reporting { reports },
                                    KeygenAction::EmitDiagnostics { lines },
                                )
                            } else {
                                record_step(request, reports)
                            }
                        }
                    } else {
                        (KeygenState::Awaiting { reports }, KeygenAction::Wait)
                    }
                },
                _ => (KeygenState::Awaiting { reports }, KeygenAction::Wait),
            },
            KeygenState::Reporting { reports } => match event {
                KeygenEvent::Emitted => record_step(request, reports),
                _ => (KeygenState::Reporting { reports }, KeygenAction::Wait),
            },
            KeygenState::Recording { reports } => match event {
                KeygenEvent::Stored(Ok(_)) => {
                    let (successes, _) = partition_outcomes(&reports);
                    (KeygenState::Done { reports }, KeygenAction::Return { successes })
                },
                KeygenEvent::Stored(Err(reason)) => storage_failure(reason),
                _ => (KeygenState::Recording { reports }, KeygenAction::Wait),
            },
            KeygenState::Done { reports } => (KeygenState::Done { reports }, KeygenAction::Wait),
            KeygenState::Failed { error } => (KeygenState::Failed { error }, KeygenAction::Wait),
        }
    }
}

} // verus!
