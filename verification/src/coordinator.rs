//! The state machine of one signing request.
//!
//! A signing request is stored first. On the direct path its room is then
//! created under the digest of its message and the parties on the roster
//! are notified one after the other, in the order of their numbers; the
//! first notification that fails ends the request, and the parties after it
//! are not notified. On the queued path the request is handed to the queue
//! instead, which distributes it.
//!
//! The machine decides; its caller does the outside work that an action
//! asks for and hands back what came of it as the next event.

use crate::digest::room_id_of;
use crate::error::{reply_view, ManagerError, ManagerErrorView};
use crate::request::{SigningRequest, SigningRequestView};
use crate::room::{full_roster, registry_create, RoomView};
use vstd::prelude::*;

verus! {

/// The signing request as one party is told of it: addressed by the number
/// of the party and by the room, under which the party finds it again.
#[derive(Debug, PartialEq, Eq)]
pub struct Notification {
    pub party_number: u16,
    pub room_id: String,
    pub request: SigningRequest,
}

/// What a [`Notification`] holds, as mathematical values.
pub struct NotificationView {
    pub party_number: u16,
    pub room_id: Seq<char>,
    pub request: SigningRequestView,
}

impl View for Notification {
    type V = NotificationView;

    open spec fn view(&self) -> NotificationView {
        NotificationView {
            party_number: self.party_number,
            room_id: self.room_id@,
            request: self.request@,
        }
    }
}

/// Where a signing request stands.
#[derive(Debug, PartialEq, Eq)]
pub enum SigningState {
    /// Nothing has been done yet.
    Idle,
    /// The request is being stored.
    Persisting,
    /// The party `roster[next]` is being notified; those before it on the
    /// roster have been.
    Notifying { roster: Vec<u16>, next: usize },
    /// The request is being handed to the queue.
    Publishing,
    /// The request has been distributed.
    Done,
    /// The request was given up.
    Failed { error: ManagerError },
}

/// What a [`SigningState`] holds, as mathematical values.
pub enum SigningStateView {
    Idle,
    Persisting,
    Notifying { roster: Seq<u16>, next: nat },
    Publishing,
    Done,
    Failed { error: ManagerErrorView },
}

impl View for SigningState {
    type V = SigningStateView;

    open spec fn view(&self) -> SigningStateView {
        match self {
            SigningState::Idle => SigningStateView::Idle,
            SigningState::Persisting => SigningStateView::Persisting,
            SigningState::Notifying { roster, next } => SigningStateView::Notifying {
                roster: roster@,
                next: *next as nat,
            },
            SigningState::Publishing => SigningStateView::Publishing,
            SigningState::Done => SigningStateView::Done,
            SigningState::Failed { error } => SigningStateView::Failed { error: error@ },
        }
    }
}

/// What the caller hands to the machine.
#[derive(Debug, PartialEq, Eq)]
pub enum SigningEvent {
    /// The request has arrived.
    Started,
    /// Storage has answered the write that was asked for.
    Stored(Result<(), String>),
    /// The notification that was asked for has been delivered, or not.
    Notified(Result<(), String>),
    /// The queue has taken the request, or not.
    Published(Result<(), String>),
}

/// What a [`SigningEvent`] holds, as mathematical values.
pub enum SigningEventView {
    Started,
    Stored(Result<(), Seq<char>>),
    Notified(Result<(), Seq<char>>),
    Published(Result<(), Seq<char>>),
}

impl View for SigningEvent {
    type V = SigningEventView;

    open spec fn view(&self) -> SigningEventView {
        match self {
            SigningEvent::Started => SigningEventView::Started,
            SigningEvent::Stored(reply) => SigningEventView::Stored(reply_view(*reply)),
            SigningEvent::Notified(reply) => SigningEventView::Notified(reply_view(*reply)),
            SigningEvent::Published(reply) => SigningEventView::Published(reply_view(*reply)),
        }
    }
}

/// What the machine asks its caller to do.
#[derive(Debug, PartialEq, Eq)]
pub enum SigningAction {
    /// Store the request.
    PersistRequest(SigningRequest),
    /// Deliver the notification to the party it is addressed to.
    Notify(Notification),
    /// Hand the request to the queue.
    Publish(SigningRequest),
    /// Nothing new: go on waiting for the work that is outstanding.
    Wait,
    /// Tell the author of the request that it has been distributed.
    Finish,
    /// Return the error to the author of the request.
    Abort { error: ManagerError },
}

/// What a [`SigningAction`] holds, as mathematical values.
pub enum SigningActionView {
    PersistRequest(SigningRequestView),
    Notify(NotificationView),
    Publish(SigningRequestView),
    Wait,
    Finish,
    Abort { error: ManagerErrorView },
}

impl View for SigningAction {
    type V = SigningActionView;

    open spec fn view(&self) -> SigningActionView {
        match self {
            SigningAction::PersistRequest(request) => SigningActionView::PersistRequest(request@),
            SigningAction::Notify(notification) => SigningActionView::Notify(notification@),
            SigningAction::Publish(request) => SigningActionView::Publish(request@),
            SigningAction::Wait => SigningActionView::Wait,
            SigningAction::Finish => SigningActionView::Finish,
            SigningAction::Abort { error } => SigningActionView::Abort { error: error@ },
        }
    }
}

/// The notification of `party_number` about `request`: its room is the one
/// that the digest of the message names.
pub open spec fn notification_for(
    party_number: u16,
    request: SigningRequestView,
) -> NotificationView {
    NotificationView { party_number, room_id: room_id_of(request.message), request }
}

/// The step that turns to the party at position `next` of the roster, or
/// finishes when the roster has no such position.
pub open spec fn notify_from(request: SigningRequestView, roster: Seq<u16>, next: nat) -> (
    SigningStateView,
    SigningActionView,
) {
    if next < roster.len() {
        (
            SigningStateView::Notifying { roster, next },
            SigningActionView::Notify(notification_for(roster[next as int], request)),
        )
    } else {
        (SigningStateView::Done, SigningActionView::Finish)
    }
}

/// The step that gives the request up.
pub open spec fn abandon(error: ManagerErrorView) -> (SigningStateView, SigningActionView) {
    (SigningStateView::Failed { error }, SigningActionView::Abort { error })
}

/// One step of the direct path: the registry and the state that follow on
/// `event`, and the action to take. An event that does not fit the state
/// changes nothing.
pub open spec fn direct_step(
    rooms: Map<Seq<char>, RoomView>,
    total_parties: u16,
    request: SigningRequestView,
    state: SigningStateView,
    event: SigningEventView,
) -> (Map<Seq<char>, RoomView>, SigningStateView, SigningActionView) {
    match (state, event) {
        (SigningStateView::Idle, SigningEventView::Started) => (
            rooms,
            SigningStateView::Persisting,
            SigningActionView::PersistRequest(request),
        ),
        (SigningStateView::Persisting, SigningEventView::Stored(Ok(_))) => {
            let next = notify_from(request, full_roster(total_parties), 0);
            (registry_create(rooms, room_id_of(request.message), total_parties), next.0, next.1)
        },
        (SigningStateView::Persisting, SigningEventView::Stored(Err(reason))) => {
            let next = abandon(ManagerErrorView::Persistence(reason));
            (rooms, next.0, next.1)
        },
        (SigningStateView::Notifying { roster, next }, SigningEventView::Notified(Ok(_))) => {
            let next = notify_from(request, roster, next + 1);
            (rooms, next.0, next.1)
        },
        (SigningStateView::Notifying { .. }, SigningEventView::Notified(Err(reason))) => {
            let next = abandon(ManagerErrorView::Transport(reason));
            (rooms, next.0, next.1)
        },
        _ => (rooms, state, SigningActionView::Wait),
    }
}

/// One step of the queued path: the state that follows on `event`, and the
/// action to take. An event that does not fit the state changes nothing.
pub open spec fn queued_step(
    request: SigningRequestView,
    state: SigningStateView,
    event: SigningEventView,
) -> (SigningStateView, SigningActionView) {
    match (state, event) {
        (SigningStateView::Idle, SigningEventView::Started) => (
            SigningStateView::Persisting,
            SigningActionView::PersistRequest(request),
        ),
        (SigningStateView::Persisting, SigningEventView::Stored(Ok(_))) => (
            SigningStateView::Publishing,
            SigningActionView::Publish(request),
        ),
        (SigningStateView::Persisting, SigningEventView::Stored(Err(reason))) => abandon(
            ManagerErrorView::Persistence(reason),
        ),
        (SigningStateView::Publishing, SigningEventView::Published(Ok(_))) => (
            SigningStateView::Done,
            SigningActionView::Finish,
        ),
        (SigningStateView::Publishing, SigningEventView::Published(Err(reason))) => abandon(
            ManagerErrorView::Transport(reason),
        ),
        _ => (state, SigningActionView::Wait),
    }
}

/// The registry and the state that a sequence of events leads to on the
/// direct path, from the registry `rooms` and the state `state`.
pub open spec fn direct_run_from(
    rooms: Map<Seq<char>, RoomView>,
    total_parties: u16,
    request: SigningRequestView,
    state: SigningStateView,
    events: Seq<SigningEventView>,
) -> (Map<Seq<char>, RoomView>, SigningStateView)
    decreases events.len(),
{
    if events.len() == 0 {
        (rooms, state)
    } else {
        let before = direct_run_from(rooms, total_parties, request, state, events.drop_last());
        let after = direct_step(before.0, total_parties, request, before.1, events.last());
        (after.0, after.1)
    }
}

/// The registry and the state that a sequence of events leads to on the
/// direct path, from the start.
pub open spec fn direct_run(
    rooms: Map<Seq<char>, RoomView>,
    total_parties: u16,
    request: SigningRequestView,
    events: Seq<SigningEventView>,
) -> (Map<Seq<char>, RoomView>, SigningStateView) {
    direct_run_from(rooms, total_parties, request, SigningStateView::Idle, events)
}

/// The events of a request that was stored and of which the first
/// `delivered` notifications were delivered.
pub open spec fn delivered_events(delivered: nat) -> Seq<SigningEventView> {
    seq![SigningEventView::Started, SigningEventView::Stored(Ok(()))] + Seq::new(
        delivered,
        |i: int| SigningEventView::Notified(Ok(())),
    )
}

/// What holds of the direct path at every step. While a party is being
/// notified, the roster is that of the room of the message, the party is
/// on it, and its number is one more than the count of the parties
/// notified before it. From then on the registry holds the room of the
/// message, with one slot for each party.
pub open spec fn direct_inv(
    rooms: Map<Seq<char>, RoomView>,
    total_parties: u16,
    request: SigningRequestView,
    state: SigningStateView,
) -> bool {
    &&& state matches SigningStateView::Notifying { roster, next } ==> {
        &&& roster == full_roster(total_parties)
        &&& next < roster.len()
        &&& roster[next as int] == next + 1
    }
    &&& state is Notifying || state is Done ==> {
        &&& rooms.contains_key(room_id_of(request.message))
        &&& rooms[room_id_of(request.message)] == RoomView::fresh(
            room_id_of(request.message),
            total_parties,
        )
    }
    &&& !(state is Publishing)
}

/// Whatever the events, the direct path keeps its invariant: the parties
/// are notified in the order of their numbers, from 1 on.
pub proof fn lemma_direct_path_notifies_in_order(
    rooms: Map<Seq<char>, RoomView>,
    total_parties: u16,
    request: SigningRequestView,
    events: Seq<SigningEventView>,
)
    ensures
        direct_inv(
            direct_run(rooms, total_parties, request, events).0,
            total_parties,
            request,
            direct_run(rooms, total_parties, request, events).1,
        ),
    decreases events.len(),
{
    if events.len() > 0 {
        lemma_direct_path_notifies_in_order(rooms, total_parties, request, events.drop_last());
    }
}

/// A request that was stored and of which the first `delivered`
/// notifications were delivered is notifying the party with the number
/// `delivered + 1`, or is done when there is no such party. Its room is in
/// the registry.
pub proof fn lemma_delivered_notifications_advance(
    rooms: Map<Seq<char>, RoomView>,
    total_parties: u16,
    request: SigningRequestView,
    delivered: nat,
)
    requires
        delivered <= total_parties,
    ensures
        direct_run(rooms, total_parties, request, delivered_events(delivered)) == (
            registry_create(rooms, room_id_of(request.message), total_parties),
            if delivered < total_parties {
                SigningStateView::Notifying { roster: full_roster(total_parties), next: delivered }
            } else {
                SigningStateView::Done
            },
        ),
        delivered < total_parties ==> direct_step(
            direct_run(rooms, total_parties, request, delivered_events(delivered)).0,
            total_parties,
            request,
            direct_run(rooms, total_parties, request, delivered_events(delivered)).1,
            SigningEventView::Notified(Ok(())),
        ).2 == if delivered + 1 < total_parties {
            SigningActionView::Notify(notification_for((delivered + 2) as u16, request))
        } else {
            SigningActionView::Finish
        },
    decreases delivered,
{
    let events = delivered_events(delivered);
    let start = seq![SigningEventView::Started, SigningEventView::Stored(Ok(()))];
    if delivered == 0 {
        assert(events =~= start);
        assert(events.drop_last() =~= seq![SigningEventView::Started]);
        assert(events.drop_last().drop_last() =~= Seq::<SigningEventView>::empty());
        assert(direct_run(rooms, total_parties, request, events.drop_last().drop_last()) == (
            rooms,
            SigningStateView::Idle,
        ));
        assert(direct_run(rooms, total_parties, request, events.drop_last()) == (
            rooms,
            SigningStateView::Persisting,
        ));
    } else {
        lemma_delivered_notifications_advance(
            rooms,
            total_parties,
            request,
            (delivered - 1) as nat,
        );
        assert(events.drop_last() =~= delivered_events((delivered - 1) as nat));
        assert(events.last() == SigningEventView::Notified(Ok(())));
    }
}

/// The first notification that fails ends the request.
pub proof fn lemma_failed_notification_ends_request(
    rooms: Map<Seq<char>, RoomView>,
    total_parties: u16,
    request: SigningRequestView,
    roster: Seq<u16>,
    next: nat,
    reason: Seq<char>,
)
    ensures
        direct_step(
            rooms,
            total_parties,
            request,
            SigningStateView::Notifying { roster, next },
            SigningEventView::Notified(Err(reason)),
        ) == (
            rooms,
            SigningStateView::Failed { error: ManagerErrorView::Transport(reason) },
            SigningActionView::Abort { error: ManagerErrorView::Transport(reason) },
        ),
{
}

/// A request that was given up stays so, whatever happens later: no event
/// leads to another action, so the parties that were not yet notified are
/// never notified, and the registry is left as it is.
pub proof fn lemma_nothing_follows_a_failure(
    rooms: Map<Seq<char>, RoomView>,
    total_parties: u16,
    request: SigningRequestView,
    error: ManagerErrorView,
    later: Seq<SigningEventView>,
)
    ensures
        direct_run_from(
            rooms,
            total_parties,
            request,
            SigningStateView::Failed { error },
            later,
        ) == (rooms, SigningStateView::Failed { error }),
        forall|event: SigningEventView| #[trigger]
            direct_step(
                rooms,
                total_parties,
                request,
                SigningStateView::Failed { error },
                event,
            ).2 == SigningActionView::Wait,
    decreases later.len(),
{
    if later.len() > 0 {
        lemma_nothing_follows_a_failure(rooms, total_parties, request, error, later.drop_last());
    }
}

/// A message that is submitted again is given the room identifier that it
/// had, and the room that is created for it takes the place of the first:
/// the registry is as if only the second request had been handled, and it
/// holds no room that it did not hold after the first.
pub proof fn lemma_resubmission_overwrites_room(
    rooms: Map<Seq<char>, RoomView>,
    first_parties: u16,
    second_parties: u16,
    first: SigningRequestView,
    second: SigningRequestView,
)
    requires
        first.message == second.message,
    ensures
        ({
            let stored = SigningEventView::Stored(Ok(()));
            let once = direct_step(
                rooms,
                first_parties,
                first,
                SigningStateView::Persisting,
                stored,
            ).0;
            let twice = direct_step(
                once,
                second_parties,
                second,
                SigningStateView::Persisting,
                stored,
            ).0;
            &&& twice == registry_create(rooms, room_id_of(first.message), second_parties)
            &&& twice[room_id_of(first.message)] == RoomView::fresh(
                room_id_of(first.message),
                second_parties,
            )
            &&& twice.dom() == once.dom()
        }),
{
    crate::room::lemma_create_twice_overwrites(
        rooms,
        room_id_of(first.message),
        first_parties,
        second_parties,
    );
}

} // verus!
