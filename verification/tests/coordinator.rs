use tss_manager::coordinator::{Notification, SigningAction, SigningEvent, SigningState};
use tss_manager::digest::digest;
use tss_manager::error::ManagerError;
use tss_manager::manager::service::ManagerService;
use tss_manager::request::SigningRequest;
use tss_manager::room::Room;

const HELLO_ROOM: &str = "2cf24dba5fb0a30e26e83b2ac5b9e29e1b161e5c1fa7425e73043362938b9824";

fn signing_request(id: &str, message: &[u8]) -> SigningRequest {
    SigningRequest { id: String::from(id), message: message.to_vec() }
}

fn notification(party_number: u16, request: &SigningRequest) -> SigningAction {
    SigningAction::Notify(Notification {
        party_number,
        room_id: digest(&request.message),
        request: request.clone(),
    })
}

#[test]
fn signing_request_for_three_parties_fails_fast() {
    let mut service = ManagerService::new(30, 2, 3);
    let request = signing_request("sign-1", b"hello");

    let (state, action) =
        service.handle_signing_request(&request, SigningState::Idle, SigningEvent::Started);
    assert_eq!(state, SigningState::Persisting);
    assert_eq!(action, SigningAction::PersistRequest(request.clone()));
    assert_eq!(service.signing_rooms.len(), 0);

    let (state, action) =
        service.handle_signing_request(&request, state, SigningEvent::Stored(Ok(())));
    let room = service.signing_rooms.read(HELLO_ROOM).unwrap();
    assert_eq!(room.room_id, HELLO_ROOM);
    assert_eq!(room.member_info, vec![1, 2, 3]);
    assert_eq!(room.total_parties, 3);
    assert_eq!(state, SigningState::Notifying { roster: vec![1, 2, 3], next: 0 });
    assert_eq!(
        action,
        SigningAction::Notify(Notification {
            party_number: 1,
            room_id: String::from(HELLO_ROOM),
            request: request.clone(),
        })
    );

    let (state, action) = service.handle_signing_request(
        &request,
        state,
        SigningEvent::Notified(Err(String::from("party 1 unreachable"))),
    );
    let error = ManagerError::Transport(String::from("party 1 unreachable"));
    assert_eq!(state, SigningState::Failed { error: error.clone() });
    assert_eq!(action, SigningAction::Abort { error: error.clone() });

    let (state, action) =
        service.handle_signing_request(&request, state, SigningEvent::Notified(Ok(())));
    assert_eq!(state, SigningState::Failed { error });
    assert_eq!(action, SigningAction::Wait);
}

#[test]
fn signing_request_notifies_every_party_in_order() {
    let mut service = ManagerService::new(30, 2, 3);
    let request = signing_request("sign-1", b"hello");
    let (state, _) =
        service.handle_signing_request(&request, SigningState::Idle, SigningEvent::Started);
    let (state, action) =
        service.handle_signing_request(&request, state, SigningEvent::Stored(Ok(())));
    assert_eq!(action, notification(1, &request));
    let (state, action) =
        service.handle_signing_request(&request, state, SigningEvent::Notified(Ok(())));
    assert_eq!(state, SigningState::Notifying { roster: vec![1, 2, 3], next: 1 });
    assert_eq!(action, notification(2, &request));
    let (state, action) =
        service.handle_signing_request(&request, state, SigningEvent::Notified(Ok(())));
    assert_eq!(state, SigningState::Notifying { roster: vec![1, 2, 3], next: 2 });
    assert_eq!(action, notification(3, &request));
    let (state, action) =
        service.handle_signing_request(&request, state, SigningEvent::Notified(Ok(())));
    assert_eq!(state, SigningState::Done);
    assert_eq!(action, SigningAction::Finish);
}

#[test]
fn signing_request_stops_at_the_second_party() {
    let mut service = ManagerService::new(30, 2, 3);
    let request = signing_request("sign-1", b"hello");
    let (state, _) =
        service.handle_signing_request(&request, SigningState::Idle, SigningEvent::Started);
    let (state, _) = service.handle_signing_request(&request, state, SigningEvent::Stored(Ok(())));
    let (state, action) =
        service.handle_signing_request(&request, state, SigningEvent::Notified(Ok(())));
    assert_eq!(action, notification(2, &request));
    let (state, action) = service.handle_signing_request(
        &request,
        state,
        SigningEvent::Notified(Err(String::from("no route"))),
    );
    let error = ManagerError::Transport(String::from("no route"));
    assert_eq!(state, SigningState::Failed { error: error.clone() });
    assert_eq!(action, SigningAction::Abort { error });
}

#[test]
fn signing_request_that_cannot_be_stored_opens_no_room() {
    let mut service = ManagerService::new(30, 2, 3);
    let request = signing_request("sign-1", b"hello");
    let (state, _) =
        service.handle_signing_request(&request, SigningState::Idle, SigningEvent::Started);
    let (state, action) = service.handle_signing_request(
        &request,
        state,
        SigningEvent::Stored(Err(String::from("storage unreachable"))),
    );
    let error = ManagerError::Persistence(String::from("storage unreachable"));
    assert_eq!(state, SigningState::Failed { error: error.clone() });
    assert_eq!(action, SigningAction::Abort { error });
    assert_eq!(service.signing_rooms.len(), 0);
    assert_eq!(service.signing_rooms.read(HELLO_ROOM), None);
}

#[test]
fn signing_request_without_parties_finishes_at_once() {
    let mut service = ManagerService::new(30, 0, 0);
    let request = signing_request("sign-1", b"hello");
    let (state, action) =
        service.handle_signing_request(&request, SigningState::Persisting, SigningEvent::Stored(Ok(())));
    assert_eq!(state, SigningState::Done);
    assert_eq!(action, SigningAction::Finish);
    assert_eq!(service.signing_rooms.read(HELLO_ROOM), Some(Room::new(String::from(HELLO_ROOM), 0)));
}

#[test]
fn signing_request_for_one_party() {
    let mut service = ManagerService::new(30, 1, 1);
    let request = signing_request("sign-1", b"hello");
    let (state, action) =
        service.handle_signing_request(&request, SigningState::Persisting, SigningEvent::Stored(Ok(())));
    assert_eq!(action, notification(1, &request));
    let (state, action) =
        service.handle_signing_request(&request, state, SigningEvent::Notified(Ok(())));
    assert_eq!(state, SigningState::Done);
    assert_eq!(action, SigningAction::Finish);
}

#[test]
fn resubmitted_message_overwrites_its_room() {
    let mut service = ManagerService::new(30, 2, 3);
    let first = signing_request("sign-1", b"hello");
    let second = signing_request("sign-2", b"hello");

    let (_, action) =
        service.handle_signing_request(&first, SigningState::Persisting, SigningEvent::Stored(Ok(())));
    assert_eq!(action, notification(1, &first));
    assert_eq!(service.signing_rooms.len(), 1);

    service.total_parties = 5;
    let (state, action) = service.handle_signing_request(
        &second,
        SigningState::Persisting,
        SigningEvent::Stored(Ok(())),
    );
    assert_eq!(state, SigningState::Notifying { roster: vec![1, 2, 3, 4, 5], next: 0 });
    match action {
        SigningAction::Notify(sent) => {
            assert_eq!(sent.room_id, HELLO_ROOM);
            assert_eq!(sent.request.id, "sign-2");
        },
        other => panic!("unexpected action: {:?}", other),
    }
    assert_eq!(service.signing_rooms.len(), 1);
    assert_eq!(service.signing_rooms.read(HELLO_ROOM), Some(Room::new(String::from(HELLO_ROOM), 5)));
}

#[test]
fn different_messages_open_different_rooms() {
    let mut service = ManagerService::new(30, 2, 2);
    for message in [&b"one"[..], &b"two"[..]] {
        let request = signing_request("sign", message);
        service.handle_signing_request(&request, SigningState::Persisting, SigningEvent::Stored(Ok(())));
    }
    assert_eq!(service.signing_rooms.len(), 2);
    assert!(service.signing_rooms.read(&digest(b"one")).is_some());
    assert!(service.signing_rooms.read(&digest(b"two")).is_some());
}

#[test]
fn direct_path_ignores_events_that_do_not_fit_the_state() {
    let mut service = ManagerService::new(30, 2, 3);
    let request = signing_request("sign-1", b"hello");
    let (state, action) =
        service.handle_signing_request(&request, SigningState::Idle, SigningEvent::Stored(Ok(())));
    assert_eq!((state, action), (SigningState::Idle, SigningAction::Wait));
    let (state, action) =
        service.handle_signing_request(&request, SigningState::Persisting, SigningEvent::Notified(Ok(())));
    assert_eq!((state, action), (SigningState::Persisting, SigningAction::Wait));
    let notifying = SigningState::Notifying { roster: vec![1, 2], next: 0 };
    let (state, action) =
        service.handle_signing_request(&request, notifying, SigningEvent::Published(Ok(())));
    assert_eq!(state, SigningState::Notifying { roster: vec![1, 2], next: 0 });
    assert_eq!(action, SigningAction::Wait);
    let (state, action) =
        service.handle_signing_request(&request, SigningState::Publishing, SigningEvent::Published(Ok(())));
    assert_eq!((state, action), (SigningState::Publishing, SigningAction::Wait));
    let (state, action) =
        service.handle_signing_request(&request, SigningState::Done, SigningEvent::Started);
    assert_eq!((state, action), (SigningState::Done, SigningAction::Wait));
    assert_eq!(service.signing_rooms.len(), 0);
}

#[test]
fn queued_path_stores_then_publishes() {
    let service = ManagerService::new(30, 2, 3);
    let request = signing_request("sign-1", b"hello");
    let (state, action) =
        service.process_signing_request(&request, SigningState::Idle, SigningEvent::Started);
    assert_eq!(state, SigningState::Persisting);
    assert_eq!(action, SigningAction::PersistRequest(request.clone()));
    let (state, action) =
        service.process_signing_request(&request, state, SigningEvent::Stored(Ok(())));
    assert_eq!(state, SigningState::Publishing);
    assert_eq!(action, SigningAction::Publish(request.clone()));
    let (state, action) =
        service.process_signing_request(&request, state, SigningEvent::Published(Ok(())));
    assert_eq!((&state, &action), (&SigningState::Done, &SigningAction::Finish));
    assert_eq!(service.signing_rooms.len(), 0);
}

#[test]
fn queued_path_gives_up_when_the_request_cannot_be_stored() {
    let service = ManagerService::new(30, 2, 3);
    let request = signing_request("sign-1", b"hello");
    let (state, action) = service.process_signing_request(
        &request,
        SigningState::Persisting,
        SigningEvent::Stored(Err(String::from("write rejected"))),
    );
    let error = ManagerError::Persistence(String::from("write rejected"));
    assert_eq!(state, SigningState::Failed { error: error.clone() });
    assert_eq!(action, SigningAction::Abort { error });
}

#[test]
fn queued_path_gives_up_when_the_queue_refuses() {
    let service = ManagerService::new(30, 2, 3);
    let request = signing_request("sign-1", b"hello");
    let (state, action) = service.process_signing_request(
        &request,
        SigningState::Publishing,
        SigningEvent::Published(Err(String::from("channel closed"))),
    );
    let error = ManagerError::Transport(String::from("channel closed"));
    assert_eq!(state, SigningState::Failed { error: error.clone() });
    assert_eq!(action, SigningAction::Abort { error });
}

#[test]
fn queued_path_ignores_events_that_do_not_fit_the_state() {
    let service = ManagerService::new(30, 2, 3);
    let request = signing_request("sign-1", b"hello");
    let (state, action) = service.process_signing_request(
        &request,
        SigningState::Persisting,
        SigningEvent::Published(Ok(())),
    );
    assert_eq!((state, action), (SigningState::Persisting, SigningAction::Wait));
    let (state, action) = service.process_signing_request(
        &request,
        SigningState::Publishing,
        SigningEvent::Notified(Ok(())),
    );
    assert_eq!((state, action), (SigningState::Publishing, SigningAction::Wait));
    let notifying = SigningState::Notifying { roster: vec![1], next: 0 };
    let (state, action) =
        service.process_signing_request(&request, notifying, SigningEvent::Notified(Ok(())));
    assert_eq!(state, SigningState::Notifying { roster: vec![1], next: 0 });
    assert_eq!(action, SigningAction::Wait);
    let (state, action) =
        service.process_signing_request(&request, SigningState::Done, SigningEvent::Started);
    assert_eq!((state, action), (SigningState::Done, SigningAction::Wait));
}
