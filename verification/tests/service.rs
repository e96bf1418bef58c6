use tss_manager::coordinator::Notification;
use tss_manager::digest::digest;
use tss_manager::manager::service::ManagerService;
use tss_manager::request::{KeyGenParams, KeyGenRequest, SigningRequest};
use tss_manager::room::Room;

#[test]
fn new_manager_has_no_room() {
    let service = ManagerService::new(30, 2, 3);
    assert_eq!(service.signing_rooms.len(), 0);
    assert_eq!(service.threshold, 2);
    assert_eq!(service.total_parties, 3);
}

#[test]
fn new_manager_takes_any_timeout() {
    for timeout in [0u64, 1, u64::MAX] {
        let service = ManagerService::new(timeout, 1, 1);
        assert_eq!(service.signing_rooms.len(), 0);
        assert_eq!((service.threshold, service.total_parties), (1, 1));
    }
}

#[test]
fn initiate_signing_opens_the_room_of_the_message() {
    let mut service = ManagerService::new(30, 2, 3);
    let room_id = service.initiate_signing(b"hello");
    assert_eq!(room_id, "2cf24dba5fb0a30e26e83b2ac5b9e29e1b161e5c1fa7425e73043362938b9824");
    assert_eq!(service.signing_rooms.read(&room_id), Some(Room::new(room_id.clone(), 3)));
    assert_eq!(service.signing_rooms.len(), 1);
    assert_eq!((service.threshold, service.total_parties), (2, 3));
}

#[test]
fn initiate_signing_twice_keeps_one_room() {
    let mut service = ManagerService::new(30, 2, 3);
    let first = service.initiate_signing(b"hello");
    let second = service.initiate_signing(b"hello");
    assert_eq!(first, second);
    assert_eq!(service.signing_rooms.len(), 1);
    assert_eq!(service.signing_rooms.read(&first), Some(Room::new(first.clone(), 3)));
}

#[test]
fn notify_signer_addresses_the_party_and_the_room() {
    let service = ManagerService::new(30, 2, 3);
    let request = SigningRequest { id: String::from("sign-9"), message: b"pay 10".to_vec() };
    let notification = service.notify_signer(2, &request);
    assert_eq!(
        notification,
        Notification { party_number: 2, room_id: digest(b"pay 10"), request: request.clone() }
    );
}

#[test]
fn requests_clone_to_equal_values() {
    let signing = SigningRequest { id: String::from("s"), message: vec![1, 2, 3] };
    assert_eq!(signing.clone(), signing);
    let keygen = KeyGenRequest {
        id: String::from("k"),
        keygen_params: KeyGenParams { parties: 3, threshold: 2 },
    };
    assert_eq!(keygen.clone(), keygen);
}
