use tss_manager::error::ManagerError;

#[test]
fn persistence_error_names_its_class_and_reason() {
    let error = ManagerError::Persistence(String::from("storage unreachable"));
    assert_eq!(error.message(), "persistence error: storage unreachable");
}

#[test]
fn transport_error_names_its_class_and_reason() {
    let error = ManagerError::Transport(String::from("queue closed"));
    assert_eq!(error.message(), "transport error: queue closed");
}

#[test]
fn error_with_an_empty_reason() {
    assert_eq!(ManagerError::Persistence(String::new()).message(), "persistence error: ");
    assert_eq!(ManagerError::Transport(String::new()).message(), "transport error: ");
}

#[test]
fn error_clone_is_equal() {
    let error = ManagerError::Transport(String::from("no route"));
    assert_eq!(error.clone(), error);
    assert_ne!(error, ManagerError::Persistence(String::from("no route")));
}
