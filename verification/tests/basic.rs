use miel::controller::controller_handler::Controller;
use miel::session_management::SessionStatus;

#[test]
fn it_works() {
    assert_eq!(2 + 2, 4);
}

#[test]
fn test_controller_new() {
    let controller = Controller::new();
    assert_eq!(controller.foo, 0);
}

#[test]
fn test_session_status_values() {
    assert_eq!(SessionStatus::Pending, SessionStatus::Pending);
    assert_ne!(SessionStatus::Active, SessionStatus::Completed);
    assert_ne!(SessionStatus::Error, SessionStatus::Pending);
}
