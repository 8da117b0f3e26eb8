use route_resolver::failure::Failure;

const ALL: [Failure; 7] = [
    Failure::BindError,
    Failure::AcceptError,
    Failure::ReadError,
    Failure::IncompleteRequest,
    Failure::HandlerError,
    Failure::WriteError,
    Failure::OutOfTurn,
];

#[test]
fn only_a_failed_bind_is_fatal() {
    for failure in ALL {
        assert_eq!(failure.is_fatal(), failure == Failure::BindError);
    }
}

#[test]
fn bind_and_accept_failures_concern_the_listener() {
    for failure in ALL {
        assert_eq!(
            failure.concerns_listener(),
            matches!(failure, Failure::BindError | Failure::AcceptError)
        );
    }
}

#[test]
fn every_failure_has_its_own_message() {
    for (i, a) in ALL.iter().enumerate() {
        assert!(!a.message().is_empty());
        for b in &ALL[..i] {
            assert_ne!(a.message(), b.message());
        }
    }
    assert_eq!(Failure::HandlerError.message(), "the handler failed");
}
