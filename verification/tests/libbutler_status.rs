use valet::libbutler::{close_outcome, Conn, Error, Status};

#[test]
fn zero_status_is_success() {
    assert!(Status(0).success());
    assert!(!Status(3).success());
    assert!(!Status(-1).success());
    assert_eq!(Status::default(), Status(0));
}

#[test]
fn check_passes_value_or_reports_status() {
    assert_eq!(Status(0).check(42), Ok(42));
    assert_eq!(Status(5).check(42), Err(Error::Status(Status(5))));
}

#[test]
fn closed_connection_refuses_use() {
    let mut conn = Conn::from_id(9);
    assert_eq!(conn.id(), Ok(9));
    assert_eq!(conn.take_id(), Some(9));
    assert_eq!(conn.id(), Err(Error::UseOfClosedConnection));
    assert_eq!(conn.take_id(), None);
}

#[test]
fn closing_twice_succeeds() {
    assert_eq!(close_outcome(Some(Status(0))), Ok(()));
    assert_eq!(close_outcome(Some(Status(2))), Err(Error::Status(Status(2))));
    assert_eq!(close_outcome(None), Ok(()));
}
