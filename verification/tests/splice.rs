use lclhst::splice::{Direction, Outcome, Splice, Writer};

#[test]
fn splices_both_directions_and_finishes_on_eof() {
    let mut s = Splice::new();
    assert_eq!(s.outcome(), None);
    // closing the client ends the client->server direction, which shuts down
    // the server side; the server's EOF then ends the other direction.
    assert_eq!(s.end(Direction::Forward, true), Writer::Second);
    assert_eq!(s.outcome(), None);
    assert_eq!(s.end(Direction::Backward, true), Writer::First);
    assert_eq!(s.outcome(), Some(Outcome::Done));
}

#[test]
fn the_first_failure_in_order_is_reported() {
    let mut s = Splice::new();
    s.end(Direction::Backward, false);
    assert_eq!(s.outcome(), None);
    s.end(Direction::Forward, false);
    assert_eq!(s.outcome(), Some(Outcome::Failed(Direction::Forward)));
    let mut s = Splice::new();
    s.end(Direction::Forward, true);
    s.end(Direction::Backward, false);
    assert_eq!(s.outcome(), Some(Outcome::Failed(Direction::Backward)));
}
