use dl::error::DlError;
use dl::plan::{plan_segments, Segment};
use dl::scheduler::{Action, Event, Scheduler};
use std::collections::VecDeque;

/// Runs the scheduler with pieces that finish in the order `pick` chooses,
/// and returns the launched segments and the most pieces ever in flight.
fn drive(size: u64, parallelism: usize, lifo: bool) -> (Vec<Segment>, usize, Action) {
    let mut s = Scheduler::new(size, parallelism);
    let mut in_flight: VecDeque<Segment> = VecDeque::new();
    let mut launched = Vec::new();
    let mut max_in_flight = 0;
    let mut event = Event::Ready;
    loop {
        match s.step(event) {
            Action::Launch(seg) => {
                in_flight.push_back(seg);
                launched.push(seg);
                max_in_flight = max_in_flight.max(in_flight.len());
                event = Event::Ready;
            }
            Action::AwaitPiece => {
                let done = if lifo { in_flight.pop_back() } else { in_flight.pop_front() };
                event = Event::PieceFinished(Ok(done.unwrap().offset));
            }
            end => return (launched, max_in_flight, end),
        }
    }
}

#[test]
fn never_more_pieces_in_flight_than_the_parallelism() {
    for (size, p) in [(53_143u64, 8usize), (10, 3), (19, 10), (1, 4), (1000, 1), (4096, 64)] {
        for lifo in [false, true] {
            let (launched, max_in_flight, end) = drive(size, p, lifo);
            assert!(max_in_flight <= p, "size {} parallelism {}", size, p);
            assert_eq!(end, Action::Finish);
            assert_eq!(launched, plan_segments(size, p as u64));
        }
    }
}

#[test]
fn the_pool_fills_up_to_the_parallelism() {
    let (_, max_in_flight, _) = drive(53_143, 8, false);
    assert_eq!(max_in_flight, 8);
}

#[test]
fn an_empty_file_finishes_at_once() {
    let mut s = Scheduler::new(0, 8);
    assert_eq!(s.step(Event::Ready), Action::Finish);
}

#[test]
fn the_first_failure_aborts() {
    let mut s = Scheduler::new(10, 3);
    assert_eq!(s.step(Event::Ready), Action::Launch(Segment { offset: 0, length: 3 }));
    assert_eq!(s.step(Event::Ready), Action::Launch(Segment { offset: 3, length: 3 }));
    assert_eq!(s.step(Event::Ready), Action::Launch(Segment { offset: 6, length: 4 }));
    assert_eq!(s.step(Event::Ready), Action::AwaitPiece);
    assert_eq!(s.step(Event::PieceFinished(Ok(3))), Action::AwaitPiece);
    let io = DlError::Io(String::from("disk full"));
    assert_eq!(s.step(Event::PieceFinished(Err(io.clone()))), Action::Abort(io));
    assert_eq!(s.step(Event::Ready), Action::Abort(DlError::StreamProcessing));
}

#[test]
fn a_report_without_a_piece_in_flight_aborts() {
    let mut s = Scheduler::new(10, 3);
    assert_eq!(s.step(Event::PieceFinished(Ok(0))), Action::Abort(DlError::StreamProcessing));
}
