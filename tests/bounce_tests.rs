use raytracer::bounce::{Interaction, PathEnd, PathState};

#[test]
fn zero_depth_is_black() {
    assert_eq!(PathState::start(0), PathState::Finished { end: PathEnd::BudgetExhausted });
    assert_eq!(PathState::start(-4), PathState::Finished { end: PathEnd::BudgetExhausted });
    assert!(!PathEnd::BudgetExhausted.lit());
    assert!(!PathState::start(0).is_tracing());
}

#[test]
fn positive_depth_traces() {
    assert_eq!(PathState::start(50), PathState::Tracing { depth: 50 });
    assert!(PathState::start(1).is_tracing());
}

#[test]
fn scatter_spends_one_bounce() {
    let s = PathState::start(2);
    let s = s.advance(Interaction::Scattered);
    assert_eq!(s, PathState::Tracing { depth: 1 });
    let s = s.advance(Interaction::Scattered);
    assert_eq!(s, PathState::Finished { end: PathEnd::BudgetExhausted });
}

#[test]
fn miss_escapes_and_absorb_ends() {
    let s = PathState::start(3);
    assert_eq!(s.advance(Interaction::Missed), PathState::Finished { end: PathEnd::Escaped });
    assert_eq!(s.advance(Interaction::Absorbed), PathState::Finished { end: PathEnd::Absorbed });
    assert!(PathEnd::Escaped.lit());
    assert!(!PathEnd::Absorbed.lit());
}

#[test]
fn bounces_never_exceed_budget() {
    let mut s = PathState::start(10);
    let mut bounces = 0;
    while s.is_tracing() {
        s = s.advance(Interaction::Scattered);
        bounces += 1;
    }
    assert_eq!(bounces, 10);
    assert_eq!(s, PathState::Finished { end: PathEnd::BudgetExhausted });
}
