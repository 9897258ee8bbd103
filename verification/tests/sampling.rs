use bread::orbit::{Orbit, Outcome, Step};
use bread::sampler::{accepts, SamplerState, Verdict};
use rand::rngs::SmallRng;
use rand::SeedableRng;

/// An orbit that escaped after the given steps, each of which is inside
/// the window where it has a pixel.
fn escaped(cap: u32, steps: &[Option<(usize, usize)>]) -> Orbit {
    let mut o = Orbit::start(cap);
    for s in steps {
        o.visit(Step { inside: s.is_some(), pixel: *s });
    }
    o.escape();
    o
}

/// A step inside the window that is recorded in the pixel `(x, y)`.
fn hit(x: usize, y: usize) -> Step {
    Step { inside: true, pixel: Some((x, y)) }
}

/// A step outside the window that is recorded nowhere.
fn miss() -> Step {
    Step { inside: false, pixel: None }
}

fn with_hits(hits: usize) -> Orbit {
    escaped(1000, &vec![Some((0, 0)); hits])
}

#[test]
fn accepts_everything_without_current_hits() {
    assert!(accepts(0, 0, 0));
    assert!(accepts(0, 1, 0));
    assert!(accepts(0, 1, 5));
    assert!(accepts(0, u32::MAX, u32::MAX));
}

#[test]
fn accepts_when_the_draw_is_below_the_new_hits() {
    assert!(accepts(10, 4, 3));
    assert!(!accepts(10, 4, 4));
    assert!(!accepts(10, 4, 9));
    assert!(accepts(10, 10, 9));
    assert!(accepts(10, 25, 9));
    assert!(!accepts(10, 0, 0));
}

#[test]
fn new_state_has_no_hits() {
    let s = SamplerState::new((0.5f32, -0.25f32));
    assert_eq!(*s.candidate(), (0.5f32, -0.25f32));
    assert_eq!(s.iterations(), 0);
    assert_eq!(s.hits(), 0);
    assert_eq!(s.orbit().outcome(), Some(Outcome::Escaped(0)));
    assert!(s.orbit().steps().is_empty());
    assert_eq!(s.weight(2000), 0);
}

#[test]
fn first_eligible_proposal_is_accepted_whatever_the_draw() {
    for draw in [0u32, 1, 2, 1000, u32::MAX] {
        let mut s = SamplerState::new(0u8);
        let o = escaped(50, &[None, Some((1, 1)), None]);
        assert_eq!(s.decide(7, o, draw), Verdict::Accepted);
        assert_eq!(*s.candidate(), 7);
        assert_eq!(s.iterations(), 3);
        assert_eq!(s.hits(), 1);
    }
}

#[test]
fn proposal_without_hits_is_skipped() {
    let mut s = SamplerState::new(0u8);
    assert_eq!(s.decide(7, escaped(50, &[None, None]), 0), Verdict::Skipped);
    assert_eq!(s.decide(8, escaped(50, &[]), 0), Verdict::Skipped);
    assert_eq!(*s.candidate(), 0);
    assert_eq!(s.hits(), 0);
}

#[test]
fn proposal_that_did_not_escape_is_skipped() {
    let mut s = SamplerState::new(0u8);
    let mut bounded = Orbit::start(2);
    bounded.visit(hit(0, 0));
    bounded.visit(hit(0, 0));
    assert_eq!(s.decide(7, bounded, 0), Verdict::Skipped);
    let mut pending = Orbit::start(5);
    pending.visit(hit(0, 0));
    assert_eq!(s.decide(8, pending, 0), Verdict::Skipped);
    assert_eq!(*s.candidate(), 0);
    assert_eq!(s.hits(), 0);
}

#[test]
fn decide_compares_the_draw_with_the_new_hits() {
    let mut s = SamplerState::new(0u8);
    assert_eq!(s.decide(1, with_hits(10), 0), Verdict::Accepted);
    assert_eq!(s.decide(2, with_hits(4), 4), Verdict::Rejected);
    assert_eq!(*s.candidate(), 1);
    assert_eq!(s.hits(), 10);
    assert_eq!(s.iterations(), 10);
    assert_eq!(s.decide(3, with_hits(4), 9), Verdict::Rejected);
    assert_eq!(s.decide(4, with_hits(4), 3), Verdict::Accepted);
    assert_eq!(*s.candidate(), 4);
    assert_eq!(s.hits(), 4);
    assert_eq!(s.iterations(), 4);
    assert_eq!(s.decide(5, escaped(50, &[None]), 0), Verdict::Skipped);
    assert_eq!(*s.candidate(), 4);
}

#[test]
fn weight_is_the_cap_divided_by_the_hits() {
    let mut s = SamplerState::new(0u8);
    s.decide(1, with_hits(23), 0);
    assert_eq!(s.weight(50), 2);
    assert_eq!(s.weight(2000), 86);
    assert_eq!(s.weight(22), 0);
    assert_eq!(s.weight(23), 1);
    assert_eq!(s.weight(u32::MAX), 186_737_708);
}

#[test]
fn draw_is_below_the_current_hits() {
    let mut rng = SmallRng::seed_from_u64(7);
    for hits in [1usize, 2, 3, 10, 500] {
        let mut s = SamplerState::new(0u8);
        s.decide(1, with_hits(hits), 0);
        let proposal = with_hits(1);
        for _ in 0..200 {
            assert!((s.draw(&proposal, &mut rng) as usize) < hits);
        }
    }
}

#[test]
fn draw_takes_every_value_below_the_hits() {
    let mut rng = SmallRng::seed_from_u64(11);
    let mut s = SamplerState::new(0u8);
    s.decide(1, with_hits(4), 0);
    let proposal = with_hits(1);
    let mut seen = [false; 4];
    for _ in 0..400 {
        seen[s.draw(&proposal, &mut rng) as usize] = true;
    }
    assert_eq!(seen, [true; 4]);
}

#[test]
fn nothing_is_drawn_where_no_draw_decides() {
    let mut rng = SmallRng::seed_from_u64(3);
    let untouched = SmallRng::seed_from_u64(3);
    let fresh = SamplerState::new(0u8);
    assert_eq!(fresh.draw(&with_hits(5), &mut rng), 0);
    let mut s = SamplerState::new(0u8);
    s.decide(1, with_hits(9), 0);
    assert_eq!(s.draw(&escaped(50, &[None]), &mut rng), 0);
    assert_eq!(rng, untouched);
    s.draw(&with_hits(5), &mut rng);
    assert_ne!(rng, untouched);
}

#[test]
fn consider_accepts_the_first_eligible_proposal() {
    let mut rng = SmallRng::seed_from_u64(1);
    for seed in 0..20u64 {
        let mut rng2 = SmallRng::seed_from_u64(seed);
        let mut s = SamplerState::new(0u8);
        assert_eq!(s.consider(9, with_hits(1), &mut rng2), Verdict::Accepted);
        assert_eq!(*s.candidate(), 9);
    }
    let mut s = SamplerState::new(0u8);
    assert_eq!(s.consider(1, escaped(50, &[None]), &mut rng), Verdict::Skipped);
    assert_eq!(s.consider(2, with_hits(3), &mut rng), Verdict::Accepted);
    assert_eq!(s.hits(), 3);
}

#[test]
fn consider_accepts_a_proposal_with_no_fewer_hits() {
    let mut rng = SmallRng::seed_from_u64(5);
    let mut s = SamplerState::new(0u32);
    s.decide(0, with_hits(6), 0);
    for round in 1..100u32 {
        assert_eq!(s.consider(round, with_hits(6), &mut rng), Verdict::Accepted);
        assert_eq!(*s.candidate(), round);
    }
    assert_eq!(s.consider(1000, with_hits(7), &mut rng), Verdict::Accepted);
    assert_eq!(s.hits(), 7);
}

#[test]
fn consider_accepts_fewer_hits_about_in_proportion() {
    let mut rng = SmallRng::seed_from_u64(2024);
    let mut accepted = 0u32;
    for _ in 0..4000 {
        let mut s = SamplerState::new(0u8);
        s.decide(1, with_hits(4), 0);
        match s.consider(2, with_hits(1), &mut rng) {
            Verdict::Accepted => {
                accepted += 1;
                assert_eq!(s.hits(), 1);
            }
            Verdict::Rejected => assert_eq!(s.hits(), 4),
            Verdict::Skipped => panic!("the proposal is eligible"),
        }
    }
    assert!(accepted > 800 && accepted < 1200);
}

#[test]
fn proposal_on_the_edge_of_the_window_is_skipped() {
    let mut s = SamplerState::new(0u8);
    let mut edge = Orbit::start(50);
    edge.visit(Step { inside: false, pixel: Some((500, 0)) });
    edge.escape();
    assert_eq!(s.decide(7, edge, 0), Verdict::Skipped);
    assert_eq!(*s.candidate(), 0);
    let mut inner = Orbit::start(50);
    inner.visit(Step { inside: true, pixel: None });
    inner.visit(miss());
    inner.escape();
    assert_eq!(s.decide(8, inner, 0), Verdict::Accepted);
    assert_eq!(s.hits(), 1);
    assert_eq!(s.iterations(), 2);
}
