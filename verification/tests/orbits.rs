use bread::orbit::{Orbit, Outcome, Step};

/// A step inside the window that is recorded in the pixel `(x, y)`.
fn hit(x: usize, y: usize) -> Step {
    Step { inside: true, pixel: Some((x, y)) }
}

/// A step outside the window that is recorded nowhere.
fn miss() -> Step {
    Step { inside: false, pixel: None }
}


#[test]
fn orbit_starts_pending() {
    let o = Orbit::start(5);
    assert!(o.pending());
    assert_eq!(o.outcome(), None);
    assert_eq!(o.cap(), 5);
    assert_eq!(o.hits(), 0);
    assert!(o.steps().is_empty());
    assert_eq!(o.count_hitting(), None);
}

#[test]
fn orbit_without_iterations_is_bounded() {
    let o = Orbit::start(0);
    assert!(!o.pending());
    assert_eq!(o.outcome(), Some(Outcome::Bounded));
    assert_eq!(o.count_hitting(), None);
}

#[test]
fn escape_is_numbered_by_the_steps_before_it() {
    let mut o = Orbit::start(10);
    o.visit(hit(1, 2));
    o.visit(miss());
    o.visit(hit(0, 0));
    assert!(o.pending());
    o.escape();
    assert!(!o.pending());
    assert_eq!(o.outcome(), Some(Outcome::Escaped(3)));
    assert_eq!(o.hits(), 2);
    assert_eq!(o.steps(), &vec![hit(1, 2), miss(), hit(0, 0)]);
    assert_eq!(o.count_hitting(), Some((3, 2)));
}

#[test]
fn escape_at_once_has_no_steps() {
    let mut o = Orbit::start(10);
    o.escape();
    assert_eq!(o.outcome(), Some(Outcome::Escaped(0)));
    assert_eq!(o.hits(), 0);
    assert_eq!(o.count_hitting(), None);
}

#[test]
fn escape_without_hits_counts_for_nothing() {
    let mut o = Orbit::start(10);
    o.visit(miss());
    o.visit(miss());
    o.escape();
    assert_eq!(o.outcome(), Some(Outcome::Escaped(2)));
    assert_eq!(o.count_hitting(), None);
}

#[test]
fn orbit_is_bounded_at_the_cap() {
    let mut o = Orbit::start(3);
    o.visit(hit(0, 0));
    o.visit(hit(0, 1));
    assert!(o.pending());
    o.visit(hit(0, 2));
    assert!(!o.pending());
    assert_eq!(o.outcome(), Some(Outcome::Bounded));
    assert_eq!(o.hits(), 3);
    assert_eq!(o.count_hitting(), None);
}

#[test]
fn escape_is_below_the_cap() {
    let mut o = Orbit::start(3);
    o.visit(miss());
    o.visit(hit(4, 4));
    o.escape();
    assert_eq!(o.outcome(), Some(Outcome::Escaped(2)));
    assert_eq!(o.count_hitting(), Some((2, 1)));
}

#[test]
fn ended_orbit_takes_no_more_steps() {
    let mut o = Orbit::start(2);
    o.visit(hit(1, 1));
    o.escape();
    o.visit(hit(2, 2));
    o.escape();
    assert_eq!(o.outcome(), Some(Outcome::Escaped(1)));
    assert_eq!(o.steps(), &vec![hit(1, 1)]);
    assert_eq!(o.hits(), 1);

    let mut b = Orbit::start(1);
    b.visit(miss());
    b.escape();
    b.visit(hit(0, 0));
    assert_eq!(b.outcome(), Some(Outcome::Bounded));
    assert_eq!(b.steps(), &vec![miss()]);
    assert_eq!(b.hits(), 0);
}

#[test]
fn hits_are_the_steps_inside_the_window() {
    let mut o = Orbit::start(10);
    o.visit(Step { inside: false, pixel: Some((0, 3)) });
    o.visit(Step { inside: true, pixel: None });
    o.visit(Step { inside: true, pixel: Some((2, 2)) });
    o.visit(Step { inside: false, pixel: None });
    o.escape();
    assert_eq!(o.hits(), 2);
    assert_eq!(o.count_hitting(), Some((4, 2)));
    assert_eq!(o.steps()[0], Step { inside: false, pixel: Some((0, 3)) });
    assert_eq!(o.steps()[1], Step { inside: true, pixel: None });
}

#[test]
fn a_pixel_alone_is_no_hit() {
    let mut o = Orbit::start(10);
    o.visit(Step { inside: false, pixel: Some((0, 0)) });
    o.visit(Step { inside: false, pixel: Some((1, 0)) });
    o.escape();
    assert_eq!(o.hits(), 0);
    assert_eq!(o.count_hitting(), None);
}
