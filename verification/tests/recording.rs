use bread::buffer::Buffer;
use bread::config::BufferConfig;
use bread::orbit::{Orbit, Step};
use bread::record::Overflow;

fn band(min_iterations: u32, max_iterations: u32) -> BufferConfig {
    BufferConfig { min_iterations, max_iterations }
}

fn counts(width: usize, height: usize, cells: &[u32]) -> Buffer<u32> {
    Buffer::from_vec(width, height, cells.to_vec()).expect("cells match the shape")
}

/// An orbit that escaped after the given steps, each of which is inside
/// the window where it has a pixel.
fn escaped(cap: u32, steps: &[Option<(usize, usize)>]) -> Orbit {
    let mut o = Orbit::start(cap);
    for s in steps {
        o.visit(Step { inside: s.is_some(), pixel: *s });
    }
    o.escape();
    o
}

/// A step inside the window that is recorded in the pixel `(x, y)`.
fn hit(x: usize, y: usize) -> Step {
    Step { inside: true, pixel: Some((x, y)) }
}

/// A step outside the window that is recorded nowhere.
fn miss() -> Step {
    Step { inside: false, pixel: None }
}

#[test]
fn record_band_adds_the_weight_at_each_step_of_the_band() {
    let o = escaped(
        10,
        &[Some((0, 0)), Some((1, 0)), Some((1, 0)), None, Some((0, 1)), Some((1, 0))],
    );
    let mut b = counts(2, 2, &[100, 0, 0, 7]);
    assert_eq!(o.record_band(&band(1, 10), 3, &mut b), Ok(()));
    assert_eq!(b.buffer(), &vec![100, 9, 3, 7]);
    assert_eq!(b.width(), 2);
    assert_eq!(b.height(), 2);
}

#[test]
fn record_band_starts_at_the_band() {
    let o = escaped(10, &[Some((0, 0)), Some((0, 0)), Some((0, 0)), Some((1, 1))]);
    let mut b = counts(2, 2, &[0; 4]);
    assert_eq!(o.record_band(&band(2, 5), 1, &mut b), Ok(()));
    assert_eq!(b.buffer(), &vec![1, 0, 0, 1]);
    let mut all = counts(2, 2, &[0; 4]);
    assert_eq!(o.record_band(&band(0, 5), 1, &mut all), Ok(()));
    assert_eq!(all.buffer(), &vec![3, 0, 0, 1]);
}

#[test]
fn record_band_skips_an_orbit_that_escaped_outside_the_band() {
    let o = escaped(10, &[Some((0, 0)), Some((0, 0)), Some((0, 0)), Some((1, 1))]);
    let mut b = counts(2, 2, &[0; 4]);
    assert_eq!(o.record_band(&band(0, 4), 1, &mut b), Ok(()));
    assert_eq!(b.buffer(), &vec![0; 4]);
    assert_eq!(o.record_band(&band(5, 9), 1, &mut b), Ok(()));
    assert_eq!(b.buffer(), &vec![0; 4]);
    assert_eq!(o.record_band(&band(4, 5), 1, &mut b), Ok(()));
    assert_eq!(b.buffer(), &vec![0; 4]);
}

#[test]
fn record_band_skips_a_bounded_orbit() {
    let mut o = Orbit::start(3);
    o.visit(hit(0, 0));
    o.visit(hit(0, 0));
    o.visit(hit(0, 0));
    let mut b = counts(1, 1, &[0]);
    assert_eq!(o.record_band(&band(0, 10), 1, &mut b), Ok(()));
    assert_eq!(b.buffer(), &vec![0]);
    let pending = Orbit::start(3);
    assert_eq!(pending.record_band(&band(0, 10), 1, &mut b), Ok(()));
    assert_eq!(b.buffer(), &vec![0]);
}

#[test]
fn record_band_skips_pixels_outside_the_grid() {
    let o = escaped(10, &[Some((2, 0)), Some((0, 2)), Some((1, 1)), Some((usize::MAX, 0))]);
    let mut b = counts(2, 2, &[0; 4]);
    assert_eq!(o.record_band(&band(0, 10), 4, &mut b), Ok(()));
    assert_eq!(b.buffer(), &vec![0, 0, 0, 4]);
}

#[test]
fn record_band_stops_before_an_overflow() {
    let o = escaped(10, &[Some((1, 0)), Some((0, 0)), Some((0, 0)), Some((1, 0))]);
    let mut b = counts(2, 1, &[u32::MAX - 5, 0]);
    assert_eq!(o.record_band(&band(0, 10), 5, &mut b), Err(2));
    assert_eq!(b.buffer(), &vec![u32::MAX, 5]);
}

#[test]
fn record_band_fills_a_cell_to_the_top() {
    let o = escaped(10, &[Some((0, 0)), Some((0, 0))]);
    let mut b = counts(1, 1, &[u32::MAX - 10]);
    assert_eq!(o.record_band(&band(0, 10), 5, &mut b), Ok(()));
    assert_eq!(b.buffer(), &vec![u32::MAX]);
    assert_eq!(o.record_band(&band(0, 10), 0, &mut b), Ok(()));
    assert_eq!(o.record_band(&band(0, 10), 1, &mut b), Err(0));
    assert_eq!(b.buffer(), &vec![u32::MAX]);
}

#[test]
fn record_goes_through_the_bands_in_order() {
    let o = escaped(50, &[Some((0, 0)), Some((1, 0)), Some((1, 0))]);
    let bands = vec![band(0, 10), band(2, 4), band(4, 50), band(1, 3)];
    let mut buffers = vec![counts(2, 1, &[0, 0]); 4];
    assert_eq!(o.record(&bands, 2, &mut buffers), Ok(()));
    assert_eq!(buffers[0].buffer(), &vec![2, 4]);
    assert_eq!(buffers[1].buffer(), &vec![0, 2]);
    assert_eq!(buffers[2].buffer(), &vec![0, 0]);
    assert_eq!(buffers[3].buffer(), &vec![0, 0]);
}

#[test]
fn record_stops_at_the_first_overflow() {
    let o = escaped(50, &[Some((0, 0)), Some((1, 0)), Some((1, 0))]);
    let bands = vec![band(0, 10), band(0, 10), band(0, 10)];
    let mut buffers =
        vec![counts(2, 1, &[1, 1]), counts(2, 1, &[0, u32::MAX - 1]), counts(2, 1, &[1, 1])];
    assert_eq!(o.record(&bands, 1, &mut buffers), Err(Overflow { band: 1, step: 2 }));
    assert_eq!(buffers[0].buffer(), &vec![2, 3]);
    assert_eq!(buffers[1].buffer(), &vec![1, u32::MAX]);
    assert_eq!(buffers[2].buffer(), &vec![1, 1]);
}

#[test]
fn record_without_bands_does_nothing() {
    let o = escaped(50, &[Some((0, 0))]);
    let mut buffers: Vec<Buffer<u32>> = Vec::new();
    assert_eq!(o.record(&Vec::new(), 1, &mut buffers), Ok(()));
    assert!(buffers.is_empty());
}

#[test]
fn record_band_goes_by_the_pixel_not_by_the_hit() {
    let mut o = Orbit::start(10);
    o.visit(Step { inside: false, pixel: Some((0, 0)) });
    o.visit(Step { inside: true, pixel: None });
    o.visit(Step { inside: true, pixel: Some((1, 0)) });
    o.visit(miss());
    o.escape();
    assert_eq!(o.hits(), 2);
    let mut b = counts(2, 1, &[0, 0]);
    assert_eq!(o.record_band(&band(0, 10), 3, &mut b), Ok(()));
    assert_eq!(b.buffer(), &vec![3, 3]);
}
