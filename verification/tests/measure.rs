use rich_rs::segment::Segment;
use rich_rs::console::{Console, ConsoleOptions};
use rich_rs::measure::{Measurement, measure_renderables};
use rich_rs::Renderable;


#[test]
fn test_measurement_basic() {
    let m = Measurement::new(10, 50);
    assert_eq!(m.minimum, 10);
    assert_eq!(m.maximum, 50);
}

#[test]
fn test_measurement_exact() {
    let m = Measurement::exact(25);
    assert_eq!(m.minimum, 25);
    assert_eq!(m.maximum, 25);
    assert_eq!(m.span(), 0);
}

#[test]
fn test_span() {
    let m = Measurement::new(10, 50);
    assert_eq!(m.span(), 40);

    // span uses saturating_sub, so inverted returns 0
    let inverted = Measurement::new(50, 10);
    assert_eq!(inverted.span(), 0);
}

#[test]
fn test_normalize() {
    // Normal measurement stays the same
    let m = Measurement::new(10, 50);
    let normalized = m.normalize();
    assert_eq!(normalized.minimum, 10);
    assert_eq!(normalized.maximum, 50);

    // Inverted measurement gets minimum clamped to maximum
    let inverted = Measurement::new(50, 10);
    let normalized = inverted.normalize();
    assert_eq!(normalized.minimum, 10);
    assert_eq!(normalized.maximum, 10);

    // Equal values stay equal
    let equal = Measurement::new(25, 25);
    let normalized = equal.normalize();
    assert_eq!(normalized.minimum, 25);
    assert_eq!(normalized.maximum, 25);
}

#[test]
fn test_with_maximum() {
    let m = Measurement::new(10, 50);

    // Width greater than maximum - no change
    let result = m.with_maximum(100);
    assert_eq!(result.minimum, 10);
    assert_eq!(result.maximum, 50);

    // Width between min and max - only max changes
    let result = m.with_maximum(30);
    assert_eq!(result.minimum, 10);
    assert_eq!(result.maximum, 30);

    // Width less than minimum - both get clamped
    let result = m.with_maximum(5);
    assert_eq!(result.minimum, 5);
    assert_eq!(result.maximum, 5);

    // Width equals minimum
    let result = m.with_maximum(10);
    assert_eq!(result.minimum, 10);
    assert_eq!(result.maximum, 10);
}

#[test]
fn test_with_minimum() {
    let m = Measurement::new(10, 50);

    // Width less than minimum - no change
    let result = m.with_minimum(5);
    assert_eq!(result.minimum, 10);
    assert_eq!(result.maximum, 50);

    // Width between min and max - only min changes
    let result = m.with_minimum(30);
    assert_eq!(result.minimum, 30);
    assert_eq!(result.maximum, 50);

    // Width greater than maximum - both get raised
    let result = m.with_minimum(60);
    assert_eq!(result.minimum, 60);
    assert_eq!(result.maximum, 60);

    // Width equals maximum
    let result = m.with_minimum(50);
    assert_eq!(result.minimum, 50);
    assert_eq!(result.maximum, 50);
}

#[test]
fn test_clamp_bounds() {
    let m = Measurement::new(10, 50);

    // Both bounds
    let clamped = m.clamp_bounds(Some(15), Some(40));
    assert_eq!(clamped.minimum, 15);
    assert_eq!(clamped.maximum, 40);

    // Only min bound
    let clamped = m.clamp_bounds(Some(20), None);
    assert_eq!(clamped.minimum, 20);
    assert_eq!(clamped.maximum, 50);

    // Only max bound
    let clamped = m.clamp_bounds(None, Some(30));
    assert_eq!(clamped.minimum, 10);
    assert_eq!(clamped.maximum, 30);

    // No bounds - no change
    let clamped = m.clamp_bounds(None, None);
    assert_eq!(clamped.minimum, 10);
    assert_eq!(clamped.maximum, 50);

    // Bounds that make min > max get corrected by ordering
    // with_minimum(40) -> (40, 50), then with_maximum(30) -> (30, 30)
    let clamped = m.clamp_bounds(Some(40), Some(30));
    assert_eq!(clamped.minimum, 30);
    assert_eq!(clamped.maximum, 30);
}

#[test]
fn test_clamp_width() {
    let m = Measurement::new(10, 50);
    assert_eq!(m.clamp_width(5), 10); // Below minimum
    assert_eq!(m.clamp_width(10), 10); // At minimum
    assert_eq!(m.clamp_width(30), 30); // Within bounds
    assert_eq!(m.clamp_width(50), 50); // At maximum
    assert_eq!(m.clamp_width(100), 50); // Above maximum
}

#[test]
fn test_union() {
    let m1 = Measurement::new(10, 50);
    let m2 = Measurement::new(15, 40);
    let combined = m1.union(&m2);
    assert_eq!(combined.minimum, 15);
    assert_eq!(combined.maximum, 50);

    let m3 = Measurement::new(5, 60);
    let combined = m1.union(&m3);
    assert_eq!(combined.minimum, 10);
    assert_eq!(combined.maximum, 60);
}

#[test]
fn test_default() {
    let m = Measurement::default();
    assert_eq!(m.minimum, 0);
    assert_eq!(m.maximum, 0);
}

#[test]
fn test_measure_renderables_empty() {
    let console = Console::new();
    let options = ConsoleOptions::default();
    let renderables: Vec<&dyn Renderable> = vec![];
    let measurement = measure_renderables(&console, &options, &renderables);
    assert_eq!(measurement.minimum, 0);
    assert_eq!(measurement.maximum, 0);
}

#[test]
fn test_measure_renderables_single() {
    let console = Console::new();
    let options = ConsoleOptions::default();
    let text = String::from("Hello");
    let renderables: Vec<&dyn Renderable> = vec![&text];
    let measurement = measure_renderables(&console, &options, &renderables);
    // "Hello" has no spaces, so minimum == maximum == 5
    assert_eq!(measurement.minimum, 5);
    assert_eq!(measurement.maximum, 5);
}

#[test]
fn test_measure_renderables_multiple() {
    let console = Console::new();
    let options = ConsoleOptions::default();
    let short = String::from("Hi");
    let long = String::from("Hello World");
    let renderables: Vec<&dyn Renderable> = vec![&short, &long];
    let measurement = measure_renderables(&console, &options, &renderables);
    // short: min=2, max=2
    // long: "Hello World" has min=5 (longest word), max=11
    // Combined: max(2,5)=5, max(2,11)=11
    assert_eq!(measurement.minimum, 5);
    assert_eq!(measurement.maximum, 11);
}

#[test]
fn test_measure_renderables_takes_max_of_measurements() {
    let console = Console::new();
    let options = ConsoleOptions::default();
    let a = String::from("ABCDEFGHIJ"); // min=10, max=10 (no spaces)
    let b = String::from("XY Z"); // min=2 ("XY"), max=4
    let c = String::from("12345 67"); // min=5 ("12345"), max=8
    let renderables: Vec<&dyn Renderable> = vec![&a, &b, &c];
    let measurement = measure_renderables(&console, &options, &renderables);
    // max of minimums: max(10, 2, 5) = 10
    // max of maximums: max(10, 4, 8) = 10
    assert_eq!(measurement.minimum, 10);
    assert_eq!(measurement.maximum, 10);
}

#[test]
fn test_from_segments_multiline_uses_widest_line() {
    let segments: Vec<Segment> = vec![Segment::new("abcd\nef")];
    let measurement = Measurement::from_segments(&segments);

    assert_eq!(measurement.minimum, 4);
    assert_eq!(measurement.maximum, 4);
}
