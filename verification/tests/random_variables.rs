use drafts::event::Range;
use drafts::random_variable::{
    AddConstant, Probability, ProbabilityError, RandomVariable, Unif,
};

fn value(p: Probability) -> f32 {
    p.numerator() as f32 / p.denominator() as f32
}

fn tenths(x: f32) -> i64 {
    (x * 10.0).round() as i64
}

#[test]
fn desired_continuous_usage() {
    let va_x = Unif::new(tenths(0.0), tenths(1.0)).unwrap();
    let ev_a = Range::new(tenths(0.0), tenths(0.3));
    let p_win = value(va_x.probability_of(ev_a).unwrap());

    assert_eq!(p_win, 0.3);
}

#[test]
fn more_assertions() {
    let va_x = Unif::new(0, 80).unwrap();
    assert_eq!(1.00, value(va_x.probability_of(Range::new(0, 80)).unwrap()));
    assert_eq!(0.25, value(va_x.probability_of(Range::new(-20, 20)).unwrap()));
    assert_eq!(0.25, value(va_x.probability_of(Range::new(0, 20)).unwrap()));
    assert_eq!(1.00, value(va_x.probability_of(Range::new(0, 100)).unwrap()));
}

#[test]
fn probability_is_an_exact_ratio_of_lengths() {
    let v = Unif::new(10, 50).unwrap();
    let p = v.probability_of(Range::new(20, 35)).unwrap();
    assert_eq!(p.numerator(), 15);
    assert_eq!(p.denominator(), 40);
}

#[test]
fn probability_of_the_support_is_one() {
    let v = Unif::new(-7, 13).unwrap();
    let p = v.probability_of(Range::new(-7, 13)).unwrap();
    assert_eq!(p.numerator(), 20);
    assert_eq!(p.denominator(), 20);
}

#[test]
fn probability_of_an_event_outside_is_zero() {
    let v = Unif::new(0, 80).unwrap();
    let right = v.probability_of(Range::new(80, 200)).unwrap();
    assert_eq!(right.numerator(), 0);
    assert_eq!(right.denominator(), 80);
    let left = v.probability_of(Range::new(-50, -1)).unwrap();
    assert_eq!(left.numerator(), 0);
    let nothing = v.probability_of(Range::Empty).unwrap();
    assert_eq!(nothing.numerator(), 0);
}

#[test]
fn probability_of_an_event_around_the_support_is_clipped_to_one() {
    let v = Unif::new(0, 80).unwrap();
    let p = v.probability_of(Range::new(-1000, 1000)).unwrap();
    assert_eq!(p.numerator(), 80);
    assert_eq!(p.denominator(), 80);
}

#[test]
fn probability_of_a_union_counts_overlap_once() {
    let v = Unif::new(0, 100).unwrap();
    let ev = Range::Union(
        Box::new(Range::Simple(-10, 30)),
        Box::new(Range::Union(
            Box::new(Range::Simple(20, 40)),
            Box::new(Range::Simple(90, 120)),
        )),
    );
    let p = v.probability_of(ev).unwrap();
    assert_eq!(p.numerator(), 50);
    assert_eq!(p.denominator(), 100);
}

#[test]
fn uniform_refuses_reversed_bounds() {
    assert_eq!(Unif::new(5, 4).err(), Some(ProbabilityError::InvalidArgument));
    assert!(Unif::new(4, 4).is_ok());
    assert!(Unif::new(4, 5).is_ok());
}

#[test]
fn degenerate_support_has_no_probability() {
    let v = Unif::new(4, 4).unwrap();
    assert_eq!(
        v.probability_of(Range::new(0, 10)).err(),
        Some(ProbabilityError::DegenerateSupport)
    );
    assert_eq!(
        v.probability_of(Range::Empty).err(),
        Some(ProbabilityError::DegenerateSupport)
    );
}

#[test]
fn added_constant_is_carried_and_not_applied() {
    let va_x = Unif::new(0, 10).unwrap();
    let va_y = va_x.add_constant(10);
    assert_eq!(va_y.k, 10);
    let base = va_x.probability_of(Range::new(2, 4)).unwrap();
    let same_event = va_y.probability_of(Range::new(2, 4)).unwrap();
    assert_eq!(same_event.numerator(), base.numerator());
    assert_eq!(same_event.denominator(), base.denominator());
    assert_eq!(base.numerator(), 2);
    let shifted_event = va_y.probability_of(Range::new(12, 14)).unwrap();
    assert_eq!(shifted_event.numerator(), 0);
    let low = va_y.probability_of(Range::new(0, 8)).unwrap();
    assert_eq!(low.numerator(), 8);
    assert_eq!(low.denominator(), 10);
}

#[test]
fn probabilities_are_equal_by_value() {
    let wide = Unif::new(0, 80).unwrap();
    let narrow = Unif::new(0, 4).unwrap();
    let quarter = wide.probability_of(Range::new(0, 20)).unwrap();
    assert_eq!((quarter.numerator(), quarter.denominator()), (20, 80));
    let also_quarter = narrow.probability_of(Range::new(1, 2)).unwrap();
    assert_eq!((also_quarter.numerator(), also_quarter.denominator()), (1, 4));
    assert_eq!(quarter, also_quarter);
    let half = narrow.probability_of(Range::new(1, 3)).unwrap();
    assert_ne!(quarter, half);
    let none = wide.probability_of(Range::Empty).unwrap();
    let none_too = narrow.probability_of(Range::new(9, 12)).unwrap();
    assert_eq!(none, none_too);
}
