use drafts::event::{Event, Range};

fn interval(lo: i64, hi: i64) -> Range {
    Range::Simple(lo, hi)
}

fn pair(left: Range, right: Range) -> Range {
    Range::Union(Box::new(left), Box::new(right))
}

#[test]
fn new_keeps_ordered_bounds() {
    assert_eq!(Range::new(2, 7), interval(2, 7));
    assert_eq!(Range::new(4, 4), interval(4, 4));
}

#[test]
fn new_normalizes_reversed_bounds_to_empty() {
    assert_eq!(Range::new(7, 2), Range::Empty);
    assert_eq!(Range::new(7, 2).lebesgue_measure(), 0);
}

#[test]
fn unmesaurable_only_for_degenerate_interval() {
    assert!(Range::new(3, 3).unmesaurable());
    assert!(!Range::new(3, 4).unmesaurable());
    assert!(!Range::Empty.unmesaurable());
    assert!(!pair(interval(1, 1), interval(2, 2)).unmesaurable());
}

#[test]
fn clone_copies_the_tree() {
    let e = pair(interval(0, 1), pair(Range::Empty, interval(5, 9)));
    assert_eq!(e.clone(), e);
}

#[test]
fn contains_is_strict_at_both_bounds() {
    let e = Range::new(0, 10);
    assert!(!e.contains_outcome(0));
    assert!(e.contains_outcome(1));
    assert!(e.contains_outcome(9));
    assert!(!e.contains_outcome(10));
    assert!(!e.contains_outcome(-1));
    assert!(!e.contains_outcome(11));
}

#[test]
fn contains_nothing_when_empty_or_degenerate() {
    assert!(!Range::Empty.contains_outcome(0));
    assert!(!Range::new(5, 5).contains_outcome(5));
    assert!(!Range::new(5, 6).contains_outcome(5));
    assert!(!Range::new(5, 6).contains_outcome(6));
}

#[test]
fn contains_in_union_is_either_branch() {
    let e = pair(interval(0, 3), interval(10, 13));
    assert!(e.contains_outcome(1));
    assert!(e.contains_outcome(12));
    assert!(!e.contains_outcome(5));
    assert!(!e.contains_outcome(3));
    assert!(!e.contains_outcome(10));
}

#[test]
fn intersection_with_empty_is_empty() {
    let e = interval(0, 5);
    let u = pair(interval(0, 5), interval(7, 9));
    assert_eq!(Range::Empty.intersection(&e), Range::Empty);
    assert_eq!(Range::Empty.intersection(&u), Range::Empty);
    assert_eq!(e.intersection(&Range::Empty), Range::Empty);
}

#[test]
fn intersection_of_overlapping_intervals() {
    assert_eq!(interval(0, 5).intersection(&interval(3, 9)), interval(3, 5));
    assert_eq!(interval(3, 9).intersection(&interval(0, 5)), interval(3, 5));
    assert_eq!(interval(0, 9).intersection(&interval(3, 5)), interval(3, 5));
}

#[test]
fn intersection_of_touching_intervals_is_degenerate() {
    let shared = interval(0, 5).intersection(&interval(5, 9));
    assert_eq!(shared, interval(5, 5));
    assert_eq!(shared.lebesgue_measure(), 0);
}

#[test]
fn intersection_of_disjoint_intervals_is_empty() {
    assert_eq!(interval(0, 5).intersection(&interval(6, 9)), Range::Empty);
    assert_eq!(interval(6, 9).intersection(&interval(0, 5)), Range::Empty);
}

#[test]
fn intersection_distributes_over_the_left_union() {
    let u = pair(interval(0, 5), interval(10, 15));
    let got = u.intersection(&interval(3, 12));
    assert_eq!(got, pair(interval(3, 5), interval(10, 12)));
}

#[test]
fn intersection_distributes_over_the_right_union() {
    let u = pair(interval(0, 5), interval(10, 15));
    let got = interval(3, 12).intersection(&u);
    assert_eq!(got, pair(interval(3, 5), interval(10, 12)));
}

#[test]
fn intersection_of_two_unions_meets_each_branch_with_the_whole_other() {
    let x = pair(interval(0, 4), interval(6, 10));
    let y = pair(interval(2, 7), interval(9, 12));
    let got = x.intersection(&y);
    let want = pair(
        pair(interval(2, 4), Range::Empty),
        pair(interval(6, 7), interval(9, 10)),
    );
    assert_eq!(got, want);
    assert_eq!(got.lebesgue_measure(), 4);
}

#[test]
fn union_with_empty_is_the_other_operand() {
    let u = pair(interval(0, 5), interval(7, 9));
    assert_eq!(Range::Empty.union(&u), u);
    assert_eq!(Range::Empty.union(&interval(1, 2)), interval(1, 2));
    assert_eq!(interval(1, 2).union(&Range::Empty), interval(1, 2));
    assert_eq!(u.union(&Range::Empty).lebesgue_measure(), u.lebesgue_measure());
}

#[test]
fn union_merges_overlapping_and_touching_intervals() {
    assert_eq!(interval(0, 5).union(&interval(3, 9)), interval(0, 9));
    assert_eq!(interval(3, 9).union(&interval(0, 5)), interval(0, 9));
    assert_eq!(interval(0, 5).union(&interval(5, 9)), interval(0, 9));
    assert_eq!(interval(0, 9).union(&interval(3, 5)), interval(0, 9));
}

#[test]
fn union_keeps_disjoint_intervals_side_by_side() {
    let got = interval(0, 5).union(&interval(6, 9));
    assert_eq!(got, pair(interval(0, 5), interval(6, 9)));
    let back = interval(6, 9).union(&interval(0, 5));
    assert_eq!(back, pair(interval(6, 9), interval(0, 5)));
}

#[test]
fn union_distributes_over_union_operands() {
    let u = pair(interval(0, 2), interval(4, 6));
    let got = u.union(&interval(1, 5));
    assert_eq!(got, pair(interval(0, 5), interval(1, 6)));
    let back = interval(1, 5).union(&u);
    assert_eq!(back, pair(interval(0, 5), interval(1, 6)));
    assert_eq!(got.lebesgue_measure(), 6);
}

#[test]
fn measure_of_leaves() {
    assert_eq!(Range::Empty.lebesgue_measure(), 0);
    assert_eq!(interval(3, 10).lebesgue_measure(), 7);
    assert_eq!(interval(-20, 20).lebesgue_measure(), 40);
    assert_eq!(interval(4, 4).lebesgue_measure(), 0);
}

#[test]
fn measure_of_the_widest_interval() {
    assert_eq!(interval(i64::MIN, i64::MAX).lebesgue_measure(), u64::MAX);
    let twice = pair(interval(i64::MIN, i64::MAX), interval(i64::MIN, i64::MAX));
    assert_eq!(twice.lebesgue_measure(), u64::MAX);
}

#[test]
fn measure_of_union_counts_overlap_once() {
    assert_eq!(pair(interval(0, 5), interval(3, 9)).lebesgue_measure(), 9);
    assert_eq!(pair(interval(0, 5), interval(6, 9)).lebesgue_measure(), 8);
    assert_eq!(pair(interval(0, 5), interval(0, 5)).lebesgue_measure(), 5);
    assert_eq!(pair(interval(0, 5), Range::Empty).lebesgue_measure(), 5);
}

#[test]
fn measure_of_union_is_branches_less_their_intersection() {
    let l = pair(interval(0, 4), interval(3, 8));
    let r = pair(interval(6, 10), interval(20, 21));
    let whole = pair(l.clone(), r.clone());
    assert_eq!(l.lebesgue_measure(), 8);
    assert_eq!(r.lebesgue_measure(), 5);
    assert_eq!(l.intersection(&r).lebesgue_measure(), 2);
    assert_eq!(whole.lebesgue_measure(), 8 + 5 - 2);
}

#[test]
fn measure_of_nested_unions_with_repeated_branches() {
    let a = interval(0, 1);
    let aa = pair(a.clone(), a.clone());
    let nested = pair(aa.clone(), aa.clone());
    assert_eq!(nested.lebesgue_measure(), 1);
    let joined = pair(interval(0, 2), interval(4, 6)).union(&interval(1, 5));
    let doubled = joined.union(&joined);
    assert_eq!(doubled.lebesgue_measure(), 6);
}

#[test]
fn union_measure_is_commutative() {
    let x = pair(interval(0, 4), interval(6, 10));
    let y = pair(interval(2, 7), interval(20, 30));
    let xy = x.union(&y).lebesgue_measure();
    let yx = y.union(&x).lebesgue_measure();
    assert_eq!(xy, yx);
    assert_eq!(xy, 20);
    let z = interval(3, 8);
    assert_eq!(x.union(&z).lebesgue_measure(), z.union(&x).lebesgue_measure());
}

#[test]
fn intersection_measure_is_bounded_by_both_operands() {
    let x = pair(interval(0, 4), interval(6, 10));
    let y = pair(interval(2, 7), interval(9, 12));
    let m = x.intersection(&y).lebesgue_measure();
    assert!(m <= x.lebesgue_measure());
    assert!(m <= y.lebesgue_measure());
    assert_eq!(x.lebesgue_measure(), 8);
    assert_eq!(y.lebesgue_measure(), 8);
    assert_eq!(m, 4);
}

#[test]
fn intersection_with_itself_keeps_the_measure() {
    let e = pair(interval(0, 4), pair(interval(3, 8), interval(20, 25)));
    assert_eq!(e.lebesgue_measure(), 13);
    assert_eq!(e.intersection(&e).lebesgue_measure(), 13);
    let s = interval(2, 9);
    assert_eq!(s.intersection(&s), s);
}

#[test]
fn equality_compares_trees_not_sets() {
    assert_eq!(pair(interval(0, 1), interval(2, 3)), pair(interval(0, 1), interval(2, 3)));
    assert_ne!(pair(interval(0, 1), interval(2, 3)), pair(interval(2, 3), interval(0, 1)));
    assert_ne!(pair(interval(0, 1), Range::Empty), interval(0, 1));
    assert_ne!(interval(0, 1), interval(0, 2));
    assert_ne!(interval(3, 3), Range::Empty);
}

#[test]
fn measure_of_a_long_chain_of_overlapping_intervals() {
    let mut e = Range::Empty;
    for i in 0..14 {
        e = pair(interval(i * 3, i * 3 + 5), e);
    }
    assert_eq!(e.lebesgue_measure(), 13 * 3 + 5);
    let mut apart = Range::Empty;
    for i in 0..14 {
        apart = pair(apart, interval(i * 10, i * 10 + 4));
    }
    assert_eq!(apart.lebesgue_measure(), 14 * 4);
}
