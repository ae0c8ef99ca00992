use neuron_net::ident::name_precedes;
use neuron_net::inbox::Inbox;
use neuron_net::signal::{add_saturating, sum};

#[test]
fn sum_is_exact_within_the_range() {
    assert_eq!(sum(&vec![]), 0);
    assert_eq!(sum(&vec![1, 2, 3]), 6);
    assert_eq!(sum(&vec![i64::MAX, i64::MIN]), -1);
    assert_eq!(sum(&vec![i64::MAX, i64::MAX, i64::MIN, i64::MIN]), -2);
}

#[test]
fn sum_stops_at_the_ends_of_the_range() {
    assert_eq!(sum(&vec![i64::MAX, 1]), i64::MAX);
    assert_eq!(sum(&vec![i64::MIN, -1]), i64::MIN);
    assert_eq!(sum(&vec![i64::MAX, i64::MAX, -1]), i64::MAX);
}

#[test]
fn add_saturating_adds_or_stops() {
    assert_eq!(add_saturating(2, 3), 5);
    assert_eq!(add_saturating(-2, -3), -5);
    assert_eq!(add_saturating(i64::MAX, 1), i64::MAX);
    assert_eq!(add_saturating(i64::MIN, -1), i64::MIN);
    assert_eq!(add_saturating(i64::MAX, i64::MIN), -1);
}

#[test]
fn names_are_ordered_by_their_bytes() {
    let lt = |a: &str, b: &str| name_precedes(&a.to_string(), &b.to_string());
    assert!(lt("", "a"));
    assert!(!lt("", ""));
    assert!(!lt("a", ""));
    assert!(lt("a", "b"));
    assert!(!lt("b", "a"));
    assert!(!lt("a", "a"));
    assert!(lt("ab", "abc"));
    assert!(!lt("abc", "ab"));
    assert!(lt("B", "a"));
    assert!(lt("z", "é"));
    assert!(lt("é", "日"));
    assert!(lt("input 1", "input 2"));
    for (a, b) in [("", "a"), ("ab", "abc"), ("B", "a"), ("z", "é"), ("x", "x")] {
        assert_eq!(lt(a, b), a < b);
        assert_eq!(lt(b, a), b < a);
    }
}

#[test]
fn inbox_groups_signals_by_target() {
    let mut inbox = Inbox::new();
    assert!(inbox.is_empty());
    assert_eq!(inbox.batch(&"a".to_string()), None);
    inbox.push("a".to_string(), 1);
    inbox.push("b".to_string(), 2);
    inbox.push("a".to_string(), 3);
    assert!(!inbox.is_empty());
    assert_eq!(inbox.batch(&"a".to_string()), Some(vec![1, 3]));
    assert_eq!(inbox.batch(&"b".to_string()), Some(vec![2]));
    assert_eq!(inbox.batch(&"c".to_string()), None);
}
