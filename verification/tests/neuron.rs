use neuron_net::inbox::Inbox;
use neuron_net::neuron::{Dendrite, Neuron};
use std::sync::Arc;

#[test]
fn neuron_dendrite_test() {
    let mut _n1 = Neuron::new(0, Some("n11".to_string()));
    let mut _n2 = Neuron::new(0, Some("n12".to_string()));
    let _n21 = Arc::new(Neuron::new(0, Some("n21".to_string())));
    let _n22 = Arc::new(Neuron::new(0, Some("n22".to_string())));
}

#[test]
fn new_unit_rests_without_connections() {
    let n = Neuron::new(7, Some("n".to_string()));
    assert_eq!(n.get_name(), "n");
    assert_eq!(n.threshold, 7);
    assert_eq!(n.potential, 0);
    assert!(n.to_record().outgoing.is_empty());
    let named = Neuron::named(-3, "m".to_string());
    assert_eq!(named.get_name(), "m");
    assert_eq!(named.threshold, -3);
    assert_eq!(named.potential, 0);
}

#[test]
fn empty_unit_has_no_name_and_the_largest_threshold() {
    let n = Neuron::empty();
    assert_eq!(n.get_name(), "");
    assert_eq!(n.threshold, i64::MAX);
    assert_eq!(n.potential, 0);
    assert!(n.to_record().outgoing.is_empty());
}

#[test]
fn generated_names_are_fresh_identifiers() {
    let a = Neuron::new(0, None);
    let b = Neuron::new(0, None);
    assert_eq!(a.get_name().chars().count(), 36);
    assert_eq!(b.get_name().chars().count(), 36);
    assert_ne!(a.get_name(), b.get_name());
    assert_eq!(a.potential, 0);
    assert_eq!(a.threshold, 0);
}

#[test]
fn set_name_renames_only() {
    let mut n = Neuron::new(4, Some("old".to_string()));
    n.connect_to("x".to_string(), Some(9));
    n.update_potential(2);
    n.set_name("new".to_string());
    assert_eq!(n.get_name(), "new");
    assert_eq!(n.threshold, 4);
    assert_eq!(n.potential, 2);
    assert_eq!(n.to_record().outgoing, vec![("x".to_string(), 9)]);
}

#[test]
fn connect_to_appends_and_defaults_to_zero() {
    let mut n = Neuron::new(1, Some("n".to_string()));
    n.connect_to("a".to_string(), Some(5));
    n.connect_to("b".to_string(), None);
    n.connect_to("a".to_string(), Some(-5));
    n.connect_to("n".to_string(), Some(1));
    assert_eq!(
        n.to_record().outgoing,
        vec![
            ("a".to_string(), 5),
            ("b".to_string(), 0),
            ("a".to_string(), -5),
            ("n".to_string(), 1),
        ]
    );
}

#[test]
fn transmit_appends_to_existing_batches() {
    let mut n = Neuron::new(1, Some("n".to_string()));
    n.connect_to("a".to_string(), Some(5));
    n.connect_to("b".to_string(), Some(6));
    n.connect_to("a".to_string(), Some(7));
    n.update_potential(3);
    let mut inbox = Inbox::new();
    inbox.push("a".to_string(), 1);
    n.transmit(&mut inbox);
    assert_eq!(inbox.batch(&"a".to_string()), Some(vec![1, 5, 7]));
    assert_eq!(inbox.batch(&"b".to_string()), Some(vec![6]));
    assert_eq!(inbox.batch(&"n".to_string()), None);
    assert_eq!(n.potential, 3);
    n.transmit(&mut inbox);
    assert_eq!(inbox.batch(&"a".to_string()), Some(vec![1, 5, 7, 5, 7]));
}

#[test]
fn process_signals_sums_the_batch() {
    let n = Neuron::new(1, Some("n".to_string()));
    assert_eq!(n.process_signals(&vec![]), Some(0));
    assert_eq!(n.process_signals(&vec![250, 500, -1000]), Some(-250));
    assert_eq!(n.process_signals(&vec![i64::MAX, i64::MAX, i64::MIN]), Some(i64::MAX - 1));
    assert_eq!(n.process_signals(&vec![i64::MAX, 1]), Some(i64::MAX));
    assert_eq!(n.process_signals(&vec![i64::MIN, -1]), Some(i64::MIN));
}

#[test]
fn update_potential_adds_and_saturates() {
    let mut n = Neuron::new(1, Some("n".to_string()));
    n.update_potential(5);
    n.update_potential(-8);
    assert_eq!(n.potential, -3);
    n.update_potential(i64::MIN);
    assert_eq!(n.potential, i64::MIN);
    n.update_potential(i64::MAX);
    n.update_potential(i64::MAX);
    assert_eq!(n.potential, i64::MAX - 1);
    n.update_potential(2);
    assert_eq!(n.potential, i64::MAX);
}

#[test]
fn dendrite_keeps_target_and_strength() {
    let d = Dendrite::new("t".to_string(), -4);
    assert_eq!(d.get_neuron_id(), "t");
    assert_eq!(d.get_strength(), -4);
}

#[test]
fn dendrite_strength_goes_up_and_down_by_steps() {
    let mut d = Dendrite::new("t".to_string(), 0);
    d.inc_strength(100);
    assert_eq!(d.get_strength(), 100);
    d.dec_strength(250);
    assert_eq!(d.get_strength(), -150);
    d.dec_strength(i64::MAX);
    d.dec_strength(i64::MAX);
    assert_eq!(d.get_strength(), i64::MIN);
    d.dec_strength(i64::MIN);
    assert_eq!(d.get_strength(), 0);
    d.dec_strength(i64::MIN);
    assert_eq!(d.get_strength(), i64::MAX);
    d.dec_strength(1);
    assert_eq!(d.get_strength(), i64::MAX - 1);
    d.inc_strength(i64::MAX);
    d.inc_strength(i64::MAX);
    assert_eq!(d.get_strength(), i64::MAX);
    assert_eq!(d.get_neuron_id(), "t");
}
