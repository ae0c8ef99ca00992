use neuron_net::neuron::Neuron;
use neuron_net::scheduler::{Scheduler, SchedulerError};
use neuron_net::snapshot::NeuronRecord;

fn record(id: &str, threshold: i64, potential: i64, outgoing: Vec<(&str, i64)>) -> NeuronRecord {
    NeuronRecord {
        id: id.to_string(),
        threshold,
        potential,
        outgoing: outgoing.into_iter().map(|(t, w)| (t.to_string(), w)).collect(),
    }
}

fn plain(records: &Vec<NeuronRecord>) -> Vec<(String, i64, i64, Vec<(String, i64)>)> {
    records
        .iter()
        .map(|r| (r.id.clone(), r.threshold, r.potential, r.outgoing.clone()))
        .collect()
}

#[test]
fn rebuilt_registry_delivers_the_same_signals() {
    let mut live = Scheduler::new();
    let a = live.add_neuron(1000, Some("a".to_string())).unwrap();
    let b = live.add_neuron(2000, Some("b".to_string())).unwrap();
    let c = live.add_neuron(500, Some("c".to_string())).unwrap();
    live.connect_neurons(&a, &b, Some(750)).unwrap();
    live.connect_neurons(&a, &c, Some(-250)).unwrap();
    live.connect_neurons(&c, &b, Some(1250)).unwrap();
    live.connect_neurons(&c, &c, Some(-1000)).unwrap();
    live.find_neuron_by_id_mut(&b).unwrap().update_potential(300);

    let records = live.snapshot();
    assert_eq!(
        plain(&records),
        vec![
            ("a".to_string(), 1000, 0, vec![("b".to_string(), 750), ("c".to_string(), -250)]),
            ("b".to_string(), 2000, 300, vec![]),
            ("c".to_string(), 500, 0, vec![("b".to_string(), 1250), ("c".to_string(), -1000)]),
        ]
    );
    let mut copy = Scheduler::restore(&records).ok().unwrap();
    assert_eq!(plain(&copy.snapshot()), plain(&records));
    assert_eq!(copy.time, 0);
    assert_eq!(copy.max_rounds(), 10_000);

    let firing = vec![c.clone(), a.clone()];
    let from_live = live.discharge(&firing);
    let from_copy = copy.discharge(&firing);
    for id in [&a, &b, &c] {
        assert_eq!(from_live.batch(id), from_copy.batch(id));
    }
    assert_eq!(from_live.batch(&b), Some(vec![750, 1250]));
    assert_eq!(from_live.batch(&c), Some(vec![-250, -1000]));
    assert_eq!(live.prepare_next_layer(from_live), copy.prepare_next_layer(from_copy));
    assert_eq!(live.print_pool(), copy.print_pool());
}

#[test]
fn restore_orders_records_and_rejects_duplicates() {
    let records = vec![
        record("m", 1, 5, vec![("a", 2)]),
        record("a", 3, -4, vec![]),
        record("z", 0, 0, vec![("m", 1), ("m", 1)]),
    ];
    let restored = Scheduler::restore(&records).ok().unwrap();
    assert_eq!(
        restored.print_pool(),
        vec![("a".to_string(), -4), ("m".to_string(), 5), ("z".to_string(), 0)]
    );
    assert_eq!(
        restored.find_neuron_by_id(&"z".to_string()).unwrap().to_record().outgoing,
        vec![("m".to_string(), 1), ("m".to_string(), 1)]
    );

    let twice = vec![record("a", 1, 0, vec![]), record("b", 1, 0, vec![]), record("a", 2, 0, vec![])];
    assert_eq!(Scheduler::restore(&twice).err(), Some(SchedulerError::DuplicateName));
    assert_eq!(Scheduler::restore(&Vec::new()).ok().unwrap().len(), 0);
}

#[test]
fn records_and_units_convert_both_ways() {
    let r = record("n", 9, -2, vec![("x", 1), ("y", -1)]);
    let unit = Neuron::from_record(&r);
    assert_eq!(unit.get_name(), "n");
    assert_eq!(unit.threshold, 9);
    assert_eq!(unit.potential, -2);
    let back = unit.to_record();
    assert_eq!(plain(&vec![back]), plain(&vec![r]));
}

#[test]
fn register_places_a_unit_by_its_name() {
    let mut scheduler = Scheduler::new();
    scheduler.add_neuron(1, Some("b".to_string())).unwrap();
    let mut unit = Neuron::named(4, "a".to_string());
    unit.update_potential(6);
    assert_eq!(scheduler.register(unit), Ok("a".to_string()));
    assert_eq!(
        scheduler.register(Neuron::named(0, "a".to_string())),
        Err(SchedulerError::DuplicateName)
    );
    assert_eq!(
        scheduler.print_pool(),
        vec![("a".to_string(), 6), ("b".to_string(), 0)]
    );
}
