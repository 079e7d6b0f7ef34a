use lamp_chain::chain::{link_with, setup_chain, Chain};
use lamp_chain::lamp::{Lamp, LampAction, TurnOff, TurnOn};

fn chain_of(names: &[&'static str]) -> (Chain, usize) {
    let mut v: Vec<&'static str> = Vec::new();
    for n in names {
        v.push(n);
    }
    Chain::build(v)
}

fn states(c: &Chain) -> Vec<bool> {
    let mut v: Vec<bool> = Vec::new();
    for l in &c.lamps {
        v.push(l.on);
    }
    v
}

#[test]
fn lamp_new_is_off_and_unlinked() {
    let l = Lamp::new("solo");
    assert_eq!(l.name, "solo");
    assert!(!l.on);
    assert!(l.prev.is_none());
    assert!(l.next.is_none());
}

#[test]
fn turn_on_and_off_flip_only_the_flag() {
    let mut l = Lamp::new("solo");
    l.turn_on();
    assert!(l.on);
    assert_eq!(l.name, "solo");
    assert!(l.prev.is_none() && l.next.is_none());
    l.turn_off();
    assert!(!l.on);
}

#[test]
fn actions_are_idempotent_on_one_lamp() {
    let mut l = Lamp::new("solo");
    TurnOn.apply(&mut l);
    assert!(l.on);
    TurnOn.apply(&mut l);
    assert!(l.on);
    TurnOff.apply(&mut l);
    assert!(!l.on);
    TurnOff.apply(&mut l);
    assert!(!l.on);
}

#[test]
fn link_with_makes_a_symmetric_pair() {
    let mut c = Chain { lamps: vec![Lamp::new("a"), Lamp::new("b"), Lamp::new("c")] };
    link_with(&mut c, 0, 1);
    link_with(&mut c, 1, 2);
    assert_eq!(c.lamps[0].next, Some(1));
    assert_eq!(c.lamps[1].prev, Some(0));
    assert_eq!(c.lamps[1].next, Some(2));
    assert_eq!(c.lamps[2].prev, Some(1));
    assert_eq!(c.lamps[0].prev, None);
    assert_eq!(c.lamps[2].next, None);
}

#[test]
fn build_links_pairwise_in_order() {
    let (c, entry) = chain_of(&["a", "b", "c", "d"]);
    assert_eq!(entry, 3);
    assert_eq!(c.lamps.len(), 4);
    for (i, l) in c.lamps.iter().enumerate() {
        assert!(!l.on);
        assert_eq!(l.prev, if i == 0 { None } else { Some(i - 1) });
        assert_eq!(l.next, if i == 3 { None } else { Some(i + 1) });
    }
    assert_eq!(c.lamps[0].name, "a");
    assert_eq!(c.lamps[3].name, "d");
}

#[test]
fn traversal_reaches_every_lamp_from_every_start() {
    for start in 0..5 {
        let (mut c, _entry) = chain_of(&["a", "b", "c", "d", "e"]);
        c.operate_exchange(start, &TurnOn);
        assert_eq!(states(&c), vec![true; 5], "start {}", start);
    }
}

#[test]
fn traversal_from_any_start_matches_acting_on_each_lamp_directly() {
    let (mut direct, _entry) = chain_of(&["a", "b", "c", "d", "e", "f"]);
    for l in direct.lamps.iter_mut() {
        TurnOn.apply(l);
    }
    for start in 0..6 {
        let (mut c, _entry) = chain_of(&["a", "b", "c", "d", "e", "f"]);
        c.operate_exchange(start, &TurnOn);
        assert_eq!(states(&c), states(&direct), "start {}", start);
    }
}

#[test]
fn second_traversal_with_same_action_changes_nothing() {
    let (mut c, entry) = setup_chain();
    c.operate_exchange(entry, &TurnOn);
    let after_once = states(&c);
    c.operate_exchange(entry, &TurnOn);
    assert_eq!(states(&c), after_once);
    c.operate_exchange(entry, &TurnOff);
    let off_once = states(&c);
    c.operate_exchange(entry, &TurnOff);
    assert_eq!(states(&c), off_once);
}

#[test]
fn single_lamp_chain_mutates_only_that_lamp() {
    let (mut c, entry) = chain_of(&["solo"]);
    assert_eq!(entry, 0);
    assert!(c.lamps[0].prev.is_none() && c.lamps[0].next.is_none());
    c.operate_exchange(entry, &TurnOn);
    assert_eq!(c.lamps.len(), 1);
    assert!(c.lamps[0].on);
    assert!(c.lamps[0].prev.is_none() && c.lamps[0].next.is_none());
}

#[test]
fn starting_at_an_end_still_reaches_all_lamps() {
    let (mut first, _entry) = chain_of(&["a", "b", "c", "d"]);
    first.operate_exchange(0, &TurnOn);
    assert_eq!(states(&first), vec![true; 4]);

    let (mut last, entry) = chain_of(&["a", "b", "c", "d"]);
    last.operate_exchange(entry, &TurnOn);
    assert_eq!(states(&last), vec![true; 4]);
}

#[test]
fn nine_lamps_on_from_the_last_then_off() {
    let (mut c, entry) = setup_chain();
    assert_eq!(c.lamps.len(), 9);
    assert_eq!(entry, 8);
    let names: Vec<&str> = c.lamps.iter().map(|l| l.name).collect();
    assert_eq!(
        names,
        vec![
            "Lamp A", "Lamp B", "Lamp C", "Lamp D", "Lamp E", "Lamp F", "Lamp G", "Lamp H",
            "Lamp I"
        ]
    );
    c.operate_exchange(entry, &TurnOn);
    assert_eq!(states(&c), vec![true; 9]);
    c.operate_exchange(entry, &TurnOff);
    assert_eq!(states(&c), vec![false; 9]);
}

#[test]
fn three_lamps_on_from_the_middle() {
    let (mut c, _entry) = chain_of(&["X", "Y", "Z"]);
    c.operate_exchange(1, &TurnOn);
    assert_eq!(states(&c), vec![true, true, true]);
}

#[test]
fn turn_off_traversal_clears_a_mixed_chain() {
    let (mut c, _entry) = chain_of(&["a", "b", "c", "d"]);
    c.lamps[1].turn_on();
    c.lamps[3].turn_on();
    c.operate_exchange(2, &TurnOff);
    assert_eq!(states(&c), vec![false; 4]);
}
