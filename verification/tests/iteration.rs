use registry_ticket_manager::RegistryManager;
use registry_ticket_manager::RegistryTicket;
use registry_ticket_manager::TicketU16;
use registry_ticket_manager::map_next;

type Reg = RegistryManager<u64, TicketU16, u32>;

fn sample(n: u32) -> Reg {
    let mut man = Reg::new();
    for k in 0..n {
        man.insert(k, (k as u64) + 100).unwrap();
    }
    man
}

#[test]
fn forward_iteration_follows_insertion_order() {
    let man = sample(5);
    let mut it = man.iter();
    let mut seen: Vec<(usize, u32, u64)> = Vec::new();
    while let Some((t, id, v)) = it.next() {
        seen.push((t.to_index(), *id, *v));
    }
    let expected: Vec<(usize, u32, u64)> =
        (0..5u32).map(|k| (k as usize, k, (k as u64) + 100)).collect();
    assert_eq!(seen, expected);
}

#[test]
fn forward_reversed_equals_backward() {
    let man = sample(6);

    let mut forward: Vec<(TicketU16, u32, u64)> = Vec::new();
    let mut it = man.iter();
    while let Some((t, id, v)) = it.next() {
        forward.push((t, *id, *v));
    }
    forward.reverse();

    let mut backward: Vec<(TicketU16, u32, u64)> = Vec::new();
    let mut it = man.iter();
    while let Some((t, id, v)) = it.next_back() {
        backward.push((t, *id, *v));
    }

    assert_eq!(forward, backward);
}

#[test]
fn nth_equals_repeated_next() {
    let man = sample(8);

    let mut by_skip = man.iter();
    let skipped = by_skip.nth(3);

    let mut by_steps = man.iter();
    by_steps.next();
    by_steps.next();
    by_steps.next();
    let stepped = by_steps.next();

    assert_eq!(skipped, stepped);
    assert_eq!(by_skip.len(), by_steps.len());
    assert_eq!(by_skip.next(), by_steps.next());
}

#[test]
fn nth_back_equals_repeated_next_back() {
    let man = sample(8);

    let mut by_skip = man.iter();
    let skipped = by_skip.nth_back(2);

    let mut by_steps = man.iter();
    by_steps.next_back();
    by_steps.next_back();
    let stepped = by_steps.next_back();

    assert_eq!(skipped, stepped);
    assert_eq!(by_skip.len(), by_steps.len());
    assert_eq!(by_skip.next_back(), by_steps.next_back());
}

#[test]
fn exhausted_adapter_stays_exhausted() {
    let man = sample(2);
    let mut it = man.iter();
    assert!(it.next().is_some());
    assert!(it.next().is_some());
    assert!(it.next().is_none());
    assert!(it.next().is_none());
    assert!(it.next_back().is_none());
    assert!(it.nth(0).is_none());
    assert_eq!(it.len(), 0);
    assert_eq!(it.size_hint(), (0, Some(0)));

    let mut mixed = man.iter();
    assert!(mixed.next().is_some());
    assert!(mixed.next_back().is_some());
    assert!(mixed.next().is_none());
    assert!(mixed.next_back().is_none());
}

#[test]
fn length_reporting_is_exact() {
    let man = sample(4);
    let mut it = man.iter();
    assert_eq!(it.size_hint(), (4, Some(4)));
    assert_eq!(it.len(), 4);
    it.next();
    it.next_back();
    assert_eq!(it.len(), 2);
    assert_eq!(it.size_hint(), (2, Some(2)));
    assert_eq!(man.iter().count(), 4);
}

#[test]
fn last_yields_final_entry() {
    let man = sample(3);
    let (t, id, v) = man.iter().last().unwrap();
    assert_eq!(t.to_index(), 2);
    assert_eq!(*id, 2);
    assert_eq!(*v, 102);

    let empty = Reg::new();
    assert!(empty.iter().last().is_none());
}

#[test]
fn mutable_iteration_updates_every_value() {
    let mut man = sample(5);
    let mut it = man.iter_mut();
    while let Some((t, id, v)) = it.next() {
        assert_eq!(t.to_index() as u32, *id);
        *v += 1000;
    }
    for k in 0..5u32 {
        assert_eq!(*man.get_id(&k).unwrap(), (k as u64) + 1100);
    }
}

#[test]
fn mutable_iteration_from_the_back() {
    let mut man = sample(4);
    let mut it = man.iter_mut();
    assert_eq!(it.size_hint(), (4, Some(4)));
    let mut order: Vec<usize> = Vec::new();
    while let Some((t, _, v)) = it.next_back() {
        order.push(t.to_index());
        *v = 7;
    }
    assert_eq!(order, vec![3, 2, 1, 0]);
    for k in 0..4u32 {
        assert_eq!(*man.get_id(&k).unwrap(), 7);
    }
}

#[test]
fn mutable_iteration_skips_and_stays_fused() {
    let mut man = sample(6);
    let mut it = man.iter_mut();
    let (t, _, v) = it.nth(4).unwrap();
    assert_eq!(t.to_index(), 4);
    *v = 1;
    assert_eq!(it.len(), 1);
    let (t2, _, v2) = it.nth_back(0).unwrap();
    assert_eq!(t2.to_index(), 5);
    *v2 = 2;
    assert!(it.next().is_none());
    assert!(it.next_back().is_none());
    assert_eq!(it.count(), 0);
    assert_eq!(*man.get_id(&4).unwrap(), 1);
    assert_eq!(*man.get_id(&5).unwrap(), 2);
}

#[test]
fn mutable_last_yields_final_entry() {
    let mut man = sample(3);
    let (t, id, v) = man.iter_mut().last().unwrap();
    assert_eq!(t.to_index(), 2);
    assert_eq!(*id, 2);
    *v = 0;
    assert_eq!(*man.get_id(&2).unwrap(), 0);
}

#[test]
fn map_next_mints_ticket_and_keeps_entry() {
    let (t, id, v): (TicketU16, &str, u64) = map_next((3, ("three", 30)));
    assert_eq!(t.to_index(), 3);
    assert_eq!(id, "three");
    assert_eq!(v, 30);
}

#[test]
fn collect_matches_manual_loop() {
    let man = sample(5);

    let mut manual: Vec<(TicketU16, &u32, &u64)> = Vec::new();
    let mut it = man.iter();
    while let Some(x) = it.next() {
        manual.push(x);
    }

    let collected = man.iter().collect();
    assert_eq!(collected, manual);
    assert_eq!(collected.len(), 5);

    let mut partial = man.iter();
    partial.next();
    partial.next_back();
    let middle = partial.collect();
    assert_eq!(middle.len(), 3);
    assert_eq!(middle[0].0.to_index(), 1);
    assert_eq!(middle[2].0.to_index(), 3);
}

#[test]
fn mutable_backward_is_reverse_of_forward() {
    let mut man = sample(6);
    let forward: Vec<(TicketU16, u32, u64)> =
        man.iter_mut().into_shared().collect().into_iter().map(|(t, i, v)| (t, *i, *v)).collect();
    let backward: Vec<(TicketU16, u32, u64)> = man
        .iter_mut()
        .into_shared()
        .collect_back()
        .into_iter()
        .map(|(t, i, v)| (t, *i, *v))
        .collect();

    let mut reversed = forward.clone();
    reversed.reverse();
    assert_eq!(reversed, backward);
}

#[test]
fn into_shared_keeps_cursors() {
    let mut man = sample(5);
    let mut it = man.iter_mut();
    it.next();
    it.next_back();
    let shared = it.into_shared();
    assert_eq!(shared.len(), 3);
    let rest = shared.collect();
    assert_eq!(rest[0].0.to_index(), 1);
    assert_eq!(rest[2].0.to_index(), 3);
}

#[test]
fn collect_back_matches_manual_backward_loop() {
    let man = sample(4);
    let mut manual: Vec<(TicketU16, &u32, &u64)> = Vec::new();
    let mut it = man.iter();
    while let Some(x) = it.next_back() {
        manual.push(x);
    }
    assert_eq!(man.iter().collect_back(), manual);
}
