use registry_ticket_manager::RegistryManager;
use registry_ticket_manager::RegistryTicket;
use registry_ticket_manager::TicketBit;
use registry_ticket_manager::TicketU16;

#[derive(Debug, Clone, PartialEq, Eq)]
struct Animal {
    category: String,
    sound: String,
}

impl Animal {
    fn new(category: &str, sound: &str) -> Self {
        Animal { category: category.to_string(), sound: sound.to_string() }
    }
}

type AnimalRegistry = RegistryManager<Animal, TicketU16>;

#[test]
fn new_manager_is_empty() {
    let man = AnimalRegistry::new();
    assert_eq!(man.len(), 0);
    assert!(man.is_empty());
    assert!(man.can_insert());
}

#[test]
fn default_manager_is_empty() {
    let man: AnimalRegistry = Default::default();
    assert_eq!(man.len(), 0);
    assert!(man.is_empty());
}

#[test]
fn three_entries_positions() {
    let mut man = AnimalRegistry::new();
    let (cat, old_cat) = man.insert("cat".to_string(), Animal::new("feline", "meow")).unwrap();
    let (dog, old_dog) = man.insert("dog".to_string(), Animal::new("canine", "woof")).unwrap();
    let (cow, old_cow) = man.insert("cow".to_string(), Animal::new("bovine", "moo")).unwrap();

    assert_eq!(man.len(), 3);
    assert!(old_cat.is_none());
    assert!(old_dog.is_none());
    assert!(old_cow.is_none());

    assert_eq!(cat.to_index(), 0);
    assert_eq!(dog.to_index(), 1);
    assert_eq!(cow.to_index(), 2);
    assert_ne!(cat, dog);
    assert_ne!(dog, cow);
    assert_ne!(cat, cow);

    let (id, animal) = man.get_ticket_full(dog);
    assert_eq!(id, "dog");
    assert_eq!(*animal, Animal::new("canine", "woof"));
}

#[test]
fn reinsert_returns_same_ticket_and_replaced_value() {
    let mut man = AnimalRegistry::new();
    let a = Animal::new("feline", "meow");
    let a2 = Animal::new("feline", "purr");

    let (first, none) = man.insert("cat".to_string(), a.clone()).unwrap();
    assert!(none.is_none());

    let (second, replaced) = man.insert("cat".to_string(), a2.clone()).unwrap();
    assert_eq!(first, second);
    assert_eq!(replaced, Some(a));
    assert_eq!(man.get_id(&"cat".to_string()), Some(&a2));
    assert_eq!(man.len(), 1);
}

#[test]
fn capacity_exhaustion_leaves_manager_unchanged() {
    let mut man: RegistryManager<u64, TicketBit, String> = RegistryManager::new();
    assert!(man.can_insert());
    let (t0, _) = man.insert("zero".to_string(), 10).unwrap();
    assert!(man.can_insert());
    let (t1, _) = man.insert("one".to_string(), 11).unwrap();
    assert!(!man.can_insert());

    let refused = man.insert("two".to_string(), 12);
    assert!(refused.is_none());
    assert_eq!(man.len(), 2);
    assert_eq!(*man.get_ticket(t0), 10);
    assert_eq!(*man.get_ticket(t1), 11);
    assert_eq!(t0.to_index(), 0);
    assert_eq!(t1.to_index(), 1);
    assert!(!man.contains_id(&"two".to_string()));
}

#[test]
fn missing_identifier_yields_nothing() {
    let mut man = AnimalRegistry::new();
    man.insert("cat".to_string(), Animal::new("feline", "meow")).unwrap();

    assert!(man.get_id(&"missing".to_string()).is_none());
    assert!(man.get_ticket_of(&"missing".to_string()).is_none());
    assert!(man.get_id_full(&"missing".to_string()).is_none());
    assert!(!man.contains_id(&"missing".to_string()));
}

#[test]
fn get_ticket_of_matches_insert() {
    let mut man = AnimalRegistry::new();
    let (cat, _) = man.insert("cat".to_string(), Animal::new("feline", "meow")).unwrap();
    let (dog, _) = man.insert("dog".to_string(), Animal::new("canine", "woof")).unwrap();

    assert_eq!(man.get_ticket_of(&"cat".to_string()), Some(cat));
    assert_eq!(man.get_ticket_of(&"dog".to_string()), Some(dog));
}

#[test]
fn get_id_full_returns_ticket_identifier_and_value() {
    let mut man = AnimalRegistry::new();
    let (cat, _) = man.insert("cat".to_string(), Animal::new("feline", "meow")).unwrap();

    let (t, id, animal) = man.get_id_full(&"cat".to_string()).unwrap();
    assert_eq!(t, cat);
    assert_eq!(id, "cat");
    assert_eq!(*animal, Animal::new("feline", "meow"));
}

#[test]
fn mutation_through_identifier() {
    let mut man = AnimalRegistry::new();
    man.insert("cat".to_string(), Animal::new("feline", "meow")).unwrap();

    let v = man.get_id_mut(&"cat".to_string()).unwrap();
    v.sound = "purr".to_string();
    assert_eq!(man.get_id(&"cat".to_string()).unwrap().sound, "purr");

    let (t, id, v) = man.get_id_full_mut(&"cat".to_string()).unwrap();
    assert_eq!(t.to_index(), 0);
    assert_eq!(id, "cat");
    v.sound = "hiss".to_string();
    assert_eq!(man.get_id(&"cat".to_string()).unwrap().sound, "hiss");

    assert!(man.get_id_mut(&"missing".to_string()).is_none());
    assert!(man.get_id_full_mut(&"missing".to_string()).is_none());
}

#[test]
fn mutation_through_ticket() {
    let mut man = AnimalRegistry::new();
    let (cat, _) = man.insert("cat".to_string(), Animal::new("feline", "meow")).unwrap();

    man.get_ticket_mut(cat).sound = "purr".to_string();
    assert_eq!(man.get_ticket(cat).sound, "purr");

    let (id, v) = man.get_ticket_full_mut(cat);
    assert_eq!(id, "cat");
    v.sound = "hiss".to_string();
    assert_eq!(man.get_ticket(cat).sound, "hiss");
}

#[test]
fn values_looked_up_by_either_key_agree() {
    let mut man: RegistryManager<u64, TicketU16, u32> = RegistryManager::new();
    for k in 0..100u32 {
        let (t, prev) = man.insert(k, (k as u64) * 3).unwrap();
        assert_eq!(t.to_index(), k as usize);
        assert!(prev.is_none());
    }
    assert_eq!(man.len(), 100);
    for k in 0..100u32 {
        let t = man.get_ticket_of(&k).unwrap();
        assert_eq!(man.get_ticket(t), man.get_id(&k).unwrap());
        assert_eq!(*man.get_ticket(t), (k as u64) * 3);
    }
}

#[test]
fn len_counts_distinct_identifiers() {
    let mut man: RegistryManager<u64, TicketU16, String> = RegistryManager::new();
    for (id, v) in [("a", 1u64), ("b", 2), ("a", 3), ("c", 4), ("b", 5)] {
        man.insert(id.to_string(), v).unwrap();
    }
    assert_eq!(man.len(), 3);
    assert_eq!(*man.get_id(&"a".to_string()).unwrap(), 3);
    assert_eq!(*man.get_id(&"b".to_string()).unwrap(), 5);
    assert_eq!(*man.get_id(&"c".to_string()).unwrap(), 4);
}
