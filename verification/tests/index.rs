use gloam::objects_index::{holds, ObjectsIndex};

#[test]
fn unknown_label_has_empty_bucket() {
    let index = ObjectsIndex::new();
    assert!(index.lookup(&String::from("Enemy")).is_empty());
}

#[test]
fn register_keeps_insertion_order_per_label() {
    let mut index = ObjectsIndex::new();
    index.register(String::from("Enemy"), 3);
    index.register(String::from("Player"), 4);
    index.register(String::from("Enemy"), 1);
    index.register(String::from("Enemy"), 9);
    assert_eq!(index.lookup(&String::from("Enemy")), vec![3, 1, 9]);
    assert_eq!(index.lookup(&String::from("Player")), vec![4]);
}

#[test]
fn remove_erases_the_id_from_its_bucket() {
    let mut index = ObjectsIndex::new();
    index.register(String::from("Enemy"), 1);
    index.register(String::from("Enemy"), 2);
    index.register(String::from("Player"), 3);
    index.remove(1);
    assert_eq!(index.lookup(&String::from("Enemy")), vec![2]);
    assert_eq!(index.lookup(&String::from("Player")), vec![3]);
    index.remove(8);
    assert_eq!(index.lookup(&String::from("Enemy")), vec![2]);
}

#[test]
fn remove_all_erases_every_doomed_id() {
    let mut index = ObjectsIndex::new();
    for id in 1..7usize {
        index.register(String::from(if id % 2 == 0 { "Even" } else { "Odd" }), id);
    }
    index.remove_all(&vec![2, 5, 6, 40]);
    assert_eq!(index.lookup(&String::from("Even")), vec![4]);
    assert_eq!(index.lookup(&String::from("Odd")), vec![1, 3]);
}

#[test]
fn holds_finds_members_only() {
    assert!(holds(&vec![4, 7, 9], 7));
    assert!(!holds(&vec![4, 7, 9], 8));
    assert!(!holds(&vec![], 0));
}

#[test]
fn default_index_is_empty() {
    let index = ObjectsIndex::default();
    assert!(index.lookup(&String::from("Enemy")).is_empty());
}
