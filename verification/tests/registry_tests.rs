use img_widget::registry::ImageRegistry;

#[test]
fn missing_bucket_reads_as_empty() {
    let reg = ImageRegistry::new();
    assert!(reg.get_bucket(5).is_none());
}

#[test]
fn insert_creates_bucket_on_demand() {
    let mut reg = ImageRegistry::new();
    reg.insert_entity(5, 100);
    let bucket = reg.get_bucket(5).unwrap();
    assert_eq!(bucket.len(), 1);
    assert_eq!(bucket[0], 100);
}

#[test]
fn insert_twice_registers_once() {
    let mut reg = ImageRegistry::new();
    reg.insert_entity(5, 100);
    reg.insert_entity(5, 100);
    assert_eq!(reg.get_bucket(5).unwrap().len(), 1);
}

#[test]
fn remove_entity_keeps_other_registrations() {
    let mut reg = ImageRegistry::new();
    reg.insert_entity(5, 100);
    reg.insert_entity(5, 101);
    reg.insert_entity(6, 100);
    reg.remove_entity(5, 100);
    let five = reg.get_bucket(5).unwrap();
    assert_eq!(five.len(), 1);
    assert_eq!(five[0], 101);
    let six = reg.get_bucket(6).unwrap();
    assert_eq!(six.len(), 1);
    assert_eq!(six[0], 100);
}

#[test]
fn remove_entity_from_missing_bucket_is_a_no_op() {
    let mut reg = ImageRegistry::new();
    reg.remove_entity(5, 100);
    assert!(reg.get_bucket(5).is_none());
}

#[test]
fn remove_bucket_returns_its_entities() {
    let mut reg = ImageRegistry::new();
    reg.insert_entity(5, 100);
    reg.insert_entity(5, 101);
    let out = reg.remove_bucket(5).unwrap();
    assert_eq!(out.len(), 2);
    assert!(out.contains(&100));
    assert!(out.contains(&101));
    assert!(reg.get_bucket(5).is_none());
    assert!(reg.remove_bucket(5).is_none());
}
