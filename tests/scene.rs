use raytracer::hittable::HittableList;
use raytracer::scene::{nearest_hit, order_key};

fn key(t: f32) -> u32 {
    order_key(t.to_bits())
}

#[test]
fn keys_follow_float_order() {
    assert!(key(1.0) < key(2.0));
    assert!(key(0.001) < key(1.0));
    assert!(key(-1.0) < key(0.5));
    assert!(key(-2.0) < key(-1.0));
    assert!(key(2.0) < key(f32::INFINITY));
    assert!(key(f32::NEG_INFINITY) < key(-1.0e30));
    assert_eq!(key(-0.0), key(0.0));
    assert_eq!(key(0.0), 0x8000_0000);
}

#[test]
fn nearest_of_several_hits() {
    let keys = vec![None, Some(key(5.0)), Some(key(3.0)), Some(key(4.0))];
    assert_eq!(nearest_hit(&keys), Some(2));
}

#[test]
fn nearest_tie_keeps_first() {
    let keys = vec![Some(key(3.0)), Some(key(1.0)), Some(key(1.0))];
    assert_eq!(nearest_hit(&keys), Some(1));
}

#[test]
fn nearest_without_hits() {
    assert_eq!(nearest_hit(&vec![None, None]), None);
    assert_eq!(nearest_hit(&Vec::new()), None);
}

#[test]
fn list_keeps_insertion_order() {
    let mut list = HittableList::new();
    assert!(list.objects().is_empty());
    list.add(3);
    list.add(1);
    list.add(2);
    assert_eq!(list.objects(), &[3, 1, 2]);
    list.clear();
    assert!(list.objects().is_empty());
    let one = HittableList::new_with_object('s');
    assert_eq!(one.objects(), &['s']);
}
