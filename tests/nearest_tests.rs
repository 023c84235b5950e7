use raytracer::nearest::nearest_hit;

#[test]
fn nothing_hit() {
    assert_eq!(nearest_hit(&[]), None);
    assert_eq!(nearest_hit(&[None, None]), None);
}

#[test]
fn picks_least_key() {
    assert_eq!(nearest_hit(&[Some(9), None, Some(3), Some(5)]), Some(2));
    assert_eq!(nearest_hit(&[None, Some(u64::MAX)]), Some(1));
}

#[test]
fn first_of_equal_keys_wins() {
    assert_eq!(nearest_hit(&[Some(4), Some(2), Some(2)]), Some(1));
}

#[test]
fn order_does_not_change_nearest_distance() {
    let a = [Some(7u64), None, Some(3), Some(11)];
    let b = [Some(11u64), Some(3), Some(7), None];
    let ka = a[nearest_hit(&a).unwrap()];
    let kb = b[nearest_hit(&b).unwrap()];
    assert_eq!(ka, Some(3));
    assert_eq!(ka, kb);
}
