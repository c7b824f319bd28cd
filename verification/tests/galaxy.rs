use orbita::collections::VecMap;
use orbita::game::world::{Galaxy, Scale, Space};

#[test]
fn vec_map_insert_get_remove() {
    let mut m: VecMap<u32, &str> = VecMap::new();
    assert_eq!(m.insert(1, "one"), None);
    assert_eq!(m.insert(2, "two"), None);
    assert_eq!(m.insert(1, "uno"), Some("one"));
    assert_eq!(m.get(&1), Some(&"uno"));
    assert_eq!(m.get(&3), None);
    assert!(m.contains_key(&2));
    if let Some(v) = m.get_mut(&2) {
        *v = "dos";
    }
    assert_eq!(m.get(&2), Some(&"dos"));
    assert_eq!(m.get_mut(&7), None);
    assert_eq!(m.remove(&1), Some("uno"));
    assert_eq!(m.remove(&1), None);
    assert_eq!(m.get(&1), None);
    m.clear();
    assert!(!m.contains_key(&2));
}

#[test]
fn scale_chunks() {
    let mut s: Scale<u16, u32> = Scale::default();
    assert_eq!(s.get((0, 0)), None);
    assert_eq!(s.insert((0, 0), 5), None);
    assert_eq!(s.insert((3, 4), 7), None);
    assert_eq!(s.get((0, 0)), Some(&5));
    assert_eq!(s.get((4, 3)), None);
    *s.get_mut((3, 4)).unwrap() += 1;
    assert_eq!(s.get((3, 4)), Some(&8));
    assert_eq!(s.insert((0, 0), 9), Some(5));
    assert!(s.get_mut((1, 1)).is_none());
}

#[test]
fn empty_galaxy_has_no_space() {
    let g = Galaxy::default();
    assert!(g.get_space(((0, 0), (0, 0), (0, 0))).is_none());
    let mut g = Galaxy::new(42);
    assert!(g.get_space_mut(((1, 2), (3, 4), (5, 6))).is_none());
}

#[test]
fn inserted_space_is_found() {
    let mut g = Galaxy::new(42);
    let pos = ((1, 2), (3, 4), (5, 6));
    assert!(g.insert_space(pos, Space::default()).is_none());
    assert!(g.get_space(pos).is_some());
    assert!(g.get_space_mut(pos).is_some());
    // neighbours at each level stay empty
    assert!(g.get_space(((1, 2), (3, 4), (5, 7))).is_none());
    assert!(g.get_space(((1, 2), (3, 5), (5, 6))).is_none());
    assert!(g.get_space(((2, 1), (3, 4), (5, 6))).is_none());
    // a second space in the same solar map
    let other = ((1, 2), (3, 4), (0, 0));
    assert!(g.insert_space(other, Space::default()).is_none());
    assert!(g.get_space(other).is_some());
    assert!(g.get_space(pos).is_some());
    // storing again hands back the old space
    assert!(g.insert_space(pos, Space::default()).is_some());
}
