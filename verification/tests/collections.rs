use near_whitelist::text::{decimal_string, is_alphanumeric_text};
use near_whitelist::{OrderedMap, StringSet};

fn s(x: &str) -> String {
    x.to_string()
}

#[test]
fn decimal_strings() {
    assert_eq!(decimal_string(0), "0");
    assert_eq!(decimal_string(7), "7");
    assert_eq!(decimal_string(10), "10");
    assert_eq!(decimal_string(1_700_000_000), "1700000000");
    assert_eq!(decimal_string(u64::MAX), "18446744073709551615");
    for n in [1u64, 9, 99, 100, 101, 12345, 4_294_967_295] {
        assert_eq!(decimal_string(n), n.to_string());
    }
}

#[test]
fn alphanumeric_texts() {
    assert!(is_alphanumeric_text(""));
    assert!(is_alphanumeric_text("meteorHarvestMoon"));
    assert!(is_alphanumeric_text("abc123XYZ"));
    assert!(is_alphanumeric_text("\u{00e9}\u{4e2d}\u{0663}"));
    assert!(!is_alphanumeric_text("aa-harvest-moon.near"));
    assert!(!is_alphanumeric_text("abc "));
    assert!(!is_alphanumeric_text("_"));
    assert!(!is_alphanumeric_text("ab\u{1F600}"));
}

#[test]
fn string_set_keeps_each_member_once() {
    let mut set = StringSet::new();
    assert_eq!(set.len(), 0);
    assert!(set.insert(s("a")));
    assert!(set.insert(s("b")));
    assert!(!set.insert(s("a")));
    assert_eq!(set.len(), 2);
    assert!(set.contains(&s("a")));
    assert!(!set.contains(&s("c")));
    assert_eq!(set.get(0), "a");
    assert_eq!(set.get(1), "b");
    assert!(set.remove(&s("a")));
    assert!(!set.remove(&s("a")));
    assert_eq!(set.to_vec(), vec!["b"]);
    let copy = set.duplicate();
    assert_eq!(copy.to_vec(), vec!["b"]);
}

#[test]
fn string_set_from_vec_drops_repetitions() {
    let set = StringSet::from_vec(vec![s("x"), s("y"), s("x"), s("z"), s("y")]);
    assert_eq!(set.to_vec(), vec!["x", "y", "z"]);
    assert_eq!(StringSet::from_vec(Vec::new()).len(), 0);
}

#[test]
fn ordered_map_keeps_insertion_order() {
    let mut map: OrderedMap<String> = OrderedMap::new();
    map.insert(s("k1"), s("v1"));
    map.insert(s("k2"), s("v2"));
    map.insert(s("k3"), s("v3"));
    map.insert(s("k2"), s("v2b"));
    assert_eq!(map.len(), 3);
    assert_eq!(map.key_at(1), "k2");
    assert_eq!(map.value_at(1), "v2b");
    assert_eq!(map.get(&s("k2")), Some(&s("v2b")));
    assert_eq!(map.get(&s("zz")), None);
    assert_eq!(map.position(&s("k3")), Some(2));
    assert!(map.contains_key(&s("k1")));
    assert_eq!(map.remove(&s("k1")), Some(s("v1")));
    assert_eq!(map.remove(&s("k1")), None);
    assert!(!map.contains_key(&s("k1")));
    assert_eq!(map.key_at(0), "k2");
    let (k, v) = map.remove_at(0);
    assert_eq!((k.as_str(), v.as_str()), ("k2", "v2b"));
    map.insert_at(0, s("k0"), s("v0"));
    let all: Vec<(String, String)> =
        map.list(0, 10).into_iter().map(|(k, v)| (k.clone(), v.clone())).collect();
    assert_eq!(all, vec![(s("k3"), s("v3")), (s("k0"), s("v0"))]);
}

#[test]
fn ordered_map_pages() {
    let mut map: OrderedMap<String> = OrderedMap::new();
    for i in 0..5 {
        map.insert(format!("k{}", i), format!("v{}", i));
    }
    let keys = |from: i32, limit: i32| -> Vec<String> {
        map.list(from, limit).into_iter().map(|(k, _)| k.clone()).collect()
    };
    assert_eq!(keys(0, 5), vec!["k4", "k3", "k2", "k1", "k0"]);
    assert_eq!(keys(2, 2), vec!["k2", "k1"]);
    assert_eq!(keys(4, 2), vec!["k0"]);
    assert_eq!(keys(5, 2), Vec::<String>::new());
    assert_eq!(keys(-1, 2), Vec::<String>::new());
    assert_eq!(keys(0, 0), Vec::<String>::new());
    assert_eq!(keys(3, -7), Vec::<String>::new());
}
