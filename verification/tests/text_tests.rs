use orbit_bluez::text::{chars_of, contains_str, str_lt};

#[test]
fn chars_of_decodes_unicode() {
    assert_eq!(chars_of("aé😀"), vec!['a', 'é', '😀']);
    assert_eq!(chars_of(""), Vec::<char>::new());
}

#[test]
fn contains_finds_inner_match() {
    assert!(contains_str("0: hci0: Bluetooth\n\tsoft blocked: yes\n", "soft blocked: yes"));
    assert!(contains_str("abc", ""));
    assert!(contains_str("abc", "abc"));
}

#[test]
fn contains_rejects_missing_or_longer() {
    assert!(!contains_str("soft blocked: no", "soft blocked: yes"));
    assert!(!contains_str("ab", "abc"));
    assert!(!contains_str("", "a"));
}

#[test]
fn str_lt_orders_lexicographically() {
    assert!(str_lt("Apple", "Banana"));
    assert!(!str_lt("Banana", "Apple"));
    assert!(str_lt("Head", "Headset"));
    assert!(!str_lt("Headset", "Head"));
    assert!(!str_lt("same", "same"));
    assert!(str_lt("Z", "a"));
    assert!(str_lt("", "a"));
}

#[test]
fn str_lt_agrees_with_str_ordering() {
    let words = ["", "a", "ab", "b", "Zz", "é", "e\u{301}", "😀", "x😀", "x"];
    for a in words.iter() {
        for b in words.iter() {
            assert_eq!(str_lt(a, b), a < b, "{:?} {:?}", a, b);
        }
    }
}
