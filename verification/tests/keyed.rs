use zine::keyed::{keys_in_order, text_less};

#[test]
fn texts_are_ordered_by_character() {
    assert!(text_less("Bob", "alice"));
    assert!(text_less("al", "alice"));
    assert!(!text_less("alice", "al"));
    assert!(!text_less("same", "same"));
    assert!(text_less("", "a"));
    assert!(!text_less("a", ""));
    assert!(text_less("zh", "zh-CN"));
}

#[test]
fn keys_in_order_wants_each_key_once_ascending() {
    let v = |ks: &[&str]| ks.iter().map(|k| (k.to_string(), ())).collect::<Vec<(String, ())>>();
    assert!(keys_in_order(&v(&[])));
    assert!(keys_in_order(&v(&["a"])));
    assert!(keys_in_order(&v(&["Bob", "alice", "carol"])));
    assert!(!keys_in_order(&v(&["alice", "Bob"])));
    assert!(!keys_in_order(&v(&["a", "a"])));
}
