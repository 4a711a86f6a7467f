use ecow::EcoVec;

#[test]
fn test_vec() {
    let mut vec: EcoVec<&'static str> =
        EcoVec::from_iter("hello, world! what's going on?".split_whitespace()).unwrap();

    assert_eq!(vec.len(), 5);
    assert_eq!(vec.capacity(), 8);
    assert_eq!(vec, ["hello,", "world!", "what's", "going", "on?"]);
    assert_eq!(vec.pop(), Some("on?"));
    assert_eq!(vec.len(), 4);
    assert_eq!(vec.last(), Some(&"going"));
    assert_eq!(vec.remove(1), "world!");
    assert_eq!(vec.len(), 3);
    assert_eq!(vec, ["hello,", "what's", "going"]);
    assert_eq!(vec[1], "what's");
    vec.push("where?");
    vec.insert(1, "wonder!");
    assert_eq!(vec, ["hello,", "wonder!", "what's", "going", "where?"]);
    vec.retain(|s| s.starts_with("w"));
    assert_eq!(vec, ["wonder!", "what's", "where?"]);
    vec.truncate(1);
    assert_eq!(vec.last(), vec.first());
}

#[test]
fn test_vec_macro() {
    assert_eq!(EcoVec::from_elem(Box::new(1), 3), vec![Box::new(1); 3]);
}

#[test]
fn test_vec_clone() {
    let mut vec = EcoVec::new();
    vec.push(1);
    vec.push(2);
    vec.push(3);
    assert_eq!(vec.len(), 3);
    let mut vec2 = vec.clone();
    vec2.push(4);
    assert_eq!(vec2.len(), 4);
    assert_eq!(vec2, [1, 2, 3, 4]);
    assert_eq!(vec, [1, 2, 3]);
}
