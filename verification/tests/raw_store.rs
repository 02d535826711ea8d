use hashed_storage::storage::Storage;

#[test]
fn fresh_store_holds_only_the_code_entry() {
    let mut t = Storage::new();
    assert!(t.contains(b":code"));
    assert_eq!(t.get(b":code"), Some(Vec::new()));
    assert!(!t.contains(b":cod"));
    assert!(!t.contains(b":code:"));
    assert!(!t.contains(b""));
    assert_eq!(t.get(b"anything"), None);
}

#[test]
fn reserved_keys_are_refused() {
    let mut t = Storage::new();
    t.put(b":child_storage:", &[1]);
    assert!(!t.contains(b":child_storage:"));
    t.put(b":child_storage:default:abc", &[1, 2]);
    assert_eq!(t.get(b":child_storage:default:abc"), None);
    // One byte short of the prefix is an ordinary key.
    t.put(b":child_storage", &[7]);
    assert_eq!(t.get(b":child_storage"), Some(vec![7]));
    t.kill(b":child_storage:");
    assert!(!t.contains(b":child_storage:"));
}

#[test]
fn raw_put_get_kill_take() {
    let mut t = Storage::new();
    t.put(b"k", &[]);
    assert!(t.contains(b"k"));
    assert_eq!(t.get(b"k"), Some(Vec::new()));
    t.put(b"k", &[1, 2]);
    assert_eq!(t.get(b"k"), Some(vec![1, 2]));
    assert_eq!(t.take(b"k"), Some(vec![1, 2]));
    assert!(!t.contains(b"k"));
    assert_eq!(t.take(b"k"), None);
    t.put(b"k", &[3]);
    t.kill(b"k");
    assert_eq!(t.get(b"k"), None);
    t.kill(b"k");
    assert!(t.contains(b":code"));
}
