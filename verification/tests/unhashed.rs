use hashed_storage::storage::Storage;
use hashed_storage::unhashed::{
    get, get_or, get_or_default, get_or_else, get_raw, key_exists, kill, put, put_raw, take,
    take_or, take_or_default, take_or_else,
};

#[test]
fn typed_values_under_raw_keys() {
    let mut t = Storage::new();
    put::<u32>(&mut t, b"n", &0x0102_0304);
    assert_eq!(get_raw(&mut t, b"n"), Some(vec![4, 3, 2, 1]));
    assert_eq!(t.get(b"n"), Some(vec![4, 3, 2, 1]));
    assert_eq!(get::<u32>(&mut t, b"n"), Some(0x0102_0304));
    assert_eq!(get::<bool>(&mut t, b"n"), None);
    assert_eq!(get::<i64>(&mut t, b"n"), None);
    assert!(key_exists(&mut t, b"n"));
    assert!(!key_exists(&mut t, b"m"));
    kill(&mut t, b"n");
    assert_eq!(get::<u32>(&mut t, b"n"), None);
    assert!(!key_exists(&mut t, b"n"));
}

#[test]
fn raw_keys_are_not_hashed() {
    let mut t = Storage::new();
    put_raw(&mut t, b"abc", &[1]);
    assert_eq!(t.get(b"abc"), Some(vec![1]));
    assert!(key_exists(&mut t, b":code"));
    assert_eq!(get::<Vec<u8>>(&mut t, b":code"), None);
    assert_eq!(get_raw(&mut t, b":code"), Some(Vec::new()));
}

#[test]
fn a_put_under_a_reserved_key_is_dropped() {
    let mut t = Storage::new();
    put::<u32>(&mut t, b":child_storage:default:x", &5);
    assert_eq!(get::<u32>(&mut t, b":child_storage:default:x"), None);
    assert!(!key_exists(&mut t, b":child_storage:default:x"));
}

#[test]
fn take_and_fallbacks_under_raw_keys() {
    let mut t = Storage::new();
    assert_eq!(get_or_default::<i64>(&mut t, b"k"), 0);
    assert_eq!(get_or::<i64>(&mut t, b"k", -3), -3);
    assert_eq!(get_or_else::<i64, _>(&mut t, b"k", || -4), -4);
    assert_eq!(take::<i64>(&mut t, b"k"), None);
    assert_eq!(take_or_default::<i64>(&mut t, b"k"), 0);
    assert_eq!(take_or::<i64>(&mut t, b"k", -3), -3);
    assert_eq!(take_or_else::<i64, _>(&mut t, b"k", || -4), -4);
    put::<i64>(&mut t, b"k", &8);
    assert_eq!(get_or_default::<i64>(&mut t, b"k"), 8);
    assert_eq!(get_or::<i64>(&mut t, b"k", -3), 8);
    assert_eq!(get_or_else::<i64, _>(&mut t, b"k", || panic!("not to be called")), 8);
    assert_eq!(take_or::<i64>(&mut t, b"k", -3), 8);
    assert!(!key_exists(&mut t, b"k"));
    put::<i64>(&mut t, b"k", &8);
    assert_eq!(take_or_else::<i64, _>(&mut t, b"k", || panic!("not to be called")), 8);
    put::<i64>(&mut t, b"k", &8);
    assert_eq!(take_or_default::<i64>(&mut t, b"k"), 8);
    put::<i64>(&mut t, b"k", &8);
    assert_eq!(take::<i64>(&mut t, b"k"), Some(8));
    assert_eq!(get_raw(&mut t, b"k"), None);
}
