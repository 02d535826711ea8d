use hashed_storage::hashed::{get, get_raw, put};
use hashed_storage::hasher::Twox128;
use hashed_storage::storage::Storage;
use hashed_storage::storage_vec::{counter_key_of, item_key_of, StorageVec};

struct Fruit;

impl StorageVec for Fruit {
    type Item = u32;
    const PREFIX: &'static [u8] = b"fruit:";
}

struct Names;

impl StorageVec for Names {
    type Item = Vec<u8>;
    const PREFIX: &'static [u8] = b"names:";
}

const A: u32 = 11;
const B: u32 = 22;
const C: u32 = 33;

fn abc() -> Storage {
    let mut t = Storage::new();
    Fruit::push(&mut t, &A);
    Fruit::push(&mut t, &B);
    Fruit::push(&mut t, &C);
    t
}

#[test]
fn fresh_sequence_is_empty() {
    let mut t = Storage::new();
    assert_eq!(Fruit::count(&mut t), 0);
    assert_eq!(Fruit::items(&mut t), Vec::<u32>::new());
    assert_eq!(Fruit::item(&mut t, 0), 0);
    assert_eq!(Names::item(&mut t, 7), Vec::<u8>::new());
}

#[test]
fn push_three_items() {
    let mut t = abc();
    assert_eq!(Fruit::items(&mut t), vec![A, B, C]);
    assert_eq!(Fruit::count(&mut t), 3);
}

#[test]
fn set_count_trims_the_tail() {
    let mut t = abc();
    Fruit::set_count(&mut t, 1);
    assert_eq!(Fruit::items(&mut t), vec![A]);
    assert_eq!(Fruit::count(&mut t), 1);
    assert_eq!(Fruit::item(&mut t, 1), 0);
    assert_eq!(Fruit::item(&mut t, 2), 0);
    assert_eq!(get_raw::<Twox128>(&mut t, b"fruit:\x01\x00\x00\x00"), None);
    assert_eq!(get_raw::<Twox128>(&mut t, b"fruit:\x02\x00\x00\x00"), None);
    assert_eq!(
        get_raw::<Twox128>(&mut t, b"fruit:\x00\x00\x00\x00"),
        Some(vec![11, 0, 0, 0])
    );
}

#[test]
fn set_item_beyond_the_count_is_ignored() {
    let mut t = Storage::new();
    Fruit::push(&mut t, &A);
    Fruit::push(&mut t, &B);
    Fruit::set_item(&mut t, 5, &99);
    assert_eq!(Fruit::items(&mut t), vec![A, B]);
    assert_eq!(Fruit::count(&mut t), 2);
    assert_eq!(Fruit::item(&mut t, 5), 0);
    Fruit::set_item(&mut t, 2, &99);
    assert_eq!(Fruit::items(&mut t), vec![A, B]);
    assert_eq!(get_raw::<Twox128>(&mut t, b"fruit:\x02\x00\x00\x00"), None);
}

#[test]
fn set_item_within_the_count_replaces() {
    let mut t = abc();
    Fruit::set_item(&mut t, 1, &99);
    assert_eq!(Fruit::items(&mut t), vec![A, 99, C]);
    assert_eq!(Fruit::count(&mut t), 3);
}

#[test]
fn clear_item_leaves_a_default() {
    let mut t = abc();
    Fruit::clear_item(&mut t, 1);
    assert_eq!(Fruit::items(&mut t), vec![A, 0, C]);
    assert_eq!(Fruit::count(&mut t), 3);
    Fruit::clear_item(&mut t, 3);
    Fruit::clear_item(&mut t, 7);
    assert_eq!(Fruit::items(&mut t), vec![A, 0, C]);
}

#[test]
fn clear_item_beyond_the_count_keeps_a_stale_slot() {
    let mut t = abc();
    put::<u32, Twox128>(&mut t, b"fruit:\x09\x00\x00\x00", &5);
    Fruit::clear_item(&mut t, 9);
    assert_eq!(Fruit::item(&mut t, 9), 5);
}

#[test]
fn set_count_can_grow() {
    let mut t = abc();
    Fruit::set_count(&mut t, 5);
    assert_eq!(Fruit::count(&mut t), 5);
    assert_eq!(Fruit::items(&mut t), vec![A, B, C, 0, 0]);
    Fruit::set_item(&mut t, 4, &44);
    assert_eq!(Fruit::items(&mut t), vec![A, B, C, 0, 44]);
}

#[test]
fn set_count_to_the_same_count_changes_nothing() {
    let mut t = abc();
    Fruit::set_count(&mut t, 3);
    assert_eq!(Fruit::items(&mut t), vec![A, B, C]);
}

#[test]
fn set_items_rewrites_the_sequence() {
    let mut t = abc();
    Fruit::set_items(&mut t, &[7, 8]);
    assert_eq!(Fruit::items(&mut t), vec![7, 8]);
    assert_eq!(Fruit::count(&mut t), 2);
    assert_eq!(Fruit::item(&mut t, 2), 0);
    Fruit::set_items(&mut t, &[1, 2, 3, 4]);
    assert_eq!(Fruit::items(&mut t), vec![1, 2, 3, 4]);
    Fruit::set_items(&mut t, &[]);
    assert_eq!(Fruit::items(&mut t), Vec::<u32>::new());
    assert_eq!(Fruit::count(&mut t), 0);
    assert_eq!(Fruit::item(&mut t, 0), 0);
}

#[test]
fn the_counter_and_the_items_live_under_the_documented_keys() {
    let mut t = abc();
    assert_eq!(get::<u32, Twox128>(&mut t, b"fruit:len"), Some(3));
    assert_eq!(get::<u32, Twox128>(&mut t, b"fruit:\x00\x00\x00\x00"), Some(A));
    assert_eq!(get::<u32, Twox128>(&mut t, b"fruit:\x01\x00\x00\x00"), Some(B));
    assert_eq!(get::<u32, Twox128>(&mut t, b"fruit:\x02\x00\x00\x00"), Some(C));
    assert_eq!(
        t.get(&sp_io::hashing::twox_128(b"fruit:len")),
        Some(vec![3, 0, 0, 0])
    );
    put::<u32, Twox128>(&mut t, b"fruit:len", &2);
    assert_eq!(Fruit::items(&mut t), vec![A, B]);
    put::<u32, Twox128>(&mut t, b"fruit:\x00\x01\x00\x00", &5);
    assert_eq!(Fruit::item(&mut t, 256), 5);
}

#[test]
fn sequences_under_different_prefixes_are_independent() {
    let mut t = abc();
    Names::push(&mut t, &b"plum".to_vec());
    Names::push(&mut t, &Vec::new());
    assert_eq!(Names::items(&mut t), vec![b"plum".to_vec(), Vec::new()]);
    assert_eq!(Fruit::items(&mut t), vec![A, B, C]);
    Names::set_count(&mut t, 0);
    assert_eq!(Names::items(&mut t), Vec::<Vec<u8>>::new());
    assert_eq!(Fruit::count(&mut t), 3);
}

#[test]
fn push_at_the_last_count_below_the_limit() {
    let mut t = Storage::new();
    put::<u32, Twox128>(&mut t, b"fruit:len", &(u32::MAX - 1));
    Fruit::push(&mut t, &5);
    assert_eq!(Fruit::count(&mut t), u32::MAX);
    assert_eq!(Fruit::item(&mut t, u32::MAX - 1), 5);
}

#[test]
fn an_unreadable_counter_reads_as_zero() {
    let mut t = Storage::new();
    t.put(&sp_io::hashing::twox_128(b"fruit:len"), &[1, 2]);
    assert_eq!(Fruit::count(&mut t), 0);
    assert_eq!(Fruit::items(&mut t), Vec::<u32>::new());
}

#[test]
fn keys_are_the_prefix_and_a_suffix() {
    assert_eq!(counter_key_of(b"fruit:"), b"fruit:len".to_vec());
    assert_eq!(counter_key_of(b""), b"len".to_vec());
    assert_eq!(item_key_of(b"fruit:", 0), b"fruit:\x00\x00\x00\x00".to_vec());
    assert_eq!(item_key_of(b"fruit:", 1), b"fruit:\x01\x00\x00\x00".to_vec());
    assert_eq!(
        item_key_of(b"fruit:", 0x0102_0304),
        b"fruit:\x04\x03\x02\x01".to_vec()
    );
    assert_eq!(item_key_of(b"", u32::MAX), vec![255, 255, 255, 255]);
}
