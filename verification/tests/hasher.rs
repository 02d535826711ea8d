use hashed_storage::hasher::{
    digest_then_key, Blake2_128, Blake2_256, StorageHasher, Twox128, Twox256, Twox64Concat,
};

#[test]
fn short_concat_keeps_the_key_at_the_tail() {
    let r = Twox64Concat::hash(b"foo");
    assert_eq!(r.len(), 11);
    assert_eq!(&r[8..], b"foo");
    assert_eq!(&r[..8], &sp_io::hashing::twox_64(b"foo")[..]);
    let empty = Twox64Concat::hash(b"");
    assert_eq!(empty, sp_io::hashing::twox_64(b"").to_vec());
}

#[test]
fn digests_have_their_fixed_width() {
    for key in [&b""[..], &b"a"[..], &[0u8; 100][..]] {
        assert_eq!(Blake2_128::hash(key).len(), 16);
        assert_eq!(Twox128::hash(key).len(), 16);
        assert_eq!(Blake2_256::hash(key).len(), 32);
        assert_eq!(Twox256::hash(key).len(), 32);
        assert_eq!(Twox64Concat::hash(key).len(), 8 + key.len());
    }
}

#[test]
fn digests_are_those_of_the_digest_crate() {
    let key = b"some logical key";
    assert_eq!(Blake2_128::hash(key), sp_io::hashing::blake2_128(key).to_vec());
    assert_eq!(Blake2_256::hash(key), sp_io::hashing::blake2_256(key).to_vec());
    assert_eq!(Twox128::hash(key), sp_io::hashing::twox_128(key).to_vec());
    assert_eq!(Twox256::hash(key), sp_io::hashing::twox_256(key).to_vec());
    assert_ne!(Blake2_128::hash(key), key.to_vec());
    assert_ne!(Twox128::hash(key), key.to_vec());
}

#[test]
fn known_digests_of_the_empty_key() {
    assert_eq!(
        Twox64Concat::hash(b""),
        vec![0x99, 0xe9, 0xd8, 0x51, 0x37, 0xdb, 0x46, 0xef]
    );
    assert_eq!(
        Blake2_256::hash(b""),
        vec![
            0x0e, 0x57, 0x51, 0xc0, 0x26, 0xe5, 0x43, 0xb2, 0xe8, 0xab, 0x2e, 0xb0, 0x60, 0x99,
            0xda, 0xa1, 0xd1, 0xe5, 0xdf, 0x47, 0x77, 0x8f, 0x77, 0x87, 0xfa, 0xab, 0x45, 0xcd,
            0xf1, 0x2f, 0xe3, 0xa8
        ]
    );
    assert_eq!(Twox128::hash(b"")[..8], Twox64Concat::hash(b"")[..]);
    assert_eq!(Twox256::hash(b"")[..16], Twox128::hash(b"")[..]);
}

#[test]
fn hashing_is_deterministic() {
    assert_eq!(Twox128::hash(b"k"), Twox128::hash(b"k"));
    assert_eq!(Blake2_256::hash(b"k"), Blake2_256::hash(b"k"));
    assert_eq!(Twox64Concat::hash(b"k"), Twox64Concat::hash(b"k"));
    assert_ne!(Twox128::hash(b"k"), Twox128::hash(b"l"));
}

#[test]
fn two_strategies_give_distinct_hashed_keys() {
    for key in [&b"key"[..], &b"12345678"[..], &[7u8; 24][..]] {
        let all = [
            Twox64Concat::hash(key),
            Blake2_128::hash(key),
            Blake2_256::hash(key),
            Twox128::hash(key),
            Twox256::hash(key),
        ];
        for i in 0..all.len() {
            for j in 0..all.len() {
                if i != j {
                    assert_ne!(all[i], all[j]);
                }
            }
        }
    }
}

#[test]
fn digest_goes_in_front_of_the_key() {
    assert_eq!(
        digest_then_key(&[1, 2, 3, 4, 5, 6, 7, 8], b"foo"),
        vec![1, 2, 3, 4, 5, 6, 7, 8, b'f', b'o', b'o']
    );
    assert_eq!(
        digest_then_key(&[0; 8], b""),
        vec![0, 0, 0, 0, 0, 0, 0, 0]
    );
}
