use pumpkin_embed::seed::{hash_from_digest, hash_seed};

#[test]
fn hash_seed_test() {
    let hashed_seed = hash_seed(0);
    assert_eq!(8794265229978523055, hashed_seed);

    let hashed_seed = hash_seed((-777i64) as u64);
    assert_eq!(-1087248400229165450, hashed_seed);
}

#[test]
fn hash_is_the_low_eight_bytes_of_the_digest() {
    let mut digest = [0xffu8; 32];
    for (i, byte) in digest.iter_mut().enumerate().take(8) {
        *byte = i as u8 + 1;
    }
    assert_eq!(hash_from_digest(&digest), 0x0807_0605_0403_0201);
}

#[test]
fn hash_carries_the_sign_of_the_eighth_byte() {
    let mut digest = [0u8; 32];
    digest[7] = 0x80;
    assert_eq!(hash_from_digest(&digest), i64::MIN);
    digest[0] = 1;
    assert_eq!(hash_from_digest(&digest), i64::MIN + 1);
    assert_eq!(hash_from_digest(&[0xff; 32]), -1);
    digest = [0xff; 32];
    digest[7] = 0x7f;
    assert_eq!(hash_from_digest(&digest), i64::MAX);
}

#[test]
fn different_seeds_hash_differently() {
    assert_ne!(hash_seed(1), hash_seed(1 << 56));
}
