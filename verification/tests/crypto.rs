use foc_rust::uds::crypto::{generate_key, reverse_bits, AesBlock};
use foc_rust::uds::security;

#[test]
fn crypto_lfsr_known_vector() {
    let key = generate_key(0xA5A5_A5A5, 0x3000_2212);
    let key2 = generate_key(0xA5A5_A5A5, 0x3000_2212);
    assert_eq!(key, key2);
    assert_ne!(key, 0);
}

#[test]
fn crypto_lfsr_different_seeds_differ() {
    let k1 = generate_key(0x0000_0001, 0x1234_5678);
    let k2 = generate_key(0x0000_0002, 0x1234_5678);
    assert_ne!(k1, k2);
}

#[test]
fn crypto_lfsr_different_masks_differ() {
    let k1 = generate_key(0xA5A5_A5A5, 0x0000_0001);
    let k2 = generate_key(0xA5A5_A5A5, 0x0000_0002);
    assert_ne!(k1, k2);
}

#[test]
fn reverse_bits_round_trip() {
    for b in 0u8..=255 {
        assert_eq!(
            reverse_bits(reverse_bits(b)),
            b,
            "reverse_bits is its own inverse for 0x{:02x}",
            b
        );
    }
}

#[test]
fn security_lfsr_known_vector() {
    let key = security::generate_key(0xA5A5_A5A5, 0x3000_2212);
    println!("LFSR key = 0x{:08x}", key);
    let key2 = security::generate_key(0xA5A5_A5A5, 0x3000_2212);
    assert_eq!(key, key2);
    assert_ne!(key, 0);
}

#[test]
fn security_lfsr_different_seeds_differ() {
    let k1 = security::generate_key(0x0000_0001, 0x1234_5678);
    let k2 = security::generate_key(0x0000_0002, 0x1234_5678);
    assert_ne!(k1, k2);
}

#[test]
fn security_lfsr_different_masks_differ() {
    let k1 = security::generate_key(0xA5A5_A5A5, 0x0000_0001);
    let k2 = security::generate_key(0xA5A5_A5A5, 0x0000_0002);
    assert_ne!(k1, k2);
}

#[test]
fn keys_of_the_three_levels() {
    assert_eq!(generate_key(0xA5A5_A5A5, 0x3000_2212), 0x497D_FE82);
    assert_eq!(generate_key(0xA5A5_A5A5, 0x524C_5E63), 0x31A2_063F);
    assert_eq!(generate_key(0xA5A5_A5A5, 0xA5C3_F11B), 0x70F3_5D4D);
}

#[test]
fn zero_seed_has_zero_key() {
    assert_eq!(generate_key(0, 0xA5C3_F11B), 0);
}

#[test]
fn reverse_bits_of_single_bits() {
    for i in 0..8 {
        assert_eq!(reverse_bits(1 << i), 0x80 >> i);
    }
    assert_eq!(reverse_bits(0xA3), 0xC5);
}

#[test]
fn aes_block_keeps_its_bytes() {
    let b = AesBlock::from_bytes([7; 16]);
    assert_eq!(b.0, [7; 16]);
}

#[test]
fn odd_masks_keep_seeds_apart() {
    let mut keys: Vec<u32> = (0..500).map(|seed| generate_key(seed, 0x1234_5679)).collect();
    keys.sort();
    keys.dedup();
    assert_eq!(keys.len(), 500);
}
