use rand::RngCore;
use rand::SeedableRng;
use rand_chacha::ChaCha20Rng;

use securepassgen::alphabet::digit_alphabet;
use securepassgen::alphabet::lower_alphabet;
use securepassgen::alphabet::symbol_alphabet;
use securepassgen::alphabet::upper_alphabet;
use securepassgen::entropy::zero_bytes;
use securepassgen::entropy::zeroize;
use securepassgen::generator::build_filler_alphabet;
use securepassgen::generator::PasswordRequirements;
use securepassgen::sampler::get_unbiased_random_char;
use securepassgen::shuffle::shuffle_in_place;

#[test]
fn alphabets_hold_expected_characters() {
    let upper: String = upper_alphabet().into_iter().collect();
    assert_eq!(upper, "ABCDEFGHIJKLMNOPQRSTUVWXYZ");
    let lower: String = lower_alphabet().into_iter().collect();
    assert_eq!(lower, "abcdefghijklmnopqrstuvwxyz");
    let digits: String = digit_alphabet().into_iter().collect();
    assert_eq!(digits, "0123456789");
    let symbols: String = symbol_alphabet().into_iter().collect();
    assert_eq!(symbols, "!@#$%^&*()-_=+[]");
}

#[test]
fn filler_is_union_of_enabled_classes() {
    let all = PasswordRequirements {
        has_upper: true,
        has_lower: true,
        has_number: true,
        has_symbol: true,
        min_upper: 0,
        min_lower: 0,
        min_number: 0,
        min_symbol: 0,
    };
    assert_eq!(build_filler_alphabet(&all).len(), 78);
    let digits_only = PasswordRequirements {
        has_upper: false,
        has_lower: false,
        has_number: true,
        has_symbol: false,
        ..all
    };
    assert_eq!(build_filler_alphabet(&digits_only), digit_alphabet());
}

#[test]
fn sampler_maps_low_value_to_index() {
    let digits = digit_alphabet();
    // v == 5, below the threshold for size 10, selects index 5 mod 10 == 5.
    let pool: Vec<u8> = vec![5, 0, 0, 0];
    let mut idx: usize = 0;
    let drawn = get_unbiased_random_char(&digits, &pool, &mut idx);
    assert_eq!(drawn, Some('5'));
    assert_eq!(idx, 4);
}

#[test]
fn sampler_rejects_value_above_threshold() {
    // For size 10 the threshold is u32::MAX - (u32::MAX % 10) == 4294967290:
    // the largest 32-bit value must be rejected, never mapped to an index.
    let digits = digit_alphabet();
    let pool: Vec<u8> = vec![0xFF, 0xFF, 0xFF, 0xFF];
    let mut idx: usize = 0;
    let drawn = get_unbiased_random_char(&digits, &pool, &mut idx);
    assert_eq!(drawn, None);
    assert_eq!(idx, 4, "a rejected draw still consumes its four bytes");
    // The threshold value itself is accepted: 4294967290 mod 10 == 0.
    let pool_at_threshold: Vec<u8> = vec![0xFA, 0xFF, 0xFF, 0xFF];
    let mut idx2: usize = 0;
    let drawn2 = get_unbiased_random_char(&digits, &pool_at_threshold, &mut idx2);
    assert_eq!(drawn2, Some('0'));
}

#[test]
fn sampler_signals_exhaustion_without_consuming() {
    let digits = digit_alphabet();
    let pool: Vec<u8> = vec![1, 2, 3];
    let mut idx: usize = 0;
    assert_eq!(get_unbiased_random_char(&digits, &pool, &mut idx), None);
    assert_eq!(idx, 0, "an exhausted pool consumes no partial group");
    let pool2: Vec<u8> = vec![1, 2, 3, 4, 5, 6];
    let mut idx2: usize = 4;
    assert_eq!(get_unbiased_random_char(&digits, &pool2, &mut idx2), None);
    assert_eq!(idx2, 4);
}

#[test]
fn sampler_frequencies_are_uniform() {
    // Draw many samples from the 26-letter alphabet (a size that does not
    // divide the 32-bit value space evenly) and check that every index
    // lands near the uniform expectation.
    let upper = upper_alphabet();
    let mut rng = ChaCha20Rng::from_seed([7u8; 32]);
    let mut pool = vec![0u8; 4096];
    rng.fill_bytes(&mut pool);
    let mut idx: usize = 0;
    let mut counts = [0usize; 26];
    let total: usize = 200_000;
    let mut accepted: usize = 0;
    while accepted < total {
        match get_unbiased_random_char(&upper, &pool, &mut idx) {
            Some(c) => {
                counts[(c as u8 - b'A') as usize] += 1;
                accepted += 1;
            }
            None => {
                rng.fill_bytes(&mut pool);
                idx = 0;
            }
        }
    }
    // Expected count per letter is about 7692; allow a wide deterministic
    // margin (the seed is fixed, so this never flakes).
    for (i, &count) in counts.iter().enumerate() {
        assert!(
            7200 <= count && count <= 8200,
            "index {} occurred {} times",
            i,
            count
        );
    }
}

#[test]
fn shuffle_is_a_permutation() {
    let mut password: Vec<char> = "Abcdef123!@#".chars().collect();
    let before = password.clone();
    let mut rng = ChaCha20Rng::from_seed([42u8; 32]);
    let mut entropy = vec![0u8; password.len() * 4];
    rng.fill_bytes(&mut entropy);
    shuffle_in_place(&mut password, &entropy);
    assert_eq!(password.len(), before.len());
    let mut sorted_before = before.clone();
    sorted_before.sort();
    let mut sorted_after = password.clone();
    sorted_after.sort();
    assert_eq!(sorted_before, sorted_after);
}

#[test]
fn shuffle_with_zero_entropy_rotates() {
    // With every 32-bit group zero, position i is exchanged with position 0
    // for i from the end down to 1, which rotates the sequence left by one.
    let mut password: Vec<char> = vec!['a', 'b', 'c', 'd'];
    let entropy = vec![0u8; 16];
    shuffle_in_place(&mut password, &entropy);
    assert_eq!(password, vec!['b', 'c', 'd', 'a']);
}

#[test]
fn zeroize_clears_every_byte() {
    let mut buf = zero_bytes(32);
    let mut rng = ChaCha20Rng::from_seed([1u8; 32]);
    rng.fill_bytes(&mut buf);
    assert!(buf.iter().any(|&b| b != 0));
    zeroize(&mut buf);
    assert_eq!(buf.len(), 32);
    assert!(buf.iter().all(|&b| b == 0));
}

#[test]
fn shuffle_follows_entropy_groups() {
    // Position 2 reads the group at offset 8 (value 4): 4 mod 3 == 1, so it
    // swaps with position 1; position 1 reads the group at offset 4
    // (value 1): 1 mod 2 == 1, a self-swap. Net effect: ['a','c','b'].
    let mut password: Vec<char> = vec!['a', 'b', 'c'];
    let entropy: Vec<u8> = vec![0, 0, 0, 0, 1, 0, 0, 0, 4, 0, 0, 0];
    shuffle_in_place(&mut password, &entropy);
    assert_eq!(password, vec!['a', 'c', 'b']);
}
