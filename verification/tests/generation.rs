use securepassgen::generator::generate_secure_password;
use securepassgen::generator::is_valid_password;
use securepassgen::generator::PasswordError;
use securepassgen::generator::PasswordRequirements;

const UPPERCASE: &str = "ABCDEFGHIJKLMNOPQRSTUVWXYZ";
const LOWERCASE: &str = "abcdefghijklmnopqrstuvwxyz";
const NUMBERS: &str = "0123456789";
const SYMBOLS: &str = "!@#$%^&*()-_=+[]";

fn default_requirements() -> PasswordRequirements {
    PasswordRequirements {
        has_upper: true,
        has_lower: true,
        has_number: true,
        has_symbol: true,
        min_upper: 1,
        min_lower: 1,
        min_number: 1,
        min_symbol: 1,
    }
}

fn count_in(password: &[char], alphabet: &str) -> usize {
    password.iter().filter(|c| alphabet.contains(**c)).count()
}

#[test]
fn boundary_lengths_rejected() {
    let req = default_requirements();
    assert!(matches!(
        generate_secure_password(11, &req),
        Err(PasswordError::InvalidLength)
    ));
    assert!(matches!(
        generate_secure_password(129, &req),
        Err(PasswordError::InvalidLength)
    ));
    assert!(matches!(
        generate_secure_password(0, &req),
        Err(PasswordError::InvalidLength)
    ));
}

#[test]
fn boundary_lengths_accepted() {
    let req = default_requirements();
    let short = generate_secure_password(12, &req).unwrap();
    assert_eq!(short.len(), 12);
    let long = generate_secure_password(128, &req).unwrap();
    assert_eq!(long.len(), 128);
}

#[test]
fn scenario_length_twelve_all_classes() {
    let req = default_requirements();
    let pw = generate_secure_password(12, &req).unwrap();
    assert_eq!(pw.len(), 12);
    assert!(count_in(&pw, UPPERCASE) >= 1);
    assert!(count_in(&pw, LOWERCASE) >= 1);
    assert!(count_in(&pw, NUMBERS) >= 1);
    assert!(count_in(&pw, SYMBOLS) >= 1);
    for c in &pw {
        assert!(
            UPPERCASE.contains(*c)
                || LOWERCASE.contains(*c)
                || NUMBERS.contains(*c)
                || SYMBOLS.contains(*c)
        );
    }
}

#[test]
fn class_minimums_respected() {
    let req = PasswordRequirements {
        has_upper: true,
        has_lower: true,
        has_number: true,
        has_symbol: true,
        min_upper: 2,
        min_lower: 3,
        min_number: 4,
        min_symbol: 5,
    };
    let pw = generate_secure_password(20, &req).unwrap();
    assert_eq!(pw.len(), 20);
    assert!(count_in(&pw, UPPERCASE) >= 2);
    assert!(count_in(&pw, LOWERCASE) >= 3);
    assert!(count_in(&pw, NUMBERS) >= 4);
    assert!(count_in(&pw, SYMBOLS) >= 5);
}

#[test]
fn unsatisfiable_minimums_rejected() {
    let req = PasswordRequirements {
        min_upper: 10,
        ..default_requirements()
    };
    assert!(matches!(
        generate_secure_password(12, &req),
        Err(PasswordError::UnsatisfiableRequirements)
    ));
}

#[test]
fn padding_without_enabled_classes_rejected() {
    let req = PasswordRequirements {
        has_upper: false,
        has_lower: false,
        has_number: false,
        has_symbol: false,
        min_upper: 1,
        min_lower: 1,
        min_number: 1,
        min_symbol: 1,
    };
    assert!(matches!(
        generate_secure_password(12, &req),
        Err(PasswordError::UnsatisfiableRequirements)
    ));
}

#[test]
fn exact_minimums_need_no_filler() {
    let req = PasswordRequirements {
        has_upper: false,
        has_lower: false,
        has_number: false,
        has_symbol: false,
        min_upper: 3,
        min_lower: 3,
        min_number: 3,
        min_symbol: 3,
    };
    let pw = generate_secure_password(12, &req).unwrap();
    assert_eq!(pw.len(), 12);
    assert_eq!(count_in(&pw, UPPERCASE), 3);
    assert_eq!(count_in(&pw, LOWERCASE), 3);
    assert_eq!(count_in(&pw, NUMBERS), 3);
    assert_eq!(count_in(&pw, SYMBOLS), 3);
}

#[test]
fn disabled_class_never_appears() {
    let req = PasswordRequirements {
        has_symbol: false,
        min_symbol: 0,
        ..default_requirements()
    };
    let pw = generate_secure_password(32, &req).unwrap();
    assert_eq!(count_in(&pw, SYMBOLS), 0);
    for c in &pw {
        assert!(UPPERCASE.contains(*c) || LOWERCASE.contains(*c) || NUMBERS.contains(*c));
    }
}

#[test]
fn structure_deterministic_content_not() {
    let req = default_requirements();
    let first = generate_secure_password(128, &req).unwrap();
    let second = generate_secure_password(128, &req).unwrap();
    assert_eq!(first.len(), second.len());
    assert!(is_valid_password(&first, &req));
    assert!(is_valid_password(&second, &req));
    assert_ne!(first, second);
}

#[test]
fn validator_counts_each_class() {
    let req = default_requirements();
    let good: Vec<char> = "Ab3!xxxxxxxx".chars().collect();
    assert!(is_valid_password(&good, &req));
    let no_digit: Vec<char> = "Ab!!xxxxxxxx".chars().collect();
    assert!(!is_valid_password(&no_digit, &req));
    let strict = PasswordRequirements {
        min_upper: 2,
        ..default_requirements()
    };
    assert!(!is_valid_password(&good, &strict));
    let two_upper: Vec<char> = "AB3!xxxxxxxx".chars().collect();
    assert!(is_valid_password(&two_upper, &strict));
}
