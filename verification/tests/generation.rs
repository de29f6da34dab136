use rusty_passgen::generator::{
    compute_password, create_charset, generate, set_length, GenerationRequest,
};
use rusty_passgen::policy::{
    GenerationError, Policy, CHARS, DEFAULT_LENGTH, MAX_LENGTH, MIN_LENGTH, NUMBERS,
    SPECIAL_CHARS, UPPERCASE_CHARS,
};

fn request(length: u32, upper: bool, special: bool, numbers: bool) -> GenerationRequest {
    GenerationRequest {
        length,
        include_uppercase: upper,
        include_special: special,
        include_numbers: numbers,
    }
}

fn tiny_policy() -> Policy {
    Policy {
        min_length: 1,
        max_length: 6,
        default_length: 2,
        lowercase: vec!['x'],
        uppercase: vec!['Y'],
        special: vec!['!'],
        digits: vec!['7'],
    }
}

fn flag_combinations() -> Vec<(bool, bool, bool)> {
    let mut all = Vec::new();
    for upper in [false, true] {
        for special in [false, true] {
            for numbers in [false, true] {
                all.push((upper, special, numbers));
            }
        }
    }
    all
}

#[test]
fn standard_constants() {
    assert_eq!(MIN_LENGTH, 8);
    assert_eq!(MAX_LENGTH, 128);
    assert_eq!(DEFAULT_LENGTH, 16);
    assert_eq!(CHARS, "abcdefghijklmnopqrstuvwxyz");
    assert_eq!(UPPERCASE_CHARS, "ABCDEFGHIJKLMNOPQRSTUVWXYZ");
    assert_eq!(SPECIAL_CHARS, "!@#$%^&*_-+=<>?");
    assert_eq!(NUMBERS, "0123456789");
    assert_eq!(SPECIAL_CHARS.chars().count(), 15);
}

#[test]
fn set_length_keeps_lengths_within_bounds() {
    for length in 8..=128u32 {
        assert_eq!(set_length(length), length);
    }
}

#[test]
fn set_length_replaces_lengths_out_of_bounds() {
    assert_eq!(set_length(0), 16);
    assert_eq!(set_length(7), 16);
    assert_eq!(set_length(129), 16);
    assert_eq!(set_length(u32::MAX), 16);
}

#[test]
fn set_length_does_not_clamp_to_the_nearest_bound() {
    assert_ne!(set_length(7), 8);
    assert_ne!(set_length(129), 128);
}

#[test]
fn create_charset_lowercase_only() {
    assert_eq!(create_charset(false, false, false), "abcdefghijklmnopqrstuvwxyz");
}

#[test]
fn create_charset_appends_in_fixed_order() {
    assert_eq!(
        create_charset(true, true, true),
        "abcdefghijklmnopqrstuvwxyzABCDEFGHIJKLMNOPQRSTUVWXYZ!@#$%^&*_-+=<>?0123456789"
    );
    assert_eq!(
        create_charset(true, false, false),
        "abcdefghijklmnopqrstuvwxyzABCDEFGHIJKLMNOPQRSTUVWXYZ"
    );
    assert_eq!(create_charset(false, true, false), "abcdefghijklmnopqrstuvwxyz!@#$%^&*_-+=<>?");
    assert_eq!(create_charset(false, false, true), "abcdefghijklmnopqrstuvwxyz0123456789");
    assert_eq!(
        create_charset(false, true, true),
        "abcdefghijklmnopqrstuvwxyz!@#$%^&*_-+=<>?0123456789"
    );
}

#[test]
fn create_charset_sizes() {
    assert_eq!(create_charset(false, false, false).chars().count(), 26);
    assert_eq!(create_charset(true, false, true).chars().count(), 62);
    assert_eq!(create_charset(true, true, true).chars().count(), 77);
}

#[test]
fn standard_policy_matches_the_constants() {
    let policy = Policy::standard();
    assert_eq!(policy.min_length, 8);
    assert_eq!(policy.max_length, 128);
    assert_eq!(policy.default_length, 16);
    assert_eq!(policy.lowercase, CHARS.chars().collect::<Vec<char>>());
    assert_eq!(policy.uppercase, UPPERCASE_CHARS.chars().collect::<Vec<char>>());
    assert_eq!(policy.special, SPECIAL_CHARS.chars().collect::<Vec<char>>());
    assert_eq!(policy.digits, NUMBERS.chars().collect::<Vec<char>>());
}

#[test]
fn validate_length_follows_the_policy_bounds() {
    let policy = tiny_policy();
    assert_eq!(policy.validate_length(1), 1);
    assert_eq!(policy.validate_length(6), 6);
    assert_eq!(policy.validate_length(0), 2);
    assert_eq!(policy.validate_length(7), 2);
    assert_eq!(Policy::standard().validate_length(64), 64);
    assert_eq!(Policy::standard().validate_length(4), 16);
}

#[test]
fn build_charset_merges_the_enabled_pools() {
    let policy = tiny_policy();
    assert_eq!(policy.build_charset(false, false, false), Ok(vec!['x']));
    assert_eq!(policy.build_charset(true, true, true), Ok(vec!['x', 'Y', '!', '7']));
    assert_eq!(policy.build_charset(false, true, false), Ok(vec!['x', '!']));
    let standard: String =
        Policy::standard().build_charset(true, true, true).unwrap().into_iter().collect();
    assert_eq!(standard, create_charset(true, true, true));
}

#[test]
fn build_charset_fails_without_lowercase() {
    let mut policy = tiny_policy();
    policy.lowercase = Vec::new();
    assert_eq!(policy.build_charset(true, true, true), Err(GenerationError::EmptyCharset));
    assert_eq!(policy.build_charset(false, false, false), Err(GenerationError::EmptyCharset));
}

#[test]
fn build_charset_keeps_an_empty_optional_pool_out() {
    let mut policy = tiny_policy();
    policy.uppercase = Vec::new();
    assert_eq!(policy.build_charset(true, false, true), Ok(vec!['x', '7']));
}

#[test]
fn compute_password_has_every_valid_length() {
    for length in 8..=128u32 {
        let password = compute_password(length, true, true, true);
        assert_eq!(password.chars().count(), length as usize);
    }
}

#[test]
fn compute_password_uses_default_length_when_out_of_range() {
    for length in [0u32, 1, 7, 129, 1000, u32::MAX] {
        for (upper, special, numbers) in flag_combinations() {
            let password = compute_password(length, upper, special, numbers);
            assert_eq!(password.chars().count(), 16);
            let allowed = create_charset(upper, special, numbers);
            assert!(password.chars().all(|c| allowed.contains(c)));
            assert!(password.chars().any(|c| CHARS.contains(c)));
            assert!(!upper || password.chars().any(|c| UPPERCASE_CHARS.contains(c)));
            assert!(!special || password.chars().any(|c| SPECIAL_CHARS.contains(c)));
            assert!(!numbers || password.chars().any(|c| NUMBERS.contains(c)));
        }
    }
}

#[test]
fn compute_password_covers_every_enabled_category() {
    for (upper, special, numbers) in flag_combinations() {
        let allowed = create_charset(upper, special, numbers);
        for _ in 0..1000 {
            let password = compute_password(8, upper, special, numbers);
            assert_eq!(password.chars().count(), 8);
            assert!(password.chars().all(|c| allowed.contains(c)));
            assert!(password.chars().any(|c| CHARS.contains(c)));
            assert!(!upper || password.chars().any(|c| UPPERCASE_CHARS.contains(c)));
            assert!(!special || password.chars().any(|c| SPECIAL_CHARS.contains(c)));
            assert!(!numbers || password.chars().any(|c| NUMBERS.contains(c)));
        }
    }
}

#[test]
fn compute_password_minimal_is_lowercase_only() {
    for _ in 0..200 {
        let password = compute_password(8, false, false, false);
        assert_eq!(password.chars().count(), 8);
        assert!(password.chars().all(|c| c.is_ascii_lowercase()));
    }
}

#[test]
fn compute_password_leaves_disabled_categories_out() {
    for _ in 0..200 {
        let password = compute_password(64, false, false, true);
        assert!(password.chars().all(|c| c.is_ascii_lowercase() || c.is_ascii_digit()));
        let password = compute_password(64, true, false, false);
        assert!(password.chars().all(|c| c.is_ascii_alphabetic()));
    }
}

#[test]
fn compute_password_varies_between_calls() {
    let first = compute_password(128, true, true, true);
    let mut differs = false;
    for _ in 0..20 {
        if compute_password(128, true, true, true) != first {
            differs = true;
        }
    }
    assert!(differs);
}

#[test]
fn compute_password_does_not_keep_required_characters_in_front() {
    let mut lowercase_first = 0;
    let mut digit_fourth = 0;
    for _ in 0..300 {
        let password: Vec<char> = compute_password(128, true, true, true).chars().collect();
        if CHARS.contains(password[0]) {
            lowercase_first += 1;
        }
        if NUMBERS.contains(password[3]) {
            digit_fourth += 1;
        }
    }
    assert!(lowercase_first < 300);
    assert!(digit_fourth < 300);
}

#[test]
fn compute_password_draws_from_the_whole_pool() {
    let mut seen = std::collections::BTreeSet::new();
    for _ in 0..200 {
        for c in compute_password(128, true, true, true).chars() {
            seen.insert(c);
        }
    }
    assert_eq!(seen.len(), 77);
}

#[test]
fn generate_under_the_standard_policy_agrees_with_compute_password() {
    let policy = Policy::standard();
    for (upper, special, numbers) in flag_combinations() {
        let allowed = create_charset(upper, special, numbers);
        for length in [3u32, 8, 21, 128, 500] {
            let password = generate(&policy, &request(length, upper, special, numbers)).unwrap();
            assert_eq!(password.chars().count(), set_length(length) as usize);
            assert!(password.chars().all(|c| allowed.contains(c)));
            assert!(password.chars().any(|c| CHARS.contains(c)));
            assert!(!upper || password.chars().any(|c| UPPERCASE_CHARS.contains(c)));
            assert!(!special || password.chars().any(|c| SPECIAL_CHARS.contains(c)));
            assert!(!numbers || password.chars().any(|c| NUMBERS.contains(c)));
        }
    }
}

#[test]
fn generate_from_a_single_character_is_that_character_repeated() {
    let policy = tiny_policy();
    assert_eq!(generate(&policy, &request(5, false, false, false)), Ok("xxxxx".to_string()));
    assert_eq!(generate(&policy, &request(1, false, false, false)), Ok("x".to_string()));
    assert_eq!(generate(&policy, &request(9, false, false, false)), Ok("xx".to_string()));
}

#[test]
fn generate_with_length_equal_to_category_count_is_a_permutation() {
    let policy = tiny_policy();
    for _ in 0..100 {
        let password = generate(&policy, &request(4, true, true, true)).unwrap();
        let mut chars: Vec<char> = password.chars().collect();
        chars.sort();
        assert_eq!(chars, vec!['!', '7', 'Y', 'x']);
    }
}

#[test]
fn generate_shuffles_the_required_characters() {
    let policy = tiny_policy();
    let mut orders = std::collections::BTreeSet::new();
    for _ in 0..400 {
        orders.insert(generate(&policy, &request(4, true, true, true)).unwrap());
    }
    assert!(orders.len() > 1);
    assert!(orders.iter().any(|p| !p.starts_with('x')));
}

#[test]
fn generate_rejects_an_empty_lowercase_pool() {
    let mut policy = tiny_policy();
    policy.lowercase = Vec::new();
    for (upper, special, numbers) in flag_combinations() {
        assert_eq!(
            generate(&policy, &request(4, upper, special, numbers)),
            Err(GenerationError::EmptyCharset)
        );
    }
}

#[test]
fn generate_rejects_an_empty_required_pool() {
    let mut policy = tiny_policy();
    policy.uppercase = Vec::new();
    assert_eq!(
        generate(&policy, &request(4, true, false, false)),
        Err(GenerationError::EmptyCharset)
    );
    let mut policy = tiny_policy();
    policy.special = Vec::new();
    assert_eq!(
        generate(&policy, &request(4, false, true, false)),
        Err(GenerationError::EmptyCharset)
    );
    let mut policy = tiny_policy();
    policy.digits = Vec::new();
    assert_eq!(
        generate(&policy, &request(4, false, false, true)),
        Err(GenerationError::EmptyCharset)
    );
}

#[test]
fn generate_ignores_an_empty_pool_that_is_not_required() {
    let mut policy = tiny_policy();
    policy.uppercase = Vec::new();
    policy.digits = Vec::new();
    let password = generate(&policy, &request(6, false, true, false)).unwrap();
    assert_eq!(password.chars().count(), 6);
    assert!(password.contains('x'));
    assert!(password.contains('!'));
    assert!(password.chars().all(|c| c == 'x' || c == '!'));
}

#[test]
fn generate_rejects_a_length_below_the_category_count() {
    let policy = tiny_policy();
    assert_eq!(
        generate(&policy, &request(3, true, true, true)),
        Err(GenerationError::LengthTooShortForCategories)
    );
    assert_eq!(
        generate(&policy, &request(1, true, false, false)),
        Err(GenerationError::LengthTooShortForCategories)
    );
    assert_eq!(
        generate(&policy, &request(100, true, true, false)),
        Err(GenerationError::LengthTooShortForCategories)
    );
    assert!(generate(&policy, &request(100, true, false, false)).is_ok());
}

#[test]
fn generate_rejects_a_zero_length() {
    let mut policy = tiny_policy();
    policy.min_length = 0;
    assert_eq!(
        generate(&policy, &request(0, false, false, false)),
        Err(GenerationError::LengthTooShortForCategories)
    );
}

#[test]
fn generate_reports_an_empty_pool_before_a_short_length() {
    let mut policy = tiny_policy();
    policy.digits = Vec::new();
    assert_eq!(
        generate(&policy, &request(2, true, true, true)),
        Err(GenerationError::EmptyCharset)
    );
}

#[test]
fn generate_with_reordered_pools_keeps_the_guarantee() {
    let mut policy = Policy::standard();
    policy.lowercase.reverse();
    policy.uppercase.rotate_left(7);
    policy.special.reverse();
    policy.digits.rotate_left(3);
    for (upper, special, numbers) in flag_combinations() {
        let allowed = create_charset(upper, special, numbers);
        for _ in 0..100 {
            let password = generate(&policy, &request(8, upper, special, numbers)).unwrap();
            assert_eq!(password.chars().count(), 8);
            assert!(password.chars().all(|c| allowed.contains(c)));
            assert!(password.chars().any(|c| CHARS.contains(c)));
            assert!(!upper || password.chars().any(|c| UPPERCASE_CHARS.contains(c)));
            assert!(!special || password.chars().any(|c| SPECIAL_CHARS.contains(c)));
            assert!(!numbers || password.chars().any(|c| NUMBERS.contains(c)));
        }
    }
}

#[test]
fn generate_accepts_pools_that_overlap() {
    let policy = Policy {
        min_length: 2,
        max_length: 4,
        default_length: 3,
        lowercase: vec!['a'],
        uppercase: vec!['a', 'b'],
        special: Vec::new(),
        digits: Vec::new(),
    };
    for _ in 0..50 {
        let password = generate(&policy, &request(4, true, false, false)).unwrap();
        assert_eq!(password.chars().count(), 4);
        assert!(password.contains('a'));
        assert!(password.chars().all(|c| c == 'a' || c == 'b'));
    }
}

#[test]
fn generate_handles_characters_outside_ascii() {
    let policy = Policy {
        min_length: 1,
        max_length: 10,
        default_length: 5,
        lowercase: vec!['é', 'ß'],
        uppercase: vec!['Ω'],
        special: vec!['→'],
        digits: vec!['٣'],
    };
    let password = generate(&policy, &request(10, true, true, true)).unwrap();
    assert_eq!(password.chars().count(), 10);
    assert!(password.contains('Ω'));
    assert!(password.contains('→'));
    assert!(password.contains('٣'));
    assert!(password.contains('é') || password.contains('ß'));
}
