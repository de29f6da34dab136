//! Password strength analysis: which categories occur, how large the
//! alphabet they span is, how many passwords of that length it allows, and
//! a label drawn from length and category count.
//!
//! The label follows fixed thresholds. A password is `Strong` if it holds
//! all four categories and at least 16 characters; else `Moderate` if it
//! holds at least two categories and at least 12 characters; else `Weak`.

use crate::generator::{covers, lemma_push};
use crate::policy::{Policy, PolicySpec};
use vstd::arithmetic::power::{lemma_pow0, lemma_pow_increases, pow};
use vstd::prelude::*;

verus! {

/// Fewest characters of a `Moderate` password.
pub const MODERATE_MIN_LENGTH: usize = 12;

/// Fewest categories of a `Moderate` password.
pub const MODERATE_MIN_CATEGORIES: u8 = 2;

/// Fewest characters of a `Strong` password.
pub const STRONG_MIN_LENGTH: usize = 16;

/// Fewest categories of a `Strong` password.
pub const STRONG_MIN_CATEGORIES: u8 = 4;

/// Why a password could not be analyzed.
#[derive(Clone, Copy, Debug, PartialEq, Eq, Structural)]
pub enum AnalysisError {
    /// The password has no characters.
    EmptyPassword,
}

/// The qualitative label of a password.
#[derive(Clone, Copy, Debug, PartialEq, Eq, Structural)]
pub enum Strength {
    Weak,
    Moderate,
    Strong,
}

impl Strength {
    /// The place of the label in the order `Weak`, `Moderate`, `Strong`.
    pub open spec fn rank(self) -> nat {
        match self {
            Strength::Weak => 0,
            Strength::Moderate => 1,
            Strength::Strong => 2,
        }
    }
}

/// The assessment of one password.
#[derive(Clone, Copy, Debug, PartialEq, Eq, Structural)]
pub struct StrengthReport {
    /// Number of characters.
    pub length: usize,
    pub has_lowercase: bool,
    pub has_uppercase: bool,
    pub has_special: bool,
    pub has_digit: bool,
    /// Sum of the sizes of the pools of the categories that occur.
    pub pool_size: u128,
    /// `pool_size` to the power of `length`, or `u128::MAX` if that is larger.
    pub keyspace: u128,
    /// Whether `keyspace` is the power itself.
    pub keyspace_is_exact: bool,
    pub label: Strength,
}

/// One if the flag is set, else zero.
pub open spec fn one_if(flag: bool) -> nat {
    if flag {
        1
    } else {
        0
    }
}

/// The size of `pool` if `password` holds one of its characters, else zero.
pub open spec fn size_if_covered(password: Seq<char>, pool: Seq<char>) -> nat {
    if covers(password, pool) {
        pool.len()
    } else {
        0
    }
}

/// The number of passwords of `length` characters over an alphabet of
/// `pool_size` characters.
pub open spec fn keyspace(pool_size: nat, length: nat) -> nat {
    pow(pool_size as int, length) as nat
}

/// The label for a password of `length` characters that holds `categories`
/// categories.
pub open spec fn label_for(length: nat, categories: nat) -> Strength {
    if categories >= STRONG_MIN_CATEGORIES && length >= STRONG_MIN_LENGTH {
        Strength::Strong
    } else if categories >= MODERATE_MIN_CATEGORIES && length >= MODERATE_MIN_LENGTH {
        Strength::Moderate
    } else {
        Strength::Weak
    }
}

impl StrengthReport {
    /// How many of the four categories occur.
    pub open spec fn categories(self) -> nat {
        one_if(self.has_lowercase) + one_if(self.has_uppercase) + one_if(self.has_special)
            + one_if(self.has_digit)
    }

    /// How many of the four categories occur.
    pub fn category_count(&self) -> (count: u8)
        ensures
            count == self.categories(),
    {
        let mut count: u8 = 0;
        if self.has_lowercase {
            count += 1;
        }
        if self.has_uppercase {
            count += 1;
        }
        if self.has_special {
            count += 1;
        }
        if self.has_digit {
            count += 1;
        }
        count
    }
}

impl PolicySpec {
    /// The size of the alphabet spanned by the categories that occur in
    /// `password`.
    pub open spec fn pool_size_of(self, password: Seq<char>) -> nat {
        size_if_covered(password, self.lowercase) + size_if_covered(password, self.uppercase)
            + size_if_covered(password, self.special) + size_if_covered(password, self.digits)
    }

    /// The number of categories that occur in `password`.
    pub open spec fn categories_of(self, password: Seq<char>) -> nat {
        one_if(covers(password, self.lowercase)) + one_if(covers(password, self.uppercase))
            + one_if(covers(password, self.special)) + one_if(covers(password, self.digits))
    }

    /// The report for `password`, or the reason there is none.
    pub open spec fn analysis(self, password: Seq<char>) -> Result<StrengthReport, AnalysisError> {
        if password.len() == 0 {
            Err(AnalysisError::EmptyPassword)
        } else {
            let size = self.pool_size_of(password);
            let space = keyspace(size, password.len());
            Ok(
                StrengthReport {
                    length: password.len() as usize,
                    has_lowercase: covers(password, self.lowercase),
                    has_uppercase: covers(password, self.uppercase),
                    has_special: covers(password, self.special),
                    has_digit: covers(password, self.digits),
                    pool_size: size as u128,
                    keyspace: if space <= u128::MAX {
                        space as u128
                    } else {
                        u128::MAX
                    },
                    keyspace_is_exact: space <= u128::MAX,
                    label: label_for(password.len(), self.categories_of(password)),
                },
            )
        }
    }
}

/// A longer password with at least as many categories never gets a lower
/// label.
pub proof fn lemma_label_is_monotonic(length: nat, categories: nat, longer: nat, more: nat)
    requires
        length <= longer,
        categories <= more,
    ensures
        label_for(length, categories).rank() <= label_for(longer, more).rank(),
{
}

/// Analysis is a function of the policy and the password alone: any two
/// results for the same password under the same policy are equal.
pub proof fn lemma_analysis_is_repeatable(
    policy: PolicySpec,
    password: Seq<char>,
    first: Result<StrengthReport, AnalysisError>,
    second: Result<StrengthReport, AnalysisError>,
)
    requires
        first == policy.analysis(password),
        second == policy.analysis(password),
    ensures
        first == second,
{
}

/// Analysis fails exactly on the empty password.
pub proof fn lemma_analysis_fails_only_on_empty(policy: PolicySpec, password: Seq<char>)
    ensures
        policy.analysis(password) is Err <==> password.len() == 0,
        policy.analysis(password) is Err ==> policy.analysis(password) == Err::<
            StrengthReport,
            AnalysisError,
        >(AnalysisError::EmptyPassword),
{
}

/// Whether `pool` holds `c`.
pub fn pool_contains(pool: &Vec<char>, c: char) -> (found: bool)
    ensures
        found == pool@.contains(c),
{
    let mut i: usize = 0;
    while i < pool.len()
        invariant
            i <= pool.len(),
            forall|j: int| 0 <= j < i ==> pool@[j] != c,
        decreases pool.len() - i,
    {
        if pool[i] == c {
            return true;
        }
        i += 1;
    }
    false
}

/// `base` to the power of `exponent`, and `true`; or `u128::MAX` and
/// `false` if the power is larger than that.
pub fn saturating_power(base: u128, exponent: usize) -> (result: (u128, bool))
    ensures
        result.1 == (keyspace(base as nat, exponent as nat) <= u128::MAX),
        result.1 ==> result.0 == keyspace(base as nat, exponent as nat),
        !result.1 ==> result.0 == u128::MAX,
{
    let mut power: u128 = 1;
    let mut i: usize = 0;
    proof {
        lemma_pow0(base as int);
    }
    while i < exponent
        invariant
            i <= exponent,
            power == pow(base as int, i as nat),
        decreases exponent - i,
    {
        proof {
            reveal(pow);
            assert(pow(base as int, (i + 1) as nat) == power * base) by {
                assert(pow(base as int, (i + 1) as nat) == base * pow(base as int, i as nat));
                assert(base * power == power * base) by (nonlinear_arith);
            }
        }
        match power.checked_mul(base) {
            Some(next) => {
                power = next;
                i += 1;
            },
            None => {
                proof {
                    assert(base > 0) by (nonlinear_arith)
                        requires
                            power * base > u128::MAX,
                            power >= 0,
                            base >= 0,
                    ;
                    lemma_pow_increases(base as nat, (i + 1) as nat, exponent as nat);
                }
                return (u128::MAX, false);
            },
        }
    }
    (power, true)
}

/// The label for a password of `length` characters that holds `categories`
/// categories.
pub fn rate(length: usize, categories: u8) -> (label: Strength)
    ensures
        label == label_for(length as nat, categories as nat),
{
    if categories >= STRONG_MIN_CATEGORIES && length >= STRONG_MIN_LENGTH {
        Strength::Strong
    } else if categories >= MODERATE_MIN_CATEGORIES && length >= MODERATE_MIN_LENGTH {
        Strength::Moderate
    } else {
        Strength::Weak
    }
}

/// Analyzes `password` against the pools of `policy`. Fails exactly on the
/// empty password.
pub fn analyze(policy: &Policy, password: &str) -> (result: Result<StrengthReport, AnalysisError>)
    ensures
        result == policy@.analysis(password@),
{
    let length: usize = password.unicode_len();
    if length == 0 {
        return Err(AnalysisError::EmptyPassword);
    }
    let mut has_lowercase = false;
    let mut has_uppercase = false;
    let mut has_special = false;
    let mut has_digit = false;
    for c in it: password.chars()
        invariant
            it.seq() == password@,
            has_lowercase == covers(password@.take(it.index()), policy@.lowercase),
            has_uppercase == covers(password@.take(it.index()), policy@.uppercase),
            has_special == covers(password@.take(it.index()), policy@.special),
            has_digit == covers(password@.take(it.index()), policy@.digits),
    {
        proof {
            let seen = password@.take(it.index());
            assert(password@.take(it.index() + 1) == seen.push(c));
            lemma_push(seen, c, policy@.lowercase);
            lemma_push(seen, c, policy@.uppercase);
            lemma_push(seen, c, policy@.special);
            lemma_push(seen, c, policy@.digits);
        }
        has_lowercase = has_lowercase || pool_contains(&policy.lowercase, c);
        has_uppercase = has_uppercase || pool_contains(&policy.uppercase, c);
        has_special = has_special || pool_contains(&policy.special, c);
        has_digit = has_digit || pool_contains(&policy.digits, c);
    }
    assert(password@.take(password@.len() as int) == password@);
    let mut pool_size: u128 = 0;
    if has_lowercase {
        pool_size += policy.lowercase.len() as u128;
    }
    if has_uppercase {
        pool_size += policy.uppercase.len() as u128;
    }
    if has_special {
        pool_size += policy.special.len() as u128;
    }
    if has_digit {
        pool_size += policy.digits.len() as u128;
    }
    let (keyspace, keyspace_is_exact) = saturating_power(pool_size, length);
    let mut report = StrengthReport {
        length,
        has_lowercase,
        has_uppercase,
        has_special,
        has_digit,
        pool_size,
        keyspace,
        keyspace_is_exact,
        label: Strength::Weak,
    };
    report.label = rate(length, report.category_count());
    Ok(report)
}

/// Analyzes `password` against the standard alphabet. Fails exactly on the
/// empty password.
pub fn analyze_password(password: &String) -> (result: Result<StrengthReport, AnalysisError>)
    ensures
        result == PolicySpec::standard().analysis(password@),
{
    let policy = Policy::standard();
    analyze(&policy, password.as_str())
}

} // verus!
