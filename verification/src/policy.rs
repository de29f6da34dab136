//! The alphabet and the length bounds that generation and analysis share.
//!
//! A [`Policy`] owns the four character pools and the length bounds. Contracts
//! speak of its view, a [`PolicySpec`], which holds the pools as sequences.

use crate::text::chars_of;
use vstd::prelude::*;

verus! {

/// Shortest password the standard policy generates.
pub const MIN_LENGTH: u32 = 8;

/// Longest password the standard policy generates.
pub const MAX_LENGTH: u32 = 128;

/// Length used in place of a request outside the bounds.
pub const DEFAULT_LENGTH: u32 = 16;

/// Lowercase letters of the standard alphabet.
pub const CHARS: &'static str = "abcdefghijklmnopqrstuvwxyz";

/// Uppercase letters of the standard alphabet.
pub const UPPERCASE_CHARS: &'static str = "ABCDEFGHIJKLMNOPQRSTUVWXYZ";

/// Symbols of the standard alphabet.
pub const SPECIAL_CHARS: &'static str = "!@#$%^&*_-+=<>?";

/// Digits of the standard alphabet.
pub const NUMBERS: &'static str = "0123456789";

/// Why a password could not be generated.
#[derive(Clone, Copy, Debug, PartialEq, Eq, Structural)]
pub enum GenerationError {
    /// A category that must be drawn from has no characters.
    EmptyCharset,
    /// The password is too short to hold one character of each required category.
    LengthTooShortForCategories,
}

/// Length bounds and character pools, fixed for the lifetime of the value.
pub struct Policy {
    pub min_length: u32,
    pub max_length: u32,
    pub default_length: u32,
    pub lowercase: Vec<char>,
    pub uppercase: Vec<char>,
    pub special: Vec<char>,
    pub digits: Vec<char>,
}

/// A policy as mathematics: the bounds, and each pool as a sequence.
pub struct PolicySpec {
    pub min_length: u32,
    pub max_length: u32,
    pub default_length: u32,
    pub lowercase: Seq<char>,
    pub uppercase: Seq<char>,
    pub special: Seq<char>,
    pub digits: Seq<char>,
}

impl View for Policy {
    type V = PolicySpec;

    open spec fn view(&self) -> PolicySpec {
        PolicySpec {
            min_length: self.min_length,
            max_length: self.max_length,
            default_length: self.default_length,
            lowercase: self.lowercase@,
            uppercase: self.uppercase@,
            special: self.special@,
            digits: self.digits@,
        }
    }
}

/// `pool` if `enabled`, else no characters.
pub open spec fn pool_if(enabled: bool, pool: Seq<char>) -> Seq<char> {
    if enabled {
        pool
    } else {
        Seq::empty()
    }
}

impl PolicySpec {
    /// The standard policy: lengths 8 to 128 with default 16, over the
    /// standard alphabet.
    pub open spec fn standard() -> PolicySpec {
        PolicySpec {
            min_length: MIN_LENGTH,
            max_length: MAX_LENGTH,
            default_length: DEFAULT_LENGTH,
            lowercase: CHARS@,
            uppercase: UPPERCASE_CHARS@,
            special: SPECIAL_CHARS@,
            digits: NUMBERS@,
        }
    }

    /// A request within the bounds is kept; any other becomes the default.
    pub open spec fn validated_length(self, requested: u32) -> u32 {
        if self.min_length <= requested <= self.max_length {
            requested
        } else {
            self.default_length
        }
    }

    /// The merged pool: lowercase, then the enabled ones of uppercase,
    /// special and digits, in that order.
    pub open spec fn charset(self, uppercase: bool, special: bool, numbers: bool) -> Seq<char> {
        self.lowercase + pool_if(uppercase, self.uppercase) + pool_if(special, self.special)
            + pool_if(numbers, self.digits)
    }
}

/// Appends the characters of `pool` to `merged`.
fn append_pool(merged: &mut Vec<char>, pool: &Vec<char>)
    ensures
        final(merged)@ == old(merged)@ + pool@,
{
    let mut i: usize = 0;
    while i < pool.len()
        invariant
            i <= pool.len(),
            merged@ == old(merged)@ + pool@.take(i as int),
        decreases pool.len() - i,
    {
        assert(pool@.take(i + 1) == pool@.take(i as int).push(pool@[i as int]));
        merged.push(pool[i]);
        i += 1;
    }
    assert(pool@.take(pool@.len() as int) == pool@);
}

impl Policy {
    /// The standard policy.
    pub fn standard() -> (policy: Policy)
        ensures
            policy@ == PolicySpec::standard(),
    {
        Policy {
            min_length: MIN_LENGTH,
            max_length: MAX_LENGTH,
            default_length: DEFAULT_LENGTH,
            lowercase: chars_of(CHARS),
            uppercase: chars_of(UPPERCASE_CHARS),
            special: chars_of(SPECIAL_CHARS),
            digits: chars_of(NUMBERS),
        }
    }

    /// Keeps a requested length that lies within the bounds and replaces any
    /// other by the default. Never fails.
    pub fn validate_length(&self, requested: u32) -> (length: u32)
        ensures
            length == self@.validated_length(requested),
    {
        if requested < self.min_length || requested > self.max_length {
            self.default_length
        } else {
            requested
        }
    }

    /// Merges the lowercase pool with the enabled optional pools. Fails
    /// exactly when the lowercase pool is empty.
    pub fn build_charset(&self, uppercase: bool, special: bool, numbers: bool) -> (result: Result<
        Vec<char>,
        GenerationError,
    >)
        ensures
            self@.lowercase.len() == 0 ==> result == Err::<Vec<char>, GenerationError>(
                GenerationError::EmptyCharset,
            ),
            self@.lowercase.len() > 0 ==> result is Ok && result->Ok_0@ == self@.charset(
                uppercase,
                special,
                numbers,
            ),
    {
        if self.lowercase.len() == 0 {
            return Err(GenerationError::EmptyCharset);
        }
        let mut merged: Vec<char> = Vec::new();
        append_pool(&mut merged, &self.lowercase);
        if uppercase {
            append_pool(&mut merged, &self.uppercase);
        }
        if special {
            append_pool(&mut merged, &self.special);
        }
        if numbers {
            append_pool(&mut merged, &self.digits);
        }
        Ok(merged)
    }
}

} // verus!
