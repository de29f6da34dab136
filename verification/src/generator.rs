//! Password generation: one character of every required category, the rest
//! from the merged pool, the whole then shuffled.

use crate::policy::{
    pool_if, GenerationError, Policy, PolicySpec, CHARS, DEFAULT_LENGTH, MAX_LENGTH, MIN_LENGTH, NUMBERS,
    SPECIAL_CHARS, UPPERCASE_CHARS,
};
use crate::random::{fresh_generator, pick, shuffle};
use crate::text::{chars_of, string_of};
use rand::rngs::StdRng;
use vstd::pervasive::unreached;
use vstd::prelude::*;

verus! {

/// What the caller asks for: a length and the optional categories.
/// Lowercase is always required.
#[derive(Clone, Copy, Debug, PartialEq, Eq, Structural)]
pub struct GenerationRequest {
    pub length: u32,
    pub include_uppercase: bool,
    pub include_special: bool,
    pub include_numbers: bool,
}

impl GenerationRequest {
    /// How many categories must each give a character: lowercase and the
    /// enabled optional ones.
    pub open spec fn required_categories(self) -> nat {
        1 + (if self.include_uppercase {
            1nat
        } else {
            0nat
        }) + (if self.include_special {
            1nat
        } else {
            0nat
        }) + (if self.include_numbers {
            1nat
        } else {
            0nat
        })
    }
}

/// Some character of `password` belongs to `pool`.
pub open spec fn covers(password: Seq<char>, pool: Seq<char>) -> bool {
    exists|i: int| 0 <= i < password.len() && pool.contains(#[trigger] password[i])
}

/// Every character of `password` belongs to `pool`.
pub open spec fn drawn_from(password: Seq<char>, pool: Seq<char>) -> bool {
    forall|i: int| 0 <= i < password.len() ==> pool.contains(#[trigger] password[i])
}

impl PolicySpec {
    /// A category that the request requires has an empty pool.
    pub open spec fn lacks_required_pool(self, request: GenerationRequest) -> bool {
        ||| self.lowercase.len() == 0
        ||| request.include_uppercase && self.uppercase.len() == 0
        ||| request.include_special && self.special.len() == 0
        ||| request.include_numbers && self.digits.len() == 0
    }

    /// The merged pool for a request.
    pub open spec fn charset_for(self, request: GenerationRequest) -> Seq<char> {
        self.charset(request.include_uppercase, request.include_special, request.include_numbers)
    }

    /// Why a request cannot be served, if it cannot. An empty required pool
    /// is reported before a length that cannot hold every required category.
    pub open spec fn rejection(self, request: GenerationRequest) -> Option<GenerationError> {
        if self.lacks_required_pool(request) {
            Some(GenerationError::EmptyCharset)
        } else if self.validated_length(request.length) < request.required_categories() {
            Some(GenerationError::LengthTooShortForCategories)
        } else {
            None
        }
    }

    /// What every generated password satisfies: it has the validated length,
    /// all its characters come from the merged pool, and each required
    /// category gave at least one of them.
    pub open spec fn acceptable(self, request: GenerationRequest, password: Seq<char>) -> bool {
        &&& password.len() == self.validated_length(request.length)
        &&& drawn_from(password, self.charset_for(request))
        &&& covers(password, self.lowercase)
        &&& request.include_uppercase ==> covers(password, self.uppercase)
        &&& request.include_special ==> covers(password, self.special)
        &&& request.include_numbers ==> covers(password, self.digits)
    }
}

/// Two sequences with the same characters, each as often, have the same
/// length and the same members.
pub proof fn lemma_same_members(a: Seq<char>, b: Seq<char>)
    requires
        a.to_multiset() == b.to_multiset(),
    ensures
        a.len() == b.len(),
        forall|c: char| a.contains(c) == b.contains(c),
{
    a.to_multiset_ensures();
    b.to_multiset_ensures();
    assert forall|c: char| a.contains(c) == b.contains(c) by {
        assert(a.contains(c) <==> a.to_multiset().count(c) > 0);
        assert(b.contains(c) <==> b.to_multiset().count(c) > 0);
    }
}

/// Reordering a pool changes neither which passwords are drawn from it nor
/// which passwords it covers.
pub proof fn lemma_pool_order_is_irrelevant(password: Seq<char>, pool: Seq<char>, reordered: Seq<char>)
    requires
        pool.to_multiset() == reordered.to_multiset(),
    ensures
        drawn_from(password, pool) == drawn_from(password, reordered),
        covers(password, pool) == covers(password, reordered),
{
    lemma_same_members(pool, reordered);
}

/// Reordering a password changes neither which pools it is drawn from nor
/// which pools cover it.
pub proof fn lemma_password_order_is_irrelevant(
    password: Seq<char>,
    reordered: Seq<char>,
    pool: Seq<char>,
)
    requires
        password.to_multiset() == reordered.to_multiset(),
    ensures
        drawn_from(password, pool) == drawn_from(reordered, pool),
        covers(password, pool) == covers(reordered, pool),
{
    lemma_same_members(password, reordered);
    lemma_hits_by_members(password, reordered, pool);
    lemma_hits_by_members(reordered, password, pool);
}

/// If every member of `a` is a member of `b`, then `b` is covered by what
/// covers `a`, and `a` is drawn from what `b` is drawn from.
proof fn lemma_hits_by_members(a: Seq<char>, b: Seq<char>, pool: Seq<char>)
    requires
        forall|c: char| a.contains(c) ==> b.contains(c),
    ensures
        covers(a, pool) ==> covers(b, pool),
        drawn_from(b, pool) ==> drawn_from(a, pool),
{
    if covers(a, pool) {
        let i = choose|i: int| 0 <= i < a.len() && pool.contains(#[trigger] a[i]);
        assert(a.contains(a[i]));
        let j = choose|j: int| 0 <= j < b.len() && b[j] == a[i];
        assert(pool.contains(b[j]));
    }
    if drawn_from(b, pool) {
        assert forall|i: int| 0 <= i < a.len() implies pool.contains(#[trigger] a[i]) by {
            assert(a.contains(a[i]));
            let j = choose|j: int| 0 <= j < b.len() && b[j] == a[i];
            assert(pool.contains(b[j]));
        }
    }
}

/// Every character of the first sequence is a character of the
/// concatenation, and so is every character of the second.
proof fn lemma_concat_members(a: Seq<char>, b: Seq<char>)
    ensures
        forall|c: char| (a + b).contains(c) == (a.contains(c) || b.contains(c)),
{
    assert forall|c: char| (a + b).contains(c) == (a.contains(c) || b.contains(c)) by {
        if a.contains(c) {
            let i = choose|i: int| 0 <= i < a.len() && a[i] == c;
            assert((a + b)[i] == c);
        }
        if b.contains(c) {
            let i = choose|i: int| 0 <= i < b.len() && b[i] == c;
            assert((a + b)[a.len() + i] == c);
        }
        if (a + b).contains(c) {
            let i = choose|i: int| 0 <= i < (a + b).len() && (a + b)[i] == c;
            if i < a.len() {
                assert(a[i] == c);
            } else {
                assert(b[i - a.len()] == c);
            }
        }
    }
}

impl PolicySpec {
    /// The merged pool holds exactly the characters of the lowercase pool
    /// and of the enabled optional pools.
    pub proof fn lemma_charset_members(self, request: GenerationRequest)
        ensures
            forall|c: char|
                self.charset_for(request).contains(c) == (self.lowercase.contains(c)
                    || (request.include_uppercase && self.uppercase.contains(c))
                    || (request.include_special && self.special.contains(c))
                    || (request.include_numbers && self.digits.contains(c))),
    {
        let upper = pool_if(request.include_uppercase, self.uppercase);
        let special = pool_if(request.include_special, self.special);
        let digits = pool_if(request.include_numbers, self.digits);
        lemma_concat_members(self.lowercase, upper);
        lemma_concat_members(self.lowercase + upper, special);
        lemma_concat_members(self.lowercase + upper + special, digits);
    }

    /// A request whose length lies within the bounds gets a password of
    /// exactly that length.
    pub proof fn lemma_length_within_bounds_is_kept(
        self,
        request: GenerationRequest,
        password: Seq<char>,
    )
        requires
            self.min_length <= request.length <= self.max_length,
            self.acceptable(request, password),
        ensures
            password.len() == request.length,
    {
    }

    /// A request whose length lies outside the bounds is treated exactly as
    /// the same request with the default length.
    pub proof fn lemma_length_out_of_bounds_is_default(
        self,
        request: GenerationRequest,
        password: Seq<char>,
    )
        requires
            !(self.min_length <= request.length <= self.max_length),
        ensures
            self.rejection(request) == self.rejection(
                (GenerationRequest { length: self.default_length, ..request }),
            ),
            self.acceptable(request, password) == self.acceptable(
                (GenerationRequest { length: self.default_length, ..request }),
                password,
            ),
    {
        let defaulted = GenerationRequest { length: self.default_length, ..request };
        assert(self.charset_for(request) == self.charset_for(defaulted));
    }

    /// Two policies with the same bounds whose pools hold the same
    /// characters in another order reject the same requests and accept the
    /// same passwords.
    pub proof fn lemma_reordered_pools_accept_alike(
        self,
        other: PolicySpec,
        request: GenerationRequest,
        password: Seq<char>,
    )
        requires
            self.min_length == other.min_length,
            self.max_length == other.max_length,
            self.default_length == other.default_length,
            self.lowercase.to_multiset() == other.lowercase.to_multiset(),
            self.uppercase.to_multiset() == other.uppercase.to_multiset(),
            self.special.to_multiset() == other.special.to_multiset(),
            self.digits.to_multiset() == other.digits.to_multiset(),
        ensures
            self.rejection(request) == other.rejection(request),
            self.acceptable(request, password) == other.acceptable(request, password),
    {
        lemma_same_members(self.lowercase, other.lowercase);
        lemma_same_members(self.uppercase, other.uppercase);
        lemma_same_members(self.special, other.special);
        lemma_same_members(self.digits, other.digits);
        self.lemma_charset_members(request);
        other.lemma_charset_members(request);
        lemma_pool_order_is_irrelevant(password, self.lowercase, other.lowercase);
        lemma_pool_order_is_irrelevant(password, self.uppercase, other.uppercase);
        lemma_pool_order_is_irrelevant(password, self.special, other.special);
        lemma_pool_order_is_irrelevant(password, self.digits, other.digits);
        let mine = self.charset_for(request);
        let theirs = other.charset_for(request);
        assert forall|c: char| mine.contains(c) == theirs.contains(c) by {
            assert(self.lowercase.contains(c) == other.lowercase.contains(c));
            assert(self.uppercase.contains(c) == other.uppercase.contains(c));
            assert(self.special.contains(c) == other.special.contains(c));
            assert(self.digits.contains(c) == other.digits.contains(c));
        }
        assert(drawn_from(password, mine) == drawn_from(password, theirs));
    }
}

/// No request is rejected under the standard policy: every pool has
/// characters and the shortest password holds all four categories.
pub proof fn lemma_standard_policy_serves_every_request(request: GenerationRequest)
    ensures
        PolicySpec::standard().rejection(request) is None,
        MIN_LENGTH <= PolicySpec::standard().validated_length(request.length) <= MAX_LENGTH,
{
    reveal_strlit("abcdefghijklmnopqrstuvwxyz");
    reveal_strlit("ABCDEFGHIJKLMNOPQRSTUVWXYZ");
    reveal_strlit("!@#$%^&*_-+=<>?");
    reveal_strlit("0123456789");
}

/// Validates a requested length against the standard bounds: a length from
/// 8 to 128 is kept, any other becomes 16.
pub fn set_length(args_length: u32) -> (length: u32)
    ensures
        length == PolicySpec::standard().validated_length(args_length),
        MIN_LENGTH <= length <= MAX_LENGTH,
{
    let mut length: u32 = args_length;
    if args_length < MIN_LENGTH || args_length > MAX_LENGTH {
        length = DEFAULT_LENGTH;
    }
    length
}

/// The merged pool of the standard alphabet: the lowercase letters, then
/// the uppercase letters, the symbols and the digits as far as enabled.
pub fn create_charset(up_chars: bool, spec_chars: bool, num_chars: bool) -> (charset: String)
    ensures
        charset@ == PolicySpec::standard().charset(up_chars, spec_chars, num_chars),
{
    let mut charset = String::from_str(CHARS);
    if up_chars {
        charset.append(UPPERCASE_CHARS);
    }
    if spec_chars {
        charset.append(SPECIAL_CHARS);
    }
    if num_chars {
        charset.append(NUMBERS);
    }
    charset
}

/// Draws one character of `pool` and appends it to `buffer`. Fails, leaving
/// the buffer as it was, exactly when the pool is empty.
fn draw(pool: &Vec<char>, buffer: &mut Vec<char>, rng: &mut StdRng) -> (result: Result<
    (),
    GenerationError,
>)
    ensures
        pool@.len() == 0 ==> result == Err::<(), GenerationError>(GenerationError::EmptyCharset)
            && final(buffer)@ == old(buffer)@,
        pool@.len() > 0 ==> result is Ok && final(buffer)@.len() == old(buffer)@.len() + 1
            && final(buffer)@.drop_last() == old(buffer)@ && pool@.contains(
            final(buffer)@.last(),
        ),
{
    match pick(pool, rng) {
        Some(c) => {
            buffer.push(c);
            assert(buffer@.drop_last() == old(buffer)@);
            Ok(())
        },
        None => Err(GenerationError::EmptyCharset),
    }
}

/// A password with one more character is covered by a pool exactly when
/// the shorter one was or the pool holds the new character; it stays drawn
/// from a pool that holds the new character.
pub proof fn lemma_push(password: Seq<char>, c: char, pool: Seq<char>)
    ensures
        covers(password.push(c), pool) == (covers(password, pool) || pool.contains(c)),
        drawn_from(password, pool) && pool.contains(c) ==> drawn_from(password.push(c), pool),
{
    let longer = password.push(c);
    if covers(password, pool) {
        let i = choose|i: int| 0 <= i < password.len() && pool.contains(#[trigger] password[i]);
        assert(pool.contains(longer[i]));
    }
    if pool.contains(c) {
        assert(pool.contains(longer[password.len() as int]));
    }
    if covers(longer, pool) {
        let i = choose|i: int| 0 <= i < longer.len() && pool.contains(#[trigger] longer[i]);
        if i < password.len() {
            assert(pool.contains(password[i]));
        }
    }
}

/// One character of each required category, in the order lowercase,
/// uppercase, special, digits. Fails exactly when a required pool is empty.
fn draw_required(policy: &Policy, request: &GenerationRequest, rng: &mut StdRng) -> (result:
    Result<Vec<char>, GenerationError>)
    ensures
        policy@.lacks_required_pool(*request) ==> result == Err::<Vec<char>, GenerationError>(
            GenerationError::EmptyCharset,
        ),
        !policy@.lacks_required_pool(*request) ==> result is Ok && {
            let drawn = result->Ok_0@;
            &&& drawn.len() == request.required_categories()
            &&& drawn_from(drawn, policy@.charset_for(*request))
            &&& covers(drawn, policy@.lowercase)
            &&& request.include_uppercase ==> covers(drawn, policy@.uppercase)
            &&& request.include_special ==> covers(drawn, policy@.special)
            &&& request.include_numbers ==> covers(drawn, policy@.digits)
        },
{
    let ghost merged = policy@.charset_for(*request);
    proof {
        policy@.lemma_charset_members(*request);
    }
    let mut buffer: Vec<char> = Vec::new();
    match draw(&policy.lowercase, &mut buffer, rng) {
        Ok(()) => {},
        Err(e) => {
            return Err(e);
        },
    }
    proof {
        let c = buffer@.last();
        assert(buffer@ == Seq::<char>::empty().push(c));
        lemma_push(Seq::empty(), c, policy@.lowercase);
        lemma_push(Seq::empty(), c, merged);
    }
    if request.include_uppercase {
        let ghost before = buffer@;
        match draw(&policy.uppercase, &mut buffer, rng) {
            Ok(()) => {},
            Err(e) => {
                return Err(e);
            },
        }
        proof {
            let c = buffer@.last();
            assert(buffer@ == before.push(c));
            lemma_push(before, c, policy@.lowercase);
            lemma_push(before, c, policy@.uppercase);
            lemma_push(before, c, merged);
        }
    }
    if request.include_special {
        let ghost before = buffer@;
        match draw(&policy.special, &mut buffer, rng) {
            Ok(()) => {},
            Err(e) => {
                return Err(e);
            },
        }
        proof {
            let c = buffer@.last();
            assert(buffer@ == before.push(c));
            lemma_push(before, c, policy@.lowercase);
            lemma_push(before, c, policy@.uppercase);
            lemma_push(before, c, policy@.special);
            lemma_push(before, c, merged);
        }
    }
    if request.include_numbers {
        let ghost before = buffer@;
        match draw(&policy.digits, &mut buffer, rng) {
            Ok(()) => {},
            Err(e) => {
                return Err(e);
            },
        }
        proof {
            let c = buffer@.last();
            assert(buffer@ == before.push(c));
            lemma_push(before, c, policy@.lowercase);
            lemma_push(before, c, policy@.uppercase);
            lemma_push(before, c, policy@.special);
            lemma_push(before, c, policy@.digits);
            lemma_push(before, c, merged);
        }
    }
    Ok(buffer)
}

/// Appends draws from `charset` until `buffer` holds `length` characters.
/// Fails exactly when a draw is needed and the charset is empty.
fn fill(buffer: &mut Vec<char>, charset: &Vec<char>, length: usize, rng: &mut StdRng) -> (result:
    Result<(), GenerationError>)
    requires
        old(buffer)@.len() <= length,
    ensures
        result is Err <==> charset@.len() == 0 && old(buffer)@.len() < length,
        result is Err ==> result == Err::<(), GenerationError>(GenerationError::EmptyCharset),
        result is Ok ==> {
            &&& final(buffer)@.len() == length
            &&& final(buffer)@.take(old(buffer)@.len() as int) == old(buffer)@
            &&& forall|i: int|
                old(buffer)@.len() <= i < length ==> charset@.contains(#[trigger] final(buffer)@[i])
        },
{
    while buffer.len() < length
        invariant
            old(buffer)@.len() <= buffer@.len() <= length,
            charset@.len() == 0 ==> buffer@.len() == old(buffer)@.len(),
            buffer@.take(old(buffer)@.len() as int) == old(buffer)@,
            forall|i: int|
                old(buffer)@.len() <= i < buffer@.len() ==> charset@.contains(#[trigger] buffer@[i]),
        decreases length - buffer.len(),
    {
        let ghost before = buffer@;
        match draw(charset, buffer, rng) {
            Ok(()) => {},
            Err(e) => {
                return Err(e);
            },
        }
        proof {
            assert(buffer@ == before.push(buffer@.last()));
            assert(buffer@.take(old(buffer)@.len() as int) == before.take(
                old(buffer)@.len() as int,
            ));
        }
    }
    assert(buffer@.take(buffer@.len() as int) == buffer@);
    Ok(())
}

/// Builds a password of `length` characters from the pools of `policy` and
/// the merged pool `charset`: one draw from each required pool, the rest
/// from the merged pool in an arbitrary order of its own, then a shuffle of
/// the whole.
fn assemble(
    policy: &Policy,
    request: &GenerationRequest,
    length: usize,
    charset: Vec<char>,
    rng: &mut StdRng,
) -> (result: Result<String, GenerationError>)
    requires
        length == policy@.validated_length(request.length),
        charset@ == policy@.charset_for(*request),
    ensures
        match policy@.rejection(*request) {
            Some(error) => result == Err::<String, GenerationError>(error),
            None => result is Ok && policy@.acceptable(*request, result->Ok_0@),
        },
{
    let ghost merged = charset@;
    let mut charset = charset;
    shuffle(&mut charset, rng);
    proof {
        lemma_same_members(merged, charset@);
    }
    let mut buffer = match draw_required(policy, request, rng) {
        Ok(drawn) => drawn,
        Err(e) => {
            return Err(e);
        },
    };
    if length < buffer.len() {
        return Err(GenerationError::LengthTooShortForCategories);
    }
    let ghost required = buffer@;
    match fill(&mut buffer, &charset, length, rng) {
        Ok(()) => {},
        Err(e) => {
            return Err(e);
        },
    }
    let ghost filled = buffer@;
    proof {
        assert(drawn_from(filled, merged)) by {
            assert forall|i: int| 0 <= i < filled.len() implies merged.contains(
                #[trigger] filled[i],
            ) by {
                if i < required.len() {
                    assert(filled[i] == required[i]);
                }
            }
        }
        lemma_prefix_covered(required, filled, policy@.lowercase);
        lemma_prefix_covered(required, filled, policy@.uppercase);
        lemma_prefix_covered(required, filled, policy@.special);
        lemma_prefix_covered(required, filled, policy@.digits);
    }
    shuffle(&mut buffer, rng);
    proof {
        lemma_same_members(filled, buffer@);
        lemma_password_order_is_irrelevant(filled, buffer@, merged);
        lemma_password_order_is_irrelevant(filled, buffer@, policy@.lowercase);
        lemma_password_order_is_irrelevant(filled, buffer@, policy@.uppercase);
        lemma_password_order_is_irrelevant(filled, buffer@, policy@.special);
        lemma_password_order_is_irrelevant(filled, buffer@, policy@.digits);
    }
    Ok(string_of(&buffer))
}

/// What covers a prefix covers the whole.
proof fn lemma_prefix_covered(prefix: Seq<char>, whole: Seq<char>, pool: Seq<char>)
    requires
        prefix.len() <= whole.len(),
        whole.take(prefix.len() as int) == prefix,
    ensures
        covers(prefix, pool) ==> covers(whole, pool),
{
    if covers(prefix, pool) {
        let i = choose|i: int| 0 <= i < prefix.len() && pool.contains(#[trigger] prefix[i]);
        assert(whole[i] == whole.take(prefix.len() as int)[i]);
        assert(pool.contains(whole[i]));
    }
}

/// Generates a password for `request` under `policy`, drawing from `rng`.
///
/// Fails with `EmptyCharset` exactly when a required category has an empty
/// pool; otherwise with `LengthTooShortForCategories` exactly when the
/// validated length is smaller than the number of required categories.
/// Every password returned has the validated length, consists of characters
/// of the merged pool, and holds a character of each required category.
/// Which of these passwords is returned depends on `rng` alone.
pub fn generate_with(policy: &Policy, request: &GenerationRequest, rng: &mut StdRng) -> (result:
    Result<String, GenerationError>)
    ensures
        match policy@.rejection(*request) {
            Some(error) => result == Err::<String, GenerationError>(error),
            None => result is Ok && policy@.acceptable(*request, result->Ok_0@),
        },
{
    let length: usize = policy.validate_length(request.length) as usize;
    let charset = match policy.build_charset(
        request.include_uppercase,
        request.include_special,
        request.include_numbers,
    ) {
        Ok(merged) => merged,
        Err(e) => {
            return Err(e);
        },
    };
    assemble(policy, request, length, charset, rng)
}

/// Generates a password for `request` under `policy`, drawing from a
/// generator seeded for this call. Fails and succeeds as [`generate_with`]
/// does.
pub fn generate(policy: &Policy, request: &GenerationRequest) -> (result: Result<
    String,
    GenerationError,
>)
    ensures
        match policy@.rejection(*request) {
            Some(error) => result == Err::<String, GenerationError>(error),
            None => result is Ok && policy@.acceptable(*request, result->Ok_0@),
        },
{
    let mut rng = fresh_generator();
    generate_with(policy, request, &mut rng)
}

/// Generates a password under the standard policy. Never fails.
///
/// The password has the requested length if that lies from 8 to 128 and 16
/// characters otherwise; it consists of lowercase letters and characters of
/// the enabled categories, and holds a lowercase letter and a character of
/// each enabled category.
pub fn compute_password(args_length: u32, up_chars: bool, spec_chars: bool, num_chars: bool) -> (password:
    String)
    ensures
        PolicySpec::standard().acceptable(
            (GenerationRequest {
                length: args_length,
                include_uppercase: up_chars,
                include_special: spec_chars,
                include_numbers: num_chars,
            }),
            password@,
        ),
        MIN_LENGTH <= args_length <= MAX_LENGTH ==> password@.len() == args_length,
        !(MIN_LENGTH <= args_length <= MAX_LENGTH) ==> password@.len() == DEFAULT_LENGTH,
{
    let request = GenerationRequest {
        length: args_length,
        include_uppercase: up_chars,
        include_special: spec_chars,
        include_numbers: num_chars,
    };
    let policy = Policy::standard();
    let length: usize = set_length(args_length) as usize;
    let charset = create_charset(up_chars, spec_chars, num_chars);
    let charset = chars_of(charset.as_str());
    let mut rng = fresh_generator();
    proof {
        lemma_standard_policy_serves_every_request(request);
    }
    match assemble(&policy, &request, length, charset, &mut rng) {
        Ok(password) => password,
        Err(_) => unreached(),
    }
}

} // verus!
