//! Building the sampling pool from a configuration, and drawing passwords
//! from it by rejection sampling.

use crate::charsets::{
    lemma_alphabets_disjoint, LOWERCASE_CHARSET, NUMBERS, SYMBOLS, UPPERCASE_CHARSET,
};
use crate::helpers::{
    check_includes_lowercase, check_includes_number, check_includes_symbols,
    check_includes_uppercase, has_class, has_digit, has_lowercase, has_symbol, has_uppercase,
    in_class, CharacterClass,
};
use rand::Rng;
use vstd::prelude::*;
use vstd::string::{StrSliceExecFns, StringExecFns};

verus! {

/// How many candidates are drawn before generation gives up.
pub const MAX_ATTEMPTS: u64 = 1_000_000;

/// What to generate: a length and the classes that must each appear.
#[derive(Clone, Copy, Debug, PartialEq, Eq, Structural)]
pub struct Config {
    pub length: usize,
    pub include_number: bool,
    pub include_uppercase: bool,
    pub include_lowercase: bool,
    pub include_symbols: bool,
}

/// Why no password was generated.
#[derive(Clone, Copy, Debug, PartialEq, Eq, Structural)]
pub enum GenerateError {
    /// No class is enabled, or the length is shorter than the number of
    /// enabled classes, so no password can meet the configuration.
    InvalidConfiguration,
    /// Every candidate drawn within the attempt limit missed a required class.
    DegenerateRejectionLoop,
}

pub open spec fn class_enabled(c: Config, class: CharacterClass) -> bool {
    match class {
        CharacterClass::Digit => c.include_number,
        CharacterClass::Uppercase => c.include_uppercase,
        CharacterClass::Lowercase => c.include_lowercase,
        CharacterClass::Symbol => c.include_symbols,
    }
}

pub open spec fn flag_count(b: bool) -> nat {
    if b { 1 } else { 0 }
}

/// The number of enabled classes.
pub open spec fn enabled_count(c: Config) -> nat {
    flag_count(c.include_number) + flag_count(c.include_uppercase) + flag_count(
        c.include_lowercase,
    ) + flag_count(c.include_symbols)
}

/// Some password meets `c`: a class is enabled, and there is room for one
/// character of each enabled class.
pub open spec fn is_satisfiable(c: Config) -> bool {
    enabled_count(c) > 0 && c.length >= enabled_count(c)
}

pub open spec fn part_if(b: bool, s: Seq<char>) -> Seq<char> {
    if b { s } else { Seq::empty() }
}

/// The alphabets of the enabled classes, in the order digits, uppercase,
/// lowercase, symbols.
pub open spec fn charset_of(c: Config) -> Seq<char> {
    part_if(c.include_number, NUMBERS@) + part_if(c.include_uppercase, UPPERCASE_CHARSET@)
        + part_if(c.include_lowercase, LOWERCASE_CHARSET@) + part_if(c.include_symbols, SYMBOLS@)
}

/// `p` holds a character of every enabled class.
pub open spec fn satisfies(p: Seq<char>, c: Config) -> bool {
    &&& c.include_number ==> has_digit(p)
    &&& c.include_uppercase ==> has_uppercase(p)
    &&& c.include_lowercase ==> has_lowercase(p)
    &&& c.include_symbols ==> has_symbol(p)
}

/// `p` is an acceptable output for `c`: of the configured length, drawn from
/// the configured charset, and holding every enabled class.
pub open spec fn is_generated(p: Seq<char>, c: Config) -> bool {
    &&& p.len() == c.length
    &&& forall|i: int| 0 <= i < p.len() ==> charset_of(c).contains(#[trigger] p[i])
    &&& satisfies(p, c)
}

/// The characters of `charset` at the positions `idx`, in order.
pub open spec fn picked(charset: Seq<char>, idx: Seq<usize>) -> Seq<char> {
    Seq::new(idx.len(), |i: int| charset[idx[i] as int])
}

pub open spec fn indices_below(idx: Seq<usize>, n: int) -> bool {
    forall|i: int| 0 <= i < idx.len() ==> (#[trigger] idx[i]) < n
}

pub open spec fn or_true(o: Option<bool>) -> bool {
    match o {
        Some(b) => b,
        None => true,
    }
}

impl Config {
    /// A configuration in which each class left unspecified is enabled.
    pub fn new(
        length: usize,
        include_number: Option<bool>,
        include_uppercase: Option<bool>,
        include_lowercase: Option<bool>,
        include_symbols: Option<bool>,
    ) -> (r: Config)
        ensures
            r.length == length,
            r.include_number == or_true(include_number),
            r.include_uppercase == or_true(include_uppercase),
            r.include_lowercase == or_true(include_lowercase),
            r.include_symbols == or_true(include_symbols),
    {
        Config {
            length,
            include_number: include_number.unwrap_or(true),
            include_uppercase: include_uppercase.unwrap_or(true),
            include_lowercase: include_lowercase.unwrap_or(true),
            include_symbols: include_symbols.unwrap_or(true),
        }
    }
}

impl Default for Config {
    /// Eight characters, every class enabled.
    fn default() -> (r: Config)
        ensures
            r.length == 8,
            r.include_number,
            r.include_uppercase,
            r.include_lowercase,
            r.include_symbols,
    {
        Config {
            length: 8,
            include_number: true,
            include_uppercase: true,
            include_lowercase: true,
            include_symbols: true,
        }
    }
}

/// Concatenates the alphabets of the enabled classes of `config`.
pub fn create_charset(config: &Config) -> (r: String)
    ensures
        r@ == charset_of(*config),
{
    let mut charset = String::new();
    if config.include_number {
        charset.append(NUMBERS);
    }
    if config.include_uppercase {
        charset.append(UPPERCASE_CHARSET);
    }
    if config.include_lowercase {
        charset.append(LOWERCASE_CHARSET);
    }
    if config.include_symbols {
        charset.append(SYMBOLS);
    }
    assert(charset@ =~= charset_of(*config));
    charset
}

/// Whether `password` holds a character of every class enabled in `config`.
pub fn validate_password(password: &str, config: &Config) -> (r: bool)
    ensures
        r == satisfies(password@, *config),
{
    (!config.include_number || check_includes_number(password)) && (!config.include_uppercase
        || check_includes_uppercase(password)) && (!config.include_lowercase
        || check_includes_lowercase(password)) && (!config.include_symbols
        || check_includes_symbols(password))
}

/// rand's thread-local generator, carried through as an opaque value.
#[verifier::external_type_specification]
#[verifier::external_body]
pub struct ExThreadRng(rand::rngs::ThreadRng);

/// Relies on rand::thread_rng: hands out the generator of the current thread,
/// seeded by the system. Nothing is promised of what it will draw.
pub assume_specification[ rand::thread_rng ]() -> rand::rngs::ThreadRng;

/// Relies on rand::Rng::gen_range: a value drawn uniformly from `0..n`. It
/// panics on an empty range, which `requires` rules out.
#[verifier::external_body]
fn draw_index(rng: &mut rand::rngs::ThreadRng, n: usize) -> (r: usize)
    requires
        n > 0,
    ensures
        r < n,
{
    rng.gen_range(0..n)
}

/// Draws `length` positions of a pool of `n` characters, with replacement.
fn draw_indices(rng: &mut rand::rngs::ThreadRng, n: usize, length: usize) -> (r: Vec<usize>)
    requires
        n > 0,
    ensures
        r@.len() == length,
        indices_below(r@, n as int),
{
    let mut indices: Vec<usize> = Vec::with_capacity(length);
    let mut i: usize = 0;
    while i < length
        invariant
            n > 0,
            i <= length,
            indices@.len() == i,
            indices_below(indices@, n as int),
        decreases length - i,
    {
        let k = draw_index(rng, n);
        indices.push(k);
        i = i + 1;
    }
    indices
}

/// The password made of the characters of `charset` at the positions
/// `indices`, in order.
pub fn password_from_indices(charset: &str, indices: &Vec<usize>) -> (r: String)
    requires
        indices_below(indices@, charset@.len() as int),
    ensures
        r@ == picked(charset@, indices@),
{
    let n = charset.unicode_len();
    let mut password = String::new();
    let mut i: usize = 0;
    while i < indices.len()
        invariant
            n == charset@.len(),
            i <= indices@.len(),
            indices_below(indices@, charset@.len() as int),
            password@ =~= picked(charset@, indices@.subrange(0, i as int)),
        decreases indices@.len() - i,
    {
        let k = indices[i];
        password.append(charset.substring_char(k, k + 1));
        i = i + 1;
        assert(password@ =~= picked(charset@, indices@.subrange(0, i as int)));
    }
    assert(indices@.subrange(0, i as int) =~= indices@);
    password
}

/// One round of rejection sampling: the candidate that `indices` pick out of
/// `charset`, if it holds every class enabled in `config`.
pub fn accept_candidate(config: &Config, charset: &str, indices: &Vec<usize>) -> (r: Option<
    String,
>)
    requires
        indices_below(indices@, charset@.len() as int),
    ensures
        r is Some <==> satisfies(picked(charset@, indices@), *config),
        r matches Some(p) ==> p@ == picked(charset@, indices@),
{
    let candidate = password_from_indices(charset, indices);
    if validate_password(candidate.as_str(), config) {
        Some(candidate)
    } else {
        None
    }
}

/// The number of classes enabled in `config`.
pub fn count_enabled(config: &Config) -> (r: usize)
    ensures
        r == enabled_count(*config),
{
    let mut n: usize = 0;
    if config.include_number {
        n = n + 1;
    }
    if config.include_uppercase {
        n = n + 1;
    }
    if config.include_lowercase {
        n = n + 1;
    }
    if config.include_symbols {
        n = n + 1;
    }
    n
}

/// What one round of rejection sampling decides.
#[derive(Debug, PartialEq, Eq)]
pub enum SampleOutcome {
    /// The candidate holds every enabled class.
    Accepted(String),
    /// The candidate was rejected; draw another.
    Retry,
    /// The candidate was rejected and it was the last one allowed.
    GiveUp,
}

/// Decides round `attempt` (counted from zero) on the candidate that
/// `indices` pick out of `charset`: keep it if it holds every class enabled in
/// `config`, else draw again, unless `MAX_ATTEMPTS` candidates have now been
/// rejected.
pub fn sampling_step(config: &Config, charset: &str, attempt: u64, indices: &Vec<usize>) -> (r:
    SampleOutcome)
    requires
        attempt < MAX_ATTEMPTS,
        indices_below(indices@, charset@.len() as int),
    ensures
        satisfies(picked(charset@, indices@), *config) ==> (r matches SampleOutcome::Accepted(p)
            && p@ == picked(charset@, indices@)),
        !satisfies(picked(charset@, indices@), *config) && attempt + 1 < MAX_ATTEMPTS ==> r
            is Retry,
        !satisfies(picked(charset@, indices@), *config) && attempt + 1 >= MAX_ATTEMPTS ==> r
            is GiveUp,
{
    match accept_candidate(config, charset, indices) {
        Some(password) => SampleOutcome::Accepted(password),
        None => {
            if attempt + 1 < MAX_ATTEMPTS {
                SampleOutcome::Retry
            } else {
                SampleOutcome::GiveUp
            }
        },
    }
}

/// Draws candidates of `config.length` characters from `charset`, each
/// position uniformly and independently, until one holds every class enabled
/// in `config`. An empty charset, or a configuration that no password meets,
/// is refused up front; after `MAX_ATTEMPTS` rejected candidates generation
/// gives up. Where `charset` is the one built from `config` and a single class
/// is enabled, the first candidate is always kept.
pub fn create_password(config: &Config, charset: &str) -> (r: Result<String, GenerateError>)
    ensures
        (r == Err::<String, GenerateError>(GenerateError::InvalidConfiguration)) <==> (
        charset@.len() == 0 || !is_satisfiable(*config)),
        r matches Ok(p) ==> {
            &&& p@.len() == config.length
            &&& forall|i: int| 0 <= i < p@.len() ==> charset@.contains(#[trigger] p@[i])
            &&& satisfies(p@, *config)
        },
        charset@ == charset_of(*config) ==> (r matches Ok(p) ==> is_generated(p@, *config)),
        charset@ == charset_of(*config) && enabled_count(*config) == 1 && config.length >= 1
            ==> r is Ok,
{
    let n = charset.unicode_len();
    proof {
        if charset@ == charset_of(*config) && is_satisfiable(*config) {
            lemma_satisfiable_charset_nonempty(*config);
        }
    }
    if n == 0 || count_enabled(config) == 0 || config.length < count_enabled(config) {
        return Err(GenerateError::InvalidConfiguration);
    }
    let ghost single = charset@ == charset_of(*config) && enabled_count(*config) == 1;
    let mut rng = rand::thread_rng();
    let mut attempt: u64 = 0;
    while attempt < MAX_ATTEMPTS
        invariant
            n == charset@.len(),
            n > 0,
            is_satisfiable(*config),
            single == (charset@ == charset_of(*config) && enabled_count(*config) == 1),
            single ==> attempt == 0,
        decreases MAX_ATTEMPTS - attempt,
    {
        let indices = draw_indices(&mut rng, n, config.length);
        proof {
            lemma_picked_from(charset@, indices@);
            if single {
                lemma_single_class_always_accepted(picked(charset@, indices@), *config);
            }
        }
        match sampling_step(config, charset, attempt, &indices) {
            SampleOutcome::Accepted(password) => {
                return Ok(password);
            },
            SampleOutcome::Retry => {},
            SampleOutcome::GiveUp => {
                return Err(GenerateError::DegenerateRejectionLoop);
            },
        }
        attempt = attempt + 1;
    }
    Err(GenerateError::DegenerateRejectionLoop)
}

/// With a single class enabled, every nonempty password drawn from the
/// charset holds that class.
proof fn lemma_single_class_always_accepted(p: Seq<char>, c: Config)
    requires
        enabled_count(c) == 1,
        p.len() >= 1,
        forall|i: int| 0 <= i < p.len() ==> charset_of(c).contains(#[trigger] p[i]),
    ensures
        satisfies(p, c),
{
    lemma_alphabets_disjoint();
    let cs = charset_of(c);
    assert(cs.contains(p[0]));
    let k = choose|k: int| 0 <= k < cs.len() && cs[k] == p[0];
    if c.include_number {
        assert(cs =~= NUMBERS@);
        assert(in_class(p[0], CharacterClass::Digit));
    } else if c.include_uppercase {
        assert(cs =~= UPPERCASE_CHARSET@);
        assert(in_class(p[0], CharacterClass::Uppercase));
    } else if c.include_lowercase {
        assert(cs =~= LOWERCASE_CHARSET@);
        assert(in_class(p[0], CharacterClass::Lowercase));
    } else {
        assert(cs =~= SYMBOLS@);
        assert(in_class(p[0], CharacterClass::Symbol));
    }
}

/// A configuration that some password meets has a nonempty charset.
proof fn lemma_satisfiable_charset_nonempty(c: Config)
    requires
        is_satisfiable(c),
    ensures
        charset_of(c).len() > 0,
{
    reveal_strlit("0123456789");
    reveal_strlit("ABCDEFGHIJKLMNOPQRSTUVWXYZ");
    reveal_strlit("abcdefghijklmnopqrstuvwxyz");
    reveal_strlit("!@#$%^&*()-_=+[]{};:,.<>/?~|");
}

/// Every character picked out of `charset` is one of its members.
proof fn lemma_picked_from(charset: Seq<char>, idx: Seq<usize>)
    requires
        indices_below(idx, charset.len() as int),
    ensures
        forall|i: int|
            0 <= i < idx.len() ==> charset.contains(#[trigger] picked(charset, idx)[i]),
{
    assert forall|i: int| 0 <= i < idx.len() implies charset.contains(
        #[trigger] picked(charset, idx)[i],
    ) by {
        assert(idx[i] < charset.len());
        assert(charset[idx[i] as int] == picked(charset, idx)[i]);
    }
}

/// Generates a password of `length` characters; each class left unspecified
/// is required.
pub fn generate(
    length: usize,
    include_number: Option<bool>,
    include_uppercase: Option<bool>,
    include_lowercase: Option<bool>,
    include_symbols: Option<bool>,
) -> (r: Result<String, GenerateError>)
    ensures
        ({
            let c = Config {
                length,
                include_number: or_true(include_number),
                include_uppercase: or_true(include_uppercase),
                include_lowercase: or_true(include_lowercase),
                include_symbols: or_true(include_symbols),
            };
            &&& (r == Err::<String, GenerateError>(GenerateError::InvalidConfiguration))
                <==> !is_satisfiable(c)
            &&& r matches Ok(p) ==> is_generated(p@, c)
            &&& enabled_count(c) == 1 && length >= 1 ==> r is Ok
        }),
{
    let config = Config::new(
        length,
        include_number,
        include_uppercase,
        include_lowercase,
        include_symbols,
    );
    let charset = create_charset(&config);
    proof {
        if is_satisfiable(config) {
            lemma_satisfiable_charset_nonempty(config);
        }
    }
    create_password(&config, charset.as_str())
}

/// A character of the charset of `c` belongs only to classes that `c` enables.
proof fn lemma_charset_member_class(c: Config, ch: char, class: CharacterClass)
    requires
        charset_of(c).contains(ch),
        in_class(ch, class),
    ensures
        class_enabled(c, class),
{
    lemma_alphabets_disjoint();
    let a = part_if(c.include_number, NUMBERS@);
    let b = part_if(c.include_uppercase, UPPERCASE_CHARSET@);
    let d = part_if(c.include_lowercase, LOWERCASE_CHARSET@);
    let e = part_if(c.include_symbols, SYMBOLS@);
    let k = choose|k: int| 0 <= k < charset_of(c).len() && charset_of(c)[k] == ch;
    assert(charset_of(c) == a + b + d + e);
    if k < a.len() {
        assert(ch == NUMBERS@[k]);
    } else if k < a.len() + b.len() {
        assert(ch == UPPERCASE_CHARSET@[k - a.len()]);
    } else if k < a.len() + b.len() + d.len() {
        assert(ch == LOWERCASE_CHARSET@[k - a.len() - b.len()]);
    } else {
        assert(ch == SYMBOLS@[k - a.len() - b.len() - d.len()]);
    }
}

/// A generated password holds a character of a class exactly when the
/// configuration enables that class: enabled classes by the check on each
/// candidate, disabled ones because the alphabets are disjoint.
pub proof fn lemma_generated_classes(p: Seq<char>, c: Config, class: CharacterClass)
    requires
        is_generated(p, c),
    ensures
        has_class(p, class) <==> class_enabled(c, class),
{
    if has_class(p, class) {
        let i = choose|i: int| 0 <= i < p.len() && in_class(#[trigger] p[i], class);
        lemma_charset_member_class(c, p[i], class);
    }
}

/// The charset depends on which classes are enabled and on nothing else, so
/// building it twice from one configuration gives the same pool.
pub proof fn lemma_charset_deterministic(c1: Config, c2: Config)
    requires
        c1.include_number == c2.include_number,
        c1.include_uppercase == c2.include_uppercase,
        c1.include_lowercase == c2.include_lowercase,
        c1.include_symbols == c2.include_symbols,
    ensures
        charset_of(c1) == charset_of(c2),
{
}

/// One representative of each enabled class, followed by copies of the first
/// character of the charset up to `c.length`.
pub open spec fn witness_password(c: Config) -> Seq<char> {
    let reps = part_if(c.include_number, seq!['0']) + part_if(c.include_uppercase, seq!['A'])
        + part_if(c.include_lowercase, seq!['a']) + part_if(c.include_symbols, seq!['!']);
    reps + Seq::new((c.length - reps.len()) as nat, |i: int| charset_of(c)[0])
}

/// Every configuration that passes the up-front check is met by some
/// password, so rejection sampling is never asked for the impossible.
pub proof fn lemma_satisfiable_has_password(c: Config)
    requires
        is_satisfiable(c),
    ensures
        is_generated(witness_password(c), c),
{
    reveal_strlit("0123456789");
    reveal_strlit("ABCDEFGHIJKLMNOPQRSTUVWXYZ");
    reveal_strlit("abcdefghijklmnopqrstuvwxyz");
    reveal_strlit("!@#$%^&*()-_=+[]{};:,.<>/?~|");
    lemma_satisfiable_charset_nonempty(c);
    let a = part_if(c.include_number, NUMBERS@);
    let b = part_if(c.include_uppercase, UPPERCASE_CHARSET@);
    let d = part_if(c.include_lowercase, LOWERCASE_CHARSET@);
    let e = part_if(c.include_symbols, SYMBOLS@);
    let cs = charset_of(c);
    assert(cs == a + b + d + e);
    let ra = part_if(c.include_number, seq!['0']);
    let rb = part_if(c.include_uppercase, seq!['A']);
    let rd = part_if(c.include_lowercase, seq!['a']);
    let re = part_if(c.include_symbols, seq!['!']);
    let reps = ra + rb + rd + re;
    assert(reps.len() == enabled_count(c));
    let p = witness_password(c);
    assert(p.len() == c.length);
    if c.include_number {
        assert(cs[0] == '0');
        assert(cs.contains('0'));
        assert(p[0] == '0');
        assert(in_class(p[0], CharacterClass::Digit));
    }
    if c.include_uppercase {
        let k = a.len() as int;
        assert(cs[k] == 'A');
        assert(cs.contains('A'));
        assert(p[ra.len() as int] == 'A');
        assert(in_class(p[ra.len() as int], CharacterClass::Uppercase));
    }
    if c.include_lowercase {
        let k = (a.len() + b.len()) as int;
        assert(cs[k] == 'a');
        assert(cs.contains('a'));
        assert(p[(ra.len() + rb.len()) as int] == 'a');
        assert(in_class(p[(ra.len() + rb.len()) as int], CharacterClass::Lowercase));
    }
    if c.include_symbols {
        let k = (a.len() + b.len() + d.len()) as int;
        assert(cs[k] == '!');
        assert(cs.contains('!'));
        assert(p[(ra.len() + rb.len() + rd.len()) as int] == '!');
        assert(SYMBOLS@.contains('!')) by {
            assert(SYMBOLS@[0] == '!');
        }
        assert(in_class(p[(ra.len() + rb.len() + rd.len()) as int], CharacterClass::Symbol));
    }
    assert(cs.contains(cs[0]));
    assert forall|i: int| 0 <= i < p.len() implies cs.contains(#[trigger] p[i]) by {
        if i >= reps.len() {
            assert(p[i] == cs[0]);
        } else if i < ra.len() {
            assert(p[i] == '0');
        } else if i < ra.len() + rb.len() {
            assert(p[i] == 'A');
        } else if i < ra.len() + rb.len() + rd.len() {
            assert(p[i] == 'a');
        } else {
            assert(p[i] == '!');
        }
    }
}

} // verus!
