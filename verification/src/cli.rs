//! The authentication commands of the command line: making a password hash.
use vstd::prelude::*;
use vstd::string::*;
use argon2::PasswordHasher;
use crate::auth::{argon2_verdict, Password};

verus! {

/// Whether `c` is white space as Unicode's `White_Space` property defines it.
pub open spec fn is_white_space(c: char) -> bool {
    ('\u{9}' <= c <= '\u{d}') || c == ' ' || c == '\u{85}' || c == '\u{a0}' || c == '\u{1680}'
        || ('\u{2000}' <= c <= '\u{200a}') || c == '\u{2028}' || c == '\u{2029}' || c == '\u{202f}'
        || c == '\u{205f}' || c == '\u{3000}'
}

fn is_white_space_char(c: char) -> (r: bool)
    ensures
        r == is_white_space(c),
{
    ('\u{9}' <= c && c <= '\u{d}') || c == ' ' || c == '\u{85}' || c == '\u{a0}' || c == '\u{1680}'
        || ('\u{2000}' <= c && c <= '\u{200a}') || c == '\u{2028}' || c == '\u{2029}' || c == '\u{202f}'
        || c == '\u{205f}' || c == '\u{3000}'
}

/// Whether `s[from..to]` is `s` without its leading and trailing white space.
pub open spec fn is_trimmed_range(s: Seq<char>, from: int, to: int) -> bool {
    &&& 0 <= from <= to <= s.len()
    &&& forall|i: int| 0 <= i < from ==> is_white_space(#[trigger] s[i])
    &&& forall|i: int| to <= i < s.len() ==> is_white_space(#[trigger] s[i])
    &&& from < to ==> !is_white_space(s[from]) && !is_white_space(s[to - 1])
}

/// `s` without leading and trailing white space.
pub open spec fn trim_spec(s: Seq<char>) -> Seq<char> {
    let (from, to) = choose|from: int, to: int| is_trimmed_range(s, from, to);
    s.subrange(from, to)
}

proof fn lemma_trim_unique(s: Seq<char>, from: int, to: int)
    requires
        is_trimmed_range(s, from, to),
    ensures
        trim_spec(s) == s.subrange(from, to),
{
    let (f, t) = choose|f: int, t: int| is_trimmed_range(s, f, t);
    assert(is_trimmed_range(s, f, t));
    if from < to && f < t {
        assert(f == from) by {
            if f < from {
                assert(is_white_space(s[f]));
            } else if from < f {
                assert(is_white_space(s[from]));
            }
        }
        assert(t == to) by {
            if t < to {
                assert(is_white_space(s[to - 1]));
            } else if to < t {
                assert(is_white_space(s[t - 1]));
            }
        }
    } else if from < to {
        // f == t: every character is white space, which s[from] is not.
        if from < f {
            assert(is_white_space(s[from]));
        } else {
            assert(is_white_space(s[from]));
        }
    } else if f < t {
        if f < from {
            assert(is_white_space(s[f]));
        } else {
            assert(is_white_space(s[f]));
        }
    }
    assert(s.subrange(f, t) =~= s.subrange(from, to));
}

/// `s` without leading and trailing white space.
pub fn trim(s: &str) -> (r: &str)
    ensures
        r@ == trim_spec(s@),
{
    let n = s.unicode_len();
    let mut from: usize = 0;
    while from < n && is_white_space_char(s.get_char(from))
        invariant
            n == s@.len(),
            from <= n,
            forall|i: int| 0 <= i < from ==> is_white_space(#[trigger] s@[i]),
        decreases n - from,
    {
        from = from + 1;
    }
    let mut to: usize = n;
    while to > from && is_white_space_char(s.get_char(to - 1))
        invariant
            n == s@.len(),
            from <= to <= n,
            forall|i: int| 0 <= i < from ==> is_white_space(#[trigger] s@[i]),
            from < n ==> !is_white_space(s@[from as int]),
            forall|i: int| to <= i < n ==> is_white_space(#[trigger] s@[i]),
        decreases to - from,
    {
        to = to - 1;
    }
    proof {
        assert(is_trimmed_range(s@, from as int, to as int));
        lemma_trim_unique(s@, from as int, to as int);
    }
    s.substring_char(from, to)
}

/// Hashes `password` with Argon2's default parameters and a random salt
/// (`PasswordHasher::hash_password` of `argon2::Argon2::default()`), as a PHC
/// string. Claimed: a hash that comes back verifies `password`; the salt, and so
/// the string itself, is left open.
#[verifier::external_body]
fn argon2_hash(password: &str) -> (r: Result<String, argon2::password_hash::Error>)
    ensures
        r matches Ok(h) ==> argon2_verdict(password@, h@) == Some(true),
{
    match argon2::Argon2::default().hash_password(password.as_bytes()) {
        Ok(h) => Ok(h.to_string()),
        Err(e) => Err(e),
    }
}

/// Why no password hash was made.
#[derive(Debug)]
pub enum GenerateError {
    /// Only white space was entered.
    EmptyPassword,
    /// The hashing library failed.
    Hash(argon2::password_hash::Error),
}

/// The authentication commands.
#[derive(Clone, Copy, Debug, PartialEq, Eq, Structural)]
pub enum Commands {
    /// Generates a new password hash.
    Generate,
}

impl Commands {
    /// The hash that `Generate` prints for the line `entered`: the line without
    /// surrounding white space is the password, which must not be empty.
    pub fn generate(entered: &str) -> (r: Result<String, GenerateError>)
        ensures
            trim_spec(entered@).len() == 0 <==> r matches Err(GenerateError::EmptyPassword),
            r matches Ok(h) ==> Password::Hashed(h).verdict(trim_spec(entered@)) == Some(true),
    {
        let password = trim(entered);
        if password.unicode_len() == 0 {
            return Err(GenerateError::EmptyPassword);
        }
        match argon2_hash(password) {
            Ok(h) => Ok(h),
            Err(e) => Err(GenerateError::Hash(e)),
        }
    }
}

proof fn lemma_trim_exists(s: Seq<char>)
    ensures
        exists|from: int, to: int| is_trimmed_range(s, from, to),
    decreases s.len(),
{
    if s.len() == 0 {
        assert(is_trimmed_range(s, 0, 0));
    } else if is_white_space(s[0]) {
        let r = s.drop_first();
        lemma_trim_exists(r);
        let (f, t) = choose|f: int, t: int| is_trimmed_range(r, f, t);
        assert(is_trimmed_range(s, f + 1, t + 1)) by {
            assert forall|i: int| 0 <= i < f + 1 implies is_white_space(#[trigger] s[i]) by {
                if i > 0 {
                    assert(s[i] == r[i - 1]);
                }
            }
            assert forall|i: int| t + 1 <= i < s.len() implies is_white_space(#[trigger] s[i]) by {
                assert(s[i] == r[i - 1]);
            }
            if f < t {
                assert(s[f + 1] == r[f]);
                assert(s[t] == r[t - 1]);
            }
        }
    } else if is_white_space(s.last()) {
        let r = s.drop_last();
        lemma_trim_exists(r);
        let (f, t) = choose|f: int, t: int| is_trimmed_range(r, f, t);
        assert(is_trimmed_range(s, f, t)) by {
            assert forall|i: int| 0 <= i < f implies is_white_space(#[trigger] s[i]) by {
                assert(s[i] == r[i]);
            }
            assert forall|i: int| t <= i < s.len() implies is_white_space(#[trigger] s[i]) by {
                if i < s.len() - 1 {
                    assert(s[i] == r[i]);
                }
            }
            if f < t {
                assert(s[f] == r[f]);
                assert(s[t - 1] == r[t - 1]);
            }
        }
    } else {
        assert(is_trimmed_range(s, 0, s.len() as int));
    }
}

/// Trimming twice is trimming once.
pub proof fn law_trim_is_idempotent(s: Seq<char>)
    ensures
        trim_spec(trim_spec(s)) == trim_spec(s),
{
    let (from, to) = choose|from: int, to: int| is_trimmed_range(s, from, to);
    lemma_trim_exists(s);
    let t = trim_spec(s);
    assert(t == s.subrange(from, to));
    assert(is_trimmed_range(t, 0, t.len() as int)) by {
        if t.len() > 0 {
            assert(t[0] == s[from]);
            assert(t[t.len() - 1] == s[to - 1]);
        }
    }
    lemma_trim_unique(t, 0, t.len() as int);
    assert(t.subrange(0, t.len() as int) =~= t);
}

} // verus!
