//! The JSON-file history backend's configuration and how it lays out files.
use vstd::prelude::*;
use crate::strutil::{replace, replace_spec, to_owned};

verus! {

/// A token that stands in for `/` while `.` and `/` are swapped.
pub const SLASH_REPLACEMENT_TOKEN: &'static str = "ThisTokenWillNeverExistInTheWild";

/// The directory path of an attribute's history: `/` and `.` swapped, by way of
/// the replacement token (which therefore also becomes `.` where an id holds it).
pub open spec fn attr_path_spec(id: Seq<char>) -> Seq<char> {
    replace_spec(
        replace_spec(replace_spec(id, "/"@, SLASH_REPLACEMENT_TOKEN@), "."@, "/"@),
        SLASH_REPLACEMENT_TOKEN@,
        "."@,
    )
}

/// Character `i` of [`SLASH_REPLACEMENT_TOKEN`].
pub open spec fn token_char(i: int) -> char {
    if i == 0 {
        'T'
    } else if i == 1 {
        'h'
    } else if i == 2 {
        'i'
    } else if i == 3 {
        's'
    } else if i == 4 {
        'T'
    } else if i == 5 {
        'o'
    } else if i == 6 {
        'k'
    } else if i == 7 {
        'e'
    } else if i == 8 {
        'n'
    } else if i == 9 {
        'W'
    } else if i == 10 {
        'i'
    } else if i == 11 {
        'l'
    } else if i == 12 {
        'l'
    } else if i == 13 {
        'N'
    } else if i == 14 {
        'e'
    } else if i == 15 {
        'v'
    } else if i == 16 {
        'e'
    } else if i == 17 {
        'r'
    } else if i == 18 {
        'E'
    } else if i == 19 {
        'x'
    } else if i == 20 {
        'i'
    } else if i == 21 {
        's'
    } else if i == 22 {
        't'
    } else if i == 23 {
        'I'
    } else if i == 24 {
        'n'
    } else if i == 25 {
        'T'
    } else if i == 26 {
        'h'
    } else if i == 27 {
        'e'
    } else if i == 28 {
        'W'
    } else if i == 29 {
        'i'
    } else if i == 30 {
        'l'
    } else {
        'd'
    }
}

/// The characters of [`SLASH_REPLACEMENT_TOKEN`].
pub open spec fn token() -> Seq<char> {
    Seq::new(32, |i: int| token_char(i))
}

/// Whether the token, shifted by `j`, differs from itself where the two overlap.
spec fn shift_differs(j: int) -> bool {
    exists|k: int| 0 <= k < 32 - j && #[trigger] token()[k] != token()[j + k]
}

proof fn lemma_token_facts()
    ensures
        SLASH_REPLACEMENT_TOKEN@ == token(),
        token().len() == 32,
        token()[0] == 'T',
        forall|i: int| 0 <= i < 32 ==> #[trigger] token()[i] != '.' && token()[i] != '/',
        forall|j: int| 1 <= j < 32 ==> #[trigger] shift_differs(j),
{
    reveal_strlit("ThisTokenWillNeverExistInTheWild");
    assert(SLASH_REPLACEMENT_TOKEN@ =~= token());
    assert forall|j: int| 1 <= j < 32 implies #[trigger] shift_differs(j) by {
        if token_char(j) != 'T' {
            assert(token()[0] != token()[j + 0]);
        } else if j == 4 {
            assert(token()[1] != token()[j + 1]);
        } else {
            assert(j == 25);
            assert(token()[2] != token()[j + 2]);
        }
    }
}

/// Character `c` with `.` and `/` swapped.
pub open spec fn swap_char(c: char) -> char {
    if c == '.' {
        '/'
    } else if c == '/' {
        '.'
    } else {
        c
    }
}

/// `s` with every `.` made `/` and every `/` made `.`.
pub open spec fn swapped(s: Seq<char>) -> Seq<char> {
    s.map_values(|c: char| swap_char(c))
}

/// Whether `s` holds [`SLASH_REPLACEMENT_TOKEN`] somewhere.
pub open spec fn holds_token(s: Seq<char>) -> bool {
    exists|i: int| 0 <= i && i + 32 <= s.len() && #[trigger] s.subrange(i, i + 32) == SLASH_REPLACEMENT_TOKEN@
}

/// `s` with every `f` replaced by `to`, character by character.
spec fn subst_char(s: Seq<char>, f: char, to: Seq<char>) -> Seq<char>
    decreases s.len(),
{
    if s.len() == 0 {
        s
    } else {
        (if s[0] == f { to } else { seq![s[0]] }) + subst_char(s.drop_first(), f, to)
    }
}

/// `s` after the first two passes: every `/` the token, every `.` a `/`.
spec fn encoded(s: Seq<char>) -> Seq<char>
    decreases s.len(),
{
    if s.len() == 0 {
        s
    } else {
        (if s[0] == '/' { token() } else { seq![swap_char(s[0])] }) + encoded(s.drop_first())
    }
}

proof fn lemma_replace_single(s: Seq<char>, f: char, to: Seq<char>)
    ensures
        replace_spec(s, seq![f], to) == subst_char(s, f, to),
    decreases s.len(),
{
    if s.len() > 0 {
        lemma_replace_single(s.drop_first(), f, to);
        assert(s.skip(1) =~= s.drop_first());
        if s[0] == f {
            assert(seq![f].is_prefix_of(s)) by {
                assert(s.subrange(0, 1) =~= seq![f]);
            }
        } else {
            assert(!seq![f].is_prefix_of(s)) by {
                if seq![f].is_prefix_of(s) {
                    assert(seq![f][0] == s[0]);
                }
            }
        }
    }
}

proof fn lemma_subst_concat(a: Seq<char>, b: Seq<char>, f: char, to: Seq<char>)
    ensures
        subst_char(a + b, f, to) == subst_char(a, f, to) + subst_char(b, f, to),
    decreases a.len(),
{
    if a.len() == 0 {
        assert(a + b =~= b);
    } else {
        lemma_subst_concat(a.drop_first(), b, f, to);
        assert((a + b).drop_first() =~= a.drop_first() + b);
        assert((a + b)[0] == a[0]);
    }
}

proof fn lemma_subst_absent(s: Seq<char>, f: char, to: Seq<char>)
    requires
        forall|i: int| 0 <= i < s.len() ==> s[i] != f,
    ensures
        subst_char(s, f, to) == s,
    decreases s.len(),
{
    if s.len() > 0 {
        lemma_subst_absent(s.drop_first(), f, to);
        assert(seq![s[0]] + s.drop_first() =~= s);
    }
}

proof fn lemma_two_passes(s: Seq<char>)
    ensures
        subst_char(subst_char(s, '/', token()), '.', seq!['/']) == encoded(s),
    decreases s.len(),
{
    lemma_token_facts();
    if s.len() > 0 {
        let rest = s.drop_first();
        lemma_two_passes(rest);
        let head = if s[0] == '/' { token() } else { seq![s[0]] };
        lemma_subst_concat(head, subst_char(rest, '/', token()), '.', seq!['/']);
        if s[0] == '/' {
            lemma_subst_absent(token(), '.', seq!['/']);
        } else {
            assert(seq![s[0]].drop_first() =~= Seq::<char>::empty());
            assert(subst_char(seq![s[0]].drop_first(), '.', seq!['/']) == Seq::<char>::empty());
            assert(seq![s[0]][0] == s[0]);
            if s[0] == '.' {
                assert(subst_char(seq![s[0]], '.', seq!['/']) =~= seq!['/']);
            } else {
                assert(subst_char(seq![s[0]], '.', seq!['/']) =~= seq![s[0]]);
            }
        }
    }
}

/// If the token from position `j` on starts the encoding of `u`, it starts `u`.
proof fn lemma_token_tail(u: Seq<char>, j: int)
    requires
        1 <= j <= 32,
        token().skip(j).is_prefix_of(encoded(u)),
    ensures
        token().skip(j).is_prefix_of(u),
    decreases 32 - j,
{
    lemma_token_facts();
    if j < 32 {
        assert(encoded(u).len() > 0);
        assert(u.len() > 0);
        let rest = u.drop_first();
        assert(token().skip(j)[0] == encoded(u)[0]);
        if u[0] == '/' {
            assert(encoded(u) == token() + encoded(rest));
            assert(shift_differs(j));
            let k = choose|k: int| 0 <= k < 32 - j && #[trigger] token()[k] != token()[j + k];
            assert(token().skip(j)[k] == encoded(u)[k]);
            assert(false);
        } else {
            assert(encoded(u) == seq![swap_char(u[0])] + encoded(rest));
            assert(token()[j] != '.' && token()[j] != '/');
            assert(u[0] == token()[j]);
            assert(token().skip(j + 1).is_prefix_of(encoded(rest))) by {
                assert forall|k: int| 0 <= k < 32 - (j + 1) implies token().skip(j + 1)[k] == encoded(rest)[k] by {
                    assert(token().skip(j)[k + 1] == encoded(u)[k + 1]);
                }
            }
            lemma_token_tail(rest, j + 1);
            assert forall|k: int| 0 <= k < 32 - j implies token().skip(j)[k] == u[k] by {
                if k > 0 {
                    assert(token().skip(j + 1)[k - 1] == rest[k - 1]);
                }
            }
        }
    }
}

proof fn lemma_decode(s: Seq<char>)
    requires
        !holds_token(s),
    ensures
        replace_spec(encoded(s), token(), seq!['.']) == swapped(s),
    decreases s.len(),
{
    lemma_token_facts();
    if s.len() == 0 {
        assert(swapped(s) =~= s);
    } else {
        let rest = s.drop_first();
        assert(!holds_token(rest)) by {
            if holds_token(rest) {
                let i = choose|i: int| 0 <= i && i + 32 <= rest.len() && #[trigger] rest.subrange(i, i + 32) == SLASH_REPLACEMENT_TOKEN@;
                assert(s.subrange(i + 1, i + 1 + 32) =~= rest.subrange(i, i + 32));
            }
        }
        lemma_decode(rest);
        assert(swapped(s) =~= seq![swap_char(s[0])] + swapped(rest));
        if s[0] == '/' {
            assert(encoded(s) == token() + encoded(rest));
            assert(token().is_prefix_of(encoded(s))) by {
                assert(encoded(s).subrange(0, 32) =~= token());
            }
            assert(encoded(s).skip(32) =~= encoded(rest));
        } else {
            assert(encoded(s) == seq![swap_char(s[0])] + encoded(rest));
            assert(!token().is_prefix_of(encoded(s))) by {
                if token().is_prefix_of(encoded(s)) {
                    assert(token()[0] == encoded(s)[0]);
                    assert(s[0] == 'T');
                    assert(token().skip(1).is_prefix_of(encoded(rest))) by {
                        assert forall|k: int| 0 <= k < 31 implies token().skip(1)[k] == encoded(rest)[k] by {
                            assert(token()[k + 1] == encoded(s)[k + 1]);
                        }
                    }
                    lemma_token_tail(rest, 1);
                    assert(s.subrange(0, 32) =~= SLASH_REPLACEMENT_TOKEN@) by {
                        assert forall|k: int| 0 <= k < 32 implies s[k] == token()[k] by {
                            if k > 0 {
                                assert(token().skip(1)[k - 1] == rest[k - 1]);
                            }
                        }
                    }
                    assert(s.len() >= 32);
                    assert(s.subrange(0int, 0int + 32) == SLASH_REPLACEMENT_TOKEN@);
                    assert(holds_token(s));
                }
            }
            assert(encoded(s).drop_first() =~= encoded(rest));
            assert(encoded(s)[0] == swap_char(s[0]));
        }
    }
}

/// For an attribute id without the replacement token, the path swaps `.` and `/`
/// and keeps every other character in place.
pub proof fn law_attr_path_swaps(id: Seq<char>)
    requires
        !holds_token(id),
    ensures
        attr_path_spec(id) == swapped(id),
{
    lemma_token_facts();
    reveal_strlit("/");
    reveal_strlit(".");
    assert("/"@ =~= seq!['/']);
    assert("."@ =~= seq!['.']);
    lemma_replace_single(id, '/', token());
    lemma_replace_single(subst_char(id, '/', token()), '.', seq!['/']);
    lemma_two_passes(id);
    lemma_decode(id);
}

/// For attribute ids without the replacement token, turning the path of an id
/// into a path again gives the id back, so distinct ids have distinct paths.
pub proof fn law_attr_path_round_trip(id: Seq<char>, other: Seq<char>)
    requires
        !holds_token(id),
        !holds_token(other),
    ensures
        attr_path_spec(attr_path_spec(id)) == id,
        attr_path_spec(id) == attr_path_spec(other) ==> id == other,
{
    lemma_token_facts();
    law_attr_path_swaps(id);
    law_attr_path_swaps(other);
    assert(!holds_token(swapped(id))) by {
        if holds_token(swapped(id)) {
            let i = choose|i: int| 0 <= i && i + 32 <= swapped(id).len() && #[trigger] swapped(id).subrange(i, i + 32) == SLASH_REPLACEMENT_TOKEN@;
            assert(id.subrange(i, i + 32) =~= SLASH_REPLACEMENT_TOKEN@) by {
                assert forall|k: int| 0 <= k < 32 implies id.subrange(i, i + 32)[k] == token()[k] by {
                    assert(swapped(id).subrange(i, i + 32)[k] == token()[k]);
                    assert(swap_char(id[i + k]) == token()[k]);
                }
            }
        }
    }
    law_attr_path_swaps(swapped(id));
    assert(swapped(swapped(id)) =~= id);
    if attr_path_spec(id) == attr_path_spec(other) {
        assert(swapped(swapped(other)) =~= other);
    }
}

/// The directory path (relative to the element's directory) of an attribute's history.
pub fn attr_id_to_path(id: &str) -> (r: String)
    ensures
        r@ == attr_path_spec(id@),
{
    proof {
        reveal_strlit("/");
        reveal_strlit(".");
        reveal_strlit("ThisTokenWillNeverExistInTheWild");
    }
    let a = replace(id, "/", SLASH_REPLACEMENT_TOKEN);
    let b = replace(a.as_str(), ".", "/");
    replace(b.as_str(), SLASH_REPLACEMENT_TOKEN, ".")
}

/// The default base directory of the JSON history.
pub fn default_path() -> (r: String)
    ensures
        r@ == "history/json"@,
{
    to_owned("history/json")
}

/// The configuration of the JSON-file backend.
#[derive(Debug, PartialEq, Eq)]
pub struct Config {
    /// The base directory.
    pub base_path: String,
}

impl Default for Config {
    fn default() -> (r: Self)
        ensures
            r.base_path@ == "history/json"@,
    {
        Config { base_path: default_path() }
    }
}

} // verus!
