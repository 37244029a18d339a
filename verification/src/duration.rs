//! Durations as the configuration writes them: one or more terms, each a whole
//! number followed by a unit, such as `1h`, `5h10m` or `100s`.
use vstd::prelude::*;
use crate::state::Duration;
use vstd::string::*;

verus! {

/// Whether `c` is an ASCII digit.
pub open spec fn is_digit(c: char) -> bool {
    '0' <= c <= '9'
}

/// Whether `c` is an ASCII letter.
pub open spec fn is_letter(c: char) -> bool {
    ('a' <= c <= 'z') || ('A' <= c <= 'Z')
}

/// The number of digits at the start of `s`.
pub open spec fn digit_run(s: Seq<char>) -> nat
    decreases s.len(),
{
    if s.len() > 0 && is_digit(s[0]) {
        1 + digit_run(s.drop_first())
    } else {
        0
    }
}

/// The number of letters at the start of `s`.
pub open spec fn letter_run(s: Seq<char>) -> nat
    decreases s.len(),
{
    if s.len() > 0 && is_letter(s[0]) {
        1 + letter_run(s.drop_first())
    } else {
        0
    }
}

/// The value of the decimal digits `s`.
pub open spec fn decimal(s: Seq<char>) -> int
    decreases s.len(),
{
    if s.len() == 0 {
        0
    } else {
        decimal(s.drop_last()) * 10 + (s.last() as int - '0' as int)
    }
}

/// The length of a unit in nanoseconds: milliseconds (`ms`), seconds (`s`),
/// minutes (`m`, `min`), hours (`h`), days (`d`) and weeks (`w`).
pub open spec fn unit_nanos(u: Seq<char>) -> Option<int> {
    if u == "ms"@ {
        Some(1_000_000)
    } else if u == "s"@ {
        Some(1_000_000_000)
    } else if u == "m"@ || u == "min"@ {
        Some(60_000_000_000)
    } else if u == "h"@ {
        Some(3_600_000_000_000)
    } else if u == "d"@ {
        Some(86_400_000_000_000)
    } else if u == "w"@ {
        Some(604_800_000_000_000)
    } else {
        None
    }
}

pub proof fn lemma_digit_run_bound(s: Seq<char>)
    ensures
        digit_run(s) <= s.len(),
        forall|i: int| 0 <= i < digit_run(s) ==> is_digit(#[trigger] s[i]),
        digit_run(s) < s.len() ==> !is_digit(s[digit_run(s) as int]),
    decreases s.len(),
{
    if s.len() > 0 && is_digit(s[0]) {
        lemma_digit_run_bound(s.drop_first());
        assert forall|i: int| 0 <= i < digit_run(s) implies is_digit(#[trigger] s[i]) by {
            if i > 0 {
                assert(s[i] == s.drop_first()[i - 1]);
            }
        }
        if digit_run(s) < s.len() {
            assert(s[digit_run(s) as int] == s.drop_first()[digit_run(s.drop_first()) as int]);
        }
    }
}

pub proof fn lemma_letter_run_bound(s: Seq<char>)
    ensures
        letter_run(s) <= s.len(),
        forall|i: int| 0 <= i < letter_run(s) ==> is_letter(#[trigger] s[i]),
        letter_run(s) < s.len() ==> !is_letter(s[letter_run(s) as int]),
    decreases s.len(),
{
    if s.len() > 0 && is_letter(s[0]) {
        lemma_letter_run_bound(s.drop_first());
        assert forall|i: int| 0 <= i < letter_run(s) implies is_letter(#[trigger] s[i]) by {
            if i > 0 {
                assert(s[i] == s.drop_first()[i - 1]);
            }
        }
        if letter_run(s) < s.len() {
            assert(s[letter_run(s) as int] == s.drop_first()[letter_run(s.drop_first()) as int]);
        }
    }
}

/// The value in nanoseconds of the terms `s` (zero for no terms); `None` when a
/// term lacks its number or has an unknown unit.
pub open spec fn terms_value(s: Seq<char>) -> Option<int>
    decreases s.len(),
{
    if s.len() == 0 {
        Some(0)
    } else {
        let n = digit_run(s);
        if n == 0 {
            None
        } else {
            proof {
                lemma_digit_run_bound(s);
                lemma_letter_run_bound(s.skip(n as int));
            }
            let rest = s.skip(n as int);
            let m = letter_run(rest);
            match unit_nanos(rest.take(m as int)) {
                None => None,
                Some(u) => match terms_value(rest.skip(m as int)) {
                    None => None,
                    Some(t) => Some(decimal(s.take(n as int)) * u + t),
                },
            }
        }
    }
}

/// The value in nanoseconds of the duration `s`, which must hold at least one term.
pub open spec fn duration_value(s: Seq<char>) -> Option<int> {
    if s.len() == 0 {
        None
    } else {
        terms_value(s)
    }
}

proof fn lemma_decimal_nonneg(s: Seq<char>)
    requires
        forall|i: int| 0 <= i < s.len() ==> is_digit(#[trigger] s[i]),
    ensures
        decimal(s) >= 0,
    decreases s.len(),
{
    if s.len() > 0 {
        lemma_decimal_nonneg(s.drop_last());
    }
}

proof fn lemma_terms_nonneg(s: Seq<char>)
    ensures
        terms_value(s) matches Some(v) ==> v >= 0,
    decreases s.len(),
{
    if s.len() > 0 {
        let n = digit_run(s);
        if n > 0 {
            lemma_digit_run_bound(s);
            lemma_letter_run_bound(s.skip(n as int));
            let rest = s.skip(n as int);
            let m = letter_run(rest);
            lemma_terms_nonneg(rest.skip(m as int));
            assert forall|i: int| 0 <= i < s.take(n as int).len() implies is_digit(#[trigger] s.take(n as int)[i]) by {
                assert(s.take(n as int)[i] == s[i]);
            }
            lemma_decimal_nonneg(s.take(n as int));
            if let Some(u) = unit_nanos(rest.take(m as int)) {
                assert(u > 0);
                assert(decimal(s.take(n as int)) * u >= 0) by (nonlinear_arith)
                    requires
                        decimal(s.take(n as int)) >= 0,
                        u > 0,
                ;
            }
        }
    }
}

proof fn lemma_terms_step(t: Seq<char>, n: int, m: int)
    requires
        t.len() > 0,
        n == digit_run(t),
        n > 0,
        m == letter_run(t.skip(n)),
    ensures
        terms_value(t) == match unit_nanos(t.skip(n).take(m)) {
            None => None::<int>,
            Some(u) => match terms_value(t.skip(n).skip(m)) {
                None => None::<int>,
                Some(r) => Some(decimal(t.take(n)) * u + r),
            },
        },
{
}

fn unit_of(u: &str) -> (r: Option<i128>)
    ensures
        match r {
            Some(v) => unit_nanos(u@) == Some(v as int),
            None => unit_nanos(u@) is None,
        },
{
    if crate::strutil::str_eq(u, "ms") {
        Some(1_000_000)
    } else if crate::strutil::str_eq(u, "s") {
        Some(1_000_000_000)
    } else if crate::strutil::str_eq(u, "m") || crate::strutil::str_eq(u, "min") {
        Some(60_000_000_000)
    } else if crate::strutil::str_eq(u, "h") {
        Some(3_600_000_000_000)
    } else if crate::strutil::str_eq(u, "d") {
        Some(86_400_000_000_000)
    } else if crate::strutil::str_eq(u, "w") {
        Some(604_800_000_000_000)
    } else {
        None
    }
}

fn is_digit_char(c: char) -> (r: bool)
    ensures
        r == is_digit(c),
{
    '0' <= c && c <= '9'
}

fn is_letter_char(c: char) -> (r: bool)
    ensures
        r == is_letter(c),
{
    ('a' <= c && c <= 'z') || ('A' <= c && c <= 'Z')
}

proof fn lemma_digit_run_skip(s: Seq<char>, i: int, j: int)
    requires
        0 <= i <= j <= s.len(),
        forall|k: int| i <= k < j ==> is_digit(#[trigger] s[k]),
    ensures
        digit_run(s.skip(i)) == (j - i) + digit_run(s.skip(j)),
    decreases j - i,
{
    if i < j {
        lemma_digit_run_skip(s, i + 1, j);
        assert(s.skip(i).drop_first() =~= s.skip(i + 1));
        assert(s.skip(i)[0] == s[i]);
    }
}

proof fn lemma_letter_run_skip(s: Seq<char>, i: int, j: int)
    requires
        0 <= i <= j <= s.len(),
        forall|k: int| i <= k < j ==> is_letter(#[trigger] s[k]),
    ensures
        letter_run(s.skip(i)) == (j - i) + letter_run(s.skip(j)),
    decreases j - i,
{
    if i < j {
        lemma_letter_run_skip(s, i + 1, j);
        assert(s.skip(i).drop_first() =~= s.skip(i + 1));
        assert(s.skip(i)[0] == s[i]);
    }
}

/// Parses a duration such as `1h`, `5h10m` or `100s`: `None` when the text is not
/// a duration, or when its length in nanoseconds does not fit an `i128`.
pub fn parse_duration(text: &str) -> (r: Option<Duration>)
    ensures
        match r {
            Some(d) => duration_value(text@) == Some(d.nanos as int),
            None => match duration_value(text@) {
                None => true,
                Some(v) => v > i128::MAX,
            },
        },
{
    let s = text;
    let n = s.unicode_len();
    if n == 0 {
        return None;
    }
    let ghost sv = s@;
    let mut total: i128 = 0;
    let mut i: usize = 0;
    assert(sv.skip(0) =~= sv);
    while i < n
        invariant
            n == sv.len(),
            sv == s@,
            sv == text@,
            i <= n,
            total >= 0,
            terms_value(sv) == match terms_value(sv.skip(i as int)) {
                None => None::<int>,
                Some(t) => Some(total + t),
            },
        decreases n - i,
    {
        let ghost t = sv.skip(i as int);
        // The number.
        let mut j: usize = i;
        let mut number: i128 = 0;
        let mut too_big = false;
        while j < n && is_digit_char(s.get_char(j))
            invariant
                n == sv.len(),
                sv == s@,
                i <= j <= n,
                forall|k: int| i <= k < j ==> is_digit(#[trigger] sv[k]),
                !too_big ==> number == decimal(sv.subrange(i as int, j as int)),
                too_big ==> decimal(sv.subrange(i as int, j as int)) > i128::MAX,
                number >= 0,
            decreases n - j,
        {
            let d = s.get_char(j);
            let dv: i128 = (d as u32 - '0' as u32) as i128;
            proof {
                assert(sv.subrange(i as int, j + 1).drop_last() =~= sv.subrange(i as int, j as int));
                assert(sv.subrange(i as int, j + 1).last() == d);
                assert forall|k: int| 0 <= k < sv.subrange(i as int, j as int).len() implies is_digit(#[trigger] sv.subrange(i as int, j as int)[k]) by {
                    assert(sv.subrange(i as int, j as int)[k] == sv[i + k]);
                }
                lemma_decimal_nonneg(sv.subrange(i as int, j as int));
            }
            if !too_big {
                match number.checked_mul(10) {
                    None => {
                        too_big = true;
                        proof {
                            assert(decimal(sv.subrange(i as int, j + 1)) > i128::MAX) by (nonlinear_arith)
                                requires
                                    decimal(sv.subrange(i as int, j + 1)) == number * 10 + dv,
                                    number * 10 > i128::MAX,
                                    dv >= 0,
                            ;
                        }
                    },
                    Some(tens) => match tens.checked_add(dv) {
                        None => {
                            too_big = true;
                        },
                        Some(v) => {
                            number = v;
                        },
                    },
                }
            } else {
                proof {
                    assert(decimal(sv.subrange(i as int, j + 1)) > i128::MAX) by (nonlinear_arith)
                        requires
                            decimal(sv.subrange(i as int, j + 1)) == decimal(sv.subrange(i as int, j as int)) * 10 + dv,
                            decimal(sv.subrange(i as int, j as int)) > i128::MAX,
                            dv >= 0,
                    ;
                }
            }
            j = j + 1;
        }
        proof {
            lemma_digit_run_skip(sv, i as int, j as int);
            if j < n {
                assert(!is_digit(sv[j as int]));
                assert(sv.skip(j as int)[0] == sv[j as int]);
            }
            assert(digit_run(sv.skip(j as int)) == 0);
            assert(digit_run(t) == j - i);
            assert(t.take((j - i) as int) =~= sv.subrange(i as int, j as int));
            assert(t.skip((j - i) as int) =~= sv.skip(j as int));
        }
        if j == i {
            proof {
                assert(t.len() > 0);
                assert(terms_value(t) is None);
            }
            return None;
        }
        // The unit.
        let mut k: usize = j;
        while k < n && is_letter_char(s.get_char(k))
            invariant
                n == sv.len(),
                sv == s@,
                j <= k <= n,
                forall|x: int| j <= x < k ==> is_letter(#[trigger] sv[x]),
            decreases n - k,
        {
            k = k + 1;
        }
        proof {
            lemma_letter_run_skip(sv, j as int, k as int);
            if k < n {
                assert(sv.skip(k as int)[0] == sv[k as int]);
            }
            assert(letter_run(sv.skip(k as int)) == 0);
            assert(sv.skip(j as int).take((k - j) as int) =~= sv.subrange(j as int, k as int));
            assert(sv.skip(j as int).skip((k - j) as int) =~= sv.skip(k as int));
            lemma_terms_nonneg(sv.skip(k as int));
            lemma_terms_step(t, (j - i) as int, (k - j) as int);
            assert(t.skip((j - i) as int).take((k - j) as int) =~= sv.subrange(j as int, k as int));
            assert(t.skip((j - i) as int).skip((k - j) as int) =~= sv.skip(k as int));
            assert forall|x: int| 0 <= x < sv.subrange(i as int, j as int).len() implies is_digit(#[trigger] sv.subrange(i as int, j as int)[x]) by {
                assert(sv.subrange(i as int, j as int)[x] == sv[i + x]);
            }
            lemma_decimal_nonneg(sv.subrange(i as int, j as int));
        }
        let unit_text = s.substring_char(j, k);
        let unit = match unit_of(unit_text) {
            None => return None,
            Some(u) => u,
        };
        if too_big {
            proof {
                let rest = terms_value(sv.skip(k as int));
                if let Some(rv) = rest {
                    let dec = decimal(sv.subrange(i as int, j as int));
                    assert(dec * unit + rv + total > i128::MAX) by (nonlinear_arith)
                        requires
                            dec > i128::MAX,
                            unit >= 1,
                            rv >= 0,
                            total >= 0,
                    ;
                }
            }
            return None;
        }
        let term = match number.checked_mul(unit) {
            None => {
                proof {
                    let rest = terms_value(sv.skip(k as int));
                    if let Some(rv) = rest {
                        assert(number * unit + rv + total > i128::MAX) by (nonlinear_arith)
                            requires
                                number * unit > i128::MAX,
                                rv >= 0,
                                total >= 0,
                        ;
                    }
                }
                return None;
            },
            Some(v) => v,
        };
        proof {
            assert(term >= 0) by (nonlinear_arith)
                requires
                    term == number * unit,
                    number >= 0,
                    unit >= 1,
            ;
        }
        total = match total.checked_add(term) {
            None => {
                proof {
                    let rest = terms_value(sv.skip(k as int));
                    if let Some(rv) = rest {
                        assert(total + term + rv > i128::MAX);
                    }
                }
                return None;
            },
            Some(v) => v,
        };
        i = k;
    }
    proof {
        assert(sv.skip(n as int).len() == 0);
    }
    Some(Duration { nanos: total })
}

proof fn lemma_digit_run_concat(s: Seq<char>, t: Seq<char>)
    requires
        digit_run(s) < s.len() || t.len() == 0 || !is_digit(t[0]),
    ensures
        digit_run(s + t) == digit_run(s),
    decreases s.len(),
{
    if s.len() == 0 {
        assert(s + t =~= t);
    } else {
        assert((s + t)[0] == s[0]);
        if is_digit(s[0]) {
            assert((s + t).drop_first() =~= s.drop_first() + t);
            lemma_digit_run_concat(s.drop_first(), t);
        }
    }
}

proof fn lemma_letter_run_concat(s: Seq<char>, t: Seq<char>)
    requires
        letter_run(s) < s.len() || t.len() == 0 || !is_letter(t[0]),
    ensures
        letter_run(s + t) == letter_run(s),
    decreases s.len(),
{
    if s.len() == 0 {
        assert(s + t =~= t);
    } else {
        assert((s + t)[0] == s[0]);
        if is_letter(s[0]) {
            assert((s + t).drop_first() =~= s.drop_first() + t);
            lemma_letter_run_concat(s.drop_first(), t);
        }
    }
}

/// Writing two durations one after the other adds them up: `5h10m` is `5h` and
/// `10m` together.
pub proof fn law_durations_add_up(a: Seq<char>, b: Seq<char>)
    requires
        terms_value(a) is Some,
        terms_value(b) is Some,
    ensures
        terms_value(a + b) == Some(terms_value(a)->0 + terms_value(b)->0),
    decreases a.len(),
{
    if a.len() == 0 {
        assert(a + b =~= b);
    } else {
        let n = digit_run(a);
        lemma_digit_run_bound(a);
        let rest = a.skip(n as int);
        lemma_letter_run_bound(rest);
        let m = letter_run(rest);
        // The unit is not empty, so the number ends inside `a`.
        assert(m > 0) by {
            if m == 0 {
                reveal_strlit("ms");
                reveal_strlit("s");
                reveal_strlit("m");
                reveal_strlit("min");
                reveal_strlit("h");
                reveal_strlit("d");
                reveal_strlit("w");
                assert(rest.take(0) =~= Seq::<char>::empty());
                assert(unit_nanos(rest.take(0)) is None);
            }
        }
        assert(n < a.len());
        assert(rest[0] == a[n as int]);
        assert(!is_digit(a[n as int]));
        lemma_digit_run_concat(a, b);
        let ab = a + b;
        assert(ab.skip(n as int) =~= rest + b);
        // A non-empty `b` starts with a number, which ends the unit.
        if b.len() > 0 {
            assert(digit_run(b) > 0);
            assert(is_digit(b[0]));
        }
        lemma_letter_run_concat(rest, b);
        assert((rest + b).take(m as int) =~= rest.take(m as int));
        assert((rest + b).skip(m as int) =~= rest.skip(m as int) + b);
        assert(ab.take(n as int) =~= a.take(n as int));
        law_durations_add_up(rest.skip(m as int), b);
        assert(ab.len() > 0);
        lemma_letter_run_bound(ab.skip(n as int));
    }
}

} // verus!
