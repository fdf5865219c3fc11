//! The relative-weight input: the typed text is normalized (surrounding
//! ASCII whitespace dropped, a decimal comma turned into a dot) and must
//! then read as a decimal floating-point literal — an optional sign,
//! then `inf`, `infinity` or `nan` (case-insensitive), or digits with an
//! optional fractional part and an optional exponent — before an export
//! is allowed.

use vstd::prelude::*;

verus! {

/// A decimal digit.
pub open spec fn spec_is_digit(c: char) -> bool {
    c == '0' || c == '1' || c == '2' || c == '3' || c == '4' || c == '5' || c == '6' || c == '7'
        || c == '8' || c == '9'
}

/// A leading sign.
pub open spec fn spec_is_sign(c: char) -> bool {
    c == '+' || c == '-'
}

/// An exponent marker.
pub open spec fn spec_is_exp_marker(c: char) -> bool {
    c == 'e' || c == 'E'
}

/// Every character is a digit.
pub open spec fn spec_all_digits(s: Seq<char>) -> bool {
    forall|i: int| 0 <= i < s.len() ==> spec_is_digit(s[i])
}

/// A mantissa: one or more digits with an optional dot anywhere after
/// the first digit, or a dot followed by one or more digits.
pub open spec fn spec_is_mantissa(m: Seq<char>) -> bool {
    ||| (m.len() > 0 && spec_all_digits(m))
    ||| exists|j: int|
        0 <= j < m.len() && m[j] == '.' && spec_all_digits(m.subrange(0, j)) && spec_all_digits(
            m.subrange(j + 1, m.len() as int),
        ) && (j > 0 || m.len() > j + 1)
}

/// One or more digits, optionally preceded by a sign.
pub open spec fn spec_is_signed_digits(y: Seq<char>) -> bool {
    ||| (y.len() > 0 && spec_all_digits(y))
    ||| (y.len() > 1 && spec_is_sign(y[0]) && spec_all_digits(y.skip(1)))
}

/// An exponent part: a marker, then signed digits.
pub open spec fn spec_is_exponent(x: Seq<char>) -> bool {
    x.len() >= 2 && spec_is_exp_marker(x[0]) && spec_is_signed_digits(x.skip(1))
}

/// Nothing at all, or an exponent part.
pub open spec fn spec_is_exp_opt(x: Seq<char>) -> bool {
    x.len() == 0 || spec_is_exponent(x)
}

/// A number: a mantissa followed by an optional exponent part.
pub open spec fn spec_is_number(b: Seq<char>) -> bool {
    exists|i: int|
        0 <= i <= b.len() && spec_is_mantissa(#[trigger] b.take(i)) && spec_is_exp_opt(b.skip(i))
}

/// Case-insensitive match of one character against a lowercase letter.
pub open spec fn spec_ci_char(c: char, p: char) -> bool {
    c == p || (p == 'i' && c == 'I') || (p == 'n' && c == 'N') || (p == 'f' && c == 'F') || (p
        == 't' && c == 'T') || (p == 'y' && c == 'Y') || (p == 'a' && c == 'A')
}

/// The special words `inf`, `infinity` and `nan`, case-insensitive.
pub open spec fn spec_is_special(b: Seq<char>) -> bool {
    ||| (b.len() == 3 && spec_ci_char(b[0], 'i') && spec_ci_char(b[1], 'n') && spec_ci_char(
        b[2],
        'f',
    ))
    ||| (b.len() == 8 && spec_ci_char(b[0], 'i') && spec_ci_char(b[1], 'n') && spec_ci_char(
        b[2],
        'f',
    ) && spec_ci_char(b[3], 'i') && spec_ci_char(b[4], 'n') && spec_ci_char(b[5], 'i')
        && spec_ci_char(b[6], 't') && spec_ci_char(b[7], 'y'))
    ||| (b.len() == 3 && spec_ci_char(b[0], 'n') && spec_ci_char(b[1], 'a') && spec_ci_char(
        b[2],
        'n',
    ))
}

/// The text with one leading sign removed, if present.
pub open spec fn spec_strip_sign(s: Seq<char>) -> Seq<char> {
    if s.len() > 0 && spec_is_sign(s[0]) {
        s.skip(1)
    } else {
        s
    }
}

/// A decimal floating-point literal: after an optional sign, a special
/// word or a number.
pub open spec fn spec_is_float_literal(s: Seq<char>) -> bool {
    spec_is_special(spec_strip_sign(s)) || spec_is_number(spec_strip_sign(s))
}

/// Decides whether a character is a decimal digit.
fn is_digit_char(c: char) -> (b: bool)
    ensures
        b == spec_is_digit(c),
{
    matches!(c, '0' | '1' | '2' | '3' | '4' | '5' | '6' | '7' | '8' | '9')
}

/// Decides a case-insensitive match against a lowercase letter.
fn ci_char(c: char, p: char) -> (b: bool)
    ensures
        b == spec_ci_char(c, p),
{
    c == p || (p == 'i' && c == 'I') || (p == 'n' && c == 'N') || (p == 'f' && c == 'F') || (p
        == 't' && c == 'T') || (p == 'y' && c == 'Y') || (p == 'a' && c == 'A')
}

/// Decides whether the whole text is one of the special words.
fn is_special_word(b: &str, m: usize) -> (r: bool)
    requires
        m == b@.len(),
    ensures
        r == spec_is_special(b@),
{
    if m == 3 {
        let c0 = b.get_char(0);
        let c1 = b.get_char(1);
        let c2 = b.get_char(2);
        (ci_char(c0, 'i') && ci_char(c1, 'n') && ci_char(c2, 'f')) || (ci_char(c0, 'n') && ci_char(
            c1,
            'a',
        ) && ci_char(c2, 'n'))
    } else if m == 8 {
        let c0 = b.get_char(0);
        let c1 = b.get_char(1);
        let c2 = b.get_char(2);
        let c3 = b.get_char(3);
        let c4 = b.get_char(4);
        let c5 = b.get_char(5);
        let c6 = b.get_char(6);
        let c7 = b.get_char(7);
        ci_char(c0, 'i') && ci_char(c1, 'n') && ci_char(c2, 'f') && ci_char(c3, 'i') && ci_char(
            c4,
            'n',
        ) && ci_char(c5, 'i') && ci_char(c6, 't') && ci_char(c7, 'y')
    } else {
        false
    }
}

/// The index at which the run of digits starting at `from` ends.
fn scan_digits(s: &str, from: usize, n: usize) -> (j: usize)
    requires
        from <= n,
        n == s@.len(),
    ensures
        from <= j <= n,
        forall|p: int| from <= p < j ==> spec_is_digit(s@[p]),
        j < n ==> !spec_is_digit(s@[j as int]),
{
    let mut j: usize = from;
    while j < n
        invariant
            from <= j <= n,
            n == s@.len(),
            forall|p: int| from <= p < j ==> spec_is_digit(s@[p]),
        ensures
            from <= j <= n,
            forall|p: int| from <= p < j ==> spec_is_digit(s@[p]),
            j < n ==> !spec_is_digit(s@[j as int]),
        decreases n - j,
    {
        if !is_digit_char(s.get_char(j)) {
            break;
        }
        j += 1;
    }
    j
}

/// What the number scan over the sign-stripped text established: a
/// maximal digit run up to `d1`, then (when `dot`) a dot with a maximal
/// digit run up to `fr`.
spec fn scan_facts(b: Seq<char>, d1: int, dot: bool, fr: int) -> bool {
    &&& 0 <= d1 <= fr <= b.len()
    &&& (forall|p: int| 0 <= p < d1 ==> spec_is_digit(b[p]))
    &&& (d1 < b.len() ==> !spec_is_digit(b[d1]))
    &&& (dot ==> d1 < b.len() && b[d1] == '.' && d1 + 1 <= fr && (forall|p: int|
        d1 + 1 <= p < fr ==> spec_is_digit(b[p])) && (fr < b.len() ==> !spec_is_digit(b[fr])))
    &&& (!dot ==> fr == d1 && (d1 == b.len() || b[d1] != '.'))
}

/// Any split of the text into a mantissa and an optional exponent part
/// must land exactly where the scan stopped, and the scanned mantissa
/// region must itself be a valid mantissa shape.
proof fn lemma_split_forced(b: Seq<char>, d1: int, dot: bool, fr: int, i: int)
    requires
        scan_facts(b, d1, dot, fr),
        0 <= i <= b.len(),
        spec_is_mantissa(b.take(i)),
        spec_is_exp_opt(b.skip(i)),
    ensures
        i == fr,
        d1 > 0 || (dot && fr > d1 + 1),
{
    let m = b.take(i);
    assert(m.len() == i);
    // the characters of the scanned region [0, fr) are digits, except a
    // dot exactly at d1 when dot is set
    assert(forall|p: int|
        0 <= p < fr ==> spec_is_digit(b[p]) || (dot && p == d1 && b[p] == '.'));
    if i < fr {
        // the rest would begin inside the mantissa region, on a digit or
        // a dot, never on an exponent marker
        let x = b.skip(i);
        assert(x.len() > 0);
        assert(x[0] == b[i]);
        assert(spec_is_digit(b[i]) || b[i] == '.');
        assert(!spec_is_exp_marker(x[0]));
        assert(false);
    }
    if i > fr {
        // the mantissa would reach past the scanned region, taking in a
        // character that is neither a digit nor its single dot
        assert(m[fr] == b[fr]);
        assert(!spec_is_digit(b[fr]));
        if m.len() > 0 && spec_all_digits(m) {
            assert(spec_is_digit(m[fr]));
            assert(false);
        } else {
            let j = choose|j: int|
                0 <= j < m.len() && m[j] == '.' && spec_all_digits(m.subrange(0, j))
                    && spec_all_digits(m.subrange(j + 1, m.len() as int)) && (j > 0 || m.len() > j
                    + 1);
            if j < fr {
                // fr lies in the all-digit stretch after the dot
                assert(m.subrange(j + 1, m.len() as int)[fr - j - 1] == m[fr]);
                assert(spec_is_digit(m[fr]));
                assert(false);
            } else if j == fr {
                // the single dot sits at fr, so the digit run before it
                // covers d1, where the scan saw a non-digit
                if dot {
                    assert(d1 < fr);
                    assert(m.subrange(0, j)[d1] == m[d1]);
                    assert(spec_is_digit(m[d1]));
                    assert(b[d1] == '.');
                    assert(false);
                } else {
                    assert(b[fr] != '.');
                    assert(false);
                }
            } else {
                // the dot sits past fr, so fr lies in the digit run
                // before the dot
                assert(m.subrange(0, j)[fr] == m[fr]);
                assert(spec_is_digit(m[fr]));
                assert(false);
            }
        }
    }
    // i == fr: derive the mantissa shape of the scanned region
    if m.len() > 0 && spec_all_digits(m) {
        assert(spec_is_digit(m[0]));
        assert(d1 > 0) by {
            if d1 == 0 {
                if dot {
                    assert(m[d1] == '.');
                    assert(spec_is_digit(m[d1]));
                    assert(false);
                } else {
                    assert(fr == d1);
                    assert(m.len() == 0);
                    assert(false);
                }
            }
        }
    } else {
        let j = choose|j: int|
            0 <= j < m.len() && m[j] == '.' && spec_all_digits(m.subrange(0, j))
                && spec_all_digits(m.subrange(j + 1, m.len() as int)) && (j > 0 || m.len() > j + 1);
        // the dot of the mantissa must be the scanned dot
        assert(dot) by {
            if !dot {
                assert(m[j] == b[j]);
                assert(j < fr && fr == d1);
                assert(spec_is_digit(b[j]));
                assert(false);
            }
        }
        assert(j == d1) by {
            if j < d1 {
                assert(spec_is_digit(b[j]));
                assert(m[j] == b[j]);
                assert(false);
            }
            if j > d1 {
                assert(m.subrange(0, j)[d1] == m[d1]);
                assert(spec_is_digit(m[d1]));
                assert(m[d1] == b[d1]);
                assert(b[d1] == '.');
                assert(false);
            }
        }
        assert(d1 > 0 || fr > d1 + 1);
    }
}

/// A scan that found no valid mantissa shape refutes the whole number
/// grammar.
proof fn lemma_scan_refutes_mantissa(b: Seq<char>, d1: int, dot: bool, fr: int)
    requires
        scan_facts(b, d1, dot, fr),
        !(d1 > 0 || (dot && fr > d1 + 1)),
    ensures
        !spec_is_number(b),
{
    assert forall|i: int|
        0 <= i <= b.len() implies !(spec_is_mantissa(#[trigger] b.take(i)) && spec_is_exp_opt(
        b.skip(i),
    )) by {
        if spec_is_mantissa(b.take(i)) && spec_is_exp_opt(b.skip(i)) {
            lemma_split_forced(b, d1, dot, fr, i);
        }
    }
}

/// A character after the mantissa region that is no exponent marker
/// refutes the whole number grammar.
proof fn lemma_scan_refutes_marker(b: Seq<char>, d1: int, dot: bool, fr: int)
    requires
        scan_facts(b, d1, dot, fr),
        fr < b.len(),
        !spec_is_exp_marker(b[fr]),
    ensures
        !spec_is_number(b),
{
    assert forall|i: int|
        0 <= i <= b.len() implies !(spec_is_mantissa(#[trigger] b.take(i)) && spec_is_exp_opt(
        b.skip(i),
    )) by {
        if spec_is_mantissa(b.take(i)) && spec_is_exp_opt(b.skip(i)) {
            lemma_split_forced(b, d1, dot, fr, i);
            let x = b.skip(fr);
            assert(x.len() > 0);
            assert(x[0] == b[fr]);
            assert(false);
        }
    }
}

/// A malformed tail after the exponent marker refutes the whole number
/// grammar: the digits must run to the very end and there must be at
/// least one.
proof fn lemma_scan_refutes_exponent(b: Seq<char>, d1: int, dot: bool, fr: int, es: int, ed: int)
    requires
        scan_facts(b, d1, dot, fr),
        fr < b.len(),
        spec_is_exp_marker(b[fr]),
        fr + 1 < b.len() && spec_is_sign(b[fr + 1]) ==> es == fr + 2,
        !(fr + 1 < b.len() && spec_is_sign(b[fr + 1])) ==> es == fr + 1,
        es <= ed <= b.len(),
        forall|p: int| es <= p < ed ==> spec_is_digit(b[p]),
        ed < b.len() ==> !spec_is_digit(b[ed]),
        !(ed == b.len() && ed > es),
    ensures
        !spec_is_number(b),
{
    assert forall|i: int|
        0 <= i <= b.len() implies !(spec_is_mantissa(#[trigger] b.take(i)) && spec_is_exp_opt(
        b.skip(i),
    )) by {
        if spec_is_mantissa(b.take(i)) && spec_is_exp_opt(b.skip(i)) {
            lemma_split_forced(b, d1, dot, fr, i);
            let x = b.skip(fr);
            let y = b.skip(fr + 1);
            assert(x.skip(1) =~= y);
            assert(x.len() > 0);
            assert(spec_is_exponent(x));
            assert(spec_is_signed_digits(y));
            if y.len() > 0 && spec_all_digits(y) {
                assert(spec_is_digit(y[0]));
                assert(b[fr + 1] == y[0]);
                assert(es == fr + 1);
                assert(ed == b.len()) by {
                    if ed < b.len() {
                        assert(y[ed - fr - 1] == b[ed]);
                        assert(spec_is_digit(b[ed]));
                        assert(false);
                    }
                }
                assert(ed > es);
                assert(false);
            } else {
                assert(y.len() > 1 && spec_is_sign(y[0]) && spec_all_digits(y.skip(1)));
                assert(b[fr + 1] == y[0]);
                assert(es == fr + 2);
                assert(ed == b.len()) by {
                    if ed < b.len() {
                        assert(y.skip(1)[ed - fr - 2] == b[ed]);
                        assert(spec_is_digit(b[ed]));
                        assert(false);
                    }
                }
                assert(ed > es);
                assert(false);
            }
        }
    }
}

/// A scan that found a valid mantissa shape really did delimit a
/// mantissa.
proof fn lemma_scan_gives_mantissa(b: Seq<char>, d1: int, dot: bool, fr: int)
    requires
        scan_facts(b, d1, dot, fr),
        d1 > 0 || (dot && fr > d1 + 1),
    ensures
        spec_is_mantissa(b.take(fr)),
{
    let mm = b.take(fr);
    if dot {
        assert(mm[d1] == '.');
        assert(spec_all_digits(mm.subrange(0, d1))) by {
            let sub = mm.subrange(0, d1);
            assert forall|p: int| 0 <= p < sub.len() implies spec_is_digit(#[trigger] sub[p]) by {
                assert(sub[p] == b[p]);
            }
        }
        assert(spec_all_digits(mm.subrange(d1 + 1, fr))) by {
            let sub = mm.subrange(d1 + 1, fr);
            assert forall|p: int| 0 <= p < sub.len() implies spec_is_digit(#[trigger] sub[p]) by {
                assert(sub[p] == b[p + d1 + 1]);
            }
        }
        assert(mm.subrange(d1 + 1, fr) =~= mm.subrange(d1 + 1, mm.len() as int));
    } else {
        assert(spec_all_digits(mm)) by {
            assert forall|p: int| 0 <= p < mm.len() implies spec_is_digit(#[trigger] mm[p]) by {
                assert(mm[p] == b[p]);
            }
        }
    }
}

/// A well-shaped exponent tail really is an exponent part.
proof fn lemma_scan_gives_exponent(b: Seq<char>, fr: int, es: int, ed: int)
    requires
        0 <= fr < b.len(),
        spec_is_exp_marker(b[fr]),
        fr + 1 < b.len() && spec_is_sign(b[fr + 1]) ==> es == fr + 2,
        !(fr + 1 < b.len() && spec_is_sign(b[fr + 1])) ==> es == fr + 1,
        es <= ed,
        forall|p: int| es <= p < ed ==> spec_is_digit(b[p]),
        ed == b.len(),
        ed > es,
    ensures
        spec_is_exponent(b.skip(fr)),
{
    let x = b.skip(fr);
    let y = b.skip(fr + 1);
    assert(x.skip(1) =~= y);
    assert(x[0] == b[fr]);
    if es == fr + 1 {
        assert(spec_all_digits(y)) by {
            assert forall|p: int| 0 <= p < y.len() implies spec_is_digit(#[trigger] y[p]) by {
                assert(y[p] == b[p + fr + 1]);
            }
        }
        assert(y.len() > 0);
    } else {
        assert(y[0] == b[fr + 1]);
        assert(y.len() > 1);
        assert(spec_all_digits(y.skip(1))) by {
            let sub = y.skip(1);
            assert forall|p: int| 0 <= p < sub.len() implies spec_is_digit(#[trigger] sub[p]) by {
                assert(sub[p] == b[p + fr + 2]);
            }
        }
    }
}

/// Decides whether the text is a decimal floating-point literal.
pub fn is_float_literal(s: &str) -> (r: bool)
    ensures
        r == spec_is_float_literal(s@),
{
    let n = s.unicode_len();
    let has_sign = if n > 0 {
        let c = s.get_char(0);
        c == '+' || c == '-'
    } else {
        false
    };
    let start: usize = if has_sign {
        1
    } else {
        0
    };
    let body = s.substring_char(start, n);
    proof {
        assert(body@ =~= spec_strip_sign(s@));
    }
    let m = n - start;
    if is_special_word(body, m) {
        return true;
    }
    let d1 = scan_digits(body, 0, m);
    let mut dot = false;
    let mut fr = d1;
    if d1 < m {
        if body.get_char(d1) == '.' {
            dot = true;
            fr = scan_digits(body, d1 + 1, m);
        }
    }
    assert(scan_facts(body@, d1 as int, dot, fr as int));
    let mantissa_ok = d1 > 0 || (dot && fr > d1 + 1);
    if !mantissa_ok {
        proof {
            lemma_scan_refutes_mantissa(body@, d1 as int, dot, fr as int);
        }
        return false;
    }
    proof {
        lemma_scan_gives_mantissa(body@, d1 as int, dot, fr as int);
    }
    if fr == m {
        proof {
            assert(body@.skip(fr as int).len() == 0);
            assert(spec_is_exp_opt(body@.skip(fr as int)));
            assert(spec_is_number(body@)) by {
                assert(spec_is_mantissa(body@.take(fr as int)) && spec_is_exp_opt(
                    body@.skip(fr as int),
                ));
            }
        }
        return true;
    }
    let c = body.get_char(fr);
    if !(c == 'e' || c == 'E') {
        proof {
            lemma_scan_refutes_marker(body@, d1 as int, dot, fr as int);
        }
        return false;
    }
    let es: usize = if fr + 1 < m {
        let c2 = body.get_char(fr + 1);
        if c2 == '+' || c2 == '-' {
            fr + 2
        } else {
            fr + 1
        }
    } else {
        fr + 1
    };
    let ed = scan_digits(body, es, m);
    let ok = ed == m && ed > es;
    proof {
        if ok {
            lemma_scan_gives_exponent(body@, fr as int, es as int, ed as int);
            assert(spec_is_number(body@)) by {
                assert(spec_is_mantissa(body@.take(fr as int)) && spec_is_exp_opt(
                    body@.skip(fr as int),
                ));
            }
        } else {
            lemma_scan_refutes_exponent(body@, d1 as int, dot, fr as int, es as int, ed as int);
        }
    }
    ok
}

/// ASCII whitespace, the kind the weight field strips at both ends.
pub open spec fn spec_is_space(c: char) -> bool {
    c == ' ' || c == '\t' || c == '\n' || c == '\r' || c == '\u{b}' || c == '\u{c}'
}

/// Decides whether a character is ASCII whitespace.
fn is_space_char(c: char) -> (b: bool)
    ensures
        b == spec_is_space(c),
{
    c == ' ' || c == '\t' || c == '\n' || c == '\r' || c == '\u{b}' || c == '\u{c}'
}

/// The text with leading whitespace dropped.
pub open spec fn spec_trim_front(s: Seq<char>) -> Seq<char>
    decreases s.len(),
{
    if s.len() > 0 && spec_is_space(s[0]) {
        spec_trim_front(s.drop_first())
    } else {
        s
    }
}

/// The text with trailing whitespace dropped.
pub open spec fn spec_trim_back(s: Seq<char>) -> Seq<char>
    decreases s.len(),
{
    if s.len() > 0 && spec_is_space(s.last()) {
        spec_trim_back(s.drop_last())
    } else {
        s
    }
}

/// The text with whitespace dropped at both ends.
pub open spec fn spec_trim(s: Seq<char>) -> Seq<char> {
    spec_trim_back(spec_trim_front(s))
}

/// Dropping leading whitespace keeps exactly the part after the first
/// non-space character.
proof fn lemma_trim_front_skip(s: Seq<char>, a: int)
    requires
        0 <= a <= s.len(),
        forall|p: int| 0 <= p < a ==> spec_is_space(s[p]),
        a < s.len() ==> !spec_is_space(s[a]),
    ensures
        spec_trim_front(s) == s.skip(a),
    decreases a,
{
    if a == 0 {
        assert(s.skip(0) =~= s);
    } else {
        let t = s.drop_first();
        assert(forall|p: int| 0 <= p < a - 1 ==> spec_is_space(#[trigger] t[p]));
        lemma_trim_front_skip(t, a - 1);
        assert(t.skip(a - 1) =~= s.skip(a));
    }
}

/// Dropping trailing whitespace keeps exactly the part before the last
/// non-space character.
proof fn lemma_trim_back_take(s: Seq<char>, b: int)
    requires
        0 <= b <= s.len(),
        forall|p: int| b <= p < s.len() ==> spec_is_space(s[p]),
        b > 0 ==> !spec_is_space(s[b - 1]),
    ensures
        spec_trim_back(s) == s.take(b),
    decreases s.len() - b,
{
    if b == s.len() {
        assert(s.take(b) =~= s);
    } else {
        let t = s.drop_last();
        assert(forall|p: int| b <= p < t.len() ==> spec_is_space(#[trigger] t[p]));
        lemma_trim_back_take(t, b);
        assert(t.take(b) =~= s.take(b));
    }
}

/// Strips ASCII whitespace at both ends of the text.
pub fn trim_spaces<'a>(s: &'a str) -> (r: &'a str)
    ensures
        r@ == spec_trim(s@),
{
    let n = s.unicode_len();
    let mut a: usize = 0;
    while a < n
        invariant
            a <= n,
            n == s@.len(),
            forall|p: int| 0 <= p < a ==> spec_is_space(s@[p]),
        ensures
            a <= n,
            n == s@.len(),
            forall|p: int| 0 <= p < a ==> spec_is_space(s@[p]),
            a < n ==> !spec_is_space(s@[a as int]),
        decreases n - a,
    {
        if !is_space_char(s.get_char(a)) {
            break;
        }
        a += 1;
    }
    let mut b: usize = n;
    while b > a
        invariant
            a <= b <= n,
            n == s@.len(),
            forall|p: int| b <= p < n ==> spec_is_space(s@[p]),
        ensures
            a <= b <= n,
            n == s@.len(),
            forall|p: int| b <= p < n ==> spec_is_space(s@[p]),
            b > a ==> !spec_is_space(s@[b - 1]),
        decreases b,
    {
        if !is_space_char(s.get_char(b - 1)) {
            break;
        }
        b -= 1;
    }
    proof {
        lemma_trim_front_skip(s@, a as int);
        let t = s@.skip(a as int);
        assert(forall|p: int|
            b - a <= p < t.len() ==> spec_is_space(#[trigger] t[p]));
        lemma_trim_back_take(t, b - a);
        assert(t.take(b - a) =~= s@.subrange(a as int, b as int));
    }
    s.substring_char(a, b)
}

/// A decimal comma becomes a decimal dot; every other character stays.
pub open spec fn spec_decimal_sep(c: char) -> char {
    if c == ',' {
        '.'
    } else {
        c
    }
}

/// The normalized weight text: whitespace stripped at both ends, then
/// every comma read as a decimal dot.
pub open spec fn spec_normalize_weight(s: Seq<char>) -> Seq<char> {
    spec_trim(s).map_values(|c: char| spec_decimal_sep(c))
}

/// Normalizes the typed weight text.
pub fn normalize_weight(s: &str) -> (r: String)
    ensures
        r@ == spec_normalize_weight(s@),
{
    let t = trim_spaces(s);
    let n = t.unicode_len();
    let mut out = String::new();
    let mut k: usize = 0;
    proof {
        assert(out@ =~= t@.take(0).map_values(|c: char| spec_decimal_sep(c)));
    }
    while k < n
        invariant
            k <= n,
            n == t@.len(),
            out@ == t@.take(k as int).map_values(|c: char| spec_decimal_sep(c)),
        decreases n - k,
    {
        let c = t.get_char(k);
        if c == ',' {
            proof {
                reveal_strlit(".");
            }
            out.append(".");
        } else {
            let piece = t.substring_char(k, k + 1);
            assert(piece@ =~= seq![t@[k as int]]);
            out.append(piece);
        }
        proof {
            assert(out@ =~= t@.take(k + 1).map_values(|c: char| spec_decimal_sep(c)));
        }
        k += 1;
    }
    proof {
        assert(t@.take(n as int) =~= t@);
    }
    out
}

/// The text with every dot removed, the shape the export file name is
/// kept in.
pub open spec fn spec_without_dots(s: Seq<char>) -> Seq<char>
    decreases s.len(),
{
    if s.len() == 0 {
        Seq::empty()
    } else {
        spec_without_dots(s.drop_last()) + if s.last() == '.' {
            Seq::empty()
        } else {
            seq![s.last()]
        }
    }
}

/// Removes every dot from the text.
pub fn strip_dots(s: &str) -> (r: String)
    ensures
        r@ == spec_without_dots(s@),
{
    let n = s.unicode_len();
    let mut out = String::new();
    let mut k: usize = 0;
    proof {
        assert(s@.take(0) =~= Seq::<char>::empty());
        assert(out@ =~= spec_without_dots(s@.take(0)));
    }
    while k < n
        invariant
            k <= n,
            n == s@.len(),
            out@ == spec_without_dots(s@.take(k as int)),
        decreases n - k,
    {
        let c = s.get_char(k);
        proof {
            assert(s@.take(k + 1).drop_last() =~= s@.take(k as int));
            assert(s@.take(k + 1).last() == s@[k as int]);
        }
        if c != '.' {
            let piece = s.substring_char(k, k + 1);
            assert(piece@ =~= seq![s@[k as int]]);
            out.append(piece);
        }
        proof {
            assert(out@ =~= spec_without_dots(s@.take(k + 1)));
        }
        k += 1;
    }
    proof {
        assert(s@.take(n as int) =~= s@);
    }
    out
}

} // verus!
