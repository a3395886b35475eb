//! What holds of text: of trimming, splitting, joining, replacing, numbers and order.
use crate::sorting::{sort_texts, text_le};
use crate::text::{
    contains, contains_text, decimal, decimal_of, digits_value, find_from, integer_text,
    integer_value, is_white_space, join, join_of, lemma_find_from, matches_at, number, replace,
    replace_of, signed_decimal, signed_number, split, split_of, split_once, split_once_of, trim,
    trim_end_of, trim_of, trim_start_char, trim_start_char_of, trim_start_of, views,
};
use vstd::prelude::*;

verus! {

// ---------------------------------------------------------------------------------------------
// Trimming
// ---------------------------------------------------------------------------------------------
/// White space are the tab, the line breaks, the blanks and the separators of Unicode, and no
/// other characters.
pub proof fn lemma_white_space(c: char)
    ensures
        is_white_space(c) <==> c == '\t' || c == '\n' || c == '\u{b}' || c == '\u{c}' || c == '\r'
            || c == ' ' || c == '\u{85}' || c == '\u{a0}' || c == '\u{1680}' || ('\u{2000}' <= c
            && c <= '\u{200a}') || c == '\u{2028}' || c == '\u{2029}' || c == '\u{202f}' || c
            == '\u{205f}' || c == '\u{3000}',
{
}

proof fn lemma_trim_start_parts(s: Seq<char>)
    ensures
        ({
            let n = s.len() - trim_start_of(s).len();
            &&& 0 <= n
            &&& s.skip(n) == trim_start_of(s)
            &&& forall|i: int| 0 <= i < n ==> is_white_space(#[trigger] s[i])
            &&& trim_start_of(s).len() > 0 ==> !is_white_space(trim_start_of(s)[0])
        }),
    decreases s.len(),
{
    if s.len() > 0 && is_white_space(s[0]) {
        let t = s.skip(1);
        lemma_trim_start_parts(t);
        let n = s.len() - trim_start_of(s).len();
        assert(t.skip(n - 1) =~= s.skip(n));
        assert forall|i: int| 0 <= i < n implies is_white_space(#[trigger] s[i]) by {
            if i > 0 {
                assert(t[i - 1] == s[i]);
            }
        }
    } else {
        assert(s.skip(0) =~= s);
    }
}

proof fn lemma_trim_end_parts(s: Seq<char>)
    ensures
        ({
            let n = trim_end_of(s).len() as int;
            &&& n <= s.len()
            &&& s.take(n) == trim_end_of(s)
            &&& forall|i: int| n <= i < s.len() ==> is_white_space(#[trigger] s[i])
            &&& n > 0 ==> !is_white_space(trim_end_of(s).last())
        }),
    decreases s.len(),
{
    if s.len() > 0 && is_white_space(s.last()) {
        let t = s.drop_last();
        lemma_trim_end_parts(t);
        let n = trim_end_of(s).len() as int;
        assert(t.take(n) =~= s.take(n));
        assert forall|i: int| n <= i < s.len() implies is_white_space(#[trigger] s[i]) by {
            if i < t.len() {
                assert(t[i] == s[i]);
            }
        }
    } else {
        assert(s.take(s.len() as int) =~= s);
    }
}

/// A text falls into white space, the trimmed text, and white space; the trimmed text neither
/// begins nor ends with white space.
pub proof fn lemma_trim_parts(s: Seq<char>) -> (parts: (Seq<char>, Seq<char>))
    ensures
        s == parts.0 + trim_of(s) + parts.1,
        forall|i: int| 0 <= i < parts.0.len() ==> is_white_space(#[trigger] parts.0[i]),
        forall|i: int| 0 <= i < parts.1.len() ==> is_white_space(#[trigger] parts.1[i]),
        trim_of(s).len() > 0 ==> !is_white_space(trim_of(s)[0]) && !is_white_space(
            trim_of(s).last(),
        ),
{
    let t = trim_start_of(s);
    let u = trim_of(s);
    lemma_trim_start_parts(s);
    lemma_trim_end_parts(t);
    let n = s.len() - t.len();
    let a = s.take(n);
    let b = t.skip(u.len() as int);
    assert(s =~= a + u + b);
    assert forall|i: int| 0 <= i < a.len() implies is_white_space(#[trigger] a[i]) by {
        assert(a[i] == s[i]);
    }
    assert forall|i: int| 0 <= i < b.len() implies is_white_space(#[trigger] b[i]) by {
        assert(b[i] == t[u.len() + i]);
    }
    if u.len() > 0 {
        assert(u[0] == t[0]);
    }
    (a, b)
}

/// What trimming takes off is white space at the two ends, and all of it.
pub proof fn lemma_trimmed(s: &str, res: String)
    requires
        call_ensures(trim, (s,), res),
    ensures
        exists|a: Seq<char>, b: Seq<char>|
            {
                &&& s@ == #[trigger] (a + res@ + b)
                &&& forall|i: int| 0 <= i < a.len() ==> is_white_space(#[trigger] a[i])
                &&& forall|i: int| 0 <= i < b.len() ==> is_white_space(#[trigger] b[i])
            },
        res@.len() > 0 ==> !is_white_space(res@[0]) && !is_white_space(res@.last()),
{
    let (a, b) = lemma_trim_parts(s@);
    assert(s@ == a + res@ + b);
}

/// Only one text is left when white space is taken off both ends of a text: text that neither
/// begins nor ends with white space is what trimming gives back of it, with white space around.
pub proof fn lemma_trim_unique(a: Seq<char>, t: Seq<char>, b: Seq<char>)
    requires
        forall|i: int| 0 <= i < a.len() ==> is_white_space(#[trigger] a[i]),
        forall|i: int| 0 <= i < b.len() ==> is_white_space(#[trigger] b[i]),
        t.len() > 0 ==> !is_white_space(t[0]) && !is_white_space(t.last()),
    ensures
        trim_of(a + t + b) == t,
{
    let s = a + t + b;
    let (c, d) = lemma_trim_parts(s);
    let u = trim_of(s);
    assert forall|i: int| 0 <= i < s.len() && is_white_space(#[trigger] s[i]) == false implies
        a.len() <= i < a.len() + t.len() && c.len() <= i < c.len() + u.len() by {
        if i < a.len() {
            assert(s[i] == a[i]);
        }
        if i >= a.len() + t.len() {
            assert(s[i] == b[i - a.len() - t.len()]);
        }
        if i < c.len() {
            assert(s[i] == c[i]);
        }
        if i >= c.len() + u.len() {
            assert(s[i] == d[i - c.len() - u.len()]);
        }
    }
    if t.len() > 0 {
        let f = a.len() as int;
        let l = a.len() + t.len() - 1;
        assert(s[f] == t[0] && s[l] == t.last());
        assert(is_white_space(s[f]) == false && is_white_space(s[l]) == false);
        assert(u.len() > 0);
    }
    if u.len() > 0 {
        let f = c.len() as int;
        let l = c.len() + u.len() - 1;
        assert(s[f] == u[0] && s[l] == u.last());
        assert(is_white_space(s[f]) == false && is_white_space(s[l]) == false);
    }
    if t.len() > 0 {
        assert(a.len() == c.len() && t.len() == u.len());
        assert(u =~= t) by {
            assert forall|i: int| 0 <= i < t.len() implies u[i] == t[i] by {
                assert(s[a.len() + i] == t[i]);
                assert(s[c.len() + i] == u[i]);
            }
        }
    } else {
        assert(u.len() == 0);
        assert(u =~= t);
    }
}

/// A character is taken off the start of a text as often as it stands there, and nothing else.
pub proof fn lemma_trim_start_char(s: Seq<char>, c: char)
    ensures
        ({
            let t = trim_start_char_of(s, c);
            &&& t.len() <= s.len()
            &&& s.skip(s.len() - t.len()) == t
            &&& forall|i: int| 0 <= i < s.len() - t.len() ==> #[trigger] s[i] == c
            &&& t.len() > 0 ==> t[0] != c
        }),
    decreases s.len(),
{
    if s.len() > 0 && s[0] == c {
        let r = s.skip(1);
        lemma_trim_start_char(r, c);
        let t = trim_start_char_of(s, c);
        assert(r.skip(r.len() - t.len()) =~= s.skip(s.len() - t.len()));
        assert forall|i: int| 0 <= i < s.len() - t.len() implies #[trigger] s[i] == c by {
            if i > 0 {
                assert(r[i - 1] == s[i]);
            }
        }
    } else {
        assert(s.skip(0) =~= s);
    }
}

// ---------------------------------------------------------------------------------------------
// Finding, splitting and joining
// ---------------------------------------------------------------------------------------------
/// A text holds a pattern if and only if it is the pattern with something before and behind it.
pub proof fn lemma_contains_means(s: Seq<char>, pat: Seq<char>)
    ensures
        contains_text(s, pat) <==> exists|a: Seq<char>, b: Seq<char>| s == #[trigger] (a + pat + b),
{
    if contains_text(s, pat) {
        let i = choose|i: int| matches_at(s, pat, i);
        let a = s.take(i);
        let b = s.skip(i + pat.len());
        assert(s =~= a + pat + b) by {
            assert forall|k: int| 0 <= k < s.len() implies s[k] == (a + pat + b)[k] by {
                if i <= k < i + pat.len() {
                    assert(s.subrange(i, i + pat.len())[k - i] == s[k]);
                }
            }
        }
    }
    if exists|a: Seq<char>, b: Seq<char>| s == #[trigger] (a + pat + b) {
        let (a, b) = choose|a: Seq<char>, b: Seq<char>| s == #[trigger] (a + pat + b);
        assert(s.subrange(a.len() as int, (a.len() + pat.len()) as int) =~= pat);
        assert(matches_at(s, pat, a.len() as int));
    }
}

/// The pieces one after the other, with the separator between each two of them.
pub open spec fn glued(parts: Seq<Seq<char>>, sep: Seq<char>) -> Seq<char>
    decreases parts.len(),
{
    if parts.len() == 0 {
        Seq::empty()
    } else if parts.len() == 1 {
        parts[0]
    } else {
        parts[0] + sep + glued(parts.skip(1), sep)
    }
}

/// Before its end, `a` with `sep` behind it holds `sep` nowhere.
pub open spec fn ends_first(a: Seq<char>, sep: Seq<char>) -> bool {
    forall|j: int| 0 <= j < a.len() ==> #[trigger] (a + sep).subrange(j, j + sep.len()) != sep
}

/// Joined pieces stand one after the other, with the separator between each two of them.
pub proof fn lemma_joined(parts: Seq<Seq<char>>, sep: Seq<char>)
    ensures
        join_of(parts, sep) == glued(parts, sep),
    decreases parts.len(),
{
    if parts.len() > 1 {
        let rest = parts.drop_last();
        lemma_joined(rest, sep);
        lemma_glued_last(parts, sep);
    } else if parts.len() == 1 {
    }
}

proof fn lemma_glued_last(parts: Seq<Seq<char>>, sep: Seq<char>)
    requires
        parts.len() > 1,
    ensures
        glued(parts, sep) == glued(parts.drop_last(), sep) + sep + parts.last(),
    decreases parts.len(),
{
    let tail = parts.skip(1);
    if parts.len() == 2 {
        assert(tail[0] == parts.last());
        assert(glued(tail, sep) == parts.last());
        assert(glued(parts.drop_last(), sep) == parts[0]);
    } else {
        lemma_glued_last(tail, sep);
        assert(tail.drop_last() =~= parts.drop_last().skip(1));
        assert(glued(parts, sep) =~= glued(parts.drop_last(), sep) + sep + parts.last());
    }
}

/// Joining gives the pieces one after the other, with the separator between each two of them.
pub proof fn lemma_join(parts: &Vec<String>, sep: &str, res: String)
    requires
        call_ensures(join, (parts, sep), res),
    ensures
        res@ == glued(Seq::new(parts@.len(), |i: int| parts@[i]@), sep@),
{
    lemma_joined(views(parts@), sep@);
    assert(views(parts@) =~= Seq::new(parts@.len(), |i: int| parts@[i]@));
}

/// Splitting gives pieces that come to the text again when they are joined. No piece holds the
/// separator, and each is as short as it can be: it ends at the first separator.
pub proof fn lemma_split_means(s: Seq<char>, sep: Seq<char>)
    requires
        sep.len() > 0,
    ensures
        split_of(s, sep).len() > 0,
        glued(split_of(s, sep), sep) == s,
        forall|i: int|
            0 <= i < split_of(s, sep).len() - 1 ==> ends_first(#[trigger] split_of(s, sep)[i], sep),
        forall|a: Seq<char>, b: Seq<char>|
            split_of(s, sep).last() != #[trigger] (a + sep + b),
    decreases s.len(),
{
    lemma_find_from(s, sep, 0);
    let parts = split_of(s, sep);
    match find_from(s, sep, 0) {
        None => {
            assert(parts.last() == s);
            assert forall|a: Seq<char>, b: Seq<char>| s != #[trigger] (a + sep + b) by {
                if s == a + sep + b {
                    assert(s.subrange(a.len() as int, (a.len() + sep.len()) as int) =~= sep);
                    assert(matches_at(s, sep, a.len() as int));
                }
            }
        },
        Some(i) => {
            let first = s.take(i);
            let rest = s.skip(i + sep.len());
            lemma_split_means(rest, sep);
            assert(parts =~= seq![first] + split_of(rest, sep));
            assert(parts.skip(1) =~= split_of(rest, sep));
            assert(parts.last() == split_of(rest, sep).last());
            assert(glued(parts, sep) == first + sep + glued(split_of(rest, sep), sep));
            assert(first + sep =~= s.take(i + sep.len())) by {
                assert forall|k: int| 0 <= k < i + sep.len() implies (first + sep)[k] == s[k] by {
                    if k >= i {
                        assert(s.subrange(i, i + sep.len())[k - i] == s[k]);
                    }
                }
            }
            assert(first + sep + rest =~= s);
            assert(ends_first(first, sep)) by {
                assert forall|j: int| 0 <= j < first.len() implies #[trigger] (first + sep).subrange(
                    j,
                    j + sep.len(),
                ) != sep by {
                    assert((first + sep).subrange(j, j + sep.len()) =~= s.subrange(
                        j,
                        j + sep.len(),
                    ));
                    assert(!matches_at(s, sep, j));
                }
            }
            assert forall|k: int| 0 <= k < parts.len() - 1 implies ends_first(
                #[trigger] parts[k],
                sep,
            ) by {
                if k > 0 {
                    assert(parts[k] == split_of(rest, sep)[k - 1]);
                }
            }
        },
    }
}

/// Splitting gives pieces that come to the text again when they are joined, each of them ending
/// at the first separator, and the last one without a separator.
pub proof fn lemma_split(s: &str, sep: &str, res: Vec<String>)
    requires
        call_ensures(split, (s, sep), res),
        sep@.len() > 0,
    ensures
        res@.len() > 0,
        glued(Seq::new(res@.len(), |i: int| res@[i]@), sep@) == s@,
        forall|i: int| 0 <= i < res@.len() - 1 ==> ends_first((#[trigger] res@[i])@, sep@),
        forall|a: Seq<char>, b: Seq<char>| res@.last()@ != #[trigger] (a + sep@ + b),
{
    lemma_split_means(s@, sep@);
    let parts = split_of(s@, sep@);
    assert(parts =~= Seq::new(res@.len(), |i: int| res@[i]@));
    assert forall|i: int| 0 <= i < res@.len() - 1 implies ends_first(
        (#[trigger] res@[i])@,
        sep@,
    ) by {
        assert(parts[i] == res@[i]@);
        assert(ends_first(parts[i], sep@));
    }
    assert(parts.last() == res@.last()@);
}

/// The first piece of a text is what stands before the first separator.
pub proof fn lemma_split_first(a: Seq<char>, sep: Seq<char>, b: Seq<char>)
    requires
        sep.len() > 0,
        ends_first(a, sep),
    ensures
        find_from(a + sep + b, sep, 0) == Some(a.len() as int),
        split_of(a + sep + b, sep) == seq![a] + split_of(b, sep),
        split_once_of(a + sep + b, sep) == Some((a, b)),
{
    let s = a + sep + b;
    lemma_find_from(s, sep, 0);
    assert(s.subrange(a.len() as int, (a.len() + sep.len()) as int) =~= sep);
    assert(matches_at(s, sep, a.len() as int));
    let i = find_from(s, sep, 0)->0;
    if i < a.len() {
        assert(s.subrange(i, i + sep.len()) =~= (a + sep).subrange(i, i + sep.len()));
        assert(false);
    }
    assert(s.take(i) =~= a);
    assert(s.skip(i + sep.len()) =~= b);
}

/// Splitting once cuts a text at the first separator; a text without it is not cut.
pub proof fn lemma_split_once(s: &str, sep: &str, res: Option<(String, String)>)
    requires
        call_ensures(split_once, (s, sep), res),
    ensures
        match res {
            Some((a, b)) => s@ == a@ + sep@ + b@ && ends_first(a@, sep@),
            None => forall|a: Seq<char>, b: Seq<char>| s@ != #[trigger] (a + sep@ + b),
        },
{
    let t = s@;
    let p = sep@;
    lemma_find_from(t, p, 0);
    match find_from(t, p, 0) {
        Some(i) => {
            let a = t.take(i);
            assert(a + p =~= t.take(i + p.len())) by {
                assert forall|k: int| 0 <= k < i + p.len() implies (a + p)[k] == t[k] by {
                    if k >= i {
                        assert(t.subrange(i, i + p.len())[k - i] == t[k]);
                    }
                }
            }
            assert(a + p + t.skip(i + p.len()) =~= t);
            assert forall|j: int| 0 <= j < a.len() implies #[trigger] (a + p).subrange(
                j,
                j + p.len(),
            ) != p by {
                assert((a + p).subrange(j, j + p.len()) =~= t.subrange(j, j + p.len()));
                assert(!matches_at(t, p, j));
            }
        },
        None => {
            assert forall|a: Seq<char>, b: Seq<char>| t != #[trigger] (a + p + b) by {
                if t == a + p + b {
                    assert(t.subrange(a.len() as int, (a.len() + p.len()) as int) =~= p);
                    assert(matches_at(t, p, a.len() as int));
                }
            }
        },
    }
}

/// Replacing goes from left to right: what stands before the first occurrence is kept, the
/// occurrence gives way, and the rest is treated alike. A text without the pattern is kept.
pub proof fn lemma_replace(a: Seq<char>, pat: Seq<char>, b: Seq<char>, with: Seq<char>)
    requires
        pat.len() > 0,
    ensures
        ends_first(a, pat) ==> replace_of(a + pat + b, pat, with) == a + with + replace_of(
            b,
            pat,
            with,
        ),
        !contains_text(a, pat) ==> replace_of(a, pat, with) == a,
        replace_of(a, pat, pat) == a,
{
    if ends_first(a, pat) {
        lemma_split_first(a, pat, b);
        let rest = split_of(b, pat);
        lemma_split_means(b, pat);
        let all = seq![a] + rest;
        lemma_joined(all, with);
        lemma_joined(rest, with);
        assert(all.skip(1) =~= rest);
    }
    if !contains_text(a, pat) {
        lemma_find_from(a, pat, 0);
        assert(split_of(a, pat) == seq![a]);
        lemma_joined(seq![a], with);
    }
    lemma_split_means(a, pat);
    lemma_joined(split_of(a, pat), pat);
}

// ---------------------------------------------------------------------------------------------
// Numbers
// ---------------------------------------------------------------------------------------------
/// A number is written with its digits, the last one behind the notation of the other ones, and
/// without zeros in front.
pub proof fn lemma_decimal_digits(n: nat, d: nat)
    requires
        d < 10,
    ensures
        decimal_of(d) == seq![(48 + d) as char],
        n > 0 ==> decimal_of(10 * n + d) == decimal_of(n) + seq![(48 + d) as char],
        n > 0 ==> decimal_of(n)[0] != '0',
    decreases n,
{
    if n > 0 {
        assert((10 * n + d) / 10 == n && (10 * n + d) % 10 == d);
        assert(decimal_of(10 * n + d) =~= decimal_of(n) + seq![(48 + d) as char]);
        if n >= 10 {
            lemma_decimal_digits(n / 10, n % 10);
            crate::text::lemma_decimal_round_trip(n / 10);
            assert(n == 10 * (n / 10) + n % 10);
            assert(decimal_of(n)[0] == decimal_of(n / 10)[0]);
        }
    }
}

/// Digits are read as a number: one digit is its value, and a digit behind others adds to ten
/// times what they stand for. Anything but digits is no number.
pub proof fn lemma_digits_value(s: Seq<char>, c: char)
    ensures
        digits_value(Seq::empty()) is None,
        '0' <= c <= '9' ==> digits_value(seq![c]) == Some((c as int - 48) as nat),
        !('0' <= c <= '9') ==> digits_value(s.push(c)) is None,
        s.len() > 0 && '0' <= c <= '9' ==> digits_value(s.push(c)) == (match digits_value(s) {
            Some(v) => Some((10 * v + (c as int - 48)) as nat),
            None => None,
        }),
{
    assert(s.push(c).drop_last() =~= s);
}

/// An integer is written as its amount, behind a minus sign where it is negative, and read in the
/// same way.
pub proof fn lemma_integer_notation(n: nat, s: Seq<char>)
    ensures
        integer_text(n as int) == decimal_of(n),
        n > 0 ==> integer_text(-(n as int)) == seq!['-'] + decimal_of(n),
        integer_value(seq!['-'] + s) == (match digits_value(s) {
            Some(v) => Some(-(v as int)),
            None => None,
        }),
        !(s.len() > 0 && s[0] == '-') ==> integer_value(s) == (match digits_value(s) {
            Some(v) => Some(v as int),
            None => None,
        }),
{
    reveal_strlit("-");
    assert("-"@ =~= seq!['-']);
    assert((seq!['-'] + s).skip(1) =~= s);
}

/// A number that is written down and read again is the same number, signed or not.
pub proof fn lemma_number_written(n: u64, t: &str, back: Option<u64>)
    requires
        t@ == decimal_of(n as nat),
        call_ensures(number, (t,), back),
    ensures
        back == Some(n),
{
    crate::text::lemma_decimal_round_trip(n as nat);
}

/// An integer that is written down and read again is the same integer.
pub proof fn lemma_integer_written(n: i64, t: &str, back: Option<i64>)
    requires
        t@ == integer_text(n as int),
        call_ensures(signed_number, (t,), back),
    ensures
        back == Some(n),
{
    crate::text::lemma_integer_round_trip(n as int);
}

/// A number is written with digits that stand for it, without zeros in front; an integer with a
/// minus sign in front of its amount where it is negative.
pub proof fn lemma_number_notation(n: u64, text: String, m: i64, signed: String)
    requires
        call_ensures(decimal, (n,), text),
        call_ensures(signed_decimal, (m,), signed),
    ensures
        digits_value(text@) == Some(n as nat),
        n > 0 ==> text@[0] != '0',
        n == 0 ==> text@ == seq!['0'],
        integer_value(signed@) == Some(m as int),
        m < 0 ==> signed@[0] == '-' && signed@[1] != '0',
        m > 0 ==> signed@[0] != '0',
        m == 0 ==> signed@ == seq!['0'],
{
    crate::text::lemma_decimal_round_trip(n as nat);
    crate::text::lemma_integer_round_trip(m as int);
    lemma_decimal_digits(n as nat, 0);
    assert('0' == 48 as char);
    let amount = (if m < 0 {
        -(m as int)
    } else {
        m as int
    }) as nat;
    crate::text::lemma_decimal_round_trip(amount);
    lemma_decimal_digits(amount, 0);
    if m < 0 {
        lemma_integer_notation(amount, Seq::empty());
        assert(signed@ == seq!['-'] + decimal_of(amount));
        assert(signed@[1] == decimal_of(amount)[0]);
    }
}

/// Whether a text holds a pattern: it is the pattern with something before and behind it.
pub proof fn lemma_contains(s: &str, pat: &str, res: bool)
    requires
        call_ensures(contains, (s, pat), res),
    ensures
        res <==> exists|a: Seq<char>, b: Seq<char>| s@ == #[trigger] (a + pat@ + b),
{
    lemma_contains_means(s@, pat@);
}

/// A character is taken off the start of a text as often as it stands there, and nothing else.
pub proof fn lemma_trimmed_of_char(s: &str, c: char, res: String)
    requires
        call_ensures(trim_start_char, (s, c), res),
    ensures
        exists|a: Seq<char>|
            {
                &&& s@ == #[trigger] (a + res@)
                &&& forall|i: int| 0 <= i < a.len() ==> #[trigger] a[i] == c
            },
        res@.len() > 0 ==> res@[0] != c,
{
    lemma_trim_start_char(s@, c);
    let a = s@.take(s@.len() - res@.len());
    assert(s@ =~= a + res@);
    assert forall|i: int| 0 <= i < a.len() implies #[trigger] a[i] == c by {
        assert(a[i] == s@[i]);
    }
}

/// Replacing goes from left to right: what stands before the first occurrence is kept, the
/// occurrence gives way, and the rest is treated alike.
pub proof fn lemma_replaced(s: &str, pat: &str, with: &str, rest: &str, res: String, tail: String)
    requires
        call_ensures(replace, (s, pat, with), res),
        call_ensures(replace, (rest, pat, with), tail),
        pat@.len() > 0,
    ensures
        forall|a: Seq<char>|
            ends_first(a, pat@) && s@ == #[trigger] (a + pat@ + rest@) ==> res@ == a + with@ + tail@,
        (forall|a: Seq<char>, b: Seq<char>| s@ != #[trigger] (a + pat@ + b)) ==> res@ == s@,
{
    assert forall|a: Seq<char>|
        ends_first(a, pat@) && s@ == #[trigger] (a + pat@ + rest@) implies res@ == a + with@
        + tail@ by {
        lemma_replace(a, pat@, rest@, with@);
    }
    if forall|a: Seq<char>, b: Seq<char>| s@ != #[trigger] (a + pat@ + b) {
        lemma_contains_means(s@, pat@);
        lemma_replace(s@, pat@, Seq::empty(), with@);
    }
}

// ---------------------------------------------------------------------------------------------
// Order
// ---------------------------------------------------------------------------------------------
/// Of two texts the one with the smaller character stands before the other, at the first place
/// where they differ; a text stands before all texts that begin with it.
pub proof fn lemma_text_order(a: Seq<char>, b: Seq<char>)
    ensures
        text_le(a, b) <==> a.is_prefix_of(b) || exists|i: int|
            {
                &&& 0 <= i < a.len()
                &&& i < b.len()
                &&& a.take(i) == b.take(i)
                &&& #[trigger] a[i] < b[i]
            },
    decreases a.len(),
{
    if a.len() == 0 {
        assert(a =~= b.take(0));
    } else if b.len() == 0 {
    } else if a[0] != b[0] {
        if a[0] < b[0] {
            assert(a.take(0) =~= b.take(0));
        }
        assert forall|i: int| 0 < i < a.len() && i < b.len() implies a.take(i) != b.take(i) by {
            assert(a.take(i)[0] != b.take(i)[0]);
        }
        if a.is_prefix_of(b) {
            assert(b.take(a.len() as int)[0] == a[0]);
        }
    } else {
        let p = a.skip(1);
        let q = b.skip(1);
        lemma_text_order(p, q);
        if p.is_prefix_of(q) {
            assert(a =~= b.subrange(0, a.len() as int)) by {
                assert forall|i: int| 0 <= i < a.len() implies a[i] == b[i] by {
                    if i > 0 {
                        assert(p[i - 1] == q.subrange(0, p.len() as int)[i - 1]);
                    }
                }
            }
        }
        if a.is_prefix_of(b) {
            assert(p =~= q.subrange(0, p.len() as int)) by {
                assert forall|i: int| 0 <= i < p.len() implies p[i] == q[i] by {
                    assert(a[i + 1] == b.subrange(0, a.len() as int)[i + 1]);
                }
            }
        }
        if exists|i: int|
            {
                &&& 0 <= i < p.len()
                &&& i < q.len()
                &&& p.take(i) == q.take(i)
                &&& #[trigger] p[i] < q[i]
            } {
            let i = choose|i: int|
                {
                    &&& 0 <= i < p.len()
                    &&& i < q.len()
                    &&& p.take(i) == q.take(i)
                    &&& #[trigger] p[i] < q[i]
                };
            assert(a.take(i + 1) =~= b.take(i + 1)) by {
                assert forall|k: int| 0 <= k < i + 1 implies a[k] == b[k] by {
                    if k > 0 {
                        assert(p.take(i)[k - 1] == q.take(i)[k - 1]);
                    }
                }
            }
            assert(a[i + 1] < b[i + 1]);
        }
        if exists|i: int|
            {
                &&& 0 <= i < a.len()
                &&& i < b.len()
                &&& a.take(i) == b.take(i)
                &&& #[trigger] a[i] < b[i]
            } {
            let i = choose|i: int|
                {
                    &&& 0 <= i < a.len()
                    &&& i < b.len()
                    &&& a.take(i) == b.take(i)
                    &&& #[trigger] a[i] < b[i]
                };
            assert(p.take(i - 1) =~= q.take(i - 1)) by {
                assert forall|k: int| 0 <= k < i - 1 implies p[k] == q[k] by {
                    assert(a.take(i)[k + 1] == b.take(i)[k + 1]);
                }
            }
            assert(p[i - 1] < q[i - 1]);
        }
    }
}

/// Sorting keeps every text as often as it is there, and puts none behind one that it stands
/// before.
pub proof fn lemma_sorted(texts: Vec<String>, res: Vec<String>)
    requires
        call_ensures(sort_texts, (texts,), res),
    ensures
        res@.len() == texts@.len(),
        views(res@).to_multiset() == views(texts@).to_multiset(),
        forall|i: int, j: int|
            0 <= i < j < res@.len() && (#[trigger] res@[j])@ != (#[trigger] res@[i])@ ==> !text_le(
                res@[j]@,
                res@[i]@,
            ),
{
    assert(views(res@).len() == res@.len() && views(texts@).len() == texts@.len());
    views(res@).to_multiset_ensures();
    views(texts@).to_multiset_ensures();
    assert forall|i: int, j: int|
        0 <= i < j < res@.len() && (#[trigger] res@[j])@ != (#[trigger] res@[i])@ implies !text_le(
        res@[j]@,
        res@[i]@,
    ) by {
        assert(text_le(views(res@)[i], views(res@)[j]));
        if text_le(res@[j]@, res@[i]@) {
            crate::sorting::lemma_text_le_antisymmetric(res@[j]@, res@[i]@);
        }
    }
}

} // verus!
