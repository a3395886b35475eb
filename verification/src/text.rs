//! Text as sequences of characters: trimming, searching, splitting, joining and decimal numbers.
use vstd::prelude::*;

verus! {

/// `String::push` appends the given character to the end of the string.
pub assume_specification[ String::push ](s: &mut String, c: char)
    ensures
        final(s)@ == old(s)@.push(c),
;

// ---------------------------------------------------------------------------------------------
// What the functions below compute
// ---------------------------------------------------------------------------------------------
/// The characters with the Unicode property `White_Space`.
pub open spec fn is_white_space(c: char) -> bool {
    let n = c as u32;
    ||| 0x9 <= n <= 0xd
    ||| n == 0x20
    ||| n == 0x85
    ||| n == 0xa0
    ||| n == 0x1680
    ||| 0x2000 <= n <= 0x200a
    ||| n == 0x2028
    ||| n == 0x2029
    ||| n == 0x202f
    ||| n == 0x205f
    ||| n == 0x3000
}

/// `s` without its leading white space.
pub open spec fn trim_start_of(s: Seq<char>) -> Seq<char>
    decreases s.len(),
{
    if s.len() > 0 && is_white_space(s[0]) {
        trim_start_of(s.skip(1))
    } else {
        s
    }
}

/// `s` without its trailing white space.
pub open spec fn trim_end_of(s: Seq<char>) -> Seq<char>
    decreases s.len(),
{
    if s.len() > 0 && is_white_space(s.last()) {
        trim_end_of(s.drop_last())
    } else {
        s
    }
}

/// `s` without leading and trailing white space.
pub open spec fn trim_of(s: Seq<char>) -> Seq<char> {
    trim_end_of(trim_start_of(s))
}

/// `pat` stands in `s` at position `i`.
pub open spec fn matches_at(s: Seq<char>, pat: Seq<char>, i: int) -> bool {
    &&& 0 <= i
    &&& i + pat.len() <= s.len()
    &&& s.subrange(i, i + pat.len()) == pat
}

/// `pat` stands somewhere in `s`.
pub open spec fn contains_text(s: Seq<char>, pat: Seq<char>) -> bool {
    exists|i: int| matches_at(s, pat, i)
}

/// The first position from `i` on at which `pat` stands in `s`.
pub open spec fn find_from(s: Seq<char>, pat: Seq<char>, i: int) -> Option<int>
    decreases s.len() + 1 - i,
{
    if i < 0 || i + pat.len() > s.len() {
        None
    } else if matches_at(s, pat, i) {
        Some(i)
    } else {
        find_from(s, pat, i + 1)
    }
}

/// The pieces of `s` between the occurrences of `sep`, taken from left to right without overlap.
/// An empty separator leaves `s` whole.
pub open spec fn split_of(s: Seq<char>, sep: Seq<char>) -> Seq<Seq<char>>
    decreases s.len(),
{
    if sep.len() == 0 {
        seq![s]
    } else {
        match find_from(s, sep, 0) {
            None => seq![s],
            Some(i) => {
                proof {
                    lemma_find_from(s, sep, 0);
                }
                seq![s.take(i)] + split_of(s.skip(i + sep.len()), sep)
            },
        }
    }
}

/// What stands before and behind the first occurrence of `sep`.
pub open spec fn split_once_of(s: Seq<char>, sep: Seq<char>) -> Option<(Seq<char>, Seq<char>)> {
    match find_from(s, sep, 0) {
        Some(i) => Some((s.take(i), s.skip(i + sep.len()))),
        None => None,
    }
}

/// `s` without the occurrences of `c` at its start.
pub open spec fn trim_start_char_of(s: Seq<char>, c: char) -> Seq<char>
    decreases s.len(),
{
    if s.len() > 0 && s[0] == c {
        trim_start_char_of(s.skip(1), c)
    } else {
        s
    }
}

/// The pieces with `sep` between each two of them.
pub open spec fn join_of(parts: Seq<Seq<char>>, sep: Seq<char>) -> Seq<char>
    decreases parts.len(),
{
    if parts.len() == 0 {
        Seq::empty()
    } else if parts.len() == 1 {
        parts[0]
    } else {
        join_of(parts.drop_last(), sep) + sep + parts.last()
    }
}

/// `s` with every occurrence of `pat` replaced by `with`.
pub open spec fn replace_of(s: Seq<char>, pat: Seq<char>, with: Seq<char>) -> Seq<char> {
    join_of(split_of(s, pat), with)
}

/// The decimal digit `d`.
pub open spec fn digit(d: nat) -> char {
    (48 + d) as char
}

/// `n` in decimal notation, without leading zeros.
pub open spec fn decimal_of(n: nat) -> Seq<char>
    decreases n,
{
    if n < 10 {
        seq![digit(n)]
    } else {
        decimal_of(n / 10).push(digit(n % 10))
    }
}

/// The number that a text of decimal digits stands for; none for any other text.
pub open spec fn digits_value(s: Seq<char>) -> Option<nat>
    decreases s.len(),
{
    if s.len() == 0 || !('0' <= s.last() <= '9') {
        None
    } else {
        let d = (s.last() as int - 48) as nat;
        if s.len() == 1 {
            Some(d)
        } else {
            match digits_value(s.drop_last()) {
                Some(v) => Some(10 * v + d),
                None => None,
            }
        }
    }
}

/// `n` in decimal notation, with a minus sign where it is negative.
pub open spec fn integer_text(n: int) -> Seq<char> {
    if n < 0 {
        "-"@ + decimal_of((-n) as nat)
    } else {
        decimal_of(n as nat)
    }
}

/// The integer that a text stands for; none where it is not decimal digits behind at most one
/// minus sign.
pub open spec fn integer_value(s: Seq<char>) -> Option<int> {
    if s.len() > 0 && s[0] == '-' {
        match digits_value(s.skip(1)) {
            Some(v) => Some(-(v as int)),
            None => None,
        }
    } else {
        match digits_value(s) {
            Some(v) => Some(v as int),
            None => None,
        }
    }
}

/// The views of the strings of a sequence.
pub open spec fn views(v: Seq<String>) -> Seq<Seq<char>> {
    Seq::new(v.len(), |i: int| v[i]@)
}

/// The view of an optional string.
pub open spec fn opt_view(s: Option<String>) -> Option<Seq<char>> {
    match s {
        Some(t) => Some(t@),
        None => None,
    }
}

// ---------------------------------------------------------------------------------------------
// Facts
// ---------------------------------------------------------------------------------------------
/// A position that `find_from` gives is the first one at which the pattern stands, and it gives
/// none only where the pattern does not stand at all.
pub proof fn lemma_find_from(s: Seq<char>, pat: Seq<char>, i: int)
    requires
        0 <= i,
    ensures
        match find_from(s, pat, i) {
            Some(j) => i <= j && matches_at(s, pat, j) && forall|k: int|
                i <= k < j ==> !matches_at(s, pat, k),
            None => forall|k: int| i <= k ==> !matches_at(s, pat, k),
        },
    decreases s.len() + 1 - i,
{
    if i + pat.len() > s.len() {
    } else if matches_at(s, pat, i) {
    } else {
        lemma_find_from(s, pat, i + 1);
    }
}

proof fn lemma_find_from_skip(s: Seq<char>, pat: Seq<char>, k: int, i: int)
    requires
        0 <= k <= s.len(),
        0 <= i,
    ensures
        find_from(s, pat, k + i) == (match find_from(s.skip(k), pat, i) {
            Some(j) => Some(j + k),
            None => None,
        }),
    decreases s.len() + 1 - k - i,
{
    let t = s.skip(k);
    if k + i + pat.len() <= s.len() {
        assert(t.subrange(i, i + pat.len()) =~= s.subrange(k + i, k + i + pat.len()));
        if !matches_at(s, pat, k + i) {
            lemma_find_from_skip(s, pat, k, i + 1);
        }
    }
}

/// Text that holds a pattern still holds it when more is put around it.
pub proof fn lemma_contains_within(before: Seq<char>, s: Seq<char>, after: Seq<char>, pat: Seq<char>)
    requires
        contains_text(s, pat),
    ensures
        contains_text(before + s + after, pat),
{
    let i = choose|i: int| matches_at(s, pat, i);
    let t = before + s + after;
    assert(t.subrange(before.len() + i, before.len() + i + pat.len()) =~= s.subrange(
        i,
        i + pat.len(),
    ));
    assert(matches_at(t, pat, before.len() + i));
}

proof fn lemma_trim_start(s: Seq<char>)
    ensures
        trim_start_of(s).len() <= s.len(),
        trim_start_of(s) == s.skip(s.len() - trim_start_of(s).len()),
        trim_start_of(s).len() > 0 ==> !is_white_space(trim_start_of(s)[0]),
    decreases s.len(),
{
    if s.len() > 0 && is_white_space(s[0]) {
        lemma_trim_start(s.skip(1));
        let r = trim_start_of(s);
        assert(s.skip(1).skip(s.skip(1).len() - r.len()) =~= s.skip(s.len() - r.len()));
    } else {
        assert(s.skip(0) =~= s);
    }
}

proof fn lemma_trim_end(s: Seq<char>)
    ensures
        trim_end_of(s).len() <= s.len(),
        trim_end_of(s) == s.take(trim_end_of(s).len() as int),
        trim_end_of(s).len() > 0 ==> !is_white_space(trim_end_of(s).last()),
    decreases s.len(),
{
    if s.len() > 0 && is_white_space(s.last()) {
        lemma_trim_end(s.drop_last());
        let r = trim_end_of(s);
        assert(s.drop_last().take(r.len() as int) =~= s.take(r.len() as int));
    } else {
        assert(s.take(s.len() as int) =~= s);
    }
}

/// Trimmed text neither begins nor ends with white space.
pub proof fn lemma_trim_of(s: Seq<char>)
    ensures
        trim_of(s).len() <= s.len(),
        trim_of(s).len() > 0 ==> !is_white_space(trim_of(s)[0]) && !is_white_space(
            trim_of(s).last(),
        ),
{
    lemma_trim_start(s);
    lemma_trim_end(trim_start_of(s));
}

/// A number is read back from its decimal notation.
pub proof fn lemma_decimal_round_trip(n: nat)
    ensures
        digits_value(decimal_of(n)) == Some(n),
        decimal_of(n).len() > 0,
        '0' <= decimal_of(n)[0] <= '9',
    decreases n,
{
    if n >= 10 {
        lemma_decimal_round_trip(n / 10);
        assert(decimal_of(n).drop_last() =~= decimal_of(n / 10));
    }
}

/// An integer is read back from its decimal notation.
pub proof fn lemma_integer_round_trip(n: int)
    ensures
        integer_value(integer_text(n)) == Some(n),
{
    if n < 0 {
        reveal_strlit("-");
        lemma_decimal_round_trip((-n) as nat);
        assert(integer_text(n).skip(1) =~= decimal_of((-n) as nat));
    } else {
        lemma_decimal_round_trip(n as nat);
    }
}

proof fn lemma_digits_prefix(s: Seq<char>, i: int)
    requires
        1 <= i <= s.len(),
    ensures
        digits_value(s) is Some ==> digits_value(s.take(i)) is Some && digits_value(s.take(i))->0
            <= digits_value(s)->0,
    decreases s.len() - i,
{
    if i < s.len() {
        lemma_digits_prefix(s, i + 1);
        assert(s.take(i + 1).drop_last() =~= s.take(i));
    } else {
        assert(s.take(i) =~= s);
    }
}

/// The pieces between the occurrences of a separator of one character do not hold that character.
pub proof fn lemma_split_pieces(s: Seq<char>, sep: Seq<char>)
    requires
        sep.len() == 1,
    ensures
        forall|i: int|
            0 <= i < split_of(s, sep).len() ==> !(#[trigger] split_of(s, sep)[i]).contains(sep[0]),
    decreases s.len(),
{
    lemma_find_from(s, sep, 0);
    assert forall|k: int| 0 <= k < s.len() && !matches_at(s, sep, k) implies s[k] != sep[0] by {
        if s[k] == sep[0] {
            assert(s.subrange(k, k + 1) =~= sep);
        }
    }
    match find_from(s, sep, 0) {
        None => {},
        Some(i) => {
            let rest = s.skip(i + 1);
            lemma_split_pieces(rest, sep);
            let all = split_of(s, sep);
            assert forall|k: int| 0 <= k < all.len() implies !(#[trigger] all[k]).contains(
                sep[0],
            ) by {
                if k > 0 {
                    assert(all[k] == split_of(rest, sep)[k - 1]);
                } else {
                    assert(all[0] == s.take(i));
                }
            }
        },
    }
}

/// A text that is put together with a separator of one character falls into the pieces of its
/// parts.
pub proof fn lemma_split_together(a: Seq<char>, b: Seq<char>, sep: Seq<char>)
    requires
        sep.len() == 1,
    ensures
        split_of(a + sep + b, sep) == split_of(a, sep) + split_of(b, sep),
    decreases a.len(),
{
    let s = a + sep + b;
    lemma_find_from(s, sep, 0);
    lemma_find_from(a, sep, 0);
    assert forall|k: int| 0 <= k < a.len() implies matches_at(s, sep, k) == matches_at(
        a,
        sep,
        k,
    ) by {
        assert(s.subrange(k, k + 1) =~= a.subrange(k, k + 1));
    }
    assert(s.subrange(a.len() as int, (a.len() + 1) as int) =~= sep);
    assert(matches_at(s, sep, a.len() as int));
    let at = find_from(s, sep, 0)->0;
    match find_from(a, sep, 0) {
        None => {
            assert(at == a.len()) by {
                if at < a.len() {
                    assert(matches_at(a, sep, at));
                }
            }
            assert(s.take(at) =~= a);
            assert(s.skip(at + 1) =~= b);
            assert(split_of(s, sep) =~= seq![a] + split_of(b, sep));
        },
        Some(i) => {
            assert(at == i) by {
                if at < i {
                    assert(matches_at(a, sep, at));
                }
            }
            assert(s.take(i) =~= a.take(i));
            assert(s.skip(i + 1) =~= a.skip(i + 1) + sep + b);
            lemma_split_together(a.skip(i + 1), b, sep);
            assert(split_of(s, sep) =~= split_of(a, sep) + split_of(b, sep));
        },
    }
}

/// Trimmed text holds no character that was not there before.
pub proof fn lemma_trim_keeps(s: Seq<char>, c: char)
    requires
        !s.contains(c),
    ensures
        !trim_of(s).contains(c),
{
    lemma_trim_start(s);
    lemma_trim_end(trim_start_of(s));
    let t = trim_start_of(s);
    let u = trim_of(s);
    if u.contains(c) {
        let i = choose|i: int| 0 <= i < u.len() && u[i] == c;
        assert(t[i] == c);
        assert(s[i + s.len() - t.len()] == c);
    }
}

/// Joined text holds no character that is neither in a piece nor in the separator.
pub proof fn lemma_join_keeps(parts: Seq<Seq<char>>, sep: Seq<char>, c: char)
    requires
        forall|i: int| 0 <= i < parts.len() ==> !(#[trigger] parts[i]).contains(c),
        !sep.contains(c),
    ensures
        !join_of(parts, sep).contains(c),
    decreases parts.len(),
{
    if parts.len() > 1 {
        let rest = parts.drop_last();
        assert forall|i: int| 0 <= i < rest.len() implies !(#[trigger] rest[i]).contains(c) by {
            assert(rest[i] == parts[i]);
        }
        lemma_join_keeps(rest, sep, c);
        let j = join_of(parts, sep);
        let a = join_of(rest, sep);
        if j.contains(c) {
            let i = choose|i: int| 0 <= i < j.len() && j[i] == c;
            if i < a.len() {
                assert(a[i] == c);
            } else if i < a.len() + sep.len() {
                assert(sep[i - a.len()] == c);
            } else {
                assert(parts[parts.len() - 1][i - a.len() - sep.len()] == c);
            }
        }
    } else if parts.len() == 1 {
        assert(!parts[0].contains(c));
    }
}

// ---------------------------------------------------------------------------------------------
// The functions
// ---------------------------------------------------------------------------------------------
/// The characters of a string slice, in order.
pub fn chars_of(s: &str) -> (res: Vec<char>)
    ensures
        res@ == s@,
{
    let mut out: Vec<char> = Vec::new();
    for c in it: s.chars()
        invariant
            it.seq() == s@,
            out@ == s@.take(it.index() as int),
    {
        out.push(c);
    }
    out
}

/// The string with the characters of `v` from `from` up to `to`.
pub fn string_of(v: &Vec<char>, from: usize, to: usize) -> (res: String)
    requires
        from <= to <= v@.len(),
    ensures
        res@ == v@.subrange(from as int, to as int),
{
    let mut out = String::new();
    let mut i: usize = from;
    while i < to
        invariant
            from <= i <= to <= v@.len(),
            out@ == v@.subrange(from as int, i as int),
        decreases to - i,
    {
        out.push(v[i]);
        i += 1;
        assert(v@.subrange(from as int, i as int) =~= v@.subrange(from as int, i - 1).push(
            v@[i - 1],
        ));
    }
    out
}

/// Whether two texts are equal.
pub fn same_text(a: &str, b: &str) -> (res: bool)
    ensures
        res == (a@ == b@),
{
    a.to_owned() == b.to_owned()
}

fn white_space(c: char) -> (res: bool)
    ensures
        res == is_white_space(c),
{
    let n: u32 = c as u32;
    (0x9 <= n && n <= 0xd) || n == 0x20 || n == 0x85 || n == 0xa0 || n == 0x1680 || (0x2000 <= n
        && n <= 0x200a) || n == 0x2028 || n == 0x2029 || n == 0x202f || n == 0x205f || n == 0x3000
}

/// `s` without leading and trailing white space.
pub fn trim(s: &str) -> (res: String)
    ensures
        res@ == trim_of(s@),
{
    let v = chars_of(s);
    let n: usize = v.len();
    let mut from: usize = 0;
    assert(v@.skip(0) =~= v@);
    while from < n && white_space(v[from])
        invariant
            from <= n == v@.len(),
            trim_start_of(v@) == trim_start_of(v@.skip(from as int)),
        decreases n - from,
    {
        assert(v@.skip(from as int).skip(1) =~= v@.skip(from + 1));
        from += 1;
    }
    let ghost t = v@.skip(from as int);
    let mut to: usize = n;
    assert(v@.subrange(from as int, n as int) =~= t);
    while to > from && white_space(v[to - 1])
        invariant
            from <= to <= n == v@.len(),
            trim_end_of(t) == trim_end_of(v@.subrange(from as int, to as int)),
        decreases to,
    {
        assert(v@.subrange(from as int, to as int).drop_last() =~= v@.subrange(
            from as int,
            to - 1,
        ));
        to -= 1;
    }
    string_of(&v, from, to)
}

fn stands_at(v: &Vec<char>, pat: &Vec<char>, i: usize) -> (res: bool)
    requires
        i + pat@.len() <= v@.len(),
    ensures
        res == matches_at(v@, pat@, i as int),
{
    let n: usize = v.len();
    let mut k: usize = 0;
    while k < pat.len()
        invariant
            k <= pat@.len(),
            i + pat@.len() <= v@.len() == n,
            forall|j: int| 0 <= j < k ==> v@[i + j] == pat@[j],
        decreases pat@.len() - k,
    {
        if v[i + k] != pat[k] {
            assert(v@.subrange(i as int, i + pat@.len())[k as int] != pat@[k as int]);
            return false;
        }
        k += 1;
    }
    assert(v@.subrange(i as int, i + pat@.len()) =~= pat@);
    true
}

fn find(v: &Vec<char>, pat: &Vec<char>, from: usize) -> (res: Option<usize>)
    requires
        from <= v@.len(),
    ensures
        match res {
            Some(i) => find_from(v@, pat@, from as int) == Some(i as int) && from <= i && i
                + pat@.len() <= v@.len(),
            None => find_from(v@, pat@, from as int) is None,
        },
{
    let mut i: usize = from;
    while i <= v.len() && pat.len() <= v.len() - i
        invariant
            from <= i <= v@.len() + 1,
            find_from(v@, pat@, from as int) == find_from(v@, pat@, i as int),
        decreases v@.len() + 1 - i,
    {
        if stands_at(v, pat, i) {
            return Some(i);
        }
        if i == v.len() {
            assert(find_from(v@, pat@, i + 1) is None);
            return None;
        }
        i += 1;
    }
    None
}

/// Whether `pat` stands somewhere in `s`.
pub fn contains(s: &str, pat: &str) -> (res: bool)
    ensures
        res == contains_text(s@, pat@),
{
    let v = chars_of(s);
    let p = chars_of(pat);
    proof {
        lemma_find_from(v@, p@, 0);
    }
    let found = find(&v, &p, 0);
    found.is_some()
}

/// Whether `s` begins with `pat`.
pub fn starts_with(s: &str, pat: &str) -> (res: bool)
    ensures
        res == pat@.is_prefix_of(s@),
{
    let v = chars_of(s);
    let p = chars_of(pat);
    p.len() <= v.len() && stands_at(&v, &p, 0)
}

/// Whether `s` ends with `pat`.
pub fn ends_with(s: &str, pat: &str) -> (res: bool)
    ensures
        res == pat@.is_suffix_of(s@),
{
    let v = chars_of(s);
    let p = chars_of(pat);
    p.len() <= v.len() && stands_at(&v, &p, v.len() - p.len())
}

/// The pieces of `s` between the occurrences of `sep`.
pub fn split(s: &str, sep: &str) -> (res: Vec<String>)
    requires
        sep@.len() > 0,
    ensures
        views(res@) == split_of(s@, sep@),
        res@.len() > 0,
{
    let v = chars_of(s);
    let p = chars_of(sep);
    let mut out: Vec<String> = Vec::new();
    let mut from: usize = 0;
    assert(v@.skip(0) =~= v@);
    assert(views(out@) + split_of(v@, p@) =~= split_of(v@, p@));
    loop
        invariant
            v@ == s@,
            p@ == sep@,
            p@.len() > 0,
            from <= v@.len(),
            split_of(v@, p@) == views(out@) + split_of(v@.skip(from as int), p@),
        decreases v@.len() - from,
    {
        let n: usize = v.len();
        let ghost rest = v@.skip(from as int);
        let ghost before = views(out@);
        proof {
            lemma_find_from_skip(v@, p@, from as int, 0);
        }
        match find(&v, &p, from) {
            None => {
                out.push(string_of(&v, from, n));
                assert(v@.subrange(from as int, v@.len() as int) =~= rest);
                assert(views(out@) =~= before + seq![rest]);
                return out;
            },
            Some(i) => {
                out.push(string_of(&v, from, i));
                let ghost k = i - from;
                assert(v@.subrange(from as int, i as int) =~= rest.take(k));
                assert(rest.skip(k + p@.len()) =~= v@.skip(i + p@.len()));
                assert(views(out@) =~= before + seq![rest.take(k)]);
                assert(i + p@.len() <= n);
                from = i + p.len();
                assert(before + (seq![rest.take(k)] + split_of(v@.skip(from as int), p@))
                    =~= views(out@) + split_of(v@.skip(from as int), p@));
            },
        }
    }
}

/// What stands before and behind the first occurrence of `sep`.
pub fn split_once(s: &str, sep: &str) -> (res: Option<(String, String)>)
    ensures
        match res {
            Some((before, behind)) => split_once_of(s@, sep@) == Some((before@, behind@)),
            None => split_once_of(s@, sep@) is None,
        },
{
    let v = chars_of(s);
    let p = chars_of(sep);
    let n: usize = v.len();
    match find(&v, &p, 0) {
        Some(i) => {
            assert(v@.subrange(0, i as int) =~= v@.take(i as int));
            assert(v@.subrange(i + p@.len(), n as int) =~= v@.skip(i + p@.len()));
            Some((string_of(&v, 0, i), string_of(&v, i + p.len(), n)))
        },
        None => None,
    }
}

/// `s` without the occurrences of `c` at its start.
pub fn trim_start_char(s: &str, c: char) -> (res: String)
    ensures
        res@ == trim_start_char_of(s@, c),
{
    let v = chars_of(s);
    let n: usize = v.len();
    let mut from: usize = 0;
    assert(v@.skip(0) =~= v@);
    while from < n && v[from] == c
        invariant
            from <= n == v@.len(),
            trim_start_char_of(v@, c) == trim_start_char_of(v@.skip(from as int), c),
        decreases n - from,
    {
        assert(v@.skip(from as int).skip(1) =~= v@.skip(from + 1));
        from += 1;
    }
    assert(v@.subrange(from as int, n as int) =~= v@.skip(from as int));
    string_of(&v, from, n)
}

/// The pieces with `sep` between each two of them.
pub fn join(parts: &Vec<String>, sep: &str) -> (res: String)
    ensures
        res@ == join_of(views(parts@), sep@),
{
    let mut out = String::new();
    let mut i: usize = 0;
    assert(views(parts@).take(0) =~= Seq::empty());
    while i < parts.len()
        invariant
            i <= parts@.len(),
            out@ == join_of(views(parts@).take(i as int), sep@),
        decreases parts@.len() - i,
    {
        let ghost upto = views(parts@).take(i + 1);
        assert(upto.drop_last() =~= views(parts@).take(i as int));
        if i > 0 {
            out.append(sep);
        }
        out.append(parts[i].as_str());
        assert(out@ =~= join_of(upto, sep@));
        i += 1;
    }
    assert(views(parts@).take(parts@.len() as int) =~= views(parts@));
    out
}

/// `s` with every occurrence of `pat` replaced by `with`.
pub fn replace(s: &str, pat: &str, with: &str) -> (res: String)
    requires
        pat@.len() > 0,
    ensures
        res@ == replace_of(s@, pat@, with@),
{
    let parts = split(s, pat);
    join(&parts, with)
}

/// `n` in decimal notation.
pub fn decimal(n: u64) -> (res: String)
    ensures
        res@ == decimal_of(n as nat),
    decreases n,
{
    let mut out = if n < 10 {
        String::new()
    } else {
        decimal(n / 10)
    };
    let d: u8 = (n % 10) as u8;
    out.push((48 + d) as char);
    assert(out@ =~= decimal_of(n as nat));
    out
}

fn digits(v: &Vec<char>, from: usize) -> (res: Option<u64>)
    requires
        from <= v@.len(),
    ensures
        match res {
            Some(n) => digits_value(v@.skip(from as int)) == Some(n as nat),
            None => match digits_value(v@.skip(from as int)) {
                Some(n) => n > u64::MAX,
                None => true,
            },
        },
{
    let n: usize = v.len();
    let ghost t = v@.skip(from as int);
    if from == n {
        return None;
    }
    let mut value: u64 = 0;
    let mut i: usize = from;
    while i < n
        invariant
            from <= i <= n == v@.len(),
            from < n,
            t == v@.skip(from as int),
            i == from ==> value == 0,
            i > from ==> digits_value(t.take(i - from)) == Some(value as nat),
        decreases n - i,
    {
        let c = v[i];
        let ghost k = i - from;
        proof {
            lemma_digits_prefix(t, k + 1);
            assert(t.take(k + 1).drop_last() =~= t.take(k));
            assert(t.take(k + 1).last() == c);
        }
        if !('0' <= c && c <= '9') {
            return None;
        }
        let d: u64 = (c as u32 - 48) as u64;
        match value.checked_mul(10) {
            None => return None,
            Some(tens) => match tens.checked_add(d) {
                None => return None,
                Some(next) => {
                    value = next;
                },
            },
        }
        i += 1;
    }
    assert(t.take(n - from) =~= t);
    Some(value)
}

/// The number that a text of decimal digits stands for, where it fits.
pub fn number(s: &str) -> (res: Option<u64>)
    ensures
        match res {
            Some(n) => digits_value(s@) == Some(n as nat),
            None => match digits_value(s@) {
                Some(n) => n > u64::MAX,
                None => true,
            },
        },
{
    let v = chars_of(s);
    assert(v@.skip(0) =~= s@);
    digits(&v, 0)
}

/// `n` in decimal notation, with a minus sign where it is negative.
pub fn signed_decimal(n: i64) -> (res: String)
    ensures
        res@ == integer_text(n as int),
{
    if n < 0 {
        let m: u64 = (-(n as i128)) as u64;
        "-".to_owned().concat(decimal(m).as_str())
    } else {
        decimal(n as u64)
    }
}

/// The integer that a text stands for, where it fits.
pub fn signed_number(s: &str) -> (res: Option<i64>)
    ensures
        match res {
            Some(n) => integer_value(s@) == Some(n as int),
            None => match integer_value(s@) {
                Some(n) => n < i64::MIN || n > i64::MAX,
                None => true,
            },
        },
{
    let v = chars_of(s);
    if v.len() > 0 && v[0] == '-' {
        match digits(&v, 1) {
            Some(m) => {
                let n: i128 = -(m as i128);
                if n >= -0x8000_0000_0000_0000i128 {
                    Some(n as i64)
                } else {
                    None
                }
            },
            None => None,
        }
    } else {
        assert(v@.skip(0) =~= s@);
        match digits(&v, 0) {
            Some(m) => if m <= 0x7fff_ffff_ffff_ffffu64 {
                Some(m as i64)
            } else {
                None
            },
            None => None,
        }
    }
}

} // verus!
