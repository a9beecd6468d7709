//! Character-level text operations with exact specifications.

use vstd::prelude::*;
use vstd::string::*;

verus! {

/// `needle` occurs in `hay` starting at position `i`.
pub open spec fn occurs_at(hay: Seq<char>, needle: Seq<char>, i: int) -> bool {
    0 <= i && i + needle.len() <= hay.len() && hay.subrange(i, i + needle.len()) == needle
}

/// `needle` occurs somewhere in `hay`.
pub open spec fn contains_seq(hay: Seq<char>, needle: Seq<char>) -> bool {
    exists|i: int| occurs_at(hay, needle, i)
}

/// Left-to-right, non-overlapping replacement of every occurrence of a
/// non-empty `from` by `to`.
pub open spec fn replace_seq(s: Seq<char>, from: Seq<char>, to: Seq<char>) -> Seq<char>
    decreases s.len(),
{
    if from.len() == 0 || s.len() < from.len() {
        s
    } else if s.subrange(0, from.len() as int) == from {
        to + replace_seq(s.subrange(from.len() as int, s.len() as int), from, to)
    } else {
        seq![s[0]] + replace_seq(s.subrange(1, s.len() as int), from, to)
    }
}

/// Relies on str::chars: the characters of the string in order.
#[verifier::external_body]
pub(crate) fn chars_of(s: &str) -> (r: Vec<char>)
    ensures
        r@ == s@,
{
    s.chars().collect()
}

/// Relies on String's FromIterator<&char>: the string made of the characters in order.
#[verifier::external_body]
pub(crate) fn string_of(v: &Vec<char>) -> (r: String)
    ensures
        r@ == v@,
{
    v.iter().collect()
}

/// Whether `hay[i..i + needle.len()]` equals `needle`.
pub fn matches_at(hay: &Vec<char>, needle: &Vec<char>, i: usize) -> (r: bool)
    ensures
        r == occurs_at(hay@, needle@, i as int),
{
    if i > hay.len() || needle.len() > hay.len() - i {
        return false;
    }
    let n = needle.len();
    let mut k: usize = 0;
    while k < n
        invariant
            n == needle@.len(),
            i + n <= hay@.len(),
            i + n <= hay.len(),
            k <= n,
            forall|j: int| 0 <= j < k ==> hay@[i + j] == needle@[j],
        decreases n - k,
    {
        if hay[i + k] != needle[k] {
            assert(hay@.subrange(i as int, i + n)[k as int] != needle@[k as int]);
            return false;
        }
        k = k + 1;
    }
    assert(hay@.subrange(i as int, i + n) =~= needle@);
    true
}

/// Whether `needle` occurs anywhere in `hay`.
pub fn contains_chars(hay: &Vec<char>, needle: &Vec<char>) -> (r: bool)
    ensures
        r == contains_seq(hay@, needle@),
{
    let mut i: usize = 0;
    while i < hay.len()
        invariant
            i <= hay@.len(),
            forall|j: int| 0 <= j < i ==> !occurs_at(hay@, needle@, j),
        decreases hay.len() - i,
    {
        if matches_at(hay, needle, i) {
            return true;
        }
        i = i + 1;
    }
    matches_at(hay, needle, i)
}

/// Whether `needle` occurs anywhere in `hay`.
pub fn contains_str(hay: &str, needle: &str) -> (r: bool)
    ensures
        r == contains_seq(hay@, needle@),
{
    let h = chars_of(hay);
    let n = chars_of(needle);
    contains_chars(&h, &n)
}

proof fn lemma_replace_step(s: Seq<char>, from: Seq<char>, to: Seq<char>, i: int)
    requires
        from.len() > 0,
        0 <= i <= s.len(),
    ensures
        i + from.len() <= s.len() && s.subrange(i, i + from.len()) == from ==> replace_seq(
            s.subrange(i, s.len() as int),
            from,
            to,
        ) == to + replace_seq(s.subrange(i + from.len(), s.len() as int), from, to),
        i < s.len() && !(i + from.len() <= s.len() && s.subrange(i, i + from.len()) == from)
            ==> replace_seq(s.subrange(i, s.len() as int), from, to) == seq![s[i]]
            + replace_seq(s.subrange(i + 1, s.len() as int), from, to),
        s.len() < i + from.len() ==> replace_seq(s.subrange(i, s.len() as int), from, to)
            == s.subrange(i, s.len() as int),
{
    let t = s.subrange(i, s.len() as int);
    if i + from.len() <= s.len() {
        assert(t.subrange(0, from.len() as int) =~= s.subrange(i, i + from.len()));
        assert(t.subrange(from.len() as int, t.len() as int) =~= s.subrange(
            i + from.len(),
            s.len() as int,
        ));
    }
    if i < s.len() {
        assert(t.subrange(1, t.len() as int) =~= s.subrange(i + 1, s.len() as int));
    }
}

/// Replaces every occurrence of the non-empty `from` in `s` by `to`, scanning
/// left to right without overlap.
/// An empty `from` leaves `s` unchanged.
pub fn replace_chars(s: &Vec<char>, from: &Vec<char>, to: &Vec<char>) -> (r: Vec<char>)
    ensures
        r@ == replace_seq(s@, from@, to@),
{
    let mut out: Vec<char> = Vec::new();
    if from.len() == 0 {
        let mut k: usize = 0;
        while k < s.len()
            invariant
                k <= s@.len(),
                out@ == s@.subrange(0, k as int),
            decreases s.len() - k,
        {
            out.push(s[k]);
            k = k + 1;
            proof {
                assert(out@ =~= s@.subrange(0, k as int));
            }
        }
        proof {
            assert(s@.subrange(0, s@.len() as int) =~= s@);
        }
        return out;
    }
    let mut i: usize = 0;
    let n = s.len();
    proof {
        assert(s@.subrange(0, n as int) =~= s@);
    }
    while i < n
        invariant
            n == s@.len(),
            i <= n,
            from@.len() > 0,
            out@ + replace_seq(s@.subrange(i as int, n as int), from@, to@) == replace_seq(
                s@,
                from@,
                to@,
            ),
        decreases n - i,
    {
        proof {
            lemma_replace_step(s@, from@, to@, i as int);
        }
        if matches_at(s, from, i) {
            let ghost before = out@;
            let mut k: usize = 0;
            while k < to.len()
                invariant
                    k <= to@.len(),
                    out@ == before + to@.subrange(0, k as int),
                decreases to.len() - k,
            {
                out.push(to[k]);
                k = k + 1;
                proof {
                    assert(out@ =~= before + to@.subrange(0, k as int));
                }
            }
            proof {
                assert(to@.subrange(0, to@.len() as int) =~= to@);
                assert(out@ + replace_seq(s@.subrange(i + from@.len(), n as int), from@, to@)
                    =~= before + (to@ + replace_seq(
                    s@.subrange(i + from@.len(), n as int),
                    from@,
                    to@,
                )));
            }
            i = i + from.len();
        } else if from.len() > n - i {
            proof {
                assert(out@ + s@.subrange(i as int, n as int) == replace_seq(s@, from@, to@));
            }
            let mut k: usize = i;
            while k < n
                invariant
                    i <= k <= n,
                    n == s@.len(),
                    out@ + s@.subrange(k as int, n as int) == replace_seq(s@, from@, to@),
                decreases n - k,
            {
                let ghost before = out@;
                out.push(s[k]);
                proof {
                    assert(before + s@.subrange(k as int, n as int) =~= out@ + s@.subrange(
                        k + 1,
                        n as int,
                    ));
                }
                k = k + 1;
            }
            proof {
                assert(out@ + s@.subrange(n as int, n as int) =~= out@);
            }
            return out;
        } else {
            let ghost before = out@;
            out.push(s[i]);
            proof {
                assert(out@ + replace_seq(s@.subrange(i + 1, n as int), from@, to@) =~= before + (
                seq![s@[i as int]] + replace_seq(s@.subrange(i + 1, n as int), from@, to@)));
            }
            i = i + 1;
        }
    }
    proof {
        assert(replace_seq(s@.subrange(i as int, n as int), from@, to@) == s@.subrange(
            i as int,
            n as int,
        ));
        assert(out@ + s@.subrange(n as int, n as int) =~= out@);
    }
    out
}

/// The decimal digit `d` (for `d < 10`).
pub open spec fn digit_char(d: nat) -> char {
    if d == 0 {
        '0'
    } else if d == 1 {
        '1'
    } else if d == 2 {
        '2'
    } else if d == 3 {
        '3'
    } else if d == 4 {
        '4'
    } else if d == 5 {
        '5'
    } else if d == 6 {
        '6'
    } else if d == 7 {
        '7'
    } else if d == 8 {
        '8'
    } else {
        '9'
    }
}

/// The decimal notation of `n`, without leading zeros.
pub open spec fn decimal(n: nat) -> Seq<char>
    decreases n,
{
    if n < 10 {
        seq![digit_char(n)]
    } else {
        decimal(n / 10) + seq![digit_char(n % 10)]
    }
}

/// The decimal notation of `i`, with a leading `-` when negative.
pub open spec fn signed_decimal(i: int) -> Seq<char> {
    if i < 0 {
        seq!['-'] + decimal((-i) as nat)
    } else {
        decimal(i as nat)
    }
}

fn digit(d: u64) -> (c: char)
    requires
        d < 10,
    ensures
        c == digit_char(d as nat),
{
    if d == 0 {
        '0'
    } else if d == 1 {
        '1'
    } else if d == 2 {
        '2'
    } else if d == 3 {
        '3'
    } else if d == 4 {
        '4'
    } else if d == 5 {
        '5'
    } else if d == 6 {
        '6'
    } else if d == 7 {
        '7'
    } else if d == 8 {
        '8'
    } else {
        '9'
    }
}

fn decimal_chars(n: u64) -> (r: Vec<char>)
    ensures
        r@ == decimal(n as nat),
    decreases n,
{
    if n < 10 {
        let mut v: Vec<char> = Vec::new();
        v.push(digit(n));
        proof {
            assert(v@ =~= seq![digit_char(n as nat)]);
        }
        v
    } else {
        let mut v = decimal_chars(n / 10);
        v.push(digit(n % 10));
        proof {
            assert(v@ =~= decimal((n / 10) as nat) + seq![digit_char((n % 10) as nat)]);
        }
        v
    }
}

/// The decimal notation of `n`.
pub fn decimal_string(n: u64) -> (r: String)
    ensures
        r@ == decimal(n as nat),
{
    let v = decimal_chars(n);
    string_of(&v)
}

/// The decimal notation of `i`, with a leading `-` when negative.
pub fn signed_decimal_string(i: i64) -> (r: String)
    ensures
        r@ == signed_decimal(i as int),
{
    if i < 0 {
        let mag: u64 = if i == i64::MIN {
            9223372036854775808u64
        } else {
            (-i) as u64
        };
        let mut s = String::from_str("-");
        let d = decimal_string(mag);
        s.append(d.as_str());
        proof {
            reveal_strlit("-");
            assert(s@ =~= seq!['-'] + decimal((-i) as nat));
        }
        s
    } else {
        decimal_string(i as u64)
    }
}

/// Replaces every occurrence of `from` in `s` by `to`, scanning left to right
/// without overlap; an empty `from` leaves `s` unchanged.
pub fn replace_str(s: &str, from: &str, to: &str) -> (r: String)
    ensures
        r@ == replace_seq(s@, from@, to@),
{
    let sv = chars_of(s);
    let fv = chars_of(from);
    let tv = chars_of(to);
    let rv = replace_chars(&sv, &fv, &tv);
    string_of(&rv)
}

/// Text without any occurrence of `from` is left as it is.
pub proof fn lemma_replace_absent(s: Seq<char>, from: Seq<char>, to: Seq<char>)
    requires
        !contains_seq(s, from),
    ensures
        replace_seq(s, from, to) == s,
    decreases s.len(),
{
    if from.len() > 0 && s.len() >= from.len() {
        assert(!occurs_at(s, from, 0));
        let rest = s.subrange(1, s.len() as int);
        assert forall|i: int| !occurs_at(rest, from, i) by {
            if occurs_at(rest, from, i) {
                assert(s.subrange(i + 1, i + 1 + from.len()) =~= rest.subrange(i, i + from.len()));
                assert(occurs_at(s, from, i + 1));
            }
        }
        lemma_replace_absent(rest, from, to);
        assert(seq![s[0]] + rest =~= s);
    }
}

/// The first occurrence of a non-empty `from` is replaced by `to`, and the
/// text before it is kept exactly: no occurrence starts inside that text.
pub proof fn lemma_replace_first(
    p: Seq<char>,
    from: Seq<char>,
    q: Seq<char>,
    to: Seq<char>,
)
    requires
        from.len() > 0,
        forall|i: int| 0 <= i < p.len() ==> !occurs_at(p + from + q, from, i),
    ensures
        replace_seq(p + from + q, from, to) == p + to + replace_seq(q, from, to),
    decreases p.len(),
{
    let s = p + from + q;
    if p.len() == 0 {
        assert(s.subrange(0, from.len() as int) =~= from);
        assert(s.subrange(from.len() as int, s.len() as int) =~= q);
        assert(p + to =~= to);
    } else {
        assert(!occurs_at(s, from, 0));
        let p2 = p.subrange(1, p.len() as int);
        let s2 = p2 + from + q;
        assert(s.subrange(1, s.len() as int) =~= s2);
        assert forall|i: int| 0 <= i < p2.len() implies !occurs_at(p2 + from + q, from, i) by {
            assert(s.subrange(i + 1, i + 1 + from.len()) =~= s2.subrange(i, i + from.len()));
            assert(!occurs_at(s, from, i + 1));
        }
        lemma_replace_first(p2, from, q, to);
        assert(seq![s[0]] + (p2 + to + replace_seq(q, from, to)) =~= p + to + replace_seq(
            q,
            from,
            to,
        ));
    }
}

/// No character of `to` occurs in `from`.
pub open spec fn shares_no_char(from: Seq<char>, to: Seq<char>) -> bool {
    forall|a: int, b: int| 0 <= a < to.len() && 0 <= b < from.len() ==> to[a] != from[b]
}

proof fn lemma_replace_prefix_kept(s: Seq<char>, from: Seq<char>, to: Seq<char>, j: int)
    requires
        from.len() > 0,
        to.len() > 0,
        0 <= j <= replace_seq(s, from, to).len(),
        forall|k: int| 0 <= k < j ==> !to.contains(#[trigger] replace_seq(s, from, to)[k]),
    ensures
        j <= s.len(),
        replace_seq(s, from, to).subrange(0, j) == s.subrange(0, j),
    decreases s.len(),
{
    let r = replace_seq(s, from, to);
    let m = from.len() as int;
    if s.len() < m {
    } else if s.subrange(0, m) == from {
        if j > 0 {
            assert(r[0] == to[0]);
            assert(to.contains(r[0]));
        }
    } else {
        let t = s.subrange(1, s.len() as int);
        let r2 = replace_seq(t, from, to);
        assert(r == seq![s[0]] + r2);
        if j > 0 {
            assert forall|k: int| 0 <= k < j - 1 implies !to.contains(#[trigger] r2[k]) by {
                assert(r2[k] == r[k + 1]);
            }
            lemma_replace_prefix_kept(t, from, to, j - 1);
            assert(r.subrange(0, j) =~= seq![s[0]] + r2.subrange(0, j - 1));
            assert(s.subrange(0, j) =~= seq![s[0]] + t.subrange(0, j - 1));
        }
    }
}

/// Replacing a non-empty `from` by a non-empty `to` that shares no character
/// with it leaves no occurrence of `from`: every token is replaced, and no new
/// one is formed across a replacement.
pub proof fn lemma_replace_leaves_none(s: Seq<char>, from: Seq<char>, to: Seq<char>)
    requires
        from.len() > 0,
        to.len() > 0,
        shares_no_char(from, to),
    ensures
        !contains_seq(replace_seq(s, from, to), from),
    decreases s.len(),
{
    let r = replace_seq(s, from, to);
    let m = from.len() as int;
    if s.len() < m {
        assert forall|i: int| !occurs_at(r, from, i) by {}
    } else if s.subrange(0, m) == from {
        let t = s.subrange(m, s.len() as int);
        let r2 = replace_seq(t, from, to);
        lemma_replace_leaves_none(t, from, to);
        assert(r == to + r2);
        assert forall|i: int| !occurs_at(r, from, i) by {
            if occurs_at(r, from, i) {
                let tl = to.len() as int;
                if i < tl {
                    assert(r.subrange(i, i + m)[0] == r[i]);
                    assert(r[i] == to[i]);
                    assert(from[0] == to[i]);
                } else {
                    assert(r2.subrange(i - tl, i - tl + m) =~= r.subrange(i, i + m));
                    assert(occurs_at(r2, from, i - tl));
                }
            }
        }
    } else {
        let t = s.subrange(1, s.len() as int);
        let r2 = replace_seq(t, from, to);
        lemma_replace_leaves_none(t, from, to);
        assert(r == seq![s[0]] + r2);
        assert forall|i: int| !occurs_at(r, from, i) by {
            if occurs_at(r, from, i) {
                if i >= 1 {
                    assert(r2.subrange(i - 1, i - 1 + m) =~= r.subrange(i, i + m));
                    assert(occurs_at(r2, from, i - 1));
                } else {
                    assert forall|k: int| 0 <= k < m - 1 implies !to.contains(#[trigger] r2[k]) by {
                        assert(r2[k] == r[k + 1]);
                        assert(r[k + 1] == r.subrange(0, m)[k + 1]);
                        if to.contains(r2[k]) {
                            let a = choose|a: int| 0 <= a < to.len() && to[a] == r2[k];
                            assert(to[a] == from[k + 1]);
                        }
                    }
                    lemma_replace_prefix_kept(t, from, to, m - 1);
                    assert(s.subrange(0, m) =~= seq![s[0]] + t.subrange(0, m - 1));
                    assert(r.subrange(0, m) =~= seq![s[0]] + r2.subrange(0, m - 1));
                }
            }
        }
    }
}

/// What the lower-case form of a text is, as `str::to_lowercase` gives it.
pub uninterp spec fn lower_of(s: Seq<char>) -> Seq<char>;

/// Relies on str::to_lowercase: the lower-case form depends on the characters alone.
#[verifier::external_body]
pub(crate) fn lowercase(s: &str) -> (r: String)
    ensures
        r@ == lower_of(s@),
{
    s.to_lowercase()
}

/// The character has the Unicode `White_Space` property.
pub open spec fn is_space(c: char) -> bool {
    ('\t' <= c && c <= '\r') || c == ' ' || c == '\u{85}' || c == '\u{a0}' || c == '\u{1680}'
        || ('\u{2000}' <= c && c <= '\u{200a}') || c == '\u{2028}' || c == '\u{2029}' || c
        == '\u{202f}' || c == '\u{205f}' || c == '\u{3000}'
}

fn space(c: char) -> (r: bool)
    ensures
        r == is_space(c),
{
    ('\t' <= c && c <= '\r') || c == ' ' || c == '\u{85}' || c == '\u{a0}' || c == '\u{1680}'
        || ('\u{2000}' <= c && c <= '\u{200a}') || c == '\u{2028}' || c == '\u{2029}' || c
        == '\u{202f}' || c == '\u{205f}' || c == '\u{3000}'
}

/// The text without its leading white space.
pub open spec fn trim_start_seq(s: Seq<char>) -> Seq<char>
    decreases s.len(),
{
    if s.len() > 0 && is_space(s[0]) {
        trim_start_seq(s.subrange(1, s.len() as int))
    } else {
        s
    }
}

/// The text without its trailing white space.
pub open spec fn trim_end_seq(s: Seq<char>) -> Seq<char>
    decreases s.len(),
{
    if s.len() > 0 && is_space(s.last()) {
        trim_end_seq(s.drop_last())
    } else {
        s
    }
}

/// The text without leading and trailing white space.
pub open spec fn trim_seq(s: Seq<char>) -> Seq<char> {
    trim_end_seq(trim_start_seq(s))
}

/// The characters of `v`, without leading and trailing white space.
pub fn trim_chars(v: &Vec<char>) -> (r: Vec<char>)
    ensures
        r@ == trim_seq(v@),
{
    let n = v.len();
    let mut a: usize = 0;
    proof {
        assert(v@.subrange(0, n as int) =~= v@);
    }
    while a < n && space(v[a])
        invariant
            a <= n,
            n == v@.len(),
            trim_start_seq(v@.subrange(a as int, n as int)) == trim_start_seq(v@),
        decreases n - a,
    {
        proof {
            assert(v@.subrange(a as int, n as int).subrange(1, (n - a) as int) =~= v@.subrange(
                a + 1,
                n as int,
            ));
        }
        a = a + 1;
    }
    let mut b: usize = n;
    proof {
        assert(trim_start_seq(v@.subrange(a as int, n as int)) == v@.subrange(a as int, n as int));
    }
    while b > a && space(v[b - 1])
        invariant
            a <= b <= n,
            n == v@.len(),
            trim_end_seq(v@.subrange(a as int, b as int)) == trim_seq(v@),
        decreases b - a,
    {
        proof {
            assert(v@.subrange(a as int, b as int).drop_last() =~= v@.subrange(a as int, b - 1));
        }
        b = b - 1;
    }
    let mut out: Vec<char> = Vec::new();
    let mut k: usize = a;
    while k < b
        invariant
            a <= k <= b <= n,
            n == v@.len(),
            out@ == v@.subrange(a as int, k as int),
        decreases b - k,
    {
        out.push(v[k]);
        k = k + 1;
        proof {
            assert(out@ =~= v@.subrange(a as int, k as int));
        }
    }
    out
}

/// The text without leading and trailing white space.
pub fn trim_str(s: &str) -> (r: String)
    ensures
        r@ == trim_seq(s@),
{
    let v = chars_of(s);
    let t = trim_chars(&v);
    string_of(&t)
}

/// The pieces of `s` between occurrences of `sep`, in order; there is always
/// at least one piece.
pub open spec fn split_seq(s: Seq<char>, sep: char) -> Seq<Seq<char>>
    decreases s.len(),
{
    if s.len() == 0 {
        seq![Seq::empty()]
    } else {
        let init = split_seq(s.drop_last(), sep);
        if s.last() == sep {
            init.push(Seq::empty())
        } else {
            init.update(init.len() - 1, init.last().push(s.last()))
        }
    }
}

proof fn lemma_split_nonempty(s: Seq<char>, sep: char)
    ensures
        split_seq(s, sep).len() >= 1,
    decreases s.len(),
{
    if s.len() > 0 {
        lemma_split_nonempty(s.drop_last(), sep);
    }
}

/// The pieces of `v` between occurrences of `sep`.
pub fn split_chars(v: &Vec<char>, sep: char) -> (r: Vec<Vec<char>>)
    ensures
        r@.map_values(|p: Vec<char>| p@) == split_seq(v@, sep),
{
    let mut done: Vec<Vec<char>> = Vec::new();
    let mut cur: Vec<char> = Vec::new();
    let mut i: usize = 0;
    proof {
        assert(v@.subrange(0, 0) =~= Seq::<char>::empty());
        assert(done@.map_values(|p: Vec<char>| p@).push(cur@) =~= split_seq(Seq::empty(), sep));
    }
    while i < v.len()
        invariant
            i <= v@.len(),
            done@.map_values(|p: Vec<char>| p@).push(cur@) == split_seq(v@.subrange(0, i as int), sep),
        decreases v.len() - i,
    {
        let ghost prev = v@.subrange(0, i as int);
        let ghost next = v@.subrange(0, i + 1);
        proof {
            assert(next.drop_last() =~= prev);
            lemma_split_nonempty(prev, sep);
        }
        let ghost old_done = done@.map_values(|p: Vec<char>| p@);
        let ghost old_cur = cur@;
        if v[i] == sep {
            let piece = cur;
            done.push(piece);
            cur = Vec::new();
            proof {
                assert(done@.map_values(|p: Vec<char>| p@).push(cur@) =~= old_done.push(old_cur).push(
                    Seq::empty(),
                ));
            }
        } else {
            cur.push(v[i]);
            proof {
                assert(done@.map_values(|p: Vec<char>| p@).push(cur@) =~= old_done.push(old_cur).update(
                    old_done.len() as int,
                    old_cur.push(v@[i as int]),
                ));
            }
        }
        i = i + 1;
    }
    done.push(cur);
    proof {
        assert(v@.subrange(0, v@.len() as int) =~= v@);
    }
    done
}

/// A line without the carriage return that may end it.
pub open spec fn strip_cr(l: Seq<char>) -> Seq<char> {
    if l.len() > 0 && l.last() == '\r' {
        l.drop_last()
    } else {
        l
    }
}

/// The lines of a text: split at line feeds, a final empty piece dropped,
/// and one carriage return stripped from the end of each line.
pub open spec fn lines_seq(s: Seq<char>) -> Seq<Seq<char>> {
    let p = split_seq(s, '\n');
    let p = if p.last().len() == 0 {
        p.drop_last()
    } else {
        p
    };
    p.map_values(|l: Seq<char>| strip_cr(l))
}

/// The lines of a text, each as characters.
pub fn lines_of(s: &str) -> (r: Vec<Vec<char>>)
    ensures
        r@.map_values(|p: Vec<char>| p@) == lines_seq(s@),
{
    let v = chars_of(s);
    let mut pieces = split_chars(&v, '\n');
    proof {
        lemma_split_nonempty(v@, '\n');
    }
    let ghost p0 = split_seq(v@, '\n');
    let n = pieces.len();
    if pieces[n - 1].len() == 0 {
        pieces.pop();
        proof {
            assert(pieces@.map_values(|p: Vec<char>| p@) =~= p0.drop_last());
        }
    }
    let ghost p1 = pieces@.map_values(|p: Vec<char>| p@);
    let mut out: Vec<Vec<char>> = Vec::new();
    let mut i: usize = 0;
    while i < pieces.len()
        invariant
            i <= pieces@.len(),
            p1 == pieces@.map_values(|p: Vec<char>| p@),
            out@.map_values(|p: Vec<char>| p@) == p1.subrange(0, i as int).map_values(|l: Seq<char>| strip_cr(l)),
        decreases pieces.len() - i,
    {
        let mut line: Vec<char> = Vec::new();
        let m = pieces[i].len();
        let end: usize = if m > 0 && pieces[i][m - 1] == '\r' {
            m - 1
        } else {
            m
        };
        let mut k: usize = 0;
        while k < end
            invariant
                k <= end <= m,
                m == pieces@[i as int]@.len(),
                i < pieces@.len(),
                line@ == pieces@[i as int]@.subrange(0, k as int),
            decreases end - k,
        {
            line.push(pieces[i][k]);
            k = k + 1;
            proof {
                assert(line@ =~= pieces@[i as int]@.subrange(0, k as int));
            }
        }
        proof {
            let l = pieces@[i as int]@;
            if end < m {
                assert(line@ =~= l.drop_last());
            } else {
                assert(line@ =~= l);
            }
            assert(line@ == strip_cr(p1[i as int]));
        }
        let ghost before = out@.map_values(|p: Vec<char>| p@);
        out.push(line);
        proof {
            assert(out@.map_values(|p: Vec<char>| p@) =~= before.push(line@));
            assert(p1.subrange(0, i + 1).map_values(|l: Seq<char>| strip_cr(l)) =~= p1.subrange(0, i as int).map_values(|l: Seq<char>| strip_cr(l)).push(strip_cr(p1[i as int])));
        }
        i = i + 1;
    }
    proof {
        assert(p1.subrange(0, i as int) =~= p1);
    }
    out
}

/// The value of a decimal digit character.
pub open spec fn digit_value(c: char) -> nat {
    (c as u32 - '0' as u32) as nat
}

/// Every character is an ASCII decimal digit.
pub open spec fn all_digits(s: Seq<char>) -> bool {
    forall|i: int| 0 <= i < s.len() ==> '0' <= #[trigger] s[i] && s[i] <= '9'
}

/// The number written by a run of decimal digits.
pub open spec fn digits_value(s: Seq<char>) -> nat
    decreases s.len(),
{
    if s.len() == 0 {
        0
    } else {
        digits_value(s.drop_last()) * 10 + digit_value(s.last())
    }
}

/// The text of an unsigned number without its optional leading `+`.
pub open spec fn unsigned_digits(s: Seq<char>) -> Seq<char> {
    if s.len() > 0 && s[0] == '+' {
        s.subrange(1, s.len() as int)
    } else {
        s
    }
}

/// What parsing `s` as an unsigned integer no larger than `max` gives, as
/// Rust's `from_str` for unsigned integers does: an optional `+`, then one or
/// more decimal digits.
pub open spec fn parsed_unsigned(s: Seq<char>, max: nat) -> Option<nat> {
    let d = unsigned_digits(s);
    if d.len() > 0 && all_digits(d) && digits_value(d) <= max {
        Some(digits_value(d))
    } else {
        None
    }
}

proof fn lemma_prefix_value_le(d: Seq<char>, i: int)
    requires
        0 <= i <= d.len(),
    ensures
        digits_value(d.subrange(0, i)) <= digits_value(d),
    decreases d.len(),
{
    if i < d.len() {
        let init = d.drop_last();
        assert(init.subrange(0, i) =~= d.subrange(0, i));
        lemma_prefix_value_le(init, i);
    } else {
        assert(d.subrange(0, i) =~= d);
    }
}

/// Parses an unsigned decimal integer no larger than `max`.
pub fn parse_unsigned(s: &Vec<char>, max: u64) -> (r: Option<u64>)
    ensures
        r matches Some(v) ==> parsed_unsigned(s@, max as nat) == Some(v as nat),
        r is None ==> parsed_unsigned(s@, max as nat) is None,
{
    let start: usize = if s.len() > 0 && s[0] == '+' {
        1
    } else {
        0
    };
    let ghost d = unsigned_digits(s@);
    proof {
        assert(d =~= s@.subrange(start as int, s@.len() as int));
    }
    if start >= s.len() {
        return None;
    }
    let mut value: u64 = 0;
    let mut i: usize = start;
    proof {
        assert(d.subrange(0, 0) =~= Seq::<char>::empty());
    }
    while i < s.len()
        invariant
            start <= i <= s@.len(),
            d == unsigned_digits(s@),
            d == s@.subrange(start as int, s@.len() as int),
            value as nat == digits_value(d.subrange(0, i - start)),
            value <= max,
            all_digits(d.subrange(0, i - start)),
        decreases s.len() - i,
    {
        let c = s[i];
        proof {
            assert(d[i - start] == s@[i as int]);
        }
        let ghost pre = d.subrange(0, i - start);
        let ghost next = d.subrange(0, i - start + 1);
        proof {
            assert(next.drop_last() =~= pre);
            assert(next.last() == c);
        }
        if c < '0' || c > '9' {
            proof {
                assert(!('0' <= d[i - start] && d[i - start] <= '9'));
                assert(!all_digits(d));
                assert(parsed_unsigned(s@, max as nat) is None);
            }
            return None;
        }
        let dv: u64 = (c as u32 - '0' as u32) as u64;
        if dv > max || value > (max - dv) / 10 {
            proof {
                assert(digits_value(next) == value as nat * 10 + dv);
                if dv <= max {
                    assert(value as nat * 10 + dv > max) by (nonlinear_arith)
                        requires
                            value > (max - dv) / 10,
                            dv <= max,
                    ;
                }
                assert(all_digits(next));
                lemma_prefix_value_le(d, i - start + 1);
                assert(digits_value(next) > max);
                if all_digits(d) {
                    assert(digits_value(d) > max);
                }
                assert(parsed_unsigned(s@, max as nat) is None);
            }
            return None;
        }
        proof {
            assert(value * 10 + dv <= max) by (nonlinear_arith)
                requires
                    value <= (max - dv) / 10,
                    dv <= max,
            ;
        }
        value = value * 10 + dv;
        proof {
            assert(all_digits(next));
        }
        i = i + 1;
    }
    proof {
        assert(d.subrange(0, i - start) =~= d);
    }
    Some(value)
}

} // verus!
