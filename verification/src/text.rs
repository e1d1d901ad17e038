//! Character-level text handling with exact specifications: whitespace,
//! trimming, splitting into words and lines, ASCII case folding, substring
//! search, decimal numbers.
use vstd::prelude::*;

verus! {

/// The Unicode `White_Space` property, which is what `char::is_whitespace` tests.
pub open spec fn is_ws(c: char) -> bool {
    ||| ('\t' <= c && c <= '\r')
    ||| c == ' '
    ||| c == '\u{85}'
    ||| c == '\u{a0}'
    ||| c == '\u{1680}'
    ||| ('\u{2000}' <= c && c <= '\u{200a}')
    ||| c == '\u{2028}'
    ||| c == '\u{2029}'
    ||| c == '\u{202f}'
    ||| c == '\u{205f}'
    ||| c == '\u{3000}'
}

/// ASCII lower-casing of one character; every other character is kept.
pub open spec fn lower_char(c: char) -> char {
    if 'A' <= c && c <= 'Z' {
        ((c as u32) + 32) as char
    } else {
        c
    }
}

pub open spec fn lower(s: Seq<char>) -> Seq<char> {
    s.map_values(|c: char| lower_char(c))
}

/// Two texts are equal when ASCII letters are compared without case.
pub open spec fn eq_ignore_case(a: Seq<char>, b: Seq<char>) -> bool {
    lower(a) == lower(b)
}

/// What is left once leading whitespace is removed.
pub open spec fn trim_start(s: Seq<char>) -> Seq<char>
    decreases s.len(),
{
    if s.len() > 0 && is_ws(s[0]) {
        trim_start(s.drop_first())
    } else {
        s
    }
}

/// What is left once trailing whitespace is removed.
pub open spec fn trim_end(s: Seq<char>) -> Seq<char>
    decreases s.len(),
{
    if s.len() > 0 && is_ws(s.last()) {
        trim_end(s.drop_last())
    } else {
        s
    }
}

/// `str::trim`: leading and trailing whitespace removed.
pub open spec fn trim(s: Seq<char>) -> Seq<char> {
    trim_end(trim_start(s))
}

/// Index of the first whitespace character, or the length when there is none.
pub open spec fn first_ws(s: Seq<char>) -> int
    decreases s.len(),
{
    if s.len() == 0 {
        0
    } else if is_ws(s[0]) {
        0
    } else {
        1 + first_ws(s.drop_first())
    }
}

/// The words of `s` (maximal runs of non-whitespace), given that the word
/// being read so far is `cur`.
pub open spec fn words_from(s: Seq<char>, cur: Seq<char>) -> Seq<Seq<char>>
    decreases s.len(),
{
    if s.len() == 0 {
        if cur.len() == 0 {
            seq![]
        } else {
            seq![cur]
        }
    } else if is_ws(s[0]) {
        if cur.len() == 0 {
            words_from(s.drop_first(), cur)
        } else {
            seq![cur] + words_from(s.drop_first(), seq![])
        }
    } else {
        words_from(s.drop_first(), cur.push(s[0]))
    }
}

/// `str::split_whitespace`.
pub open spec fn words(s: Seq<char>) -> Seq<Seq<char>> {
    words_from(s, seq![])
}

/// A line without its carriage return, where the line ended in `\r\n`.
pub open spec fn strip_cr(line: Seq<char>) -> Seq<char> {
    if line.len() > 0 && line.last() == '\r' {
        line.drop_last()
    } else {
        line
    }
}

/// The lines of `s`, given that the line being read so far is `cur`.
pub open spec fn lines_from(s: Seq<char>, cur: Seq<char>) -> Seq<Seq<char>>
    decreases s.len(),
{
    if s.len() == 0 {
        if cur.len() == 0 {
            seq![]
        } else {
            seq![cur]
        }
    } else if s[0] == '\n' {
        seq![strip_cr(cur)] + lines_from(s.drop_first(), seq![])
    } else {
        lines_from(s.drop_first(), cur.push(s[0]))
    }
}

/// `str::lines`: split at `\n` and `\r\n`; a final line ending adds no empty line.
pub open spec fn lines(s: Seq<char>) -> Seq<Seq<char>> {
    lines_from(s, seq![])
}

/// `strs` joined with `sep` between consecutive items.
pub open spec fn join(strs: Seq<Seq<char>>, sep: Seq<char>) -> Seq<char>
    decreases strs.len(),
{
    if strs.len() == 0 {
        seq![]
    } else if strs.len() == 1 {
        strs[0]
    } else {
        join(strs.drop_last(), sep) + sep + strs.last()
    }
}

/// `needle` occurs in `hay` starting at index `i`.
pub open spec fn occurs_at(hay: Seq<char>, needle: Seq<char>, i: int) -> bool {
    0 <= i && i + needle.len() <= hay.len() && hay.subrange(i, i + needle.len()) == needle
}

/// `str::contains` with a text pattern.
pub open spec fn contains(hay: Seq<char>, needle: Seq<char>) -> bool {
    exists|i: int| occurs_at(hay, needle, i)
}

pub open spec fn is_digit(c: char) -> bool {
    '0' <= c && c <= '9'
}

pub open spec fn digit_value(c: char) -> nat {
    ((c as u32) - 48) as nat
}

pub open spec fn all_digits(s: Seq<char>) -> bool {
    forall|i: int| 0 <= i < s.len() ==> is_digit(#[trigger] s[i])
}

/// The number that a string of decimal digits denotes.
pub open spec fn digits_value(s: Seq<char>) -> nat
    decreases s.len(),
{
    if s.len() == 0 {
        0
    } else {
        digits_value(s.drop_last()) * 10 + digit_value(s.last())
    }
}

/// `u16::from_str`: an optional `+`, then at least one decimal digit, and a
/// value that fits in 16 bits.
pub open spec fn parse_u16(s: Seq<char>) -> Option<u16> {
    let d = if s.len() > 0 && s[0] == '+' {
        s.drop_first()
    } else {
        s
    };
    if d.len() > 0 && all_digits(d) && digits_value(d) <= u16::MAX {
        Some(digits_value(d) as u16)
    } else {
        None
    }
}

pub open spec fn digit_char(d: nat) -> char {
    ((d + 48) as u32) as char
}

/// The decimal representation of `n`, without leading zeros.
pub open spec fn decimal(n: nat) -> Seq<char>
    decreases n,
{
    if n < 10 {
        seq![digit_char(n)]
    } else {
        decimal(n / 10).push(digit_char(n % 10))
    }
}

/// The decimal representation of a signed number.
pub open spec fn signed_decimal(x: int) -> Seq<char> {
    if x < 0 {
        seq!['-'] + decimal((-x) as nat)
    } else {
        decimal(x as nat)
    }
}

/// Appends one character to a `String`.
/// Trusted: `String::push`, which std documents as appending the character
/// to the end of the string.
#[verifier::external_body]
pub(crate) fn push_char(s: &mut String, c: char)
    ensures
        final(s)@ == old(s)@.push(c),
{
    s.push(c);
}

/// Removes the last character of a `String`.
/// Trusted: `String::pop`, which std documents as removing the last character
/// and returning it, or returning `None` on an empty string.
#[verifier::external_body]
pub(crate) fn pop_char(s: &mut String) -> (r: Option<char>)
    ensures
        old(s)@.len() == 0 ==> r is None && final(s)@ == old(s)@,
        old(s)@.len() > 0 ==> r == Some(old(s)@.last()) && final(s)@ == old(s)@.drop_last(),
{
    s.pop()
}

pub fn is_whitespace(c: char) -> (r: bool)
    ensures
        r == is_ws(c),
{
    ('\t' <= c && c <= '\r') || c == ' ' || c == '\u{85}' || c == '\u{a0}' || c == '\u{1680}'
        || ('\u{2000}' <= c && c <= '\u{200a}') || c == '\u{2028}' || c == '\u{2029}' || c
        == '\u{202f}' || c == '\u{205f}' || c == '\u{3000}'
}

pub fn lower_ascii_char(c: char) -> (r: char)
    ensures
        r == lower_char(c),
{
    if 'A' <= c && c <= 'Z' {
        ((c as u8) + 32) as char
    } else {
        c
    }
}

/// The characters of `s`.
pub fn chars_of(s: &str) -> (v: Vec<char>)
    ensures
        v@ == s@,
{
    let mut v: Vec<char> = Vec::new();
    for c in it: s.chars()
        invariant
            it.seq() == s@,
            v@ == it.seq().take(it.index() as int),
    {
        v.push(c);
    }
    v
}

/// A `String` holding `v[lo..hi]`.
pub fn string_of_range(v: &Vec<char>, lo: usize, hi: usize) -> (r: String)
    requires
        lo <= hi <= v@.len(),
    ensures
        r@ == v@.subrange(lo as int, hi as int),
{
    let mut r = String::new();
    let mut i = lo;
    while i < hi
        invariant
            lo <= i <= hi <= v@.len(),
            r@ == v@.subrange(lo as int, i as int),
        decreases hi - i,
    {
        push_char(&mut r, v[i]);
        i += 1;
        assert(r@ =~= v@.subrange(lo as int, i as int));
    }
    r
}

/// `s[lo..hi]`, counted in characters.
pub fn substring(s: &str, lo: usize, hi: usize) -> (r: String)
    requires
        lo <= hi <= s@.len(),
    ensures
        r@ == s@.subrange(lo as int, hi as int),
{
    let v = chars_of(s);
    string_of_range(&v, lo, hi)
}

/// An owned copy of `s`.
pub fn owned(s: &str) -> (r: String)
    ensures
        r@ == s@,
{
    s.to_owned()
}

/// `a` followed by `b`.
pub fn concat(a: &str, b: &str) -> (r: String)
    ensures
        r@ == a@ + b@,
{
    let mut r = a.to_owned();
    r.append(b);
    r
}

pub fn str_eq(a: &str, b: &str) -> (r: bool)
    ensures
        r == (a@ == b@),
{
    let va = chars_of(a);
    let vb = chars_of(b);
    if va.len() != vb.len() {
        return false;
    }
    let mut i: usize = 0;
    while i < va.len()
        invariant
            va@ == a@,
            vb@ == b@,
            va@.len() == vb@.len(),
            i <= va@.len(),
            forall|j: int| 0 <= j < i ==> va@[j] == vb@[j],
        decreases va@.len() - i,
    {
        if va[i] != vb[i] {
            return false;
        }
        i += 1;
    }
    assert(va@ =~= vb@);
    true
}

proof fn lemma_trim_start_skip(s: Seq<char>, i: int)
    requires
        0 <= i < s.len(),
        is_ws(s[i]),
    ensures
        trim_start(s.skip(i)) == trim_start(s.skip(i + 1)),
{
    assert(s.skip(i).drop_first() =~= s.skip(i + 1));
}

proof fn lemma_trim_end_take(s: Seq<char>, j: int)
    requires
        0 < j <= s.len(),
        is_ws(s[j - 1]),
    ensures
        trim_end(s.take(j)) == trim_end(s.take(j - 1)),
{
    assert(s.take(j).drop_last() =~= s.take(j - 1));
}

proof fn lemma_trim_start_front(s: Seq<char>)
    ensures
        trim_start(s).len() == 0 || !is_ws(trim_start(s)[0]),
    decreases s.len(),
{
    if s.len() > 0 && is_ws(s[0]) {
        lemma_trim_start_front(s.drop_first());
    }
}

proof fn lemma_trim_end_back(s: Seq<char>)
    ensures
        trim_end(s).len() == 0 || !is_ws(trim_end(s).last()),
        trim_end(s).len() <= s.len(),
        s.len() > 0 && !is_ws(s[0]) ==> trim_end(s).len() > 0 && trim_end(s)[0] == s[0],
    decreases s.len(),
{
    if s.len() > 0 && is_ws(s.last()) {
        lemma_trim_end_back(s.drop_last());
    }
}

/// Trimming a trimmed text changes nothing.
pub proof fn lemma_trim_idempotent(s: Seq<char>)
    ensures
        trim(trim(s)) == trim(s),
        trim(s).len() == 0 || (!is_ws(trim(s)[0]) && !is_ws(trim(s).last())),
{
    lemma_trim_start_front(s);
    lemma_trim_end_back(trim_start(s));
    let t = trim(s);
    assert(trim_start(t) == t);
    assert(trim_end(t) == t);
}

/// Bounds `[lo, hi)` of `trim(v)` inside `v`.
pub fn trim_bounds(v: &Vec<char>) -> (r: (usize, usize))
    ensures
        r.0 <= r.1 <= v@.len(),
        trim(v@) == v@.subrange(r.0 as int, r.1 as int),
{
    let n = v.len();
    let mut i: usize = 0;
    assert(v@.skip(0) =~= v@);
    while i < n && is_whitespace(v[i])
        invariant
            n == v@.len(),
            i <= n,
            trim_start(v@) == trim_start(v@.skip(i as int)),
        decreases n - i,
    {
        proof {
            lemma_trim_start_skip(v@, i as int);
        }
        i += 1;
    }
    let ghost t = v@.skip(i as int);
    assert(trim_start(v@) == t);
    let mut j: usize = n;
    assert(t.take((n - i) as int) =~= t);
    while j > i && is_whitespace(v[j - 1])
        invariant
            n == v@.len(),
            i <= j <= n,
            t == v@.skip(i as int),
            trim_end(t) == trim_end(t.take(j - i)),
        decreases j,
    {
        proof {
            lemma_trim_end_take(t, (j - i) as int);
        }
        j -= 1;
    }
    assert(t.take(j - i) =~= v@.subrange(i as int, j as int));
    (i, j)
}

/// `str::trim`.
pub fn trim_str(s: &str) -> (r: String)
    ensures
        r@ == trim(s@),
{
    let v = chars_of(s);
    let (lo, hi) = trim_bounds(&v);
    string_of_range(&v, lo, hi)
}

pub fn to_lowercase_ascii(s: &str) -> (r: String)
    ensures
        r@ == lower(s@),
{
    let v = chars_of(s);
    let mut r = String::new();
    let mut i: usize = 0;
    while i < v.len()
        invariant
            v@ == s@,
            i <= v@.len(),
            r@ == lower(v@.take(i as int)),
        decreases v@.len() - i,
    {
        push_char(&mut r, lower_ascii_char(v[i]));
        i += 1;
        assert(r@ =~= lower(v@.take(i as int)));
    }
    assert(v@.take(v@.len() as int) =~= v@);
    r
}

/// `str::eq_ignore_ascii_case`.
pub fn eq_ignore_ascii_case(a: &str, b: &str) -> (r: bool)
    ensures
        r == eq_ignore_case(a@, b@),
{
    let la = to_lowercase_ascii(a);
    let lb = to_lowercase_ascii(b);
    str_eq(la.as_str(), lb.as_str())
}

/// `str::contains` with a character pattern.
pub fn contains_char(s: &str, c: char) -> (r: bool)
    ensures
        r == s@.contains(c),
{
    let v = chars_of(s);
    let mut i: usize = 0;
    while i < v.len()
        invariant
            v@ == s@,
            i <= v@.len(),
            forall|j: int| 0 <= j < i ==> v@[j] != c,
        decreases v@.len() - i,
    {
        if v[i] == c {
            assert(v@[i as int] == c);
            return true;
        }
        i += 1;
    }
    false
}

/// `str::contains` with a text pattern.
/// `str::starts_with` with a text pattern.
pub fn starts_with(hay: &str, prefix: &str) -> (r: bool)
    ensures
        r == occurs_at(hay@, prefix@, 0),
{
    let h = chars_of(hay);
    let p = chars_of(prefix);
    if p.len() > h.len() {
        return false;
    }
    let mut i: usize = 0;
    while i < p.len()
        invariant
            h@ == hay@,
            p@ == prefix@,
            p@.len() <= h@.len(),
            i <= p@.len(),
            forall|k: int| 0 <= k < i ==> h@[k] == p@[k],
        decreases p@.len() - i,
    {
        if h[i] != p[i] {
            assert(h@.subrange(0, p@.len() as int)[i as int] != p@[i as int]);
            return false;
        }
        i += 1;
    }
    assert(h@.subrange(0, p@.len() as int) =~= p@);
    true
}

pub fn contains_str(hay: &str, needle: &str) -> (r: bool)
    ensures
        r == contains(hay@, needle@),
{
    let h = chars_of(hay);
    let n = chars_of(needle);
    if n.len() == 0 {
        assert(hay@.subrange(0, 0) =~= needle@);
        assert(occurs_at(hay@, needle@, 0));
        return true;
    }
    if n.len() > h.len() {
        assert forall|i: int| !occurs_at(hay@, needle@, i) by {}
        return false;
    }
    let last = h.len() - n.len();
    assert(h@.len() <= usize::MAX);
    let mut i: usize = 0;
    while i <= last
        invariant
            h@ == hay@,
            n@ == needle@,
            last + n@.len() == h@.len(),
            h@.len() <= usize::MAX,
            i <= last + 1,
            n@.len() > 0,
            forall|k: int| 0 <= k < i ==> !occurs_at(hay@, needle@, k),
        decreases last + 1 - i,
    {
        let mut j: usize = 0;
        while j < n.len() && h[i + j] == n[j]
            invariant
                h@ == hay@,
                n@ == needle@,
                i <= last,
                last + n@.len() == h@.len(),
                h@.len() <= usize::MAX,
                j <= n@.len(),
                forall|k: int| 0 <= k < j ==> h@[i + k] == n@[k],
            decreases n@.len() - j,
        {
            j += 1;
        }
        if j == n.len() {
            assert(hay@.subrange(i as int, i + needle@.len()) =~= needle@);
            assert(occurs_at(hay@, needle@, i as int));
            return true;
        }
        assert(!occurs_at(hay@, needle@, i as int)) by {
            if occurs_at(hay@, needle@, i as int) {
                assert(hay@.subrange(i as int, i + needle@.len())[j as int] == h@[i + j]);
            }
        }
        i += 1;
    }
    assert forall|k: int| !occurs_at(hay@, needle@, k) by {
        if 0 <= k < i {
        }
    }
    false
}

/// Index of the first whitespace character of `v`, or its length.
pub fn find_ws(v: &Vec<char>) -> (r: usize)
    ensures
        r == first_ws(v@),
        r <= v@.len(),
{
    let mut i: usize = 0;
    assert(v@.skip(0) =~= v@);
    while i < v.len() && !is_whitespace(v[i])
        invariant
            i <= v@.len(),
            first_ws(v@) == i + first_ws(v@.skip(i as int)),
        decreases v@.len() - i,
    {
        assert(v@.skip(i as int).drop_first() =~= v@.skip(i + 1));
        i += 1;
    }
    i
}

proof fn lemma_words_step(s: Seq<char>, i: int, cur: Seq<char>)
    requires
        0 <= i < s.len(),
    ensures
        words_from(s.skip(i), cur) == (if is_ws(s[i]) {
            if cur.len() == 0 {
                words_from(s.skip(i + 1), cur)
            } else {
                seq![cur] + words_from(s.skip(i + 1), seq![])
            }
        } else {
            words_from(s.skip(i + 1), cur.push(s[i]))
        }),
{
    assert(s.skip(i).drop_first() =~= s.skip(i + 1));
}

/// `str::split_whitespace`, collected.
pub fn split_whitespace(s: &str) -> (r: Vec<String>)
    ensures
        r@.len() == words(s@).len(),
        forall|k: int| 0 <= k < r@.len() ==> #[trigger] r@[k]@ == words(s@)[k],
{
    let v = chars_of(s);
    let mut out: Vec<String> = Vec::new();
    let mut cur = String::new();
    let ghost views: Seq<Seq<char>> = seq![];
    let mut i: usize = 0;
    assert(v@.skip(0) =~= v@);
    while i < v.len()
        invariant
            v@ == s@,
            i <= v@.len(),
            out@.len() == views.len(),
            forall|k: int| 0 <= k < out@.len() ==> #[trigger] out@[k]@ == views[k],
            words(s@) == views + words_from(v@.skip(i as int), cur@),
        decreases v@.len() - i,
    {
        proof {
            lemma_words_step(v@, i as int, cur@);
        }
        let c = v[i];
        if is_whitespace(c) {
            if !cur.as_str().is_empty() {
                proof {
                    assert(views + (seq![cur@] + words_from(v@.skip(i + 1), seq![])) =~= views.push(
                        cur@,
                    ) + words_from(v@.skip(i + 1), seq![]));
                    views = views.push(cur@);
                }
                out.push(cur);
                cur = String::new();
            }
        } else {
            push_char(&mut cur, c);
        }
        i += 1;
    }
    assert(v@.skip(i as int) =~= Seq::<char>::empty());
    if !cur.as_str().is_empty() {
        proof {
            views = views.push(cur@);
        }
        out.push(cur);
    }
    assert(words(s@) =~= views);
    out
}

proof fn lemma_lines_step(s: Seq<char>, i: int, cur: Seq<char>)
    requires
        0 <= i < s.len(),
    ensures
        lines_from(s.skip(i), cur) == (if s[i] == '\n' {
            seq![strip_cr(cur)] + lines_from(s.skip(i + 1), seq![])
        } else {
            lines_from(s.skip(i + 1), cur.push(s[i]))
        }),
{
    assert(s.skip(i).drop_first() =~= s.skip(i + 1));
}

/// `str::lines`, collected.
pub fn split_lines(s: &str) -> (r: Vec<String>)
    ensures
        r@.len() == lines(s@).len(),
        forall|k: int| 0 <= k < r@.len() ==> #[trigger] r@[k]@ == lines(s@)[k],
{
    let v = chars_of(s);
    let mut out: Vec<String> = Vec::new();
    let mut cur = String::new();
    let ghost views: Seq<Seq<char>> = seq![];
    let mut i: usize = 0;
    assert(v@.skip(0) =~= v@);
    while i < v.len()
        invariant
            v@ == s@,
            i <= v@.len(),
            out@.len() == views.len(),
            forall|k: int| 0 <= k < out@.len() ==> #[trigger] out@[k]@ == views[k],
            lines(s@) == views + lines_from(v@.skip(i as int), cur@),
        decreases v@.len() - i,
    {
        proof {
            lemma_lines_step(v@, i as int, cur@);
        }
        let c = v[i];
        if c == '\n' {
            let ghost before = cur@;
            let _ = if !cur.as_str().is_empty() && last_is_cr(&cur) {
                pop_char(&mut cur)
            } else {
                None
            };
            assert(cur@ == strip_cr(before));
            proof {
                assert(views + (seq![cur@] + lines_from(v@.skip(i + 1), seq![])) =~= views.push(
                    cur@,
                ) + lines_from(v@.skip(i + 1), seq![]));
                views = views.push(cur@);
            }
            out.push(cur);
            cur = String::new();
        } else {
            push_char(&mut cur, c);
        }
        i += 1;
    }
    assert(v@.skip(i as int) =~= Seq::<char>::empty());
    if !cur.as_str().is_empty() {
        proof {
            views = views.push(cur@);
        }
        out.push(cur);
    }
    assert(lines(s@) =~= views);
    out
}

fn last_is_cr(s: &String) -> (r: bool)
    requires
        s@.len() > 0,
    ensures
        r == (s@.last() == '\r'),
{
    let v = chars_of(s.as_str());
    v[v.len() - 1] == '\r'
}

proof fn lemma_join_push(strs: Seq<Seq<char>>, sep: Seq<char>, x: Seq<char>)
    ensures
        join(strs.push(x), sep) == if strs.len() == 0 {
            x
        } else {
            join(strs, sep) + sep + x
        },
{
    assert(strs.push(x).drop_last() =~= strs);
}

/// `strs[from..]` joined with `sep`.
pub fn join_from(strs: &Vec<String>, from: usize, sep: &str) -> (r: String)
    requires
        from <= strs@.len(),
    ensures
        r@ == join(strs@.subrange(from as int, strs@.len() as int).map_values(|s: String| s@), sep@),
{
    let mut r = String::new();
    let mut i = from;
    let ghost f = |s: String| s@;
    assert(strs@.subrange(from as int, from as int).map_values(f) =~= Seq::<Seq<char>>::empty());
    while i < strs.len()
        invariant
            from <= i <= strs@.len(),
            f == (|s: String| s@),
            r@ == join(strs@.subrange(from as int, i as int).map_values(f), sep@),
        decreases strs@.len() - i,
    {
        let ghost prev = strs@.subrange(from as int, i as int).map_values(f);
        proof {
            assert(strs@.subrange(from as int, i + 1).map_values(f) =~= prev.push(strs@[i as int]@));
            lemma_join_push(prev, sep@, strs@[i as int]@);
        }
        if i > from {
            r.append(sep);
        }
        r.append(strs[i].as_str());
        i += 1;
    }
    r
}

proof fn lemma_digits_monotone(s: Seq<char>, k: int)
    requires
        0 <= k <= s.len(),
        all_digits(s),
    ensures
        digits_value(s.take(k)) <= digits_value(s),
    decreases s.len() - k,
{
    if k < s.len() {
        lemma_digits_monotone(s, k + 1);
        assert(s.take(k + 1).drop_last() =~= s.take(k));
    } else {
        assert(s.take(k) =~= s);
    }
}

/// `u16::from_str`.
pub fn parse_u16_str(s: &str) -> (r: Option<u16>)
    ensures
        r == parse_u16(s@),
{
    let v = chars_of(s);
    let start: usize = if v.len() > 0 && v[0] == '+' {
        1
    } else {
        0
    };
    let ghost d = v@.skip(start as int);
    assert(d =~= (if s@.len() > 0 && s@[0] == '+' {
        s@.drop_first()
    } else {
        s@
    }));
    if v.len() == start {
        return None;
    }
    let mut i = start;
    let mut value: u32 = 0;
    while i < v.len()
        invariant
            v@ == s@,
            start <= i <= v@.len(),
            d == v@.skip(start as int),
            d == (if s@.len() > 0 && s@[0] == '+' {
                s@.drop_first()
            } else {
                s@
            }),
            d.len() > 0,
            value == digits_value(d.take(i - start)),
            value <= u16::MAX,
            all_digits(d.take(i - start)),
        decreases v@.len() - i,
    {
        let c = v[i];
        assert(d.take(i + 1 - start).drop_last() =~= d.take(i - start));
        if !('0' <= c && c <= '9') {
            assert(!all_digits(d)) by {
                assert(d[i - start] == c);
            }
            return None;
        }
        let digit = (c as u32) - 48;
        value = value * 10 + digit;
        assert(all_digits(d.take(i + 1 - start)));
        if value > 65535 {
            proof {
                if all_digits(d) {
                    lemma_digits_monotone(d, i + 1 - start);
                }
            }
            return None;
        }
        i += 1;
    }
    assert(d.take(i - start) =~= d);
    Some(value as u16)
}

proof fn lemma_decimal_nonempty(n: nat)
    ensures
        decimal(n).len() > 0,
    decreases n,
{
    if n >= 10 {
        lemma_decimal_nonempty(n / 10);
    }
}

/// Appends the decimal representation of `n` to `s`.
pub fn push_decimal(s: &mut String, n: u64)
    ensures
        final(s)@ == old(s)@ + decimal(n as nat),
    decreases n,
{
    if n >= 10 {
        push_decimal(s, n / 10);
    }
    let d = (n % 10) as u8;
    let c = (d + 48) as char;
    assert(c == digit_char((n % 10) as nat));
    push_char(s, c);
    assert(s@ =~= old(s)@ + decimal(n as nat));
}

/// The decimal representation of `n`.
pub fn u64_to_decimal(n: u64) -> (r: String)
    ensures
        r@ == decimal(n as nat),
{
    let mut s = String::new();
    push_decimal(&mut s, n);
    assert(s@ =~= decimal(n as nat));
    s
}

/// The decimal representation of `x`, with a minus sign when negative.
pub fn i32_to_decimal(x: i32) -> (r: String)
    ensures
        r@ == signed_decimal(x as int),
{
    let mut s = String::new();
    if x < 0 {
        push_char(&mut s, '-');
        let m: u64 = (0i64 - (x as i64)) as u64;
        push_decimal(&mut s, m);
    } else {
        push_decimal(&mut s, x as u64);
    }
    assert(s@ =~= signed_decimal(x as int));
    s
}

proof fn lemma_digit_char(d: nat)
    requires
        d < 10,
    ensures
        is_digit(digit_char(d)),
        digit_value(digit_char(d)) == d,
{
    if d == 0 {
        assert(digit_char(0) == '0');
    } else if d == 1 {
        assert(digit_char(1) == '1');
    } else if d == 2 {
        assert(digit_char(2) == '2');
    } else if d == 3 {
        assert(digit_char(3) == '3');
    } else if d == 4 {
        assert(digit_char(4) == '4');
    } else if d == 5 {
        assert(digit_char(5) == '5');
    } else if d == 6 {
        assert(digit_char(6) == '6');
    } else if d == 7 {
        assert(digit_char(7) == '7');
    } else if d == 8 {
        assert(digit_char(8) == '8');
    } else {
        assert(digit_char(9) == '9');
    }
}

proof fn lemma_decimal_digits(n: nat)
    ensures
        decimal(n).len() > 0,
        all_digits(decimal(n)),
        digits_value(decimal(n)) == n,
    decreases n,
{
    if n < 10 {
        lemma_digit_char(n);
        assert(decimal(n).drop_last() =~= Seq::<char>::empty());
        assert(digits_value(Seq::<char>::empty()) == 0);
        assert(decimal(n).last() == digit_char(n));
        assert(digits_value(decimal(n)) == 0 * 10 + digit_value(digit_char(n)));
    } else {
        lemma_decimal_digits(n / 10);
        lemma_digit_char(n % 10);
        let d = decimal(n);
        assert(d.drop_last() =~= decimal(n / 10));
        assert(d.last() == digit_char(n % 10));
        assert(digits_value(d) == digits_value(decimal(n / 10)) * 10 + digit_value(digit_char(n % 10)));
        assert((n / 10) * 10 + n % 10 == n);
        assert(forall|i: int| 0 <= i < d.len() ==> is_digit(#[trigger] d[i])) by {
            assert forall|i: int| 0 <= i < d.len() implies is_digit(#[trigger] d[i]) by {
                if i < d.len() - 1 {
                    assert(d[i] == decimal(n / 10)[i]);
                }
            }
        }
    }
}

/// A number written in decimal reads back as the same number.
pub proof fn lemma_decimal_reads_back(p: u16)
    ensures
        parse_u16(decimal(p as nat)) == Some(p),
{
    lemma_decimal_digits(p as nat);
    let d = decimal(p as nat);
    assert(is_digit(d[0]));
}

} // verus!
