//! Character-level helpers on strings, with specifications over `Seq<char>`.
use vstd::prelude::*;

verus! {

/// `p` occurs in `s` starting at index `i`.
pub open spec fn matches_at(s: Seq<char>, p: Seq<char>, i: int) -> bool {
    0 <= i && i + p.len() <= s.len() && s.subrange(i, i + p.len()) == p
}

/// `s` begins with `p`.
pub open spec fn seq_starts_with(s: Seq<char>, p: Seq<char>) -> bool {
    matches_at(s, p, 0)
}

/// `s` ends with `p`.
pub open spec fn seq_ends_with(s: Seq<char>, p: Seq<char>) -> bool {
    p.len() <= s.len() && matches_at(s, p, s.len() - p.len())
}

/// `p` occurs somewhere in `s`.
pub open spec fn seq_contains(s: Seq<char>, p: Seq<char>) -> bool {
    exists|i: int| #[trigger] matches_at(s, p, i)
}

/// The first index at or after `from` where `c` holds `ch`.
pub open spec fn first_at_or_after(c: Seq<char>, ch: char, from: int) -> Option<int>
    decreases c.len() - from,
{
    if from < 0 || from >= c.len() {
        None
    } else if c[from] == ch {
        Some(from)
    } else {
        first_at_or_after(c, ch, from + 1)
    }
}

/// The first index at or after `from` where `c` holds `ch`.
pub fn find_char_from(c: &[char], ch: char, from: usize) -> (r: Option<usize>)
    ensures
        match r {
            Some(p) => from <= p < c.len() && c@[p as int] == ch && first_at_or_after(c@, ch, from as int) == Some(
                p as int,
            ),
            None => first_at_or_after(c@, ch, from as int) is None,
        },
{
    let mut p: usize = from;
    while p < c.len()
        invariant
            from <= p,
            first_at_or_after(c@, ch, from as int) == first_at_or_after(c@, ch, p as int),
        decreases c.len() - p,
    {
        if c[p] == ch {
            return Some(p);
        }
        p = p + 1;
    }
    None
}

/// The lower-case form of an ASCII character: `A` to `Z` become `a` to `z`, every other
/// character stays as it is.
pub open spec fn ascii_lower(c: char) -> char {
    if 'A' <= c <= 'Z' {
        ((c as u32) + 32) as char
    } else {
        c
    }
}

/// The result of Unicode lowercasing a string that holds a character outside ASCII, as
/// `str::to_lowercase` computes it.
pub uninterp spec fn spec_unicode_lowercase(s: Seq<char>) -> Seq<char>;

/// The result of lowercasing a string, as `str::to_lowercase` computes it: an ASCII string
/// has its letters lowered one by one.
pub open spec fn spec_lowercase(s: Seq<char>) -> Seq<char> {
    if vstd::utf8::is_ascii_chars(s) {
        s.map_values(|c: char| ascii_lower(c))
    } else {
        spec_unicode_lowercase(s)
    }
}

/// Whether a character has the Unicode `White_Space` property, as `char::is_whitespace`
/// documents it: tab to carriage return, space, U+0085, U+00A0, U+1680, U+2000 to U+200A,
/// U+2028, U+2029, U+202F, U+205F and U+3000.
pub open spec fn spec_is_whitespace(c: char) -> bool {
    let u = c as u32;
    ||| 0x09 <= u <= 0x0d
    ||| u == 0x20
    ||| u == 0x85
    ||| u == 0xa0
    ||| u == 0x1680
    ||| 0x2000 <= u <= 0x200a
    ||| u == 0x2028
    ||| u == 0x2029
    ||| u == 0x202f
    ||| u == 0x205f
    ||| u == 0x3000
}

/// Whether a character outside ASCII is alphabetic or numeric in Unicode's sense
/// (`char::is_alphanumeric`).
pub uninterp spec fn spec_unicode_alphanumeric(c: char) -> bool;

/// Whether a character is alphabetic or numeric in Unicode's sense
/// (`char::is_alphanumeric`): among ASCII characters, the letters and the digits.
pub open spec fn spec_is_alphanumeric(c: char) -> bool {
    if c <= '\u{7f}' {
        ('a' <= c <= 'z') || ('A' <= c <= 'Z') || ('0' <= c <= '9')
    } else {
        spec_unicode_alphanumeric(c)
    }
}

/// Whether `c` is one of the characters listed by `spec_is_whitespace`, the ones that
/// `char::is_whitespace` accepts.
pub(crate) fn is_whitespace(c: char) -> (r: bool)
    ensures
        r == spec_is_whitespace(c),
{
    let u = c as u32;
    (0x09 <= u && u <= 0x0d) || u == 0x20 || u == 0x85 || u == 0xa0 || u == 0x1680 || (0x2000 <= u && u
        <= 0x200a) || u == 0x2028 || u == 0x2029 || u == 0x202f || u == 0x205f || u == 0x3000
}

/// Calls `char::is_alphanumeric`: ASCII letters and digits, and outside ASCII what
/// `spec_unicode_alphanumeric` names.
#[verifier::external_body]
pub(crate) fn is_alphanumeric(c: char) -> (r: bool)
    ensures
        c <= '\u{7f}' ==> r == (('a' <= c <= 'z') || ('A' <= c <= 'Z') || ('0' <= c <= '9')),
        c > '\u{7f}' ==> r == spec_unicode_alphanumeric(c),
{
    c.is_alphanumeric()
}

/// Calls `str::to_lowercase`: an ASCII string has its letters lowered, and any other
/// string becomes what `spec_unicode_lowercase` names.
#[verifier::external_body]
pub(crate) fn lowercase(s: &str) -> (r: String)
    ensures
        vstd::utf8::is_ascii_chars(s@) ==> r@ == s@.map_values(|c: char| ascii_lower(c)),
        !vstd::utf8::is_ascii_chars(s@) ==> r@ == spec_unicode_lowercase(s@),
{
    s.to_lowercase()
}

/// Calls `String::push`, which appends one character.
#[verifier::external_body]
fn push_char(s: &mut String, c: char)
    ensures
        final(s)@ == old(s)@.push(c),
{
    s.push(c)
}

/// `s` without leading whitespace.
pub open spec fn spec_trim_start(s: Seq<char>) -> Seq<char>
    decreases s.len(),
{
    if s.len() > 0 && spec_is_whitespace(s[0]) {
        spec_trim_start(s.drop_first())
    } else {
        s
    }
}

/// `s` without trailing whitespace.
pub open spec fn spec_trim_end(s: Seq<char>) -> Seq<char>
    decreases s.len(),
{
    if s.len() > 0 && spec_is_whitespace(s.last()) {
        spec_trim_end(s.drop_last())
    } else {
        s
    }
}

/// `s` without leading and trailing whitespace, as `str::trim` defines it.
pub open spec fn spec_trim(s: Seq<char>) -> Seq<char> {
    spec_trim_end(spec_trim_start(s))
}

/// The characters of `s`, in order.
pub fn chars_of(s: &str) -> (r: Vec<char>)
    ensures
        r@ == s@,
{
    let n = s.unicode_len();
    let mut r: Vec<char> = Vec::new();
    let mut i: usize = 0;
    while i < n
        invariant
            n == s@.len(),
            i <= n,
            r@ == s@.subrange(0, i as int),
        decreases n - i,
    {
        let c = s.get_char(i);
        r.push(c);
        i = i + 1;
    }
    r
}

/// The string made of the characters of `v`.
pub fn string_of(v: &[char]) -> (r: String)
    ensures
        r@ == v@,
{
    let mut r = String::new();
    let mut i: usize = 0;
    while i < v.len()
        invariant
            i <= v.len(),
            r@ == v@.subrange(0, i as int),
        decreases v.len() - i,
    {
        push_char(&mut r, v[i]);
        i = i + 1;
    }
    r
}

/// The characters of `s` from `lo` up to `hi`.
pub fn slice_chars(s: &[char], lo: usize, hi: usize) -> (r: Vec<char>)
    requires
        lo <= hi <= s.len(),
    ensures
        r@ == s@.subrange(lo as int, hi as int),
{
    let mut r: Vec<char> = Vec::new();
    let mut i: usize = lo;
    while i < hi
        invariant
            lo <= i <= hi <= s.len(),
            r@ == s@.subrange(lo as int, i as int),
        decreases hi - i,
    {
        r.push(s[i]);
        i = i + 1;
    }
    r
}

/// Whether `p` occurs in `s` at index `i`.
pub fn matches_at_exec(s: &[char], p: &[char], i: usize) -> (r: bool)
    ensures
        r == matches_at(s@, p@, i as int),
{
    if i > s.len() || p.len() > s.len() - i {
        return false;
    }
    let mut k: usize = 0;
    while k < p.len()
        invariant
            i + p.len() <= s.len(),
            k <= p.len(),
            forall|j: int| 0 <= j < k ==> s@[i + j] == p@[j],
        decreases p.len() - k,
    {
        if s[i + k] != p[k] {
            assert(s@.subrange(i as int, i + p.len())[k as int] != p@[k as int]);
            return false;
        }
        k = k + 1;
    }
    assert(s@.subrange(i as int, i + p.len()) =~= p@);
    true
}

/// The first index at or after `start` where `p` occurs in `s`.
pub fn find_from(s: &[char], p: &[char], start: usize) -> (r: Option<usize>)
    ensures
        match r {
            Some(i) => start <= i && matches_at(s@, p@, i as int) && forall|j: int|
                start <= j < i ==> !#[trigger] matches_at(s@, p@, j),
            None => forall|j: int| start <= j ==> !#[trigger] matches_at(s@, p@, j),
        },
{
    if start > s.len() {
        return None;
    }
    let mut i: usize = start;
    loop
        invariant
            start <= i <= s.len(),
            forall|j: int| start <= j < i ==> !#[trigger] matches_at(s@, p@, j),
        decreases s.len() - i,
    {
        if matches_at_exec(s, p, i) {
            return Some(i);
        }
        if i == s.len() {
            return None;
        }
        i = i + 1;
    }
}

/// Whether `s` begins with `p`.
pub fn starts_with(s: &[char], p: &[char]) -> (r: bool)
    ensures
        r == seq_starts_with(s@, p@),
{
    matches_at_exec(s, p, 0)
}

/// Whether `s` ends with `p`.
pub fn ends_with(s: &[char], p: &[char]) -> (r: bool)
    ensures
        r == seq_ends_with(s@, p@),
{
    if p.len() > s.len() {
        return false;
    }
    matches_at_exec(s, p, s.len() - p.len())
}

/// Whether `p` occurs in `s`.
pub fn contains(s: &[char], p: &[char]) -> (r: bool)
    ensures
        r == seq_contains(s@, p@),
{
    match find_from(s, p, 0) {
        Some(i) => true,
        None => {
            assert forall|j: int| !#[trigger] matches_at(s@, p@, j) by {
                if j < 0 {
                }
            }
            false
        },
    }
}

/// Whether the character `c` occurs in `s`.
pub fn contains_char(s: &[char], c: char) -> (r: bool)
    ensures
        r == s@.contains(c),
{
    let mut i: usize = 0;
    while i < s.len()
        invariant
            i <= s.len(),
            forall|j: int| 0 <= j < i ==> s@[j] != c,
        decreases s.len() - i,
    {
        if s[i] == c {
            return true;
        }
        i = i + 1;
    }
    false
}

/// `s` without leading whitespace.
pub fn trim_start_chars(s: &[char]) -> (r: Vec<char>)
    ensures
        r@ == spec_trim_start(s@),
{
    let mut lo: usize = 0;
    assert(s@.subrange(0, s@.len() as int) =~= s@);
    while lo < s.len() && is_whitespace(s[lo])
        invariant
            lo <= s.len(),
            spec_trim_start(s@) == spec_trim_start(s@.subrange(lo as int, s@.len() as int)),
        decreases s.len() - lo,
    {
        assert(s@.subrange(lo as int, s@.len() as int).drop_first() =~= s@.subrange(
            lo + 1,
            s@.len() as int,
        ));
        lo = lo + 1;
    }
    slice_chars(s, lo, s.len())
}

/// `s` without leading and trailing whitespace.
pub fn trim_chars(s: &[char]) -> (r: Vec<char>)
    ensures
        r@ == spec_trim(s@),
{
    let mut lo: usize = 0;
    assert(s@.subrange(0, s@.len() as int) =~= s@);
    while lo < s.len() && is_whitespace(s[lo])
        invariant
            lo <= s.len(),
            spec_trim_start(s@) == spec_trim_start(s@.subrange(lo as int, s@.len() as int)),
        decreases s.len() - lo,
    {
        assert(s@.subrange(lo as int, s@.len() as int).drop_first() =~= s@.subrange(
            lo + 1,
            s@.len() as int,
        ));
        lo = lo + 1;
    }
    let ghost mid = s@.subrange(lo as int, s@.len() as int);
    assert(spec_trim_start(mid) == mid);
    let mut hi: usize = s.len();
    while hi > lo && is_whitespace(s[hi - 1])
        invariant
            lo <= hi <= s.len(),
            mid == s@.subrange(lo as int, s@.len() as int),
            spec_trim_end(mid) == spec_trim_end(s@.subrange(lo as int, hi as int)),
        decreases hi - lo,
    {
        assert(s@.subrange(lo as int, hi as int).drop_last() =~= s@.subrange(
            lo as int,
            hi - 1,
        ));
        hi = hi - 1;
    }
    assert(s@.subrange(0, s@.len() as int) =~= s@);
    slice_chars(s, lo, hi)
}

/// The decimal digit for `d`.
pub open spec fn digit_char(d: nat) -> char {
    if d == 0 {
        '0'
    } else if d == 1 {
        '1'
    } else if d == 2 {
        '2'
    } else if d == 3 {
        '3'
    } else if d == 4 {
        '4'
    } else if d == 5 {
        '5'
    } else if d == 6 {
        '6'
    } else if d == 7 {
        '7'
    } else if d == 8 {
        '8'
    } else {
        '9'
    }
}

/// The decimal notation of `n`, without leading zeros.
pub open spec fn spec_decimal(n: nat) -> Seq<char>
    decreases n,
{
    if n < 10 {
        seq![digit_char(n)]
    } else {
        spec_decimal(n / 10).push(digit_char(n % 10))
    }
}

fn digit_of(d: u64) -> (c: char)
    requires
        d < 10,
    ensures
        c == digit_char(d as nat),
{
    if d == 0 {
        '0'
    } else if d == 1 {
        '1'
    } else if d == 2 {
        '2'
    } else if d == 3 {
        '3'
    } else if d == 4 {
        '4'
    } else if d == 5 {
        '5'
    } else if d == 6 {
        '6'
    } else if d == 7 {
        '7'
    } else if d == 8 {
        '8'
    } else {
        '9'
    }
}

/// The decimal notation of `n`, as `format!("{}", n)` writes it.
pub fn decimal(n: u64) -> (r: String)
    ensures
        r@ == spec_decimal(n as nat),
    decreases n,
{
    if n < 10 {
        let mut r = String::new();
        push_char(&mut r, digit_of(n));
        assert(r@ =~= seq![digit_char(n as nat)]);
        r
    } else {
        let mut r = decimal(n / 10);
        push_char(&mut r, digit_of(n % 10));
        r
    }
}

/// A new string holding the characters of `a` followed by those of `b`.
pub fn concat2(a: &str, b: &str) -> (r: String)
    ensures
        r@ == a@ + b@,
{
    let mut r = String::from_str(a);
    r.append(b);
    r
}

/// A new string holding the characters of `a`, `b` and `c`, in order.
pub fn concat3(a: &str, b: &str, c: &str) -> (r: String)
    ensures
        r@ == a@ + b@ + c@,
{
    let mut r = String::from_str(a);
    r.append(b);
    r.append(c);
    r
}

/// Whether the characters of `v` are exactly those of `s`.
pub fn eq_str(v: &[char], s: &str) -> (r: bool)
    ensures
        r == (v@ == s@),
{
    let w = chars_of(s);
    if v.len() != w.len() {
        return false;
    }
    let r = matches_at_exec(v, w.as_slice(), 0);
    proof {
        assert(v@.subrange(0, w@.len() as int) =~= v@);
    }
    r
}

/// Whether `a` and `b` are the same string.
pub fn str_eq(a: &str, b: &str) -> (r: bool)
    ensures
        r == (a@ == b@),
{
    let v = chars_of(a);
    eq_str(v.as_slice(), b)
}

/// Every character of `s` is whitespace, so that `s` trims to nothing.
pub open spec fn spec_is_blank(s: Seq<char>) -> bool {
    forall|i: int| 0 <= i < s.len() ==> spec_is_whitespace(#[trigger] s[i])
}

/// Whether `s` is empty or all whitespace.
pub fn is_blank(s: &str) -> (r: bool)
    ensures
        r == spec_is_blank(s@),
{
    let v = chars_of(s);
    let mut i: usize = 0;
    while i < v.len()
        invariant
            v@ == s@,
            i <= v.len(),
            forall|j: int| 0 <= j < i ==> spec_is_whitespace(#[trigger] s@[j]),
        decreases v.len() - i,
    {
        if !is_whitespace(v[i]) {
            return false;
        }
        i = i + 1;
    }
    true
}

/// `x` without one trailing carriage return.
pub open spec fn strip_cr(x: Seq<char>) -> Seq<char> {
    if x.len() > 0 && x.last() == '\r' {
        x.drop_last()
    } else {
        x
    }
}

/// The lines of `s`, as `str::lines` yields them: split at each `\n`, a `\r` just
/// before the `\n` removed, no empty line after a final `\n`.
pub open spec fn spec_lines(s: Seq<char>) -> Seq<Seq<char>>
    decreases s.len(),
{
    if s.len() == 0 {
        Seq::empty()
    } else {
        match first_at_or_after(s, '\n', 0) {
            None => seq![s],
            Some(e) => if 0 <= e < s.len() {
                seq![strip_cr(s.subrange(0, e))] + spec_lines(s.subrange(e + 1, s.len() as int))
            } else {
                seq![s]
            },
        }
    }
}

proof fn lemma_first_in_range(c: Seq<char>, ch: char, from: int)
    ensures
        first_at_or_after(c, ch, from) matches Some(p) ==> from <= p < c.len() && c[p] == ch,
    decreases c.len() - from,
{
    if 0 <= from < c.len() && c[from] != ch {
        lemma_first_in_range(c, ch, from + 1);
    }
}

proof fn lemma_first_shift(c: Seq<char>, ch: char, k: int, from: int)
    requires
        0 <= k <= c.len(),
        0 <= from,
    ensures
        first_at_or_after(c.subrange(k, c.len() as int), ch, from) == (match first_at_or_after(
            c,
            ch,
            k + from,
        ) {
            Some(p) => Some(p - k),
            None => None::<int>,
        }),
    decreases c.len() - k - from,
{
    if k + from < c.len() && c[k + from] != ch {
        lemma_first_shift(c, ch, k, from + 1);
    }
}

/// The lines of `s` (see `spec_lines`).
pub fn split_lines(s: &[char]) -> (r: Vec<Vec<char>>)
    ensures
        r@.len() == spec_lines(s@).len(),
        forall|i: int| 0 <= i < r@.len() ==> #[trigger] r@[i]@ == spec_lines(s@)[i],
{
    let mut out: Vec<Vec<char>> = Vec::new();
    let mut start: usize = 0;
    let ghost acc: Seq<Seq<char>> = Seq::empty();
    assert(s@.subrange(0, s@.len() as int) =~= s@);
    assert(acc + spec_lines(s@) =~= spec_lines(s@));
    while start < s.len()
        invariant
            start <= s.len(),
            out@.len() == acc.len(),
            forall|i: int| 0 <= i < out@.len() ==> #[trigger] out@[i]@ == acc[i],
            spec_lines(s@) == acc + spec_lines(s@.subrange(start as int, s@.len() as int)),
        decreases s.len() - start,
    {
        let ghost rest = s@.subrange(start as int, s@.len() as int);
        proof {
            lemma_first_shift(s@, '\n', start as int, 0);
            lemma_first_in_range(s@, '\n', start as int);
        }
        match find_char_from(s, '\n', start) {
            None => {
                let line = slice_chars(s, start, s.len());
                proof {
                    assert(spec_lines(rest) == seq![rest]);
                    acc = acc.push(rest);
                }
                out.push(line);
                start = s.len();
                proof {
                    assert(s@.subrange(start as int, s@.len() as int) =~= Seq::<char>::empty());
                    assert(spec_lines(Seq::<char>::empty()) =~= Seq::<Seq<char>>::empty());
                }
            },
            Some(e) => {
                let mut line = slice_chars(s, start, e);
                if line.len() > 0 && line[line.len() - 1] == '\r' {
                    line.pop();
                }
                proof {
                    let e2 = e - start;
                    assert(rest.subrange(0, e2) =~= s@.subrange(start as int, e as int));
                    assert(rest.subrange(e2 + 1, rest.len() as int) =~= s@.subrange(
                        e + 1,
                        s@.len() as int,
                    ));
                    assert(line@ == strip_cr(rest.subrange(0, e2)));
                    acc = acc.push(line@);
                    assert(spec_lines(s@) =~= acc + spec_lines(s@.subrange(e + 1, s@.len() as int)));
                }
                out.push(line);
                start = e + 1;
            },
        }
    }
    proof {
        assert(s@.subrange(start as int, s@.len() as int) =~= Seq::<char>::empty());
        assert(spec_lines(Seq::<char>::empty()) =~= Seq::<Seq<char>>::empty());
        assert(acc + Seq::<Seq<char>>::empty() =~= acc);
    }
    out
}

} // verus!
