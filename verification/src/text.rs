//! Character-level text handling: whitespace, trimming, words, lines, decimals.
//!
//! Strings are viewed as `Seq<char>`; the executable helpers work on a
//! `Vec<char>` copy of a string and on index ranges into it.
use vstd::prelude::*;
use vstd::utf8::{decode_utf8, encode_scalar, encode_utf8, valid_utf8};

verus! {

/// The Unicode `White_Space` property, which is what `char::is_whitespace` tests.
pub open spec fn is_ws(c: char) -> bool {
    let v = c as u32;
    ||| 0x09 <= v <= 0x0D
    ||| v == 0x20
    ||| v == 0x85
    ||| v == 0xA0
    ||| v == 0x1680
    ||| 0x2000 <= v <= 0x200A
    ||| v == 0x2028
    ||| v == 0x2029
    ||| v == 0x202F
    ||| v == 0x205F
    ||| v == 0x3000
}

/// Whether `c` is Unicode white space.
pub fn is_white_space(c: char) -> (b: bool)
    ensures
        b == is_ws(c),
{
    let v = c as u32;
    (0x09 <= v && v <= 0x0D) || v == 0x20 || v == 0x85 || v == 0xA0 || v == 0x1680 || (0x2000
        <= v && v <= 0x200A) || v == 0x2028 || v == 0x2029 || v == 0x202F || v == 0x205F || v
        == 0x3000
}

/// A class of characters that a scan stops at or runs over.
#[derive(Clone, Copy)]
pub enum Pat {
    /// White space.
    Space,
    /// Anything but white space.
    NonSpace,
    /// Exactly this character.
    Exactly(char),
    /// Anything but this character.
    AnyBut(char),
}

pub open spec fn pat_holds(p: Pat, c: char) -> bool {
    match p {
        Pat::Space => is_ws(c),
        Pat::NonSpace => !is_ws(c),
        Pat::Exactly(d) => c == d,
        Pat::AnyBut(d) => c != d,
    }
}

/// Whether `c` belongs to the class `p`.
pub fn pat_test(p: Pat, c: char) -> (b: bool)
    ensures
        b == pat_holds(p, c),
{
    match p {
        Pat::Space => is_white_space(c),
        Pat::NonSpace => !is_white_space(c),
        Pat::Exactly(d) => c == d,
        Pat::AnyBut(d) => c != d,
    }
}

/// How many characters at the start of `s` belong to `p`.
pub open spec fn count_leading(s: Seq<char>, p: Pat) -> nat
    decreases s.len(),
{
    if s.len() > 0 && pat_holds(p, s[0]) {
        1 + count_leading(s.drop_first(), p)
    } else {
        0
    }
}

/// How many characters at the end of `s` belong to `p`.
pub open spec fn count_trailing(s: Seq<char>, p: Pat) -> nat
    decreases s.len(),
{
    if s.len() > 0 && pat_holds(p, s.last()) {
        1 + count_trailing(s.drop_last(), p)
    } else {
        0
    }
}

/// `s` without the characters of class `p` at its start.
pub open spec fn trim_start_by(s: Seq<char>, p: Pat) -> Seq<char> {
    s.skip(count_leading(s, p) as int)
}

/// `s` without the characters of class `p` at its end.
pub open spec fn trim_end_by(s: Seq<char>, p: Pat) -> Seq<char> {
    s.take(s.len() - count_trailing(s, p))
}

/// `s` without the characters of class `p` at either end (`str::trim_matches`).
pub open spec fn trim_by(s: Seq<char>, p: Pat) -> Seq<char> {
    trim_end_by(trim_start_by(s, p), p)
}

/// `s` without white space at either end (`str::trim`).
pub open spec fn trim_ws(s: Seq<char>) -> Seq<char> {
    trim_by(s, Pat::Space)
}

/// `s` begins with `prefix`.
pub open spec fn starts_with(s: Seq<char>, prefix: Seq<char>) -> bool {
    prefix.len() <= s.len() && s.take(prefix.len() as int) == prefix
}

pub proof fn lemma_count_leading(s: Seq<char>, p: Pat)
    ensures
        count_leading(s, p) <= s.len(),
        forall|i: int| 0 <= i < count_leading(s, p) ==> pat_holds(p, #[trigger] s[i]),
        count_leading(s, p) < s.len() ==> !pat_holds(p, s[count_leading(s, p) as int]),
    decreases s.len(),
{
    if s.len() > 0 && pat_holds(p, s[0]) {
        lemma_count_leading(s.drop_first(), p);
        assert forall|i: int| 0 <= i < count_leading(s, p) implies pat_holds(p, #[trigger] s[i]) by {
            if i > 0 {
                assert(s[i] == s.drop_first()[i - 1]);
            }
        }
    }
}

/// A run of characters of class `p` in front adds its length to the leading count.
pub proof fn lemma_count_leading_concat(a: Seq<char>, b: Seq<char>, p: Pat)
    requires
        forall|i: int| 0 <= i < a.len() ==> pat_holds(p, #[trigger] a[i]),
    ensures
        count_leading(a + b, p) == a.len() + count_leading(b, p),
    decreases a.len(),
{
    if a.len() == 0 {
        assert(a + b =~= b);
    } else {
        assert((a + b).drop_first() =~= a.drop_first() + b);
        assert((a + b)[0] == a[0]);
        assert forall|i: int| 0 <= i < a.drop_first().len() implies pat_holds(
            p,
            #[trigger] a.drop_first()[i],
        ) by {
            assert(a.drop_first()[i] == a[i + 1]);
        }
        lemma_count_leading_concat(a.drop_first(), b, p);
    }
}

/// A run of characters of class `p` at the end adds its length to the trailing count.
pub proof fn lemma_count_trailing_concat(a: Seq<char>, b: Seq<char>, p: Pat)
    requires
        forall|i: int| 0 <= i < b.len() ==> pat_holds(p, #[trigger] b[i]),
    ensures
        count_trailing(a + b, p) == b.len() + count_trailing(a, p),
    decreases b.len(),
{
    if b.len() == 0 {
        assert(a + b =~= a);
    } else {
        assert((a + b).drop_last() =~= a + b.drop_last());
        assert((a + b).last() == b.last());
        assert forall|i: int| 0 <= i < b.drop_last().len() implies pat_holds(
            p,
            #[trigger] b.drop_last()[i],
        ) by {
            assert(b.drop_last()[i] == b[i]);
        }
        lemma_count_trailing_concat(a, b.drop_last(), p);
    }
}

/// Number of characters of class `p` at the start of `v[lo..hi]`.
pub fn leading_in(v: &Vec<char>, lo: usize, hi: usize, p: Pat) -> (n: usize)
    requires
        lo <= hi <= v@.len(),
    ensures
        n == count_leading(v@.subrange(lo as int, hi as int), p),
        lo + n <= hi,
{
    let mut i = lo;
    while i < hi && pat_test(p, v[i])
        invariant
            lo <= i <= hi <= v@.len(),
            count_leading(v@.subrange(lo as int, hi as int), p) == (i - lo) + count_leading(
                v@.subrange(i as int, hi as int),
                p,
            ),
        decreases hi - i,
    {
        assert(v@.subrange(i as int, hi as int).drop_first() =~= v@.subrange(
            i + 1,
            hi as int,
        ));
        i = i + 1;
    }
    i - lo
}

/// Number of characters of class `p` at the end of `v[lo..hi]`.
pub fn trailing_in(v: &Vec<char>, lo: usize, hi: usize, p: Pat) -> (n: usize)
    requires
        lo <= hi <= v@.len(),
    ensures
        n == count_trailing(v@.subrange(lo as int, hi as int), p),
        lo + n <= hi,
{
    let mut j = hi;
    while j > lo && pat_test(p, v[j - 1])
        invariant
            lo <= j <= hi <= v@.len(),
            count_trailing(v@.subrange(lo as int, hi as int), p) == (hi - j) + count_trailing(
                v@.subrange(lo as int, j as int),
                p,
            ),
        decreases j - lo,
    {
        assert(v@.subrange(lo as int, j as int).drop_last() =~= v@.subrange(
            lo as int,
            j - 1,
        ));
        j = j - 1;
    }
    hi - j
}

/// The bounds of `v[lo..hi]` with the characters of class `p` cut off at both ends.
pub fn trim_range(v: &Vec<char>, lo: usize, hi: usize, p: Pat) -> (r: (usize, usize))
    requires
        lo <= hi <= v@.len(),
    ensures
        lo <= r.0 <= r.1 <= hi,
        v@.subrange(r.0 as int, r.1 as int) == trim_by(v@.subrange(lo as int, hi as int), p),
{
    let n = leading_in(v, lo, hi, p);
    let a = lo + n;
    assert(v@.subrange(lo as int, hi as int).skip(n as int) =~= v@.subrange(a as int, hi as int));
    let m = trailing_in(v, a, hi, p);
    let b = hi - m;
    assert(v@.subrange(a as int, hi as int).take(hi - a - m) =~= v@.subrange(a as int, b as int));
    (a, b)
}

/// The characters of `s`, in order.
pub fn chars_of(s: &str) -> (v: Vec<char>)
    ensures
        v@ == s@,
{
    let mut v: Vec<char> = Vec::new();
    for c in it: s.chars()
        invariant
            v@ == it.seq().take(it.index() as int),
            it.seq() == s@,
    {
        v.push(c);
    }
    v
}

/// `String::push`: appends one character at the end of the string.
#[verifier::external_body]
pub(crate) fn push_char(s: &mut String, c: char)
    ensures
        final(s)@ == old(s)@.push(c),
{
    s.push(c);
}

/// Appends the characters `v[lo..hi]` to `out`.
pub fn push_range(out: &mut String, v: &Vec<char>, lo: usize, hi: usize)
    requires
        lo <= hi <= v@.len(),
    ensures
        final(out)@ == old(out)@ + v@.subrange(lo as int, hi as int),
{
    let ghost start = out@;
    let mut i = lo;
    while i < hi
        invariant
            lo <= i <= hi <= v@.len(),
            out@ == start + v@.subrange(lo as int, i as int),
        decreases hi - i,
    {
        push_char(out, v[i]);
        assert(v@.subrange(lo as int, i + 1) =~= v@.subrange(lo as int, i as int).push(v@[i as int]));
        i = i + 1;
    }
}

/// A new string holding the characters `v[lo..hi]`.
pub fn string_of_range(v: &Vec<char>, lo: usize, hi: usize) -> (r: String)
    requires
        lo <= hi <= v@.len(),
    ensures
        r@ == v@.subrange(lo as int, hi as int),
{
    let mut r = String::new();
    push_range(&mut r, v, lo, hi);
    assert(Seq::<char>::empty() + v@.subrange(lo as int, hi as int) =~= v@.subrange(lo as int, hi as int));
    r
}

/// Appends all of `s` to `out`.
pub fn push_str(out: &mut String, s: &str)
    ensures
        final(out)@ == old(out)@ + s@,
{
    let v = chars_of(s);
    push_range(out, &v, 0, v.len());
    assert(v@.subrange(0, v@.len() as int) =~= v@);
}

/// The words of `s`: the maximal runs of non-white-space characters, in order
/// (`str::split_whitespace`).
pub open spec fn words(s: Seq<char>) -> Seq<Seq<char>>
    decreases s.len(),
{
    if s.len() == 0 {
        seq![]
    } else if is_ws(s[0]) {
        words(s.drop_first())
    } else {
        proof {
            lemma_count_leading(s, Pat::NonSpace);
        }
        let n = count_leading(s, Pat::NonSpace);
        seq![s.take(n as int)] + words(s.skip(n as int))
    }
}

/// The character views of a sequence of strings.
pub open spec fn views(v: Seq<String>) -> Seq<Seq<char>> {
    v.map_values(|w: String| w@)
}

pub proof fn lemma_views_push(v: Seq<String>, s: String)
    ensures
        views(v.push(s)) == views(v).push(s@),
{
    assert(views(v.push(s)) =~= views(v).push(s@));
}

/// The words of `s`, in order (`str::split_whitespace`).
pub fn split_words(s: &str) -> (r: Vec<String>)
    ensures
        views(r@) == words(s@),
{
    let v = chars_of(s);
    let len = v.len();
    let mut out: Vec<String> = Vec::new();
    let mut i: usize = 0;
    assert(v@.subrange(0, len as int) =~= s@);
    while i < len
        invariant
            v@ == s@,
            len == v@.len(),
            i <= len,
            words(s@) == views(out@) + words(v@.subrange(i as int, len as int)),
        decreases len - i,
    {
        let ghost rest = v@.subrange(i as int, len as int);
        if is_white_space(v[i]) {
            assert(rest.drop_first() =~= v@.subrange(i + 1, len as int));
            i = i + 1;
        } else {
            let n = leading_in(&v, i, len, Pat::NonSpace);
            proof {
                lemma_count_leading(rest, Pat::NonSpace);
            }
            let w = string_of_range(&v, i, i + n);
            let ghost before = out@;
            out.push(w);
            assert(rest.take(n as int) =~= v@.subrange(i as int, i + n));
            assert(rest.skip(n as int) =~= v@.subrange(i + n, len as int));
            assert(views(out@) =~= views(before) + seq![w@]);
            assert(views(out@) + words(v@.subrange(i + n, len as int)) =~= views(before) + (seq![
                rest.take(n as int),
            ] + words(rest.skip(n as int))));
            i = i + n;
        }
    }
    assert(words(v@.subrange(len as int, len as int)) =~= Seq::<Seq<char>>::empty());
    assert(views(out@) + Seq::<Seq<char>>::empty() =~= views(out@));
    out
}

/// The character of the decimal digit `d`.
pub open spec fn digit_char(d: nat) -> char {
    if d == 0 {
        '0'
    } else if d == 1 {
        '1'
    } else if d == 2 {
        '2'
    } else if d == 3 {
        '3'
    } else if d == 4 {
        '4'
    } else if d == 5 {
        '5'
    } else if d == 6 {
        '6'
    } else if d == 7 {
        '7'
    } else if d == 8 {
        '8'
    } else {
        '9'
    }
}

/// The decimal representation of `n`, without leading zeros.
pub open spec fn decimal(n: nat) -> Seq<char>
    decreases n,
{
    if n < 10 {
        seq![digit_char(n)]
    } else {
        decimal(n / 10).push(digit_char(n % 10))
    }
}

fn digit(d: u128) -> (c: char)
    requires
        d < 10,
    ensures
        c == digit_char(d as nat),
{
    if d == 0 {
        '0'
    } else if d == 1 {
        '1'
    } else if d == 2 {
        '2'
    } else if d == 3 {
        '3'
    } else if d == 4 {
        '4'
    } else if d == 5 {
        '5'
    } else if d == 6 {
        '6'
    } else if d == 7 {
        '7'
    } else if d == 8 {
        '8'
    } else {
        '9'
    }
}

/// Appends the decimal representation of `n` to `out`.
pub fn push_decimal(out: &mut String, n: u128)
    ensures
        final(out)@ == old(out)@ + decimal(n as nat),
    decreases n,
{
    if n >= 10 {
        push_decimal(out, n / 10);
        push_char(out, digit(n % 10));
        assert(decimal(n as nat) == decimal((n / 10) as nat).push(digit_char((n % 10) as nat)));
    } else {
        push_char(out, digit(n));
        assert(decimal(n as nat) =~= seq![digit_char(n as nat)]);
    }
    assert(final(out)@ =~= old(out)@ + decimal(n as nat));
}

/// `items` joined with `sep` between each two neighbours (`[..].join(sep)`).
pub open spec fn join(items: Seq<Seq<char>>, sep: Seq<char>) -> Seq<char>
    decreases items.len(),
{
    if items.len() == 0 {
        seq![]
    } else if items.len() == 1 {
        items[0]
    } else {
        join(items.drop_last(), sep) + sep + items.last()
    }
}

/// Whether two strings hold the same characters.
pub fn same_text(a: &str, b: &str) -> (r: bool)
    ensures
        r == (a@ == b@),
{
    let v = chars_of(a);
    let w = chars_of(b);
    if v.len() != w.len() {
        return false;
    }
    let mut i: usize = 0;
    while i < v.len()
        invariant
            v@ == a@,
            w@ == b@,
            v@.len() == w@.len(),
            i <= v@.len(),
            forall|j: int| 0 <= j < i ==> v@[j] == w@[j],
        decreases v@.len() - i,
    {
        if v[i] != w[i] {
            return false;
        }
        i = i + 1;
    }
    assert(v@ =~= w@);
    true
}

/// What `String::from_utf8_lossy` makes of `bytes`: their UTF-8 decoding, with
/// each invalid sequence replaced by U+FFFD.
pub uninterp spec fn utf8_lossy(bytes: Seq<u8>) -> Seq<char>;

/// `String::from_utf8_lossy`, made an owned string. Its documentation says that
/// valid UTF-8 comes back as the text it encodes; for other input the result is
/// named by `utf8_lossy` and not spelled out.
#[verifier::external_body]
pub(crate) fn lossy_text(bytes: &Vec<u8>) -> (s: String)
    ensures
        s@ == utf8_lossy(bytes@),
        valid_utf8(bytes@) ==> s@ == decode_utf8(bytes@),
{
    String::from_utf8_lossy(bytes.as_slice()).into_owned()
}

/// The length in bytes of the UTF-8 encoding of `s`.
pub open spec fn byte_len(s: Seq<char>) -> nat {
    encode_utf8(s).len()
}

/// The number of bytes of the UTF-8 encoding of `c`.
pub open spec fn char_width(c: char) -> nat {
    encode_scalar(c as u32).len()
}

/// The byte offset at which the character at index `k` of `s` begins.
pub open spec fn byte_offset(s: Seq<char>, k: int) -> nat {
    byte_len(s.take(k))
}

/// How many whole characters at the start of `s` end at or before byte offset
/// `b`: the index of the character boundary at or before `b`.
pub open spec fn chars_within(s: Seq<char>, b: int) -> nat
    decreases s.len(),
{
    if s.len() > 0 && char_width(s[0]) <= b {
        1 + chars_within(s.drop_first(), b - char_width(s[0]))
    } else {
        0
    }
}

pub proof fn lemma_encode_concat(a: Seq<char>, b: Seq<char>)
    ensures
        encode_utf8(a + b) == encode_utf8(a) + encode_utf8(b),
    decreases a.len(),
{
    if a.len() == 0 {
        assert(a + b =~= b);
        assert(encode_utf8(a) =~= Seq::<u8>::empty());
        assert(Seq::<u8>::empty() + encode_utf8(b) =~= encode_utf8(b));
    } else {
        assert((a + b).drop_first() =~= a.drop_first() + b);
        assert((a + b)[0] == a[0]);
        lemma_encode_concat(a.drop_first(), b);
        assert(encode_utf8(a + b) =~= encode_utf8(a) + encode_utf8(b));
    }
}

pub proof fn lemma_scalar_width(c: char)
    ensures
        1 <= char_width(c) <= 4,
{
}

/// The offset of the character after index `k` is that of `k` plus its width.
pub proof fn lemma_byte_offset_step(s: Seq<char>, k: int)
    requires
        0 <= k < s.len(),
    ensures
        byte_offset(s, k + 1) == byte_offset(s, k) + char_width(s[k]),
{
    assert(s.take(k + 1) =~= s.take(k) + seq![s[k]]);
    lemma_encode_concat(s.take(k), seq![s[k]]);
    assert(encode_utf8(seq![s[k]]) =~= encode_scalar(s[k] as u32) + encode_utf8(
        seq![s[k]].drop_first(),
    ));
    assert(encode_utf8(seq![s[k]].drop_first()) =~= Seq::<u8>::empty());
}

/// Offsets measured past the first character are those of the rest shifted by
/// its width.
pub proof fn lemma_byte_offset_first(s: Seq<char>, k: int)
    requires
        1 <= k <= s.len(),
    ensures
        byte_offset(s, k) == char_width(s[0]) + byte_offset(s.drop_first(), k - 1),
{
    let t = s.take(k);
    assert(t[0] == s[0]);
    assert(t.drop_first() =~= s.drop_first().take(k - 1));
}

/// Byte offsets grow with the character index: by at least one byte per character.
pub proof fn lemma_byte_offset_grows(s: Seq<char>, j: int, k: int)
    requires
        0 <= j <= k <= s.len(),
    ensures
        byte_offset(s, j) + (k - j) <= byte_offset(s, k),
    decreases k - j,
{
    if j < k {
        lemma_byte_offset_grows(s, j, k - 1);
        lemma_byte_offset_step(s, k - 1);
        lemma_scalar_width(s[k - 1]);
    }
}

/// The whole string ends at its byte length.
pub proof fn lemma_byte_offset_end(s: Seq<char>)
    ensures
        byte_offset(s, s.len() as int) == byte_len(s),
{
    assert(s.take(s.len() as int) =~= s);
}

/// The boundary at or before `b` lies at or before `b`, and the next one after it.
pub proof fn lemma_chars_within(s: Seq<char>, b: int)
    requires
        0 <= b,
    ensures
        chars_within(s, b) <= s.len(),
        byte_offset(s, chars_within(s, b) as int) <= b,
        chars_within(s, b) < s.len() ==> b < byte_offset(s, chars_within(s, b) + 1int),
    decreases s.len(),
{
    let k = chars_within(s, b) as int;
    if s.len() == 0 {
        assert(s.take(0) =~= Seq::<char>::empty());
    } else if char_width(s[0]) <= b {
        lemma_chars_within(s.drop_first(), b - char_width(s[0]));
        lemma_byte_offset_first(s, k);
        if k < s.len() {
            lemma_byte_offset_first(s, k + 1);
        }
    } else {
        assert(s.take(0) =~= Seq::<char>::empty());
        lemma_byte_offset_step(s, 0);
    }
}

/// At the offset of a character boundary, the boundary found is that one.
pub proof fn lemma_chars_within_offset(s: Seq<char>, j: int)
    requires
        0 <= j <= s.len(),
    ensures
        chars_within(s, byte_offset(s, j) as int) == j,
    decreases s.len(),
{
    if j == 0 {
        assert(s.take(0) =~= Seq::<char>::empty());
        if s.len() > 0 {
            lemma_scalar_width(s[0]);
        }
    } else {
        lemma_byte_offset_first(s, j);
        lemma_chars_within_offset(s.drop_first(), j - 1);
    }
}

/// The number of bytes of the UTF-8 encoding of `c`.
pub fn utf8_width(c: char) -> (w: usize)
    ensures
        w == char_width(c),
{
    let v = c as u32;
    if v <= 0x7F {
        1
    } else if v <= 0x7FF {
        2
    } else if v <= 0xFFFF {
        3
    } else {
        4
    }
}

/// The length in bytes of `s` (`str::len`, read off its bytes).
pub fn utf8_len(s: &str) -> (n: usize)
    ensures
        n == byte_len(s@),
{
    s.as_bytes().len()
}

/// The character boundary of the text `v` at or before byte offset `b`: its
/// character index and its byte offset.
pub fn boundary_at_or_before(v: &Vec<char>, b: usize) -> (r: (usize, usize))
    ensures
        r.0 == chars_within(v@, b as int),
        r.1 == byte_offset(v@, r.0 as int),
        r.0 <= v@.len(),
        r.1 <= b,
{
    let ghost s = v@;
    let n = v.len();
    let mut k: usize = 0;
    let mut off: usize = 0;
    assert(s.take(0) =~= Seq::<char>::empty());
    assert(s.skip(0) =~= s);
    while k < n && utf8_width(v[k]) <= b - off
        invariant
            n == s.len(),
            s == v@,
            k <= n,
            off <= b,
            off == byte_offset(s, k as int),
            chars_within(s, b as int) == k + chars_within(s.skip(k as int), b - off),
        decreases n - k,
    {
        proof {
            lemma_byte_offset_step(s, k as int);
            assert(s.skip(k as int).drop_first() =~= s.skip(k + 1));
            assert(s.skip(k as int)[0] == s[k as int]);
        }
        off = off + utf8_width(v[k]);
        k = k + 1;
    }
    proof {
        if k < n {
            assert(s.skip(k as int)[0] == s[k as int]);
        }
    }
    (k, off)
}

/// The byte offset of the character at index `k` of `v`, given that the whole
/// text's length in bytes, `total`, is known.
pub fn offset_of(v: &Vec<char>, k: usize, total: usize) -> (off: usize)
    requires
        k <= v@.len(),
        total == byte_len(v@),
    ensures
        off == byte_offset(v@, k as int),
{
    let ghost s = v@;
    let mut i: usize = 0;
    let mut off: usize = 0;
    assert(s.take(0) =~= Seq::<char>::empty());
    while i < k
        invariant
            s == v@,
            k <= s.len(),
            total == byte_len(s),
            i <= k,
            off == byte_offset(s, i as int),
        decreases k - i,
    {
        proof {
            lemma_byte_offset_step(s, i as int);
            lemma_byte_offset_grows(s, i + 1, s.len() as int);
            lemma_byte_offset_end(s);
        }
        off = off + utf8_width(v[i]);
        i = i + 1;
    }
    off
}

} // verus!
