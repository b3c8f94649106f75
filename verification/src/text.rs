//! Verified text primitives over `Seq<char>`: conversion between `&str`,
//! `String` and `Vec<char>`, ASCII case folding, whitespace trimming,
//! substring search and splitting.
use vstd::prelude::*;

verus! {

// ---------------------------------------------------------------------------
// Conversions
// ---------------------------------------------------------------------------

/// The characters of a string slice, in order.
pub fn chars_of(s: &str) -> (v: Vec<char>)
    ensures
        v@ == s@,
{
    let mut v: Vec<char> = Vec::new();
    for c in it: s.chars()
        invariant
            v@ == it.seq().take(it.index() as int),
    {
        v.push(c);
    }
    v
}

/// Appends one character to a `String` (`String::push`).
#[verifier::external_body]
pub(crate) fn push_char(s: &mut String, c: char)
    ensures
        final(s)@ == old(s)@.push(c),
{
    s.push(c);
}

/// Appends a string slice to a `String` (`String::push_str`).
#[verifier::external_body]
pub(crate) fn push_str(s: &mut String, t: &str)
    ensures
        final(s)@ == old(s)@ + t@,
{
    s.push_str(t);
}

/// Builds a `String` holding exactly the given characters.
pub fn string_of(v: &[char]) -> (s: String)
    ensures
        s@ == v@,
{
    let mut s = String::new();
    for i in 0..v.len()
        invariant
            s@ == v@.take(i as int),
    {
        push_char(&mut s, v[i]);
        assert(v@.take(i + 1) == v@.take(i as int).push(v@[i as int]));
    }
    assert(v@.take(v.len() as int) == v@);
    s
}

/// Owned copy of a string slice.
pub fn owned(s: &str) -> (r: String)
    ensures
        r@ == s@,
{
    let mut r = String::new();
    push_str(&mut r, s);
    r
}

/// Concatenation of two strings.
pub fn concat2(a: &str, b: &str) -> (r: String)
    ensures
        r@ == a@ + b@,
{
    let mut r = String::new();
    push_str(&mut r, a);
    push_str(&mut r, b);
    r
}

/// Concatenation of three strings.
pub fn concat3(a: &str, b: &str, c: &str) -> (r: String)
    ensures
        r@ == a@ + b@ + c@,
{
    let mut r = String::new();
    push_str(&mut r, a);
    push_str(&mut r, b);
    push_str(&mut r, c);
    r
}

/// Equality of two character sequences.
pub fn chars_eq(a: &[char], b: &[char]) -> (r: bool)
    ensures
        r == (a@ == b@),
{
    if a.len() != b.len() {
        return false;
    }
    for i in 0..a.len()
        invariant
            a@.len() == b@.len(),
            forall|j: int| 0 <= j < i ==> a@[j] == b@[j],
    {
        if a[i] != b[i] {
            return false;
        }
    }
    assert(a@ =~= b@);
    true
}

/// Equality of two strings by content.
pub fn str_eq(a: &str, b: &str) -> (r: bool)
    ensures
        r == (a@ == b@),
{
    let va = chars_of(a);
    let vb = chars_of(b);
    chars_eq(va.as_slice(), vb.as_slice())
}

// ---------------------------------------------------------------------------
// ASCII case folding
// ---------------------------------------------------------------------------

pub open spec fn is_ascii_upper(c: char) -> bool {
    'A' <= c && c <= 'Z'
}

pub open spec fn is_ascii_digit(c: char) -> bool {
    '0' <= c && c <= '9'
}

pub open spec fn is_ascii_lower(c: char) -> bool {
    'a' <= c && c <= 'z'
}

pub open spec fn is_ascii_alnum(c: char) -> bool {
    is_ascii_upper(c) || is_ascii_lower(c) || is_ascii_digit(c)
}

/// `char::to_ascii_lowercase`: maps `A`..=`Z` to `a`..=`z`, every other
/// character to itself.
pub open spec fn ascii_lower(c: char) -> char {
    if is_ascii_upper(c) {
        ((c as u32) + 32) as char
    } else {
        c
    }
}

pub open spec fn lower_seq(s: Seq<char>) -> Seq<char> {
    Seq::new(s.len(), |i: int| ascii_lower(s[i]))
}

/// A word of lower-case ASCII letters and digits is its own trimmed,
/// lower-cased form.
pub proof fn lemma_plain_word_normal(s: Seq<char>)
    requires
        forall|i: int| 0 <= i < s.len() ==> is_ascii_lower(#[trigger] s[i]) || is_ascii_digit(s[i]),
    ensures
        trim_seq(s) == s,
        lower_seq(s) == s,
        lower_seq(trim_seq(s)) == s,
{
    if s.len() > 0 {
        assert(!is_ws(s[0]));
        assert(!is_ws(s.last()));
    }
    assert(trim_start_seq(s) == s);
    assert(trim_end_seq(s) == s);
    assert(lower_seq(s) =~= s);
}

proof fn lemma_trim_start_shape(s: Seq<char>)
    ensures
        trim_start_seq(s).len() == 0 || !is_ws(trim_start_seq(s)[0]),
    decreases s.len(),
{
    if s.len() > 0 && is_ws(s[0]) {
        lemma_trim_start_shape(s.drop_first());
    }
}

proof fn lemma_trim_end_shape(s: Seq<char>)
    ensures
        trim_end_seq(s) == s.take(trim_end_seq(s).len() as int),
        trim_end_seq(s).len() <= s.len(),
        trim_end_seq(s).len() == 0 || !is_ws(trim_end_seq(s).last()),
    decreases s.len(),
{
    if s.len() > 0 && is_ws(s.last()) {
        lemma_trim_end_shape(s.drop_last());
        let r = trim_end_seq(s.drop_last());
        assert(s.drop_last().take(r.len() as int) =~= s.take(r.len() as int));
    } else {
        assert(s.take(s.len() as int) =~= s);
    }
}

/// A trimmed text has no whitespace at either end.
pub proof fn lemma_trimmed_ends(s: Seq<char>)
    ensures
        trim_seq(s).len() > 0 ==> !is_ws(trim_seq(s)[0]) && !is_ws(trim_seq(s).last()),
{
    lemma_trim_start_shape(s);
    lemma_trim_end_shape(trim_start_seq(s));
}

/// Trimming and ASCII lower-casing, done twice, is done once.
pub proof fn lemma_lower_trim_idempotent(s: Seq<char>)
    ensures
        lower_seq(trim_seq(lower_seq(trim_seq(s)))) == lower_seq(trim_seq(s)),
{
    let t = trim_seq(s);
    let l = lower_seq(t);
    lemma_trimmed_ends(s);
    if l.len() > 0 {
        assert(l[0] == ascii_lower(t[0]));
        assert(l.last() == ascii_lower(t.last()));
        assert(!is_ws(l[0]));
        assert(!is_ws(l.last()));
    }
    assert(trim_start_seq(l) == l);
    assert(trim_end_seq(l) == l);
    assert forall|i: int| 0 <= i < l.len() implies #[trigger] ascii_lower(l[i]) == l[i] by {
        let c = t[i];
        if is_ascii_upper(c) {
            assert(l[i] == ((c as u32) + 32) as char);
            assert(!is_ascii_upper(l[i]));
        }
    }
    assert(lower_seq(l) =~= l);
}

pub fn ascii_lower_char(c: char) -> (r: char)
    ensures
        r == ascii_lower(c),
{
    if 'A' <= c && c <= 'Z' {
        let code = (c as u32) + 32;
        let b: u8 = code as u8;
        b as char
    } else {
        c
    }
}

pub fn is_ascii_alnum_char(c: char) -> (r: bool)
    ensures
        r == is_ascii_alnum(c),
{
    ('A' <= c && c <= 'Z') || ('a' <= c && c <= 'z') || ('0' <= c && c <= '9')
}

/// `to_ascii_lowercase` on a character sequence.
pub fn lower_chars(s: &[char]) -> (r: Vec<char>)
    ensures
        r@ == lower_seq(s@),
{
    let mut r: Vec<char> = Vec::new();
    for i in 0..s.len()
        invariant
            r@ == lower_seq(s@.take(i as int)),
    {
        r.push(ascii_lower_char(s[i]));
        assert(lower_seq(s@.take(i + 1)) =~= lower_seq(s@.take(i as int)).push(ascii_lower(s@[i as int])));
    }
    assert(s@.take(s.len() as int) == s@);
    r
}

/// `str::to_ascii_lowercase`.
pub fn to_ascii_lowercase(s: &str) -> (r: String)
    ensures
        r@ == lower_seq(s@),
{
    let v = chars_of(s);
    let l = lower_chars(v.as_slice());
    string_of(l.as_slice())
}

/// `str::eq_ignore_ascii_case`.
pub fn eq_ignore_ascii_case(a: &str, b: &str) -> (r: bool)
    ensures
        r == (lower_seq(a@) == lower_seq(b@)),
{
    let la = lower_chars(chars_of(a).as_slice());
    let lb = lower_chars(chars_of(b).as_slice());
    chars_eq(la.as_slice(), lb.as_slice())
}

// ---------------------------------------------------------------------------
// Whitespace and trimming
// ---------------------------------------------------------------------------

/// `char::is_whitespace`: the Unicode `White_Space` property.
pub open spec fn is_ws(c: char) -> bool {
    let u = c as u32;
    (0x09 <= u && u <= 0x0d) || u == 0x20 || u == 0x85 || u == 0xa0 || u == 0x1680 || (0x2000
        <= u && u <= 0x200a) || u == 0x2028 || u == 0x2029 || u == 0x202f || u == 0x205f || u
        == 0x3000
}

pub fn is_whitespace_char(c: char) -> (r: bool)
    ensures
        r == is_ws(c),
{
    let u = c as u32;
    (0x09 <= u && u <= 0x0d) || u == 0x20 || u == 0x85 || u == 0xa0 || u == 0x1680 || (0x2000
        <= u && u <= 0x200a) || u == 0x2028 || u == 0x2029 || u == 0x202f || u == 0x205f || u
        == 0x3000
}

/// Drops leading whitespace (`str::trim_start`).
pub open spec fn trim_start_seq(s: Seq<char>) -> Seq<char>
    decreases s.len(),
{
    if s.len() > 0 && is_ws(s[0]) {
        trim_start_seq(s.drop_first())
    } else {
        s
    }
}

/// Drops trailing whitespace (`str::trim_end`).
pub open spec fn trim_end_seq(s: Seq<char>) -> Seq<char>
    decreases s.len(),
{
    if s.len() > 0 && is_ws(s.last()) {
        trim_end_seq(s.drop_last())
    } else {
        s
    }
}

/// Drops leading and trailing whitespace (`str::trim`).
pub open spec fn trim_seq(s: Seq<char>) -> Seq<char> {
    trim_end_seq(trim_start_seq(s))
}

pub fn trim_start_chars(s: &[char]) -> (r: Vec<char>)
    ensures
        r@ == trim_start_seq(s@),
{
    let mut i: usize = 0;
    assert(s@.skip(0) =~= s@);
    while i < s.len() && is_whitespace_char(s[i])
        invariant
            i <= s@.len(),
            trim_start_seq(s@) == trim_start_seq(s@.skip(i as int)),
        decreases s@.len() - i,
    {
        assert(s@.skip(i as int).drop_first() =~= s@.skip(i + 1));
        i = i + 1;
    }
    let mut r: Vec<char> = Vec::new();
    let mut j: usize = i;
    while j < s.len()
        invariant
            i <= j <= s@.len(),
            r@ == s@.subrange(i as int, j as int),
        decreases s@.len() - j,
    {
        r.push(s[j]);
        assert(s@.subrange(i as int, j + 1) =~= s@.subrange(i as int, j as int).push(s@[j as int]));
        j = j + 1;
    }
    assert(r@ =~= s@.skip(i as int));
    r
}

pub fn trim_end_chars(s: &[char]) -> (r: Vec<char>)
    ensures
        r@ == trim_end_seq(s@),
{
    let mut k: usize = s.len();
    assert(s@.take(k as int) =~= s@);
    while k > 0 && is_whitespace_char(s[k - 1])
        invariant
            k <= s@.len(),
            trim_end_seq(s@) == trim_end_seq(s@.take(k as int)),
        decreases k,
    {
        assert(s@.take(k as int).drop_last() =~= s@.take(k - 1));
        k = k - 1;
    }
    let mut r: Vec<char> = Vec::new();
    let mut j: usize = 0;
    while j < k
        invariant
            j <= k <= s@.len(),
            r@ == s@.take(j as int),
        decreases k - j,
    {
        r.push(s[j]);
        assert(s@.take(j + 1) =~= s@.take(j as int).push(s@[j as int]));
        j = j + 1;
    }
    r
}

pub fn trim_chars(s: &[char]) -> (r: Vec<char>)
    ensures
        r@ == trim_seq(s@),
{
    let a = trim_start_chars(s);
    trim_end_chars(a.as_slice())
}

/// `str::trim`.
pub fn trim(s: &str) -> (r: String)
    ensures
        r@ == trim_seq(s@),
{
    let v = chars_of(s);
    let t = trim_chars(v.as_slice());
    string_of(t.as_slice())
}

// ---------------------------------------------------------------------------
// Prefixes, suffixes and substrings
// ---------------------------------------------------------------------------

pub open spec fn has_prefix(s: Seq<char>, p: Seq<char>) -> bool {
    p.len() <= s.len() && s.take(p.len() as int) == p
}

pub open spec fn has_suffix(s: Seq<char>, p: Seq<char>) -> bool {
    p.len() <= s.len() && s.skip(s.len() - p.len()) == p
}

/// `needle` occurs in `hay` at position `i`.
pub open spec fn occurs_at(hay: Seq<char>, needle: Seq<char>, i: int) -> bool {
    0 <= i && i + needle.len() <= hay.len() && hay.subrange(i, i + needle.len()) == needle
}

/// `str::contains` with a string pattern.
pub open spec fn contains_seq(hay: Seq<char>, needle: Seq<char>) -> bool {
    exists|i: int| #[trigger] occurs_at(hay, needle, i)
}

pub fn starts_with_chars(s: &[char], p: &[char]) -> (r: bool)
    ensures
        r == has_prefix(s@, p@),
{
    if p.len() > s.len() {
        return false;
    }
    for i in 0..p.len()
        invariant
            p@.len() <= s@.len(),
            forall|j: int| 0 <= j < i ==> s@[j] == p@[j],
    {
        if s[i] != p[i] {
            assert(s@.take(p@.len() as int)[i as int] != p@[i as int]);
            return false;
        }
    }
    assert(s@.take(p@.len() as int) =~= p@);
    true
}

pub fn ends_with_chars(s: &[char], p: &[char]) -> (r: bool)
    ensures
        r == has_suffix(s@, p@),
{
    if p.len() > s.len() {
        return false;
    }
    let off = s.len() - p.len();
    for i in 0..p.len()
        invariant
            p@.len() <= s@.len(),
            off + p@.len() == s@.len(),
            s@.len() <= usize::MAX,
            forall|j: int| 0 <= j < i ==> s@[off + j] == p@[j],
    {
        if s[off + i] != p[i] {
            assert(s@.skip(off as int)[i as int] != p@[i as int]);
            return false;
        }
    }
    assert(s@.skip(off as int) =~= p@);
    true
}

/// Whether `needle` occurs in `hay` at position `i`.
pub fn occurs_at_exec(hay: &[char], needle: &[char], i: usize) -> (r: bool)
    ensures
        r == occurs_at(hay@, needle@, i as int),
{
    if i > hay.len() || needle.len() > hay.len() - i {
        return false;
    }
    for k in 0..needle.len()
        invariant
            i + needle@.len() <= hay@.len(),
            needle@.len() <= hay@.len() - i,
            hay@.len() <= usize::MAX,
            forall|j: int| 0 <= j < k ==> hay@[i + j] == needle@[j],
    {
        if hay[i + k] != needle[k] {
            assert(hay@.subrange(i as int, i + needle@.len())[k as int] != needle@[k as int]);
            return false;
        }
    }
    assert(hay@.subrange(i as int, i + needle@.len()) =~= needle@);
    true
}

/// `str::contains` with a string pattern.
pub fn contains_chars(hay: &[char], needle: &[char]) -> (r: bool)
    ensures
        r == contains_seq(hay@, needle@),
{
    if needle.len() > hay.len() {
        assert forall|i: int| !occurs_at(hay@, needle@, i) by {}
        return false;
    }
    let last = hay.len() - needle.len();
    for i in 0..last
        invariant
            last == hay@.len() - needle@.len(),
            forall|j: int| 0 <= j < i ==> !occurs_at(hay@, needle@, j),
    {
        if occurs_at_exec(hay, needle, i) {
            return true;
        }
    }
    if occurs_at_exec(hay, needle, last) {
        return true;
    }
    assert forall|j: int| !occurs_at(hay@, needle@, j) by {
        if 0 <= j < last {
        }
    }
    false
}

/// Whether the character occurs in the sequence.
pub fn contains_char(s: &[char], c: char) -> (r: bool)
    ensures
        r == s@.contains(c),
{
    for i in 0..s.len()
        invariant
            forall|j: int| 0 <= j < i ==> s@[j] != c,
    {
        if s[i] == c {
            assert(s@[i as int] == c);
            return true;
        }
    }
    false
}

// ---------------------------------------------------------------------------
// UTF-8 length
// ---------------------------------------------------------------------------

/// Number of bytes in the UTF-8 encoding of a character (`char::len_utf8`).
pub open spec fn utf8_char_len(c: char) -> nat {
    if (c as u32) < 0x80 {
        1
    } else if (c as u32) < 0x800 {
        2
    } else if (c as u32) < 0x10000 {
        3
    } else {
        4
    }
}

/// Number of bytes in the UTF-8 encoding of a character sequence (`str::len`).
pub open spec fn utf8_len(s: Seq<char>) -> nat
    decreases s.len(),
{
    if s.len() == 0 {
        0
    } else {
        utf8_len(s.drop_last()) + utf8_char_len(s.last())
    }
}

pub proof fn lemma_utf8_len_bounds(s: Seq<char>)
    ensures
        s.len() <= utf8_len(s) <= 4 * s.len(),
    decreases s.len(),
{
    if s.len() > 0 {
        lemma_utf8_len_bounds(s.drop_last());
    }
}

/// Whether the UTF-8 length of `s` is at least `n` bytes.
pub fn utf8_len_at_least(s: &[char], n: usize) -> (r: bool)
    ensures
        r == (utf8_len(s@) >= n),
{
    if n == 0 {
        return true;
    }
    let mut total: usize = 0;
    let mut i: usize = 0;
    while i < s.len()
        invariant
            i <= s@.len(),
            total == utf8_len(s@.take(i as int)),
            total < n,
        decreases s@.len() - i,
    {
        let c = s[i];
        let u = c as u32;
        let w: usize = if u < 0x80 {
            1
        } else if u < 0x800 {
            2
        } else if u < 0x10000 {
            3
        } else {
            4
        };
        assert(s@.take(i + 1).drop_last() =~= s@.take(i as int));
        i = i + 1;
        if w >= n - total {
            proof {
                lemma_utf8_len_prefix_monotone(s@, i as int);
            }
            return true;
        }
        total = total + w;
    }
    assert(s@.take(s@.len() as int) =~= s@);
    false
}

proof fn lemma_utf8_len_prefix_monotone(s: Seq<char>, i: int)
    requires
        0 <= i <= s.len(),
    ensures
        utf8_len(s.take(i)) <= utf8_len(s),
    decreases s.len() - i,
{
    if i < s.len() {
        lemma_utf8_len_prefix_monotone(s, i + 1);
        assert(s.take(i + 1).drop_last() =~= s.take(i));
    } else {
        assert(s.take(i) =~= s);
    }
}


// ---------------------------------------------------------------------------
// Splitting
// ---------------------------------------------------------------------------

/// Whether a character is alphanumeric in the Unicode sense
/// (`char::is_alphanumeric`).
pub uninterp spec fn unicode_alphanumeric(c: char) -> bool;

/// `char::is_alphanumeric`: the letters and digits among ASCII characters,
/// the Unicode tables of std beyond.
pub open spec fn alphanumeric(c: char) -> bool {
    if (c as u32) < 128 {
        is_ascii_alnum(c)
    } else {
        unicode_alphanumeric(c)
    }
}

/// `char::is_alphanumeric` (Unicode `Alphabetic` or `Numeric`). Among ASCII
/// characters exactly the letters and digits qualify; beyond ASCII the
/// contract names the result and leaves it to the Unicode tables of std.
#[verifier::external_body]
pub(crate) fn is_unicode_alphanumeric(c: char) -> (r: bool)
    ensures
        r == unicode_alphanumeric(c),
        (c as u32) < 128 ==> r == is_ascii_alnum(c),
{
    c.is_alphanumeric()
}

/// Which characters separate the pieces of a split.
#[derive(Clone, Copy)]
pub enum Sep {
    /// Every character that is not an ASCII letter or digit.
    NonAsciiAlnum,
    /// Every character that is not alphanumeric in the Unicode sense.
    NonAlnum,
    /// One given character.
    Char(char),
    /// Either of two given characters.
    Either(char, char),
    /// Unicode whitespace.
    Whitespace,
}

impl Sep {
    pub open spec fn separates(self, c: char) -> bool {
        match self {
            Sep::NonAsciiAlnum => !is_ascii_alnum(c),
            Sep::NonAlnum => !alphanumeric(c),
            Sep::Char(d) => c == d,
            Sep::Either(d, e) => c == d || c == e,
            Sep::Whitespace => is_ws(c),
        }
    }

    pub fn is_sep(self, c: char) -> (r: bool)
        ensures
            r == self.separates(c),
    {
        match self {
            Sep::NonAsciiAlnum => !is_ascii_alnum_char(c),
            Sep::NonAlnum => !is_unicode_alphanumeric(c),
            Sep::Char(d) => c == d,
            Sep::Either(d, e) => c == d || c == e,
            Sep::Whitespace => is_whitespace_char(c),
        }
    }
}

/// `str::split` with a character predicate: the pieces between separators,
/// empty pieces included (so there is always at least one piece).
pub open spec fn split_seq(s: Seq<char>, sep: Sep) -> Seq<Seq<char>>
    decreases s.len(),
{
    if s.len() == 0 {
        seq![Seq::<char>::empty()]
    } else {
        let prev = split_seq(s.drop_last(), sep);
        if sep.separates(s.last()) {
            prev.push(Seq::<char>::empty())
        } else {
            prev.update(prev.len() - 1, prev.last().push(s.last()))
        }
    }
}

pub proof fn lemma_split_nonempty(s: Seq<char>, sep: Sep)
    ensures
        split_seq(s, sep).len() >= 1,
    decreases s.len(),
{
    if s.len() > 0 {
        lemma_split_nonempty(s.drop_last(), sep);
    }
}

/// Appending text without separators extends the last piece and adds none.
pub proof fn lemma_split_extend(a: Seq<char>, b: Seq<char>, sep: Sep)
    requires
        forall|i: int| 0 <= i < b.len() ==> !sep.separates(#[trigger] b[i]),
    ensures
        split_seq(a + b, sep) == split_seq(a, sep).update(
            split_seq(a, sep).len() - 1,
            split_seq(a, sep).last() + b,
        ),
    decreases b.len(),
{
    lemma_split_nonempty(a, sep);
    let pa = split_seq(a, sep);
    if b.len() == 0 {
        assert(a + b =~= a);
        assert(pa.last() + b =~= pa.last());
        assert(pa.update(pa.len() - 1, pa.last() + b) =~= pa);
    } else {
        let b0 = b.drop_last();
        lemma_split_extend(a, b0, sep);
        assert((a + b).drop_last() =~= a + b0);
        assert((a + b).last() == b.last());
        assert(!sep.separates(b[b.len() - 1]));
        let prev = split_seq(a + b0, sep);
        assert(prev.last() == pa.last() + b0);
        assert((pa.last() + b0).push(b.last()) =~= pa.last() + b);
        assert(prev.update(prev.len() - 1, prev.last().push(b.last())) =~= pa.update(
            pa.len() - 1,
            pa.last() + b,
        ));
    }
}

/// Text without separators is a single piece.
pub proof fn lemma_split_whole(s: Seq<char>, sep: Sep)
    requires
        forall|i: int| 0 <= i < s.len() ==> !sep.separates(#[trigger] s[i]),
    ensures
        split_seq(s, sep) == seq![s],
{
    lemma_split_extend(Seq::empty(), s, sep);
    assert(Seq::<char>::empty() + s =~= s);
    assert(split_seq(Seq::<char>::empty(), sep) == seq![Seq::<char>::empty()]);
    assert(Seq::<char>::empty() + s =~= s);
    assert(seq![Seq::<char>::empty()].update(0, Seq::<char>::empty() + s) =~= seq![s]);
}

/// A separator at the end opens a new, empty piece.
pub proof fn lemma_split_at_sep(a: Seq<char>, c: char, sep: Sep)
    requires
        sep.separates(c),
    ensures
        split_seq(a.push(c), sep) == split_seq(a, sep).push(Seq::<char>::empty()),
{
    assert(a.push(c).drop_last() =~= a);
}

/// Whatever follows, the pieces before the last one stay as they are.
pub proof fn lemma_split_keeps_closed_pieces(a: Seq<char>, b: Seq<char>, sep: Sep, k: int)
    requires
        0 <= k < split_seq(a, sep).len() - 1,
    ensures
        split_seq(a + b, sep).len() >= split_seq(a, sep).len(),
        split_seq(a + b, sep)[k] == split_seq(a, sep)[k],
    decreases b.len(),
{
    if b.len() == 0 {
        assert(a + b =~= a);
    } else {
        let b0 = b.drop_last();
        lemma_split_keeps_closed_pieces(a, b0, sep, k);
        lemma_split_nonempty(a + b0, sep);
        assert((a + b).drop_last() =~= a + b0);
    }
}

/// A pattern holding a character that a text lacks is neither its prefix
/// nor its suffix.
pub proof fn lemma_missing_char_no_affix(s: Seq<char>, p: Seq<char>, k: int)
    requires
        0 <= k < p.len(),
        forall|i: int| 0 <= i < s.len() ==> #[trigger] s[i] != p[k],
    ensures
        !has_prefix(s, p),
        !has_suffix(s, p),
{
    if has_prefix(s, p) {
        assert(s.take(p.len() as int)[k] == s[k]);
    }
    if has_suffix(s, p) {
        assert(s.skip(s.len() - p.len())[k] == s[s.len() - p.len() + k]);
    }
}

/// The pieces of a split, without the empty ones.
pub open spec fn nonempty_pieces(p: Seq<Seq<char>>) -> Seq<Seq<char>>
    decreases p.len(),
{
    if p.len() == 0 {
        Seq::empty()
    } else {
        let prev = nonempty_pieces(p.drop_last());
        if p.last().len() == 0 {
            prev
        } else {
            prev.push(p.last())
        }
    }
}

/// Tokens of `s`: the non-empty pieces between separators.
pub open spec fn tokens_seq(s: Seq<char>, sep: Sep) -> Seq<Seq<char>> {
    nonempty_pieces(split_seq(s, sep))
}

/// The character sequences held by a vector of character vectors.
pub open spec fn seqs_of(v: Seq<Vec<char>>) -> Seq<Seq<char>> {
    v.map_values(|x: Vec<char>| x@)
}

pub fn split_chars(s: &[char], sep: Sep) -> (r: Vec<Vec<char>>)
    ensures
        seqs_of(r@) == split_seq(s@, sep),
{
    let mut done: Vec<Vec<char>> = Vec::new();
    let mut cur: Vec<char> = Vec::new();
    for i in 0..s.len()
        invariant
            seqs_of(done@).push(cur@) == split_seq(s@.take(i as int), sep),
    {
        let c = s[i];
        proof {
            assert(s@.take(i + 1).drop_last() =~= s@.take(i as int));
            lemma_split_nonempty(s@.take(i as int), sep);
        }
        let ghost before = seqs_of(done@).push(cur@);
        if sep.is_sep(c) {
            done.push(cur);
            cur = Vec::new();
            assert(seqs_of(done@) =~= before);
        } else {
            cur.push(c);
        }
        assert(seqs_of(done@).push(cur@) =~= split_seq(s@.take(i + 1), sep));
    }
    assert(s@.take(s@.len() as int) =~= s@);
    let ghost before = seqs_of(done@).push(cur@);
    done.push(cur);
    assert(seqs_of(done@) =~= before);
    done
}

pub fn nonempty_chunks(p: Vec<Vec<char>>) -> (r: Vec<Vec<char>>)
    ensures
        seqs_of(r@) == nonempty_pieces(seqs_of(p@)),
{
    let mut r: Vec<Vec<char>> = Vec::new();
    let ghost pv = seqs_of(p@);
    let n = p.len();
    let mut i: usize = 0;
    while i < n
        invariant
            n == pv.len(),
            i <= n,
            seqs_of(p@) == pv,
            seqs_of(r@) == nonempty_pieces(pv.take(i as int)),
        decreases n - i,
    {
        let piece = p[i].clone();
        proof {
            assert(pv.take(i + 1).drop_last() =~= pv.take(i as int));
        }
        if piece.len() > 0 {
            let ghost before = seqs_of(r@);
            r.push(piece);
            assert(seqs_of(r@) =~= before.push(pv[i as int]));
        }
        i = i + 1;
    }
    assert(pv.take(n as int) =~= pv);
    r
}

/// The non-empty pieces of `s` split by `sep`.
pub fn tokens_chars(s: &[char], sep: Sep) -> (r: Vec<Vec<char>>)
    ensures
        seqs_of(r@) == tokens_seq(s@, sep),
{
    nonempty_chunks(split_chars(s, sep))
}

// ---------------------------------------------------------------------------
// Prefix stripping and repeated-suffix trimming
// ---------------------------------------------------------------------------

/// `str::strip_prefix`.
pub open spec fn strip_prefix_seq(s: Seq<char>, p: Seq<char>) -> Option<Seq<char>> {
    if has_prefix(s, p) {
        Some(s.skip(p.len() as int))
    } else {
        None
    }
}

/// `str::trim_end_matches` with a non-empty pattern: removes the pattern from
/// the end as long as it is there.
pub open spec fn trim_end_matches_seq(s: Seq<char>, p: Seq<char>) -> Seq<char>
    decreases s.len(),
{
    if p.len() > 0 && has_suffix(s, p) {
        trim_end_matches_seq(s.take(s.len() - p.len()), p)
    } else {
        s
    }
}

/// `str::trim_start_matches` with a non-empty pattern.
pub open spec fn trim_start_matches_seq(s: Seq<char>, p: Seq<char>) -> Seq<char>
    decreases s.len(),
{
    if p.len() > 0 && has_prefix(s, p) {
        trim_start_matches_seq(s.skip(p.len() as int), p)
    } else {
        s
    }
}

pub fn copy_range(s: &[char], from: usize, to: usize) -> (r: Vec<char>)
    requires
        from <= to <= s@.len(),
    ensures
        r@ == s@.subrange(from as int, to as int),
{
    let mut r: Vec<char> = Vec::new();
    let mut j: usize = from;
    while j < to
        invariant
            from <= j <= to <= s@.len(),
            r@ == s@.subrange(from as int, j as int),
        decreases to - j,
    {
        r.push(s[j]);
        assert(s@.subrange(from as int, j + 1) =~= s@.subrange(from as int, j as int).push(
            s@[j as int],
        ));
        j = j + 1;
    }
    r
}

pub fn strip_prefix_chars(s: &[char], p: &[char]) -> (r: Option<Vec<char>>)
    ensures
        match r {
            Some(v) => strip_prefix_seq(s@, p@) == Some(v@),
            None => strip_prefix_seq(s@, p@) is None,
        },
{
    if starts_with_chars(s, p) {
        Some(copy_range(s, p.len(), s.len()))
    } else {
        None
    }
}

pub fn trim_end_matches_chars(s: &[char], p: &[char]) -> (r: Vec<char>)
    ensures
        r@ == trim_end_matches_seq(s@, p@),
{
    let mut k: usize = s.len();
    assert(s@.take(k as int) =~= s@);
    if p.len() == 0 {
        return copy_range(s, 0, k);
    }
    loop
        invariant
            k <= s@.len(),
            p@.len() > 0,
            trim_end_matches_seq(s@, p@) == trim_end_matches_seq(s@.take(k as int), p@),
        ensures
            k <= s@.len(),
            trim_end_matches_seq(s@, p@) == s@.take(k as int),
        decreases k,
    {
        if k < p.len() {
            assert(!has_suffix(s@.take(k as int), p@));
            break;
        }
        proof {
            assert(s@.take(k as int).skip(k - p@.len()) =~= s@.subrange(k - p@.len(), k as int));
        }
        if !occurs_at_exec(s, p, k - p.len()) {
            assert(!has_suffix(s@.take(k as int), p@));
            break;
        }
        assert(s@.take(k as int).take(k - p@.len()) =~= s@.take(k - p@.len()));
        k = k - p.len();
    }
    copy_range(s, 0, k)
}

pub fn trim_start_matches_chars(s: &[char], p: &[char]) -> (r: Vec<char>)
    ensures
        r@ == trim_start_matches_seq(s@, p@),
{
    let mut k: usize = 0;
    let n = s.len();
    assert(s@.skip(0) =~= s@);
    if p.len() == 0 {
        return copy_range(s, 0, n);
    }
    loop
        invariant
            k <= s@.len(),
            p@.len() > 0,
            trim_start_matches_seq(s@, p@) == trim_start_matches_seq(s@.skip(k as int), p@),
            s@.len() <= usize::MAX,
        ensures
            k <= s@.len(),
            trim_start_matches_seq(s@, p@) == s@.skip(k as int),
        decreases s@.len() - k,
    {
        proof {
            if k + p@.len() <= s@.len() {
                assert(s@.skip(k as int).take(p@.len() as int) =~= s@.subrange(
                    k as int,
                    k + p@.len(),
                ));
            }
        }
        if !occurs_at_exec(s, p, k) {
            assert(!has_prefix(s@.skip(k as int), p@));
            break;
        }
        assert(s@.skip(k as int).skip(p@.len() as int) =~= s@.skip(k + p@.len()));
        k = k + p.len();
    }
    let r = copy_range(s, k, s.len());
    assert(r@ =~= s@.skip(k as int));
    r
}


// ---------------------------------------------------------------------------
// Ordered sets of strings (vectors without duplicates, in first-seen order)
// ---------------------------------------------------------------------------

/// The character sequences of string slices.
pub open spec fn strs(v: Seq<&str>) -> Seq<Seq<char>> {
    v.map_values(|s: &str| s@)
}

/// Appends `x` unless it is already present.
pub open spec fn push_unique_seq(acc: Seq<Seq<char>>, x: Seq<char>) -> Seq<Seq<char>> {
    if acc.contains(x) {
        acc
    } else {
        acc.push(x)
    }
}

/// Appends each of `xs` in order, skipping those already present.
pub open spec fn push_all_unique(acc: Seq<Seq<char>>, xs: Seq<Seq<char>>) -> Seq<Seq<char>>
    decreases xs.len(),
{
    if xs.len() == 0 {
        acc
    } else {
        push_unique_seq(push_all_unique(acc, xs.drop_last()), xs.last())
    }
}

/// Whether a vector of strings holds the given text.
pub fn vec_contains_str(v: &Vec<String>, x: &str) -> (r: bool)
    ensures
        r == v.deep_view().contains(x@),
{
    for i in 0..v.len()
        invariant
            forall|j: int| 0 <= j < i ==> v.deep_view()[j] != x@,
    {
        if str_eq(v[i].as_str(), x) {
            assert(v.deep_view()[i as int] == x@);
            return true;
        }
    }
    false
}

/// Appends `value` unless the vector already holds it.
pub fn push_unique_str(target: &mut Vec<String>, value: &str)
    ensures
        final(target).deep_view() == push_unique_seq(old(target).deep_view(), value@),
{
    if !vec_contains_str(target, value) {
        let ghost before = target.deep_view();
        target.push(owned(value));
        assert(target.deep_view() =~= before.push(value@));
    }
}

/// Appends each value in order unless the vector already holds it.
pub fn push_unique_many(target: &mut Vec<String>, values: &[&str])
    ensures
        final(target).deep_view() == push_all_unique(old(target).deep_view(), strs(values@)),
{
    let ghost start = target.deep_view();
    for i in 0..values.len()
        invariant
            target.deep_view() == push_all_unique(start, strs(values@).take(i as int)),
    {
        proof {
            assert(strs(values@).take(i + 1).drop_last() =~= strs(values@).take(i as int));
        }
        push_unique_str(target, values[i]);
    }
    assert(strs(values@).take(values@.len() as int) =~= strs(values@));
}

/// Whether any of the given texts equals `x`.
pub fn any_str_eq(values: &[&str], x: &[char]) -> (r: bool)
    ensures
        r == strs(values@).contains(x@),
{
    for i in 0..values.len()
        invariant
            forall|j: int| 0 <= j < i ==> strs(values@)[j] != x@,
    {
        let v = chars_of(values[i]);
        if chars_eq(v.as_slice(), x) {
            assert(strs(values@)[i as int] == x@);
            return true;
        }
    }
    false
}


// ---------------------------------------------------------------------------
// Joining
// ---------------------------------------------------------------------------

/// `[String]::join`: the parts with `sep` between consecutive ones.
pub open spec fn join_seq(parts: Seq<Seq<char>>, sep: Seq<char>) -> Seq<char>
    decreases parts.len(),
{
    if parts.len() == 0 {
        Seq::empty()
    } else if parts.len() == 1 {
        parts[0]
    } else {
        join_seq(parts.drop_last(), sep) + sep + parts.last()
    }
}

/// Each joined part occurs in the joined text; the result is where.
pub proof fn lemma_join_occurs(parts: Seq<Seq<char>>, sep: Seq<char>, k: int) -> (i: int)
    requires
        0 <= k < parts.len(),
    ensures
        occurs_at(join_seq(parts, sep), parts[k], i),
    decreases parts.len(),
{
    let j = join_seq(parts, sep);
    if parts.len() == 1 {
        assert(j.subrange(0, parts[0].len() as int) =~= parts[0]);
        0
    } else {
        let pre = join_seq(parts.drop_last(), sep);
        assert(j == pre + sep + parts.last());
        if k == parts.len() - 1 {
            let i: int = (pre.len() + sep.len()) as int;
            assert(j.subrange(i, i + parts[k].len()) =~= parts.last());
            i
        } else {
            let i = lemma_join_occurs(parts.drop_last(), sep, k);
            assert(parts.drop_last()[k] == parts[k]);
            assert(j.subrange(i, i + parts[k].len()) =~= pre.subrange(i, i + parts[k].len()));
            i
        }
    }
}

/// The first joined part starts the joined text.
pub proof fn lemma_join_starts_with_first(parts: Seq<Seq<char>>, sep: Seq<char>)
    requires
        parts.len() > 0,
    ensures
        join_seq(parts, sep).len() >= parts[0].len(),
        join_seq(parts, sep).take(parts[0].len() as int) == parts[0],
    decreases parts.len(),
{
    if parts.len() == 1 {
        assert(join_seq(parts, sep).take(parts[0].len() as int) =~= parts[0]);
    } else {
        let pre = join_seq(parts.drop_last(), sep);
        lemma_join_starts_with_first(parts.drop_last(), sep);
        assert(parts.drop_last()[0] == parts[0]);
        assert(join_seq(parts, sep).take(parts[0].len() as int) =~= pre.take(parts[0].len() as int));
    }
}

/// Joins strings with a separator.
pub fn join_strings(parts: &Vec<String>, sep: &str) -> (r: String)
    ensures
        r@ == join_seq(parts.deep_view(), sep@),
{
    let mut r = String::new();
    let ghost pv = parts.deep_view();
    for i in 0..parts.len()
        invariant
            pv == parts.deep_view(),
            r@ == join_seq(pv.take(i as int), sep@),
    {
        proof {
            assert(pv.take(i + 1).drop_last() =~= pv.take(i as int));
        }
        if i > 0 {
            push_str(&mut r, sep);
        } else {
            assert(r@ =~= Seq::<char>::empty());
        }
        push_str(&mut r, parts[i].as_str());
        assert(r@ =~= join_seq(pv.take(i + 1), sep@));
    }
    assert(pv.take(parts@.len() as int) =~= pv);
    r
}

/// The first `n` elements of a vector of strings (all of them when shorter).
pub fn take_strings(v: &Vec<String>, n: usize) -> (r: Vec<String>)
    ensures
        r.deep_view() == v.deep_view().take(if n < v@.len() { n as int } else { v@.len() as int }),
{
    let m = if n < v.len() { n } else { v.len() };
    let mut r: Vec<String> = Vec::new();
    for i in 0..m
        invariant
            m <= v@.len(),
            r.deep_view() == v.deep_view().take(i as int),
    {
        let ghost before = r.deep_view();
        let x = v[i].clone();
        assert(x@ == v.deep_view()[i as int]);
        r.push(x);
        assert(r.deep_view() =~= before.push(x@));
        assert(v.deep_view().take(i + 1) =~= v.deep_view().take(i as int).push(x@));
    }
    r
}


// ---------------------------------------------------------------------------
// Unicode lower-casing and character replacement
// ---------------------------------------------------------------------------

/// The result of `str::to_lowercase` (full Unicode lower-casing).
pub uninterp spec fn unicode_lower(s: Seq<char>) -> Seq<char>;

/// Whether every character of a text is ASCII.
pub open spec fn all_ascii(s: Seq<char>) -> bool {
    forall|i: int| 0 <= i < s.len() ==> (#[trigger] s[i] as u32) < 128
}

/// `str::to_lowercase`: ASCII lower-casing on ASCII text, the Unicode
/// tables of std otherwise.
pub open spec fn to_lowercase_spec(s: Seq<char>) -> Seq<char> {
    if all_ascii(s) {
        lower_seq(s)
    } else {
        unicode_lower(s)
    }
}

/// `str::to_lowercase`. On ASCII text it maps `A`..=`Z` to `a`..=`z` and
/// keeps every other character (so the empty string stays empty); beyond
/// ASCII the contract names the result and leaves it to the Unicode tables
/// of std.
#[verifier::external_body]
pub(crate) fn to_unicode_lowercase(s: &str) -> (r: String)
    ensures
        r@ == unicode_lower(s@),
        all_ascii(s@) ==> r@ == lower_seq(s@),
{
    s.to_lowercase()
}

/// Replaces every occurrence of one character by another.
pub open spec fn replace_char_seq(s: Seq<char>, from: char, to: char) -> Seq<char> {
    Seq::new(s.len(), |i: int| if s[i] == from { to } else { s[i] })
}

pub fn replace_char(s: &[char], from: char, to: char) -> (r: Vec<char>)
    ensures
        r@ == replace_char_seq(s@, from, to),
{
    let mut r: Vec<char> = Vec::new();
    for i in 0..s.len()
        invariant
            r@ == replace_char_seq(s@.take(i as int), from, to),
    {
        let c = if s[i] == from { to } else { s[i] };
        r.push(c);
        assert(replace_char_seq(s@.take(i + 1), from, to) =~= replace_char_seq(
            s@.take(i as int),
            from,
            to,
        ).push(c));
    }
    assert(s@.take(s@.len() as int) =~= s@);
    r
}


// ---------------------------------------------------------------------------
// Decimal rendering of integers
// ---------------------------------------------------------------------------

pub open spec fn digit_char(d: nat) -> char {
    ((48 + d) as u32) as char
}

/// The decimal digits of a natural number, most significant first.
pub open spec fn nat_digits(m: nat) -> Seq<char>
    decreases m,
{
    if m < 10 {
        seq![digit_char(m)]
    } else {
        nat_digits(m / 10).push(digit_char(m % 10))
    }
}

/// The decimal rendering of an integer (`Display` for integers): a minus sign
/// for negative numbers, then the digits of the magnitude.
pub open spec fn int_decimal(n: int) -> Seq<char> {
    if n < 0 {
        seq!['-'] + nat_digits((-n) as nat)
    } else {
        nat_digits(n as nat)
    }
}

fn digit_of(d: u64) -> (c: char)
    requires
        d < 10,
    ensures
        c == digit_char(d as nat),
{
    let b: u8 = 48 + d as u8;
    b as char
}

pub fn u64_digits(m: u64) -> (r: Vec<char>)
    ensures
        r@ == nat_digits(m as nat),
    decreases m,
{
    if m < 10 {
        let mut r = Vec::new();
        r.push(digit_of(m));
        assert(r@ =~= seq![digit_char(m as nat)]);
        r
    } else {
        let mut r = u64_digits(m / 10);
        r.push(digit_of(m % 10));
        r
    }
}

/// Renders an integer in decimal.
pub fn i64_to_string(n: i64) -> (r: String)
    ensures
        r@ == int_decimal(n as int),
{
    if n < 0 {
        let mag: u64 = (0i128 - n as i128) as u64;
        let d = u64_digits(mag);
        let mut r = String::new();
        push_char(&mut r, '-');
        let ds = string_of(d.as_slice());
        push_str(&mut r, ds.as_str());
        r
    } else {
        let d = u64_digits(n as u64);
        string_of(d.as_slice())
    }
}

/// Renders an unsigned integer in decimal.
pub fn u64_to_string(n: u64) -> (r: String)
    ensures
        r@ == int_decimal(n as int),
{
    let d = u64_digits(n);
    string_of(d.as_slice())
}


/// Copies a slice of strings into a vector.
pub fn strings_to_vec(v: &[String]) -> (r: Vec<String>)
    ensures
        r.deep_view() == v@.map_values(|t: String| t@),
{
    let ghost tv = v@.map_values(|t: String| t@);
    let mut r: Vec<String> = Vec::new();
    for i in 0..v.len()
        invariant
            tv == v@.map_values(|t: String| t@),
            r.deep_view() == tv.take(i as int),
    {
        let ghost before = r.deep_view();
        let x = v[i].clone();
        r.push(x);
        assert(r.deep_view() =~= before.push(x@));
        assert(tv.take(i + 1) =~= tv.take(i as int).push(x@));
    }
    assert(tv.take(v@.len() as int) =~= tv);
    r
}

} // verus!

verus! {

// ---------------------------------------------------------------------------
// Integer parsing
// ---------------------------------------------------------------------------

/// The value of a sequence of decimal digits.
pub open spec fn digits_value(s: Seq<char>) -> int
    decreases s.len(),
{
    if s.len() == 0 {
        0
    } else {
        digits_value(s.drop_last()) * 10 + (s.last() as int - '0' as int)
    }
}

pub open spec fn all_digits(s: Seq<char>) -> bool {
    forall|i: int| 0 <= i < s.len() ==> is_ascii_digit(#[trigger] s[i])
}

/// `i64::from_str`: an optional `+` or `-`, then one or more ASCII digits,
/// the value fitting in an `i64`.
pub open spec fn parse_i64_spec(s: Seq<char>) -> Option<int> {
    let body = unsigned_part(s);
    let v = if s.len() > 0 && s[0] == '-' {
        -digits_value(body)
    } else {
        digits_value(body)
    };
    if body.len() > 0 && all_digits(body) && i64::MIN <= v <= i64::MAX {
        Some(v)
    } else {
        None
    }
}

pub proof fn lemma_digits_value_nonneg(s: Seq<char>)
    requires
        all_digits(s),
    ensures
        0 <= digits_value(s),
    decreases s.len(),
{
    if s.len() > 0 {
        assert(is_ascii_digit(s.last()));
        lemma_digits_value_nonneg(s.drop_last());
    }
}

/// The digits of `s` after an optional sign.
pub open spec fn unsigned_part(s: Seq<char>) -> Seq<char> {
    if s.len() > 0 && (s[0] == '+' || s[0] == '-') {
        s.drop_first()
    } else {
        s
    }
}

/// `s.parse::<i64>()` where only values in `-bound..=bound` matter: the
/// value when it parses and lies in that range, nothing otherwise.
pub fn parse_i64_within(s: &[char], bound: i64) -> (r: Option<i64>)
    requires
        0 <= bound <= 1_000_000,
    ensures
        r == (match parse_i64_spec(s@) {
            Some(v) => if -bound <= v <= bound {
                Some(v as i64)
            } else {
                None
            },
            None => None,
        }),
{
    let n = s.len();
    let signed = n > 0 && (s[0] == '+' || s[0] == '-');
    let neg = signed && s[0] == '-';
    let start: usize = if signed { 1 } else { 0 };
    let ghost body = unsigned_part(s@);
    assert(signed == (s@.len() > 0 && (s@[0] == '+' || s@[0] == '-')));
    assert(body =~= s@.skip(start as int));
    if start >= n {
        assert(body.len() == 0);
        return None;
    }
    let mut v: i64 = 0;
    let mut big = false;
    let mut i = start;
    while i < n
        invariant
            start <= i <= n,
            n == s@.len(),
            body == s@.skip(start as int),
            body == unsigned_part(s@),
            neg == (s@.len() > 0 && s@[0] == '-'),
            1 <= n - start,
            0 <= v <= 10 * bound + 9,
            forall|j: int| start <= j < i ==> is_ascii_digit(#[trigger] s@[j]),
            all_digits(body.take(i - start)),
            !big ==> v == digits_value(body.take(i - start)),
            !big ==> v <= bound,
            big ==> digits_value(body.take(i - start)) > bound,
            0 <= bound <= 1_000_000,
        decreases n - i,
    {
        let c = s[i];
        if !('0' <= c && c <= '9') {
            assert(body[i - start] == c);
            assert(!all_digits(body));
            assert(parse_i64_spec(s@) is None);
            return None;
        }
        proof {
            assert(body.take(i + 1 - start).drop_last() =~= body.take(i - start));
            assert(body.take(i + 1 - start).last() == c);
            assert(all_digits(body.take(i + 1 - start)));
            lemma_digits_value_nonneg(body.take(i - start));
        }
        let d = (c as u32 - '0' as u32) as i64;
        if !big {
            let nv = v * 10 + d;
            if nv > bound {
                big = true;
                v = 0;
            } else {
                v = nv;
            }
        }
        i = i + 1;
    }
    assert(body.take(n - start) =~= body);
    if big {
        proof {
            lemma_digits_value_nonneg(body);
        }
        return None;
    }
    assert(v == digits_value(body));
    if neg {
        Some(-v)
    } else {
        Some(v)
    }
}


/// The value of the digits of `s` from `start` on, saturated at `cap + 1`;
/// nothing when that part is empty or holds a non-digit.
fn digits_capped(s: &[char], start: usize, cap: u128) -> (r: Option<u128>)
    requires
        start <= s@.len(),
        cap <= 0x1_0000_0000_0000_0000,
    ensures
        r is None <==> !(s@.skip(start as int).len() > 0 && all_digits(s@.skip(start as int))),
        r matches Some(v) ==> (if digits_value(s@.skip(start as int)) <= cap {
            v == digits_value(s@.skip(start as int))
        } else {
            v == cap + 1
        }),
{
    let ghost body = s@.skip(start as int);
    let n = s.len();
    if start >= n {
        return None;
    }
    let mut v: u128 = 0;
    let mut big = false;
    let mut i = start;
    while i < n
        invariant
            start <= i <= n,
            n == s@.len(),
            body == s@.skip(start as int),
            all_digits(body.take(i - start)),
            !big ==> v == digits_value(body.take(i - start)) && v <= cap,
            big ==> digits_value(body.take(i - start)) > cap,
            cap <= 0x1_0000_0000_0000_0000,
        decreases n - i,
    {
        let c = s[i];
        if !('0' <= c && c <= '9') {
            assert(body[i - start] == c);
            return None;
        }
        proof {
            assert(body.take(i + 1 - start).drop_last() =~= body.take(i - start));
            assert(body.take(i + 1 - start).last() == c);
            lemma_digits_value_nonneg(body.take(i - start));
        }
        let d = (c as u32 - '0' as u32) as u128;
        if !big {
            let nv = v * 10 + d;
            if nv > cap {
                big = true;
            } else {
                v = nv;
            }
        }
        i = i + 1;
    }
    assert(body.take(n - start) =~= body);
    if big {
        Some(cap + 1)
    } else {
        Some(v)
    }
}

/// `i64::from_str` on a character sequence.
pub fn parse_i64(s: &[char]) -> (r: Option<i64>)
    ensures
        r == (match parse_i64_spec(s@) {
            Some(v) => Some(v as i64),
            None => None,
        }),
{
    let n = s.len();
    let signed = n > 0 && (s[0] == '+' || s[0] == '-');
    let neg = signed && s[0] == '-';
    let start: usize = if signed { 1 } else { 0 };
    assert(unsigned_part(s@) =~= s@.skip(start as int));
    let cap: u128 = 0x8000_0000_0000_0000;
    match digits_capped(s, start, cap) {
        None => None,
        Some(v) => {
            if neg {
                if v <= cap {
                    Some((-(v as i128)) as i64)
                } else {
                    None
                }
            } else if v < cap {
                Some(v as i64)
            } else {
                None
            }
        },
    }
}

/// `u64::from_str`: an optional `+`, then one or more ASCII digits, the
/// value fitting in a `u64`.
pub open spec fn parse_u64_spec(s: Seq<char>) -> Option<int> {
    let body = if s.len() > 0 && s[0] == '+' {
        s.drop_first()
    } else {
        s
    };
    if body.len() > 0 && all_digits(body) && digits_value(body) <= u64::MAX {
        Some(digits_value(body))
    } else {
        None
    }
}

/// `u64::from_str` on a character sequence.
pub fn parse_u64(s: &[char]) -> (r: Option<u64>)
    ensures
        r == (match parse_u64_spec(s@) {
            Some(v) => Some(v as u64),
            None => None,
        }),
{
    let plus = s.len() > 0 && s[0] == '+';
    let start: usize = if plus { 1 } else { 0 };
    proof {
        if plus {
            assert(s@.drop_first() =~= s@.skip(1));
        } else {
            assert(s@ =~= s@.skip(0));
        }
    }
    let cap: u128 = 0xFFFF_FFFF_FFFF_FFFF;
    match digits_capped(s, start, cap) {
        None => None,
        Some(v) => if v <= cap {
            Some(v as u64)
        } else {
            None
        },
    }
}

} // verus!
