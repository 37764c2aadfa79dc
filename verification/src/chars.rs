//! Character classes of the template grammar and small text helpers.
use vstd::prelude::*;

verus! {

/// A class of characters that the lexical grammar recognises.
#[derive(Clone, Copy, PartialEq, Eq, Structural)]
pub enum Klass {
    /// Unicode `White_Space` (what `\s` matches).
    White,
    /// An ASCII decimal digit.
    Digit,
    /// A character that may start a name: `[a-zA-Z_\x7F-\xFF]`.
    NameStart,
    /// A character that may continue a name: `[a-zA-Z0-9_\x7F-\xFF]`.
    NameChar,
}

/// Unicode `White_Space` property.
pub open spec fn is_white(c: char) -> bool {
    let u = c as u32;
    (9 <= u <= 13) || u == 32 || u == 0x85 || u == 0xA0 || u == 0x1680 || (0x2000 <= u <= 0x200A)
        || u == 0x2028 || u == 0x2029 || u == 0x202F || u == 0x205F || u == 0x3000
}

pub open spec fn is_digit(c: char) -> bool {
    '0' <= c <= '9'
}

pub open spec fn is_name_start(c: char) -> bool {
    ('a' <= c <= 'z') || ('A' <= c <= 'Z') || c == '_' || (0x7F <= (c as u32) <= 0xFF)
}

pub open spec fn in_klass(c: char, k: Klass) -> bool {
    match k {
        Klass::White => is_white(c),
        Klass::Digit => is_digit(c),
        Klass::NameStart => is_name_start(c),
        Klass::NameChar => is_name_start(c) || is_digit(c),
    }
}

/// Decides membership of `c` in the class `k`.
pub fn klass_has(c: char, k: Klass) -> (b: bool)
    ensures
        b == in_klass(c, k),
{
    let u = c as u32;
    let white = (9 <= u && u <= 13) || u == 32 || u == 0x85 || u == 0xA0 || u == 0x1680 || (0x2000
        <= u && u <= 0x200A) || u == 0x2028 || u == 0x2029 || u == 0x202F || u == 0x205F || u
        == 0x3000;
    let digit = '0' <= c && c <= '9';
    let name_start = ('a' <= c && c <= 'z') || ('A' <= c && c <= 'Z') || c == '_' || (0x7F <= u
        && u <= 0xFF);
    match k {
        Klass::White => white,
        Klass::Digit => digit,
        Klass::NameStart => name_start,
        Klass::NameChar => name_start || digit,
    }
}

/// Length of the longest run of characters of class `k` starting at `i`.
pub open spec fn span(s: Seq<char>, i: int, k: Klass) -> nat
    decreases s.len() - i,
{
    if 0 <= i < s.len() && in_klass(s[i], k) {
        1 + span(s, i + 1, k)
    } else {
        0
    }
}

pub proof fn lemma_span_bound(s: Seq<char>, i: int, k: Klass)
    requires
        0 <= i <= s.len(),
    ensures
        i + span(s, i, k) <= s.len(),
        forall|j: int| i <= j < i + span(s, i, k) ==> in_klass(#[trigger] s[j], k),
        i + span(s, i, k) < s.len() ==> !in_klass(s[i + span(s, i, k)], k),
    decreases s.len() - i,
{
    if i < s.len() && in_klass(s[i], k) {
        lemma_span_bound(s, i + 1, k);
    }
}

/// Computes `span(s, i, k)`.
pub fn span_of(s: &Vec<char>, i: usize, k: Klass) -> (n: usize)
    requires
        i <= s.len(),
    ensures
        n == span(s@, i as int, k),
        i + n <= s.len(),
{
    let mut j = i;
    while j < s.len() && klass_has(s[j], k)
        invariant
            i <= j <= s.len(),
            span(s@, i as int, k) == (j - i) + span(s@, j as int, k),
        decreases s.len() - j,
    {
        j += 1;
    }
    j - i
}

/// `lit` occurs in `s` at position `i`.
pub open spec fn starts_with_at(s: Seq<char>, i: int, lit: Seq<char>) -> bool {
    0 <= i && i + lit.len() <= s.len() && s.subrange(i, i + lit.len()) =~= lit
}

/// Decides `starts_with_at(s, i, lit)`.
pub fn lit_at(s: &Vec<char>, i: usize, lit: &Vec<char>) -> (b: bool)
    ensures
        b == starts_with_at(s@, i as int, lit@),
{
    if i > s.len() || lit.len() > s.len() - i {
        return false;
    }
    let mut k: usize = 0;
    while k < lit.len()
        invariant
            i + lit.len() <= s.len(),
            k <= lit.len(),
            forall|j: int| 0 <= j < k ==> s@[i + j] == lit@[j],
        decreases lit.len() - k,
    {
        if s[i + k] != lit[k] {
            assert(s@.subrange(i as int, i + lit.len())[k as int] != lit@[k as int]);
            return false;
        }
        k += 1;
    }
    assert(s@.subrange(i as int, i + lit.len()) =~= lit@);
    true
}

/// Index at which `s[a..b]` ends once its trailing white space is removed.
pub open spec fn trim_end_at(s: Seq<char>, a: int, b: int) -> int
    decreases b - a,
{
    if a < b && is_white(s[b - 1]) {
        trim_end_at(s, a, b - 1)
    } else {
        b
    }
}

pub proof fn lemma_trim_end_bound(s: Seq<char>, a: int, b: int)
    requires
        a <= b,
    ensures
        a <= trim_end_at(s, a, b) <= b,
    decreases b - a,
{
    if a < b && is_white(s[b - 1]) {
        lemma_trim_end_bound(s, a, b - 1);
    }
}

/// `s[a..b]` without its trailing white space: what is cut off is white
/// space, and what is kept does not end with white space.
pub proof fn lemma_trim_end_white(s: Seq<char>, a: int, b: int)
    requires
        a <= b,
    ensures
        a <= trim_end_at(s, a, b) <= b,
        forall|j: int| trim_end_at(s, a, b) <= j < b ==> is_white(#[trigger] s[j]),
        trim_end_at(s, a, b) > a ==> !is_white(s[trim_end_at(s, a, b) - 1]),
    decreases b - a,
{
    if a < b && is_white(s[b - 1]) {
        lemma_trim_end_white(s, a, b - 1);
    }
}

/// Computes `trim_end_at(s, a, b)`.
pub fn trim_end(s: &Vec<char>, a: usize, b: usize) -> (e: usize)
    requires
        a <= b <= s.len(),
    ensures
        e == trim_end_at(s@, a as int, b as int),
        a <= e <= b,
{
    let mut e = b;
    while a < e && klass_has(s[e - 1], Klass::White)
        invariant
            a <= e <= b <= s.len(),
            trim_end_at(s@, a as int, b as int) == trim_end_at(s@, a as int, e as int),
        decreases e,
    {
        e -= 1;
    }
    e
}

/// Number of line feeds in `s[a..b]`.
pub open spec fn count_newlines(s: Seq<char>, a: int, b: int) -> nat
    decreases b - a,
{
    if a < b {
        count_newlines(s, a, b - 1) + (if s[b - 1] == '\n' { 1nat } else { 0nat })
    } else {
        0
    }
}

pub proof fn lemma_count_newlines_bound(s: Seq<char>, a: int, b: int)
    requires
        a <= b,
    ensures
        count_newlines(s, a, b) <= b - a,
    decreases b - a,
{
    if a < b {
        lemma_count_newlines_bound(s, a, b - 1);
    }
}

pub proof fn lemma_count_newlines_split(s: Seq<char>, a: int, b: int, c: int)
    requires
        a <= b <= c,
    ensures
        count_newlines(s, a, c) == count_newlines(s, a, b) + count_newlines(s, b, c),
    decreases c - b,
{
    if b < c {
        lemma_count_newlines_split(s, a, b, c - 1);
    }
}

/// Counts the line feeds in `s[a..b]`.
pub fn newlines_in(s: &Vec<char>, a: usize, b: usize) -> (n: usize)
    requires
        a <= b <= s.len(),
    ensures
        n == count_newlines(s@, a as int, b as int),
{
    let mut n: usize = 0;
    let mut k = a;
    while k < b
        invariant
            a <= k <= b <= s.len(),
            n == count_newlines(s@, a as int, k as int),
            n <= k - a,
        decreases b - k,
    {
        if s[k] == '\n' {
            n += 1;
        }
        k += 1;
    }
    n
}

/// Appends `c` to `s` (`String::push`).
#[verifier::external_body]
pub(crate) fn push_char(s: &mut String, c: char)
    ensures
        final(s)@ == old(s)@.push(c),
{
    s.push(c);
}

/// Returns the characters of `s`, in order.
pub fn str_to_chars(s: &str) -> (v: Vec<char>)
    ensures
        v@ == s@,
{
    let mut v: Vec<char> = Vec::new();
    for c in it: s.chars()
        invariant
            v@ == it.seq().take(it.index() as int),
    {
        v.push(c);
    }
    v
}

/// A string holding the characters `s[a..b]`.
pub fn string_from(s: &Vec<char>, a: usize, b: usize) -> (r: String)
    requires
        a <= b <= s.len(),
    ensures
        r@ == s@.subrange(a as int, b as int),
{
    let mut r = String::new();
    let mut k = a;
    while k < b
        invariant
            a <= k <= b <= s.len(),
            r@ == s@.subrange(a as int, k as int),
        decreases b - k,
    {
        push_char(&mut r, s[k]);
        assert(s@.subrange(a as int, k + 1) =~= s@.subrange(a as int, k as int).push(s@[k as int]));
        k += 1;
    }
    r
}

/// The string that consists of the single character `c`.
pub fn char_string(c: char) -> (r: String)
    ensures
        r@ == seq![c],
{
    let mut r = String::new();
    push_char(&mut r, c);
    assert(r@ =~= seq![c]);
    r
}

/// The ASCII digit for `d < 10`.
pub open spec fn digit_char(d: nat) -> char {
    if d < 10 { ((48 + d) as u32) as char } else { '0' }
}

/// Decimal notation of `n`, without leading zeros.
pub open spec fn decimal(n: nat) -> Seq<char>
    decreases n,
{
    if n < 10 {
        seq![digit_char(n)]
    } else {
        decimal(n / 10).push(digit_char(n % 10))
    }
}

/// Writes `n` in decimal notation.
pub fn usize_to_string(n: usize) -> (r: String)
    ensures
        r@ == decimal(n as nat),
{
    u64_to_string(n as u64)
}

/// Writes `n` in decimal notation.
pub fn u64_to_string(n: u64) -> (r: String)
    ensures
        r@ == decimal(n as nat),
{
    u128_to_string(n as u128)
}

/// Writes `n` in decimal notation.
pub fn u128_to_string(n: u128) -> (r: String)
    ensures
        r@ == decimal(n as nat),
    decreases n,
{
    let d = (n % 10) as u8;
    let c = (48u8 + d) as char;
    assert(c == digit_char((n % 10) as nat)) by {
        assert((48 + d) as u8 as char == ((48 + (n % 10)) as u32) as char);
    }
    if n < 10 {
        char_string(c)
    } else {
        let mut r = u128_to_string(n / 10);
        push_char(&mut r, c);
        r
    }
}

/// An integer as `{:?}` writes it: decimal notation, with a minus sign
/// before a negative number.
pub open spec fn int_text(n: int) -> Seq<char> {
    if n < 0 {
        "-"@ + decimal((-n) as nat)
    } else {
        decimal(n as nat)
    }
}

/// Writes `n` as `{:?}` does.
pub fn i64_to_string(n: i64) -> (r: String)
    ensures
        r@ == int_text(n as int),
{
    if n < 0 {
        let m: u64 = (0i128 - n as i128) as u64;
        let r = String::from_str("-");
        r.concat(u64_to_string(m).as_str())
    } else {
        u64_to_string(n as u64)
    }
}

/// Name for what `format!("{:?}", s)` produces for a string: the string
/// between double quotes, with `"` and `\` and non-printable characters
/// escaped as Rust's `Debug` for `str` escapes them.
pub uninterp spec fn debug_quoted(s: Seq<char>) -> Seq<char>;

/// Formats `s` with `Debug` (std's `<str as Debug>::fmt`).
#[verifier::external_body]
pub(crate) fn debug_string(s: &str) -> (r: String)
    ensures
        r@ == debug_quoted(s@),
{
    format!("{:?}", s)
}

} // verus!

verus! {

/// Name for what `char::is_alphabetic` returns: whether `c` has the Unicode
/// `Alphabetic` property.
pub uninterp spec fn alphabetic(c: char) -> bool;

/// Whether `c` is alphabetic (`char::is_alphabetic`).
#[verifier::external_body]
pub(crate) fn char_is_alphabetic(c: char) -> (b: bool)
    ensures
        b == alphabetic(c),
{
    c.is_alphabetic()
}

pub proof fn lemma_starts_with_concat(s: Seq<char>, i: int, a: Seq<char>, b: Seq<char>)
    ensures
        starts_with_at(s, i, a + b) <==> (starts_with_at(s, i, a) && starts_with_at(
            s,
            i + a.len(),
            b,
        )),
{
    if starts_with_at(s, i, a + b) {
        assert(s.subrange(i, i + a.len()) =~= (a + b).subrange(0, a.len() as int));
        assert(s.subrange(i + a.len(), i + a.len() + b.len()) =~= (a + b).subrange(
            a.len() as int,
            (a.len() + b.len()) as int,
        ));
    }
    if starts_with_at(s, i, a) && starts_with_at(s, i + a.len(), b) {
        assert forall|j: int| 0 <= j < (a + b).len() implies s.subrange(
            i,
            i + (a + b).len(),
        )[j] == (a + b)[j] by {
            if j < a.len() {
                assert(s.subrange(i, i + a.len())[j] == a[j]);
            } else {
                assert(s.subrange(i + a.len(), i + a.len() + b.len())[j - a.len()] == b[j
                    - a.len()]);
            }
        }
        assert(s.subrange(i, i + (a + b).len()) =~= a + b);
    }
}

/// Decides `starts_with_at(s, i, a + b)`.
pub fn lit2_at(s: &Vec<char>, i: usize, a: &Vec<char>, b: &Vec<char>) -> (r: bool)
    ensures
        r == starts_with_at(s@, i as int, a@ + b@),
{
    proof {
        lemma_starts_with_concat(s@, i as int, a@, b@);
    }
    if lit_at(s, i, a) {
        let sl = s.len();
        assert(i + a@.len() <= sl);
        lit_at(s, i + a.len(), b)
    } else {
        false
    }
}

} // verus!

verus! {

/// Whether two strings have the same characters.
pub fn str_eq(a: &str, b: &str) -> (r: bool)
    ensures
        r == (a@ == b@),
{
    let x = str_to_chars(a);
    let y = str_to_chars(b);
    if x.len() != y.len() {
        return false;
    }
    let mut k: usize = 0;
    while k < x.len()
        invariant
            x@ == a@,
            y@ == b@,
            x@.len() == y@.len(),
            k <= x@.len(),
            forall|i: int| 0 <= i < k ==> x@[i] == y@[i],
        decreases x@.len() - k,
    {
        if x[k] != y[k] {
            assert(a@[k as int] != b@[k as int]);
            return false;
        }
        k += 1;
    }
    assert(a@ =~= b@);
    true
}

/// The UTF-8 encoding of `a + b` is that of `a` followed by that of `b`.
pub proof fn lemma_encode_utf8_concat(a: Seq<char>, b: Seq<char>)
    ensures
        vstd::utf8::encode_utf8(a + b) == vstd::utf8::encode_utf8(a) + vstd::utf8::encode_utf8(b),
    decreases a.len(),
{
    if a.len() == 0 {
        assert(a + b =~= b);
        assert(vstd::utf8::encode_utf8(a) =~= Seq::<u8>::empty());
        assert(vstd::utf8::encode_utf8(a) + vstd::utf8::encode_utf8(b) =~= vstd::utf8::encode_utf8(b));
    } else {
        lemma_encode_utf8_concat(a.drop_first(), b);
        assert((a + b).drop_first() =~= a.drop_first() + b);
        assert((a + b)[0] == a[0]);
        assert(vstd::utf8::encode_utf8(a + b) =~= vstd::utf8::encode_scalar(a[0] as u32) + (
        vstd::utf8::encode_utf8(a.drop_first()) + vstd::utf8::encode_utf8(b)));
    }
}

/// The number of bytes of the UTF-8 encoding of `c`.
pub fn utf8_width(c: char) -> (w: usize)
    ensures
        w == vstd::utf8::encode_scalar(c as u32).len(),
{
    let u = c as u32;
    proof {
        vstd::utf8::char_is_scalar(c);
    }
    if u <= 0x7F {
        1
    } else if u <= 0x7FF {
        2
    } else if u <= 0xFFFF {
        3
    } else {
        4
    }
}

/// The number of bytes that the first `n` characters of `s` take in UTF-8:
/// the byte offset of the character at `n`.
pub fn utf8_offset(s: &Vec<char>, n: usize) -> (r: usize)
    requires
        n <= s@.len(),
        vstd::utf8::encode_utf8(s@).len() <= usize::MAX,
    ensures
        r == vstd::utf8::encode_utf8(s@.take(n as int)).len(),
{
    let mut k: usize = 0;
    let mut acc: usize = 0;
    proof {
        assert(s@.take(0) =~= Seq::<char>::empty());
        assert(vstd::utf8::encode_utf8(s@.take(0)) =~= Seq::<u8>::empty());
    }
    while k < n
        invariant
            k <= n <= s@.len(),
            vstd::utf8::encode_utf8(s@).len() <= usize::MAX,
            acc == vstd::utf8::encode_utf8(s@.take(k as int)).len(),
        decreases n - k,
    {
        let w = utf8_width(s[k]);
        proof {
            assert(s@.take(k + 1) =~= s@.take(k as int) + seq![s@[k as int]]);
            lemma_encode_utf8_concat(s@.take(k as int), seq![s@[k as int]]);
            assert(seq![s@[k as int]].drop_first() =~= Seq::<char>::empty());
            assert(vstd::utf8::encode_utf8(Seq::<char>::empty()) =~= Seq::<u8>::empty());
            assert(vstd::utf8::encode_utf8(seq![s@[k as int]]) =~= vstd::utf8::encode_scalar(s@[k as int] as u32));
            assert(s@ =~= s@.take(k + 1) + s@.skip(k + 1));
            lemma_encode_utf8_concat(s@.take(k + 1), s@.skip(k + 1));
        }
        acc = acc + w;
        k = k + 1;
    }
    acc
}

} // verus!
