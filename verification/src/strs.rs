//! String helpers with specifications over `Seq<char>` views.
use vstd::prelude::*;
use vstd::string::StringExecFns;

verus! {

/// Appends one character to a `String` (`String::push`).
/// Trusted: the contract states that the character is added at the end.
#[verifier::external_body]
pub(crate) fn push_char(s: &mut String, c: char)
    ensures
        final(s)@ == old(s)@.push(c),
{
    s.push(c);
}

/// Appends a string slice to a `String`: `t`'s characters are added at the end.
pub(crate) fn push_str(s: &mut String, t: &str)
    ensures
        final(s)@ == old(s)@ + t@,
{
    s.append(t);
}

/// Equality of two string slices: the same characters in the same order.
pub(crate) fn str_eq(a: &str, b: &str) -> (r: bool)
    ensures
        r == (a@ == b@),
{
    let va = chars_of(a);
    let vb = chars_of(b);
    if va.len() != vb.len() {
        return false;
    }
    let r = chars_match(&va, 0, &vb, vb.len());
    assert(va@.subrange(0, vb@.len() as int) =~= va@);
    assert(vb@.subrange(0, vb@.len() as int) =~= vb@);
    r
}

/// `p` is a prefix of `s`.
pub(crate) fn str_starts_with(s: &str, p: &str) -> (r: bool)
    ensures
        r == is_prefix(p@, s@),
{
    let vs = chars_of(s);
    let vp = chars_of(p);
    if vp.len() > vs.len() {
        return false;
    }
    let r = chars_match(&vs, 0, &vp, vp.len());
    assert(vp@.subrange(0, vp@.len() as int) =~= vp@);
    r
}

/// `p` is a suffix of `s`.
pub(crate) fn str_ends_with(s: &str, p: &str) -> (r: bool)
    ensures
        r == is_suffix(p@, s@),
{
    let vs = chars_of(s);
    let vp = chars_of(p);
    if vp.len() > vs.len() {
        return false;
    }
    let r = chars_match(&vs, vs.len() - vp.len(), &vp, vp.len());
    assert(vp@.subrange(0, vp@.len() as int) =~= vp@);
    r
}

/// The `n` characters of `a` from `start` are the first `n` of `b`.
fn chars_match(a: &Vec<char>, start: usize, b: &Vec<char>, n: usize) -> (r: bool)
    requires
        start + n <= a.len(),
        n <= b@.len(),
    ensures
        r == (a@.subrange(start as int, start + n) == b@.subrange(0, n as int)),
{
    let mut i: usize = 0;
    while i < n
        invariant
            i <= n,
            start + n <= a.len(),
            n <= b@.len(),
            forall|j: int| 0 <= j < i ==> a@[start + j] == b@[j],
        decreases n - i,
    {
        let k = start + i;
        if a[k] != b[i] {
            assert(a@.subrange(start as int, start + n)[i as int] != b@.subrange(0, n as int)[i as int]);
            return false;
        }
        i += 1;
    }
    assert(a@.subrange(start as int, start + n) =~= b@.subrange(0, n as int));
    true
}

/// Name for `char::is_alphabetic` (the Unicode `Alphabetic` property).
pub uninterp spec fn unicode_alphabetic(c: char) -> bool;

/// Name for `char::is_alphanumeric` (`Alphabetic` or `Numeric`).
pub uninterp spec fn unicode_alphanumeric(c: char) -> bool;

/// An ASCII letter.
pub open spec fn ascii_letter(c: char) -> bool {
    ('a' <= c && c <= 'z') || ('A' <= c && c <= 'Z')
}

/// An ASCII decimal digit.
pub open spec fn ascii_digit(c: char) -> bool {
    '0' <= c && c <= '9'
}

/// `char::is_alphabetic`. Trusted: the result is named by `unicode_alphabetic`
/// (the Unicode tables are not restated here); among ASCII characters exactly
/// the letters have the `Alphabetic` property.
#[verifier::external_body]
pub(crate) fn char_is_alphabetic(c: char) -> (r: bool)
    ensures
        r == unicode_alphabetic(c),
        (c as u32) < 128 ==> (r == ascii_letter(c)),
{
    c.is_alphabetic()
}

/// `char::is_alphanumeric`. Trusted: the result is named by
/// `unicode_alphanumeric` (the Unicode tables are not restated here); among
/// ASCII characters exactly the letters and digits are `Alphabetic` or `Numeric`.
#[verifier::external_body]
pub(crate) fn char_is_alphanumeric(c: char) -> (r: bool)
    ensures
        r == unicode_alphanumeric(c),
        (c as u32) < 128 ==> (r == (ascii_letter(c) || ascii_digit(c))),
{
    c.is_alphanumeric()
}

/// The decimal form of `n`, with a leading `-` when negative.
pub(crate) fn i64_to_string(n: i64) -> (r: String)
    ensures
        r@ == int_dec(n as int),
{
    if n < 0 {
        let m = (-(n as i128)) as u64;
        let d = u64_dec(m);
        let mut r = String::new();
        push_char(&mut r, '-');
        push_str(&mut r, d.as_str());
        assert(r@ =~= int_dec(n as int));
        r
    } else {
        u64_dec(n as u64)
    }
}

/// The decimal form of `n`.
pub(crate) fn u64_to_string(n: u64) -> (r: String)
    ensures
        r@ == int_dec(n as int),
{
    u64_dec(n)
}

/// The decimal form of `n`.
pub(crate) fn usize_to_string(n: usize) -> (r: String)
    ensures
        r@ == int_dec(n as int),
{
    u64_dec(n as u64)
}

/// The digit character for `d`.
fn digit_of(d: u64) -> (c: char)
    requires
        d < 10,
    ensures
        c == digit_char(d as int),
{
    if d == 0 { '0' } else if d == 1 { '1' } else if d == 2 { '2' } else if d == 3 { '3' }
    else if d == 4 { '4' } else if d == 5 { '5' } else if d == 6 { '6' } else if d == 7 { '7' }
    else if d == 8 { '8' } else { '9' }
}

/// Decimal digits of `n`, without leading zeros.
fn u64_dec(n: u64) -> (r: String)
    ensures
        r@ == nat_dec(n as nat),
{
    let mut m = n;
    let mut ds: Vec<char> = Vec::new();
    while m >= 10
        invariant
            nat_dec(n as nat) == nat_dec(m as nat) + ds@,
        decreases m,
    {
        let d = digit_of(m % 10);
        let ghost before = ds@;
        ds.insert(0, d);
        proof {
            assert(nat_dec(m as nat) == nat_dec((m / 10) as nat).push(digit_char((m % 10) as int)));
            assert(ds@ =~= seq![d] + before);
            assert(nat_dec((m / 10) as nat).push(d) + before =~= nat_dec((m / 10) as nat) + ds@);
        }
        m = m / 10;
    }
    let ghost before = ds@;
    ds.insert(0, digit_of(m));
    assert(nat_dec(m as nat) == seq![digit_char(m as int)]);
    assert(ds@ =~= seq![digit_char(m as int)] + before);
    assert(nat_dec(n as nat) =~= ds@);
    string_of(&ds)
}

pub open spec fn is_prefix(p: Seq<char>, s: Seq<char>) -> bool {
    p.len() <= s.len() && s.subrange(0, p.len() as int) == p
}

pub open spec fn is_suffix(p: Seq<char>, s: Seq<char>) -> bool {
    p.len() <= s.len() && s.subrange(s.len() - p.len(), s.len() as int) == p
}

/// The decimal digit character for `d` in 0..10.
pub open spec fn digit_char(d: int) -> char {
    if d == 0 { '0' } else if d == 1 { '1' } else if d == 2 { '2' } else if d == 3 { '3' }
    else if d == 4 { '4' } else if d == 5 { '5' } else if d == 6 { '6' } else if d == 7 { '7' }
    else if d == 8 { '8' } else { '9' }
}

/// Decimal digits of a natural number, without leading zeros.
pub open spec fn nat_dec(n: nat) -> Seq<char>
    decreases n,
{
    if n < 10 {
        seq![digit_char(n as int)]
    } else {
        nat_dec(n / 10).push(digit_char((n % 10) as int))
    }
}

/// Decimal form of an integer, with `-` for negative values.
pub open spec fn int_dec(n: int) -> Seq<char> {
    if n < 0 {
        seq!['-'] + nat_dec((-n) as nat)
    } else {
        nat_dec(n as nat)
    }
}

/// Builds a `String` holding the characters of `s`.
pub fn to_string(s: &str) -> (r: String)
    ensures
        r@ == s@,
{
    let mut r = String::new();
    push_str(&mut r, s);
    assert(r@ =~= s@);
    r
}

/// Concatenation of two string slices.
pub fn cat2(a: &str, b: &str) -> (r: String)
    ensures
        r@ == a@ + b@,
{
    let mut s = String::new();
    push_str(&mut s, a);
    push_str(&mut s, b);
    assert(s@ =~= a@ + b@);
    s
}

/// Concatenation of three string slices.
pub fn cat3(a: &str, b: &str, c: &str) -> (r: String)
    ensures
        r@ == a@ + b@ + c@,
{
    let mut s = String::new();
    push_str(&mut s, a);
    push_str(&mut s, b);
    push_str(&mut s, c);
    assert(s@ =~= a@ + b@ + c@);
    s
}

/// The characters of a string slice, in order.
pub fn chars_of(s: &str) -> (v: Vec<char>)
    ensures
        v@ == s@,
{
    let mut v: Vec<char> = Vec::new();
    for c in it: s.chars()
        invariant
            v@ == it.seq().subrange(0, it.index() as int),
    {
        v.push(c);
    }
    v
}

/// A `String` holding the characters of `v`.
pub fn string_of(v: &Vec<char>) -> (s: String)
    ensures
        s@ == v@,
{
    let mut s = String::new();
    let mut i: usize = 0;
    while i < v.len()
        invariant
            i <= v.len(),
            s@ == v@.subrange(0, i as int),
        decreases v.len() - i,
    {
        push_char(&mut s, v[i]);
        i += 1;
        assert(s@ =~= v@.subrange(0, i as int));
    }
    assert(v@.subrange(0, v.len() as int) =~= v@);
    s
}

/// Number of bytes in the UTF-8 encoding of `c`.
pub open spec fn utf8_width(c: char) -> int {
    if (c as u32) < 0x80 { 1 } else if (c as u32) < 0x800 { 2 } else if (c as u32) < 0x10000 { 3 } else { 4 }
}

/// Byte offset of the `i`-th character of `s` in its UTF-8 encoding.
pub open spec fn byte_off(s: Seq<char>, i: int) -> int
    decreases i,
{
    if i <= 0 || s.len() == 0 {
        0
    } else if i > s.len() {
        byte_off(s, s.len() as int)
    } else {
        byte_off(s, i - 1) + utf8_width(s[i - 1])
    }
}

/// `char::len_utf8`, computed from the code point.
pub fn char_width(c: char) -> (w: usize)
    ensures
        w as int == utf8_width(c),
        1 <= w <= 4,
{
    let u = c as u32;
    if u < 0x80 { 1 } else if u < 0x800 { 2 } else if u < 0x10000 { 3 } else { 4 }
}

pub proof fn lemma_byte_off_mono(s: Seq<char>, i: int, j: int)
    requires
        0 <= i <= j <= s.len(),
    ensures
        byte_off(s, i) <= byte_off(s, j),
        byte_off(s, i) >= 0,
    decreases j - i,
{
    lemma_byte_off_nonneg(s, i);
    if i < j {
        lemma_byte_off_mono(s, i, j - 1);
    }
}

/// Offsets of distinct character positions differ: each character takes a byte or more.
pub proof fn lemma_byte_off_strict(s: Seq<char>, i: int, j: int)
    requires
        0 <= i < j <= s.len(),
    ensures
        byte_off(s, i) + (j - i) <= byte_off(s, j),
    decreases j - i,
{
    if i < j - 1 {
        lemma_byte_off_strict(s, i, j - 1);
    }
}

/// A position's byte offset is at least its character index.
pub proof fn lemma_byte_off_ge_index(s: Seq<char>, i: int)
    requires
        0 <= i <= s.len(),
    ensures
        i <= byte_off(s, i),
{
    if i > 0 {
        lemma_byte_off_strict(s, 0, i);
    }
}

pub proof fn lemma_byte_off_nonneg(s: Seq<char>, i: int)
    ensures
        byte_off(s, i) >= 0,
    decreases i,
{
    if i <= 0 || s.len() == 0 {
    } else if i > s.len() {
        lemma_byte_off_nonneg(s, s.len() as int);
    } else {
        lemma_byte_off_nonneg(s, i - 1);
    }
}


/// Name for `<str as Debug>::fmt`: the quoted, escaped form of a string.
pub uninterp spec fn str_debug(s: Seq<char>) -> Seq<char>;

/// `format!("{:?}", s)` for a string slice. Trusted: the result is named by
/// `str_debug` (the escaping rules of `char::escape_debug` are not restated).
#[verifier::external_body]
pub(crate) fn debug_str(s: &str) -> (r: String)
    ensures
        r@ == str_debug(s@),
{
    format!("{:?}", s)
}

// ---------------------------------------------------------------------------
// Decimal literals with a fractional part, printed from their digits: leading
// zeros of the integer part and trailing zeros of the fraction dropped. This
// is the text Rust prints for the `f64` the literal denotes when the literal
// has at most 15 significant digits and is below 1e16; a longer literal keeps
// all its digits, where the `f64` would be rounded.

/// Index of the first `.` at or after `j`, or the length.
pub open spec fn dot_index(t: Seq<char>, j: int) -> int
    decreases t.len() - j,
{
    if j < 0 || j >= t.len() {
        t.len() as int
    } else if t[j] == '.' {
        j
    } else {
        dot_index(t, j + 1)
    }
}

/// Start of the integer digits once leading zeros are dropped (one digit stays).
pub open spec fn skip_zeros(t: Seq<char>, a: int, k: int) -> int
    decreases k - a,
{
    if 0 <= a && a + 1 < k && t[a] == '0' {
        skip_zeros(t, a + 1, k)
    } else {
        a
    }
}

/// End of the fractional digits once trailing zeros are dropped.
pub open spec fn trim_zeros(t: Seq<char>, e: int, lo: int) -> int
    decreases e - lo,
{
    if e > lo && e <= t.len() && t[e - 1] == '0' {
        trim_zeros(t, e - 1, lo)
    } else {
        e
    }
}

pub open spec fn int_digits(t: Seq<char>) -> Seq<char> {
    let k = dot_index(t, 0);
    t.subrange(skip_zeros(t, 0, k), k)
}

pub open spec fn frac_digits(t: Seq<char>) -> Seq<char> {
    let k = dot_index(t, 0);
    if k < t.len() {
        t.subrange(k + 1, trim_zeros(t, t.len() as int, k + 1))
    } else {
        Seq::empty()
    }
}

/// The literal's digits without redundant zeros, and no fractional part when
/// it is zero: `{}` of its `f64` for literals of at most 15 significant
/// digits below 1e16 (see above).
pub open spec fn float_plain(t: Seq<char>) -> Seq<char> {
    if frac_digits(t).len() == 0 {
        int_digits(t)
    } else {
        int_digits(t) + seq!['.'] + frac_digits(t)
    }
}

/// `float_plain` with at least one fractional digit (`.0` when integral):
/// `{:?}` of its `f64` for literals of at most 15 significant digits below 1e16.
pub open spec fn float_point(t: Seq<char>) -> Seq<char> {
    if frac_digits(t).len() == 0 {
        int_digits(t) + seq!['.', '0']
    } else {
        float_plain(t)
    }
}

proof fn lemma_dot_index(t: Seq<char>, j: int)
    requires
        0 <= j <= t.len(),
    ensures
        j <= dot_index(t, j) <= t.len(),
    decreases t.len() - j,
{
    if j < t.len() && t[j] != '.' {
        lemma_dot_index(t, j + 1);
    }
}

/// Integer and fractional digit ranges of a literal (`digits[.digits]`).
fn float_parts(v: &Vec<char>) -> (r: (usize, usize, usize, usize))
    requires
        v@.len() > 0,
        v@[0] != '.',
    ensures
        int_digits(v@) == v@.subrange(r.0 as int, r.1 as int),
        frac_digits(v@) == v@.subrange(r.2 as int, r.3 as int),
        r.0 <= r.1 <= v@.len(),
        r.2 <= r.3 <= v@.len(),
{
    let ghost t = v@;
    let n = v.len();
    let mut k: usize = 0;
    while k < n && v[k] != '.'
        invariant
            k <= n,
            n == t.len(),
            v@ == t,
            dot_index(t, 0) == dot_index(t, k as int),
        decreases n - k,
    {
        k += 1;
    }
    proof {
        lemma_dot_index(t, 0);
    }
    let mut a: usize = 0;
    while a + 1 < k && v[a] == '0'
        invariant
            a < k || k == 0,
            k <= n,
            n == t.len(),
            v@ == t,
            skip_zeros(t, 0, k as int) == skip_zeros(t, a as int, k as int),
        decreases k - a,
    {
        a += 1;
    }
    if k < n {
        let mut e = n;
        while e > k + 1 && v[e - 1] == '0'
            invariant
                k + 1 <= e <= n,
                n == t.len(),
                v@ == t,
                trim_zeros(t, n as int, k + 1) == trim_zeros(t, e as int, k + 1),
            decreases e,
        {
            e -= 1;
        }
        (a, k, k + 1, e)
    } else {
        (a, k, n, n)
    }
}

/// Whether a literal's text is non-empty and does not start with `.`.
pub fn float_text_ok(t: &str) -> (r: bool)
    ensures
        r == (t@.len() > 0 && t@[0] != '.'),
{
    if t.is_empty() {
        return false;
    }
    let b = str_starts_with(t, ".");
    proof {
        reveal_strlit(".");
        if t@[0] == '.' {
            assert(t@.subrange(0, 1) =~= "."@);
        }
        if b {
            assert(t@.subrange(0, 1)[0] == t@[0]);
            assert("."@[0] == '.');
        }
    }
    !b
}

/// Text of a float literal as `float_plain` gives it (the `{}` text of its
/// value for literals of at most 15 significant digits below 1e16).
pub fn float_plain_text(t: &str) -> (r: String)
    requires
        t@.len() > 0,
        t@[0] != '.',
    ensures
        r@ == float_plain(t@),
{
    let v = chars_of(t);
    let (a, k, f, e) = float_parts(&v);
    let mut r = String::new();
    let mut i = a;
    while i < k
        invariant
            a <= i <= k <= v@.len(),
            r@ == v@.subrange(a as int, i as int),
        decreases k - i,
    {
        push_char(&mut r, v[i]);
        i += 1;
        assert(r@ =~= v@.subrange(a as int, i as int));
    }
    if f < e {
        push_char(&mut r, '.');
        let ghost base = r@;
        let mut j = f;
        while j < e
            invariant
                f <= j <= e <= v@.len(),
                r@ == base + v@.subrange(f as int, j as int),
            decreases e - j,
        {
            push_char(&mut r, v[j]);
            j += 1;
            assert(r@ =~= base + v@.subrange(f as int, j as int));
        }
    }
    r
}

/// Text of a float literal with at least one fractional digit.
pub fn float_point_text(t: &str) -> (r: String)
    requires
        t@.len() > 0,
        t@[0] != '.',
    ensures
        r@ == float_point(t@),
{
    let mut r = float_plain_text(t);
    let v = chars_of(t);
    let (_a, _k, f, e) = float_parts(&v);
    if f == e {
        push_char(&mut r, '.');
        push_char(&mut r, '0');
        assert(r@ =~= int_digits(t@) + seq!['.', '0']);
    }
    r
}


/// Concatenation of a list of string slices.
pub fn join_all(parts: Vec<&str>) -> (r: String)
    ensures
        r@ == concat_all(parts@),
{
    let mut r = String::new();
    let mut i: usize = 0;
    while i < parts.len()
        invariant
            i <= parts@.len(),
            r@ == concat_all(parts@.subrange(0, i as int)),
        decreases parts@.len() - i,
    {
        push_str(&mut r, parts[i]);
        proof {
            assert(parts@.subrange(0, i + 1).drop_last() =~= parts@.subrange(0, i as int));
        }
        i += 1;
    }
    assert(parts@.subrange(0, parts@.len() as int) =~= parts@);
    r
}

/// Concatenation of the views of a list of string slices.
pub open spec fn concat_all(parts: Seq<&str>) -> Seq<char>
    decreases parts.len(),
{
    if parts.len() == 0 {
        Seq::empty()
    } else {
        concat_all(parts.drop_last()) + parts.last()@
    }
}

/// Splits at the first `.`: the text before and after it.
pub fn split_at_dot(s: &str) -> (r: Option<(String, String)>)
    ensures
        r is None <==> dot_index(s@, 0) == s@.len(),
        r matches Some(p) ==> p.0@ == s@.subrange(0, dot_index(s@, 0))
            && p.1@ == s@.subrange(dot_index(s@, 0) + 1, s@.len() as int),
{
    let v = chars_of(s);
    let n = v.len();
    let mut k: usize = 0;
    while k < n && v[k] != '.'
        invariant
            k <= n,
            n == s@.len(),
            v@ == s@,
            dot_index(s@, 0) == dot_index(s@, k as int),
        decreases n - k,
    {
        k += 1;
    }
    if k == n {
        return None;
    }
    let mut a = String::new();
    let mut i: usize = 0;
    while i < k
        invariant
            i <= k < n,
            n == s@.len(),
            v@ == s@,
            a@ == s@.subrange(0, i as int),
        decreases k - i,
    {
        push_char(&mut a, v[i]);
        i += 1;
        assert(a@ =~= s@.subrange(0, i as int));
    }
    let mut b = String::new();
    let mut j: usize = k + 1;
    while j < n
        invariant
            k + 1 <= j <= n,
            n == s@.len(),
            v@ == s@,
            b@ == s@.subrange(k + 1, j as int),
        decreases n - j,
    {
        push_char(&mut b, v[j]);
        j += 1;
        assert(b@ =~= s@.subrange(k + 1, j as int));
    }
    Some((a, b))
}


/// The views of a list of strings.
pub open spec fn views(v: Seq<String>) -> Seq<Seq<char>> {
    v.map_values(|x: String| x@)
}

/// The parts separated by `sep`.
pub open spec fn join_spec(parts: Seq<Seq<char>>, sep: Seq<char>) -> Seq<char>
    decreases parts.len(),
{
    if parts.len() == 0 {
        Seq::empty()
    } else if parts.len() == 1 {
        parts[0]
    } else {
        join_spec(parts.drop_last(), sep) + sep + parts.last()
    }
}

/// `parts.join(sep)`.
pub fn join_strings(parts: &Vec<String>, sep: &str) -> (r: String)
    ensures
        r@ == join_spec(views(parts@), sep@),
{
    let mut r = String::new();
    let mut i: usize = 0;
    while i < parts.len()
        invariant
            i <= parts@.len(),
            r@ == join_spec(views(parts@.subrange(0, i as int)), sep@),
        decreases parts@.len() - i,
    {
        let ghost before = r@;
        if i > 0 {
            push_str(&mut r, sep);
        }
        push_str(&mut r, parts[i].as_str());
        proof {
            let p = views(parts@.subrange(0, i + 1));
            assert(p.drop_last() =~= views(parts@.subrange(0, i as int)));
            assert(p.last() == parts@[i as int]@);
            if i == 0 {
                assert(r@ =~= p[0]);
            }
        }
        i += 1;
    }
    assert(parts@.subrange(0, parts@.len() as int) =~= parts@);
    r
}

// ---------------------------------------------------------------------------
// Whitespace trimming, escaping and replacement.

/// The Unicode `White_Space` property (PropList.txt): tab through carriage
/// return, space, next line, no-break space, ogham space mark, en quad through
/// hair space, line and paragraph separators, narrow no-break space, medium
/// mathematical space and ideographic space.
pub open spec fn unicode_whitespace(c: char) -> bool {
    let u = c as u32;
    (0x09 <= u <= 0x0D) || u == 0x20 || u == 0x85 || u == 0xA0 || u == 0x1680
        || (0x2000 <= u <= 0x200A) || u == 0x2028 || u == 0x2029 || u == 0x202F
        || u == 0x205F || u == 0x3000
}

/// Whether `c` has the Unicode `White_Space` property, as `char::is_whitespace`
/// documents it.
pub(crate) fn char_is_whitespace(c: char) -> (r: bool)
    ensures
        r == unicode_whitespace(c),
{
    let u = c as u32;
    (0x09 <= u && u <= 0x0D) || u == 0x20 || u == 0x85 || u == 0xA0 || u == 0x1680
        || (0x2000 <= u && u <= 0x200A) || u == 0x2028 || u == 0x2029 || u == 0x202F
        || u == 0x205F || u == 0x3000
}

/// First index at or after `i` that does not hold whitespace.
pub open spec fn ws_start(s: Seq<char>, i: int) -> int
    decreases s.len() - i,
{
    if 0 <= i < s.len() && unicode_whitespace(s[i]) {
        ws_start(s, i + 1)
    } else {
        i
    }
}

/// End of `s[..e]` once trailing whitespace is dropped.
pub open spec fn ws_end(s: Seq<char>, e: int) -> int
    decreases e,
{
    if 0 < e <= s.len() && unicode_whitespace(s[e - 1]) {
        ws_end(s, e - 1)
    } else {
        e
    }
}

proof fn lemma_ws_start_bounds(s: Seq<char>, i: int)
    requires
        0 <= i <= s.len(),
    ensures
        i <= ws_start(s, i) <= s.len(),
    decreases s.len() - i,
{
    if i < s.len() && unicode_whitespace(s[i]) {
        lemma_ws_start_bounds(s, i + 1);
    }
}

proof fn lemma_ws_end_bounds(s: Seq<char>, e: int)
    requires
        0 <= e <= s.len(),
    ensures
        0 <= ws_end(s, e) <= e,
    decreases e,
{
    if 0 < e && unicode_whitespace(s[e - 1]) {
        lemma_ws_end_bounds(s, e - 1);
    }
}

/// Trimming the end keeps a first character that is not whitespace.
pub proof fn lemma_ws_end_pos(s: Seq<char>, e: int)
    requires
        1 <= e <= s.len(),
        !unicode_whitespace(s[0]),
    ensures
        1 <= ws_end(s, e) <= e,
    decreases e,
{
    lemma_ws_end_bounds(s, e);
    if e > 1 && unicode_whitespace(s[e - 1]) {
        lemma_ws_end_pos(s, e - 1);
    }
}

/// `s.trim_start()`, as an owned string.
pub fn trim_start(s: &str) -> (r: String)
    ensures
        r@ == s@.subrange(ws_start(s@, 0), s@.len() as int),
{
    let v = chars_of(s);
    let mut i: usize = 0;
    proof {
        lemma_ws_start_bounds(s@, 0);
    }
    while i < v.len() && char_is_whitespace(v[i])
        invariant
            i <= v@.len(),
            v@ == s@,
            ws_start(s@, i as int) == ws_start(s@, 0),
        decreases v@.len() - i,
    {
        i += 1;
    }
    let start = i;
    let mut r = String::new();
    while i < v.len()
        invariant
            start <= i <= v@.len(),
            v@ == s@,
            r@ == s@.subrange(start as int, i as int),
        decreases v@.len() - i,
    {
        push_char(&mut r, v[i]);
        i += 1;
        assert(r@ =~= s@.subrange(start as int, i as int));
    }
    r
}

/// `s.trim_end()`, as an owned string.
pub fn trim_end(s: &str) -> (r: String)
    ensures
        r@ == s@.subrange(0, ws_end(s@, s@.len() as int)),
{
    let v = chars_of(s);
    let mut e: usize = v.len();
    while e > 0 && char_is_whitespace(v[e - 1])
        invariant
            e <= v@.len(),
            v@ == s@,
            ws_end(s@, e as int) == ws_end(s@, s@.len() as int),
        decreases e,
    {
        e -= 1;
    }
    let mut r = String::new();
    let mut i: usize = 0;
    while i < e
        invariant
            i <= e <= v@.len(),
            v@ == s@,
            r@ == s@.subrange(0, i as int),
        decreases e - i,
    {
        push_char(&mut r, v[i]);
        i += 1;
        assert(r@ =~= s@.subrange(0, i as int));
    }
    r
}

/// One character of a string literal's body, escaped.
pub open spec fn escape_char(c: char) -> Seq<char> {
    if c == '\\' {
        seq!['\\', '\\']
    } else if c == '"' {
        seq!['\\', '"']
    } else {
        seq![c]
    }
}

/// A string literal's body with `\` and `"` escaped.
pub open spec fn escape_spec(s: Seq<char>) -> Seq<char>
    decreases s.len(),
{
    if s.len() == 0 {
        Seq::empty()
    } else {
        escape_spec(s.drop_last()) + escape_char(s.last())
    }
}

/// A string literal's body with `\` and `"` escaped by a backslash.
pub fn escape_str(s: &str) -> (r: String)
    ensures
        r@ == escape_spec(s@),
{
    let v = chars_of(s);
    let mut r = String::new();
    let mut i: usize = 0;
    while i < v.len()
        invariant
            i <= v@.len(),
            v@ == s@,
            r@ == escape_spec(s@.subrange(0, i as int)),
        decreases v@.len() - i,
    {
        let c = v[i];
        if c == '\\' {
            push_char(&mut r, '\\');
            push_char(&mut r, '\\');
        } else if c == '"' {
            push_char(&mut r, '\\');
            push_char(&mut r, '"');
        } else {
            push_char(&mut r, c);
        }
        proof {
            let t = s@.subrange(0, i + 1);
            assert(t.drop_last() =~= s@.subrange(0, i as int));
            assert(t.last() == c);
        }
        i += 1;
    }
    assert(s@.subrange(0, s@.len() as int) =~= s@);
    r
}

/// `s` with every occurrence of `p` (taken left to right, not overlapping)
/// replaced by `q`.
pub open spec fn replace_spec(s: Seq<char>, p: Seq<char>, q: Seq<char>) -> Seq<char>
    decreases s.len(),
{
    if p.len() == 0 || s.len() < p.len() {
        s
    } else if s.subrange(0, p.len() as int) == p {
        q + replace_spec(s.subrange(p.len() as int, s.len() as int), p, q)
    } else {
        seq![s[0]] + replace_spec(s.subrange(1, s.len() as int), p, q)
    }
}

/// Whether `v[i..]` starts with `p`.
fn matches_at(v: &Vec<char>, i: usize, p: &Vec<char>) -> (r: bool)
    requires
        i <= v@.len(),
    ensures
        r == (i + p@.len() <= v@.len() && v@.subrange(i as int, i + p@.len()) == p@),
{
    if p.len() > v.len() - i {
        return false;
    }
    let mut k: usize = 0;
    while k < p.len()
        invariant
            k <= p@.len(),
            i + p@.len() <= v@.len(),
            v@.len() == v.len(),
            forall|m: int| 0 <= m < k ==> v@[i + m] == p@[m],
        decreases p@.len() - k,
    {
        if v[i + k] != p[k] {
            assert(v@.subrange(i as int, i + p@.len())[k as int] != p@[k as int]);
            return false;
        }
        k += 1;
    }
    assert(v@.subrange(i as int, i + p@.len()) =~= p@);
    true
}

/// `s.replace(p, q)` for a non-empty pattern.
pub fn replace_all(s: &str, p: &str, q: &str) -> (r: String)
    requires
        p@.len() > 0,
    ensures
        r@ == replace_spec(s@, p@, q@),
{
    let v = chars_of(s);
    let pv = chars_of(p);
    let mut r = String::new();
    let mut i: usize = 0;
    assert(s@.subrange(0, s@.len() as int) =~= s@);
    assert(r@ + s@ =~= s@);
    while i < v.len()
        invariant
            i <= v@.len(),
            v@ == s@,
            pv@ == p@,
            p@.len() > 0,
            r@ + replace_spec(s@.subrange(i as int, s@.len() as int), p@, q@) == replace_spec(s@, p@, q@),
        decreases v@.len() - i,
    {
        let ghost rest = s@.subrange(i as int, s@.len() as int);
        if matches_at(&v, i, &pv) {
            proof {
                assert(rest.subrange(0, p@.len() as int) =~= s@.subrange(i as int, i + p@.len()));
                assert(rest.subrange(p@.len() as int, rest.len() as int)
                    =~= s@.subrange(i + p@.len(), s@.len() as int));
            }
            push_str(&mut r, q);
            i += pv.len();
        } else {
            proof {
                if rest.len() >= p@.len() {
                    assert(rest.subrange(0, p@.len() as int) =~= s@.subrange(i as int, i + p@.len()));
                }
                assert(rest.subrange(1, rest.len() as int) =~= s@.subrange(i + 1, s@.len() as int));
                if rest.len() < p@.len() {
                    // the whole rest is kept as it is
                    assert(replace_spec(rest, p@, q@) == rest);
                    let t = rest.subrange(1, rest.len() as int);
                    assert(replace_spec(t, p@, q@) == t);
                    assert(rest =~= seq![rest[0]] + t);
                }
            }
            push_char(&mut r, v[i]);
            i += 1;
        }
        proof {
            assert(r@ + replace_spec(s@.subrange(i as int, s@.len() as int), p@, q@) =~= replace_spec(s@, p@, q@));
        }
    }
    proof {
        assert(s@.subrange(i as int, s@.len() as int) =~= Seq::<char>::empty());
        assert(r@ + Seq::<char>::empty() =~= r@);
    }
    r
}

} // verus!
