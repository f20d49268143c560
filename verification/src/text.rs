//! Character-level string helpers with exact specifications: trimming,
//! ASCII case folding, substring search and decimal formatting/parsing.

use vstd::prelude::*;
use vstd::string::*;

verus! {

/// Rust's `char::is_whitespace`: the Unicode `White_Space` property.
pub open spec fn is_ws(c: char) -> bool {
    let u = c as u32;
    (0x9 <= u && u <= 0xD) || u == 0x20 || u == 0x85 || u == 0xA0 || u == 0x1680 || (0x2000 <= u
        && u <= 0x200A) || u == 0x2028 || u == 0x2029 || u == 0x202F || u == 0x205F || u == 0x3000
}

/// Leading whitespace removed (`str::trim_start`).
pub open spec fn trim_start_seq(s: Seq<char>) -> Seq<char>
    decreases s.len(),
{
    if s.len() > 0 && is_ws(s[0]) {
        trim_start_seq(s.drop_first())
    } else {
        s
    }
}

/// Trailing whitespace removed (`str::trim_end`).
pub open spec fn trim_end_seq(s: Seq<char>) -> Seq<char>
    decreases s.len(),
{
    if s.len() > 0 && is_ws(s.last()) {
        trim_end_seq(s.drop_last())
    } else {
        s
    }
}

/// `str::trim`.
pub open spec fn trim_seq(s: Seq<char>) -> Seq<char> {
    trim_end_seq(trim_start_seq(s))
}

/// Number of UTF-8 bytes that encode `s` (what `str::len` returns).
pub open spec fn utf8_len(s: Seq<char>) -> nat {
    vstd::utf8::encode_utf8(s).len()
}

/// Number of UTF-8 bytes that encode one character.
pub open spec fn char_width(c: char) -> nat {
    let u = c as u32;
    if u <= 0x7F {
        1
    } else if u <= 0x7FF {
        2
    } else if u <= 0xFFFF {
        3
    } else {
        4
    }
}

proof fn lemma_utf8_len_first(s: Seq<char>)
    requires
        s.len() > 0,
    ensures
        utf8_len(s) == char_width(s[0]) + utf8_len(s.drop_first()),
{
    vstd::utf8::char_is_scalar(s[0]);
}

/// `s.len()` for a character vector, when it is at most `cap` bytes.
pub fn utf8_len_within(v: &Vec<char>, cap: usize) -> (r: Option<usize>)
    ensures
        r is Some <==> utf8_len(v@) <= cap,
        r is Some ==> r->0 == utf8_len(v@),
{
    let mut total: usize = 0;
    let mut i: usize = 0;
    assert(v@.skip(0) =~= v@);
    while i < v.len()
        invariant
            i <= v@.len(),
            total <= cap,
            total + utf8_len(v@.skip(i as int)) == utf8_len(v@),
        decreases v@.len() - i,
    {
        proof {
            lemma_utf8_len_first(v@.skip(i as int));
            assert(v@.skip(i as int).drop_first() =~= v@.skip(i + 1));
        }
        let u = v[i] as u32;
        let w: usize = if u <= 0x7F {
            1
        } else if u <= 0x7FF {
            2
        } else if u <= 0xFFFF {
            3
        } else {
            4
        };
        if w > cap - total {
            return None;
        }
        total = total + w;
        i = i + 1;
    }
    assert(v@.skip(i as int) =~= Seq::<char>::empty());
    assert(utf8_len(Seq::<char>::empty()) == 0);
    Some(total)
}

/// ASCII upper-case letters folded to lower case; other characters kept.
pub open spec fn ascii_lower_char(c: char) -> char {
    if 'A' <= c && c <= 'Z' {
        ((c as u32) + 32) as char
    } else {
        c
    }
}

/// `str::to_ascii_lowercase`.
pub open spec fn ascii_lower(s: Seq<char>) -> Seq<char> {
    s.map_values(|c: char| ascii_lower_char(c))
}

/// `needle` occurs in `hay` at position `i`.
pub open spec fn occurs_at(hay: Seq<char>, needle: Seq<char>, i: int) -> bool {
    0 <= i && i + needle.len() <= hay.len() && hay.subrange(i, i + needle.len()) == needle
}

/// `str::contains` with a string pattern.
pub open spec fn contains_seq(hay: Seq<char>, needle: Seq<char>) -> bool {
    exists|i: int| occurs_at(hay, needle, i)
}

/// `str::starts_with`.
pub open spec fn starts_with_seq(s: Seq<char>, prefix: Seq<char>) -> bool {
    prefix.len() <= s.len() && s.subrange(0, prefix.len() as int) == prefix
}

/// `str::ends_with`.
pub open spec fn ends_with_seq(s: Seq<char>, suffix: Seq<char>) -> bool {
    suffix.len() <= s.len() && s.subrange(s.len() - suffix.len(), s.len() as int) == suffix
}

/// `str::eq_ignore_ascii_case`.
pub open spec fn eq_ignore_ascii_case_seq(a: Seq<char>, b: Seq<char>) -> bool {
    ascii_lower(a) == ascii_lower(b)
}

/// The ASCII digit for `d` in `0..10`.
pub open spec fn digit_char(d: int) -> char {
    (48 + d) as char
}

/// Decimal representation of `n`, no leading zeros (`"0"` for zero).
pub open spec fn dec(n: nat) -> Seq<char>
    decreases n,
{
    if n < 10 {
        seq![digit_char(n as int)]
    } else {
        dec(n / 10).push(digit_char((n % 10) as int))
    }
}

proof fn lemma_dec_len(n: nat)
    ensures
        dec(n).len() >= 1,
        n >= 10 ==> dec(n).len() >= 2,
    decreases n,
{
    if n >= 10 {
        lemma_dec_len(n / 10);
    }
}

proof fn lemma_digit_char_injective(a: int, b: int)
    requires
        0 <= a < 10,
        0 <= b < 10,
        digit_char(a) == digit_char(b),
    ensures
        a == b,
{
    assert(digit_char(a) as int == 48 + a);
    assert(digit_char(b) as int == 48 + b);
}

/// Different numbers have different decimal texts.
pub proof fn lemma_dec_injective(a: nat, b: nat)
    ensures
        dec(a) == dec(b) ==> a == b,
    decreases a,
{
    if dec(a) == dec(b) {
        lemma_dec_len(a);
        lemma_dec_len(b);
        if a < 10 && b < 10 {
            assert(dec(a)[0] == digit_char(a as int));
            assert(dec(b)[0] == digit_char(b as int));
            lemma_digit_char_injective(a as int, b as int);
        } else if a >= 10 && b >= 10 {
            assert(dec(a).drop_last() =~= dec(a / 10));
            assert(dec(b).drop_last() =~= dec(b / 10));
            lemma_dec_injective(a / 10, b / 10);
            assert(dec(a).last() == digit_char((a % 10) as int));
            assert(dec(b).last() == digit_char((b % 10) as int));
            lemma_digit_char_injective((a % 10) as int, (b % 10) as int);
        }
    }
}

/// `k` zero characters.
pub open spec fn zeros(k: int) -> Seq<char> {
    Seq::new(if k > 0 { k as nat } else { 0 }, |i: int| '0')
}

/// `format!("{:0w$}", n)` for a non-negative `n`.
pub open spec fn pad_dec(n: nat, w: nat) -> Seq<char> {
    zeros(w - dec(n).len()) + dec(n)
}

/// With width zero, padding adds nothing.
pub proof fn lemma_pad_dec_zero(n: nat)
    ensures
        pad_dec(n, 0) == dec(n),
{
    assert(zeros(0 - dec(n).len()) =~= Seq::<char>::empty());
    assert(Seq::<char>::empty() + dec(n) =~= dec(n));
}

/// `format!("{:0w$}", n)` for any integer: the sign counts toward the width.
pub open spec fn pad_int(n: int, w: nat) -> Seq<char> {
    if n < 0 {
        seq!['-'] + pad_dec((-n) as nat, if w > 0 { (w - 1) as nat } else { 0 })
    } else {
        pad_dec(n as nat, w)
    }
}

/// `format!("{}", n)`.
pub open spec fn int_text(n: int) -> Seq<char> {
    pad_int(n, 0)
}

/// Every byte is an ASCII digit.
pub open spec fn all_digits(b: Seq<u8>) -> bool {
    forall|i: int| 0 <= i < b.len() ==> 48 <= #[trigger] b[i] && b[i] <= 57
}

/// Value of a run of ASCII digits.
pub open spec fn digits_value(b: Seq<u8>) -> nat
    decreases b.len(),
{
    if b.len() == 0 {
        0
    } else {
        digits_value(b.drop_last()) * 10 + (b.last() - 48) as nat
    }
}

/// Value of a field made of ASCII digits only: at least one digit, no sign.
pub open spec fn digit_field(b: Seq<u8>) -> Option<nat> {
    if b.len() > 0 && all_digits(b) {
        Some(digits_value(b))
    } else {
        None
    }
}

/// Value of an unsigned decimal as `FromStr` for unsigned integers reads it:
/// an optional `+`, then at least one digit and nothing else.
pub open spec fn parse_unsigned(b: Seq<u8>) -> Option<nat> {
    let d = if b.len() > 0 && b[0] == 43 {
        b.drop_first()
    } else {
        b
    };
    if d.len() > 0 && all_digits(d) {
        Some(digits_value(d))
    } else {
        None
    }
}

/// Value of a signed decimal as `FromStr` for signed integers reads it:
/// an optional `+` or `-`, then at least one digit and nothing else.
pub open spec fn parse_signed(b: Seq<u8>) -> Option<int> {
    if b.len() > 0 && b[0] == 45 {
        let d = b.drop_first();
        if d.len() > 0 && all_digits(d) {
            Some(-(digits_value(d) as int))
        } else {
            None
        }
    } else {
        match parse_unsigned(b) {
            Some(v) => Some(v as int),
            None => None,
        }
    }
}

/// `s.parse::<u8>()` succeeds with this value.
pub open spec fn parse_u8(b: Seq<u8>) -> Option<u8> {
    match parse_unsigned(b) {
        Some(v) => if v <= 255 {
            Some(v as u8)
        } else {
            None
        },
        None => None,
    }
}

/// `s.parse::<u32>()` succeeds with this value.
pub open spec fn parse_u32(b: Seq<u8>) -> Option<u32> {
    match parse_unsigned(b) {
        Some(v) => if v <= u32::MAX {
            Some(v as u32)
        } else {
            None
        },
        None => None,
    }
}

/// `s.parse::<i32>()` succeeds with this value.
pub open spec fn parse_i32(b: Seq<u8>) -> Option<i32> {
    match parse_signed(b) {
        Some(v) => if i32::MIN <= v && v <= i32::MAX {
            Some(v as i32)
        } else {
            None
        },
        None => None,
    }
}

/// Appends one character (`String::push`).
#[verifier::external_body]
pub(crate) fn push_char(s: &mut String, c: char)
    ensures
        final(s)@ == old(s)@.push(c),
{
    s.push(c);
}

/// A `String` holding exactly the given characters.
#[verifier::external_body]
pub(crate) fn string_from_chars(v: &[char]) -> (r: String)
    ensures
        r@ == v@,
{
    String::from_iter(v)
}

/// The characters of a `&str`, in order.
pub fn chars_of(s: &str) -> (v: Vec<char>)
    ensures
        v@ == s@,
{
    let mut v: Vec<char> = Vec::new();
    broadcast use vstd::string::axiom_spec_iter;

    for c in it: s.chars()
        invariant
            it.seq() == s@,
            v@.len() == it.index(),
            forall|j: int| 0 <= j < v@.len() ==> v@[j] == s@[j],
    {
        v.push(c);
    }
    assert(v@ =~= s@);
    v
}

/// A `String` copy of a `&str`.
pub fn owned(s: &str) -> (r: String)
    ensures
        r@ == s@,
{
    s.to_owned()
}

/// Appends all characters of `t` to `s`.
pub fn push_str(s: &mut String, t: &str)
    ensures
        final(s)@ == old(s)@ + t@,
{
    let cs = chars_of(t);
    let mut i: usize = 0;
    while i < cs.len()
        invariant
            i <= cs@.len(),
            cs@ == t@,
            s@ == old(s)@ + cs@.take(i as int),
        decreases cs@.len() - i,
    {
        push_char(s, cs[i]);
        assert(cs@.take(i + 1) =~= cs@.take(i as int).push(cs@[i as int]));
        i = i + 1;
    }
    assert(cs@.take(cs@.len() as int) =~= cs@);
}

/// `a` followed by `b`.
pub fn concat2(a: &str, b: &str) -> (r: String)
    ensures
        r@ == a@ + b@,
{
    let mut s = owned(a);
    push_str(&mut s, b);
    s
}

/// `char::is_whitespace`.
pub fn is_ws_exec(c: char) -> (b: bool)
    ensures
        b == is_ws(c),
{
    let u = c as u32;
    (0x9 <= u && u <= 0xD) || u == 0x20 || u == 0x85 || u == 0xA0 || u == 0x1680 || (0x2000 <= u
        && u <= 0x200A) || u == 0x2028 || u == 0x2029 || u == 0x202F || u == 0x205F || u == 0x3000
}

proof fn lemma_trim_start_step(s: Seq<char>, i: int)
    requires
        0 <= i < s.len(),
        is_ws(s[i]),
    ensures
        trim_start_seq(s.subrange(i, s.len() as int)) == trim_start_seq(
            s.subrange(i + 1, s.len() as int),
        ),
{
    assert(s.subrange(i, s.len() as int).drop_first() =~= s.subrange(i + 1, s.len() as int));
}

proof fn lemma_trim_end_step(s: Seq<char>, j: int)
    requires
        0 < j <= s.len(),
        is_ws(s[j - 1]),
    ensures
        trim_end_seq(s.subrange(0, j)) == trim_end_seq(s.subrange(0, j - 1)),
{
    assert(s.subrange(0, j).drop_last() =~= s.subrange(0, j - 1));
}

/// Start and end of the trimmed slice of `v`.
pub fn trim_bounds(v: &Vec<char>) -> (r: (usize, usize))
    ensures
        r.0 <= r.1 <= v@.len(),
        v@.subrange(r.0 as int, r.1 as int) == trim_seq(v@),
{
    let n = v.len();
    let mut i: usize = 0;
    assert(v@.subrange(0, n as int) =~= v@);
    while i < n && is_ws_exec(v[i])
        invariant
            i <= n,
            n == v@.len(),
            trim_start_seq(v@) == trim_start_seq(v@.subrange(i as int, n as int)),
        decreases n - i,
    {
        proof {
            lemma_trim_start_step(v@, i as int);
        }
        i = i + 1;
    }
    let ghost head = v@.subrange(i as int, n as int);
    assert(trim_start_seq(head) == head);
    let mut j: usize = n;
    assert(head.subrange(0, (n - i) as int) =~= head);
    while j > i && is_ws_exec(v[j - 1])
        invariant
            i <= j <= n,
            n == v@.len(),
            head == v@.subrange(i as int, n as int),
            trim_end_seq(head) == trim_end_seq(head.subrange(0, (j - i) as int)),
        decreases j,
    {
        proof {
            lemma_trim_end_step(head, (j - i) as int);
        }
        j = j - 1;
    }
    assert(head.subrange(0, (j - i) as int) =~= v@.subrange(i as int, j as int));
    (i, j)
}

/// `str::trim`, as an owned string.
pub fn trim(s: &str) -> (r: String)
    ensures
        r@ == trim_seq(s@),
{
    let v = chars_of(s);
    let (a, b) = trim_bounds(&v);
    let slice = &v.as_slice()[a..b];
    string_from_chars(slice)
}

/// `str::trim(..).is_empty()`.
pub fn trim_is_empty(s: &str) -> (b: bool)
    ensures
        b == (trim_seq(s@).len() == 0),
{
    let v = chars_of(s);
    let (a, b) = trim_bounds(&v);
    a == b
}

/// ASCII lower-casing of one character.
pub fn ascii_lower_char_exec(c: char) -> (r: char)
    ensures
        r == ascii_lower_char(c),
{
    if 'A' <= c && c <= 'Z' {
        let b = (c as u32) + 32;
        let r = (b as u8) as char;
        assert(r == ascii_lower_char(c));
        r
    } else {
        c
    }
}

/// `str::to_ascii_lowercase`, as characters.
pub fn ascii_lower_vec(v: &Vec<char>) -> (r: Vec<char>)
    ensures
        r@ == ascii_lower(v@),
{
    let mut r: Vec<char> = Vec::new();
    let mut i: usize = 0;
    while i < v.len()
        invariant
            i <= v@.len(),
            r@ == ascii_lower(v@.take(i as int)),
        decreases v@.len() - i,
    {
        r.push(ascii_lower_char_exec(v[i]));
        assert(ascii_lower(v@.take(i + 1)) =~= ascii_lower(v@.take(i as int)).push(
            ascii_lower_char(v@[i as int]),
        ));
        i = i + 1;
    }
    assert(v@.take(v@.len() as int) =~= v@);
    r
}

/// Whether `needle` occurs in `hay` at `i`.
pub fn occurs_at_exec(hay: &Vec<char>, needle: &Vec<char>, i: usize) -> (b: bool)
    ensures
        b == occurs_at(hay@, needle@, i as int),
{
    if i > hay.len() || needle.len() > hay.len() - i {
        return false;
    }
    let mut k: usize = 0;
    while k < needle.len()
        invariant
            k <= needle@.len(),
            i + needle@.len() <= hay@.len(),
            forall|m: int| 0 <= m < k ==> hay@[i + m] == needle@[m],
        decreases needle@.len() - k,
    {
        assert(i + k < hay.len());
        if hay[i + k] != needle[k] {
            assert(hay@.subrange(i as int, i + needle@.len())[k as int] != needle@[k as int]);
            return false;
        }
        k = k + 1;
    }
    assert(hay@.subrange(i as int, i + needle@.len()) =~= needle@);
    true
}

/// `str::contains` over character vectors.
pub fn contains_vec(hay: &Vec<char>, needle: &Vec<char>) -> (b: bool)
    ensures
        b == contains_seq(hay@, needle@),
{
    if needle.len() > hay.len() {
        return false;
    }
    if needle.len() == 0 {
        assert(hay@.subrange(0, 0) =~= needle@);
        assert(occurs_at(hay@, needle@, 0));
        return true;
    }
    let last = hay.len() - needle.len();
    let mut i: usize = 0;
    while i <= last
        invariant
            last == hay@.len() - needle@.len(),
            last < hay.len(),
            forall|m: int| 0 <= m < i ==> !occurs_at(hay@, needle@, m),
        decreases last + 1 - i,
    {
        if occurs_at_exec(hay, needle, i) {
            return true;
        }
        i = i + 1;
    }
    assert forall|m: int| !occurs_at(hay@, needle@, m) by {
        if 0 <= m && m + needle@.len() <= hay@.len() {
            assert(m <= last);
        }
    }
    false
}

/// `str::contains` with a string pattern.
pub fn str_contains(hay: &str, needle: &str) -> (b: bool)
    ensures
        b == contains_seq(hay@, needle@),
{
    contains_vec(&chars_of(hay), &chars_of(needle))
}

/// `str::starts_with` over character vectors.
pub fn starts_with_vec(s: &Vec<char>, prefix: &Vec<char>) -> (b: bool)
    ensures
        b == starts_with_seq(s@, prefix@),
{
    let r = occurs_at_exec(s, prefix, 0);
    assert(r == starts_with_seq(s@, prefix@));
    r
}

/// `str::starts_with`.
pub fn str_starts_with(s: &str, prefix: &str) -> (b: bool)
    ensures
        b == starts_with_seq(s@, prefix@),
{
    starts_with_vec(&chars_of(s), &chars_of(prefix))
}

/// `str::ends_with` over character vectors.
pub fn ends_with_vec(s: &Vec<char>, suffix: &Vec<char>) -> (b: bool)
    ensures
        b == ends_with_seq(s@, suffix@),
{
    if suffix.len() > s.len() {
        return false;
    }
    occurs_at_exec(s, suffix, s.len() - suffix.len())
}

/// `str::ends_with`.
pub fn str_ends_with(s: &str, suffix: &str) -> (b: bool)
    ensures
        b == ends_with_seq(s@, suffix@),
{
    ends_with_vec(&chars_of(s), &chars_of(suffix))
}

/// Equality of two strings by characters.
pub fn str_eq(a: &str, b: &str) -> (r: bool)
    ensures
        r == (a@ == b@),
{
    let x = chars_of(a);
    let y = chars_of(b);
    if x.len() != y.len() {
        assert(x@.len() != y@.len());
        return false;
    }
    let mut i: usize = 0;
    while i < x.len()
        invariant
            x@.len() == y@.len(),
            x@ == a@,
            y@ == b@,
            i <= x@.len(),
            forall|m: int| 0 <= m < i ==> x@[m] == y@[m],
        decreases x@.len() - i,
    {
        if x[i] != y[i] {
            assert(a@[i as int] != b@[i as int]);
            return false;
        }
        i = i + 1;
    }
    assert(x@ =~= y@);
    true
}

/// `str::eq_ignore_ascii_case`.
pub fn str_eq_ignore_ascii_case(a: &str, b: &str) -> (r: bool)
    ensures
        r == eq_ignore_ascii_case_seq(a@, b@),
{
    let x = ascii_lower_vec(&chars_of(a));
    let y = ascii_lower_vec(&chars_of(b));
    let s = string_from_chars(x.as_slice());
    let t = string_from_chars(y.as_slice());
    str_eq(s.as_str(), t.as_str())
}

/// The ASCII digit for `d`.
pub fn digit_exec(d: u64) -> (c: char)
    requires
        d < 10,
    ensures
        c == digit_char(d as int),
{
    let b: u8 = 48 + (d as u8);
    b as char
}

/// Decimal digits of `n`.
pub fn dec_chars(n: u64) -> (v: Vec<char>)
    ensures
        v@ == dec(n as nat),
    decreases n,
{
    if n < 10 {
        let mut v = Vec::new();
        v.push(digit_exec(n));
        assert(v@ =~= dec(n as nat));
        v
    } else {
        let mut v = dec_chars(n / 10);
        v.push(digit_exec(n % 10));
        v
    }
}

/// Appends `format!("{:0w$}", n)`.
pub fn push_padded(s: &mut String, n: u64, w: usize)
    ensures
        final(s)@ == old(s)@ + pad_dec(n as nat, w as nat),
{
    let d = dec_chars(n);
    let mut k: usize = d.len();
    let ghost start = s@;
    while k < w
        invariant
            d@ == dec(n as nat),
            d@.len() <= k <= (if w > d@.len() { w as int } else { d@.len() as int }),
            s@ == start + zeros(k - d@.len()),
        decreases w - k,
    {
        push_char(s, '0');
        assert(zeros(k - d@.len()).push('0') =~= zeros(k + 1 - d@.len()));
        k = k + 1;
    }
    assert(zeros(k - d@.len()) =~= zeros(w - dec(n as nat).len()));
    let mut i: usize = 0;
    let ghost mid = s@;
    while i < d.len()
        invariant
            i <= d@.len(),
            s@ == mid + d@.take(i as int),
        decreases d@.len() - i,
    {
        push_char(s, d[i]);
        assert(d@.take(i + 1) =~= d@.take(i as int).push(d@[i as int]));
        i = i + 1;
    }
    assert(d@.take(d@.len() as int) =~= d@);
    assert(s@ =~= start + pad_dec(n as nat, w as nat));
}

/// Appends `format!("{:0w$}", n)` for a signed `n`.
pub fn push_padded_int(s: &mut String, n: i64, w: usize)
    ensures
        final(s)@ == old(s)@ + pad_int(n as int, w as nat),
{
    if n < 0 {
        push_char(s, '-');
        let m: u64 = (-(n as i128)) as u64;
        let ww: usize = if w > 0 {
            w - 1
        } else {
            0
        };
        let ghost after_sign = s@;
        push_padded(s, m, ww);
        assert(s@ =~= old(s)@ + pad_int(n as int, w as nat));
    } else {
        push_padded(s, n as u64, w);
    }
}

/// Value of a run of ASCII digits, read left to right.
pub fn digits_value_exec(b: &[u8]) -> (v: u64)
    requires
        all_digits(b@),
        b@.len() <= 18,
    ensures
        v == digits_value(b@),
{
    let mut v: u64 = 0;
    let mut i: usize = 0;
    while i < b.len()
        invariant
            i <= b@.len(),
            b@.len() <= 18,
            all_digits(b@),
            v == digits_value(b@.take(i as int)),
            v < pow10(i as nat),
        decreases b@.len() - i,
    {
        assert(b@.take(i + 1).drop_last() =~= b@.take(i as int));
        proof {
            lemma_pow10_bound(i as nat);
        }
        assert(48 <= b@[i as int] <= 57);
        let d = (b[i] - 48) as u64;
        assert(v * 10 + d < pow10(i as nat) * 10) by (nonlinear_arith)
            requires
                v < pow10(i as nat),
                d < 10,
        ;
        v = v * 10 + d;
        i = i + 1;
    }
    assert(b@.take(b@.len() as int) =~= b@);
    v
}

/// `10^k`.
pub open spec fn pow10(k: nat) -> nat
    decreases k,
{
    if k == 0 {
        1
    } else {
        10 * pow10((k - 1) as nat)
    }
}

proof fn lemma_pow10_mono(j: nat, k: nat)
    requires
        j <= k,
    ensures
        pow10(j) <= pow10(k),
    decreases k,
{
    if j < k {
        lemma_pow10_mono(j, (k - 1) as nat);
    }
}

proof fn lemma_pow10_bound(k: nat)
    requires
        k <= 18,
    ensures
        pow10(k) <= 1_000_000_000_000_000_000,
        pow10(k + 1) == 10 * pow10(k),
{
    lemma_pow10_mono(k, 18);
    assert(pow10(18) == 1_000_000_000_000_000_000) by {
        reveal_with_fuel(pow10, 19);
    }
}

/// A run of ASCII digits is worth less than ten to the power of its length.
pub proof fn lemma_digits_value_below(b: Seq<u8>)
    requires
        all_digits(b),
    ensures
        digits_value(b) < pow10(b.len()),
    decreases b.len(),
{
    if b.len() > 0 {
        assert(all_digits(b.drop_last())) by {
            assert forall|i: int| 0 <= i < b.drop_last().len() implies 48 <= #[trigger] b.drop_last()[i]
                && b.drop_last()[i] <= 57 by {
                assert(b.drop_last()[i] == b[i]);
            }
        }
        lemma_digits_value_below(b.drop_last());
        assert(48 <= b[b.len() - 1] <= 57);
    }
}

/// Whether every byte of `b` is an ASCII digit.
pub fn all_digits_exec(b: &[u8]) -> (r: bool)
    ensures
        r == all_digits(b@),
{
    let mut i: usize = 0;
    while i < b.len()
        invariant
            i <= b@.len(),
            forall|m: int| 0 <= m < i ==> 48 <= #[trigger] b@[m] && b@[m] <= 57,
        decreases b@.len() - i,
    {
        if b[i] < 48 || b[i] > 57 {
            return false;
        }
        i = i + 1;
    }
    true
}

/// Reads a field of ASCII digits only (no sign).
pub fn digit_field_exec(b: &[u8]) -> (r: Option<u64>)
    requires
        b@.len() <= 18,
    ensures
        match r {
            Some(v) => digit_field(b@) == Some(v as nat),
            None => digit_field(b@) is None,
        },
{
    if b.len() > 0 && all_digits_exec(b) {
        Some(digits_value_exec(b))
    } else {
        None
    }
}

/// `n` written with exactly `k` decimal digits, leading zeros kept (only
/// the last `k` digits when `n` has more).
pub open spec fn fixed_dec(n: nat, k: nat) -> Seq<char>
    decreases k,
{
    if k == 0 {
        Seq::empty()
    } else {
        fixed_dec(n / 10, (k - 1) as nat).push(digit_char((n % 10) as int))
    }
}

proof fn lemma_digit_char_byte(d: int)
    requires
        0 <= d < 10,
    ensures
        digit_char(d) as u8 == 48 + d,
        '\0' <= digit_char(d) <= '\u{7f}',
{
}

pub proof fn lemma_fixed_dec_len(n: nat, k: nat)
    ensures
        fixed_dec(n, k).len() == k,
    decreases k,
{
    if k > 0 {
        lemma_fixed_dec_len(n / 10, (k - 1) as nat);
    }
}

proof fn lemma_fixed_dec_zero(k: nat)
    ensures
        fixed_dec(0, k) == zeros(k as int),
    decreases k,
{
    if k > 0 {
        lemma_fixed_dec_zero((k - 1) as nat);
        assert(digit_char(0) == '0');
        assert(zeros((k - 1) as int).push('0') =~= zeros(k as int));
    }
}

proof fn lemma_div10_below(n: nat, k: nat)
    requires
        k >= 1,
        n < pow10(k),
    ensures
        n / 10 < pow10((k - 1) as nat),
        pow10(k) == 10 * pow10((k - 1) as nat),
{
    let p = pow10((k - 1) as nat);
    assert(pow10(k) == 10 * p);
    assert(n / 10 < p) by (nonlinear_arith)
        requires
            n < 10 * p,
    ;
}

/// The fixed-width decimal is ASCII, one byte per digit.
pub proof fn lemma_fixed_dec_ascii(n: nat, k: nat)
    ensures
        forall|i: int| 0 <= i < fixed_dec(n, k).len() ==> '\0' <= #[trigger] fixed_dec(n, k)[i] <= '\u{7f}',
    decreases k,
{
    if k > 0 {
        lemma_fixed_dec_ascii(n / 10, (k - 1) as nat);
        lemma_digit_char_byte((n % 10) as int);
        let f1 = fixed_dec(n / 10, (k - 1) as nat);
        assert forall|i: int| 0 <= i < fixed_dec(n, k).len() implies '\0' <= #[trigger] fixed_dec(n, k)[i] <= '\u{7f}' by {
            if i < f1.len() {
                assert(fixed_dec(n, k)[i] == f1[i]);
            }
        }
    }
}

/// The zero-padded decimal of a number that has at most `k` digits is its
/// fixed-width form.
pub proof fn lemma_pad_dec_fixed(n: nat, k: nat)
    requires
        1 <= k,
        n < pow10(k),
    ensures
        pad_dec(n, k) == fixed_dec(n, k),
    decreases k,
{
    lemma_div10_below(n, k);
    if n < 10 {
        lemma_fixed_dec_zero((k - 1) as nat);
        assert(dec(n) == seq![digit_char(n as int)]);
        assert(pad_dec(n, k) =~= fixed_dec(n, k));
    } else {
        if k == 1 {
            assert(pow10(0) == 1);
            assert(false);
        }
        lemma_pad_dec_fixed(n / 10, (k - 1) as nat);
        assert(dec(n) == dec(n / 10).push(digit_char((n % 10) as int)));
        assert(pad_dec(n, k) =~= pad_dec(n / 10, (k - 1) as nat).push(digit_char((n % 10) as int)));
    }
}

/// Bytes spelling the fixed-width decimal of `n` are digits worth `n`.
pub proof fn lemma_fixed_dec_reads(n: nat, k: nat, x: Seq<u8>)
    requires
        n < pow10(k),
        x.len() == k,
        forall|i: int| 0 <= i < k ==> x[i] == #[trigger] fixed_dec(n, k)[i] as u8,
    ensures
        all_digits(x),
        digits_value(x) == n,
    decreases k,
{
    if k == 0 {
        assert(pow10(0) == 1);
    } else {
        lemma_div10_below(n, k);
        lemma_fixed_dec_len(n / 10, (k - 1) as nat);
        let x1 = x.drop_last();
        let f1 = fixed_dec(n / 10, (k - 1) as nat);
        assert forall|i: int| 0 <= i < k - 1 implies x1[i] == #[trigger] f1[i] as u8 by {
            assert(fixed_dec(n, k)[i] == f1[i]);
        }
        lemma_fixed_dec_reads(n / 10, (k - 1) as nat, x1);
        lemma_digit_char_byte((n % 10) as int);
        assert(fixed_dec(n, k)[k - 1] == digit_char((n % 10) as int));
        assert(x[k - 1] == 48 + n % 10);
        assert(x.drop_last() == x1);
        assert(digits_value(x) == digits_value(x1) * 10 + (x.last() - 48) as nat);
        assert((n / 10) * 10 + n % 10 == n) by (nonlinear_arith);
        assert forall|i: int| 0 <= i < x.len() implies 48 <= #[trigger] x[i] && x[i] <= 57 by {
            if i < k - 1 {
                assert(x[i] == x1[i]);
            }
        }
    }
}

/// A run of digits is the fixed-width decimal of its value.
pub proof fn lemma_digits_fixed(x: Seq<u8>)
    requires
        all_digits(x),
    ensures
        digits_value(x) < pow10(x.len()),
        fixed_dec(digits_value(x), x.len()).len() == x.len(),
        forall|i: int| 0 <= i < x.len() ==> #[trigger] fixed_dec(digits_value(x), x.len())[i] as u8 == x[i],
    decreases x.len(),
{
    lemma_digits_value_below(x);
    lemma_fixed_dec_len(digits_value(x), x.len());
    if x.len() > 0 {
        let x1 = x.drop_last();
        assert(all_digits(x1)) by {
            assert forall|i: int| 0 <= i < x1.len() implies 48 <= #[trigger] x1[i] && x1[i] <= 57 by {
                assert(x1[i] == x[i]);
            }
        }
        lemma_digits_fixed(x1);
        let v = digits_value(x);
        let v1 = digits_value(x1);
        let r = (x.last() - 48) as nat;
        assert(48 <= x[x.len() - 1] <= 57);
        assert(v == v1 * 10 + r);
        assert(v / 10 == v1 && v % 10 == r) by (nonlinear_arith)
            requires
                v == v1 * 10 + r,
                r < 10,
        ;
        lemma_digit_char_byte(r as int);
        let f = fixed_dec(v, x.len());
        let f1 = fixed_dec(v1, x1.len());
        assert(f == f1.push(digit_char(r as int)));
        assert forall|i: int| 0 <= i < x.len() implies #[trigger] f[i] as u8 == x[i] by {
            if i < x.len() - 1 {
                assert(f[i] == f1[i]);
                assert(x1[i] == x[i]);
            }
        }
    }
}

/// A digit field of two or four bytes is below 100 or 10000.
pub proof fn lemma_digit_field_bound(b: Seq<u8>)
    ensures
        digit_field(b) matches Some(v) ==> v < pow10(b.len()),
        pow10(2) == 100,
        pow10(4) == 10000,
{
    reveal_with_fuel(pow10, 5);
    if digit_field(b) is Some {
        lemma_digits_value_below(b);
    }
}

/// `parse::<u8>()` on a short byte slice.
pub fn parse_u8_exec(b: &[u8]) -> (r: Option<u8>)
    requires
        b@.len() <= 16,
    ensures
        r == parse_u8(b@),
{
    let d = if b.len() > 0 && b[0] == 43 {
        &b[1..b.len()]
    } else {
        b
    };
    assert(b@.len() > 0 && b@[0] == 43 ==> d@ =~= b@.drop_first());
    if d.len() > 0 && all_digits_exec(d) {
        let v = digits_value_exec(d);
        if v <= 255 {
            Some(v as u8)
        } else {
            None
        }
    } else {
        None
    }
}

/// `parse::<u32>()` on a byte slice of any length.
pub fn parse_u32_exec(b: &[u8]) -> (r: Option<u32>)
    ensures
        r == parse_u32(b@),
{
    let start: usize = if b.len() > 0 && b[0] == 43 { 1 } else { 0 };
    let ghost d = if b@.len() > 0 && b@[0] == 43 { b@.drop_first() } else { b@ };
    assert(d =~= b@.subrange(start as int, b@.len() as int));
    if start >= b.len() {
        return None;
    }
    let mut i: usize = start;
    let mut acc: u64 = 0;
    let mut big: bool = false;
    assert(b@.subrange(start as int, start as int) =~= Seq::<u8>::empty());
    while i < b.len()
        invariant
            start <= i <= b@.len(),
            d == (if b@.len() > 0 && b@[0] == 43 { b@.drop_first() } else { b@ }),
            d =~= b@.subrange(start as int, b@.len() as int),
            all_digits(b@.subrange(start as int, i as int)),
            big <==> digits_value(b@.subrange(start as int, i as int)) > u32::MAX,
            !big ==> acc == digits_value(b@.subrange(start as int, i as int)),
        decreases b@.len() - i,
    {
        let c = b[i];
        if c < 48 || c > 57 {
            assert(d[i - start] == c);
            assert(!all_digits(d));
            assert(parse_unsigned(b@) is None);
            return None;
        }
        assert(b@.subrange(start as int, i + 1).drop_last() =~= b@.subrange(start as int, i as int));
        assert(all_digits(b@.subrange(start as int, i + 1))) by {
            assert forall|k: int| 0 <= k < i + 1 - start implies 48 <= #[trigger] b@.subrange(start as int, i + 1)[k]
                && b@.subrange(start as int, i + 1)[k] <= 57 by {
                if k < i - start {
                    assert(b@.subrange(start as int, i + 1)[k] == b@.subrange(start as int, i as int)[k]);
                }
            }
        }
        if !big {
            acc = acc * 10 + ((c - 48) as u64);
            if acc > 4294967295 {
                big = true;
            }
        }
        i = i + 1;
    }
    if big {
        None
    } else {
        Some(acc as u32)
    }
}

/// `parse::<i32>()` on a short byte slice.
pub fn parse_i32_exec(b: &[u8]) -> (r: Option<i32>)
    requires
        b@.len() <= 16,
    ensures
        r == parse_i32(b@),
{
    if b.len() > 0 && b[0] == 45 {
        let d = &b[1..b.len()];
        assert(d@ =~= b@.drop_first());
        if d.len() > 0 && all_digits_exec(d) {
            let v = digits_value_exec(d);
            if v <= 2147483648 {
                let r: i64 = -(v as i64);
                Some(r as i32)
            } else {
                None
            }
        } else {
            None
        }
    } else {
        let d = if b.len() > 0 && b[0] == 43 {
            &b[1..b.len()]
        } else {
            b
        };
        assert(b@.len() > 0 && b@[0] == 43 ==> d@ =~= b@.drop_first());
        if d.len() > 0 && all_digits_exec(d) {
            let v = digits_value_exec(d);
            if v <= 2147483647 {
                Some(v as i32)
            } else {
                None
            }
        } else {
            None
        }
    }
}

} // verus!
