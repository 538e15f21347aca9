//! Byte strings, UTF-8 text and the small text predicates that the protocol
//! applies to identifiers, names and free text.

use vstd::prelude::*;
use vstd::string::*;
use vstd::utf8::*;

verus! {

/// The number of bytes that `chars` occupies as UTF-8.
pub open spec fn utf8_len(chars: Seq<char>) -> nat {
    encode_utf8(chars).len()
}

/// The number of bytes that one character occupies as UTF-8.
pub open spec fn char_width(c: char) -> nat {
    if (c as u32) < 0x80 {
        1
    } else if (c as u32) < 0x800 {
        2
    } else if (c as u32) < 0x10000 {
        3
    } else {
        4
    }
}

proof fn lemma_encode_scalar_width(c: char)
    ensures
        encode_scalar(c as u32).len() == char_width(c),
{
}

/// UTF-8 length is additive over concatenation.
pub proof fn lemma_utf8_len_concat(a: Seq<char>, b: Seq<char>)
    ensures
        utf8_len(a + b) == utf8_len(a) + utf8_len(b),
    decreases a.len(),
{
    if a.len() == 0 {
        assert(a + b =~= b);
    } else {
        lemma_utf8_len_concat(a.drop_first(), b);
        assert((a + b).drop_first() =~= a.drop_first() + b);
        assert((a + b)[0] == a[0]);
    }
}

/// One more character adds its own width.
pub proof fn lemma_utf8_len_push(a: Seq<char>, c: char)
    ensures
        utf8_len(a.push(c)) == utf8_len(a) + char_width(c),
{
    lemma_utf8_len_concat(a, seq![c]);
    assert(a + seq![c] =~= a.push(c));
    lemma_encode_scalar_width(c);
    reveal_with_fuel(encode_utf8, 2);
    assert(seq![c].drop_first() =~= Seq::<char>::empty());
}

/// A prefix is never longer than the whole.
pub proof fn lemma_utf8_len_take(s: Seq<char>, k: int)
    requires
        0 <= k <= s.len(),
    ensures
        utf8_len(s.take(k)) <= utf8_len(s),
{
    lemma_utf8_len_concat(s.take(k), s.skip(k));
    assert(s.take(k) + s.skip(k) =~= s);
}

/// Text is determined by its UTF-8 bytes.
pub proof fn lemma_utf8_injective(a: Seq<char>, b: Seq<char>)
    requires
        encode_utf8(a) == encode_utf8(b),
    ensures
        a == b,
{
    encode_utf8_decode_utf8(a);
    encode_utf8_decode_utf8(b);
}

/// Compares two byte slices.
pub fn bytes_eq(a: &[u8], b: &[u8]) -> (r: bool)
    ensures
        r == (a@ == b@),
{
    if a.len() != b.len() {
        return false;
    }
    let mut i: usize = 0;
    while i < a.len()
        invariant
            i <= a@.len(),
            a@.len() == b@.len(),
            forall|j: int| 0 <= j < i ==> a@[j] == b@[j],
        decreases a@.len() - i,
    {
        if a[i] != b[i] {
            return false;
        }
        i += 1;
    }
    assert(a@ =~= b@);
    true
}

/// Compares two strings.
pub fn str_eq(a: &str, b: &str) -> (r: bool)
    ensures
        r == (a@ == b@),
{
    let r = bytes_eq(a.as_bytes(), b.as_bytes());
    proof {
        if r {
            lemma_utf8_injective(a@, b@);
        }
    }
    r
}

/// The UTF-8 length of a string.
pub fn byte_len(value: &str) -> (r: usize)
    ensures
        r == utf8_len(value@),
{
    value.as_bytes().len()
}

/// The characters of a string.
pub fn chars_of(value: &str) -> (r: Vec<char>)
    ensures
        r@ == value@,
{
    let mut out: Vec<char> = Vec::new();
    for c in iter: value.chars()
        invariant
            iter.seq() == value@,
            out@ == value@.take(iter.index() as int),
    {
        proof {
            let k = iter.index() as int;
            assert(value@.take(k + 1) =~= value@.take(k).push(value@[k]));
        }
        out.push(c);
    }
    assert(value@.take(value@.len() as int) =~= value@);
    out
}

/// A control character: the code points U+0000 to U+001F and U+007F to U+009F.
pub open spec fn is_control(c: char) -> bool {
    (c as u32) < 0x20 || 0x7f <= (c as u32) <= 0x9f
}

/// True when no character of `s` is a control character.
pub open spec fn control_free(s: Seq<char>) -> bool {
    forall|i: int| 0 <= i < s.len() ==> !is_control(#[trigger] s[i])
}

/// Tells control characters apart.
pub fn char_is_control(c: char) -> (r: bool)
    ensures
        r == is_control(c),
{
    let code: u32 = c as u32;
    code < 0x20 || (0x7f <= code && code <= 0x9f)
}

/// Tells whether a string holds a control character.
pub fn has_control(value: &str) -> (r: bool)
    ensures
        r == !control_free(value@),
{
    let chars = chars_of(value);
    let mut i: usize = 0;
    while i < chars.len()
        invariant
            i <= chars@.len(),
            chars@ == value@,
            forall|j: int| 0 <= j < i ==> !is_control(#[trigger] value@[j]),
        decreases chars@.len() - i,
    {
        if char_is_control(chars[i]) {
            assert(is_control(value@[i as int]));
            return true;
        }
        i += 1;
    }
    false
}

/// A character with the Unicode property White_Space.
pub open spec fn is_whitespace(c: char) -> bool {
    let code = c as u32;
    ||| 0x9 <= code <= 0xd
    ||| code == 0x20
    ||| code == 0x85
    ||| code == 0xa0
    ||| code == 0x1680
    ||| 0x2000 <= code <= 0x200a
    ||| code == 0x2028
    ||| code == 0x2029
    ||| code == 0x202f
    ||| code == 0x205f
    ||| code == 0x3000
}

/// Tells white space apart.
pub fn char_is_whitespace(c: char) -> (r: bool)
    ensures
        r == is_whitespace(c),
{
    let code: u32 = c as u32;
    (0x9 <= code && code <= 0xd) || code == 0x20 || code == 0x85 || code == 0xa0 || code == 0x1680
        || (0x2000 <= code && code <= 0x200a) || code == 0x2028 || code == 0x2029 || code == 0x202f
        || code == 0x205f || code == 0x3000
}

/// True when `s` is empty or white space throughout.
pub open spec fn blank(s: Seq<char>) -> bool {
    forall|i: int| 0 <= i < s.len() ==> is_whitespace(#[trigger] s[i])
}

/// True when `t` is `s` without the white space at its two ends.
pub open spec fn is_trim_of(t: Seq<char>, s: Seq<char>) -> bool {
    if blank(s) {
        t.len() == 0
    } else {
        &&& t.len() > 0
        &&& !is_whitespace(t[0])
        &&& !is_whitespace(t.last())
        &&& exists|a: int, b: int|
            0 <= a < b <= s.len() && t == #[trigger] s.subrange(a, b) && blank(s.take(a)) && blank(
                s.skip(b),
            )
    }
}

/// Tells whether a string is empty or white space throughout.
pub fn is_blank(value: &str) -> (r: bool)
    ensures
        r == blank(value@),
{
    let chars = chars_of(value);
    let mut i: usize = 0;
    while i < chars.len()
        invariant
            i <= chars@.len(),
            chars@ == value@,
            forall|j: int| 0 <= j < i ==> is_whitespace(#[trigger] value@[j]),
        decreases chars@.len() - i,
    {
        if !char_is_whitespace(chars[i]) {
            assert(!is_whitespace(value@[i as int]));
            return false;
        }
        i += 1;
    }
    true
}

/// `s` without the white space at its two ends.
pub open spec fn trimmed(s: Seq<char>) -> Seq<char> {
    choose|t: Seq<char>| is_trim_of(t, s)
}

/// Removes the white space at both ends of a string.
pub fn trim(value: &str) -> (r: String)
    ensures
        is_trim_of(r@, value@),
        r@ == trimmed(value@),
{
    let r = cut_ends(value);
    proof {
        lemma_trim_unique(r@, trimmed(value@), value@);
    }
    r
}

fn cut_ends(value: &str) -> (r: String)
    ensures
        is_trim_of(r@, value@),
{
    let chars = chars_of(value);
    let ghost s = value@;
    let mut a: usize = 0;
    while a < chars.len() && char_is_whitespace(chars[a])
        invariant
            a <= chars@.len(),
            chars@ == s,
            forall|j: int| 0 <= j < a ==> is_whitespace(#[trigger] s[j]),
        decreases chars@.len() - a,
    {
        a += 1;
    }
    if a == chars.len() {
        return String::new();
    }
    assert(!is_whitespace(s[a as int]));
    let mut b: usize = chars.len();
    while b > a + 1 && char_is_whitespace(chars[b - 1])
        invariant
            a < b <= chars@.len(),
            chars@ == s,
            !is_whitespace(s[a as int]),
            forall|j: int| b <= j < s.len() ==> is_whitespace(#[trigger] s[j]),
        decreases b,
    {
        b -= 1;
    }
    let mut out = String::new();
    let mut i: usize = a;
    while i < b
        invariant
            a <= i <= b <= chars@.len(),
            chars@ == s,
            out@ == s.subrange(a as int, i as int),
        decreases b - i,
    {
        proof {
            assert(s.subrange(a as int, i as int + 1) =~= s.subrange(a as int, i as int).push(
                s[i as int],
            ));
        }
        out.push(chars[i]);
        i += 1;
    }
    proof {
        assert(!blank(s));
        assert(out@ == s.subrange(a as int, b as int));
        assert(out@[0] == s[a as int]);
        assert(out@.last() == s[b as int - 1]);
        assert(blank(s.take(a as int)));
        assert(blank(s.skip(b as int)));
    }
    out
}

/// The trimmed text is unique.
pub proof fn lemma_trim_unique(t: Seq<char>, u: Seq<char>, s: Seq<char>)
    requires
        is_trim_of(t, s),
        is_trim_of(u, s),
    ensures
        t == u,
{
    if blank(s) {
        assert(t =~= u);
    } else {
        let (a, b) = choose|a: int, b: int|
            0 <= a < b <= s.len() && t == #[trigger] s.subrange(a, b) && blank(s.take(a)) && blank(
                s.skip(b),
            );
        let (c, d) = choose|c: int, d: int|
            0 <= c < d <= s.len() && u == #[trigger] s.subrange(c, d) && blank(s.take(c)) && blank(
                s.skip(d),
            );
        assert(t[0] == s[a]);
        assert(u[0] == s[c]);
        assert(t.last() == s[b - 1]);
        assert(u.last() == s[d - 1]);
        if a < c {
            assert(s.take(c)[a] == s[a]);
        }
        if c < a {
            assert(s.take(a)[c] == s[c]);
        }
        if b < d {
            assert(s.skip(b)[d - 1 - b] == s[d - 1]);
        }
        if d < b {
            assert(s.skip(d)[b - 1 - d] == s[b - 1]);
        }
    }
}

/// True when `t` is the longest prefix of `s`, in whole characters, that takes
/// at most `maximum` bytes of UTF-8.
pub open spec fn is_truncation(t: Seq<char>, s: Seq<char>, maximum: nat) -> bool {
    &&& t.is_prefix_of(s)
    &&& utf8_len(t) <= maximum
    &&& t.len() < s.len() ==> utf8_len(s.take(t.len() as int + 1)) > maximum
}

/// The longest prefix of `s`, in whole characters, of at most `maximum` bytes.
pub open spec fn truncated(s: Seq<char>, maximum: nat) -> Seq<char> {
    choose|t: Seq<char>| is_truncation(t, s, maximum)
}

proof fn lemma_truncation_exists(s: Seq<char>, maximum: nat, k: int)
    requires
        0 <= k <= s.len(),
        k == s.len() || utf8_len(s.take(k + 1)) > maximum,
    ensures
        exists|t: Seq<char>| is_truncation(t, s, maximum),
    decreases k,
{
    if utf8_len(s.take(k)) <= maximum {
        assert(is_truncation(s.take(k), s, maximum));
    } else {
        assert(s.take(0) =~= Seq::<char>::empty());
        lemma_truncation_exists(s, maximum, k - 1);
    }
}

/// Every text has a truncation to every size.
pub proof fn lemma_truncated(s: Seq<char>, maximum: nat)
    ensures
        is_truncation(truncated(s, maximum), s, maximum),
{
    lemma_truncation_exists(s, maximum, s.len() as int);
}

/// Cuts a string down to the longest prefix, in whole characters, of at most
/// `maximum` bytes.
pub fn truncate_utf8(value: String, maximum: usize) -> (r: String)
    ensures
        is_truncation(r@, value@, maximum as nat),
        r@ == truncated(value@, maximum as nat),
{
    let ghost s = value@;
    let r = cut_utf8(value, maximum);
    proof {
        lemma_truncation_unique(r@, truncated(s, maximum as nat), s, maximum as nat);
    }
    r
}

fn cut_utf8(value: String, maximum: usize) -> (r: String)
    ensures
        is_truncation(r@, value@, maximum as nat),
{
    if byte_len(value.as_str()) <= maximum {
        return value;
    }
    let chars = chars_of(value.as_str());
    let ghost s = value@;
    let mut out = String::new();
    let mut used: usize = 0;
    let mut i: usize = 0;
    while i < chars.len()
        invariant
            i <= chars@.len(),
            chars@ == s,
            s == value@,
            out@ == s.take(i as int),
            used == utf8_len(out@),
            used <= maximum,
        decreases chars@.len() - i,
    {
        let code: u32 = chars[i] as u32;
        let width: usize = if code < 0x80 {
            1
        } else if code < 0x800 {
            2
        } else if code < 0x10000 {
            3
        } else {
            4
        };
        proof {
            assert(s.take(i as int + 1) =~= s.take(i as int).push(s[i as int]));
            lemma_utf8_len_push(s.take(i as int), s[i as int]);
        }
        if width > maximum - used {
            return out;
        }
        out.push(chars[i]);
        used += width;
        i += 1;
    }
    assert(s.take(i as int) =~= s);
    out
}

/// Truncation is a function of its inputs.
pub proof fn lemma_truncation_unique(t: Seq<char>, u: Seq<char>, s: Seq<char>, maximum: nat)
    requires
        is_truncation(t, s, maximum),
        is_truncation(u, s, maximum),
    ensures
        t == u,
{
    assert(t =~= s.take(t.len() as int));
    assert(u =~= s.take(u.len() as int));
    if t.len() < u.len() {
        lemma_utf8_len_take(u, t.len() as int + 1);
        assert(u.take(t.len() as int + 1) =~= s.take(t.len() as int + 1));
    }
    if u.len() < t.len() {
        lemma_utf8_len_take(t, u.len() as int + 1);
        assert(t.take(u.len() as int + 1) =~= s.take(u.len() as int + 1));
    }
}

/// Text that already fits is kept whole; in particular a second truncation to
/// the same limit changes nothing.
pub proof fn lemma_truncation_idempotent(t: Seq<char>, s: Seq<char>, maximum: nat)
    requires
        is_truncation(t, s, maximum),
    ensures
        is_truncation(t, t, maximum),
        utf8_len(s) <= maximum ==> t == s,
{
    assert(t =~= s.take(t.len() as int));
    if utf8_len(s) <= maximum && t.len() < s.len() {
        lemma_utf8_len_take(s, t.len() as int + 1);
    }
}

/// `s` with each control character replaced by a space.
pub open spec fn controls_as_spaces(s: Seq<char>) -> Seq<char> {
    s.map_values(|c: char| if is_control(c) { ' ' } else { c })
}

/// `s` with spaces for control characters, cut down to `maximum` bytes.
pub open spec fn sanitized(s: Seq<char>, maximum: nat) -> Seq<char> {
    truncated(controls_as_spaces(s), maximum)
}

/// Replaces control characters by spaces and cuts the text down to `maximum`
/// bytes.
pub fn sanitize_text(value: String, maximum: usize) -> (r: String)
    ensures
        is_truncation(r@, controls_as_spaces(value@), maximum as nat),
        r@ == sanitized(value@, maximum as nat),
{
    let chars = chars_of(value.as_str());
    let ghost s = value@;
    let mut out = String::new();
    let mut i: usize = 0;
    while i < chars.len()
        invariant
            i <= chars@.len(),
            chars@ == s,
            s == value@,
            out@ == controls_as_spaces(s).take(i as int),
        decreases chars@.len() - i,
    {
        proof {
            assert(controls_as_spaces(s).take(i as int + 1) =~= controls_as_spaces(s).take(
                i as int,
            ).push(controls_as_spaces(s)[i as int]));
        }
        if char_is_control(chars[i]) {
            out.push(' ');
        } else {
            out.push(chars[i]);
        }
        i += 1;
    }
    assert(controls_as_spaces(s).take(s.len() as int) =~= controls_as_spaces(s));
    truncate_utf8(out, maximum)
}

/// Sanitised text holds no control character and fits, and sanitising it again
/// changes nothing.
pub proof fn lemma_sanitized(t: Seq<char>, s: Seq<char>, maximum: nat)
    requires
        is_truncation(t, controls_as_spaces(s), maximum),
    ensures
        control_free(t),
        utf8_len(t) <= maximum,
        is_truncation(t, controls_as_spaces(t), maximum),
{
    let c = controls_as_spaces(s);
    assert forall|i: int| 0 <= i < t.len() implies !is_control(#[trigger] t[i]) by {
        assert(t[i] == c[i]);
    }
    assert(controls_as_spaces(t) =~= t);
}

/// An ASCII hexadecimal digit.
pub open spec fn is_hex_digit(c: char) -> bool {
    ||| '0' <= c <= '9'
    ||| 'a' <= c <= 'f'
    ||| 'A' <= c <= 'F'
}

/// True when every character of `s` is a hexadecimal digit.
pub open spec fn all_hex(s: Seq<char>) -> bool {
    forall|i: int| 0 <= i < s.len() ==> is_hex_digit(#[trigger] s[i])
}

/// Tells whether a string consists of hexadecimal digits.
pub fn is_all_hex(value: &str) -> (r: bool)
    ensures
        r == all_hex(value@),
{
    let chars = chars_of(value);
    let mut i: usize = 0;
    while i < chars.len()
        invariant
            i <= chars@.len(),
            chars@ == value@,
            forall|j: int| 0 <= j < i ==> is_hex_digit(#[trigger] value@[j]),
        decreases chars@.len() - i,
    {
        let c = chars[i];
        if !(('0' <= c && c <= '9') || ('a' <= c && c <= 'f') || ('A' <= c && c <= 'F')) {
            assert(!is_hex_digit(value@[i as int]));
            return false;
        }
        i += 1;
    }
    true
}

/// The lower-case hexadecimal digit for a value below 16.
pub open spec fn hex_digit(value: nat) -> char {
    if value < 10 {
        (('0' as u32) + value) as char
    } else {
        (('a' as u32) + (value - 10)) as char
    }
}

/// The lowest `width` hexadecimal digits of `value`, most significant first.
pub open spec fn hex_digits(value: nat, width: nat) -> Seq<char>
    decreases width,
{
    if width == 0 {
        Seq::empty()
    } else {
        hex_digits(value / 16, (width - 1) as nat).push(hex_digit(value % 16))
    }
}

fn digit_char(value: u8) -> (r: char)
    requires
        value < 16,
    ensures
        r == hex_digit(value as nat),
{
    match value {
        0 => '0',
        1 => '1',
        2 => '2',
        3 => '3',
        4 => '4',
        5 => '5',
        6 => '6',
        7 => '7',
        8 => '8',
        9 => '9',
        10 => 'a',
        11 => 'b',
        12 => 'c',
        13 => 'd',
        14 => 'e',
        _ => 'f',
    }
}

/// The lowest `width` hexadecimal digits of `value` as text.
pub fn hex_text(value: u128, width: usize) -> (r: String)
    ensures
        r@ == hex_digits(value as nat, width as nat),
{
    let mut reversed: Vec<char> = Vec::new();
    let mut rest: u128 = value;
    let mut i: usize = 0;
    while i < width
        invariant
            i <= width,
            reversed@.len() == i,
            hex_digits(value as nat, width as nat) == hex_digits(
                rest as nat,
                (width - i) as nat,
            ) + reversed@.reverse(),
        decreases width - i,
    {
        let digit: u8 = (rest % 16) as u8;
        let ghost before = reversed@;
        reversed.push(digit_char(digit));
        proof {
            let n = (width - i) as nat;
            assert(hex_digits(rest as nat, n) == hex_digits(rest as nat / 16, (n - 1) as nat).push(
                hex_digit(rest as nat % 16),
            ));
            assert(reversed@.reverse() =~= seq![hex_digit(rest as nat % 16)] + before.reverse());
            assert(hex_digits(rest as nat / 16, (n - 1) as nat) + reversed@.reverse() =~= hex_digits(
                rest as nat,
                n,
            ) + before.reverse());
        }
        rest = rest / 16;
        i += 1;
    }
    let mut out = String::new();
    let ghost digits = reversed@.reverse();
    assert(hex_digits(value as nat, width as nat) =~= digits);
    let mut k: usize = reversed.len();
    while k > 0
        invariant
            k <= reversed@.len(),
            digits == reversed@.reverse(),
            out@ == digits.take(reversed@.len() - k),
        decreases k,
    {
        proof {
            let done = reversed@.len() - k;
            assert(digits.take(done + 1) =~= digits.take(done).push(digits[done]));
        }
        out.push(reversed[k - 1]);
        k -= 1;
    }
    assert(digits.take(reversed@.len() as int) =~= digits);
    out
}

proof fn lemma_hex_digit(value: nat)
    requires
        value < 16,
    ensures
        is_hex_digit(hex_digit(value)),
{
}

/// Hexadecimal text has as many characters as asked for, all of them digits.
pub proof fn lemma_hex_digits(value: nat, width: nat)
    ensures
        hex_digits(value, width).len() == width,
        all_hex(hex_digits(value, width)),
    decreases width,
{
    if width > 0 {
        lemma_hex_digits(value / 16, (width - 1) as nat);
        lemma_hex_digit(value % 16);
    }
}

/// A number in decimal notation.
pub open spec fn decimal_digits(value: nat) -> Seq<char>
    decreases value,
{
    if value < 10 {
        seq![hex_digit(value)]
    } else {
        decimal_digits(value / 10).push(hex_digit(value % 10))
    }
}

/// A number in decimal notation.
pub fn decimal_text(value: u64) -> (r: String)
    ensures
        r@ == decimal_digits(value as nat),
    decreases value,
{
    let mut out = if value < 10 {
        String::new()
    } else {
        decimal_text(value / 10)
    };
    out.push(digit_char((value % 10) as u8));
    proof {
        assert(out@ =~= decimal_digits(value as nat));
    }
    out
}

/// The lower-case hexadecimal text of a byte string, two digits for each byte.
pub open spec fn hex_of_bytes(bytes: Seq<u8>) -> Seq<char>
    decreases bytes.len(),
{
    if bytes.len() == 0 {
        Seq::empty()
    } else {
        hex_of_bytes(bytes.drop_last()) + hex_digits(bytes.last() as nat, 2)
    }
}

/// The lower-case hexadecimal text of a byte string.
pub fn hex_bytes(bytes: &[u8]) -> (r: String)
    ensures
        r@ == hex_of_bytes(bytes@),
{
    let mut out = String::new();
    let mut i: usize = 0;
    while i < bytes.len()
        invariant
            i <= bytes@.len(),
            out@ == hex_of_bytes(bytes@.take(i as int)),
        decreases bytes@.len() - i,
    {
        let byte: u8 = bytes[i];
        let pair = hex_text(byte as u128, 2);
        out.append(pair.as_str());
        proof {
            let next = bytes@.take(i as int + 1);
            assert(next.drop_last() =~= bytes@.take(i as int));
        }
        i += 1;
    }
    assert(bytes@.take(bytes@.len() as int) =~= bytes@);
    out
}

/// The hexadecimal text of a byte string has two digits for each byte.
pub proof fn lemma_hex_of_bytes(bytes: Seq<u8>)
    ensures
        hex_of_bytes(bytes).len() == 2 * bytes.len(),
        all_hex(hex_of_bytes(bytes)),
    decreases bytes.len(),
{
    if bytes.len() > 0 {
        lemma_hex_of_bytes(bytes.drop_last());
        lemma_hex_digits(bytes.last() as nat, 2);
    }
}

/// The parts of `s` between separators. There is one more than there are
/// separators.
pub open spec fn split(s: Seq<char>, separator: char) -> Seq<Seq<char>>
    decreases s.len(),
{
    if s.len() == 0 {
        seq![Seq::<char>::empty()]
    } else {
        let rest = split(s.drop_last(), separator);
        if s.last() == separator {
            rest.push(Seq::empty())
        } else {
            rest.update(rest.len() - 1, rest.last().push(s.last()))
        }
    }
}

/// A text without separators is one part.
pub proof fn lemma_split_plain(s: Seq<char>, separator: char)
    requires
        forall|i: int| 0 <= i < s.len() ==> s[i] != separator,
    ensures
        split(s, separator) == seq![s],
    decreases s.len(),
{
    if s.len() == 0 {
        assert(s =~= Seq::<char>::empty());
    } else {
        lemma_split_plain(s.drop_last(), separator);
        assert(s.drop_last().push(s.last()) =~= s);
        assert(seq![s.drop_last()].update(0, s) =~= seq![s]);
    }
}

/// A separator and a text without separators add one part.
pub proof fn lemma_split_tail(a: Seq<char>, b: Seq<char>, separator: char)
    requires
        forall|i: int| 0 <= i < b.len() ==> b[i] != separator,
    ensures
        split(a.push(separator) + b, separator) == split(a, separator).push(b),
    decreases b.len(),
{
    let s = a.push(separator) + b;
    if b.len() == 0 {
        assert(s =~= a.push(separator));
        assert(s.drop_last() =~= a);
        assert(b =~= Seq::<char>::empty());
    } else {
        lemma_split_tail(a, b.drop_last(), separator);
        assert(s.drop_last() =~= a.push(separator) + b.drop_last());
        assert(b.drop_last().push(b.last()) =~= b);
        let parts = split(a, separator);
        assert(parts.push(b.drop_last()).update(parts.len() as int, b) =~= parts.push(b));
    }
}

/// The texts of a list.
pub open spec fn texts(list: Seq<String>) -> Seq<Seq<char>> {
    list.map_values(|s: String| s@)
}

/// Splits a string at a separator.
pub fn split_text(value: &str, separator: char) -> (r: Vec<String>)
    ensures
        texts(r@) == split(value@, separator),
{
    let chars = chars_of(value);
    let ghost s = value@;
    let mut parts: Vec<String> = Vec::new();
    let mut part = String::new();
    let mut i: usize = 0;
    proof {
        assert(texts(parts@).push(part@) =~= seq![Seq::<char>::empty()]);
    }
    while i < chars.len()
        invariant
            i <= chars@.len(),
            chars@ == s,
            s == value@,
            texts(parts@).push(part@) == split(s.take(i as int), separator),
        decreases chars@.len() - i,
    {
        let ghost before = texts(parts@);
        let ghost open = part@;
        proof {
            assert(s.take(i as int + 1).drop_last() =~= s.take(i as int));
            assert(s.take(i as int + 1).last() == s[i as int]);
        }
        if chars[i] == separator {
            parts.push(part);
            part = String::new();
            proof {
                assert(texts(parts@) =~= before.push(open));
                assert(texts(parts@).push(part@) =~= before.push(open).push(Seq::empty()));
            }
        } else {
            part.push(chars[i]);
            proof {
                let rest = before.push(open);
                assert(before.push(part@) =~= rest.update(
                    rest.len() - 1,
                    rest.last().push(s[i as int]),
                ));
            }
        }
        i += 1;
    }
    let ghost before = texts(parts@);
    let ghost open = part@;
    parts.push(part);
    proof {
        assert(s.take(s.len() as int) =~= s);
        assert(texts(parts@) =~= before.push(open));
    }
    parts
}

/// True when `a` comes before `b` in the order of bytes.
pub open spec fn bytes_less(a: Seq<u8>, b: Seq<u8>) -> bool
    decreases a.len(),
{
    if b.len() == 0 {
        false
    } else if a.len() == 0 {
        true
    } else if a[0] != b[0] {
        a[0] < b[0]
    } else {
        bytes_less(a.drop_first(), b.drop_first())
    }
}

/// True when `a` comes before `b` in the order of texts, which is that of their
/// UTF-8 bytes.
pub open spec fn text_less(a: Seq<char>, b: Seq<char>) -> bool {
    bytes_less(encode_utf8(a), encode_utf8(b))
}

/// Tells whether one text comes before another.
pub fn str_less(a: &str, b: &str) -> (r: bool)
    ensures
        r == text_less(a@, b@),
{
    let x = a.as_bytes();
    let y = b.as_bytes();
    let mut i: usize = 0;
    proof {
        assert(x@.skip(0) =~= x@);
        assert(y@.skip(0) =~= y@);
    }
    while i < x.len() && i < y.len()
        invariant
            i <= x@.len(),
            i <= y@.len(),
            x@ == encode_utf8(a@),
            y@ == encode_utf8(b@),
            bytes_less(x@, y@) == bytes_less(x@.skip(i as int), y@.skip(i as int)),
        decreases x@.len() - i,
    {
        if x[i] != y[i] {
            return x[i] < y[i];
        }
        proof {
            assert(x@.skip(i as int).drop_first() =~= x@.skip(i as int + 1));
            assert(y@.skip(i as int).drop_first() =~= y@.skip(i as int + 1));
        }
        i += 1;
    }
    i < y.len()
}

proof fn lemma_bytes_less_irreflexive(a: Seq<u8>)
    ensures
        !bytes_less(a, a),
    decreases a.len(),
{
    if a.len() > 0 {
        lemma_bytes_less_irreflexive(a.drop_first());
    }
}

proof fn lemma_bytes_less_transitive(a: Seq<u8>, b: Seq<u8>, c: Seq<u8>)
    requires
        bytes_less(a, b),
        bytes_less(b, c),
    ensures
        bytes_less(a, c),
    decreases a.len(),
{
    if a.len() > 0 && b.len() > 0 && c.len() > 0 && a[0] == b[0] && b[0] == c[0] {
        lemma_bytes_less_transitive(a.drop_first(), b.drop_first(), c.drop_first());
    }
}

proof fn lemma_bytes_less_total(a: Seq<u8>, b: Seq<u8>)
    ensures
        a == b || bytes_less(a, b) || bytes_less(b, a),
    decreases a.len(),
{
    if a.len() > 0 && b.len() > 0 && a[0] == b[0] {
        lemma_bytes_less_total(a.drop_first(), b.drop_first());
        if a.drop_first() == b.drop_first() {
            assert(a =~= seq![a[0]] + a.drop_first());
            assert(b =~= seq![b[0]] + b.drop_first());
        }
    } else if a.len() == 0 && b.len() == 0 {
        assert(a =~= b);
    }
}

/// No text comes before itself.
pub proof fn lemma_text_less_irreflexive(a: Seq<char>)
    ensures
        !text_less(a, a),
{
    lemma_bytes_less_irreflexive(encode_utf8(a));
}

/// What comes before something comes before all that follows it.
pub proof fn lemma_text_less_transitive(a: Seq<char>, b: Seq<char>, c: Seq<char>)
    requires
        text_less(a, b),
        text_less(b, c),
    ensures
        text_less(a, c),
{
    lemma_bytes_less_transitive(encode_utf8(a), encode_utf8(b), encode_utf8(c));
}

/// Of two different texts one comes before the other.
pub proof fn lemma_text_less_total(a: Seq<char>, b: Seq<char>)
    ensures
        a == b || text_less(a, b) || text_less(b, a),
{
    lemma_bytes_less_total(encode_utf8(a), encode_utf8(b));
    if encode_utf8(a) == encode_utf8(b) {
        lemma_utf8_injective(a, b);
    }
}

/// The bytes of all texts.
pub open spec fn texts_bytes(list: Seq<Seq<char>>) -> nat
    decreases list.len(),
{
    if list.len() == 0 {
        0
    } else {
        texts_bytes(list.drop_last()) + utf8_len(list.last())
    }
}

/// True when texts stand in their order, none twice.
pub open spec fn sorted_texts(list: Seq<Seq<char>>) -> bool {
    forall|i: int, j: int|
        0 <= i < j < list.len() ==> text_less(#[trigger] list[i], #[trigger] list[j])
}

/// The list with one more text at its place.
pub open spec fn with_text(list: Seq<Seq<char>>, text: Seq<char>) -> Seq<Seq<char>>
    decreases list.len(),
{
    if list.len() > 0 && text_less(text, list.last()) {
        with_text(list.drop_last(), text).push(list.last())
    } else {
        list.push(text)
    }
}

/// One more text keeps the order, is found in the list, and adds its bytes.
pub proof fn lemma_with_text(list: Seq<Seq<char>>, text: Seq<char>)
    ensures
        with_text(list, text).len() == list.len() + 1,
        texts_bytes(with_text(list, text)) == texts_bytes(list) + utf8_len(text),
        forall|x: Seq<char>| #[trigger]
            with_text(list, text).contains(x) <==> x == text || list.contains(x),
        sorted_texts(list) && !list.contains(text) ==> sorted_texts(with_text(list, text)),
    decreases list.len(),
{
    let longer = with_text(list, text);
    if list.len() > 0 && text_less(text, list.last()) {
        let rest = list.drop_last();
        lemma_with_text(rest, text);
        let inner = with_text(rest, text);
        assert(longer.drop_last() =~= inner);
        assert forall|x: Seq<char>| #[trigger] longer.contains(x) <==> x == text || list.contains(
            x,
        ) by {
            if longer.contains(x) {
                let i = choose|i: int| 0 <= i < longer.len() && longer[i] == x;
                if i < inner.len() {
                    assert(inner[i] == x);
                    assert(inner.contains(x));
                    if x != text {
                        let j = choose|j: int| 0 <= j < rest.len() && rest[j] == x;
                        assert(list[j] == x);
                    }
                } else {
                    assert(list[list.len() - 1] == x);
                }
            }
            if x == text || list.contains(x) {
                if list.contains(x) && x != text {
                    let j = choose|j: int| 0 <= j < list.len() && list[j] == x;
                    if j < rest.len() {
                        assert(rest[j] == x);
                        assert(inner.contains(x));
                    } else {
                        assert(longer[inner.len() as int] == x);
                    }
                } else {
                    assert(inner.contains(x));
                }
                if inner.contains(x) {
                    let i = choose|i: int| 0 <= i < inner.len() && inner[i] == x;
                    assert(longer[i] == x);
                }
            }
        }
        if sorted_texts(list) && !list.contains(text) {
            assert(!rest.contains(text)) by {
                if rest.contains(text) {
                    let j = choose|j: int| 0 <= j < rest.len() && rest[j] == text;
                    assert(list[j] == text);
                }
            }
            assert(sorted_texts(inner));
            assert forall|i: int, j: int| 0 <= i < j < longer.len() implies text_less(
                #[trigger] longer[i],
                #[trigger] longer[j],
            ) by {
                if j < inner.len() {
                    assert(text_less(inner[i], inner[j]));
                } else {
                    assert(inner.contains(inner[i]));
                    if inner[i] != text {
                        let k = choose|k: int| 0 <= k < rest.len() && rest[k] == inner[i];
                        assert(text_less(list[k], list[list.len() - 1]));
                    }
                }
            }
        }
    } else {
        assert(longer.drop_last() =~= list);
        assert forall|x: Seq<char>| #[trigger] longer.contains(x) <==> x == text || list.contains(
            x,
        ) by {
            if longer.contains(x) {
                let i = choose|i: int| 0 <= i < longer.len() && longer[i] == x;
                if i < list.len() {
                    assert(list[i] == x);
                }
            }
            if list.contains(x) {
                let i = choose|i: int| 0 <= i < list.len() && list[i] == x;
                assert(longer[i] == x);
            }
            assert(longer[list.len() as int] == text);
        }
        if sorted_texts(list) && !list.contains(text) {
            assert forall|i: int, j: int| 0 <= i < j < longer.len() implies text_less(
                #[trigger] longer[i],
                #[trigger] longer[j],
            ) by {
                if j < list.len() {
                    assert(text_less(list[i], list[j]));
                } else {
                    let last = list.last();
                    assert(list[list.len() - 1] == last);
                    lemma_text_less_total(text, last);
                    assert(text_less(last, text));
                    if i < list.len() - 1 {
                        assert(text_less(list[i], list[list.len() - 1]));
                        lemma_text_less_transitive(list[i], last, text);
                    }
                }
            }
        }
    }
}

/// Puts one more text at its place in a list.
pub fn insert_text(list: &mut Vec<String>, text: String)
    ensures
        texts(final(list)@) == with_text(texts(old(list)@), text@),
{
    let ghost all = texts(list@);
    let ghost added = text@;
    let mut i: usize = list.len();
    proof {
        assert(all.take(all.len() as int) =~= all);
        assert(with_text(all, added) + all.skip(all.len() as int) =~= with_text(all, added));
    }
    while i > 0 && str_less(text.as_str(), list[i - 1].as_str())
        invariant
            i <= list@.len(),
            texts(list@) == all,
            text@ == added,
            with_text(all, added) == with_text(all.take(i as int), added) + all.skip(i as int),
        decreases i,
    {
        proof {
            let shorter = all.take(i as int - 1);
            assert(all.take(i as int).drop_last() =~= shorter);
            assert(all.take(i as int).last() == all[i as int - 1]);
            assert(all[i as int - 1] == list@[i as int - 1]@);
            assert(with_text(shorter, added).push(all[i as int - 1]) + all.skip(i as int)
                =~= with_text(shorter, added) + all.skip(i as int - 1));
        }
        i -= 1;
    }
    proof {
        if i > 0 {
            assert(all.take(i as int).last() == all[i as int - 1]);
            assert(all[i as int - 1] == list@[i as int - 1]@);
        }
        assert(with_text(all.take(i as int), added) == all.take(i as int).push(added));
    }
    list.insert(i, text);
    assert(texts(list@) =~= all.take(i as int).push(added) + all.skip(i as int));
}

/// Tells whether a list holds a text.
pub fn holds_text(list: &Vec<String>, text: &str) -> (r: bool)
    ensures
        r == texts(list@).contains(text@),
{
    let mut i: usize = 0;
    while i < list.len()
        invariant
            i <= list@.len(),
            forall|j: int| 0 <= j < i ==> #[trigger] list@[j]@ != text@,
        decreases list@.len() - i,
    {
        if str_eq(list[i].as_str(), text) {
            assert(texts(list@)[i as int] == text@);
            return true;
        }
        i += 1;
    }
    proof {
        if texts(list@).contains(text@) {
            let j = choose|j: int| 0 <= j < texts(list@).len() && texts(list@)[j] == text@;
            assert(list@[j]@ == text@);
        }
    }
    false
}

proof fn lemma_encode_concat(a: Seq<char>, b: Seq<char>)
    ensures
        encode_utf8(a + b) == encode_utf8(a) + encode_utf8(b),
    decreases a.len(),
{
    if a.len() == 0 {
        assert(a + b =~= b);
        assert(encode_utf8(a) + encode_utf8(b) =~= encode_utf8(b));
    } else {
        lemma_encode_concat(a.drop_first(), b);
        assert((a + b).drop_first() =~= a.drop_first() + b);
        assert((a + b)[0] == a[0]);
        assert(encode_utf8(a + b) =~= encode_utf8(a) + encode_utf8(b));
    }
}

/// Byte strings are ordered by the first byte in which they differ, the smaller
/// one first; a beginning comes before the whole.
pub proof fn lemma_bytes_less_by_first_difference(
    common: Seq<u8>,
    x: u8,
    y: u8,
    a: Seq<u8>,
    b: Seq<u8>,
)
    requires
        x < y,
    ensures
        bytes_less(common + seq![x] + a, common + seq![y] + b),
        !bytes_less(common + seq![y] + b, common + seq![x] + a),
        bytes_less(common, common + seq![x] + a),
        !bytes_less(common + seq![x] + a, common),
    decreases common.len(),
{
    let (s, t) = (common + seq![x] + a, common + seq![y] + b);
    if common.len() > 0 {
        let rest = common.drop_first();
        lemma_bytes_less_by_first_difference(rest, x, y, a, b);
        assert(s.drop_first() =~= rest + seq![x] + a);
        assert(t.drop_first() =~= rest + seq![y] + b);
        assert(s[0] == common[0] && t[0] == common[0]);
    } else {
        assert(s[0] == x && t[0] == y);
    }
}

/// A text comes before every longer one that begins with it, and two texts are
/// ordered as their UTF-8 bytes are.
pub proof fn lemma_text_order(a: Seq<char>, b: Seq<char>, tail: Seq<char>)
    requires
        tail.len() > 0,
    ensures
        text_less(a, a + tail),
        !text_less(a + tail, a),
        text_less(a, b) == bytes_less(encode_utf8(a), encode_utf8(b)),
{
    lemma_encode_concat(a, tail);
    let (x, y) = (encode_utf8(a), encode_utf8(tail));
    lemma_utf8_len_take(tail, 1);
    lemma_utf8_len_push(Seq::empty(), tail[0]);
    assert(tail.take(1) =~= Seq::<char>::empty().push(tail[0]));
    assert(y.len() > 0);
    lemma_begins_before(x, y);
}

proof fn lemma_begins_before(x: Seq<u8>, y: Seq<u8>)
    requires
        y.len() > 0,
    ensures
        bytes_less(x, x + y),
        !bytes_less(x + y, x),
    decreases x.len(),
{
    if x.len() > 0 {
        lemma_begins_before(x.drop_first(), y);
        assert((x + y).drop_first() =~= x.drop_first() + y);
        assert((x + y)[0] == x[0]);
    }
}

/// Text that is short enough is not cut, and clean text that is short enough is
/// told as it is.
pub proof fn lemma_short_text_is_kept(s: Seq<char>, maximum: nat)
    requires
        utf8_len(s) <= maximum,
    ensures
        truncated(s, maximum) == s,
        (forall|i: int| 0 <= i < s.len() ==> !is_control(#[trigger] s[i])) ==> sanitized(s, maximum)
            == s,
{
    let cut = truncated(s, maximum);
    lemma_truncated(s, maximum);
    if cut.len() < s.len() {
        lemma_utf8_len_take(s, cut.len() as int + 1);
    }
    assert(cut =~= s);
    if forall|i: int| 0 <= i < s.len() ==> !is_control(#[trigger] s[i]) {
        assert(controls_as_spaces(s) =~= s);
    }
}

/// Text is told from its begin on, character by character, with a space for each
/// control character and in as many bytes as there is room for.
pub proof fn lemma_told_text_is_the_begin(s: Seq<char>, maximum: nat, i: int)
    ensures
        sanitized(s, maximum).len() <= s.len(),
        utf8_len(sanitized(s, maximum)) <= maximum,
        0 <= i < sanitized(s, maximum).len() ==> {
            let code = s[i] as u32;
            sanitized(s, maximum)[i] == if code < 32 || 127 <= code <= 159 {
                ' '
            } else {
                s[i]
            }
        },
        truncated(s, maximum).is_prefix_of(s),
        utf8_len(truncated(s, maximum)) <= maximum,
{
    lemma_truncated(controls_as_spaces(s), maximum);
    lemma_truncated(s, maximum);
}

/// Text without white space at its ends is not trimmed, and nothing is left of white
/// space alone.
pub proof fn lemma_what_is_trimmed(s: Seq<char>)
    ensures
        s.len() > 0 && !is_whitespace(s[0]) && !is_whitespace(s.last()) ==> trimmed(s) == s,
        (forall|i: int| 0 <= i < s.len() ==> is_whitespace(#[trigger] s[i])) ==> trimmed(s).len()
            == 0,
{
    if s.len() > 0 && !is_whitespace(s[0]) && !is_whitespace(s.last()) {
        assert(s =~= s.subrange(0, s.len() as int));
        assert(blank(s.take(0)));
        assert(blank(s.skip(s.len() as int)));
        assert(!blank(s)) by {
            assert(!is_whitespace(s[0]));
        }
        assert(is_trim_of(s, s));
        lemma_trim_unique(trimmed(s), s, s);
    } else if forall|i: int| 0 <= i < s.len() ==> is_whitespace(#[trigger] s[i]) {
        assert(is_trim_of(Seq::empty(), s));
    }
}

/// The value of a digit.
pub open spec fn digit_value(c: char) -> nat {
    if '0' <= c <= '9' {
        ((c as u32) - 48) as nat
    } else {
        ((c as u32) - 87) as nat
    }
}

/// The number that digits stand for.
pub open spec fn number_of(digits: Seq<char>, base: nat) -> nat
    decreases digits.len(),
{
    if digits.len() == 0 {
        0
    } else {
        base * number_of(digits.drop_last(), base) + digit_value(digits.last())
    }
}

/// A number in decimal notation stands for itself.
pub proof fn lemma_decimal_digits_stand_for_the_number(value: nat)
    ensures
        number_of(decimal_digits(value), 10) == value,
        decimal_digits(value).len() > 0,
        value > 9 ==> decimal_digits(value)[0] != '0',
    decreases value,
{
    let digits = decimal_digits(value);
    reveal_with_fuel(number_of, 2);
    if value < 10 {
        assert(digits.drop_last() =~= Seq::<char>::empty());
    } else {
        lemma_decimal_digits_stand_for_the_number(value / 10);
        assert(digits.drop_last() =~= decimal_digits(value / 10));
        if value / 10 <= 9 {
            assert(decimal_digits(value / 10)[0] == hex_digit(value / 10));
        }
    }
}

/// True when a number has no more than so many hexadecimal digits.
pub open spec fn within_digits(value: nat, width: nat) -> bool
    decreases width,
{
    if width == 0 {
        value == 0
    } else {
        within_digits(value / 16, (width - 1) as nat)
    }
}

/// A number in hexadecimal notation stands for itself.
pub proof fn lemma_hex_digits_stand_for_the_number(value: nat, width: nat)
    requires
        within_digits(value, width),
    ensures
        number_of(hex_digits(value, width), 16) == value,
        hex_digits(value, width).len() == width,
    decreases width,
{
    if width > 0 {
        lemma_hex_digits_stand_for_the_number(value / 16, (width - 1) as nat);
        let digits = hex_digits(value, width);
        assert(digits.drop_last() =~= hex_digits(value / 16, (width - 1) as nat));
    }
}

/// Each byte has two digits that stand for it, in the order of the bytes.
pub proof fn lemma_hex_text_stands_for_the_bytes(bytes: Seq<u8>, i: int)
    requires
        0 <= i < bytes.len(),
    ensures
        hex_of_bytes(bytes).len() == 2 * bytes.len(),
        number_of(hex_of_bytes(bytes).subrange(2 * i, 2 * i + 2), 16) == bytes[i],
    decreases bytes.len(),
{
    let text = hex_of_bytes(bytes);
    let rest = hex_of_bytes(bytes.drop_last());
    let last = hex_digits(bytes.last() as nat, 2);
    lemma_hex_of_bytes(bytes);
    lemma_hex_of_bytes(bytes.drop_last());
    reveal_with_fuel(within_digits, 3);
    lemma_hex_digits_stand_for_the_number(bytes.last() as nat, 2);
    if i < bytes.len() - 1 {
        lemma_hex_text_stands_for_the_bytes(bytes.drop_last(), i);
        assert(text.subrange(2 * i, 2 * i + 2) =~= rest.subrange(2 * i, 2 * i + 2));
    } else {
        assert(text.subrange(2 * i, 2 * i + 2) =~= last);
    }
}

/// Parts with separators between them.
pub open spec fn joined(parts: Seq<Seq<char>>, separator: char) -> Seq<char>
    decreases parts.len(),
{
    if parts.len() == 0 {
        Seq::empty()
    } else if parts.len() == 1 {
        parts[0]
    } else {
        joined(parts.drop_last(), separator).push(separator) + parts.last()
    }
}

/// The parts of a text hold no separator, and joined they are the text again.
pub proof fn lemma_parts_make_up_the_text(s: Seq<char>, separator: char)
    ensures
        split(s, separator).len() > 0,
        joined(split(s, separator), separator) == s,
        forall|i: int|
            0 <= i < split(s, separator).len() ==> !(#[trigger] split(s, separator)[i]).contains(
                separator,
            ),
    decreases s.len(),
{
    let parts = split(s, separator);
    if s.len() == 0 {
        assert(parts[0].len() == 0);
        assert(joined(parts, separator) =~= s);
    } else {
        let rest = split(s.drop_last(), separator);
        lemma_parts_make_up_the_text(s.drop_last(), separator);
        assert(s =~= s.drop_last().push(s.last()));
        if s.last() == separator {
            assert(parts.drop_last() =~= rest);
            assert(joined(parts, separator) =~= s);
            assert forall|i: int| 0 <= i < parts.len() implies !(#[trigger] parts[i]).contains(
                separator,
            ) by {
                if i < rest.len() {
                    assert(parts[i] == rest[i]);
                }
            }
        } else {
            assert(parts.drop_last() =~= rest.drop_last());
            if rest.len() == 1 {
                assert(joined(parts, separator) =~= s);
            } else {
                assert(joined(rest, separator) == joined(rest.drop_last(), separator).push(
                    separator,
                ) + rest.last());
                assert(joined(parts, separator) =~= s);
            }
            assert forall|i: int| 0 <= i < parts.len() implies !(#[trigger] parts[i]).contains(
                separator,
            ) by {
                assert(!rest[i].contains(separator));
                if i == rest.len() - 1 {
                    crate::keyed::lemma_push_contains(rest[i], s.last(), separator);
                }
            }
        }
    }
}

} // verus!
