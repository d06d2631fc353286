//! Character classes and number formatting shared by the rest of the crate.
//!
//! Every formatter here is specified by a spec function over `Seq<char>`, and
//! the executable code is proved to produce exactly that sequence.
use vstd::prelude::*;

verus! {

// ---------------------------------------------------------------------
// Characters
// ---------------------------------------------------------------------

/// ASCII letters and digits (`char::is_ascii_alphanumeric`).
pub open spec fn is_ascii_alnum(c: char) -> bool {
    ||| ('0' <= c && c <= '9')
    ||| ('a' <= c && c <= 'z')
    ||| ('A' <= c && c <= 'Z')
}

/// ASCII upper-case letters map to lower case, everything else is unchanged
/// (`char::to_ascii_lowercase`).
pub open spec fn ascii_lower(c: char) -> char {
    if 'A' <= c && c <= 'Z' {
        ((c as u32) + 32) as char
    } else {
        c
    }
}

/// The Unicode `White_Space` property, which is what `char::is_whitespace`
/// and `str::trim` go by.
pub open spec fn is_unicode_whitespace(c: char) -> bool {
    let v = c as u32;
    ||| (0x09 <= v && v <= 0x0D)
    ||| v == 0x20
    ||| v == 0x85
    ||| v == 0xA0
    ||| v == 0x1680
    ||| (0x2000 <= v && v <= 0x200A)
    ||| v == 0x2028
    ||| v == 0x2029
    ||| v == 0x202F
    ||| v == 0x205F
    ||| v == 0x3000
}

/// Whether `s.trim()` would be empty: every character is white space.
pub open spec fn is_blank(s: Seq<char>) -> bool {
    forall|i: int| 0 <= i < s.len() ==> is_unicode_whitespace(#[trigger] s[i])
}

pub fn ascii_alnum(c: char) -> (r: bool)
    ensures
        r == is_ascii_alnum(c),
{
    ('0' <= c && c <= '9') || ('a' <= c && c <= 'z') || ('A' <= c && c <= 'Z')
}

pub fn to_ascii_lower(c: char) -> (r: char)
    ensures
        r == ascii_lower(c),
{
    if 'A' <= c && c <= 'Z' {
        let code: u8 = (c as u8) + 32;
        code as char
    } else {
        c
    }
}

pub fn unicode_whitespace(c: char) -> (r: bool)
    ensures
        r == is_unicode_whitespace(c),
{
    let v: u32 = c as u32;
    (0x09 <= v && v <= 0x0D) || v == 0x20 || v == 0x85 || v == 0xA0 || v == 0x1680 || (0x2000
        <= v && v <= 0x200A) || v == 0x2028 || v == 0x2029 || v == 0x202F || v == 0x205F || v
        == 0x3000
}

/// Whether every character of `s` is white space (so `s.trim()` is empty).
pub fn blank(s: &str) -> (r: bool)
    ensures
        r == is_blank(s@),
{
    let n = s.unicode_len();
    let mut i: usize = 0;
    while i < n
        invariant
            n == s@.len(),
            i <= n,
            forall|j: int| 0 <= j < i ==> is_unicode_whitespace(#[trigger] s@[j]),
        decreases n - i,
    {
        let c = s.get_char(i);
        if !unicode_whitespace(c) {
            return false;
        }
        i = i + 1;
    }
    true
}

// ---------------------------------------------------------------------
// Strings
// ---------------------------------------------------------------------

/// Appends one character (`String::push`).
#[verifier::external_body]
pub(crate) fn push_char(s: &mut String, c: char)
    ensures
        final(s)@ == old(s)@.push(c),
{
    s.push(c);
}

/// Character-wise equality of two string slices.
pub fn str_equal(a: &str, b: &str) -> (r: bool)
    ensures
        r == (a@ == b@),
{
    let n = a.unicode_len();
    let m = b.unicode_len();
    if n != m {
        return false;
    }
    let mut i: usize = 0;
    while i < n
        invariant
            n == a@.len(),
            n == b@.len(),
            i <= n,
            forall|j: int| 0 <= j < i ==> a@[j] == b@[j],
        decreases n - i,
    {
        if a.get_char(i) != b.get_char(i) {
            return false;
        }
        i = i + 1;
    }
    assert(a@ =~= b@);
    true
}

/// `count` copies of `c`.
pub open spec fn repeat(c: char, count: nat) -> Seq<char> {
    Seq::new(count, |_i: int| c)
}

/// Right-aligns `s` in a field of `width` characters filled with `fill`, as
/// `format!("{:>width$}")` (with `fill` a space) and `{:0width$}` do.
pub open spec fn pad_left(s: Seq<char>, width: nat, fill: char) -> Seq<char> {
    if s.len() >= width {
        s
    } else {
        repeat(fill, (width - s.len()) as nat) + s
    }
}

/// Appends `s`, right-aligned in a field of `width` characters.
pub fn append_padded(out: &mut String, s: &str, width: usize, fill: char)
    ensures
        final(out)@ == old(out)@ + pad_left(s@, width as nat, fill),
{
    let n = s.unicode_len();
    let ghost start = out@;
    if n < width {
        let mut k: usize = 0;
        while k < width - n
            invariant
                n < width,
                k <= width - n,
                out@ == start + repeat(fill, k as nat),
            decreases width - n - k,
        {
            push_char(out, fill);
            k = k + 1;
            assert(out@ =~= start + repeat(fill, k as nat));
        }
    }
    out.append(s);
    assert(out@ =~= start + pad_left(s@, width as nat, fill));
}

// ---------------------------------------------------------------------
// Numbers
// ---------------------------------------------------------------------

/// The digit for `d` in bases up to sixteen, upper case past nine.
pub open spec fn digit(d: nat) -> char {
    if d < 10 {
        ((d + 48) as u32) as char
    } else {
        ((d + 55) as u32) as char
    }
}

/// Digits of `n` in `base`, most significant first, with no leading zeros
/// (zero itself is one `0`).
pub open spec fn digits(n: nat, base: nat) -> Seq<char>
    recommends
        2 <= base <= 16,
    decreases n,
{
    if base < 2 || n < base {
        seq![digit(n)]
    } else {
        proof {
            lemma_quotient_smaller(n, base);
        }
        digits(n / base, base).push(digit(n % base))
    }
}

/// `n` written in decimal, as `{}` formats an unsigned integer.
pub open spec fn decimal(n: nat) -> Seq<char> {
    digits(n, 10)
}

/// `n` written in upper-case hexadecimal, as `{:X}` formats it.
pub open spec fn hex_upper(n: nat) -> Seq<char> {
    digits(n, 16)
}

/// `i` written in decimal with a leading `-` when negative, as `{}` formats
/// a signed integer.
pub open spec fn signed_decimal(i: int) -> Seq<char> {
    if i < 0 {
        seq!['-'] + decimal((-i) as nat)
    } else {
        decimal(i as nat)
    }
}

/// `"true"` or `"false"`, as `{}` formats a `bool`.
pub open spec fn bool_text(b: bool) -> Seq<char> {
    if b {
        seq!['t', 'r', 'u', 'e']
    } else {
        seq!['f', 'a', 'l', 's', 'e']
    }
}

/// Dividing by a base of at least two shrinks a number no smaller than it.
pub proof fn lemma_quotient_smaller(n: nat, base: nat)
    requires
        2 <= base <= n,
    ensures
        n / base < n,
        (n / base) * base + n % base == n,
        n % base < base,
{
    assert(n / base < n) by (nonlinear_arith)
        requires
            2 <= base <= n,
    ;
    assert((n / base) * base + n % base == n) by (nonlinear_arith)
        requires
            2 <= base,
    ;
    assert(n % base < base) by (nonlinear_arith)
        requires
            2 <= base,
    ;
}

/// Digits of any number are never empty.
pub proof fn lemma_digits_nonempty(n: nat, base: nat)
    requires
        2 <= base <= 16,
    ensures
        digits(n, base).len() >= 1,
        n >= base ==> digits(n, base).len() >= 2,
    decreases n,
{
    if n >= base {
        lemma_quotient_smaller(n, base);
        lemma_digits_nonempty(n / base, base);
    }
}

/// Different digit values below sixteen give different characters.
pub proof fn lemma_digit_injective(a: nat, b: nat)
    requires
        a < 16,
        b < 16,
        digit(a) == digit(b),
    ensures
        a == b,
{
}

/// Different numbers are written differently: the digits of a number
/// determine it.
pub proof fn lemma_digits_injective(a: nat, b: nat, base: nat)
    requires
        2 <= base <= 16,
        digits(a, base) == digits(b, base),
    ensures
        a == b,
    decreases a,
{
    lemma_digits_nonempty(a, base);
    lemma_digits_nonempty(b, base);
    if a < base && b < base {
        assert(digits(a, base)[0] == digit(a));
        assert(digits(b, base)[0] == digit(b));
        lemma_digit_injective(a, b);
    } else if a >= base && b >= base {
        lemma_quotient_smaller(a, base);
        lemma_quotient_smaller(b, base);
        let da = digits(a, base);
        let db = digits(b, base);
        assert(da.drop_last() =~= digits(a / base, base));
        assert(db.drop_last() =~= digits(b / base, base));
        lemma_digits_injective(a / base, b / base, base);
        assert(da.last() == digit(a % base));
        assert(db.last() == digit(b % base));
        lemma_digit_injective(a % base, b % base);
    } else {
        assert(digits(a, base).len() != digits(b, base).len());
    }
}

/// The value a digit character stands for: `0` to `9` are zero to nine and
/// `A` to `F` are ten to fifteen; any other character stands for no digit,
/// read as sixteen.
pub open spec fn digit_value(c: char) -> nat {
    if '0' <= c && c <= '9' {
        ((c as u32) - ('0' as u32)) as nat
    } else if 'A' <= c && c <= 'F' {
        ((c as u32) - ('A' as u32) + 10) as nat
    } else {
        16
    }
}

/// The number that a string of digits spells in `base`, most significant
/// digit first.
pub open spec fn digits_value(s: Seq<char>, base: nat) -> nat
    decreases s.len(),
{
    if s.len() == 0 {
        0
    } else {
        digits_value(s.drop_last(), base) * base + digit_value(s.last())
    }
}

/// Every digit below sixteen is a decimal digit or an upper-case `A` to
/// `F`, decimal exactly for values below ten, and reads back as its value.
pub proof fn lemma_digit_reads_back(d: nat)
    requires
        d < 16,
    ensures
        ('0' <= digit(d) && digit(d) <= '9') || ('A' <= digit(d) && digit(d) <= 'F'),
        d < 10 <==> ('0' <= digit(d) && digit(d) <= '9'),
        digit_value(digit(d)) == d,
{
}

/// A number written in any base from two to sixteen reads back as itself,
/// and every character written is a digit of that base.
pub proof fn lemma_digits_read_back(n: nat, base: nat)
    requires
        2 <= base <= 16,
    ensures
        digits_value(digits(n, base), base) == n,
        forall|i: int|
            0 <= i < digits(n, base).len() ==> digit_value(#[trigger] digits(n, base)[i]) < base,
    decreases n,
{
    let s = digits(n, base);
    if n < base {
        lemma_digit_reads_back(n);
        assert(s.drop_last() =~= Seq::<char>::empty());
        assert(digits_value(s.drop_last(), base) == 0);
        assert(0 * base == 0) by (nonlinear_arith);
        assert(s.last() == digit(n));
    } else {
        lemma_quotient_smaller(n, base);
        lemma_digits_read_back(n / base, base);
        lemma_digit_reads_back(n % base);
        assert(s.drop_last() =~= digits(n / base, base));
        assert(s.last() == digit(n % base));
        assert(digits_value(s, base) == (n / base) * base + n % base);
        assert forall|i: int| 0 <= i < s.len() implies digit_value(#[trigger] s[i]) < base by {
            if i < s.len() - 1 {
                assert(s[i] == digits(n / base, base)[i]);
            }
        }
    }
}

fn digit_exec(d: u32) -> (c: char)
    requires
        d < 16,
    ensures
        c == digit(d as nat),
{
    if d < 10 {
        let code: u8 = (d as u8) + 48;
        code as char
    } else {
        let code: u8 = (d as u8) + 55;
        code as char
    }
}

/// Appends the digits of `n` in `base`.
pub fn append_digits(out: &mut String, n: u128, base: u128)
    requires
        2 <= base <= 16,
    ensures
        final(out)@ == old(out)@ + digits(n as nat, base as nat),
    decreases n,
{
    let ghost start = out@;
    if n >= base {
        proof {
            lemma_quotient_smaller(n as nat, base as nat);
        }
        append_digits(out, n / base, base);
    } else {
        assert(n % base == n) by (nonlinear_arith)
            requires
                n < base,
                2 <= base,
        ;
    }
    assert(n % base < base) by (nonlinear_arith)
        requires
            2 <= base,
    ;
    let d: u32 = (n % base) as u32;
    push_char(out, digit_exec(d));
    assert(out@ =~= start + digits(n as nat, base as nat));
}

/// `n` in decimal.
pub fn format_decimal(n: u128) -> (s: String)
    ensures
        s@ == decimal(n as nat),
{
    let mut s = String::new();
    append_digits(&mut s, n, 10);
    assert(s@ =~= decimal(n as nat));
    s
}

/// `n` in upper-case hexadecimal, zero-padded to at least `width` digits, as
/// `{:0width$X}` formats it.
pub fn format_hex_padded(n: u128, width: usize) -> (s: String)
    ensures
        s@ == pad_left(hex_upper(n as nat), width as nat, '0'),
{
    let mut digits_only = String::new();
    append_digits(&mut digits_only, n, 16);
    assert(digits_only@ =~= hex_upper(n as nat));
    let mut s = String::new();
    append_padded(&mut s, digits_only.as_str(), width, '0');
    assert(s@ =~= pad_left(hex_upper(n as nat), width as nat, '0'));
    s
}

/// `i` in decimal, with a leading `-` when negative.
pub fn format_signed(i: i64) -> (s: String)
    ensures
        s@ == signed_decimal(i as int),
{
    let mut s = String::new();
    if i < 0 {
        push_char(&mut s, '-');
        let magnitude: u128 = (0 - (i as i128)) as u128;
        append_digits(&mut s, magnitude, 10);
    } else {
        append_digits(&mut s, i as u128, 10);
    }
    assert(s@ =~= signed_decimal(i as int));
    s
}

/// `"true"` or `"false"`.
pub fn format_bool(b: bool) -> (s: String)
    ensures
        s@ == bool_text(b),
{
    let mut s = String::new();
    if b {
        push_char(&mut s, 't');
        push_char(&mut s, 'r');
        push_char(&mut s, 'u');
        push_char(&mut s, 'e');
    } else {
        push_char(&mut s, 'f');
        push_char(&mut s, 'a');
        push_char(&mut s, 'l');
        push_char(&mut s, 's');
        push_char(&mut s, 'e');
    }
    assert(s@ =~= bool_text(b));
    s
}

} // verus!
