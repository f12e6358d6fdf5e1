//! Text building blocks: numbers in decimal and hexadecimal, and the trimming of user input.

use vstd::prelude::*;
use vstd::string::{StrSliceExecFns, StringExecFns};

verus! {

/// The character that stands for the digit `d` in bases up to sixteen.
pub open spec fn digit_char(d: nat) -> char {
    if d < 10 {
        ('0' as nat + d) as char
    } else {
        ('a' as nat + d - 10) as char
    }
}

/// `n` written in base `base`, most significant digit first, without leading zeros.
pub open spec fn numeral(n: nat, base: nat) -> Seq<char>
    decreases n,
{
    if base < 2 || n < base {
        seq![digit_char(n)]
    } else {
        proof {
            assert(n / base < n) by (nonlinear_arith)
                requires
                    n >= base >= 2,
            ;
        }
        numeral(n / base, base).push(digit_char(n % base))
    }
}

/// `n` in decimal, as `{}` prints it.
pub open spec fn decimal(n: nat) -> Seq<char> {
    numeral(n, 10)
}

/// `n` in hexadecimal behind a `0x`, as `{:#x}` prints it.
pub open spec fn prefixed_hex(n: nat) -> Seq<char> {
    "0x"@ + numeral(n, 16)
}

/// The characters of a text that may be absent.
pub open spec fn opt_chars(text: Option<String>) -> Option<Seq<char>> {
    match text {
        Some(t) => Some(t@),
        None => None,
    }
}

/// The characters of a text that may be absent.
pub open spec fn opt_str_chars(text: Option<&str>) -> Option<Seq<char>> {
    match text {
        Some(t) => Some(t@),
        None => None,
    }
}

/// An owned copy of a text that may be absent.
pub fn opt_owned(text: Option<&str>) -> (copy: Option<String>)
    ensures
        opt_chars(copy) == opt_str_chars(text),
        copy is Some <==> text is Some,
        text is Some ==> copy->0@ == text->0@,
{
    match text {
        Some(t) => Some(t.to_owned()),
        None => None,
    }
}

/// Tells whether two texts are the same.
pub fn same(a: &String, b: &str) -> (yes: bool)
    ensures
        yes == (a@ == b@),
{
    *a == b.to_owned()
}

/// The digit `d` as a string of one character.
fn digit_str(d: u8) -> (s: &'static str)
    requires
        d < 16,
    ensures
        s@ == seq![digit_char(d as nat)],
{
    proof {
        reveal_strlit("0");
        reveal_strlit("1");
        reveal_strlit("2");
        reveal_strlit("3");
        reveal_strlit("4");
        reveal_strlit("5");
        reveal_strlit("6");
        reveal_strlit("7");
        reveal_strlit("8");
        reveal_strlit("9");
        reveal_strlit("a");
        reveal_strlit("b");
        reveal_strlit("c");
        reveal_strlit("d");
        reveal_strlit("e");
        reveal_strlit("f");
    }
    let s: &'static str = match d {
        0 => "0",
        1 => "1",
        2 => "2",
        3 => "3",
        4 => "4",
        5 => "5",
        6 => "6",
        7 => "7",
        8 => "8",
        9 => "9",
        10 => "a",
        11 => "b",
        12 => "c",
        13 => "d",
        14 => "e",
        _ => "f",
    };
    assert(s@ =~= seq![digit_char(d as nat)]);
    s
}

/// Appends `n` in base `base` to `out`.
fn push_numeral(out: &mut String, n: u64, base: u64)
    requires
        2 <= base <= 16,
    ensures
        final(out)@ == old(out)@ + numeral(n as nat, base as nat),
    decreases n,
{
    if n < base {
        out.append(digit_str(n as u8));
    } else {
        assert(n / base < n) by (nonlinear_arith)
            requires
                n >= base >= 2,
        ;
        push_numeral(out, n / base, base);
        out.append(digit_str((n % base) as u8));
    }
    assert(out@ =~= old(out)@ + numeral(n as nat, base as nat));
}

/// Appends `n` in decimal to `out`.
pub fn push_decimal(out: &mut String, n: u64)
    ensures
        final(out)@ == old(out)@ + decimal(n as nat),
{
    push_numeral(out, n, 10);
}

/// Appends `n` in hexadecimal, behind a `0x`, to `out`.
pub fn push_hex(out: &mut String, n: u64)
    ensures
        final(out)@ == old(out)@ + prefixed_hex(n as nat),
{
    out.append("0x");
    push_numeral(out, n, 16);
    assert(out@ =~= old(out)@ + prefixed_hex(n as nat));
}

/// Whether `c` has the Unicode property White_Space.
pub open spec fn whitespace(c: char) -> bool {
    let n = c as u32;
    ||| 0x9 <= n <= 0xD
    ||| n == 0x20
    ||| n == 0x85
    ||| n == 0xA0
    ||| n == 0x1680
    ||| 0x2000 <= n <= 0x200A
    ||| n == 0x2028
    ||| n == 0x2029
    ||| n == 0x202F
    ||| n == 0x205F
    ||| n == 0x3000
}

/// Tells whether `c` has the Unicode property White_Space.
pub fn is_whitespace(c: char) -> (yes: bool)
    ensures
        yes == whitespace(c),
{
    let n: u32 = c as u32;
    (0x9 <= n && n <= 0xD) || n == 0x20 || n == 0x85 || n == 0xA0 || n == 0x1680 || (0x2000 <= n
        && n <= 0x200A) || n == 0x2028 || n == 0x2029 || n == 0x202F || n == 0x205F || n == 0x3000
}

/// `text` without the whitespace that it starts with.
pub open spec fn without_leading(text: Seq<char>) -> Seq<char>
    decreases text.len(),
{
    if text.len() > 0 && whitespace(text[0]) {
        without_leading(text.drop_first())
    } else {
        text
    }
}

/// `text` without the whitespace that it ends with.
pub open spec fn without_trailing(text: Seq<char>) -> Seq<char>
    decreases text.len(),
{
    if text.len() > 0 && whitespace(text.last()) {
        without_trailing(text.drop_last())
    } else {
        text
    }
}

/// `text` without the whitespace around it.
pub open spec fn trimmed(text: Seq<char>) -> Seq<char> {
    without_trailing(without_leading(text))
}

/// A copy of `text` without the whitespace around it.
pub fn trim(text: &str) -> (inner: String)
    ensures
        inner@ == trimmed(text@),
{
    let len: usize = text.unicode_len();
    let mut from: usize = 0;
    assert(text@.skip(0) =~= text@);
    while from < len && is_whitespace(text.get_char(from))
        invariant
            from <= len,
            len == text@.len(),
            without_leading(text@.skip(from as int)) == without_leading(text@),
        decreases len - from,
    {
        assert(text@.skip(from as int).drop_first() =~= text@.skip(from + 1));
        from += 1;
    }
    let ghost rest = text@.skip(from as int);
    assert(without_leading(text@) == rest);
    let mut to: usize = len;
    assert(rest =~= text@.subrange(from as int, to as int));
    while to > from && is_whitespace(text.get_char(to - 1))
        invariant
            from <= to <= len,
            len == text@.len(),
            without_trailing(text@.subrange(from as int, to as int)) == without_trailing(rest),
        decreases to,
    {
        assert(text@.subrange(from as int, to as int).drop_last() =~= text@.subrange(
            from as int,
            to - 1,
        ));
        to -= 1;
    }
    text.substring_char(from, to).to_owned()
}

/// What is left neither starts nor ends with whitespace, and trimming it again changes nothing.
pub proof fn law_trim_once(text: Seq<char>)
    ensures
        trimmed(text).len() > 0 ==> !whitespace(trimmed(text)[0]) && !whitespace(
            trimmed(text).last(),
        ),
        trimmed(trimmed(text)) == trimmed(text),
{
    lemma_no_leading(text);
    lemma_trailing_kept(without_leading(text));
}

/// Nothing that starts with whitespace is left.
proof fn lemma_no_leading(text: Seq<char>)
    ensures
        without_leading(text).len() > 0 ==> !whitespace(without_leading(text)[0]),
    decreases text.len(),
{
    if text.len() > 0 && whitespace(text[0]) {
        lemma_no_leading(text.drop_first());
    }
}

/// Nothing that ends with whitespace is left, and what is left starts as before.
proof fn lemma_trailing_kept(text: Seq<char>)
    ensures
        without_trailing(text).len() > 0 ==> !whitespace(without_trailing(text).last())
            && without_trailing(text)[0] == text[0],
    decreases text.len(),
{
    if text.len() > 0 && whitespace(text.last()) {
        lemma_trailing_kept(text.drop_last());
    }
}

} // verus!
