//! What holds of numbers as text and of trimmed text, told over what a reader makes of them.

use vstd::prelude::*;

use crate::text;

verus! {

// ---------------------------------------------------------------------------------------------
// Numbers
// ---------------------------------------------------------------------------------------------

/// The number that a digit stands for.
pub open spec fn digit_value(c: char) -> nat {
    if '0' <= c && c <= '9' {
        (c as nat - '0' as nat) as nat
    } else {
        (c as nat - 'a' as nat + 10) as nat
    }
}

/// The number that digits stand for in base `base`, read from the left.
pub open spec fn read_numeral(digits: Seq<char>, base: nat) -> nat {
    digits.fold_left(0nat, |n: nat, c: char| n * base + digit_value(c))
}

/// A number in base ten or sixteen reads back as itself, in digits of that base, of which the first
/// is zero only if there is no other.
proof fn lemma_numeral_read_back(n: nat, base: nat)
    requires
        base == 10 || base == 16,
    ensures
        text::numeral(n, base).len() > 0,
        read_numeral(text::numeral(n, base), base) == n,
        forall|i: int|
            0 <= i < text::numeral(n, base).len() ==> {
                let c = #[trigger] text::numeral(n, base)[i];
                '0' <= c && c <= '9' || base == 16 && 'a' <= c && c <= 'f'
            },
        text::numeral(n, base)[0] == '0' ==> n == 0,
        n < base ==> text::numeral(n, base).len() == 1,
    decreases n,
{
    reveal_with_fuel(Seq::fold_left, 2);
    let digits = text::numeral(n, base);
    let d = n % base;
    assert(0 <= d < base);
    if n < base {
        assert(digits.drop_last() =~= seq![]);
        assert(n % base == n);
    } else {
        assert(n / base < n && n / base > 0 && (n / base) * base + n % base == n)
            by (nonlinear_arith)
            requires
                n >= base >= 2,
        ;
        lemma_numeral_read_back(n / base, base);
        assert(digits.drop_last() =~= text::numeral(n / base, base));
        assert(digits.last() == text::digit_char(d));
        assert(digit_value(digits.last()) == d);
        assert forall|i: int| 0 <= i < digits.len() implies {
            let c = #[trigger] digits[i];
            '0' <= c && c <= '9' || base == 16 && 'a' <= c && c <= 'f'
        } by {
            if i < digits.len() - 1 {
                assert(digits[i] == text::numeral(n / base, base)[i]);
            }
        }
    }
}

/// A number in decimal consists of decimal digits, has no leading zero, and reads back as itself.
pub proof fn law_decimal_read_back(n: nat)
    ensures
        text::decimal(n).len() > 0,
        read_numeral(text::decimal(n), 10) == n,
        forall|i: int|
            0 <= i < text::decimal(n).len() ==> '0' <= #[trigger] text::decimal(n)[i]
                && text::decimal(n)[i] <= '9',
        text::decimal(n)[0] == '0' <==> n == 0,
        n == 0 ==> text::decimal(n).len() == 1,
{
    lemma_numeral_read_back(n, 10);
}

/// A number in hexadecimal is a `0x`, and then lower-case hexadecimal digits without a leading zero
/// that read back as the number.
pub proof fn law_hex_read_back(n: nat)
    ensures
        ({
            let digits = text::prefixed_hex(n).skip(2);
            &&& text::prefixed_hex(n).len() > 2
            &&& text::prefixed_hex(n)[0] == '0'
            &&& text::prefixed_hex(n)[1] == 'x'
            &&& read_numeral(digits, 16) == n
            &&& forall|i: int|
                0 <= i < digits.len() ==> {
                    let c = #[trigger] digits[i];
                    '0' <= c && c <= '9' || 'a' <= c && c <= 'f'
                }
            &&& digits[0] == '0' <==> n == 0
            &&& n == 0 ==> digits.len() == 1
        }),
{
    reveal_strlit("0x");
    lemma_numeral_read_back(n, 16);
    assert(text::prefixed_hex(n).skip(2) =~= text::numeral(n, 16));
}

/// Different numbers are written differently.
pub proof fn law_numbers_told_apart(a: nat, b: nat)
    requires
        a != b,
    ensures
        text::decimal(a) != text::decimal(b),
        text::prefixed_hex(a) != text::prefixed_hex(b),
{
    law_decimal_read_back(a);
    law_decimal_read_back(b);
    law_hex_read_back(a);
    law_hex_read_back(b);
}

// ---------------------------------------------------------------------------------------------
// Whitespace
// ---------------------------------------------------------------------------------------------

/// Whitespace are these characters and no others.
pub proof fn law_whitespace_listed(c: char)
    ensures
        text::whitespace(c) <==> seq![
            0x9u32,
            0xA,
            0xB,
            0xC,
            0xD,
            0x20,
            0x85,
            0xA0,
            0x1680,
            0x2000,
            0x2001,
            0x2002,
            0x2003,
            0x2004,
            0x2005,
            0x2006,
            0x2007,
            0x2008,
            0x2009,
            0x200A,
            0x2028,
            0x2029,
            0x202F,
            0x205F,
            0x3000,
        ].contains(c as u32),
{
    let all = seq![
        0x9u32,
        0xA,
        0xB,
        0xC,
        0xD,
        0x20,
        0x85,
        0xA0,
        0x1680,
        0x2000,
        0x2001,
        0x2002,
        0x2003,
        0x2004,
        0x2005,
        0x2006,
        0x2007,
        0x2008,
        0x2009,
        0x200A,
        0x2028,
        0x2029,
        0x202F,
        0x205F,
        0x3000,
    ];
    let n = c as u32;
    if text::whitespace(c) {
        let i: int = if n <= 0xD {
            n - 0x9
        } else if n == 0x20 {
            5
        } else if n == 0x85 {
            6
        } else if n == 0xA0 {
            7
        } else if n == 0x1680 {
            8
        } else if n <= 0x200A {
            n - 0x2000 + 9
        } else if n == 0x2028 {
            20
        } else if n == 0x2029 {
            21
        } else if n == 0x202F {
            22
        } else if n == 0x205F {
            23
        } else {
            24
        };
        assert(all[i] == n);
    }
}

/// Trimming takes away the whitespace in front of a text and behind it, and nothing else.
pub proof fn law_trim_takes_only_surroundings(before: Seq<char>, core: Seq<char>, after: Seq<char>)
    requires
        forall|i: int| 0 <= i < before.len() ==> text::whitespace(#[trigger] before[i]),
        forall|i: int| 0 <= i < after.len() ==> text::whitespace(#[trigger] after[i]),
        core.len() > 0 ==> !text::whitespace(core[0]) && !text::whitespace(core.last()),
    ensures
        text::trimmed(before + core + after) == core,
{
    if core.len() == 0 {
        let blank = before + core + after;
        assert forall|i: int| 0 <= i < blank.len() implies text::whitespace(
            #[trigger] blank[i],
        ) by {
            if i < before.len() {
                assert(blank[i] == before[i]);
            } else {
                assert(blank[i] == after[i - before.len()]);
            }
        }
        assert(blank =~= blank + Seq::empty());
        lemma_leading_gone(blank, Seq::empty());
        assert(text::trimmed(blank) =~= core);
    } else {
        assert(before + core + after =~= before + (core + after));
        assert((core + after)[0] == core[0]);
        lemma_leading_gone(before, core + after);
        lemma_trailing_gone(core, after);
    }
}

/// Whitespace in front of something else is taken away.
proof fn lemma_leading_gone(before: Seq<char>, rest: Seq<char>)
    requires
        forall|i: int| 0 <= i < before.len() ==> text::whitespace(#[trigger] before[i]),
        rest.len() > 0 ==> !text::whitespace(rest[0]),
    ensures
        text::without_leading(before + rest) == rest,
    decreases before.len(),
{
    let whole = before + rest;
    if before.len() == 0 {
        assert(whole =~= rest);
    } else {
        let others = before.drop_first();
        assert forall|i: int| 0 <= i < others.len() implies text::whitespace(
            #[trigger] others[i],
        ) by {
            assert(others[i] == before[i + 1]);
        }
        lemma_leading_gone(others, rest);
        assert(whole[0] == before[0]);
        assert(whole.drop_first() =~= others + rest);
    }
}

/// Whitespace behind something else is taken away.
proof fn lemma_trailing_gone(core: Seq<char>, after: Seq<char>)
    requires
        forall|i: int| 0 <= i < after.len() ==> text::whitespace(#[trigger] after[i]),
        core.len() > 0,
        !text::whitespace(core.last()),
    ensures
        text::without_trailing(core + after) == core,
    decreases after.len(),
{
    let whole = core + after;
    if after.len() == 0 {
        assert(whole =~= core);
    } else {
        let others = after.drop_last();
        assert forall|i: int| 0 <= i < others.len() implies text::whitespace(
            #[trigger] others[i],
        ) by {
            assert(others[i] == after[i]);
        }
        lemma_trailing_gone(core, others);
        assert(whole.last() == after[after.len() - 1]);
        assert(whole.drop_last() =~= core + others);
    }
}

/// A text that may be absent is shown as its characters, or as absent.
pub proof fn law_absent_text_stays_absent(owned: Option<String>, borrowed: Option<&str>)
    ensures
        match owned {
            Some(t) => text::opt_chars(owned) == Some(t@),
            None => text::opt_chars(owned) is None,
        },
        match borrowed {
            Some(t) => text::opt_str_chars(borrowed) == Some(t@),
            None => text::opt_str_chars(borrowed) is None,
        },
{
}

} // verus!
