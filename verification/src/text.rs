//! Numbers as text.
use vstd::prelude::*;
use vstd::string::*;

verus! {

/// The decimal digit `d`.
pub open spec fn digit(d: nat) -> Seq<char> {
    if d == 0 {
        "0"@
    } else if d == 1 {
        "1"@
    } else if d == 2 {
        "2"@
    } else if d == 3 {
        "3"@
    } else if d == 4 {
        "4"@
    } else if d == 5 {
        "5"@
    } else if d == 6 {
        "6"@
    } else if d == 7 {
        "7"@
    } else if d == 8 {
        "8"@
    } else {
        "9"@
    }
}

/// `n` in decimal, without leading zeros.
pub open spec fn decimal(n: nat) -> Seq<char>
    decreases n,
{
    if n < 10 {
        digit(n)
    } else {
        decimal(n / 10) + digit(n % 10)
    }
}

fn put_digit(s: &mut String, d: u64)
    requires
        d < 10,
    ensures
        final(s)@ == old(s)@ + digit(d as nat),
{
    if d == 0 {
        s.append("0");
    } else if d == 1 {
        s.append("1");
    } else if d == 2 {
        s.append("2");
    } else if d == 3 {
        s.append("3");
    } else if d == 4 {
        s.append("4");
    } else if d == 5 {
        s.append("5");
    } else if d == 6 {
        s.append("6");
    } else if d == 7 {
        s.append("7");
    } else if d == 8 {
        s.append("8");
    } else {
        s.append("9");
    }
}

/// Appends `n` in decimal.
pub fn put_decimal(s: &mut String, n: u64)
    ensures
        final(s)@ == old(s)@ + decimal(n as nat),
    decreases n,
{
    if n < 10 {
        put_digit(s, n);
    } else {
        put_decimal(s, n / 10);
        put_digit(s, n % 10);
        assert(s@ =~= old(s)@ + decimal(n as nat));
    }
}

/// The hexadecimal digit `d`.
pub open spec fn hex_digit(d: nat) -> Seq<char> {
    if d < 10 {
        digit(d)
    } else if d == 10 {
        "a"@
    } else if d == 11 {
        "b"@
    } else if d == 12 {
        "c"@
    } else if d == 13 {
        "d"@
    } else if d == 14 {
        "e"@
    } else {
        "f"@
    }
}

/// `n` in hexadecimal, in `width` digits and more only where it does not fit.
pub open spec fn hex(n: nat, width: nat) -> Seq<char>
    decreases n + width,
{
    if n < 16 && width <= 1 {
        hex_digit(n)
    } else {
        hex(
            n / 16,
            if width > 0 {
                (width - 1) as nat
            } else {
                0
            },
        ) + hex_digit(n % 16)
    }
}

fn put_hex_digit(s: &mut String, d: u32)
    requires
        d < 16,
    ensures
        final(s)@ == old(s)@ + hex_digit(d as nat),
{
    if d < 10 {
        put_digit(s, d as u64);
    } else if d == 10 {
        s.append("a");
    } else if d == 11 {
        s.append("b");
    } else if d == 12 {
        s.append("c");
    } else if d == 13 {
        s.append("d");
    } else if d == 14 {
        s.append("e");
    } else {
        s.append("f");
    }
}

/// Appends `n` in hexadecimal, in at least `width` digits.
pub fn put_hex(s: &mut String, n: u32, width: u32)
    ensures
        final(s)@ == old(s)@ + hex(n as nat, width as nat),
    decreases n + width,
{
    if n < 16 && width <= 1 {
        put_hex_digit(s, n);
    } else {
        put_hex(
            s,
            n / 16,
            if width > 0 {
                width - 1
            } else {
                0
            },
        );
        put_hex_digit(s, n % 16);
        assert(s@ =~= old(s)@ + hex(n as nat, width as nat));
    }
}

/// A digit is one character, and says its value.
pub proof fn law_digits_say_their_value(d: nat)
    requires
        d < 10,
    ensures
        digit(d).len() == 1,
        digit(d)[0] as int == 48 + d,
        hex_digit(d) == digit(d),
{
    reveal_strlit("0");
    reveal_strlit("1");
    reveal_strlit("2");
    reveal_strlit("3");
    reveal_strlit("4");
    reveal_strlit("5");
    reveal_strlit("6");
    reveal_strlit("7");
    reveal_strlit("8");
    reveal_strlit("9");
}

/// The number that hexadecimal digits write.
pub open spec fn hex_value(s: Seq<char>) -> int
    decreases s.len(),
{
    if s.len() == 0 {
        0
    } else {
        16 * hex_value(s.drop_last()) + (if '0' <= s.last() <= '9' {
            s.last() as int - 48
        } else {
            s.last() as int - 87
        })
    }
}

proof fn lemma_hex_digit(d: nat)
    requires
        d < 16,
    ensures
        hex_digit(d).len() == 1,
        hex_digit(d)[0] as int == if d < 10 {
            48 + d as int
        } else {
            87 + d as int
        },
{
    if d < 10 {
        law_digits_say_their_value(d);
    }
    reveal_strlit("a");
    reveal_strlit("b");
    reveal_strlit("c");
    reveal_strlit("d");
    reveal_strlit("e");
    reveal_strlit("f");
}

/// A number in hexadecimal reads back as the number, in at least as many digits as were asked for.
pub proof fn law_hex_reads_back(n: nat, width: nat)
    ensures
        hex_value(hex(n, width)) == n,
        hex(n, width).len() >= width,
        hex(n, width).len() >= 1,
    decreases n + width,
{
    if n < 16 && width <= 1 {
        lemma_hex_digit(n);
        assert(hex(n, width).drop_last() =~= Seq::empty());
        assert(hex_value(Seq::empty()) == 0);
    } else {
        let w = if width > 0 {
            (width - 1) as nat
        } else {
            0
        };
        law_hex_reads_back(n / 16, w);
        lemma_hex_digit(n % 16);
        let s = hex(n, width);
        assert(s.drop_last() =~= hex(n / 16, w));
        assert(s.last() == hex_digit(n % 16)[0]);
    }
}

/// The number that decimal digits write.
pub open spec fn decimal_value(s: Seq<char>) -> int
    decreases s.len(),
{
    if s.len() == 0 {
        0
    } else {
        10 * decimal_value(s.drop_last()) + (s.last() as int - 48)
    }
}

/// A number in decimal reads back as the number, without a zero in front unless it is zero.
pub proof fn law_decimal_reads_back(n: nat)
    ensures
        decimal_value(decimal(n)) == n,
        decimal(n).len() >= 1,
        n > 0 ==> decimal(n)[0] != '0',
    decreases n,
{
    if n < 10 {
        law_digits_say_their_value(n);
        assert(decimal(n).drop_last() =~= Seq::empty());
        assert(decimal_value(Seq::empty()) == 0);
    } else {
        law_decimal_reads_back(n / 10);
        law_digits_say_their_value(n % 10);
        let s = decimal(n);
        assert(s.drop_last() =~= decimal(n / 10));
        assert(s.last() == digit(n % 10)[0]);
        assert(s[0] == decimal(n / 10)[0]);
    }
}

} // verus!
