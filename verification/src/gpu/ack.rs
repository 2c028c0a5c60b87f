//! The display's confirmations: lines that name the surface that is on glass.
use vstd::prelude::*;
use vstd::string::*;

verus! {

/// White space, as Unicode has it.
pub open spec fn blank(c: char) -> bool {
    let n = c as u32;
    ||| 9 <= n <= 13
    ||| n == 32
    ||| n == 0x85
    ||| n == 0xa0
    ||| n == 0x1680
    ||| 0x2000 <= n <= 0x200a
    ||| n == 0x2028
    ||| n == 0x2029
    ||| n == 0x202f
    ||| n == 0x205f
    ||| n == 0x3000
}

fn is_blank(c: char) -> (r: bool)
    ensures
        r == blank(c),
{
    let n: u32 = c as u32;
    (9 <= n && n <= 13) || n == 32 || n == 0x85 || n == 0xa0 || n == 0x1680 || (0x2000 <= n && n
        <= 0x200a) || n == 0x2028 || n == 0x2029 || n == 0x202f || n == 0x205f || n == 0x3000
}

/// The first place at or after `i` that is white space, or is not; the end where there is none.
pub open spec fn run_end(s: Seq<char>, i: int, white: bool) -> int
    decreases s.len() - i,
{
    if i < 0 || i >= s.len() || blank(s[i]) != white {
        i
    } else {
        run_end(s, i + 1, white)
    }
}

fn skip_run(s: &str, n: usize, from: usize, white: bool) -> (r: usize)
    requires
        n == s@.len(),
        from <= n,
    ensures
        r == run_end(s@, from as int, white),
        from <= r <= n,
{
    let mut i: usize = from;
    while i < n
        invariant
            from <= i <= n,
            n == s@.len(),
            run_end(s@, from as int, white) == run_end(s@, i as int, white),
        decreases n - i,
    {
        if is_blank(s.get_char(i)) != white {
            return i;
        }
        i = i + 1;
    }
    i
}

/// The number that decimal digits write, if they are digits.
pub open spec fn digits_value(s: Seq<char>) -> Option<nat>
    decreases s.len(),
{
    if s.len() == 0 {
        Some(0)
    } else {
        match digits_value(s.drop_last()) {
            Some(v) => if '0' <= s.last() <= '9' {
                Some(v * 10 + (s.last() as u32 - '0' as u32) as nat)
            } else {
                None
            },
            None => None,
        }
    }
}

/// A 32-bit number: digits, a plus sign before them where there is one, and no more than fit.
pub open spec fn number(s: Seq<char>) -> Option<u32> {
    let digits = if s.len() > 0 && s[0] == '+' {
        s.skip(1)
    } else {
        s
    };
    if digits.len() == 0 {
        None
    } else {
        match digits_value(digits) {
            Some(v) => if v <= u32::MAX {
                Some(v as u32)
            } else {
                None
            },
            None => None,
        }
    }
}

/// Once digits do not write a number, no more of them do; and a number only grows.
proof fn lemma_digits_prefix(s: Seq<char>, n: int)
    requires
        0 <= n <= s.len(),
    ensures
        digits_value(s) matches Some(v) ==> {
            &&& digits_value(s.take(n)) matches Some(u)
            &&& u <= v
        },
    decreases s.len() - n,
{
    if n < s.len() {
        lemma_digits_prefix(s, n + 1);
        assert(s.take(n + 1).drop_last() =~= s.take(n));
    } else {
        assert(s.take(n) =~= s);
    }
}

/// Reads the number in `s` from `from` up to `to`.
fn read_number(s: &str, from: usize, to: usize) -> (r: Option<u32>)
    requires
        from <= to <= s@.len(),
    ensures
        r == number(s@.subrange(from as int, to as int)),
{
    let ghost text = s@.subrange(from as int, to as int);
    let start: usize = if from < to && s.get_char(from) == '+' {
        from + 1
    } else {
        from
    };
    let ghost digits = s@.subrange(start as int, to as int);
    proof {
        if start == from + 1 {
            assert(digits =~= text.skip(1));
        } else {
            assert(digits =~= text);
        }
    }
    if start == to {
        return None;
    }
    let mut i: usize = start;
    let mut v: u64 = 0;
    assert(digits.take(0) =~= Seq::empty());
    while i < to
        invariant
            start <= i <= to <= s@.len(),
            digits == s@.subrange(start as int, to as int),
            number(s@.subrange(from as int, to as int)) == match digits_value(digits) {
                Some(v) => if v <= u32::MAX {
                    Some(v as u32)
                } else {
                    None
                },
                None => None,
            },
            digits_value(digits.take(i - start)) == Some(v as nat),
            v <= u32::MAX,
        decreases to - i,
    {
        let c: char = s.get_char(i);
        proof {
            let k = i - start;
            assert(digits.take(k + 1).drop_last() =~= digits.take(k));
            assert(digits.take(k + 1).last() == c);
            lemma_digits_prefix(digits, k + 1);
        }
        if !('0' <= c && c <= '9') {
            return None;
        }
        v = v * 10 + (c as u32 - '0' as u32) as u64;
        if v > u32::MAX as u64 {
            return None;
        }
        i = i + 1;
    }
    assert(digits.take(to - start) =~= digits);
    Some(v as u32)
}

/// The surface that a line confirms: `shown`, then a number. Anything else confirms nothing, and
/// what follows the number is ignored.
pub open spec fn shown_surface(line: Seq<char>) -> Option<u32> {
    let a = run_end(line, 0, true);
    let b = run_end(line, a, false);
    let c = run_end(line, b, true);
    let d = run_end(line, c, false);
    if line.subrange(a, b) == seq!['s', 'h', 'o', 'w', 'n'] {
        number(line.subrange(c, d))
    } else {
        None
    }
}

/// Reads the surface that a line confirms.
pub fn parse_shown(line: &str) -> (r: Option<u32>)
    ensures
        r == shown_surface(line@),
{
    let n: usize = line.unicode_len();
    let a: usize = skip_run(line, n, 0, true);
    let b: usize = skip_run(line, n, a, false);
    let c: usize = skip_run(line, n, b, true);
    let d: usize = skip_run(line, n, c, false);
    let ghost word = line@.subrange(a as int, b as int);
    if b - a != 5 {
        assert(word.len() != seq!['s', 'h', 'o', 'w', 'n'].len());
        return None;
    }
    let same: bool = line.get_char(a) == 's' && line.get_char(a + 1) == 'h' && line.get_char(a + 2)
        == 'o' && line.get_char(a + 3) == 'w' && line.get_char(a + 4) == 'n';
    proof {
        if same {
            assert(word =~= seq!['s', 'h', 'o', 'w', 'n']);
        } else {
            assert(word[0] == line@[a as int] && word[1] == line@[a + 1] && word[2] == line@[a + 2]
                && word[3] == line@[a + 3] && word[4] == line@[a + 4]);
        }
    }
    if same {
        read_number(line, c, d)
    } else {
        None
    }
}

} // verus!
