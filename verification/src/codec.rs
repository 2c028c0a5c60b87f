//! Little-endian byte encoding: writers that append to a byte vector and a reader that refuses
//! whatever its input cannot hold.
//!
//! Encodings are byte sequences; a decoder maps a sequence to the value at its front and the
//! bytes that are left, or to `None`. Both sides compose by concatenation, so what a record
//! reads back follows from what its fields read back.
use vstd::prelude::*;

verus! {

/// A decoded value together with the bytes after it.
pub type Decoded<T> = Option<(T, Seq<u8>)>;

/// The `n` low bytes of `v`, least significant first.
pub open spec fn le_bytes(v: nat, n: nat) -> Seq<u8>
    decreases n,
{
    if n == 0 {
        Seq::empty()
    } else {
        seq![(v % 256) as u8] + le_bytes(v / 256, (n - 1) as nat)
    }
}

/// The number whose bytes are `s`, least significant first.
pub open spec fn le_value(s: Seq<u8>) -> nat
    decreases s.len(),
{
    if s.len() == 0 {
        0
    } else {
        s[0] as nat + 256 * le_value(s.skip(1))
    }
}

/// The first value that `n` bytes cannot hold.
pub open spec fn le_bound(n: nat) -> nat
    decreases n,
{
    if n == 0 {
        1
    } else {
        256 * le_bound((n - 1) as nat)
    }
}

pub proof fn lemma_le_bounds()
    ensures
        le_bound(1) == 0x100,
        le_bound(2) == 0x1_0000,
        le_bound(4) == 0x1_0000_0000,
        le_bound(8) == 0x1_0000_0000_0000_0000,
{
    reveal_with_fuel(le_bound, 9);
}

pub proof fn lemma_le_bytes_len(v: nat, n: nat)
    ensures
        le_bytes(v, n).len() == n,
    decreases n,
{
    if n > 0 {
        lemma_le_bytes_len(v / 256, (n - 1) as nat);
    }
}

pub proof fn lemma_le_value_bound(s: Seq<u8>)
    ensures
        le_value(s) < le_bound(s.len()),
    decreases s.len(),
{
    if s.len() > 0 {
        lemma_le_value_bound(s.skip(1));
    }
}

/// Reading back `n` written bytes gives the value, as long as it fits.
pub proof fn lemma_le_round_trip(v: nat, n: nat)
    requires
        v < le_bound(n),
    ensures
        le_value(le_bytes(v, n)) == v,
    decreases n,
{
    lemma_le_bytes_len(v, n);
    if n > 0 {
        let tail = le_bytes(v / 256, (n - 1) as nat);
        lemma_le_bytes_len(v / 256, (n - 1) as nat);
        lemma_le_round_trip(v / 256, (n - 1) as nat);
        assert(le_bytes(v, n).skip(1) =~= tail);
    }
}

pub open spec fn enc_u8(v: u8) -> Seq<u8> {
    seq![v]
}

pub open spec fn enc_u16(v: u16) -> Seq<u8> {
    le_bytes(v as nat, 2)
}

pub open spec fn enc_u32(v: u32) -> Seq<u8> {
    le_bytes(v as nat, 4)
}

pub open spec fn enc_u64(v: u64) -> Seq<u8> {
    le_bytes(v as nat, 8)
}

/// The first `n` bytes of `s`.
pub open spec fn dec_bytes(s: Seq<u8>, n: nat) -> Decoded<Seq<u8>> {
    if n <= s.len() {
        Some((s.take(n as int), s.skip(n as int)))
    } else {
        None
    }
}

pub open spec fn dec_u8(s: Seq<u8>) -> Decoded<u8> {
    match dec_bytes(s, 1) {
        Some((b, rest)) => Some((b[0], rest)),
        None => None,
    }
}

pub open spec fn dec_u16(s: Seq<u8>) -> Decoded<u16> {
    match dec_bytes(s, 2) {
        Some((b, rest)) => Some((le_value(b) as u16, rest)),
        None => None,
    }
}

pub open spec fn dec_u32(s: Seq<u8>) -> Decoded<u32> {
    match dec_bytes(s, 4) {
        Some((b, rest)) => Some((le_value(b) as u32, rest)),
        None => None,
    }
}

pub open spec fn dec_u64(s: Seq<u8>) -> Decoded<u64> {
    match dec_bytes(s, 8) {
        Some((b, rest)) => Some((le_value(b) as u64, rest)),
        None => None,
    }
}

/// A 32-bit count of entries of `each` bytes, refused when the bytes left cannot hold that many.
pub open spec fn dec_count(s: Seq<u8>, each: nat) -> Decoded<u32> {
    match dec_u32(s) {
        Some((n, rest)) => if n as nat <= rest.len() / each {
            Some((n, rest))
        } else {
            None
        },
        None => None,
    }
}

/// A presence tag: 0 for absent, 1 for present, anything else refused.
pub open spec fn dec_flag(s: Seq<u8>) -> Decoded<bool> {
    match dec_u8(s) {
        Some((0u8, rest)) => Some((false, rest)),
        Some((1u8, rest)) => Some((true, rest)),
        _ => None,
    }
}

pub open spec fn enc_flag(v: bool) -> Seq<u8> {
    enc_u8(if v {
        1
    } else {
        0
    })
}

/// The encodings of `items`, one after another.
pub open spec fn enc_list<T>(items: Seq<T>, f: spec_fn(T) -> Seq<u8>) -> Seq<u8>
    decreases items.len(),
{
    if items.len() == 0 {
        Seq::empty()
    } else {
        enc_list(items.drop_last(), f) + f(items.last())
    }
}

/// `n` values decoded one after another.
pub open spec fn dec_list<T>(s: Seq<u8>, n: nat, g: spec_fn(Seq<u8>) -> Decoded<T>) -> Decoded<
    Seq<T>,
>
    decreases n,
{
    if n == 0 {
        Some((Seq::empty(), s))
    } else {
        match dec_list(s, (n - 1) as nat, g) {
            Some((items, rest)) => match g(rest) {
                Some((item, rest)) => Some((items.push(item), rest)),
                None => None,
            },
            None => None,
        }
    }
}

/// A 64-bit length and that many bytes.
pub open spec fn enc_blob(bytes: Seq<u8>) -> Seq<u8> {
    enc_u64(bytes.len() as u64) + bytes
}

pub open spec fn dec_blob(s: Seq<u8>) -> Decoded<Seq<u8>> {
    match dec_u64(s) {
        Some((n, rest)) => dec_bytes(rest, (n as usize) as nat),
        None => None,
    }
}

/// Concatenation associates to the right.
pub broadcast proof fn lemma_concat_assoc(a: Seq<u8>, b: Seq<u8>, c: Seq<u8>)
    ensures
        #[trigger] ((a + b) + c) == a + (b + c),
{
    assert((a + b) + c =~= a + (b + c));
}

pub broadcast proof fn lemma_bytes_round_trip(b: Seq<u8>, rest: Seq<u8>, n: nat)
    requires
        b.len() == n,
    ensures
        #[trigger] dec_bytes(b + rest, n) == Some((b, rest)),
{
    assert((b + rest).take(n as int) =~= b);
    assert((b + rest).skip(n as int) =~= rest);
}

pub broadcast proof fn lemma_u8_round_trip(v: u8, rest: Seq<u8>)
    ensures
        #[trigger] dec_u8(enc_u8(v) + rest) == Some((v, rest)),
{
    lemma_bytes_round_trip(enc_u8(v), rest, 1);
}

pub broadcast proof fn lemma_u16_round_trip(v: u16, rest: Seq<u8>)
    ensures
        #[trigger] dec_u16(enc_u16(v) + rest) == Some((v, rest)),
{
    lemma_le_bytes_len(v as nat, 2);
    lemma_le_bounds();
    lemma_le_round_trip(v as nat, 2);
    lemma_bytes_round_trip(enc_u16(v), rest, 2);
}

pub broadcast proof fn lemma_u32_round_trip(v: u32, rest: Seq<u8>)
    ensures
        #[trigger] dec_u32(enc_u32(v) + rest) == Some((v, rest)),
{
    lemma_le_bytes_len(v as nat, 4);
    lemma_le_bounds();
    lemma_le_round_trip(v as nat, 4);
    lemma_bytes_round_trip(enc_u32(v), rest, 4);
}

pub broadcast proof fn lemma_u64_round_trip(v: u64, rest: Seq<u8>)
    ensures
        #[trigger] dec_u64(enc_u64(v) + rest) == Some((v, rest)),
{
    lemma_le_bytes_len(v as nat, 8);
    lemma_le_bounds();
    lemma_le_round_trip(v as nat, 8);
    lemma_bytes_round_trip(enc_u64(v), rest, 8);
}

pub broadcast proof fn lemma_flag_round_trip(v: bool, rest: Seq<u8>)
    ensures
        #[trigger] dec_flag(enc_flag(v) + rest) == Some((v, rest)),
{
    broadcast use lemma_u8_round_trip;

}

pub broadcast proof fn lemma_blob_round_trip(b: Seq<u8>, rest: Seq<u8>)
    requires
        b.len() <= usize::MAX,
    ensures
        #[trigger] dec_blob(enc_blob(b) + rest) == Some((b, rest)),
{
    broadcast use {lemma_concat_assoc, lemma_u64_round_trip};

    lemma_bytes_round_trip(b, rest, b.len());
}

/// What the field encoders write, their decoders read back.
pub broadcast group group_round_trip {
    lemma_concat_assoc,
    lemma_u8_round_trip,
    lemma_u16_round_trip,
    lemma_u32_round_trip,
    lemma_u64_round_trip,
    lemma_flag_round_trip,
    lemma_blob_round_trip,
}

/// A decoder that reads the same value, and leaves `t` more bytes, when `t` follows its input.
pub open spec fn extends<T>(short: Decoded<T>, long: Decoded<T>, t: Seq<u8>) -> bool {
    short matches Some((v, rest)) ==> long == Some((v, rest + t))
}

pub broadcast proof fn lemma_bytes_extends(s: Seq<u8>, t: Seq<u8>, n: nat)
    ensures
        extends(dec_bytes(s, n), #[trigger] dec_bytes(s + t, n), t),
{
    if n <= s.len() {
        assert((s + t).take(n as int) =~= s.take(n as int));
        assert((s + t).skip(n as int) =~= s.skip(n as int) + t);
    }
}

pub broadcast proof fn lemma_u8_extends(s: Seq<u8>, t: Seq<u8>)
    ensures
        extends(dec_u8(s), #[trigger] dec_u8(s + t), t),
{
    lemma_bytes_extends(s, t, 1);
}

pub broadcast proof fn lemma_u16_extends(s: Seq<u8>, t: Seq<u8>)
    ensures
        extends(dec_u16(s), #[trigger] dec_u16(s + t), t),
{
    lemma_bytes_extends(s, t, 2);
}

pub broadcast proof fn lemma_u32_extends(s: Seq<u8>, t: Seq<u8>)
    ensures
        extends(dec_u32(s), #[trigger] dec_u32(s + t), t),
{
    lemma_bytes_extends(s, t, 4);
}

pub broadcast proof fn lemma_u64_extends(s: Seq<u8>, t: Seq<u8>)
    ensures
        extends(dec_u64(s), #[trigger] dec_u64(s + t), t),
{
    lemma_bytes_extends(s, t, 8);
}

pub broadcast proof fn lemma_flag_extends(s: Seq<u8>, t: Seq<u8>)
    ensures
        extends(dec_flag(s), #[trigger] dec_flag(s + t), t),
{
    lemma_u8_extends(s, t);
}

pub broadcast proof fn lemma_blob_extends(s: Seq<u8>, t: Seq<u8>)
    ensures
        extends(dec_blob(s), #[trigger] dec_blob(s + t), t),
{
    lemma_u64_extends(s, t);
    match dec_u64(s) {
        Some((n, rest)) => {
            lemma_bytes_extends(rest, t, (n as usize) as nat);
        },
        None => {},
    }
}

pub broadcast proof fn lemma_count_extends(s: Seq<u8>, t: Seq<u8>, each: nat)
    requires
        each > 0,
    ensures
        extends(dec_count(s, each), #[trigger] dec_count(s + t, each), t),
{
    lemma_u32_extends(s, t);
    match dec_u32(s) {
        Some((n, rest)) => {
            vstd::arithmetic::div_mod::lemma_div_is_ordered(
                rest.len() as int,
                (rest + t).len() as int,
                each as int,
            );
        },
        None => {},
    }
}

/// Bytes after a decoder's input change nothing of what it reads.
pub broadcast group group_extends {
    lemma_bytes_extends,
    lemma_u8_extends,
    lemma_u16_extends,
    lemma_u32_extends,
    lemma_u64_extends,
    lemma_flag_extends,
    lemma_blob_extends,
    lemma_count_extends,
}

/// A list of round-tripping items round-trips.
pub proof fn lemma_list_round_trip<T>(
    items: Seq<T>,
    f: spec_fn(T) -> Seq<u8>,
    g: spec_fn(Seq<u8>) -> Decoded<T>,
    rest: Seq<u8>,
)
    requires
        forall|i: int, r: Seq<u8>|
            0 <= i < items.len() ==> #[trigger] g(f(items[i]) + r) == Some((items[i], r)),
    ensures
        dec_list(enc_list(items, f) + rest, items.len(), g) == Some((items, rest)),
    decreases items.len(),
{
    if items.len() == 0 {
        assert(enc_list(items, f) + rest =~= rest);
        assert(items =~= Seq::empty());
    } else {
        let init = items.drop_last();
        let last = items.last();
        assert forall|i: int, r: Seq<u8>| 0 <= i < init.len() implies #[trigger] g(f(init[i]) + r)
            == Some((init[i], r)) by {
            assert(init[i] == items[i]);
            assert(g(f(items[i]) + r) == Some((items[i], r)));
        }
        lemma_list_round_trip(init, f, g, f(last) + rest);
        lemma_concat_assoc(enc_list(init, f), f(last), rest);
        assert(g(f(items[items.len() - 1]) + rest) == Some((items[items.len() - 1], rest)));
        assert(init.push(last) =~= items);
    }
}

/// A list of extension-stable items is extension-stable.
pub proof fn lemma_list_extends<T>(
    s: Seq<u8>,
    t: Seq<u8>,
    n: nat,
    g: spec_fn(Seq<u8>) -> Decoded<T>,
)
    requires
        forall|s: Seq<u8>, t: Seq<u8>| extends(g(s), #[trigger] g(s + t), t),
    ensures
        extends(dec_list(s, n, g), dec_list(s + t, n, g), t),
    decreases n,
{
    if n > 0 {
        lemma_list_extends(s, t, (n - 1) as nat, g);
        match dec_list(s, (n - 1) as nat, g) {
            Some((items, rest)) => {
                assert(extends(g(rest), g(rest + t), t));
            },
            None => {},
        }
    }
}

/// What was read is, written again, what the input begins with.
pub open spec fn spells<T>(d: Decoded<T>, s: Seq<u8>, f: spec_fn(T) -> Seq<u8>) -> bool {
    d matches Some((v, rest)) ==> s == f(v) + rest
}

/// The bytes of a number that was read are the bytes it was read from.
pub proof fn lemma_le_respelled(b: Seq<u8>)
    ensures
        le_bytes(le_value(b), b.len()) == b,
    decreases b.len(),
{
    if b.len() > 0 {
        lemma_le_respelled(b.skip(1));
        let v = le_value(b);
        let high = le_value(b.skip(1));
        assert(v == b[0] as nat + 256 * high);
        assert(v % 256 == b[0] as nat && v / 256 == high);
        assert(seq![b[0]] + b.skip(1) =~= b);
    }
}

pub broadcast proof fn lemma_bytes_spelled(s: Seq<u8>, n: nat)
    ensures
        (#[trigger] dec_bytes(s, n)) matches Some((b, rest)) ==> s == b + rest && b.len() == n,
{
    if n <= s.len() {
        assert(s.take(n as int) + s.skip(n as int) =~= s);
    }
}

pub broadcast proof fn lemma_u8_spelled(s: Seq<u8>)
    ensures
        (#[trigger] dec_u8(s)) matches Some((v, rest)) ==> s == enc_u8(v) + rest,
{
    lemma_bytes_spelled(s, 1);
    match dec_bytes(s, 1) {
        Some((b, rest)) => {
            assert(b =~= seq![b[0]]);
        },
        None => {},
    }
}

pub broadcast proof fn lemma_u16_spelled(s: Seq<u8>)
    ensures
        (#[trigger] dec_u16(s)) matches Some((v, rest)) ==> s == enc_u16(v) + rest,
{
    lemma_bytes_spelled(s, 2);
    lemma_le_bounds();
    match dec_bytes(s, 2) {
        Some((b, rest)) => {
            lemma_le_value_bound(b);
            lemma_le_respelled(b);
        },
        None => {},
    }
}

pub broadcast proof fn lemma_u32_spelled(s: Seq<u8>)
    ensures
        (#[trigger] dec_u32(s)) matches Some((v, rest)) ==> s == enc_u32(v) + rest,
{
    lemma_bytes_spelled(s, 4);
    lemma_le_bounds();
    match dec_bytes(s, 4) {
        Some((b, rest)) => {
            lemma_le_value_bound(b);
            lemma_le_respelled(b);
        },
        None => {},
    }
}

pub broadcast proof fn lemma_u64_spelled(s: Seq<u8>)
    ensures
        (#[trigger] dec_u64(s)) matches Some((v, rest)) ==> s == enc_u64(v) + rest,
{
    lemma_bytes_spelled(s, 8);
    lemma_le_bounds();
    match dec_bytes(s, 8) {
        Some((b, rest)) => {
            lemma_le_value_bound(b);
            lemma_le_respelled(b);
        },
        None => {},
    }
}

pub broadcast proof fn lemma_flag_spelled(s: Seq<u8>)
    ensures
        (#[trigger] dec_flag(s)) matches Some((v, rest)) ==> s == enc_flag(v) + rest,
{
    lemma_u8_spelled(s);
}

pub broadcast proof fn lemma_blob_spelled(s: Seq<u8>)
    requires
        usize::MAX == u64::MAX,
    ensures
        (#[trigger] dec_blob(s)) matches Some((b, rest)) ==> s == enc_blob(b) + rest,
{
    lemma_u64_spelled(s);
    match dec_u64(s) {
        Some((n, t)) => {
            lemma_bytes_spelled(t, (n as usize) as nat);
            match dec_bytes(t, (n as usize) as nat) {
                Some((b, rest)) => {
                    lemma_concat_assoc(enc_u64(n), b, rest);
                },
                None => {},
            }
        },
        None => {},
    }
}

/// What the field decoders read, the encoders write again.
pub broadcast group group_spelled {
    lemma_bytes_spelled,
    lemma_u8_spelled,
    lemma_u16_spelled,
    lemma_u32_spelled,
    lemma_u64_spelled,
    lemma_flag_spelled,
    lemma_blob_spelled,
}

/// A list of items that are written as they were read is.
pub proof fn lemma_list_spelled<T>(
    s: Seq<u8>,
    n: nat,
    f: spec_fn(T) -> Seq<u8>,
    g: spec_fn(Seq<u8>) -> Decoded<T>,
)
    requires
        forall|s: Seq<u8>| spells(#[trigger] g(s), s, f),
    ensures
        dec_list(s, n, g) matches Some((items, rest)) ==> s == enc_list(items, f) + rest
            && items.len() == n,
    decreases n,
{
    if n == 0 {
        assert(s =~= Seq::<u8>::empty() + s);
    } else {
        lemma_list_spelled(s, (n - 1) as nat, f, g);
        match dec_list(s, (n - 1) as nat, g) {
            Some((items, t)) => {
                assert(spells(g(t), t, f));
                match g(t) {
                    Some((item, rest)) => {
                        assert(items.push(item).drop_last() =~= items);
                        lemma_concat_assoc(enc_list(items, f), f(item), rest);
                    },
                    None => {},
                }
            },
            None => {},
        }
    }
}

/// A list that fails part of the way fails.
pub proof fn lemma_list_fails<T>(s: Seq<u8>, k: nat, n: nat, g: spec_fn(Seq<u8>) -> Decoded<T>)
    requires
        k <= n,
        dec_list(s, k, g) is None,
    ensures
        dec_list(s, n, g) is None,
    decreases n - k,
{
    if k < n {
        lemma_list_fails(s, k, (n - 1) as nat, g);
    }
}

/// One more item decoded.
pub proof fn lemma_list_step<T>(s: Seq<u8>, k: nat, g: spec_fn(Seq<u8>) -> Decoded<T>)
    ensures
        dec_list(s, k + 1, g) == match dec_list(s, k, g) {
            Some((items, rest)) => match g(rest) {
                Some((item, rest)) => Some((items.push(item), rest)),
                None => None,
            },
            None => None,
        },
{
}

/// One more item encoded.
pub proof fn lemma_list_push<T>(items: Seq<T>, k: int, f: spec_fn(T) -> Seq<u8>)
    requires
        0 <= k < items.len(),
    ensures
        enc_list(items.take(k + 1), f) == enc_list(items.take(k), f) + f(items[k]),
{
    assert(items.take(k + 1).drop_last() =~= items.take(k));
}

/// A decoded list has as many items as were asked for.
pub proof fn lemma_list_len<T>(s: Seq<u8>, n: nat, g: spec_fn(Seq<u8>) -> Decoded<T>)
    ensures
        dec_list(s, n, g) matches Some((items, rest)) ==> items.len() == n,
    decreases n,
{
    if n > 0 {
        lemma_list_len(s, (n - 1) as nat, g);
    }
}

/// Appends the byte `v`.
pub fn put_u8(buf: &mut Vec<u8>, v: u8)
    ensures
        final(buf)@ == old(buf)@ + enc_u8(v),
{
    buf.push(v);
    assert(buf@ =~= old(buf)@ + enc_u8(v));
}

/// Appends `v` in two bytes.
pub fn put_u16(buf: &mut Vec<u8>, v: u16)
    ensures
        final(buf)@ == old(buf)@ + enc_u16(v),
{
    proof {
        reveal_with_fuel(le_bytes, 3);
    }
    buf.push((v % 256) as u8);
    buf.push((v / 256) as u8);
    assert(buf@ =~= old(buf)@ + enc_u16(v));
}

/// Appends `v` in four bytes.
pub fn put_u32(buf: &mut Vec<u8>, v: u32)
    ensures
        final(buf)@ == old(buf)@ + enc_u32(v),
{
    proof {
        reveal_with_fuel(le_bytes, 5);
    }
    buf.push((v % 256) as u8);
    buf.push((v / 256 % 256) as u8);
    buf.push((v / 256 / 256 % 256) as u8);
    buf.push((v / 256 / 256 / 256 % 256) as u8);
    assert(buf@ =~= old(buf)@ + enc_u32(v));
}

/// Appends `v` in eight bytes.
pub fn put_u64(buf: &mut Vec<u8>, v: u64)
    ensures
        final(buf)@ == old(buf)@ + enc_u64(v),
{
    let mut rest: u64 = v;
    let mut i: usize = 0;
    while i < 8
        invariant
            i <= 8,
            buf@ + le_bytes(rest as nat, (8 - i) as nat) == old(buf)@ + enc_u64(v),
        decreases 8 - i,
    {
        let ghost before = buf@;
        let ghost r = rest;
        buf.push((rest % 256) as u8);
        rest = rest / 256;
        i = i + 1;
        assert(buf@ + le_bytes(rest as nat, (8 - i) as nat) =~= before + le_bytes(
            r as nat,
            (8 - i + 1) as nat,
        ));
    }
    assert(buf@ + le_bytes(rest as nat, 0) =~= buf@);
}

/// Appends a presence tag: 1 when a value follows, 0 when none does.
pub fn put_opt(buf: &mut Vec<u8>, present: bool)
    ensures
        final(buf)@ == old(buf)@ + enc_flag(present),
{
    buf.push(if present {
        1
    } else {
        0
    });
    assert(buf@ =~= old(buf)@ + enc_flag(present));
}

/// Appends `bytes` as they are.
pub fn put_bytes(buf: &mut Vec<u8>, bytes: &[u8])
    ensures
        final(buf)@ == old(buf)@ + bytes@,
{
    buf.extend_from_slice(bytes);
    assert(buf@ =~= old(buf)@ + bytes@);
}

/// Appends the length of `bytes` in eight bytes, then `bytes`.
pub fn put_blob(buf: &mut Vec<u8>, bytes: &[u8])
    ensures
        final(buf)@ == old(buf)@ + enc_blob(bytes@),
{
    put_u64(buf, bytes.len() as u64);
    put_bytes(buf, bytes);
    proof {
        lemma_concat_assoc(old(buf)@, enc_u64(bytes@.len() as u64), bytes@);
    }
}

/// The number whose little-endian bytes are `b`.
fn value_of(b: &[u8]) -> (v: u64)
    requires
        b@.len() <= 8,
    ensures
        v == le_value(b@),
{
    let mut v: u64 = 0;
    let mut i: usize = b.len();
    proof {
        lemma_le_bounds();
        assert(b@.skip(b@.len() as int) =~= Seq::empty());
    }
    while i > 0
        invariant
            i <= b@.len() <= 8,
            v == le_value(b@.skip(i as int)),
            v < le_bound((b@.len() - i) as nat),
            le_bound(8) == 0x1_0000_0000_0000_0000,
        decreases i,
    {
        i = i - 1;
        proof {
            lemma_le_value_bound(b@.skip(i as int));
            lemma_le_bound_monotonic((b@.len() - i) as nat, 8);
            assert(b@.skip(i as int).skip(1) =~= b@.skip(i + 1));
        }
        v = b[i] as u64 + 256 * v;
    }
    assert(b@.skip(0) =~= b@);
    v
}

pub proof fn lemma_le_bound_monotonic(i: nat, j: nat)
    requires
        i <= j,
    ensures
        0 < le_bound(i) <= le_bound(j),
    decreases j,
{
    if j > 0 {
        if i < j {
            lemma_le_bound_monotonic(i, (j - 1) as nat);
        } else {
            lemma_le_bound_monotonic((i - 1) as nat, (j - 1) as nat);
        }
    }
}

/// The bytes of a number are those of its low part, and behind them those of what is above it.
pub proof fn lemma_le_split(v: nat, a: nat, b: nat)
    ensures
        le_bytes(v, a + b) == le_bytes(v, a) + le_bytes(v / le_bound(a), b),
    decreases a,
{
    if a == 0 {
        assert(le_bytes(v, 0) + le_bytes(v / 1, b) =~= le_bytes(v, b));
    } else {
        let n = (a - 1) as nat;
        lemma_le_split(v / 256, n, b);
        lemma_le_bound_monotonic(0, n);
        vstd::arithmetic::div_mod::lemma_div_denominator(v as int, 256, le_bound(n) as int);
        assert(le_bytes(v, a + b) =~= le_bytes(v, a) + le_bytes(v / le_bound(a), b));
    }
}

/// What is above the bytes of a number does not show in them.
pub proof fn lemma_le_mod(v: nat, n: nat)
    ensures
        le_bytes(v % le_bound(n), n) == le_bytes(v, n),
    decreases n,
{
    if n > 0 {
        let m = (n - 1) as nat;
        let b = le_bound(m);
        lemma_le_bound_monotonic(0, m);
        lemma_le_mod(v / 256, m);
        // The low byte stays, and the rest is the rest of what is above it.
        vstd::arithmetic::div_mod::lemma_mod_breakdown(v as int, 256, b as int);
        assert((v % (256 * b)) % 256 == v % 256 && (v % (256 * b)) / 256 == (v / 256) % b);
    }
}

/// A position in a byte slice, moved on by each successful read.
pub struct Cursor<'a> {
    pub data: &'a [u8],
    pub pos: usize,
}

impl<'a> Cursor<'a> {
    /// The bytes that have not been read.
    pub open spec fn rest(self) -> Seq<u8> {
        if self.pos <= self.data@.len() {
            self.data@.skip(self.pos as int)
        } else {
            Seq::empty()
        }
    }

    /// The position lies within the data.
    pub open spec fn wf(self) -> bool {
        self.pos <= self.data@.len()
    }

    /// From `self` to `after`, `r` was read as `d` says.
    pub open spec fn reads<T>(self, after: Self, r: Option<T>, d: Decoded<T>) -> bool {
        &&& after.data == self.data
        &&& match d {
            Some((v, rest)) => r == Some(v) && after.wf() && after.rest() == rest,
            None => r is None && after.pos == self.pos,
        }
    }

    /// From `self` to `after`, a value was read whose view is what `d` says.
    pub open spec fn reads_view<T: View>(self, after: Self, r: Option<T>, d: Decoded<T::V>) -> bool {
        &&& after.data == self.data
        &&& match d {
            Some((v, rest)) => r is Some && r.unwrap()@ == v && after.wf() && after.rest() == rest,
            None => r is None,
        }
    }

    /// The next `n` bytes. The end is checked before it is reached for, so a length near the top
    /// of the address space is refused like any other that the data cannot hold.
    pub fn take(&mut self, n: usize) -> (r: Option<&'a [u8]>)
        ensures
            final(self).data == old(self).data,
            match r {
                Some(b) => {
                    &&& old(self).pos + n <= old(self).data@.len()
                    &&& b@ == old(self).data@.subrange(old(self).pos as int, old(self).pos + n)
                    &&& final(self).pos == old(self).pos + n
                    &&& dec_bytes(old(self).rest(), n as nat) == Some((b@, final(self).rest()))
                },
                None => {
                    &&& old(self).pos + n > old(self).data@.len()
                    &&& final(self).pos == old(self).pos
                    &&& n > 0 || old(self).wf() ==> dec_bytes(old(self).rest(), n as nat) is None
                },
            },
    {
        let len: usize = self.data.len();
        let end: usize = match self.pos.checked_add(n) {
            Some(end) => end,
            None => {
                return None;
            },
        };
        if end > len {
            return None;
        }
        let b = vstd::slice::slice_subrange(self.data, self.pos, end);
        self.pos = end;
        proof {
            let rest = old(self).rest();
            assert(rest.take(n as int) =~= b@);
            assert(rest.skip(n as int) =~= self.rest());
        }
        Some(b)
    }

    pub fn u8(&mut self) -> (r: Option<u8>)
        ensures
            old(self).reads(*final(self), r, dec_u8(old(self).rest())),
    {
        match self.take(1) {
            Some(b) => Some(b[0]),
            None => None,
        }
    }

    pub fn u16(&mut self) -> (r: Option<u16>)
        ensures
            old(self).reads(*final(self), r, dec_u16(old(self).rest())),
    {
        match self.take(2) {
            Some(b) => {
                proof {
                    lemma_le_bounds();
                    lemma_le_value_bound(b@);
                }
                Some(value_of(b) as u16)
            },
            None => None,
        }
    }

    pub fn u32(&mut self) -> (r: Option<u32>)
        ensures
            old(self).reads(*final(self), r, dec_u32(old(self).rest())),
    {
        match self.take(4) {
            Some(b) => {
                proof {
                    lemma_le_bounds();
                    lemma_le_value_bound(b@);
                }
                Some(value_of(b) as u32)
            },
            None => None,
        }
    }

    pub fn u64(&mut self) -> (r: Option<u64>)
        ensures
            old(self).reads(*final(self), r, dec_u64(old(self).rest())),
    {
        match self.take(8) {
            Some(b) => Some(value_of(b)),
            None => None,
        }
    }

    /// A count of entries of `each` bytes that sizes an allocation before they are read, refused
    /// when the bytes left cannot hold that many.
    pub fn count(&mut self, each: usize) -> (r: Option<usize>)
        requires
            each > 0,
        ensures
            final(self).data == old(self).data,
            match dec_count(old(self).rest(), each as nat) {
                Some((n, rest)) => r is Some && r.unwrap() == n && final(self).wf()
                    && final(self).rest() == rest,
                None => r is None,
            },
            // A count that is refused was read.
            final(self).pos == old(self).pos + (if old(self).rest().len() < 4 {
                0int
            } else {
                4
            }),
    {
        let n: u32 = match self.u32() {
            Some(n) => n,
            None => {
                return None;
            },
        };
        if n as usize <= (self.data.len() - self.pos) / each {
            Some(n as usize)
        } else {
            None
        }
    }

    /// A presence tag; any byte but 0 and 1 is refused.
    pub fn opt(&mut self) -> (r: Option<bool>)
        ensures
            final(self).data == old(self).data,
            match dec_flag(old(self).rest()) {
                Some((v, rest)) => r == Some(v) && final(self).wf() && final(self).rest() == rest,
                None => r is None,
            },
            // A tag that is refused was read.
            final(self).pos == old(self).pos + (if old(self).rest().len() < 1 {
                0int
            } else {
                1
            }),
    {
        let tag: Option<u8> = self.u8();
        assert(tag is Some ==> self.rest().len() + 1 == old(self).rest().len());
        match tag {
            Some(0) => Some(false),
            Some(1) => Some(true),
            _ => None,
        }
    }

    /// A 64-bit length and that many bytes.
    pub fn blob(&mut self) -> (r: Option<Vec<u8>>)
        ensures
            old(self).reads_view(*final(self), r, dec_blob(old(self).rest())),
            // A length that the data cannot hold was read.
            final(self).pos == old(self).pos + (if old(self).rest().len() < 8 {
                0int
            } else {
                8 + (match r {
                    Some(b) => b@.len() as int,
                    None => 0,
                })
            }),
    {
        let n: usize = match self.u64() {
            Some(n) => n as usize,
            None => {
                return None;
            },
        };
        match self.take(n) {
            Some(b) => Some(to_vec(b)),
            None => None,
        }
    }
}

/// A vector holding a copy of `b`.
pub fn to_vec(b: &[u8]) -> (v: Vec<u8>)
    ensures
        v@ == b@,
{
    let mut v: Vec<u8> = Vec::new();
    put_bytes(&mut v, b);
    assert(v@ =~= b@);
    v
}

/// A number goes out low byte first: each byte counts 256 times the one before it.
pub proof fn law_u16_bytes(v: u16)
    ensures
        enc_u16(v).len() == 2,
        enc_u16(v)[0] + 256 * enc_u16(v)[1] == v,
{
    reveal_with_fuel(le_bytes, 3);
}

/// A number goes out low byte first: each byte counts 256 times the one before it.
pub proof fn law_u32_bytes(v: u32)
    ensures
        enc_u32(v).len() == 4,
        enc_u32(v)[0] + 256 * enc_u32(v)[1] + 65536 * enc_u32(v)[2] + 16777216 * enc_u32(v)[3]
            == v,
        enc_u32(v)[0] == v % 256,
{
    reveal_with_fuel(le_bytes, 5);
}

/// A number goes out low byte first: the lower half is that of a shorter number.
pub proof fn law_u64_bytes(v: u64)
    ensures
        enc_u64(v).len() == 8,
        enc_u64(v)[0] + 256 * enc_u64(v)[1] + 65536 * enc_u64(v)[2] + 16777216 * enc_u64(v)[3]
            == v % 0x1_0000_0000,
        enc_u64(v)[4] + 256 * enc_u64(v)[5] + 65536 * enc_u64(v)[6] + 16777216 * enc_u64(v)[7] == v
            / 0x1_0000_0000,
{
    reveal_with_fuel(le_bytes, 9);
}

/// A number is read from its first bytes, low byte first, and what follows them is left.
pub proof fn law_numbers_are_read(s: Seq<u8>)
    ensures
        s.len() >= 1 ==> dec_u8(s) == Some((s[0], s.skip(1))),
        s.len() >= 2 ==> dec_u16(s) == Some(((s[0] + 256 * s[1]) as u16, s.skip(2))),
        s.len() >= 4 ==> dec_u32(s) == Some(
            ((s[0] + 256 * s[1] + 65536 * s[2] + 16777216 * s[3]) as u32, s.skip(4)),
        ),
        s.len() < 1 ==> dec_u8(s) is None,
        s.len() < 2 ==> dec_u16(s) is None,
        s.len() < 4 ==> dec_u32(s) is None,
        s.len() < 8 ==> dec_u64(s) is None,
        s.len() >= 8 ==> dec_u64(s) is Some && dec_u64(s).unwrap().1 == s.skip(8) && dec_u64(
            s,
        ).unwrap().0 % 0x1_0000_0000 == s[0] + 256 * s[1] + 65536 * s[2] + 16777216 * s[3]
            && dec_u64(s).unwrap().0 / 0x1_0000_0000 == s[4] + 256 * s[5] + 65536 * s[6] + 16777216
            * s[7],
{
    if s.len() >= 2 {
        lemma_two_bytes(s.take(2));
    }
    if s.len() >= 4 {
        lemma_four_bytes(s.take(4));
    }
    if s.len() >= 8 {
        let b = s.take(8);
        lemma_four_bytes(b.take(4));
        lemma_four_bytes(b.skip(4));
        lemma_eight_bytes(b);
    }
}

proof fn lemma_two_bytes(b: Seq<u8>)
    requires
        b.len() == 2,
    ensures
        le_value(b) == b[0] + 256 * b[1],
{
    let c = b.skip(1);
    assert(c.skip(1) =~= Seq::empty());
    assert(le_value(c.skip(1)) == 0);
    assert(le_value(c) == c[0] + 256 * le_value(c.skip(1)));
}

proof fn lemma_four_bytes(b: Seq<u8>)
    requires
        b.len() == 4,
    ensures
        le_value(b) == b[0] + 256 * b[1] + 65536 * b[2] + 16777216 * b[3],
{
    let c = b.skip(1);
    let d = c.skip(1);
    lemma_two_bytes(d);
    assert(le_value(c) == c[0] + 256 * le_value(d));
}

proof fn lemma_eight_bytes(b: Seq<u8>)
    requires
        b.len() == 8,
    ensures
        le_value(b) == le_value(b.take(4)) + 0x1_0000_0000 * le_value(b.skip(4)),
        le_value(b.take(4)) < 0x1_0000_0000,
        le_value(b.skip(4)) < 0x1_0000_0000,
{
    let b1 = b.skip(1);
    let b2 = b1.skip(1);
    let b3 = b2.skip(1);
    lemma_four_bytes(b.take(4));
    lemma_four_bytes(b.skip(4));
    assert(b3.skip(1) =~= b.skip(4));
    assert(le_value(b3) == b3[0] + 256 * le_value(b3.skip(1)));
    assert(le_value(b2) == b2[0] + 256 * le_value(b3));
    assert(le_value(b1) == b1[0] + 256 * le_value(b2));
    assert(le_value(b) == b[0] + 256 * le_value(b1));
}

} // verus!
