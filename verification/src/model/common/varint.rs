use crate::buf::{bytes_advance, bytes_as_slice, bytes_len, bytes_mut_extend_from_slice, bytes_mut_view, bytes_view};
use crate::error::{ErrorKind, ParseError};
use bytes::{Bytes, BytesMut};
use vstd::arithmetic::div_mod::lemma_fundamental_div_mod;
use vstd::arithmetic::div_mod::lemma_fundamental_div_mod_converse;
use vstd::prelude::*;

verus! {

/// `256^n`.
pub open spec fn pow256(n: nat) -> nat
    decreases n,
{
    if n == 0 {
        1
    } else {
        256 * pow256((n - 1) as nat)
    }
}

/// The `n`-byte big-endian representation of `x` (the low `n` bytes of `x`).
pub open spec fn be_bytes(x: nat, n: nat) -> Seq<u8>
    decreases n,
{
    if n == 0 {
        Seq::empty()
    } else {
        be_bytes(x / 256, (n - 1) as nat).push((x % 256) as u8)
    }
}

/// Big-endian accumulation of `t` onto the high-order value `c`:
/// `c * 256^|t| + (t read as a big-endian number)`.
pub open spec fn be_acc(c: nat, t: Seq<u8>) -> nat
    decreases t.len(),
{
    if t.len() == 0 {
        c
    } else {
        be_acc(c, t.drop_last()) * 256 + t.last() as nat
    }
}

/// Total length of an encoding, given by its first byte: the number of
/// leading one bits plus one.
pub open spec fn vi_len_from_first(first: u8) -> nat {
    if first < 0x80 {
        1
    } else if first < 0xC0 {
        2
    } else if first < 0xE0 {
        3
    } else if first < 0xF0 {
        4
    } else if first < 0xF8 {
        5
    } else if first < 0xFC {
        6
    } else if first < 0xFE {
        7
    } else if first < 0xFF {
        8
    } else {
        9
    }
}

/// The length prefix (the `len - 1` leading one bits) of a `len`-byte encoding's first byte.
pub open spec fn vi_prefix(len: nat) -> nat {
    if len <= 1 {
        0
    } else if len == 2 {
        0x80
    } else if len == 3 {
        0xC0
    } else if len == 4 {
        0xE0
    } else if len == 5 {
        0xF0
    } else if len == 6 {
        0xF8
    } else if len == 7 {
        0xFC
    } else if len == 8 {
        0xFE
    } else {
        0xFF
    }
}

/// How many values the first byte of a `len`-byte encoding can carry beside its prefix.
pub open spec fn vi_room(len: nat) -> nat {
    if len <= 1 {
        0x80
    } else if len == 2 {
        0x40
    } else if len == 3 {
        0x20
    } else if len == 4 {
        0x10
    } else if len == 5 {
        0x08
    } else if len == 6 {
        0x04
    } else if len == 7 {
        0x02
    } else {
        0x01
    }
}

/// The smallest encoding length able to carry `v`.
pub open spec fn vi_min_len(v: u64) -> nat {
    if v < 0x80 {
        1
    } else if v < 0x4000 {
        2
    } else if v < 0x20_0000 {
        3
    } else if v < 0x1000_0000 {
        4
    } else if v < 0x8_0000_0000 {
        5
    } else if v < 0x400_0000_0000 {
        6
    } else if v < 0x2_0000_0000_0000 {
        7
    } else if v < 0x100_0000_0000_0000 {
        8
    } else {
        9
    }
}

/// The encoding that `put_vi` writes for `v`: the first byte holds the length
/// prefix and the high-order bits of `v`, followed by the low `len - 1` bytes
/// of `v` in big-endian order.
pub closed spec fn spec_vi_encode(v: u64) -> Seq<u8> {
    let len = vi_min_len(v);
    let p = pow256((len - 1) as nat);
    seq![(vi_prefix(len) + v as nat / p) as u8] + be_bytes(v as nat % p, (len - 1) as nat)
}

/// The value carried by an encoding of length `vi_len_from_first(s[0])` at the start of `s`.
pub open spec fn vi_value(s: Seq<u8>) -> nat {
    let len = vi_len_from_first(s[0]);
    be_acc((s[0] - vi_prefix(len)) as nat, s.subrange(1, len as int))
}

/// Reading one variable-length integer from the front of `s`: the value and
/// the bytes after it, or the kind of error.
pub closed spec fn spec_get_vi(s: Seq<u8>) -> Result<(u64, Seq<u8>), ErrorKind> {
    if s.len() == 0 {
        Err(ErrorKind::NotEnoughBytes)
    } else if s.len() < vi_len_from_first(s[0]) {
        Err(ErrorKind::NotEnoughBytes)
    } else {
        Ok((vi_value(s) as u64, s.skip(vi_len_from_first(s[0]) as int)))
    }
}

proof fn lemma_pow256_facts()
    ensures
        pow256(0) == 1,
        pow256(1) == 0x100,
        pow256(2) == 0x1_0000,
        pow256(3) == 0x100_0000,
        pow256(4) == 0x1_0000_0000,
        pow256(5) == 0x100_0000_0000,
        pow256(6) == 0x1_0000_0000_0000,
        pow256(7) == 0x100_0000_0000_0000,
        pow256(8) == 0x1_0000_0000_0000_0000,
{
    reveal_with_fuel(pow256, 9);
}

proof fn lemma_be_bytes_len(x: nat, n: nat)
    ensures
        be_bytes(x, n).len() == n,
    decreases n,
{
    if n > 0 {
        lemma_be_bytes_len(x / 256, (n - 1) as nat);
    }
}

/// Reading back `n` big-endian bytes of `y` on top of `c` gives `c * 256^n + y`.
#[verifier::spinoff_prover]
proof fn lemma_be_acc_be_bytes(c: nat, y: nat, n: nat)
    requires
        y < pow256(n),
    ensures
        be_acc(c, be_bytes(y, n)) == c * pow256(n) + y,
    decreases n,
{
    if n > 0 {
        let t = be_bytes(y, n);
        lemma_be_bytes_len(y, n);
        assert(t.drop_last() =~= be_bytes(y / 256, (n - 1) as nat));
        lemma_fundamental_div_mod(y as int, 256);
        assert(y / 256 < pow256((n - 1) as nat)) by (nonlinear_arith)
            requires
                y < 256 * pow256((n - 1) as nat),
                y == 256 * (y / 256) + y % 256,
                0 <= y % 256 < 256,
        ;
        lemma_be_acc_be_bytes(c, y / 256, (n - 1) as nat);
        assert(be_acc(c, t) == (c * pow256((n - 1) as nat) + y / 256) * 256 + y % 256);
        assert((c * pow256((n - 1) as nat) + y / 256) * 256 + y % 256 == c * (256 * pow256(
            (n - 1) as nat,
        )) + y) by (nonlinear_arith)
            requires
                y == 256 * (y / 256) + y % 256,
        ;
        assert(be_acc(c, t) == be_acc(c, t.drop_last()) * 256 + t.last() as nat);
        assert(t.last() == (y % 256) as u8);
        assert(pow256(n) == 256 * pow256((n - 1) as nat));
    } else {
        assert(be_bytes(y, n) =~= Seq::<u8>::empty());
        assert(pow256(n) == 1);
        assert(c * 1 == c);
    }
}

/// An accumulation stays below `(c + 1) * 256^|t|`.
proof fn lemma_be_acc_bound(c: nat, t: Seq<u8>)
    ensures
        be_acc(c, t) < (c + 1) * pow256(t.len()),
    decreases t.len(),
{
    if t.len() > 0 {
        lemma_be_acc_bound(c, t.drop_last());
        let k = be_acc(c, t.drop_last());
        let p = pow256((t.len() - 1) as nat);
        assert(be_acc(c, t) == k * 256 + t.last() as nat);
        assert(pow256(t.len()) == 256 * p);
        let q = pow256(t.len());
        assert(k * 256 + t.last() < (c + 1) * q) by (nonlinear_arith)
            requires
                k < (c + 1) * p,
                t.last() < 256,
                q == 256 * p,
        ;
    } else {
        assert(pow256(t.len()) == 1);
        vstd::arithmetic::mul::lemma_mul_basics((c + 1) as int);
    }
}

proof fn lemma_pow256_pos(n: nat)
    ensures
        pow256(n) > 0,
    decreases n,
{
    if n > 0 {
        lemma_pow256_pos((n - 1) as nat);
    }
}

/// The minimal length of `v` leaves room for `v` below the length prefix.
proof fn lemma_vi_min_len_room(v: u64)
    ensures
        ({
            let len = vi_min_len(v);
            let p = pow256((len - 1) as nat);
            &&& 1 <= len <= 9
            &&& p > 0
            &&& len < 9 ==> v < vi_room(len) * p
            &&& len == 9 ==> p == 0x1_0000_0000_0000_0000
        }),
{
    lemma_pow256_facts();
    let len = vi_min_len(v);
    let p = pow256((len - 1) as nat);
    if v < 0x80 {
        lemma_room_product(v as nat, vi_room(len), p, 0x80, 1);
    } else if v < 0x4000 {
        lemma_room_product(v as nat, vi_room(len), p, 0x40, 0x100);
    } else if v < 0x20_0000 {
        lemma_room_product(v as nat, vi_room(len), p, 0x20, 0x1_0000);
    } else if v < 0x1000_0000 {
        lemma_room_product(v as nat, vi_room(len), p, 0x10, 0x100_0000);
    } else if v < 0x8_0000_0000 {
        lemma_room_product(v as nat, vi_room(len), p, 0x08, 0x1_0000_0000);
    } else if v < 0x400_0000_0000 {
        lemma_room_product(v as nat, vi_room(len), p, 0x04, 0x100_0000_0000);
    } else if v < 0x2_0000_0000_0000 {
        lemma_room_product(v as nat, vi_room(len), p, 0x02, 0x1_0000_0000_0000);
    } else if v < 0x100_0000_0000_0000 {
        lemma_room_product(v as nat, vi_room(len), p, 0x01, 0x100_0000_0000_0000);
    }
}

proof fn lemma_room_product(v: nat, room: nat, p: nat, rv: nat, pv: nat)
    requires
        room == rv,
        p == pv,
        v < rv * pv,
    ensures
        v < room * p,
{
}

/// The first byte of a minimal encoding announces exactly the minimal length.
proof fn lemma_vi_first_byte(v: u64)
    ensures
        ({
            let len = vi_min_len(v);
            let p = pow256((len - 1) as nat);
            &&& 1 <= len <= 9
            &&& p > 0
            &&& len == 9 ==> v as nat / p == 0 && v as nat % p == v
            &&& vi_prefix(len) + v as nat / p < 256
            &&& vi_len_from_first((vi_prefix(len) + v as nat / p) as u8) == len
            &&& v as nat % p < p
        }),
{
    lemma_vi_min_len_room(v);
    let len = vi_min_len(v);
    let p = pow256((len - 1) as nat);
    lemma_fundamental_div_mod(v as int, p as int);
    let q = v as nat / p;
    if len == 9 {
        lemma_fundamental_div_mod_converse(v as int, p as int, 0, v as int);
    } else {
        let room = vi_room(len);
        assert(q < room) by (nonlinear_arith)
            requires
                v as nat == p * q + v as nat % p,
                v as nat % p >= 0,
                v < room * p,
                p > 0,
        ;
        let first = vi_prefix(len) + q;
        if len == 1 {
            assert(vi_len_from_first(first as u8) == 1);
        } else if len == 2 {
            assert(vi_len_from_first(first as u8) == 2);
        } else if len == 3 {
            assert(vi_len_from_first(first as u8) == 3);
        } else if len == 4 {
            assert(vi_len_from_first(first as u8) == 4);
        } else if len == 5 {
            assert(vi_len_from_first(first as u8) == 5);
        } else if len == 6 {
            assert(vi_len_from_first(first as u8) == 6);
        } else if len == 7 {
            assert(vi_len_from_first(first as u8) == 7);
        } else {
            assert(vi_len_from_first(first as u8) == 8);
        }
    }
}

/// An encoding's first byte leaves room for the rest of the value within 64 bits.
proof fn lemma_vi_first_capacity(first: u8)
    ensures
        ({
            let len = vi_len_from_first(first);
            &&& 1 <= len <= 9
            &&& vi_prefix(len) <= first
            &&& (first - vi_prefix(len) + 1) * pow256((len - 1) as nat) <= 0x1_0000_0000_0000_0000
        }),
{
    lemma_pow256_facts();
    let len = vi_len_from_first(first);
    let c = (first - vi_prefix(len)) as nat;
    let p = pow256((len - 1) as nat);
    if first < 0x80 {
        lemma_capacity_product(c, p, 0x80, 1);
    } else if first < 0xC0 {
        lemma_capacity_product(c, p, 0x40, 0x100);
    } else if first < 0xE0 {
        lemma_capacity_product(c, p, 0x20, 0x1_0000);
    } else if first < 0xF0 {
        lemma_capacity_product(c, p, 0x10, 0x100_0000);
    } else if first < 0xF8 {
        lemma_capacity_product(c, p, 0x08, 0x1_0000_0000);
    } else if first < 0xFC {
        lemma_capacity_product(c, p, 0x04, 0x100_0000_0000);
    } else if first < 0xFE {
        lemma_capacity_product(c, p, 0x02, 0x1_0000_0000_0000);
    } else if first < 0xFF {
        lemma_capacity_product(c, p, 0x01, 0x100_0000_0000_0000);
    } else {
        lemma_capacity_product(c, p, 0x01, 0x1_0000_0000_0000_0000);
    }
}

proof fn lemma_capacity_product(c: nat, p: nat, room: nat, pv: nat)
    requires
        c < room,
        p == pv,
        room * pv <= 0x1_0000_0000_0000_0000,
    ensures
        (c + 1) * p <= 0x1_0000_0000_0000_0000,
{
    assert((c + 1) * p <= room * pv) by (nonlinear_arith)
        requires
            c < room,
            p == pv,
    ;
}

/// Decoding a minimal encoding gives back the value and stops right after it.
pub proof fn lemma_vi_roundtrip(v: u64, rest: Seq<u8>)
    ensures
        spec_get_vi(spec_vi_encode(v) + rest) == Ok::<(u64, Seq<u8>), ErrorKind>((v, rest)),
        spec_vi_encode(v).len() == vi_min_len(v),
{
    lemma_vi_first_byte(v);
    let len = vi_min_len(v);
    let p = pow256((len - 1) as nat);
    let enc = spec_vi_encode(v);
    let s = enc + rest;
    lemma_be_bytes_len(v as nat % p, (len - 1) as nat);
    assert(s[0] == (vi_prefix(len) + v as nat / p) as u8);
    assert(s.subrange(1, len as int) =~= be_bytes(v as nat % p, (len - 1) as nat));
    lemma_be_acc_be_bytes(v as nat / p, v as nat % p, (len - 1) as nat);
    lemma_fundamental_div_mod(v as int, p as int);
    assert(vi_value(s) == v);
    assert(s.skip(len as int) =~= rest);
}

/// Encodings never overlap as prefixes: decoding stops at the end of the


/// A successful read consumes at least one byte, and leaves a suffix of its input.
pub proof fn lemma_get_vi_consumes(s: Seq<u8>)
    requires
        spec_get_vi(s) is Ok,
    ensures
        spec_get_vi(s)->Ok_0.1.len() < s.len(),
        spec_get_vi(s)->Ok_0.1 == s.skip(s.len() - spec_get_vi(s)->Ok_0.1.len()),
{

}

/// An encoding takes between one and nine bytes.
pub proof fn lemma_vi_encode_len(v: u64)
    ensures
        1 <= spec_vi_encode(v).len() <= 9,
{
    lemma_vi_roundtrip(v, Seq::empty());
}

/// first encoding, whatever follows it.
pub proof fn lemma_vi_prefix_free(s: Seq<u8>, rest: Seq<u8>)
    requires
        spec_get_vi(s) is Ok,
    ensures
        spec_get_vi(s + rest) == (match spec_get_vi(s) {
            Ok((v, r)) => Ok::<(u64, Seq<u8>), ErrorKind>((v, r + rest)),
            Err(e) => Err(e),
        }),
{
    let len = vi_len_from_first(s[0]);
    assert((s + rest)[0] == s[0]);
    assert((s + rest).subrange(1, len as int) =~= s.subrange(1, len as int));
    assert((s + rest).skip(len as int) =~= s.skip(len as int) + rest);
}

/// What reading one variable-length integer gives: an empty input, or one
/// shorter than the length its first byte announces, is short input;
/// otherwise the value carried by that many bytes and what follows them.
pub proof fn lemma_get_vi_reads(s: Seq<u8>)
    ensures
        s.len() == 0 ==> spec_get_vi(s) == Err::<(u64, Seq<u8>), ErrorKind>(ErrorKind::NotEnoughBytes),
        s.len() > 0 && s.len() < vi_len_from_first(s[0]) ==> spec_get_vi(s) == Err::<
            (u64, Seq<u8>),
            ErrorKind,
        >(ErrorKind::NotEnoughBytes),
        s.len() > 0 && s.len() >= vi_len_from_first(s[0]) ==> spec_get_vi(s) == Ok::<
            (u64, Seq<u8>),
            ErrorKind,
        >((vi_value(s) as u64, s.skip(vi_len_from_first(s[0]) as int))),
{
}

/// A value below 0x80 is written as the single byte holding it.
pub proof fn lemma_vi_encode_one_byte(v: u64)
    requires
        v < 0x80,
    ensures
        spec_vi_encode(v) == seq![v as u8],
{
    assert(vi_min_len(v) == 1);
    assert(pow256(0) == 1);
    assert(v as nat / 1 == v as nat);
    assert(vi_prefix(1) == 0);
    assert(be_bytes(v as nat % 1, 0) =~= Seq::<u8>::empty());
    assert(spec_vi_encode(v) =~= seq![v as u8]);
}

/// The encoding of `v`: a first byte holding the length prefix and the high
/// part of `v`, then the remaining bytes of `v` big-endian.
pub proof fn lemma_vi_encode_form(v: u64)
    ensures
        spec_vi_encode(v) == seq![
            (vi_prefix(vi_min_len(v)) + v as nat / pow256((vi_min_len(v) - 1) as nat)) as u8,
        ] + be_bytes(v as nat % pow256((vi_min_len(v) - 1) as nat), (vi_min_len(v) - 1) as nat),
{
}

fn vi_len_exec(first: u8) -> (len: usize)
    ensures
        len == vi_len_from_first(first),
{
    if first < 0x80 {
        1
    } else if first < 0xC0 {
        2
    } else if first < 0xE0 {
        3
    } else if first < 0xF0 {
        4
    } else if first < 0xF8 {
        5
    } else if first < 0xFC {
        6
    } else if first < 0xFE {
        7
    } else if first < 0xFF {
        8
    } else {
        9
    }
}

fn vi_prefix_exec(len: usize) -> (pre: u8)
    requires
        1 <= len <= 9,
    ensures
        pre == vi_prefix(len as nat),
{
    if len == 1 {
        0
    } else if len == 2 {
        0x80
    } else if len == 3 {
        0xC0
    } else if len == 4 {
        0xE0
    } else if len == 5 {
        0xF0
    } else if len == 6 {
        0xF8
    } else if len == 7 {
        0xFC
    } else if len == 8 {
        0xFE
    } else {
        0xFF
    }
}

fn pow256_exec(k: usize) -> (p: u64)
    requires
        k <= 7,
    ensures
        p == pow256(k as nat),
{
    proof {
        lemma_pow256_facts();
    }
    if k == 0 {
        1
    } else if k == 1 {
        0x100
    } else if k == 2 {
        0x1_0000
    } else if k == 3 {
        0x100_0000
    } else if k == 4 {
        0x1_0000_0000
    } else if k == 5 {
        0x100_0000_0000
    } else if k == 6 {
        0x1_0000_0000_0000
    } else {
        0x100_0000_0000_0000
    }
}

/// Number of bytes of the minimal encoding of `v`.
pub fn minimal_vi_length(v: u64) -> (len: usize)
    ensures
        len == vi_min_len(v),
{
    if v < 0x80 {
        1
    } else if v < 0x4000 {
        2
    } else if v < 0x20_0000 {
        3
    } else if v < 0x1000_0000 {
        4
    } else if v < 0x8_0000_0000 {
        5
    } else if v < 0x400_0000_0000 {
        6
    } else if v < 0x2_0000_0000_0000 {
        7
    } else if v < 0x100_0000_0000_0000 {
        8
    } else {
        9
    }
}

/// Appends the `n`-byte big-endian representation of `y` to `out`.
fn put_be_bytes(out: &mut Vec<u8>, y: u64, n: usize)
    requires
        n <= 8,
        y < pow256(n as nat),
    ensures
        final(out)@ == old(out)@ + be_bytes(y as nat, n as nat),
    decreases n,
{
    if n > 0 {
        proof {
            lemma_fundamental_div_mod(y as int, 256);
            assert(y / 256 < pow256((n - 1) as nat)) by (nonlinear_arith)
                requires
                    y < 256 * pow256((n - 1) as nat),
                    y == 256 * (y / 256) + y % 256,
                    0 <= y % 256 < 256,
            ;
        }
        put_be_bytes(out, y / 256, n - 1);
        out.push((y % 256) as u8);
        proof {
            assert(final(out)@ =~= old(out)@ + be_bytes(y as nat, n as nat));
        }
    }
}

/// Appends the minimal encoding of `v` to `out`.
pub fn push_vi(out: &mut Vec<u8>, v: u64)
    ensures
        final(out)@ == old(out)@ + spec_vi_encode(v),
{
    proof {
        lemma_vi_first_byte(v);
        lemma_pow256_facts();
    }
    let len = minimal_vi_length(v);
    let pre = vi_prefix_exec(len);
    if len == 9 {
        out.push(pre);
        put_be_bytes(out, v, 8);
    } else {
        let p = pow256_exec(len - 1);
        out.push((pre as u64 + v / p) as u8);
        put_be_bytes(out, v % p, len - 1);
    }
    proof {
        assert(final(out)@ =~= old(out)@ + spec_vi_encode(v));
    }
}

/// The minimal encoding of `v`.
pub fn encode_vi(v: u64) -> (out: Vec<u8>)
    ensures
        out@ == spec_vi_encode(v),
{
    let mut out = Vec::new();
    push_vi(&mut out, v);
    proof {
        assert(out@ =~= spec_vi_encode(v));
    }
    out
}

/// Reads one variable-length integer from the front of `s`, returning the
/// value and the number of bytes it took.
pub fn decode_vi(s: &[u8]) -> (r: Result<(u64, usize), ParseError>)
    ensures
        match r {
            Ok((v, n)) => n <= s@.len() && spec_get_vi(s@) == Ok::<(u64, Seq<u8>), ErrorKind>(
                (v, s@.skip(n as int)),
            ),
            Err(e) => spec_get_vi(s@) == Err::<(u64, Seq<u8>), ErrorKind>(e.kind()),
        },
{
    if s.len() == 0 {
        return Err(ParseError::NotEnoughBytes { context: "varint first byte", needed: 1, available: 0 });
    }
    let first = s[0];
    let length = vi_len_exec(first);
    if s.len() < length {
        return Err(
            ParseError::NotEnoughBytes {
                context: "varint continuation",
                needed: length,
                available: s.len(),
            },
        );
    }
    let pre = vi_prefix_exec(length);
    let c: u8 = first - pre;
    let mut val: u64 = c as u64;
    let mut i: usize = 1;
    proof {
        lemma_vi_first_capacity(first);
        assert(s@.subrange(1, 1) =~= Seq::<u8>::empty());
    }
    while i < length
        invariant
            1 <= i <= length,
            length == vi_len_from_first(first),
            length <= s@.len(),
            first == s@[0],
            c == first - vi_prefix(length as nat),
            (c as nat + 1) * pow256((length - 1) as nat) <= 0x1_0000_0000_0000_0000,
            val == be_acc(c as nat, s@.subrange(1, i as int)),
        decreases length - i,
    {
        let ghost t = s@.subrange(1, i as int + 1);
        proof {
            assert(t.drop_last() =~= s@.subrange(1, i as int));
            lemma_be_acc_bound(c as nat, t);
            assert((c as nat + 1) * pow256(t.len()) <= (c as nat + 1) * pow256((length - 1) as nat)) by {
                lemma_pow256_mono(t.len(), (length - 1) as nat);
                vstd::arithmetic::mul::lemma_mul_inequality(
                    pow256(t.len()) as int,
                    pow256((length - 1) as nat) as int,
                    c as int + 1,
                );
                vstd::arithmetic::mul::lemma_mul_is_commutative(c as int + 1, pow256(t.len()) as int);
                vstd::arithmetic::mul::lemma_mul_is_commutative(c as int + 1, pow256((length - 1) as nat) as int);
            }
        }
        val = val * 256 + s[i] as u64;
        i = i + 1;
    }
    proof {
        assert(val == vi_value(s@));
    }
    Ok((val, length))
}

proof fn lemma_pow256_mono(a: nat, b: nat)
    requires
        a <= b,
    ensures
        pow256(a) <= pow256(b),
    decreases b,
{
    if a < b {
        lemma_pow256_mono(a, (b - 1) as nat);
    }
}

/// What a failed read leaves of `s`: the first byte has been taken to learn
/// the length, unless there was none.
pub open spec fn spec_after_failed_vi(s: Seq<u8>) -> Seq<u8> {
    if s.len() == 0 {
        s
    } else {
        s.skip(1)
    }
}

/// Reading a variable-length integer from a buffer.
pub trait BufVarIntExt {
    fn get_vi(&mut self) -> Result<u64, ParseError>;
}

/// Writing a variable-length integer into a buffer.
pub trait BufMutVarIntExt<T> {
    fn put_vi(&mut self, value: T) -> Result<(), ParseError>;
}

impl BufVarIntExt for Bytes {
    /// Reads one variable-length integer and drops its bytes from the front of the buffer.
    fn get_vi(&mut self) -> (r: Result<u64, ParseError>)
        ensures
            match r {
                Ok(v) => spec_get_vi(bytes_view(*old(self))) == Ok::<(u64, Seq<u8>), ErrorKind>(
                    (v, bytes_view(*final(self))),
                ),
                Err(e) => spec_get_vi(bytes_view(*old(self))) == Err::<(u64, Seq<u8>), ErrorKind>(
                    e.kind(),
                ) && bytes_view(*final(self)) == spec_after_failed_vi(bytes_view(*old(self))),
            },
    {
        let s = bytes_as_slice(self);
        match decode_vi(s) {
            Ok((v, n)) => {
                bytes_advance(self, n);
                Ok(v)
            },
            Err(e) => {
                if bytes_len(self) > 0 {
                    bytes_advance(self, 1);
                }
                Err(e)
            },
        }
    }
}

impl BufMutVarIntExt<u64> for BytesMut {
    /// Appends the minimal encoding of `value`; never fails.
    fn put_vi(&mut self, value: u64) -> (r: Result<(), ParseError>)
        ensures
            r is Ok,
            bytes_mut_view(*final(self)) == bytes_mut_view(*old(self)) + spec_vi_encode(value),
    {
        let enc = encode_vi(value);
        bytes_mut_extend_from_slice(self, enc.as_slice());
        Ok(())
    }
}

} // verus!
