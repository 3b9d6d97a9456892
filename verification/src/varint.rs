//! Variable-length integers: the length prefix of a user message.
//!
//! The two most significant bits of the first byte give the width of the
//! encoding (1, 2, 4 or 8 bytes); the remaining bits, followed by the other
//! bytes in network order, give the value. Values up to `MAX_VARINT` fit.

use vstd::prelude::*;

verus! {

/// The largest value that has an encoding: 2^62 - 1.
pub const MAX_VARINT: u64 = 4611686018427387903;

/// The number of bytes that the shortest encoding of `v` takes.
pub open spec fn varint_len(v: nat) -> nat {
    if v < 64 {
        1
    } else if v < 16384 {
        2
    } else if v < 1073741824 {
        4
    } else {
        8
    }
}

/// The big-endian value of the bytes `s`.
pub open spec fn be_value(s: Seq<u8>) -> nat
    decreases s.len(),
{
    if s.len() == 0 {
        0
    } else {
        be_value(s.drop_last()) * 256 + s.last() as nat
    }
}

/// The `n` low-order bytes of `v`, most significant first.
pub open spec fn be_bytes(v: nat, n: nat) -> Seq<u8>
    decreases n,
{
    if n == 0 {
        Seq::empty()
    } else {
        be_bytes(v / 256, (n - 1) as nat).push((v % 256) as u8)
    }
}

/// The marker that a first byte carries in its two top bits for a width.
pub open spec fn width_marker(width: nat) -> nat {
    if width == 1 {
        0
    } else if width == 2 {
        64
    } else if width == 4 {
        128
    } else {
        192
    }
}

/// The width announced by a first byte.
pub open spec fn announced_width(first: u8) -> nat {
    if first < 64 {
        1
    } else if first < 128 {
        2
    } else if first < 192 {
        4
    } else {
        8
    }
}

/// The encoding of `v`: its big-endian bytes at the shortest width, with the
/// width's marker added to the first byte.
pub open spec fn spec_encode_varint(v: nat) -> Seq<u8>
    recommends
        v <= MAX_VARINT,
{
    let w = varint_len(v);
    let raw = be_bytes(v, w);
    raw.update(0, (raw[0] + width_marker(w)) as u8)
}

/// Reads one variable-length integer at the front of `s`: the value and the
/// number of bytes it took, or `None` where `s` ends before the integer does.
pub open spec fn spec_decode_varint(s: Seq<u8>) -> Option<(nat, nat)> {
    if s.len() == 0 {
        None
    } else {
        let w = announced_width(s[0]);
        if s.len() < w {
            None
        } else {
            let raw = s.subrange(0, w as int).update(0, (s[0] % 64) as u8);
            Some((be_value(raw), w))
        }
    }
}

/// `be_bytes(v, n)` has `n` bytes.
pub proof fn lemma_be_bytes_len(v: nat, n: nat)
    ensures
        be_bytes(v, n).len() == n,
    decreases n,
{
    if n > 0 {
        lemma_be_bytes_len(v / 256, (n - 1) as nat);
    }
}

/// `256^n`.
pub open spec fn radix_pow(n: nat) -> nat
    decreases n,
{
    if n == 0 {
        1
    } else {
        256 * radix_pow((n - 1) as nat)
    }
}

/// Writing a value that fits in `n` bytes and reading it back gives the value.
pub proof fn lemma_be_roundtrip(v: nat, n: nat)
    requires
        v < radix_pow(n),
    ensures
        be_value(be_bytes(v, n)) == v,
    decreases n,
{
    if n > 0 {
        let rest = be_bytes(v / 256, (n - 1) as nat);
        assert(v / 256 < radix_pow((n - 1) as nat)) by (nonlinear_arith)
            requires
                v < 256 * radix_pow((n - 1) as nat),
        ;
        lemma_be_roundtrip(v / 256, (n - 1) as nat);
        assert(be_bytes(v, n).drop_last() =~= rest);
        assert(be_bytes(v, n).last() == (v % 256) as u8);
    }
}

/// One more byte at the end shifts the value by a byte and adds the new one.
pub proof fn lemma_be_value_push(s: Seq<u8>, b: u8)
    ensures
        be_value(s.push(b)) == be_value(s) * 256 + b as nat,
{
    assert(s.push(b).drop_last() =~= s);
}

/// The first byte of a shortest encoding, before the marker is added, leaves
/// the two top bits free.
pub proof fn lemma_first_byte_small(v: nat)
    requires
        v <= MAX_VARINT,
    ensures
        be_bytes(v, varint_len(v)).len() == varint_len(v),
        be_bytes(v, varint_len(v))[0] < 64,
        v < radix_pow(varint_len(v)),
{
    reveal_with_fuel(be_bytes, 9);
    reveal_with_fuel(radix_pow, 9);
    lemma_be_bytes_len(v, varint_len(v));
    if v < 64 {
    } else if v < 16384 {
        assert(v / 256 < 64);
    } else if v < 1073741824 {
        let a = v / 256;
        let b = a / 256;
        let c = b / 256;
        assert(c < 64);
    } else {
        let a = v / 256;
        let b = a / 256;
        let c = b / 256;
        let d = c / 256;
        let e = d / 256;
        let f = e / 256;
        let g = f / 256;
        assert(g < 64);
    }
}

/// Reading back an encoded integer gives the integer and the encoding's
/// length, whatever follows the encoding.
pub proof fn lemma_varint_roundtrip(v: nat, rest: Seq<u8>)
    requires
        v <= MAX_VARINT,
    ensures
        spec_encode_varint(v).len() == varint_len(v),
        spec_decode_varint(spec_encode_varint(v) + rest) == Some((v, varint_len(v))),
{
    let w = varint_len(v);
    let raw = be_bytes(v, w);
    lemma_first_byte_small(v);
    let enc = spec_encode_varint(v);
    let s = enc + rest;
    assert(s[0] == enc[0]);
    assert(enc[0] == (raw[0] + width_marker(w)) as u8);
    assert(announced_width(s[0]) == w);
    assert(s[0] % 64 == raw[0]);
    assert(s.subrange(0, w as int).update(0, (s[0] % 64) as u8) =~= raw);
    lemma_be_roundtrip(v, w);
}

/// Appends the encoding of `v` to `out`.
pub fn encode_varint(v: u64, out: &mut Vec<u8>)
    requires
        v <= MAX_VARINT,
    ensures
        final(out)@ == old(out)@ + spec_encode_varint(v as nat),
{
    proof {
        reveal_with_fuel(be_bytes, 9);
        lemma_first_byte_small(v as nat);
    }
    let b7: u8 = (v % 256) as u8;
    let r7: u64 = v / 256;
    if v < 64 {
        out.push(b7);
    } else if v < 16384 {
        out.push((r7 + 64) as u8);
        out.push(b7);
    } else {
        let b6: u8 = (r7 % 256) as u8;
        let r6: u64 = r7 / 256;
        let b5: u8 = (r6 % 256) as u8;
        let r5: u64 = r6 / 256;
        if v < 1073741824 {
            out.push((r5 + 128) as u8);
            out.push(b5);
            out.push(b6);
            out.push(b7);
        } else {
            let b4: u8 = (r5 % 256) as u8;
            let r4: u64 = r5 / 256;
            let b3: u8 = (r4 % 256) as u8;
            let r3: u64 = r4 / 256;
            let b2: u8 = (r3 % 256) as u8;
            let r2: u64 = r3 / 256;
            let b1: u8 = (r2 % 256) as u8;
            let r1: u64 = r2 / 256;
            out.push((r1 + 192) as u8);
            out.push(b1);
            out.push(b2);
            out.push(b3);
            out.push(b4);
            out.push(b5);
            out.push(b6);
            out.push(b7);
        }
    }
    assert(out@ =~= old(out)@ + spec_encode_varint(v as nat));
}

/// Reads the variable-length integer that starts at `pos` in `buf`.
///
/// Gives the value and the number of bytes read, or `None` where the buffer
/// ends before the integer does.
pub fn decode_varint(buf: &[u8], pos: usize) -> (r: Option<(u64, usize)>)
    requires
        pos <= buf@.len(),
    ensures
        match spec_decode_varint(buf@.skip(pos as int)) {
            Some((value, width)) => r == Some((value as u64, width as usize)) && value
                <= MAX_VARINT && pos + width <= buf@.len(),
            None => r.is_none(),
        },
{
    let ghost s = buf@.skip(pos as int);
    if pos >= buf.len() {
        return None;
    }
    let first: u8 = buf[pos];
    let width: usize = if first < 64 {
        1
    } else if first < 128 {
        2
    } else if first < 192 {
        4
    } else {
        8
    };
    let n: usize = buf.len();
    if n - pos < width {
        return None;
    }
    let ghost raw = s.subrange(0, width as int).update(0, (first % 64) as u8);
    let mut value: u64 = (first % 64) as u64;
    let mut i: usize = 1;
    proof {
        assert(raw.subrange(0, 1) =~= Seq::<u8>::empty().push((first % 64) as u8));
        lemma_be_value_push(Seq::<u8>::empty(), (first % 64) as u8);
        reveal_with_fuel(radix_pow, 9);
    }
    while i < width
        invariant
            1 <= i <= width <= 8,
            pos + width <= n == buf@.len(),
            s == buf@.skip(pos as int),
            raw == s.subrange(0, width as int).update(0, (first % 64) as u8),
            value == be_value(raw.subrange(0, i as int)),
            value * 4 < radix_pow(i as nat),
        decreases width - i,
    {
        let b: u8 = buf[pos + i];
        proof {
            reveal_with_fuel(radix_pow, 9);
            assert(raw.subrange(0, i + 1) =~= raw.subrange(0, i as int).push(b));
            lemma_be_value_push(raw.subrange(0, i as int), b);
        }
        value = value * 256 + b as u64;
        i = i + 1;
    }
    proof {
        reveal_with_fuel(radix_pow, 9);
        assert(raw.subrange(0, width as int) =~= raw);
    }
    Some((value, width))
}

} // verus!
