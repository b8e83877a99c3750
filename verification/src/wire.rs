//! Protocol-buffer wire primitives: base-128 varints, field keys and
//! length-delimited fields, each appended to a byte buffer.

use vstd::prelude::*;

verus! {

/// Wire type of a varint-encoded scalar.
pub open spec fn wire_varint() -> nat {
    0
}

/// Wire type of a length-delimited value.
pub open spec fn wire_len() -> nat {
    2
}

/// Base-128 encoding of `n`, least significant group first; every byte but
/// the last has its high bit set.
pub open spec fn varint(n: nat) -> Seq<u8>
    decreases n,
{
    if n < 128 {
        seq![n as u8]
    } else {
        seq![(n % 128 + 128) as u8] + varint(n / 128)
    }
}

/// The unsigned 64-bit number that stands for a signed one on the wire
/// (two's complement).
pub open spec fn unsigned_of(v: int) -> nat {
    if v >= 0 {
        v as nat
    } else {
        (v + 0x1_0000_0000_0000_0000) as nat
    }
}

/// Key that precedes a field: its number and wire type in one varint.
pub open spec fn field_key(number: nat, wire_type: nat) -> Seq<u8> {
    varint(number * 8 + wire_type)
}

/// A varint field with its key.
pub open spec fn varint_field(number: nat, value: nat) -> Seq<u8> {
    field_key(number, wire_varint()) + varint(value)
}

/// A length-delimited field with its key and length prefix.
pub open spec fn len_field(number: nat, body: Seq<u8>) -> Seq<u8> {
    field_key(number, wire_len()) + varint(body.len()) + body
}

/// Appends the varint of `n`.
pub fn put_varint(out: &mut Vec<u8>, n: u64)
    ensures
        final(out)@ == old(out)@ + varint(n as nat),
{
    let mut v: u64 = n;
    while v >= 128
        invariant
            old(out)@ + varint(n as nat) == out@ + varint(v as nat),
        decreases v,
    {
        let low: u8 = (v % 128 + 128) as u8;
        proof {
            assert(varint(v as nat) == seq![low] + varint((v / 128) as nat));
            assert(out@ + (seq![low] + varint((v / 128) as nat)) =~= out@.push(low) + varint(
                (v / 128) as nat,
            ));
        }
        out.push(low);
        v = v / 128;
    }
    proof {
        assert(varint(v as nat) == seq![v as u8]);
        assert(out@ + seq![v as u8] =~= out@.push(v as u8));
    }
    out.push(v as u8);
}

/// The two's-complement image of a signed number.
pub fn to_unsigned(v: i64) -> (u: u64)
    ensures
        u as nat == unsigned_of(v as int),
{
    if v >= 0 {
        v as u64
    } else {
        let shifted: u64 = (v + i64::MAX + 1) as u64;
        shifted + 0x8000_0000_0000_0000
    }
}

/// Appends the key of field `number` with the given wire type.
pub fn put_key(out: &mut Vec<u8>, number: u32, wire_type: u8)
    requires
        wire_type < 8,
    ensures
        final(out)@ == old(out)@ + field_key(number as nat, wire_type as nat),
{
    let key: u64 = number as u64 * 8 + wire_type as u64;
    put_varint(out, key);
}

/// Appends a varint field.
pub fn put_varint_field(out: &mut Vec<u8>, number: u32, value: u64)
    ensures
        final(out)@ == old(out)@ + varint_field(number as nat, value as nat),
{
    put_key(out, number, 0);
    put_varint(out, value);
    proof {
        assert(old(out)@ + field_key(number as nat, 0) + varint(value as nat) =~= old(out)@
            + varint_field(number as nat, value as nat));
    }
}

/// Appends every byte of `bytes`.
pub fn put_bytes(out: &mut Vec<u8>, bytes: &[u8])
    ensures
        final(out)@ == old(out)@ + bytes@,
{
    let mut i: usize = 0;
    while i < bytes.len()
        invariant
            i <= bytes@.len(),
            out@ == old(out)@ + bytes@.subrange(0, i as int),
        decreases bytes@.len() - i,
    {
        proof {
            assert(bytes@.subrange(0, i as int).push(bytes@[i as int]) =~= bytes@.subrange(
                0,
                i as int + 1,
            ));
            assert((old(out)@ + bytes@.subrange(0, i as int)).push(bytes@[i as int]) =~= old(out)@
                + bytes@.subrange(0, i as int).push(bytes@[i as int]));
        }
        out.push(bytes[i]);
        i = i + 1;
    }
    proof {
        assert(bytes@.subrange(0, i as int) =~= bytes@);
    }
}

/// Appends a length-delimited field.
pub fn put_len_field(out: &mut Vec<u8>, number: u32, body: &[u8])
    ensures
        final(out)@ == old(out)@ + len_field(number as nat, body@),
{
    put_key(out, number, 2);
    put_varint(out, body.len() as u64);
    put_bytes(out, body);
    proof {
        assert(old(out)@ + field_key(number as nat, 2) + varint(body@.len()) + body@ =~= old(out)@
            + len_field(number as nat, body@));
    }
}

} // verus!
