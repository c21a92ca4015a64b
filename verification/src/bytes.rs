//! Byte sequences: comparison, copying, and little-endian integers.

use vstd::prelude::*;

verus! {

/// Little-endian value of `width` bytes at `position`.
pub open spec fn little_endian(bytes: Seq<u8>, position: int, width: int) -> int
    decreases width,
{
    if width <= 0 {
        0
    } else {
        bytes[position] + 256 * little_endian(bytes, position + 1, width - 1)
    }
}

/// Number of values representable in `width` bytes.
pub open spec fn byte_range(width: nat) -> nat
    decreases width,
{
    if width == 0 {
        1
    } else {
        256 * byte_range((width - 1) as nat)
    }
}

/// The `width` little-endian bytes of `value`.
pub open spec fn le_bytes(value: nat, width: nat) -> Seq<u8>
    decreases width,
{
    if width == 0 {
        Seq::empty()
    } else {
        seq![(value % 256) as u8] + le_bytes(value / 256, (width - 1) as nat)
    }
}

pub proof fn lemma_little_endian_1(bytes: Seq<u8>, p: int)
    ensures
        little_endian(bytes, p, 1) == bytes[p],
{
    reveal_with_fuel(little_endian, 2);
}

pub proof fn lemma_little_endian_2(bytes: Seq<u8>, p: int)
    ensures
        little_endian(bytes, p, 2) == bytes[p] + 256 * bytes[p + 1],
{
    reveal_with_fuel(little_endian, 3);
}

pub proof fn lemma_little_endian_4(bytes: Seq<u8>, p: int)
    ensures
        little_endian(bytes, p, 4) == bytes[p] + 256 * bytes[p + 1] + 65536 * bytes[p + 2]
            + 16777216 * bytes[p + 3],
{
    reveal_with_fuel(little_endian, 5);
}

pub proof fn lemma_little_endian_8(bytes: Seq<u8>, p: int)
    ensures
        little_endian(bytes, p, 8) == little_endian(bytes, p, 4) + 4294967296 * little_endian(
            bytes,
            p + 4,
            4,
        ),
        0 <= little_endian(bytes, p, 4) <= u32::MAX,
        0 <= little_endian(bytes, p + 4, 4) <= u32::MAX,
{
    reveal_with_fuel(little_endian, 9);
    lemma_little_endian_4(bytes, p);
    lemma_little_endian_4(bytes, p + 4);
}

/// Little-endian bytes read back give the value they encode.
pub proof fn lemma_le_bytes_read_back(bytes: Seq<u8>, p: int, value: nat, width: nat)
    requires
        0 <= p,
        p + width <= bytes.len(),
        bytes.subrange(p, p + width) == le_bytes(value, width),
        value < byte_range(width),
    ensures
        little_endian(bytes, p, width as int) == value,
    decreases width,
{
    if width > 0 {
        let rest = (width - 1) as nat;
        assert(bytes[p] == le_bytes(value, width)[0]);
        assert(bytes.subrange(p + 1, p + 1 + rest) =~= le_bytes(value, width).subrange(
            1,
            width as int,
        ));
        assert(le_bytes(value, width).subrange(1, width as int) =~= le_bytes(value / 256, rest));
        assert(value / 256 < byte_range(rest)) by (nonlinear_arith)
            requires
                value < 256 * byte_range(rest),
        ;
        lemma_le_bytes_read_back(bytes, p + 1, value / 256, rest);
        assert(value == (value % 256) + 256 * (value / 256)) by (nonlinear_arith);
    }
}

pub proof fn lemma_le_bytes_len(value: nat, width: nat)
    ensures
        le_bytes(value, width).len() == width,
    decreases width,
{
    if width > 0 {
        lemma_le_bytes_len(value / 256, (width - 1) as nat);
    }
}


/// Bytes read as a little-endian value are that value's encoding.
pub proof fn lemma_little_endian_encoding(bytes: Seq<u8>, p: int, width: nat)
    requires
        0 <= p,
        p + width <= bytes.len(),
    ensures
        bytes.subrange(p, p + width) == le_bytes(little_endian(bytes, p, width as int) as nat, width),
        0 <= little_endian(bytes, p, width as int) < byte_range(width),
    decreases width,
{
    if width == 0 {
        assert(bytes.subrange(p, p) =~= Seq::<u8>::empty());
    } else {
        let rest = (width - 1) as nat;
        lemma_little_endian_encoding(bytes, p + 1, rest);
        let value = little_endian(bytes, p, width as int);
        let high = little_endian(bytes, p + 1, rest as int);
        assert(value == bytes[p] + 256 * high);
        vstd::arithmetic::div_mod::lemma_fundamental_div_mod_converse(value, 256, high, bytes[p] as int);
        assert(value < byte_range(width)) by (nonlinear_arith)
            requires
                value == bytes[p] + 256 * high,
                high < byte_range(rest),
                bytes[p] < 256,
                byte_range(width) == 256 * byte_range(rest),
        ;
        assert(bytes.subrange(p, p + width) =~= seq![bytes[p]] + bytes.subrange(p + 1, p + 1 + rest));
    }
}

/// Appends the `width` little-endian bytes of `value`.
pub fn push_le(output: &mut Vec<u8>, value: u64, width: usize)
    requires
        width <= 8,
    ensures
        final(output)@ == old(output)@ + le_bytes(value as nat, width as nat),
{
    let mut remaining: u64 = value;
    let mut index: usize = 0;
    while index < width
        invariant
            index <= width,
            output@ + le_bytes(remaining as nat, (width - index) as nat) == old(output)@
                + le_bytes(value as nat, width as nat),
        decreases width - index,
    {
        let ghost before = output@;
        let ghost previous = remaining as nat;
        let ghost rest = (width - index - 1) as nat;
        assert(le_bytes(previous, (width - index) as nat) == seq![(previous % 256) as u8]
            + le_bytes(previous / 256, rest));
        output.push((remaining % 256) as u8);
        remaining = remaining / 256;
        assert(output@ + le_bytes(remaining as nat, rest) =~= before + le_bytes(
            previous,
            (width - index) as nat,
        ));
        index += 1;
    }
}

/// Whether two byte sequences are identical.
pub fn bytes_equal(left: &[u8], right: &[u8]) -> (equal: bool)
    ensures
        equal == (left@ == right@),
{
    if left.len() != right.len() {
        return false;
    }
    let mut index: usize = 0;
    while index < left.len()
        invariant
            left@.len() == right@.len(),
            index <= left@.len(),
            forall|j: int| 0 <= j < index ==> left@[j] == right@[j],
        decreases left@.len() - index,
    {
        if left[index] != right[index] {
            return false;
        }
        index += 1;
    }
    assert(left@ =~= right@);
    true
}

/// Copies a byte range into an owned vector.
pub fn copy_range(bytes: &[u8], start: usize, end: usize) -> (copy: Vec<u8>)
    requires
        start <= end <= bytes@.len(),
    ensures
        copy@ == bytes@.subrange(start as int, end as int),
{
    let mut copy: Vec<u8> = Vec::new();
    let mut index: usize = start;
    while index < end
        invariant
            start <= index <= end,
            end <= bytes@.len(),
            copy@ == bytes@.subrange(start as int, index as int),
        decreases end - index,
    {
        copy.push(bytes[index]);
        index += 1;
        assert(copy@ =~= bytes@.subrange(start as int, index as int));
    }
    copy
}

} // verus!
