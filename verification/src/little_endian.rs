//! Unsigned integers as little-endian bytes.

use vstd::prelude::*;

verus! {

/// The number that `bytes` spell, the first byte being the least significant.
pub open spec fn le_value(bytes: Seq<u8>) -> nat
    decreases bytes.len(),
{
    if bytes.len() == 0 {
        0
    } else {
        bytes[0] as nat + 256 * le_value(bytes.drop_first())
    }
}

/// The `len` low bytes of `value`, the least significant first.
pub open spec fn le_bytes(value: nat, len: nat) -> Seq<u8>
    decreases len,
{
    if len == 0 {
        Seq::empty()
    } else {
        seq![(value % 256) as u8] + le_bytes(value / 256, (len - 1) as nat)
    }
}

/// How many values `len` bytes can spell.
pub open spec fn le_limit(len: nat) -> nat
    decreases len,
{
    if len == 0 {
        1
    } else {
        256 * le_limit((len - 1) as nat)
    }
}

/// The limits of the three field widths that the wire format uses.
pub proof fn lemma_le_limits()
    ensures
        le_limit(2) == 0x1_0000,
        le_limit(4) == 0x1_0000_0000,
        le_limit(8) == 0x1_0000_0000_0000_0000,
{
    reveal_with_fuel(le_limit, 9);
}

/// `len` bytes come out of [`le_bytes`].
pub proof fn lemma_le_bytes_len(value: nat, len: nat)
    ensures
        le_bytes(value, len).len() == len,
    decreases len,
{
    if len > 0 {
        lemma_le_bytes_len(value / 256, (len - 1) as nat);
    }
}

/// What bytes spell stays under the limit of their number.
pub proof fn lemma_le_value_bound(bytes: Seq<u8>)
    ensures
        le_value(bytes) < le_limit(bytes.len()),
    decreases bytes.len(),
{
    if bytes.len() > 0 {
        lemma_le_value_bound(bytes.drop_first());
    }
}

/// Writing a value that fits in `len` bytes and reading it back gives the value.
pub proof fn law_read_back_value(value: nat, len: nat)
    requires
        value < le_limit(len),
    ensures
        le_value(le_bytes(value, len)) == value,
    decreases len,
{
    if len > 0 {
        let rest = le_bytes(value / 256, (len - 1) as nat);
        law_read_back_value(value / 256, (len - 1) as nat);
        assert(le_bytes(value, len).drop_first() =~= rest);
    }
}

/// Reading bytes and writing their value in as many bytes gives the bytes.
pub proof fn law_write_back_bytes(bytes: Seq<u8>)
    ensures
        le_bytes(le_value(bytes), bytes.len()) == bytes,
    decreases bytes.len(),
{
    if bytes.len() > 0 {
        let rest = bytes.drop_first();
        law_write_back_bytes(rest);
        assert(le_value(bytes) % 256 == bytes[0] as nat);
        assert(le_value(bytes) / 256 == le_value(rest));
        assert(seq![bytes[0]] + rest =~= bytes);
    }
}

/// Appends `value` to `out` as `len` bytes.
pub(crate) fn push_le(out: &mut Vec<u8>, value: u64, len: usize)
    ensures
        final(out)@ == old(out)@ + le_bytes(value as nat, len as nat),
{
    let mut rest: u64 = value;
    let mut left: usize = len;
    while left > 0
        invariant
            left <= len,
            out@ + le_bytes(rest as nat, left as nat) == old(out)@ + le_bytes(
                value as nat,
                len as nat,
            ),
        decreases left,
    {
        let ghost before = out@;
        out.push((rest % 256) as u8);
        proof {
            assert(out@ + le_bytes(rest as nat / 256, (left - 1) as nat) =~= before + le_bytes(
                rest as nat,
                left as nat,
            ));
        }
        rest = rest / 256;
        left = left - 1;
    }
    assert(out@ + le_bytes(rest as nat, 0) =~= out@);
}

/// Reads the `len` bytes of `bytes` that start at `at`.
pub(crate) fn read_le(bytes: &[u8], at: usize, len: usize) -> (value: u64)
    requires
        len <= 8,
        at + len <= bytes@.len(),
    ensures
        value == le_value(bytes@.subrange(at as int, at + len)),
        value < le_limit(len as nat),
{
    let available: usize = bytes.len();
    let mut value: u64 = 0;
    let mut left: usize = len;
    while left > 0
        invariant
            left <= len <= 8,
            at + len <= bytes@.len(),
            bytes@.len() == available,
            value == le_value(bytes@.subrange(at + left, at + len)),
        decreases left,
    {
        let ghost high = bytes@.subrange(at + left, at + len);
        left = left - 1;
        let ghost all = bytes@.subrange(at + left, at + len);
        proof {
            assert(all.drop_first() =~= high);
            lemma_le_value_bound(all);
            reveal_with_fuel(le_limit, 9);
        }
        value = bytes[at + left] as u64 + 256 * value;
    }
    proof {
        lemma_le_value_bound(bytes@.subrange(at as int, at + len));
    }
    value
}

} // verus!
