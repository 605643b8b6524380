use vstd::prelude::*;

use vstd::arithmetic::power2::pow2;

verus! {

/// The value of the bits of byte `b` of `raw` selected by the bit range
/// `[off, end)`. Bit `i` of a byte counts from the least significant end,
/// so the view's bit `8 * b + i` is bit `i` of byte `b`; the selected bits
/// keep their in-byte significance.
pub open spec fn spec_byte_chunk(raw: Seq<u8>, off: int, end: int, b: int) -> nat {
    let lo = if off > 8 * b {
        off - 8 * b
    } else {
        0
    };
    let hi = if end < 8 * b + 8 {
        end - 8 * b
    } else {
        8
    };
    ((raw[b] as nat) / pow2(lo as nat)) % pow2((hi - lo) as nat)
}

/// The bit field at `[off, off + len)` of `raw`, read as a bit view with
/// least-significant-first bit order inside each byte, loaded big-endian:
/// the touched bytes contribute in ascending order, the first one as the
/// most significant chunk.
pub open spec fn spec_bit_field(raw: Seq<u8>, off: nat, len: nat) -> nat
    decreases len,
{
    if len == 0 {
        0
    } else {
        let end = off + len;
        let lastb = (end - 1) / 8;
        let cstart: int = if off > 8 * lastb {
            off as int
        } else {
            8 * lastb
        };
        let w = end - cstart;
        spec_bit_field(raw, off, (cstart - off) as nat) * pow2(w as nat) + spec_byte_chunk(
            raw,
            off as int,
            end as int,
            lastb as int,
        )
    }
}

/// Reads the bit field at `[bit_offset, bit_offset + bit_length)` of `raw`:
/// the raw accessor runtime of every generated decoder. Wider fields and
/// empty ones stay byte slices and never reach this reader.
pub fn load_be_bits(raw: &[u8], bit_offset: usize, bit_length: usize) -> (r: u64)
    requires
        bit_offset + bit_length <= raw@.len() * 8,
        bit_offset + bit_length <= usize::MAX,
        bit_length <= 64,
    ensures
        r == spec_bit_field(raw@, bit_offset as nat, bit_length as nat),
{
    broadcast use vstd::bits::lemma_u64_shr_is_div;
    broadcast use vstd::bits::lemma_u64_shl_is_mul;
    broadcast use vstd::bits::lemma_u64_low_bits_mask_is_mod;
    broadcast use vstd::bits::lemma_u64_pow2_no_overflow;
    broadcast use vstd::arithmetic::power2::lemma_pow2_adds;
    broadcast use vstd::arithmetic::power2::lemma_pow2_pos;

    if bit_length == 0 {
        return 0;
    }
    let end: usize = bit_offset + bit_length;
    let first: usize = bit_offset / 8;
    let last: usize = (end - 1) / 8;
    proof {
        assert(8 * first <= bit_offset && bit_offset < 8 * first + 8 && 8 * last <= end - 1 < 8
            * last + 8) by (nonlinear_arith)
            requires
                first == bit_offset / 8,
                last == (end - 1) / 8,
                0 <= bit_offset,
                bit_offset < end,
        ;
        assert(first <= last) by (nonlinear_arith)
            requires
                first == bit_offset / 8,
                last == (end - 1) / 8,
                bit_offset <= end - 1,
        ;
        assert(last < raw@.len()) by (nonlinear_arith)
            requires
                8 * last <= end - 1,
                end <= raw@.len() * 8,
        ;
    }
    let mut acc: u64 = 0;
    let mut b: usize = first;
    while b <= last
        invariant
            first <= b <= last + 1,
            8 * first <= bit_offset < 8 * first + 8,
            8 * last <= end - 1 < 8 * last + 8,
            bit_offset < end <= raw@.len() * 8,
            end <= usize::MAX,
            end - bit_offset <= 64,
            last < raw@.len(),
            ({
                let processed: int = if b == first {
                    bit_offset as int
                } else {
                    if 8 * b < end {
                        8 * b
                    } else {
                        end as int
                    }
                };
                &&& acc == spec_bit_field(
                    raw@,
                    bit_offset as nat,
                    (processed - bit_offset) as nat,
                )
                &&& acc < pow2((processed - bit_offset) as nat)
            }),
        decreases last + 1 - b,
    {
        let ghost processed: int = if b == first {
            bit_offset as int
        } else {
            8 * b
        };
        proof {
            if b > first {
                assert(8 * first + 8 <= 8 * b) by (nonlinear_arith)
                    requires
                        first < b,
                ;
            }
            if b < last {
                assert(8 * b + 8 <= 8 * last) by (nonlinear_arith)
                    requires
                        b < last,
                ;
            }
            assert(8 * b <= 8 * last);
        }
        let lo: usize = if bit_offset > 8 * b {
            bit_offset - 8 * b
        } else {
            0
        };
        let rem: usize = end - 8 * b;
        let hi: usize = if rem < 8 {
            rem
        } else {
            8
        };
        assert(lo < hi <= 8);
        let w: usize = hi - lo;
        let byte: u64 = raw[b] as u64;
        proof {
            vstd::bits::lemma_u64_pow2_no_overflow(w as nat);
            vstd::bits::lemma_u64_shl_is_mul(1u64, w as u64);
            vstd::arithmetic::power2::lemma_pow2_pos(w as nat);
            assert(1u64 << (w as u64) == pow2(w as nat));
        }
        let chunk: u64 = (byte >> (lo as u64)) & ((1u64 << (w as u64)) - 1);
        proof {
            assert((1u64 << (w as u64)) - 1 == vstd::bits::low_bits_mask(w as nat));
            vstd::bits::lemma_u64_shr_is_div(byte, lo as u64);
            vstd::bits::lemma_u64_low_bits_mask_is_mod(byte >> (lo as u64), w as nat);
            assert(chunk == ((byte as nat) / pow2(lo as nat)) % pow2(w as nat));
            assert(chunk == spec_byte_chunk(raw@, bit_offset as int, end as int, b as int));
            assert(chunk < pow2(w as nat)) by {
                vstd::arithmetic::div_mod::lemma_mod_bound(
                    ((byte as nat) / pow2(lo as nat)) as int,
                    pow2(w as nat) as int,
                );
            }
            // The accumulator still fits once this chunk is appended.
            let p = (processed - bit_offset) as nat;
            assert(acc * pow2(w as nat) + chunk < pow2((p + w) as nat)) by {
                vstd::arithmetic::mul::lemma_mul_is_distributive_add_other_way(
                    pow2(w as nat) as int,
                    acc as int,
                    1,
                );
                assert((acc as int + 1) * pow2(w as nat) == acc * pow2(w as nat) + pow2(w as nat));
                vstd::arithmetic::mul::lemma_mul_inequality(
                    acc as int + 1,
                    pow2(p) as int,
                    pow2(w as nat) as int,
                );
                assert((acc as int + 1) * pow2(w as nat) <= pow2(p) as int * pow2(w as nat));
                vstd::arithmetic::power2::lemma_pow2_adds(p, w as nat);
                assert(pow2(p) as int * pow2(w as nat) == pow2((p + w) as nat));
            }
            assert(acc * pow2(w as nat) + chunk < pow2((processed - bit_offset + w) as nat));
            assert((processed - bit_offset + w) <= 64);
            if processed - bit_offset + w < 64 {
                vstd::arithmetic::power2::lemma_pow2_strictly_increases(
                    (processed - bit_offset + w) as nat,
                    64,
                );
            }
            vstd::arithmetic::power2::lemma2_to64_rest();
        }
        proof {
            assert(acc * pow2(w as nat) <= u64::MAX);
        }
        let shifted: u64 = acc << (w as u64);
        proof {
            vstd::bits::lemma_u64_shl_is_mul(acc, w as u64);
            assert(shifted == acc * pow2(w as nat));
            assert(shifted | chunk == shifted + chunk) by (bit_vector)
                requires
                    chunk < (1u64 << (w as u64)),
                    w <= 8,
                    shifted == acc << (w as u64),
            ;
        }
        acc = shifted | chunk;
        proof {
            let new_processed: int = if 8 * (b + 1) < end {
                8 * (b + 1)
            } else {
                end as int
            };
            let new_len = (new_processed - bit_offset) as nat;
            // The recursion peels exactly this byte's chunk off the end.
            assert((new_processed - 1) / 8 == b) by (nonlinear_arith)
                requires
                    8 * b < new_processed <= 8 * b + 8,
            ;
            assert(8 * b < new_processed <= 8 * b + 8);
            assert(spec_bit_field(raw@, bit_offset as nat, new_len) == spec_bit_field(
                raw@,
                bit_offset as nat,
                (processed - bit_offset) as nat,
            ) * pow2(w as nat) + spec_byte_chunk(
                raw@,
                bit_offset as int,
                (bit_offset + new_len) as int,
                b as int,
            ));
            assert(spec_byte_chunk(raw@, bit_offset as int, (bit_offset + new_len) as int, b as int)
                == spec_byte_chunk(raw@, bit_offset as int, end as int, b as int));
        }
        b += 1;
    }
    acc
}

} // verus!
