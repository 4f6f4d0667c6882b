//! The chunk planner: splitting a byte buffer into fixed-size blocks, the last
//! of which may be shorter than the others.

use vstd::prelude::*;
use vstd::arithmetic::div_mod::{
    lemma_fundamental_div_mod, lemma_fundamental_div_mod_converse,
    lemma_mod_division_less_than_divisor, lemma_div_pos_is_pos, lemma_div_nonincreasing,
};
use vstd::arithmetic::mul::lemma_mul_inequality;

verus! {

/// How many blocks of `block_size` bytes a `len`-byte buffer splits into:
/// `ceil(len / block_size)`.
pub open spec fn spec_block_count(len: int, block_size: int) -> int
    recommends
        0 <= len,
        1 <= block_size,
{
    (len + block_size - 1) / block_size
}

/// Where the buffer position of block boundary `i` falls: `i * block_size`,
/// capped at the buffer length.
pub open spec fn spec_block_prefix_len(len: int, block_size: int, i: int) -> int {
    if i * block_size <= len {
        i * block_size
    } else {
        len
    }
}

/// The `i`-th block of `data`: the bytes between boundaries `i` and `i + 1`.
pub open spec fn spec_block_at(data: Seq<u8>, block_size: int, i: int) -> Seq<u8>
    recommends
        1 <= block_size,
        0 <= i,
{
    data.subrange(
        spec_block_prefix_len(data.len() as int, block_size, i),
        spec_block_prefix_len(data.len() as int, block_size, i + 1),
    )
}

/// The ceiling division behind the block count covers the buffer and wastes
/// less than one block.
pub proof fn lemma_block_count_bounds(len: int, block_size: int)
    requires
        0 <= len,
        1 <= block_size,
    ensures
        0 <= spec_block_count(len, block_size),
        len <= spec_block_count(len, block_size) * block_size,
        spec_block_count(len, block_size) * block_size <= len + block_size - 1,
        spec_block_count(len, block_size) <= len,
        len == 0 ==> spec_block_count(len, block_size) == 0,
        len > 0 ==> 1 <= spec_block_count(len, block_size),
{
    let q = spec_block_count(len, block_size);
    lemma_fundamental_div_mod(len + block_size - 1, block_size);
    lemma_mod_division_less_than_divisor(len + block_size - 1, block_size);
    let r = (len + block_size - 1) % block_size;
    assert(q * block_size == len + block_size - 1 - r) by (nonlinear_arith)
        requires
            len + block_size - 1 == block_size * q + r,
    ;
    lemma_div_pos_is_pos(len + block_size - 1, block_size);
    if q > len {
        lemma_mul_inequality(len + 1, q, block_size);
        assert((len + 1) * block_size == len * block_size + block_size) by (nonlinear_arith);
        assert(len <= len * block_size) by (nonlinear_arith)
            requires
                0 <= len,
                1 <= block_size,
        ;
        assert(false);
    }
}

/// Every block before the last starts strictly inside the buffer.
pub proof fn lemma_block_start(len: int, block_size: int, i: int)
    requires
        0 <= len,
        1 <= block_size,
        0 <= i,
        i < spec_block_count(len, block_size),
    ensures
        i * block_size < len,
        spec_block_prefix_len(len, block_size, i) == i * block_size,
        (i + 1) * block_size == i * block_size + block_size,
        i * block_size <= spec_block_prefix_len(len, block_size, i + 1),
        0 <= i * block_size,
{
    let q = spec_block_count(len, block_size);
    lemma_block_count_bounds(len, block_size);
    lemma_mul_inequality(i + 1, q, block_size);
    assert((i + 1) * block_size == i * block_size + block_size) by (nonlinear_arith);
    assert(0 <= i * block_size) by (nonlinear_arith)
        requires
            0 <= i,
            1 <= block_size,
    ;
}

/// How many blocks a buffer of `len` bytes splits into.
pub fn block_count(len: usize, block_size: usize) -> (r: usize)
    requires
        1 <= block_size,
    ensures
        r == spec_block_count(len as int, block_size as int),
{
    if len == 0 {
        proof {
            lemma_block_count_bounds(0, block_size as int);
        }
        0
    } else {
        proof {
            let l = len as int;
            let b = block_size as int;
            lemma_fundamental_div_mod(l - 1, b);
            lemma_mod_division_less_than_divisor(l - 1, b);
            let d = (l - 1) / b;
            let m = (l - 1) % b;
            assert(l + b - 1 == (d + 1) * b + m) by (nonlinear_arith)
                requires
                    l - 1 == b * d + m,
            ;
            lemma_fundamental_div_mod_converse(l + b - 1, b, d + 1, m);
            lemma_div_pos_is_pos(l - 1, b);
            lemma_div_nonincreasing(l - 1, b);
        }
        (len - 1) / block_size + 1
    }
}

/// The end of block `i`: boundary `i + 1`, capped at the buffer length.
pub fn block_end(len: usize, block_size: usize, i: usize) -> (r: usize)
    requires
        1 <= block_size,
        i < spec_block_count(len as int, block_size as int),
    ensures
        r == spec_block_prefix_len(len as int, block_size as int, i as int + 1),
        r <= len,
{
    proof {
        lemma_block_start(len as int, block_size as int, i as int);
    }
    let start = i * block_size;
    if len - start < block_size {
        len
    } else {
        start + block_size
    }
}

/// Copies the `i`-th block of `data` out into its own buffer.
#[verifier::loop_isolation(false)]
pub fn block_at(data: &Vec<u8>, block_size: usize, i: usize) -> (r: Vec<u8>)
    requires
        1 <= block_size,
        i < spec_block_count(data@.len() as int, block_size as int),
    ensures
        r@ == spec_block_at(data@, block_size as int, i as int),
{
    let len = data.len();
    proof {
        lemma_block_start(len as int, block_size as int, i as int);
    }
    let start = i * block_size;
    let end = block_end(len, block_size, i);
    let mut r: Vec<u8> = Vec::new();
    let mut j = start;
    while j < end
        invariant
            start <= j <= end,
            r@ == data@.subrange(start as int, j as int),
        decreases end - j,
    {
        r.push(data[j]);
        j += 1;
        proof {
            assert(r@ =~= data@.subrange(start as int, j as int));
        }
    }
    proof {
        assert(r@ =~= spec_block_at(data@, block_size as int, i as int));
    }
    r
}

/// Blocks `i` and onward of `data`, concatenated in order.
pub open spec fn spec_blocks_concat_from(data: Seq<u8>, block_size: int, i: int) -> Seq<u8>
    decreases spec_block_count(data.len() as int, block_size) - i,
{
    if 1 <= block_size && 0 <= i && i < spec_block_count(data.len() as int, block_size) {
        spec_block_at(data, block_size, i) + spec_blocks_concat_from(data, block_size, i + 1)
    } else {
        Seq::empty()
    }
}

proof fn lemma_blocks_concat_suffix(data: Seq<u8>, block_size: int, i: int)
    requires
        1 <= block_size,
        0 <= i <= spec_block_count(data.len() as int, block_size),
    ensures
        spec_blocks_concat_from(data, block_size, i) == data.subrange(
            spec_block_prefix_len(data.len() as int, block_size, i),
            data.len() as int,
        ),
    decreases spec_block_count(data.len() as int, block_size) - i,
{
    let len = data.len() as int;
    let bc = spec_block_count(len, block_size);
    if i == bc {
        lemma_block_count_bounds(len, block_size);
        assert(spec_blocks_concat_from(data, block_size, i) =~= data.subrange(
            spec_block_prefix_len(len, block_size, i),
            len,
        ));
    } else {
        lemma_block_start(len, block_size, i);
        lemma_blocks_concat_suffix(data, block_size, i + 1);
        assert(spec_blocks_concat_from(data, block_size, i) =~= data.subrange(
            spec_block_prefix_len(len, block_size, i),
            len,
        ));
    }
}

/// Law: concatenating all blocks of a buffer, in order and with the final
/// short block unpadded, reproduces the buffer exactly.
pub proof fn lemma_blocks_reassemble(data: Seq<u8>, block_size: int)
    requires
        1 <= block_size,
    ensures
        spec_blocks_concat_from(data, block_size, 0) == data,
{
    lemma_blocks_concat_suffix(data, block_size, 0);
    assert(data.subrange(0, data.len() as int) =~= data);
}

} // verus!
