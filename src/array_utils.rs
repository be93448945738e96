//! Conversions between 3d array coordinates and flat indices.

use vstd::prelude::*;
use vstd::arithmetic::div_mod::lemma_fundamental_div_mod_converse;
use vstd::arithmetic::mul::lemma_mul_is_associative;

verus! {

/// The flat index of `(x, y, z)` in an array of the given width and height,
/// laid out x-fastest, then y, then z.
pub open spec fn flat_index(x: int, y: int, z: int, width: int, height: int) -> int {
    z * (width * height) + y * width + x
}

/// The coordinates stored at flat index `index`.
pub open spec fn expanded(index: int, width: int, height: int) -> (int, int, int) {
    (index % (width * height) % width, index % (width * height) / width, index / (width * height))
}

/// Calcuates the analogous index for a 1d array given the x/y/z for a 3d array.
pub fn flatten(x: usize, y: usize, z: usize, width: usize, height: usize) -> (r: usize)
    requires
        z * width <= usize::MAX,
        flat_index(x as int, y as int, z as int, width as int, height as int) <= usize::MAX,
    ensures
        r as int == flat_index(x as int, y as int, z as int, width as int, height as int),
{
    proof {
        lemma_mul_is_associative(z as int, width as int, height as int);
        vstd::arithmetic::mul::lemma_mul_nonnegative(z as int, width as int);
        vstd::arithmetic::mul::lemma_mul_nonnegative(z as int * width as int, height as int);
        vstd::arithmetic::mul::lemma_mul_nonnegative(y as int, width as int);
    }
    z * width * height + y * width + x
}

/// Reverses the operation of flatten, and gives the 3d x/y/z coordinates for a 3d array given a 1d array coordinate
pub fn expand(index: usize, width: usize, height: usize) -> (r: (usize, usize, usize))
    requires
        width > 0,
        height > 0,
        width * height <= usize::MAX,
    ensures
        (r.0 as int, r.1 as int, r.2 as int) == expanded(index as int, width as int, height as int),
        r.0 < width,
        r.1 < height,
        flat_index(r.0 as int, r.1 as int, r.2 as int, width as int, height as int) == index,
{
    let wh = width * height;
    proof {
        vstd::arithmetic::mul::lemma_mul_strictly_positive(width as int, height as int);
    }
    let z = index / wh;
    proof {
        vstd::arithmetic::div_mod::lemma_fundamental_div_mod(index as int, wh as int);
        vstd::arithmetic::div_mod::lemma_mod_bound(index as int, wh as int);
        vstd::arithmetic::mul::lemma_mul_is_commutative(z as int, wh as int);
        assert(z * wh == index - index % wh);
    }
    let rem = index - z * wh;
    let y = rem / width;
    proof {
        vstd::arithmetic::div_mod::lemma_fundamental_div_mod(rem as int, width as int);
        vstd::arithmetic::div_mod::lemma_mod_bound(rem as int, width as int);
        vstd::arithmetic::mul::lemma_mul_is_commutative(y as int, width as int);
        assert(rem < width * height);
        vstd::arithmetic::div_mod::lemma_div_is_ordered(rem as int, (width * height - 1) as int, width as int);
        assert(((width * height - 1) as int) / (width as int) < height) by {
            vstd::arithmetic::div_mod::lemma_multiply_divide_lt((width * height - 1) as int, width as int, height as int);
        }
        vstd::arithmetic::mul::lemma_mul_inequality(y as int, height as int, width as int);
    }
    let x = rem - y * width;
    (x, y, z)
}

/// Expanding a flattened in-range coordinate gives the coordinate back.
pub proof fn lemma_expand_flatten(x: int, y: int, z: int, width: int, height: int)
    requires
        0 <= x < width,
        0 <= y < height,
        0 <= z,
    ensures
        expanded(flat_index(x, y, z, width, height), width, height) == (x, y, z),
{
    let wh = width * height;
    vstd::arithmetic::mul::lemma_mul_strictly_positive(width, height);
    assert(y * width + x < wh) by {
        vstd::arithmetic::mul::lemma_mul_inequality(y, height - 1, width);
        vstd::arithmetic::mul::lemma_mul_is_distributive_sub_other_way(width, height, 1);
    }
    assert(0 <= y * width) by {
        vstd::arithmetic::mul::lemma_mul_nonnegative(y, width);
    }
    lemma_fundamental_div_mod_converse(flat_index(x, y, z, width, height), wh, z, y * width + x);
    lemma_fundamental_div_mod_converse(y * width + x, width, y, x);
}

} // verus!
