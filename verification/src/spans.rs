//! Items of one size, a fixed distance apart, in a row of units.

use vstd::prelude::*;

verus! {

/// The number of items of `width` units, `stride` units apart, that fit into `len` units.
pub open spec fn item_count(len: nat, stride: nat, width: nat) -> nat {
    if stride == 0 || len < width {
        0
    } else {
        1 + ((len - width) as nat) / stride
    }
}

/// An item that counts lies inside of the row.
pub proof fn lemma_item_inside(len: nat, stride: nat, width: nat, index: int)
    requires
        0 <= index < item_count(len, stride, width),
    ensures
        0 <= index * stride,
        index * stride + width <= len,
{
    let span = (len - width) as nat;
    assert(index * stride <= (span / stride) * stride) by (nonlinear_arith)
        requires
            0 <= index <= span / stride,
            0 <= stride,
    ;
    assert((span / stride) * stride <= span) by (nonlinear_arith)
        requires
            stride > 0,
    ;
    assert(0 <= index * stride) by (nonlinear_arith)
        requires
            0 <= index,
            0 <= stride,
    ;
}

/// As many items count as fit into the row: behind the last one there is no room for another.
pub proof fn law_as_many_items_as_fit(len: nat, stride: nat, width: nat, n: nat)
    requires
        stride >= 1,
    ensures
        ((n == 0 || (n - 1) * stride + width <= len) && n * stride + width > len) <==> n
            == item_count(len, stride, width),
        item_count(len, 0, width) == 0,
{
    if len < width {
        if n > 0 {
            assert(0 <= (n - 1) * stride) by (nonlinear_arith)
                requires
                    n > 0,
                    stride >= 1,
            ;
        } else {
            assert(n * stride == 0) by (nonlinear_arith)
                requires
                    n == 0,
            ;
        }
    } else {
        let span = (len - width) as nat;
        let q = span / stride;
        assert(q * stride <= span < (q + 1) * stride) by (nonlinear_arith)
            requires
                q == span / stride,
                stride >= 1,
        ;
        if n > q + 1 {
            assert((q + 1) * stride <= (n - 1) * stride) by (nonlinear_arith)
                requires
                    q + 1 <= n - 1,
                    stride >= 1,
            ;
        } else if n < q + 1 {
            assert(n * stride <= q * stride) by (nonlinear_arith)
                requires
                    n <= q,
                    stride >= 1,
            ;
        }
    }
}

} // verus!
