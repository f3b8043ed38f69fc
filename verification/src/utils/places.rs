//! The places of the combinations of items in nested order.
use vstd::arithmetic::div_mod::lemma_fundamental_div_mod_converse;
use vstd::prelude::*;

verus! {

/// The place of the `digit`-th of `base` items in the `group`-th group.
pub open spec fn place(group: int, base: int, digit: int) -> int {
    group * base + digit
}

pub proof fn lemma_place_first(base: int)
    ensures
        place(0, base, 0) == 0,
{
    assert(0 * base + 0 == 0) by (nonlinear_arith);
}

pub proof fn lemma_place_carry(group: int, base: int)
    ensures
        place(group, base, base) == place(group + 1, base, 0),
{
    assert(group * base + base == (group + 1) * base) by (nonlinear_arith);
}

pub proof fn lemma_place_bounds(group: int, groups: int, base: int, digit: int)
    requires
        0 <= group < groups,
        0 <= digit < base,
    ensures
        0 <= place(group, base, digit) < groups * base,
        place(group, base, digit) / base == group,
        place(group, base, digit) % base == digit,
{
    assert(0 <= group * base + digit < groups * base) by (nonlinear_arith)
        requires
            0 <= group < groups,
            0 <= digit < base,
    ;
    lemma_fundamental_div_mod_converse(place(group, base, digit), base, group, digit);
}

} // verus!
