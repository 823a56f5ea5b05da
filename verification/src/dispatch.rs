//! Sizing of the parallel compute step: how many work groups cover a chunk.

use vstd::prelude::*;

verus! {

/// Bytes of one item that the accelerator stages process.
pub const ITEM_SIZE: usize = 4;

/// Items that one work group of the compute program covers.
pub const WORK_GROUP_SIZE: usize = 64;

/// The least number of groups of `group` items that together cover `items` items.
pub open spec fn groups_needed(items: nat, group: nat) -> nat
    recommends
        group > 0,
{
    if items % group == 0 {
        items / group
    } else {
        items / group + 1
    }
}

/// Number of work groups that cover `items` items when each group holds `group`:
/// the quotient, rounded up.
pub fn dispatch_count(items: usize, group: usize) -> (count: usize)
    requires
        group > 0,
    ensures
        count == groups_needed(items as nat, group as nat),
{
    let whole: usize = items / group;
    if items % group > 0 {
        assert(whole < items) by (nonlinear_arith)
            requires
                whole == items / group,
                items % group > 0,
                group > 0,
        ;
        whole + 1
    } else {
        whole
    }
}

/// The dispatch size for a chunk that carries `used_bytes` bytes of payload:
/// whole items only, in groups of [`WORK_GROUP_SIZE`], rounded up. `None` when
/// the count does not fit the 32-bit dispatch size of a command queue.
pub fn dispatch_for(used_bytes: usize) -> (count: Option<u32>)
    ensures
        count is Some <==> groups_needed(
            used_bytes as nat / (ITEM_SIZE as nat),
            WORK_GROUP_SIZE as nat,
        ) <= u32::MAX,
        count is Some ==> count->0 == groups_needed(
            used_bytes as nat / (ITEM_SIZE as nat),
            WORK_GROUP_SIZE as nat,
        ),
{
    let groups: usize = dispatch_count(used_bytes / ITEM_SIZE, WORK_GROUP_SIZE);
    if groups <= u32::MAX as usize {
        Some(groups as u32)
    } else {
        None
    }
}

/// Rounding up covers every item and wastes less than one group: the count is
/// the unique `n` with `(n - 1) * group < items <= n * group` (and 0 for no items).
pub proof fn lemma_groups_cover(items: nat, group: nat)
    requires
        group > 0,
    ensures
        groups_needed(items, group) * group >= items,
        items > 0 ==> (groups_needed(items, group) - 1) * group < items,
        items == 0 ==> groups_needed(items, group) == 0,
        items % group == 0 ==> groups_needed(items, group) * group == items,
        items % group != 0 ==> groups_needed(items, group) == items / group + 1,
{
    let q = items / group;
    let r = items % group;
    assert(items == q * group + r) by (nonlinear_arith)
        requires
            q == items / group,
            r == items % group,
            group > 0,
    ;
    assert(r < group) by (nonlinear_arith)
        requires
            r == items % group,
            group > 0,
    ;
    assert((q + 1) * group == q * group + group) by (nonlinear_arith);
    assert((q - 1) * group == q * group - group) by (nonlinear_arith);
    if items == 0 {
        assert(q == 0) by (nonlinear_arith)
            requires
                q == 0nat / group,
                group > 0,
        ;
    }
}

} // verus!
