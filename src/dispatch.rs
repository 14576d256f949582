use crate::layout::{ceil_div, lemma_round_up, round_up};
use vstd::arithmetic::div_mod::lemma_fundamental_div_mod_converse;
use vstd::prelude::*;

verus! {

/// Number of workgroups of `tile` work-items needed to cover `domain`
/// work-items along one axis: the smallest count whose tiles reach past the
/// last item.
pub fn dispatch_count(domain: u32, tile: u32) -> (r: u32)
    requires
        tile > 0,
    ensures
        r == ceil_div(domain as int, tile as int),
        r * tile >= domain,
        (r - 1) * tile < domain,
{
    proof {
        lemma_round_up(domain as int, tile as int);
        let q = domain as int / tile as int;
        let m = domain as int % tile as int;
        vstd::arithmetic::div_mod::lemma_fundamental_div_mod(domain as int, tile as int);
        assert(domain == q * tile + m) by (nonlinear_arith)
            requires domain == tile * q + m;
        if m == 0 {
            lemma_fundamental_div_mod_converse(domain + tile - 1, tile as int, q, tile - 1);
        } else {
            assert((q + 1) * tile == q * tile + tile) by (nonlinear_arith);
            lemma_fundamental_div_mod_converse(domain + tile - 1, tile as int, q + 1, m - 1);
        }
        assert(round_up(domain as int, tile as int) == ceil_div(domain as int, tile as int) * tile);
        assert((ceil_div(domain as int, tile as int) - 1) * tile
            == ceil_div(domain as int, tile as int) * tile - tile) by (nonlinear_arith);
    }
    let q = domain / tile;
    if domain % tile == 0 {
        q
    } else {
        assert(q < u32::MAX) by (nonlinear_arith)
            requires q == domain / tile, domain % tile != 0, domain <= u32::MAX, tile > 0,
                domain == tile * q + domain % tile, domain % tile < tile;
        q + 1
    }
}

/// Workgroup counts along both axes that cover a domain of `size`
/// (width, height) with workgroups of `workgroup` (width, height) work-items.
pub fn compute_work_group_count(
    size: (u32, u32),
    workgroup: (u32, u32),
) -> (r: (u32, u32))
    requires
        workgroup.0 > 0,
        workgroup.1 > 0,
    ensures
        r.0 == ceil_div(size.0 as int, workgroup.0 as int),
        r.1 == ceil_div(size.1 as int, workgroup.1 as int),
        r.0 * workgroup.0 >= size.0,
        r.1 * workgroup.1 >= size.1,
        (r.0 - 1) * workgroup.0 < size.0,
        (r.1 - 1) * workgroup.1 < size.1,
{
    let (width, height) = size;
    let (workgroup_width, workgroup_height) = workgroup;
    let x = dispatch_count(width, workgroup_width);
    let y = dispatch_count(height, workgroup_height);
    (x, y)
}

/// Full and minimal coverage: for every domain and positive tile, the
/// dispatched tiles reach the whole domain, and one tile fewer would not.
pub proof fn lemma_dispatch_covers(domain: int, tile: int)
    requires
        domain > 0,
        tile > 0,
    ensures
        ceil_div(domain, tile) * tile >= domain,
        (ceil_div(domain, tile) - 1) * tile < domain,
        ceil_div(domain, tile) >= 1,
{
    lemma_round_up(domain, tile);
    assert((ceil_div(domain, tile) - 1) * tile == ceil_div(domain, tile) * tile - tile)
        by (nonlinear_arith);
    assert(ceil_div(domain, tile) >= 1) by (nonlinear_arith)
        requires ceil_div(domain, tile) * tile >= domain, domain > 0, tile > 0,
            ceil_div(domain, tile) >= 0;
}

} // verus!
