use vstd::prelude::*;
use crate::blockdev::Dev;
use crate::dm::{lvm_step, pv_step, pvs_fold, vg_node, vg_pv_step, vg_step, vgs_fold};
use crate::laws::{lemma_first_pick, lemma_lvm_first};
use crate::manifest::{items, ManifestLvm, ManifestLvmVg};
use crate::state::{first_pick, lvm_first, names_view, picks, Host, Pick, Stacks};

verus! {

/// Stack `i` of the store ends in the device `p`.
pub open spec fn store_ends(st: Stacks, p: Seq<char>, i: int) -> bool {
    0 <= i < st.store.len() && picks(Pick::TipNamed(p), st.store[i])
}

/// Stack `j` of the scanned entry `e` ends in the device `p`.
pub open spec fn lvm_ends(st: Stacks, p: Seq<char>, e: int, j: int) -> bool {
    0 <= e < st.lvms.len() && 0 <= j < st.lvms[e].paths.len() && picks(
        Pick::TipNamed(p),
        st.lvms[e].paths[j],
    )
}

/// At most one stack, of the store and of the scanned ones together, ends
/// in the device `p`.
pub open spec fn single_route(st: Stacks, p: Seq<char>) -> bool {
    &&& forall|i: int, k: int|
        #[trigger] store_ends(st, p, i) && #[trigger] store_ends(st, p, k) ==> i == k
    &&& forall|i: int, e: int, j: int|
        !(#[trigger] store_ends(st, p, i) && #[trigger] lvm_ends(st, p, e, j))
    &&& forall|e: int, j: int, f: int, k: int|
        #[trigger] lvm_ends(st, p, e, j) && #[trigger] lvm_ends(st, p, f, k) ==> e == f && j == k
}

/// No stack ends in the device `p`.
pub open spec fn no_route(st: Stacks, p: Seq<char>) -> bool {
    &&& forall|i: int| !#[trigger] store_ends(st, p, i)
    &&& forall|e: int, j: int| !#[trigger] lvm_ends(st, p, e, j)
}

/// A volume group cannot take a physical volume in which no stack ends.
pub proof fn lemma_no_route_rejects(host: Host, st: Stacks, vg: Dev, p: Seq<char>)
    requires
        no_route(st, p),
    ensures
        vg_pv_step(host, st, vg, p) is Err,
{
    let named = Pick::TipNamed(p);
    lemma_first_pick(st.store, named, 0);
    let i = first_pick(st.store, named, 0);
    if i < st.store.len() {
        assert(store_ends(st, p, i));
    }
    lemma_lvm_first(st.lvms, named, 0);
    let e = lvm_first(st.lvms, named, 0);
    if e < st.lvms.len() {
        lemma_first_pick(st.lvms[e].paths, named, 0);
        assert(lvm_ends(st, p, e, first_pick(st.lvms[e].paths, named, 0)));
    }
}

/// Taking the physical volume `q` into a volume group adds no stack that
/// ends in `p`, and uses up the only one if `q` is `p`.
pub proof fn lemma_route_used(host: Host, st: Stacks, vg: Dev, q: Seq<char>, p: Seq<char>)
    requires
        vg_pv_step(host, st, vg, q) is Ok,
        vg.device != p,
        single_route(st, p),
    ensures
        single_route(vg_pv_step(host, st, vg, q)->Ok_0, p),
        q == p || no_route(st, p) ==> no_route(vg_pv_step(host, st, vg, q)->Ok_0, p),
{
    let next = vg_pv_step(host, st, vg, q)->Ok_0;
    let named = Pick::TipNamed(q);
    lemma_first_pick(st.store, named, 0);
    let i = first_pick(st.store, named, 0);
    if i < st.store.len() {
        assert(!store_ends(next, p, i));
        assert forall|k: int| #[trigger] store_ends(next, p, k) implies store_ends(st, p, k) by {
            assert(next.store[k] == st.store[k]);
        }
        assert forall|e: int, j: int| #[trigger] lvm_ends(next, p, e, j) implies lvm_ends(
            st,
            p,
            e,
            j,
        ) by {}
        if q == p {
            assert(store_ends(st, p, i));
        }
    } else {
        lemma_lvm_first(st.lvms, named, 0);
        let e = lvm_first(st.lvms, named, 0);
        lemma_first_pick(st.lvms[e].paths, named, 0);
        let j = first_pick(st.lvms[e].paths, named, 0);
        assert(!store_ends(next, p, st.store.len() as int));
        assert forall|k: int| #[trigger] store_ends(next, p, k) implies store_ends(st, p, k) by {
            assert(next.store[k] == st.store[k]);
        }
        assert(!lvm_ends(next, p, e, j));
        assert forall|f: int, k: int| #[trigger] lvm_ends(next, p, f, k) implies lvm_ends(
            st,
            p,
            f,
            k,
        ) by {
            if f == e {
                assert(next.lvms[f].paths[k] == st.lvms[f].paths[k]);
            } else {
                assert(next.lvms[f] == st.lvms[f]);
            }
        }
        if q == p {
            assert(lvm_ends(st, p, e, j));
        }
    }
}

/// What [`lemma_route_used`] says of one physical volume holds of a whole
/// volume group.
pub proof fn lemma_group_routes(
    host: Host,
    st: Stacks,
    vg: Dev,
    pvs: Seq<Seq<char>>,
    from: int,
    p: Seq<char>,
)
    requires
        0 <= from <= pvs.len(),
        vg_step(host, st, vg, pvs, from) is Ok,
        vg.device != p,
        single_route(st, p),
    ensures
        single_route(vg_step(host, st, vg, pvs, from)->Ok_0, p),
        no_route(st, p) || (exists|x: int| from <= x < pvs.len() && #[trigger] pvs[x] == p)
            ==> no_route(vg_step(host, st, vg, pvs, from)->Ok_0, p),
    decreases pvs.len() - from,
{
    if from < pvs.len() {
        let next = vg_pv_step(host, st, vg, pvs[from])->Ok_0;
        lemma_route_used(host, st, vg, pvs[from], p);
        lemma_group_routes(host, next, vg, pvs, from + 1, p);
        if !no_route(st, p) && pvs[from] != p {
            if exists|x: int| from <= x < pvs.len() && #[trigger] pvs[x] == p {
                let x = choose|x: int| from <= x < pvs.len() && #[trigger] pvs[x] == p;
                assert(from + 1 <= x < pvs.len() && pvs[x] == p);
            }
        }
    }
}

/// A volume group is rejected if it lists, at `y`, a physical volume in
/// which no stack ends.
pub proof fn lemma_group_later(
    host: Host,
    st: Stacks,
    vg: Dev,
    pvs: Seq<Seq<char>>,
    from: int,
    y: int,
    p: Seq<char>,
)
    requires
        0 <= from <= y < pvs.len(),
        pvs[y] == p,
        vg.device != p,
        no_route(st, p),
    ensures
        vg_step(host, st, vg, pvs, from) is Err,
    decreases pvs.len() - from,
{
    if from == y {
        lemma_no_route_rejects(host, st, vg, p);
    } else if vg_pv_step(host, st, vg, pvs[from]) is Ok {
        let next = vg_pv_step(host, st, vg, pvs[from])->Ok_0;
        lemma_route_used(host, st, vg, pvs[from], p);
        lemma_group_later(host, next, vg, pvs, from + 1, y, p);
    }
}

/// A volume group that lists a physical volume twice, at `x` and at `y`,
/// is rejected if at most one stack ends in that volume.
pub proof fn lemma_group_twice(
    host: Host,
    st: Stacks,
    vg: Dev,
    pvs: Seq<Seq<char>>,
    from: int,
    x: int,
    y: int,
    p: Seq<char>,
)
    requires
        0 <= from <= x < y < pvs.len(),
        pvs[x] == p,
        pvs[y] == p,
        vg.device != p,
        single_route(st, p),
    ensures
        vg_step(host, st, vg, pvs, from) is Err,
    decreases pvs.len() - from,
{
    if vg_pv_step(host, st, vg, pvs[from]) is Ok {
        let next = vg_pv_step(host, st, vg, pvs[from])->Ok_0;
        lemma_route_used(host, st, vg, pvs[from], p);
        if from == x {
            lemma_group_later(host, next, vg, pvs, from + 1, y, p);
        } else {
            lemma_group_twice(host, next, vg, pvs, from + 1, x, y, p);
        }
    }
}

/// The volume groups from `from` on are rejected if group `b` lists, at
/// `y`, a physical volume in which no stack ends.
pub proof fn lemma_groups_later(
    host: Host,
    st: Stacks,
    vgs: Seq<ManifestLvmVg>,
    from: int,
    b: int,
    y: int,
    p: Seq<char>,
)
    requires
        0 <= from <= b < vgs.len(),
        0 <= y < vgs[b].pvs@.len(),
        vgs[b].pvs@[y]@ == p,
        forall|k: int| 0 <= k < vgs.len() ==> vg_node((#[trigger] vgs[k]).name@).device != p,
        no_route(st, p),
    ensures
        vgs_fold(host, st, vgs, from) is Err,
    decreases vgs.len() - from,
{
    let vg = vg_node(vgs[from].name@);
    let pvs = names_view(vgs[from].pvs@);
    if from == b {
        lemma_group_later(host, st, vg, pvs, 0, y, p);
    } else if vg_step(host, st, vg, pvs, 0) is Ok {
        let next = vg_step(host, st, vg, pvs, 0)->Ok_0;
        lemma_group_routes(host, st, vg, pvs, 0, p);
        lemma_groups_later(host, next, vgs, from + 1, b, y, p);
    }
}

/// A physical volume that two volume groups list is rejected, and so is
/// one that a group lists twice.
///
/// Among the volume groups of one LVM block, let group `a` list the
/// physical volume `p` at `x` and group `b` list it at `y`, the second place
/// after the first. If, when the groups are taken up, at most one stack ends
/// in `p`, and no group's own device path is `p`, the groups are rejected.
pub proof fn law_shared_pv_is_rejected(
    host: Host,
    st: Stacks,
    vgs: Seq<ManifestLvmVg>,
    from: int,
    a: int,
    x: int,
    b: int,
    y: int,
    p: Seq<char>,
)
    requires
        0 <= from <= a <= b < vgs.len(),
        0 <= x < vgs[a].pvs@.len(),
        0 <= y < vgs[b].pvs@.len(),
        a < b || x < y,
        vgs[a].pvs@[x]@ == p,
        vgs[b].pvs@[y]@ == p,
        forall|k: int| 0 <= k < vgs.len() ==> vg_node((#[trigger] vgs[k]).name@).device != p,
        single_route(st, p),
    ensures
        vgs_fold(host, st, vgs, from) is Err,
    decreases vgs.len() - from,
{
    let vg = vg_node(vgs[from].name@);
    let pvs = names_view(vgs[from].pvs@);
    if from == a && a == b {
        lemma_group_twice(host, st, vg, pvs, 0, x, y, p);
    } else if vg_step(host, st, vg, pvs, 0) is Ok {
        let next = vg_step(host, st, vg, pvs, 0)->Ok_0;
        lemma_group_routes(host, st, vg, pvs, 0, p);
        if from == a {
            assert(pvs[x] == p);
            lemma_groups_later(host, next, vgs, from + 1, b, y, p);
        } else {
            law_shared_pv_is_rejected(host, next, vgs, from + 1, a, x, b, y, p);
        }
    }
}

/// No scanned stack ends in the device `p`.
pub open spec fn none_scanned(st: Stacks, p: Seq<char>) -> bool {
    forall|e: int, j: int| !#[trigger] lvm_ends(st, p, e, j)
}

/// Declaring a physical volume adds no second stack that ends in `p`, as
/// long as no scanned stack ends in it.
pub proof fn lemma_pv_keeps_route(host: Host, st: Stacks, q: Seq<char>, p: Seq<char>)
    requires
        pv_step(host, st, q) is Ok,
        single_route(st, p),
        none_scanned(st, p),
    ensures
        single_route(pv_step(host, st, q)->Ok_0, p),
        none_scanned(pv_step(host, st, q)->Ok_0, p),
{
    let next = pv_step(host, st, q)->Ok_0;
    let named = Pick::TipNamed(q);
    lemma_first_pick(st.store, named, 0);
    let i = first_pick(st.store, named, 0);
    assert(next.lvms == st.lvms);
    assert forall|e: int, j: int| !#[trigger] lvm_ends(next, p, e, j) by {
        assert(!lvm_ends(st, p, e, j));
    }
    if i < st.store.len() {
        assert forall|k: int| #[trigger] store_ends(next, p, k) implies store_ends(st, p, k) by {
            if k != i {
                assert(next.store[k] == st.store[k]);
            }
        }
    } else {
        assert forall|k: int, m: int| #[trigger] store_ends(next, p, k) && #[trigger] store_ends(
            next,
            p,
            m,
        ) implies k == m by {
            if k < st.store.len() {
                assert(next.store[k] == st.store[k]);
                assert(store_ends(st, p, k));
                if q == p {
                    assert(picks(named, st.store[k]));
                }
            }
            if m < st.store.len() {
                assert(next.store[m] == st.store[m]);
                assert(store_ends(st, p, m));
                if q == p {
                    assert(picks(named, st.store[m]));
                }
            }
        }
    }
}

/// What [`lemma_pv_keeps_route`] says of one physical volume holds of a list.
pub proof fn lemma_pvs_keep_route(
    host: Host,
    st: Stacks,
    pvs: Seq<String>,
    from: int,
    p: Seq<char>,
)
    requires
        0 <= from <= pvs.len(),
        pvs_fold(host, st, pvs, from) is Ok,
        single_route(st, p),
        none_scanned(st, p),
    ensures
        single_route(pvs_fold(host, st, pvs, from)->Ok_0, p),
    decreases pvs.len() - from,
{
    if from < pvs.len() {
        let next = pv_step(host, st, pvs[from]@)->Ok_0;
        lemma_pv_keeps_route(host, st, pvs[from]@, p);
        lemma_pvs_keep_route(host, next, pvs, from + 1, p);
    }
}

/// An LVM block in which two volume groups list one physical volume, or one
/// group lists it twice, is rejected, whatever physical volumes the block
/// declares. This holds where, before the block, at most one stack of the
/// store ends in the volume and no scanned stack does, and where no group's
/// own device path is that of the volume.
pub proof fn law_block_with_shared_pv_is_rejected(
    host: Host,
    st: Stacks,
    lvm: ManifestLvm,
    a: int,
    x: int,
    b: int,
    y: int,
    p: Seq<char>,
)
    requires
        0 <= a <= b < items(lvm.vgs).len(),
        0 <= x < items(lvm.vgs)[a].pvs@.len(),
        0 <= y < items(lvm.vgs)[b].pvs@.len(),
        a < b || x < y,
        items(lvm.vgs)[a].pvs@[x]@ == p,
        items(lvm.vgs)[b].pvs@[y]@ == p,
        forall|k: int|
            0 <= k < items(lvm.vgs).len() ==> vg_node((#[trigger] items(lvm.vgs)[k]).name@).device
                != p,
        single_route(st, p),
        none_scanned(st, p),
    ensures
        lvm_step(host, st, lvm) is Err,
{
    if pvs_fold(host, st, items(lvm.pvs), 0) is Ok {
        let with_pvs = pvs_fold(host, st, items(lvm.pvs), 0)->Ok_0;
        lemma_pvs_keep_route(host, st, items(lvm.pvs), 0, p);
        law_shared_pv_is_rejected(host, with_pvs, items(lvm.vgs), 0, a, x, b, y, p);
    }
}

} // verus!
