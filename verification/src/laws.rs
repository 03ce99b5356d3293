use vstd::prelude::*;
use crate::blockdev::{all_well_typed, edge_ok, well_typed, Dev, Kind};
use crate::diskcheck::{
    disk_paths, disk_step, disks_fold, partition_name, partition_path, partition_taken,
};
use crate::dm::{
    dm_step, dms_rule, dms_fold, luks_node, luks_step, lv_node, lv_step, lvs_fold, pv_node, pv_step,
    pvs_fold, size_view, vg_node, vg_pv_step, vg_step, vgs_fold,
};
use crate::manifest::{items, Dm, Manifest, ManifestDisk, ManifestLvmLv, ManifestLvmVg};
use crate::state::{
    any_pick, cleared, first_pick, fresh_pair, grown, has_dev, lvm_any, lvm_first, lvm_grown,
    names_view, picks, without, Host, LvmEntry, Pick, Stacks,
};
use crate::validate::{blk_stacks, fresh_stacks};

verus! {

/// Every stack of the store and every scanned stack is well typed.
pub open spec fn typed(st: Stacks) -> bool {
    &&& all_well_typed(st.store)
    &&& forall|e: int| 0 <= e < st.lvms.len() ==> all_well_typed((#[trigger] st.lvms[e]).paths)
}

/// No tip of the store is a device that is still free on the host.
pub open spec fn apart(st: Stacks) -> bool {
    forall|i: int|
        0 <= i < st.store.len() && (#[trigger] st.store[i]).len() > 0 ==> !has_dev(
            st.ready,
            st.store[i].last().device,
        )
}

/// Every device of `after` is a device of `before`.
pub open spec fn shrinks(after: Seq<Dev>, before: Seq<Dev>) -> bool {
    forall|m: Seq<char>| #[trigger] has_dev(after, m) ==> has_dev(before, m)
}

/// `node` may be built on the tip of every stack that `pick` chooses.
pub open spec fn fits(pick: Pick, node: Dev) -> bool {
    forall|p: Seq<Dev>| #[trigger] picks(pick, p) ==> edge_ok(p.last().kind, node.kind)
}

/// What [`first_pick`] returns is the first chosen stack at or after `from`.
pub proof fn lemma_first_pick(paths: Seq<Seq<Dev>>, pick: Pick, from: int)
    requires
        0 <= from <= paths.len(),
    ensures
        from <= first_pick(paths, pick, from) <= paths.len(),
        first_pick(paths, pick, from) < paths.len() ==> picks(
            pick,
            paths[first_pick(paths, pick, from)],
        ),
        forall|k: int| from <= k < first_pick(paths, pick, from) ==> !picks(pick, #[trigger] paths[k]),
    decreases paths.len() - from,
{
    if from < paths.len() && !picks(pick, paths[from]) {
        lemma_first_pick(paths, pick, from + 1);
    }
}

/// What [`lvm_first`] returns is the first entry at or after `from` with a
/// chosen stack.
pub proof fn lemma_lvm_first(lvms: Seq<LvmEntry>, pick: Pick, from: int)
    requires
        0 <= from <= lvms.len(),
    ensures
        from <= lvm_first(lvms, pick, from) <= lvms.len(),
        lvm_first(lvms, pick, from) < lvms.len() ==> any_pick(
            lvms[lvm_first(lvms, pick, from)].paths,
            pick,
        ),
        forall|k: int|
            from <= k < lvm_first(lvms, pick, from) ==> !any_pick((#[trigger] lvms[k]).paths, pick),
    decreases lvms.len() - from,
{
    if from < lvms.len() && !any_pick(lvms[from].paths, pick) {
        lemma_lvm_first(lvms, pick, from + 1);
    }
}

/// A well-typed stack stays well typed under a node that its tip may carry.
pub proof fn lemma_push_typed(p: Seq<Dev>, node: Dev)
    requires
        well_typed(p),
        p.len() > 0,
        edge_ok(p.last().kind, node.kind),
    ensures
        well_typed(p.push(node)),
{
    let q = p.push(node);
    assert forall|i: int| 0 <= i < q.len() - 1 implies edge_ok(#[trigger] q[i].kind, q[i + 1].kind) by {
        if i < p.len() - 1 {
            assert(q[i] == p[i]);
            assert(q[i + 1] == p[i + 1]);
        }
    }
}

/// The copies that [`grown`] makes all end in `node`, and are well typed
/// where the stacks are and `node` fits.
pub proof fn lemma_grown(paths: Seq<Seq<Dev>>, pick: Pick, node: Dev, from: int)
    requires
        0 <= from <= paths.len(),
    ensures
        forall|i: int|
            0 <= i < grown(paths, pick, node, from).len() ==> (#[trigger] grown(
                paths,
                pick,
                node,
                from,
            )[i]).len() > 0 && grown(paths, pick, node, from)[i].last() == node,
        all_well_typed(paths) && fits(pick, node) ==> all_well_typed(
            grown(paths, pick, node, from),
        ),
    decreases paths.len() - from,
{
    if from < paths.len() {
        lemma_grown(paths, pick, node, from + 1);
        if picks(pick, paths[from]) && all_well_typed(paths) && fits(pick, node) {
            lemma_push_typed(paths[from], node);
        }
    }
}

/// [`lemma_grown`] for the stacks of every entry.
pub proof fn lemma_lvm_grown(lvms: Seq<LvmEntry>, pick: Pick, node: Dev, from: int)
    requires
        0 <= from <= lvms.len(),
    ensures
        forall|i: int|
            0 <= i < lvm_grown(lvms, pick, node, from).len() ==> (#[trigger] lvm_grown(
                lvms,
                pick,
                node,
                from,
            )[i]).len() > 0 && lvm_grown(lvms, pick, node, from)[i].last() == node,
        (forall|e: int| 0 <= e < lvms.len() ==> all_well_typed((#[trigger] lvms[e]).paths)) && fits(
            pick,
            node,
        ) ==> all_well_typed(lvm_grown(lvms, pick, node, from)),
    decreases lvms.len() - from,
{
    if from < lvms.len() {
        lemma_lvm_grown(lvms, pick, node, from + 1);
        lemma_grown(lvms[from].paths, pick, node, 0);
    }
}

/// Taking a device out of a list leaves no device of that path, and adds none.
pub proof fn lemma_without(devs: Seq<Dev>, name: Seq<char>)
    ensures
        !has_dev(without(devs, name), name),
        shrinks(without(devs, name), devs),
    decreases devs.len(),
{
    if devs.len() > 0 {
        let front = devs.drop_last();
        lemma_without(front, name);
        let short = without(front, name);
        let out = without(devs, name);
        assert forall|m: Seq<char>| #[trigger] has_dev(out, m) implies has_dev(devs, m) by {
            let i = choose|i: int| 0 <= i < out.len() && (#[trigger] out[i]).device == m;
            if i < short.len() {
                assert(short[i].device == m);
                assert(has_dev(short, m));
                let k = choose|k: int| 0 <= k < front.len() && (#[trigger] front[k]).device == m;
                assert(devs[k].device == m);
            } else {
                assert(devs[devs.len() - 1].device == m);
            }
        }
        if has_dev(out, name) {
            let i = choose|i: int| 0 <= i < out.len() && (#[trigger] out[i]).device == name;
            if i < short.len() {
                assert(short[i].device == name);
            }
        }
    }
}

/// No stack of the store is empty.
pub open spec fn filled(store: Seq<Seq<Dev>>) -> bool {
    forall|i: int| 0 <= i < store.len() ==> (#[trigger] store[i]).len() > 0
}

/// What every successful step of validation keeps: no stack of the store
/// becomes empty, well-typed stacks stay well typed, the free devices only get fewer, and, where the step names
/// no device that is still free (`fresh`), no tip of the store becomes one.
pub open spec fn carries(before: Stacks, after: Stacks, fresh: bool) -> bool {
    &&& filled(before.store) ==> filled(after.store)
    &&& typed(before) ==> typed(after)
    &&& shrinks(after.ready, before.ready)
    &&& apart(before) && fresh ==> apart(after)
}

/// A successful [`disk_step`] keeps the state sound.
pub proof fn lemma_disk_step(host: Host, st: Stacks, device: Seq<char>, count: nat)
    requires
        disk_step(host, st, device, count) is Ok,
    ensures
        carries(st, disk_step(host, st, device, count)->Ok_0, true),
{
    let next = disk_step(host, st, device, count)->Ok_0;
    let added = disk_paths(device, count);
    assert forall|i: int| 0 <= i < added.len() implies well_typed(#[trigger] added[i]) by {
        let p = partition_path(device, (i + 1) as nat);
        assert(added[i] == p);
        assert(p.len() == 2);
        assert(edge_ok(p[0].kind, p[1].kind));
    }
    if apart(st) {
        assert forall|i: int| 0 <= i < next.store.len() && (#[trigger] next.store[i]).len()
            > 0 implies !has_dev(next.ready, next.store[i].last().device) by {
            if i >= st.store.len() {
                let k = i - st.store.len();
                assert(next.store[i] == partition_path(device, (k + 1) as nat));
                assert(!partition_taken(host.fs_devs, st.ready, device, k));
            } else {
                assert(next.store[i] == st.store[i]);
            }
        }
    }
}

/// A successful [`pv_step`] keeps the state sound.
pub proof fn lemma_pv_step(host: Host, st: Stacks, pv: Seq<char>)
    requires
        pv_step(host, st, pv) is Ok,
    ensures
        carries(st, pv_step(host, st, pv)->Ok_0, true),
{
    let next = pv_step(host, st, pv)->Ok_0;
    let node = pv_node(pv);
    let i = first_pick(st.store, Pick::TipNamed(pv), 0);
    lemma_first_pick(st.store, Pick::TipNamed(pv), 0);
    lemma_without(st.ready, pv);
    let pair = fresh_pair(pv, node);
    assert(well_typed(pair)) by {
        assert(edge_ok(pair[0].kind, pair[1].kind));
    }
    if i < st.store.len() {
        if typed(st) {
            lemma_push_typed(st.store[i], node);
        }
        if apart(st) {
            assert forall|k: int| 0 <= k < next.store.len() && (#[trigger] next.store[k]).len()
                > 0 implies !has_dev(next.ready, next.store[k].last().device) by {
                if k != i {
                    assert(next.store[k] == st.store[k]);
                } else {
                    assert(st.store[i].len() > 0);
                }
            }
        }
    } else {
        if apart(st) {
            assert forall|k: int| 0 <= k < next.store.len() && (#[trigger] next.store[k]).len()
                > 0 implies !has_dev(next.ready, next.store[k].last().device) by {
                if k < st.store.len() {
                    assert(next.store[k] == st.store[k]);
                }
            }
        }
    }
}

/// A successful [`luks_step`] keeps the state sound; the store's tips stay
/// apart from the free devices if the mapper device is not one of them.
pub proof fn lemma_luks_step(host: Host, st: Stacks, name: Seq<char>, base: Seq<char>)
    requires
        luks_step(host, st, name, base) is Ok,
    ensures
        carries(
            st,
            luks_step(host, st, name, base)->Ok_0,
            !has_dev(st.ready, luks_node(name).device),
        ),
{
    let next = luks_step(host, st, name, base)->Ok_0;
    let node = luks_node(name);
    let lv = Pick::TipIs(Dev { device: base, kind: Kind::LvmLv });
    let named = Pick::TipNamed(base);
    let fresh = !has_dev(st.ready, node.device);
    lemma_without(st.ready, base);
    let pair = fresh_pair(base, node);
    assert(well_typed(pair)) by {
        assert(edge_ok(pair[0].kind, pair[1].kind));
    }
    if lvm_any(st.lvms, lv) {
        let e = lvm_first(st.lvms, lv, 0);
        let found = st.lvms[e].paths[first_pick(st.lvms[e].paths, lv, 0)];
        let route = Pick::LuksRoute(base, crate::state::below_tip(found).device);
        lemma_lvm_grown(st.lvms, route, node, 0);
        assert(fits(route, node));
        let added = lvm_grown(st.lvms, route, node, 0);
        if typed(st) {
            assert forall|k: int| 0 <= k < next.lvms.len() implies all_well_typed(
                (#[trigger] next.lvms[k]).paths,
            ) by {
                let was = st.lvms[k].paths;
                let now = next.lvms[k].paths;
                assert(now == cleared(was, route));
                assert forall|j: int| 0 <= j < now.len() implies well_typed(#[trigger] now[j]) by {
                    if !picks(route, was[j]) {
                        assert(now[j] == was[j]);
                    }
                }
            }
        }
        if apart(st) && fresh {
            assert forall|k: int| 0 <= k < next.store.len() && (#[trigger] next.store[k]).len()
                > 0 implies !has_dev(next.ready, next.store[k].last().device) by {
                if k < st.store.len() {
                    assert(next.store[k] == st.store[k]);
                } else {
                    assert(next.store[k] == added[k - st.store.len()]);
                }
            }
        }
    } else if any_pick(st.store, named) {
        lemma_first_pick(st.store, Pick::BadLuksBase(base), 0);
        if typed(st) {
            assert forall|k: int| 0 <= k < next.store.len() implies well_typed(
                #[trigger] next.store[k],
            ) by {
                if picks(named, st.store[k]) {
                    assert(!picks(Pick::BadLuksBase(base), st.store[k]));
                    lemma_push_typed(st.store[k], node);
                }
            }
        }
        if apart(st) && fresh {
            assert forall|k: int| 0 <= k < next.store.len() && (#[trigger] next.store[k]).len()
                > 0 implies !has_dev(next.ready, next.store[k].last().device) by {
                if !picks(named, st.store[k]) {
                    assert(next.store[k] == st.store[k]);
                }
            }
        }
    } else {
        if apart(st) && fresh {
            assert forall|k: int| 0 <= k < next.store.len() && (#[trigger] next.store[k]).len()
                > 0 implies !has_dev(next.ready, next.store[k].last().device) by {
                if k < st.store.len() {
                    assert(next.store[k] == st.store[k]);
                }
            }
        }
    }
}

/// A successful [`vg_pv_step`] keeps the state sound; the store's tips stay
/// apart from the free devices if the group's device is not one of them.
pub proof fn lemma_vg_pv_step(host: Host, st: Stacks, vg: Dev, pv: Seq<char>)
    requires
        vg.kind is LvmVg,
        vg_pv_step(host, st, vg, pv) is Ok,
    ensures
        carries(st, vg_pv_step(host, st, vg, pv)->Ok_0, !has_dev(st.ready, vg.device)),
{
    let next = vg_pv_step(host, st, vg, pv)->Ok_0;
    let named = Pick::TipNamed(pv);
    let fresh = !has_dev(st.ready, vg.device);
    let i = first_pick(st.store, named, 0);
    lemma_first_pick(st.store, named, 0);
    if i < st.store.len() {
        if typed(st) {
            lemma_push_typed(st.store[i], vg);
        }
        if apart(st) && fresh {
            assert forall|k: int| 0 <= k < next.store.len() && (#[trigger] next.store[k]).len()
                > 0 implies !has_dev(next.ready, next.store[k].last().device) by {
                if k != i {
                    assert(next.store[k] == st.store[k]);
                }
            }
        }
    } else {
        let e = lvm_first(st.lvms, named, 0);
        lemma_lvm_first(st.lvms, named, 0);
        let j = first_pick(st.lvms[e].paths, named, 0);
        lemma_first_pick(st.lvms[e].paths, named, 0);
        let found = st.lvms[e].paths[j];
        if typed(st) {
            assert(all_well_typed(st.lvms[e].paths));
            assert(well_typed(found));
            lemma_push_typed(found, vg);
            assert forall|k: int| 0 <= k < next.lvms.len() implies all_well_typed(
                (#[trigger] next.lvms[k]).paths,
            ) by {
                if k != e {
                    assert(next.lvms[k] == st.lvms[k]);
                } else {
                    let now = next.lvms[k].paths;
                    assert forall|m: int| 0 <= m < now.len() implies well_typed(
                        #[trigger] now[m],
                    ) by {
                        if m != j {
                            assert(now[m] == st.lvms[e].paths[m]);
                        }
                    }
                }
            }
        }
        if apart(st) && fresh {
            assert forall|k: int| 0 <= k < next.store.len() && (#[trigger] next.store[k]).len()
                > 0 implies !has_dev(next.ready, next.store[k].last().device) by {
                if k < st.store.len() {
                    assert(next.store[k] == st.store[k]);
                }
            }
        }
    }
}

/// A successful [`vg_step`] keeps the state sound.
pub proof fn lemma_vg_step(host: Host, st: Stacks, vg: Dev, pvs: Seq<Seq<char>>, from: int)
    requires
        vg.kind is LvmVg,
        0 <= from <= pvs.len(),
        vg_step(host, st, vg, pvs, from) is Ok,
    ensures
        carries(st, vg_step(host, st, vg, pvs, from)->Ok_0, !has_dev(st.ready, vg.device)),
    decreases pvs.len() - from,
{
    if from < pvs.len() {
        let next = vg_pv_step(host, st, vg, pvs[from])->Ok_0;
        lemma_vg_pv_step(host, st, vg, pvs[from]);
        lemma_vg_step(host, next, vg, pvs, from + 1);
    }
}

/// A successful [`lv_step`] keeps the state sound; the store's tips stay
/// apart from the free devices if the volume's device is not one of them.
pub proof fn lemma_lv_step(st: Stacks, vg: Seq<char>, name: Seq<char>, size: Option<Seq<char>>)
    requires
        lv_step(st, vg, name, size) is Ok,
    ensures
        carries(
            st,
            lv_step(st, vg, name, size)->Ok_0,
            !has_dev(st.ready, lv_node(vg, name).device),
        ),
{
    let next = lv_step(st, vg, name, size)->Ok_0;
    let node = lv_node(vg, name);
    let base = Pick::TipIs(Dev { device: crate::dm::vg_path(vg), kind: Kind::LvmVg });
    lemma_grown(st.store, base, node, 0);
    lemma_lvm_grown(st.lvms, base, node, 0);
    assert(fits(base, node));
    let a = grown(st.store, base, node, 0);
    let b = lvm_grown(st.lvms, base, node, 0);
    if typed(st) {
        assert forall|k: int| 0 <= k < next.store.len() implies well_typed(
            #[trigger] next.store[k],
        ) by {
            if k < st.store.len() {
                assert(next.store[k] == st.store[k]);
            } else if k < st.store.len() + a.len() {
                assert(next.store[k] == a[k - st.store.len()]);
            } else {
                assert(next.store[k] == b[k - st.store.len() - a.len()]);
            }
        }
    }
    if apart(st) && !has_dev(st.ready, node.device) {
        assert forall|k: int| 0 <= k < next.store.len() && (#[trigger] next.store[k]).len()
            > 0 implies !has_dev(next.ready, next.store[k].last().device) by {
            if k < st.store.len() {
                assert(next.store[k] == st.store[k]);
            } else if k < st.store.len() + a.len() {
                assert(next.store[k] == a[k - st.store.len()]);
            } else {
                assert(next.store[k] == b[k - st.store.len() - a.len()]);
            }
        }
    }
}

/// None of the volume groups has a device that is still free on the host.
pub open spec fn vgs_fresh(ready: Seq<Dev>, vgs: Seq<ManifestLvmVg>) -> bool {
    forall|i: int|
        0 <= i < vgs.len() ==> !has_dev(ready, vg_node((#[trigger] vgs[i]).name@).device)
}

/// None of the logical volumes has a device that is still free on the host.
pub open spec fn lvs_fresh(ready: Seq<Dev>, lvs: Seq<ManifestLvmLv>) -> bool {
    forall|i: int|
        0 <= i < lvs.len() ==> !has_dev(
            ready,
            lv_node((#[trigger] lvs[i]).vg@, lvs[i].name@).device,
        )
}

/// The entry declares no device that is still free on the host.
pub open spec fn dm_fresh(ready: Seq<Dev>, dm: Dm) -> bool {
    match dm {
        Dm::Luks(luks) => !has_dev(ready, luks_node(luks.name@).device),
        Dm::Lvm(lvm) => vgs_fresh(ready, items(lvm.vgs)) && lvs_fresh(ready, items(lvm.lvs)),
    }
}

/// No device-mapper entry declares a device that is still free on the host.
pub open spec fn dms_fresh(ready: Seq<Dev>, dms: Seq<Dm>) -> bool {
    forall|i: int| 0 <= i < dms.len() ==> dm_fresh(ready, #[trigger] dms[i])
}

/// What is fresh for a list of free devices is fresh for a shorter one.
pub proof fn lemma_fresh_shrinks(after: Seq<Dev>, before: Seq<Dev>, dms: Seq<Dm>)
    requires
        shrinks(after, before),
        dms_fresh(before, dms),
    ensures
        dms_fresh(after, dms),
{
    assert forall|i: int| 0 <= i < dms.len() implies dm_fresh(after, #[trigger] dms[i]) by {
        assert(dm_fresh(before, dms[i]));
        match dms[i] {
            Dm::Luks(luks) => {},
            Dm::Lvm(lvm) => {
                let vgs = items(lvm.vgs);
                let lvs = items(lvm.lvs);
                assert forall|k: int| 0 <= k < vgs.len() implies !has_dev(
                    after,
                    vg_node((#[trigger] vgs[k]).name@).device,
                ) by {}
                assert forall|k: int| 0 <= k < lvs.len() implies !has_dev(
                    after,
                    lv_node((#[trigger] lvs[k]).vg@, lvs[k].name@).device,
                ) by {}
            },
        }
    }
}

/// A successful [`disks_fold`] keeps the state sound.
pub proof fn lemma_disks_fold(host: Host, st: Stacks, disks: Seq<ManifestDisk>, from: int)
    requires
        0 <= from <= disks.len(),
        disks_fold(host, st, disks, from) is Ok,
    ensures
        carries(st, disks_fold(host, st, disks, from)->Ok_0, true),
        disks_fold(host, st, disks, from)->Ok_0.ready == st.ready,
    decreases disks.len() - from,
{
    if from < disks.len() {
        let count = disks[from].partitions@.len();
        let next = disk_step(host, st, disks[from].device@, count)->Ok_0;
        lemma_disk_step(host, st, disks[from].device@, count);
        lemma_disks_fold(host, next, disks, from + 1);
    }
}

/// A successful [`pvs_fold`] keeps the state sound.
pub proof fn lemma_pvs_fold(host: Host, st: Stacks, pvs: Seq<String>, from: int)
    requires
        0 <= from <= pvs.len(),
        pvs_fold(host, st, pvs, from) is Ok,
    ensures
        carries(st, pvs_fold(host, st, pvs, from)->Ok_0, true),
    decreases pvs.len() - from,
{
    if from < pvs.len() {
        let next = pv_step(host, st, pvs[from]@)->Ok_0;
        lemma_pv_step(host, st, pvs[from]@);
        lemma_pvs_fold(host, next, pvs, from + 1);
    }
}

/// A successful [`vgs_fold`] keeps the state sound.
pub proof fn lemma_vgs_fold(host: Host, st: Stacks, vgs: Seq<ManifestLvmVg>, from: int)
    requires
        0 <= from <= vgs.len(),
        vgs_fold(host, st, vgs, from) is Ok,
    ensures
        carries(st, vgs_fold(host, st, vgs, from)->Ok_0, vgs_fresh(st.ready, vgs)),
    decreases vgs.len() - from,
{
    if from < vgs.len() {
        let vg = vg_node(vgs[from].name@);
        let next = vg_step(host, st, vg, names_view(vgs[from].pvs@), 0)->Ok_0;
        lemma_vg_step(host, st, vg, names_view(vgs[from].pvs@), 0);
        lemma_vgs_fold(host, next, vgs, from + 1);
        if vgs_fresh(st.ready, vgs) {
            assert forall|i: int| 0 <= i < vgs.len() implies !has_dev(
                next.ready,
                vg_node((#[trigger] vgs[i]).name@).device,
            ) by {}
        }
    }
}

/// A successful [`lvs_fold`] keeps the state sound.
pub proof fn lemma_lvs_fold(st: Stacks, lvs: Seq<ManifestLvmLv>, from: int)
    requires
        0 <= from <= lvs.len(),
        lvs_fold(st, lvs, from) is Ok,
    ensures
        carries(st, lvs_fold(st, lvs, from)->Ok_0, lvs_fresh(st.ready, lvs)),
    decreases lvs.len() - from,
{
    if from < lvs.len() {
        let next = lv_step(st, lvs[from].vg@, lvs[from].name@, size_view(lvs[from].size))->Ok_0;
        lemma_lv_step(st, lvs[from].vg@, lvs[from].name@, size_view(lvs[from].size));
        lemma_lvs_fold(next, lvs, from + 1);
        if lvs_fresh(st.ready, lvs) {
            assert forall|i: int| 0 <= i < lvs.len() implies !has_dev(
                next.ready,
                lv_node((#[trigger] lvs[i]).vg@, lvs[i].name@).device,
            ) by {}
        }
    }
}

/// A successful [`dm_step`] keeps the state sound.
pub proof fn lemma_dm_step(host: Host, st: Stacks, dm: Dm)
    requires
        dm_step(host, st, dm) is Ok,
    ensures
        carries(st, dm_step(host, st, dm)->Ok_0, dm_fresh(st.ready, dm)),
{
    match dm {
        Dm::Luks(luks) => {
            lemma_luks_step(host, st, luks.name@, luks.device@);
        },
        Dm::Lvm(lvm) => {
            let vgs = items(lvm.vgs);
            let lvs = items(lvm.lvs);
            let a = pvs_fold(host, st, items(lvm.pvs), 0)->Ok_0;
            lemma_pvs_fold(host, st, items(lvm.pvs), 0);
            let b = vgs_fold(host, a, vgs, 0)->Ok_0;
            lemma_vgs_fold(host, a, vgs, 0);
            lemma_lvs_fold(b, lvs, 0);
            if dm_fresh(st.ready, dm) {
                assert forall|i: int| 0 <= i < vgs.len() implies !has_dev(
                    a.ready,
                    vg_node((#[trigger] vgs[i]).name@).device,
                ) by {}
                assert forall|i: int| 0 <= i < lvs.len() implies !has_dev(
                    b.ready,
                    lv_node((#[trigger] lvs[i]).vg@, lvs[i].name@).device,
                ) by {}
            }
        },
    }
}

/// A successful [`dms_fold`] keeps the state sound.
pub proof fn lemma_dms_fold(host: Host, st: Stacks, dms: Seq<Dm>, from: int)
    requires
        0 <= from <= dms.len(),
        dms_fold(host, st, dms, from) is Ok,
    ensures
        carries(st, dms_fold(host, st, dms, from)->Ok_0, dms_fresh(st.ready, dms)),
    decreases dms.len() - from,
{
    if from < dms.len() {
        let next = dm_step(host, st, dms[from])->Ok_0;
        lemma_dm_step(host, st, dms[from]);
        lemma_dms_fold(host, next, dms, from + 1);
        if dms_fresh(st.ready, dms) {
            lemma_fresh_shrinks(next.ready, st.ready, dms);
        }
    }
}

/// Accepted device mappers keep the stacks sound: if no stack of the store
/// is empty and every stack, of the store and of the scan, is well typed,
/// then the same holds of the state that the device mappers leave. Along
/// every stack of the store each node is built on a legal kind of base,
/// whether the stack was extended, adopted or newly pushed.
pub proof fn law_device_mappers_keep_stacks_sound(host: Host, st: Stacks, dms: Seq<Dm>)
    requires
        typed(st),
        filled(st.store),
        dms_rule(host, st, dms) is Ok,
    ensures
        typed(dms_rule(host, st, dms)->Ok_0),
        filled(dms_rule(host, st, dms)->Ok_0.store),
{
    lemma_dms_fold(host, st, dms, 0);
}

/// An accepted manifest keeps the stacks sound and the tips apart, from any
/// state: sound stacks stay sound; and if no tip of the store is a free
/// device and the device mappers declare no device that is free, then no
/// tip of the store is a free device afterwards.
pub proof fn law_manifest_keeps_the_state(host: Host, st: Stacks, manifest: Manifest)
    requires
        blk_stacks(host, st, manifest) is Ok,
    ensures
        typed(st) && filled(st.store) ==> typed(blk_stacks(host, st, manifest)->Ok_0) && filled(
            blk_stacks(host, st, manifest)->Ok_0.store,
        ),
        apart(st) && dms_fresh(st.ready, items(manifest.dm)) ==> apart(
            blk_stacks(host, st, manifest)->Ok_0,
        ),
        shrinks(blk_stacks(host, st, manifest)->Ok_0.ready, st.ready),
{
    let disks = items(manifest.disks);
    lemma_disks_fold(host, st, disks, 0);
    let with_disks = disks_fold(host, st, disks, 0)->Ok_0;
    lemma_dms_fold(host, with_disks, items(manifest.dm), 0);
}

/// Every stack of an accepted manifest is sound: if the scanned LVM stacks
/// are well typed, then no stack of the store that the disks and device
/// mappers of the manifest leave is empty, and each is well typed, every
/// node being built on a legal kind of base.
pub proof fn law_accepted_stacks_are_well_typed(
    host: Host,
    ready: Seq<Dev>,
    lvms: Seq<LvmEntry>,
    manifest: Manifest,
)
    requires
        forall|e: int| 0 <= e < lvms.len() ==> all_well_typed((#[trigger] lvms[e]).paths),
        blk_stacks(host, fresh_stacks(ready, lvms), manifest) is Ok,
    ensures
        all_well_typed(blk_stacks(host, fresh_stacks(ready, lvms), manifest)->Ok_0.store),
        filled(blk_stacks(host, fresh_stacks(ready, lvms), manifest)->Ok_0.store),
{
    let st = fresh_stacks(ready, lvms);
    let disks = items(manifest.disks);
    lemma_disks_fold(host, st, disks, 0);
    let with_disks = disks_fold(host, st, disks, 0)->Ok_0;
    lemma_dms_fold(host, with_disks, items(manifest.dm), 0);
}

/// No tip of the store is left free: if no device that the device mappers
/// of the manifest declare (a LUKS mapper device, a volume group, a logical
/// volume) is among the free devices of the host, then after an accepted
/// manifest's disks and device mappers no tip of the store is among the
/// free devices that are left.
pub proof fn law_tips_are_not_left_free(
    host: Host,
    ready: Seq<Dev>,
    lvms: Seq<LvmEntry>,
    manifest: Manifest,
)
    requires
        dms_fresh(ready, items(manifest.dm)),
        blk_stacks(host, fresh_stacks(ready, lvms), manifest) is Ok,
    ensures
        apart(blk_stacks(host, fresh_stacks(ready, lvms), manifest)->Ok_0),
{
    let st = fresh_stacks(ready, lvms);
    let disks = items(manifest.disks);
    lemma_disks_fold(host, st, disks, 0);
    let with_disks = disks_fold(host, st, disks, 0)->Ok_0;
    lemma_dms_fold(host, with_disks, items(manifest.dm), 0);
}

/// A disk with `count` partitions gives the store exactly `count` new
/// stacks, in order, and stack `i` of them ends in the partition whose name
/// is the disk's partition prefix followed by the number `i + 1`.
pub proof fn law_disk_gives_one_stack_per_partition(
    host: Host,
    st: Stacks,
    device: Seq<char>,
    count: nat,
)
    requires
        disk_step(host, st, device, count) is Ok,
    ensures
        disk_step(host, st, device, count)->Ok_0.store.len() == st.store.len() + count,
        forall|i: int|
            0 <= i < st.store.len() ==> disk_step(host, st, device, count)->Ok_0.store[i]
                == st.store[i],
        forall|i: int|
            0 <= i < count ==> (#[trigger] disk_step(host, st, device, count)->Ok_0.store[
                st.store.len() + i]).last() == (Dev {
                device: partition_name(device, (i + 1) as nat),
                kind: Kind::Partition,
            }),
{
    let next = disk_step(host, st, device, count)->Ok_0;
    assert forall|i: int| 0 <= i < count implies (#[trigger] next.store[st.store.len() + i]).last()
        == (Dev { device: partition_name(device, (i + 1) as nat), kind: Kind::Partition }) by {
        assert(next.store[st.store.len() + i] == disk_paths(device, count)[i]);
    }
}

/// The stacks of every partition of the disks from `from` on, disk after
/// disk, each disk's partitions in order.
pub open spec fn disks_paths(disks: Seq<ManifestDisk>, from: int) -> Seq<Seq<Dev>>
    decreases disks.len() - from,
{
    if from < 0 || from >= disks.len() {
        Seq::empty()
    } else {
        disk_paths(disks[from].device@, disks[from].partitions@.len()) + disks_paths(
            disks,
            from + 1,
        )
    }
}

/// Accepted disks give the store one stack for each of their partitions and
/// nothing else: the store grows by exactly the stacks of the disks'
/// partitions, named by the prefix rule, and the rest of the state stays.
pub proof fn law_disks_give_one_stack_per_partition(
    host: Host,
    st: Stacks,
    disks: Seq<ManifestDisk>,
    from: int,
)
    requires
        0 <= from <= disks.len(),
        disks_fold(host, st, disks, from) is Ok,
    ensures
        disks_fold(host, st, disks, from)->Ok_0 == (Stacks {
            store: st.store + disks_paths(disks, from),
            ready: st.ready,
            lvms: st.lvms,
        }),
    decreases disks.len() - from,
{
    if from < disks.len() {
        let own = disk_paths(disks[from].device@, disks[from].partitions@.len());
        let next = disk_step(host, st, disks[from].device@, disks[from].partitions@.len())->Ok_0;
        law_disks_give_one_stack_per_partition(host, next, disks, from + 1);
        assert((st.store + own) + disks_paths(disks, from + 1) =~= st.store + disks_paths(
            disks,
            from,
        ));
    } else {
        assert(st.store + disks_paths(disks, from) =~= st.store);
    }
}

/// A volume group that takes a physical volume stands on it afterwards: the
/// store then holds a stack that ends in the group's node directly on a
/// node of that volume. The store keeps its length where one of its own
/// stacks ended in the volume, and grows by the one adopted stack otherwise.
pub proof fn law_group_stands_on_its_volume(host: Host, st: Stacks, vg: Dev, pv: Seq<char>)
    requires
        vg_pv_step(host, st, vg, pv) is Ok,
    ensures
        exists|i: int|
            0 <= i < vg_pv_step(host, st, vg, pv)->Ok_0.store.len() && stands_on(
                #[trigger] vg_pv_step(host, st, vg, pv)->Ok_0.store[i],
                vg,
                pv,
            ),
        vg_pv_step(host, st, vg, pv)->Ok_0.store.len() == st.store.len() + (if any_pick(
            st.store,
            Pick::TipNamed(pv),
        ) {
            0int
        } else {
            1int
        }),
        vg_pv_step(host, st, vg, pv)->Ok_0.ready == st.ready,
{
    let next = vg_pv_step(host, st, vg, pv)->Ok_0;
    let named = Pick::TipNamed(pv);
    let i = first_pick(st.store, named, 0);
    lemma_first_pick(st.store, named, 0);
    if i < st.store.len() {
        assert(stands_on(next.store[i], vg, pv));
    } else {
        let e = lvm_first(st.lvms, named, 0);
        lemma_lvm_first(st.lvms, named, 0);
        lemma_first_pick(st.lvms[e].paths, named, 0);
        assert(stands_on(next.store[st.store.len() as int], vg, pv));
    }
}

/// The stack ends in the node `vg`, directly on a node of the device `pv`.
pub open spec fn stands_on(p: Seq<Dev>, vg: Dev, pv: Seq<char>) -> bool {
    p.len() >= 2 && p.last() == vg && p[p.len() - 2].device == pv
}

/// A volume group gives the store at most one stack for each of its
/// physical volumes, takes none away, and leaves the free devices alone.
pub proof fn law_group_adds_a_stack_at_most_per_volume(
    host: Host,
    st: Stacks,
    vg: Dev,
    pvs: Seq<Seq<char>>,
    from: int,
)
    requires
        0 <= from <= pvs.len(),
        vg_step(host, st, vg, pvs, from) is Ok,
    ensures
        st.store.len() <= vg_step(host, st, vg, pvs, from)->Ok_0.store.len() <= st.store.len()
            + pvs.len() - from,
        vg_step(host, st, vg, pvs, from)->Ok_0.ready == st.ready,
    decreases pvs.len() - from,
{
    if from < pvs.len() {
        let next = vg_pv_step(host, st, vg, pvs[from])->Ok_0;
        law_group_stands_on_its_volume(host, st, vg, pvs[from]);
        law_group_adds_a_stack_at_most_per_volume(host, next, vg, pvs, from + 1);
    }
}

/// Some stack of the store ends in the node `vg` directly on the device `pv`.
pub open spec fn group_tops(store: Seq<Seq<Dev>>, vg: Dev, pv: Seq<char>) -> bool {
    exists|i: int| 0 <= i < store.len() && stands_on(#[trigger] store[i], vg, pv)
}

/// A stack on which the group stands stays so while the group takes more
/// physical volumes, none of which is named like the group itself.
pub proof fn lemma_group_stays(
    host: Host,
    st: Stacks,
    vg: Dev,
    pvs: Seq<Seq<char>>,
    from: int,
    pv: Seq<char>,
)
    requires
        0 <= from <= pvs.len(),
        vg_step(host, st, vg, pvs, from) is Ok,
        forall|x: int| from <= x < pvs.len() ==> #[trigger] pvs[x] != vg.device,
        group_tops(st.store, vg, pv),
    ensures
        group_tops(vg_step(host, st, vg, pvs, from)->Ok_0.store, vg, pv),
    decreases pvs.len() - from,
{
    if from < pvs.len() {
        let next = vg_pv_step(host, st, vg, pvs[from])->Ok_0;
        let named = Pick::TipNamed(pvs[from]);
        let at = choose|i: int| 0 <= i < st.store.len() && stands_on(#[trigger] st.store[i], vg, pv);
        lemma_first_pick(st.store, named, 0);
        assert(pvs[from] != vg.device);
        assert(!picks(named, st.store[at]));
        assert(next.store[at] == st.store[at]);
        assert(stands_on(next.store[at], vg, pv));
        lemma_group_stays(host, next, vg, pvs, from + 1, pv);
    }
}

/// Every physical volume of an accepted volume group carries the group:
/// for each volume that the group lists, from `from` on, the store holds a
/// stack that ends in the group's node directly on that volume. This is
/// stated for groups that list no volume named like the group itself.
pub proof fn law_group_stands_on_every_volume(
    host: Host,
    st: Stacks,
    vg: Dev,
    pvs: Seq<Seq<char>>,
    from: int,
    x: int,
)
    requires
        0 <= from <= x < pvs.len(),
        vg_step(host, st, vg, pvs, from) is Ok,
        forall|k: int| from <= k < pvs.len() ==> #[trigger] pvs[k] != vg.device,
    ensures
        group_tops(vg_step(host, st, vg, pvs, from)->Ok_0.store, vg, pvs[x]),
    decreases pvs.len() - from,
{
    let next = vg_pv_step(host, st, vg, pvs[from])->Ok_0;
    if from == x {
        law_group_stands_on_its_volume(host, st, vg, pvs[from]);
        lemma_group_stays(host, next, vg, pvs, from + 1, pvs[x]);
    } else {
        law_group_stands_on_every_volume(host, next, vg, pvs, from + 1, x);
    }
}

} // verus!
