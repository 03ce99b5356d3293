use vstd::prelude::*;
use crate::blockdev::Dev;
use crate::diskcheck::{disk_step, disks_fold};
use crate::dm::{
    dm_step, dms_fold, dms_rule, luks_node, luks_step, pv_step, pvs_fold, vg_pv_step, vg_step,
    vgs_fold,
};
use crate::manifest::{items, Dm, Manifest, ManifestDisk, ManifestLvmVg};
use crate::state::{names_view, Host, Stacks};
use crate::validate::{blk_rule, blk_stacks, disk_probes, dm_probes, dms_probes, probes};

verus! {

/// Two hosts look alike from the given paths: they hold the same
/// filesystems, and each of the paths exists on both or on neither.
pub open spec fn alike(a: Host, b: Host, paths: Seq<Seq<char>>) -> bool {
    &&& a.fs_devs == b.fs_devs
    &&& forall|x: Seq<char>|
        paths.contains(x) ==> (a.files.contains(x) == #[trigger] b.files.contains(x))
}

proof fn lemma_disks_alike(a: Host, b: Host, st: Stacks, disks: Seq<ManifestDisk>, from: int)
    requires
        0 <= from <= disks.len(),
        alike(a, b, disk_probes(disks, disks.len() as int)),
    ensures
        disks_fold(a, st, disks, from) == disks_fold(b, st, disks, from),
    decreases disks.len() - from,
{
    if from < disks.len() {
        let paths = disk_probes(disks, disks.len() as int);
        assert(paths[from] == disks[from].device@);
        assert(paths.contains(disks[from].device@));
        let count = disks[from].partitions@.len();
        assert(disk_step(a, st, disks[from].device@, count) == disk_step(
            b,
            st,
            disks[from].device@,
            count,
        ));
        match disk_step(a, st, disks[from].device@, count) {
            Ok(next) => lemma_disks_alike(a, b, next, disks, from + 1),
            Err(_) => {},
        }
    }
}

proof fn lemma_pvs_alike(a: Host, b: Host, st: Stacks, pvs: Seq<String>, from: int)
    requires
        0 <= from <= pvs.len(),
        alike(a, b, names_view(pvs)),
    ensures
        pvs_fold(a, st, pvs, from) == pvs_fold(b, st, pvs, from),
    decreases pvs.len() - from,
{
    if from < pvs.len() {
        assert(names_view(pvs)[from] == pvs[from]@);
        assert(names_view(pvs).contains(pvs[from]@));
        assert(pv_step(a, st, pvs[from]@) == pv_step(b, st, pvs[from]@));
        match pv_step(a, st, pvs[from]@) {
            Ok(next) => lemma_pvs_alike(a, b, next, pvs, from + 1),
            Err(_) => {},
        }
    }
}

proof fn lemma_vg_alike(a: Host, b: Host, st: Stacks, vg: Dev, pvs: Seq<Seq<char>>, from: int)
    requires
        0 <= from <= pvs.len(),
        a.fs_devs == b.fs_devs,
    ensures
        vg_step(a, st, vg, pvs, from) == vg_step(b, st, vg, pvs, from),
    decreases pvs.len() - from,
{
    if from < pvs.len() {
        assert(vg_pv_step(a, st, vg, pvs[from]) == vg_pv_step(b, st, vg, pvs[from]));
        match vg_pv_step(a, st, vg, pvs[from]) {
            Ok(next) => lemma_vg_alike(a, b, next, vg, pvs, from + 1),
            Err(_) => {},
        }
    }
}

proof fn lemma_vgs_alike(a: Host, b: Host, st: Stacks, vgs: Seq<ManifestLvmVg>, from: int)
    requires
        0 <= from <= vgs.len(),
        a.fs_devs == b.fs_devs,
    ensures
        vgs_fold(a, st, vgs, from) == vgs_fold(b, st, vgs, from),
    decreases vgs.len() - from,
{
    if from < vgs.len() {
        let vg = crate::dm::vg_node(vgs[from].name@);
        let pvs = names_view(vgs[from].pvs@);
        lemma_vg_alike(a, b, st, vg, pvs, 0);
        match vg_step(a, st, vg, pvs, 0) {
            Ok(next) => lemma_vgs_alike(a, b, next, vgs, from + 1),
            Err(_) => {},
        }
    }
}

proof fn lemma_dm_alike(a: Host, b: Host, st: Stacks, dm: Dm)
    requires
        alike(a, b, dm_probes(dm)),
    ensures
        dm_step(a, st, dm) == dm_step(b, st, dm),
{
    match dm {
        Dm::Luks(luks) => {
            let paths = dm_probes(dm);
            assert(paths[0] == luks_node(luks.name@).device);
            assert(paths[1] == luks.device@);
            assert(paths.contains(luks_node(luks.name@).device));
            assert(paths.contains(luks.device@));
            assert(luks_step(a, st, luks.name@, luks.device@) == luks_step(
                b,
                st,
                luks.name@,
                luks.device@,
            ));
        },
        Dm::Lvm(lvm) => {
            lemma_pvs_alike(a, b, st, items(lvm.pvs), 0);
            match pvs_fold(a, st, items(lvm.pvs), 0) {
                Ok(with_pvs) => lemma_vgs_alike(a, b, with_pvs, items(lvm.vgs), 0),
                Err(_) => {},
            }
        },
    }
}

proof fn lemma_probes_grow(dms: Seq<Dm>, upto: int, k: int, x: Seq<char>)
    requires
        0 <= k < upto <= dms.len(),
        dm_probes(dms[k]).contains(x),
    ensures
        dms_probes(dms, upto).contains(x),
    decreases upto,
{
    let front = dms_probes(dms, upto - 1);
    let own = dm_probes(dms[upto - 1]);
    if k < upto - 1 {
        lemma_probes_grow(dms, upto - 1, k, x);
        let i = choose|i: int| 0 <= i < front.len() && front[i] == x;
        assert((front + own)[i] == x);
    } else {
        let i = choose|i: int| 0 <= i < own.len() && own[i] == x;
        assert((front + own)[front.len() + i] == x);
    }
}

proof fn lemma_dms_alike(a: Host, b: Host, st: Stacks, dms: Seq<Dm>, from: int)
    requires
        0 <= from <= dms.len(),
        alike(a, b, dms_probes(dms, dms.len() as int)),
    ensures
        dms_fold(a, st, dms, from) == dms_fold(b, st, dms, from),
    decreases dms.len() - from,
{
    if from < dms.len() {
        assert forall|x: Seq<char>| dm_probes(dms[from]).contains(x) implies (a.files.contains(x)
            == #[trigger] b.files.contains(x)) by {
            lemma_probes_grow(dms, dms.len() as int, from, x);
        }
        lemma_dm_alike(a, b, st, dms[from]);
        match dm_step(a, st, dms[from]) {
            Ok(next) => lemma_dms_alike(a, b, next, dms, from + 1),
            Err(_) => {},
        }
    }
}

/// Validation asks the host about no path but those of [`probes`]: two
/// hosts that hold the same filesystems and agree on which of these paths
/// exist give every state the same stacks and the same verdict.
pub proof fn law_only_probed_paths_count(a: Host, b: Host, st: Stacks, manifest: Manifest)
    requires
        alike(a, b, probes(manifest)),
    ensures
        blk_stacks(a, st, manifest) == blk_stacks(b, st, manifest),
        blk_rule(a, st, manifest) == blk_rule(b, st, manifest),
{
    let disks = items(manifest.disks);
    let dms = items(manifest.dm);
    let first = disk_probes(disks, disks.len() as int);
    let second = dms_probes(dms, dms.len() as int);
    assert forall|x: Seq<char>| first.contains(x) implies (a.files.contains(x)
        == #[trigger] b.files.contains(x)) by {
        let i = choose|i: int| 0 <= i < first.len() && first[i] == x;
        assert((first + second)[i] == x);
    }
    assert forall|x: Seq<char>| second.contains(x) implies (a.files.contains(x)
        == #[trigger] b.files.contains(x)) by {
        let i = choose|i: int| 0 <= i < second.len() && second[i] == x;
        assert((first + second)[first.len() + i] == x);
    }
    lemma_disks_alike(a, b, st, disks, 0);
    match disks_fold(a, st, disks, 0) {
        Ok(with_disks) => {
            lemma_dms_alike(a, b, with_disks, dms, 0);
            assert(dms_rule(a, with_disks, dms) == dms_rule(b, with_disks, dms));
        },
        Err(_) => {},
    }
}

} // verus!
