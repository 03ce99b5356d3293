use vstd::prelude::*;
use crate::dm::{vg_device, vg_path};
use crate::errors::{bad_manifest, refused, Fault, NayiError};
use crate::manifest::{items, Dm, ManifestLvmLv};
use crate::size::{size_ok, valid_size};
use crate::text::{concat3, same};

verus! {

/// The logical volumes that one device-mapper entry declares.
pub open spec fn lvs_of(dm: Dm) -> Seq<ManifestLvmLv> {
    match dm {
        Dm::Lvm(lvm) => items(lvm.lvs),
        Dm::Luks(_) => Seq::empty(),
    }
}

/// Every logical volume of the manifest, in the order of declaration.
pub open spec fn all_lvs(dms: Seq<Dm>) -> Seq<ManifestLvmLv>
    decreases dms.len(),
{
    if dms.len() == 0 {
        Seq::empty()
    } else {
        all_lvs(dms.drop_last()) + lvs_of(dms.last())
    }
}

/// Every stated size is well formed.
pub open spec fn sizes_ok(lvs: Seq<ManifestLvmLv>) -> bool {
    forall|i: int|
        0 <= i < lvs.len() && (#[trigger] lvs[i]).size is Some ==> size_ok(lvs[i].size.unwrap()@)
}

/// Volume `i` has no size although volume `j` of the same group follows it.
/// Two volumes are of the same group if their groups have the same device
/// path, however the manifest names them.
pub open spec fn unsized_before(lvs: Seq<ManifestLvmLv>, i: int, j: int) -> bool {
    0 <= i < j < lvs.len() && lvs[i].size is None && vg_path(lvs[i].vg@) == vg_path(lvs[j].vg@)
}

/// Some volume without a size is not the last of its group.
pub open spec fn unsized_not_last(lvs: Seq<ManifestLvmLv>) -> bool {
    exists|i: int, j: int| unsized_before(lvs, i, j)
}

/// The sizes of the manifest's logical volumes are acceptable: each stated
/// size is well formed, and only the last volume of a group may have none.
pub open spec fn lv_sizes_rule(dms: Seq<Dm>) -> bool {
    sizes_ok(all_lvs(dms)) && !unsized_not_last(all_lvs(dms))
}

/// The failure that the first volume at or after `from` that breaks the rule
/// gives: its size is malformed, or it has none although another volume of
/// its group follows.
pub open spec fn size_fault(lvs: Seq<ManifestLvmLv>, from: int) -> Fault
    decreases lvs.len() - from,
{
    if from < 0 || from >= lvs.len() {
        Fault::BadManifest(Seq::empty())
    } else if lvs[from].size is Some && !size_ok(lvs[from].size.unwrap()@) {
        refused("bad lv size "@, lvs[from].size.unwrap()@, ""@)
    } else if lvs[from].size is None && (exists|j: int| unsized_before(lvs, from, j)) {
        refused("lv "@ + lvs[from].name@ + " on vg "@, lvs[from].vg@, " has None size"@)
    } else {
        size_fault(lvs, from + 1)
    }
}

/// Volume `i` breaks the rule of sizes: its size is malformed, or it has
/// none although another volume of its group follows.
pub open spec fn offends(lvs: Seq<ManifestLvmLv>, i: int) -> bool {
    0 <= i < lvs.len() && ((lvs[i].size is Some && !size_ok(lvs[i].size.unwrap()@)) || (
    lvs[i].size is None && exists|j: int| unsized_before(lvs, i, j)))
}

/// What is told of a volume that has no size and is not the last of its
/// group: its name, and its group as the manifest names it.
pub open spec fn unsized_fault(lv: ManifestLvmLv) -> Fault {
    refused("lv "@ + lv.name@ + " on vg "@, lv.vg@, " has None size"@)
}

/// The failure names the first volume that breaks the rule: where the
/// volume `a` has no size and is not the last of its group, and no volume
/// from `from` up to it breaks the rule, the failure tells `a` and its group.
pub proof fn law_first_offender_is_named(lvs: Seq<ManifestLvmLv>, a: int, from: int)
    requires
        0 <= from <= a < lvs.len(),
        lvs[a].size is None,
        offends(lvs, a),
        forall|k: int| from <= k < a ==> !#[trigger] offends(lvs, k),
    ensures
        size_fault(lvs, from) == unsized_fault(lvs[a]),
    decreases a - from,
{
    if from < a {
        assert(!offends(lvs, from));
        law_first_offender_is_named(lvs, a, from + 1);
    }
}

/// Volumes `m` and `k` are of the same group.
pub open spec fn same_group(lvs: Seq<ManifestLvmLv>, m: int, k: int) -> bool {
    vg_path(lvs[m].vg@) == vg_path(lvs[k].vg@)
}

/// Reversing an accepted list is refused with the name of the moved volume:
/// where the volume `j` without a size ends a group of two or more, and no
/// later volume does the same, the reversed list fails with the text that
/// names `j` and its group.
pub proof fn law_reversed_order_names_the_moved_volume(lvs: Seq<ManifestLvmLv>, i: int, j: int)
    requires
        sizes_ok(lvs),
        !unsized_not_last(lvs),
        0 <= i < j < lvs.len(),
        lvs[j].size is None,
        same_group(lvs, i, j),
        forall|k: int, m: int|
            j < k < lvs.len() && 0 <= m < k && lvs[k].size is None ==> !#[trigger] same_group(
                lvs,
                m,
                k,
            ),
    ensures
        size_fault(lvs.reverse(), 0) == unsized_fault(lvs[j]),
{
    let r = lvs.reverse();
    let n = lvs.len() as int;
    let a = n - 1 - j;
    assert(r[a] == lvs[j]);
    assert(r[n - 1 - i] == lvs[i]);
    assert(unsized_before(r, a, n - 1 - i));
    assert forall|k: int| 0 <= k < a implies !#[trigger] offends(r, k) by {
        assert(r[k] == lvs[n - 1 - k]);
        if r[k].size is None {
            if exists|b: int| unsized_before(r, k, b) {
                let b = choose|b: int| unsized_before(r, k, b);
                assert(r[b] == lvs[n - 1 - b]);
                assert(same_group(lvs, n - 1 - b, n - 1 - k));
            }
        } else {
            assert(lvs[n - 1 - k].size is Some);
        }
    }
    law_first_offender_is_named(r, a, 0);
}

/// Only the last volume of a group may go without a size, so such a volume
/// cannot change places: where an accepted list has the volume `j` without
/// a size and the volume `i` of the same group before it, any list that has
/// the two the other way round, at `a` and at `b`, is rejected.
pub proof fn law_unsized_volume_must_stay_last(
    lvs: Seq<ManifestLvmLv>,
    other: Seq<ManifestLvmLv>,
    i: int,
    j: int,
    a: int,
    b: int,
)
    requires
        !unsized_not_last(lvs),
        0 <= i < j < lvs.len(),
        lvs[j].size is None,
        vg_path(lvs[i].vg@) == vg_path(lvs[j].vg@),
        0 <= a < b < other.len(),
        other[a] == lvs[j],
        other[b] == lvs[i],
    ensures
        unsized_not_last(other),
{
    assert(unsized_before(other, a, b));
}

/// Reversing the order of declaration is such a change of places: an
/// accepted list whose group of two or more volumes ends in one without a
/// size is rejected once it is reversed.
pub proof fn law_reversed_order_is_rejected(lvs: Seq<ManifestLvmLv>, i: int, j: int)
    requires
        !unsized_not_last(lvs),
        0 <= i < j < lvs.len(),
        lvs[j].size is None,
        vg_path(lvs[i].vg@) == vg_path(lvs[j].vg@),
    ensures
        unsized_not_last(lvs.reverse()),
{
    let n = lvs.len() as int;
    law_unsized_volume_must_stay_last(lvs, lvs.reverse(), i, j, n - 1 - j, n - 1 - i);
}

/// Under the rule a volume that another of its group follows has a size.
pub proof fn law_unsized_volume_is_last(lvs: Seq<ManifestLvmLv>, i: int, j: int)
    requires
        !unsized_not_last(lvs),
        0 <= i < j < lvs.len(),
        vg_path(lvs[i].vg@) == vg_path(lvs[j].vg@),
    ensures
        lvs[i].size is Some,
{
    if lvs[i].size is None {
        assert(unsized_before(lvs, i, j));
    }
}

fn copy_lv(lv: &ManifestLvmLv) -> (c: ManifestLvmLv)
    ensures
        c == *lv,
{
    let size = match &lv.size {
        Some(s) => Some(s.clone()),
        None => None,
    };
    ManifestLvmLv { name: lv.name.clone(), vg: lv.vg.clone(), size }
}

fn push_lvs(flat: &mut Vec<ManifestLvmLv>, lvs: &Vec<ManifestLvmLv>)
    ensures
        final(flat)@ == old(flat)@ + lvs@,
{
    let ghost start = flat@;
    let mut k: usize = 0;
    while k < lvs.len()
        invariant
            k <= lvs.len(),
            flat@ == start + lvs@.take(k as int),
        decreases lvs.len() - k,
    {
        flat.push(copy_lv(&lvs[k]));
        k += 1;
        assert(flat@ =~= start + lvs@.take(k as int));
    }
    assert(lvs@.take(k as int) =~= lvs@);
}

/// Every logical volume of the manifest, in the order of declaration.
pub fn collect_lvs(dms: &Vec<Dm>) -> (flat: Vec<ManifestLvmLv>)
    ensures
        flat@ == all_lvs(dms@),
{
    let mut flat: Vec<ManifestLvmLv> = Vec::new();
    let mut i: usize = 0;
    assert(dms@.take(0) =~= Seq::<Dm>::empty());
    while i < dms.len()
        invariant
            i <= dms.len(),
            flat@ == all_lvs(dms@.take(i as int)),
        decreases dms.len() - i,
    {
        assert(dms@.take(i + 1).drop_last() =~= dms@.take(i as int));
        let ghost before = flat@;
        match &dms[i] {
            Dm::Lvm(lvm) => {
                match &lvm.lvs {
                    Some(lvs) => {
                        push_lvs(&mut flat, lvs);
                    },
                    None => {
                        assert(flat@ =~= before + Seq::<ManifestLvmLv>::empty());
                    },
                }
            },
            Dm::Luks(_) => {
                assert(flat@ =~= before + Seq::<ManifestLvmLv>::empty());
            },
        }
        i += 1;
    }
    assert(dms@.take(i as int) =~= dms@);
    flat
}

/// Checks the sizes of the manifest's logical volumes: each stated size must
/// be well formed, and only the last volume of a group may have none.
pub fn validate_lv_size(dms: &Vec<Dm>) -> (res: Result<(), NayiError>)
    ensures
        res is Ok <==> lv_sizes_rule(dms@),
        res is Err ==> res->Err_0.fault() == size_fault(all_lvs(dms@), 0),
{
    let flat = collect_lvs(dms);
    let n = flat.len();
    let mut i: usize = 0;
    while i < n
        invariant
            n == flat.len(),
            flat@ == all_lvs(dms@),
            i <= n,
            size_fault(flat@, 0) == size_fault(flat@, i as int),
            forall|a: int|
                0 <= a < i && (#[trigger] flat@[a]).size is Some ==> size_ok(
                    flat@[a].size.unwrap()@,
                ),
            forall|a: int, b: int| 0 <= a < i ==> !unsized_before(flat@, a, b),
        decreases n - i,
    {
        match &flat[i].size {
            Some(size) => {
                if !valid_size(size.as_str()) {
                    return Err(bad_manifest("bad lv size ", size.as_str(), ""));
                }
            },
            None => {
                let mut j: usize = i + 1;
                while j < n
                    invariant
                        n == flat.len(),
                        flat@ == all_lvs(dms@),
                        i < j <= n,
                        size_fault(flat@, 0) == size_fault(flat@, i as int),
                        flat@[i as int].size is None,
                        forall|b: int| 0 <= b < j ==> !unsized_before(flat@, i as int, b),
                    decreases n - j,
                {
                    if same(
                        vg_device(flat[i].vg.as_str()).as_str(),
                        vg_device(flat[j].vg.as_str()).as_str(),
                    ) {
                        assert(unsized_before(flat@, i as int, j as int));
                        let text = concat3("lv ", flat[i].name.as_str(), " on vg ");
                        return Err(
                            bad_manifest(text.as_str(), flat[i].vg.as_str(), " has None size"),
                        );
                    }
                    j += 1;
                }
            },
        }
        i += 1;
    }
    Ok(())
}

} // verus!
