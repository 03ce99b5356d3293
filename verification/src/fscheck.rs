use vstd::prelude::*;
use vstd::string::*;
use crate::blockdev::{fs_base, is_fs_base, path_view, BlockDev, Dev};
use crate::dm::stacks_of;
use crate::errors::{broken, internal_bug, Fault, NayiError};
use crate::manifest::{items, Manifest, ManifestFs};
use crate::state::{any_pick, has_dev, lvm_any, names_view, Pick, Select, Stacks, SysLvm};
use crate::store::{find_first, has_device, listed, lvm_find};
use crate::text::{concat, concat3, decimal, to_decimal};

verus! {

/// Every device still free to carry a filesystem is of a kind that may.
pub open spec fn ready_sound(ready: Seq<Dev>) -> bool {
    forall|i: int| 0 <= i < ready.len() ==> fs_base((#[trigger] ready[i]).kind)
}

/// `name` may carry a filesystem or swap: it is still free on the host, or
/// it is the tip, of a kind that may carry one, of a scanned LVM stack or of
/// a stack of the store.
pub open spec fn fs_ready(st: Stacks, name: Seq<char>) -> bool {
    has_dev(st.ready, name) || lvm_any(st.lvms, Pick::FsTip(name)) || any_pick(
        st.store,
        Pick::FsTip(name),
    )
}

/// The devices of a list of filesystems, in order.
pub open spec fn fs_devices(list: Seq<ManifestFs>) -> Seq<Seq<char>> {
    Seq::new(list.len(), |i: int| list[i].device@)
}

/// Every device the manifest puts a filesystem or swap on: that of the root
/// filesystem, those of the other filesystems, then the swap devices.
pub open spec fn claims(manifest: Manifest) -> Seq<Seq<char>> {
    seq![manifest.rootfs.0.device@] + fs_devices(items(manifest.filesystems)) + names_view(
        items(manifest.swap),
    )
}

/// The failure that the first free device at or after `from` of a kind that
/// may not carry a filesystem gives.
pub open spec fn unsound_fault(ready: Seq<Dev>, from: int) -> Fault
    decreases ready.len() - from,
{
    if from < 0 || from >= ready.len() {
        Fault::InternalBug(Seq::empty())
    } else if !fs_base(ready[from].kind) {
        broken("fs-ready dev "@, ready[from].device, " is not fs-ready"@)
    } else {
        unsound_fault(ready, from + 1)
    }
}

/// The claim `i` cannot be met: its device is not ready to carry a
/// filesystem, or an earlier claim has it.
pub open spec fn claim_fails(st: Stacks, wanted: Seq<Seq<char>>, i: int) -> bool {
    !fs_ready(st, wanted[i]) || exists|k: int| 0 <= k < i && #[trigger] wanted[k] == wanted[i]
}

/// What is told of the claim `i` that cannot be met: the first claim is the
/// root filesystem's, the next are those of the other filesystems, whose
/// types are `types`, the rest those of swap.
pub open spec fn claim_text(wanted: Seq<Seq<char>>, types: Seq<Seq<char>>, i: int) -> Seq<char> {
    if i == 0 {
        "rootfs validation failed: device for rootfs is not fs-ready: "@ + wanted[i]
    } else if i <= types.len() {
        "fs validation failed: device "@ + wanted[i] + " for fs #"@ + decimal(i as nat) + " ("@
            + types[i - 1] + ") is not fs-ready"@
    } else {
        "swap validation failed: device "@ + wanted[i] + " for swap #"@ + decimal(
            (i - types.len()) as nat,
        ) + " is not fs-ready"@
    }
}

/// The types of a list of filesystems, in order.
pub open spec fn fs_types(list: Seq<ManifestFs>) -> Seq<Seq<char>> {
    Seq::new(list.len(), |i: int| list[i].fs_type@)
}

/// The failure that the first claim at or after `from` that cannot be met gives.
pub open spec fn claim_fault(
    st: Stacks,
    wanted: Seq<Seq<char>>,
    types: Seq<Seq<char>>,
    from: int,
) -> Fault
    decreases wanted.len() - from,
{
    if from < 0 || from >= wanted.len() {
        Fault::BadManifest(Seq::empty())
    } else if claim_fails(st, wanted, from) {
        Fault::BadManifest(claim_text(wanted, types, from))
    } else {
        claim_fault(st, wanted, types, from + 1)
    }
}

/// Rule for the filesystems and swap: each claimed device is ready to carry
/// a filesystem, and none is claimed twice. Of the claims the first is the
/// root filesystem's and the next are those of the other filesystems, whose
/// types are `types`.
pub open spec fn fs_rule(st: Stacks, wanted: Seq<Seq<char>>, types: Seq<Seq<char>>) -> Result<
    (),
    Fault,
> {
    if !ready_sound(st.ready) {
        Err(unsound_fault(st.ready, 0))
    } else if wanted.no_duplicates() && (forall|i: int|
        0 <= i < wanted.len() ==> fs_ready(st, #[trigger] wanted[i])) {
        Ok(())
    } else {
        Err(claim_fault(st, wanted, types, 0))
    }
}

/// Whether a filesystem may be put on `name`.
pub fn is_fs_ready(
    name: &str,
    sys_fs_ready_devs: &Vec<BlockDev>,
    sys_lvms: &Vec<SysLvm>,
    valids: &Vec<Vec<BlockDev>>,
) -> (r: bool)
    ensures
        r == fs_ready(stacks_of(*valids, *sys_fs_ready_devs, *sys_lvms), name@),
{
    if has_device(sys_fs_ready_devs, name) {
        return true;
    }
    let tip = Select::FsTip(String::from_str(name));
    lvm_find(sys_lvms, &tip) < sys_lvms.len() || find_first(valids, &tip) < valids.len()
}

fn check_ready_kinds(sys_fs_ready_devs: &Vec<BlockDev>) -> (res: Result<(), NayiError>)
    ensures
        res is Ok <==> ready_sound(path_view(sys_fs_ready_devs@)),
        res is Err ==> res->Err_0.fault() == unsound_fault(path_view(sys_fs_ready_devs@), 0),
{
    let mut i: usize = 0;
    while i < sys_fs_ready_devs.len()
        invariant
            i <= sys_fs_ready_devs.len(),
            unsound_fault(path_view(sys_fs_ready_devs@), 0) == unsound_fault(
                path_view(sys_fs_ready_devs@),
                i as int,
            ),
            forall|k: int|
                0 <= k < i ==> fs_base((#[trigger] path_view(sys_fs_ready_devs@)[k]).kind),
        decreases sys_fs_ready_devs.len() - i,
    {
        if !is_fs_base(&sys_fs_ready_devs[i].device_type) {
            assert(!fs_base(path_view(sys_fs_ready_devs@)[i as int].kind));
            return Err(
                internal_bug(
                    "fs-ready dev ",
                    sys_fs_ready_devs[i].device.as_str(),
                    " is not fs-ready",
                ),
            );
        }
        i += 1;
    }
    Ok(())
}

/// The devices that a manifest puts a filesystem or swap on, in the order
/// in which they are checked.
pub fn collect_claims(manifest: &Manifest) -> (wanted: Vec<String>)
    ensures
        names_view(wanted@) == claims(*manifest),
{
    let mut wanted: Vec<String> = Vec::new();
    wanted.push(manifest.rootfs.0.device.clone());
    let ghost root = seq![manifest.rootfs.0.device@];
    assert(names_view(wanted@) =~= root);
    match &manifest.filesystems {
        Some(list) => {
            let mut i: usize = 0;
            while i < list.len()
                invariant
                    i <= list.len(),
                    names_view(wanted@) == root + fs_devices(list@.take(i as int)),
                decreases list.len() - i,
            {
                let ghost before = names_view(wanted@);
                wanted.push(list[i].device.clone());
                assert(names_view(wanted@) =~= before.push(list@[i as int].device@));
                i += 1;
                assert(before.push(list@[i - 1].device@) =~= root + fs_devices(
                    list@.take(i as int),
                ));
            }
            assert(list@.take(i as int) =~= list@);
        },
        None => {
            assert(names_view(wanted@) =~= root + fs_devices(Seq::<ManifestFs>::empty()));
        },
    }
    let ghost mid = names_view(wanted@);
    match &manifest.swap {
        Some(list) => {
            let mut i: usize = 0;
            while i < list.len()
                invariant
                    i <= list.len(),
                    names_view(wanted@) == mid + names_view(list@.take(i as int)),
                decreases list.len() - i,
            {
                let ghost before = names_view(wanted@);
                wanted.push(list[i].clone());
                assert(names_view(wanted@) =~= before.push(list@[i as int]@));
                i += 1;
                assert(before.push(list@[i - 1]@) =~= mid + names_view(list@.take(i as int)));
            }
            assert(list@.take(i as int) =~= list@);
        },
        None => {
            assert(names_view(wanted@) =~= mid + names_view(Seq::<String>::empty()));
        },
    }
    wanted
}

/// The types of the filesystems of a manifest other than the root
/// filesystem, in order.
pub fn collect_fs_types(manifest: &Manifest) -> (types: Vec<String>)
    ensures
        names_view(types@) == fs_types(items(manifest.filesystems)),
{
    let mut types: Vec<String> = Vec::new();
    match &manifest.filesystems {
        Some(list) => {
            let mut i: usize = 0;
            assert(names_view(types@) =~= fs_types(list@.take(0)));
            while i < list.len()
                invariant
                    i <= list.len(),
                    names_view(types@) == fs_types(list@.take(i as int)),
                decreases list.len() - i,
            {
                let ghost before = names_view(types@);
                types.push(list[i].fs_type.clone());
                assert(names_view(types@) =~= before.push(list@[i as int].fs_type@));
                i += 1;
                assert(before.push(list@[i - 1].fs_type@) =~= fs_types(list@.take(i as int)));
            }
            assert(list@.take(i as int) =~= list@);
        },
        None => {
            assert(names_view(types@) =~= fs_types(Seq::<ManifestFs>::empty()));
        },
    }
    types
}

/// Checks that each of the devices `wanted` may carry a filesystem and that
/// none is wanted twice. Of the devices the first is the root filesystem's;
/// `types` are the types of the other filesystems, whose devices come next;
/// the rest are swap devices.
pub fn validate_fs(
    wanted: &Vec<String>,
    types: &Vec<String>,
    sys_fs_ready_devs: &Vec<BlockDev>,
    sys_lvms: &Vec<SysLvm>,
    valids: &Vec<Vec<BlockDev>>,
) -> (res: Result<(), NayiError>)
    ensures
        match res {
            Ok(_) => fs_rule(
                stacks_of(*valids, *sys_fs_ready_devs, *sys_lvms),
                names_view(wanted@),
                names_view(types@),
            ) == Ok::<(), Fault>(()),
            Err(e) => fs_rule(
                stacks_of(*valids, *sys_fs_ready_devs, *sys_lvms),
                names_view(wanted@),
                names_view(types@),
            ) == Err::<(), Fault>(e.fault()),
        },
{
    match check_ready_kinds(sys_fs_ready_devs) {
        Err(err) => {
            return Err(err);
        },
        Ok(_) => {},
    }
    let ghost st = stacks_of(*valids, *sys_fs_ready_devs, *sys_lvms);
    let ghost names = names_view(wanted@);
    let mut used: Vec<String> = Vec::new();
    let mut i: usize = 0;
    assert(names_view(used@) =~= names.take(0));
    while i < wanted.len()
        invariant
            i <= wanted.len(),
            st == stacks_of(*valids, *sys_fs_ready_devs, *sys_lvms),
            names == names_view(wanted@),
            ready_sound(st.ready),
            names_view(used@) == names.take(i as int),
            names.take(i as int).no_duplicates(),
            claim_fault(st, names, names_view(types@), 0) == claim_fault(
                st,
                names,
                names_view(types@),
                i as int,
            ),
            forall|k: int| 0 <= k < i ==> fs_ready(st, #[trigger] names[k]),
        decreases wanted.len() - i,
    {
        let name = wanted[i].as_str();
        let free = is_fs_ready(name, sys_fs_ready_devs, sys_lvms, valids) && !listed(&used, name);
        if !free {
            proof {
                if fs_ready(st, names[i as int]) {
                    let k = choose|k: int|
                        0 <= k < i && names.take(i as int)[k] == names[i as int];
                    assert(names[k] == names[i as int]);
                }
                assert(claim_fails(st, names, i as int));
            }
            let text = if i == 0 {
                concat("rootfs validation failed: device for rootfs is not fs-ready: ", name)
            } else if i <= types.len() {
                let number = to_decimal(i);
                let head = concat3("fs validation failed: device ", name, " for fs #");
                let more = concat3(head.as_str(), number.as_str(), " (");
                assert(names_view(types@)[i - 1] == types@[i - 1]@);
                concat3(more.as_str(), types[i - 1].as_str(), ") is not fs-ready")
            } else {
                let number = to_decimal(i - types.len());
                let head = concat3("swap validation failed: device ", name, " for swap #");
                concat3(head.as_str(), number.as_str(), " is not fs-ready")
            };
            assert(text@ =~= claim_text(names, names_view(types@), i as int));
            return Err(NayiError::BadManifest(text));
        }
        proof {
            if claim_fails(st, names, i as int) {
                let k = choose|k: int| 0 <= k < i && #[trigger] names[k] == names[i as int];
                assert(names.take(i as int)[k] == names[i as int]);
            }
        }
        let ghost before = names_view(used@);
        used.push(wanted[i].clone());
        assert(names_view(used@) =~= before.push(names[i as int]));
        i += 1;
        assert(before.push(names[i - 1]) =~= names.take(i as int));
        assert(names.take(i as int).drop_last() =~= names.take(i - 1));
    }
    assert(names.take(i as int) =~= names);
    Ok(())
}

/// What an accepted manifest claims: the devices of its root filesystem,
/// its other filesystems and its swap are pairwise distinct, and each of
/// them is ready to carry a filesystem.
pub proof fn law_claims_are_distinct_and_ready(
    st: Stacks,
    manifest: Manifest,
    types: Seq<Seq<char>>,
)
    requires
        fs_rule(st, claims(manifest), types) is Ok,
    ensures
        claims(manifest).no_duplicates(),
        forall|i: int|
            0 <= i < claims(manifest).len() ==> fs_ready(st, #[trigger] claims(manifest)[i]),
        fs_ready(st, manifest.rootfs.0.device@),
        forall|i: int|
            0 <= i < items(manifest.filesystems).len() ==> fs_ready(
                st,
                (#[trigger] items(manifest.filesystems)[i]).device@,
            ) && items(manifest.filesystems)[i].device@ != manifest.rootfs.0.device@,
        forall|i: int|
            0 <= i < items(manifest.swap).len() ==> fs_ready(
                st,
                (#[trigger] items(manifest.swap)[i])@,
            ) && items(manifest.swap)[i]@ != manifest.rootfs.0.device@,
        forall|i: int, k: int|
            0 <= i < items(manifest.filesystems).len() && 0 <= k < items(manifest.swap).len()
                ==> (#[trigger] items(manifest.filesystems)[i]).device@ != (#[trigger] items(
                manifest.swap,
            )[k])@,
{
    let all = claims(manifest);
    let fss = items(manifest.filesystems);
    let swaps = items(manifest.swap);
    assert(all[0] == manifest.rootfs.0.device@);
    assert forall|i: int| 0 <= i < fss.len() implies fs_ready(st, (#[trigger] fss[i]).device@)
        && fss[i].device@ != manifest.rootfs.0.device@ by {
        assert(all[1 + i] == fss[i].device@);
    }
    assert forall|i: int| 0 <= i < swaps.len() implies fs_ready(st, (#[trigger] swaps[i])@)
        && swaps[i]@ != manifest.rootfs.0.device@ by {
        assert(all[1 + fss.len() + i] == swaps[i]@);
    }
    assert forall|i: int, k: int| 0 <= i < fss.len() && 0 <= k < swaps.len() implies (
    #[trigger] fss[i]).device@ != (#[trigger] swaps[k])@ by {
        assert(all[1 + i] == fss[i].device@);
        assert(all[1 + fss.len() + k] == swaps[k]@);
    }
}

} // verus!
