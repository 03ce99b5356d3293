use vstd::prelude::*;
use vstd::string::*;
use crate::blockdev::{
    clone_path, is_lv_base, is_pv_base, is_vg_base, label_of, path_view, paths_view, pv_base,
    vg_base, BlockDev, BlockDevType, Dev, DmType, Kind,
};
use crate::errors::{
    bad_manifest, bad_manifest4, bad_manifest6, broken, internal_bug, refused, refused4, refused6,
    Fault, NayiError,
};
use crate::manifest::{items, Dm, ManifestLuks, ManifestLvm, ManifestLvmLv, ManifestLvmVg};
use crate::lvsize::{all_lvs, lv_sizes_rule, size_fault, validate_lv_size};
use crate::size::{size_ok, valid_size};
use crate::state::{
    any_pick, below_tip, extended, first_pick, fresh_pair, grown, has_dev, lvm_any, lvm_cleared,
    group_on, kind_in, lvm_cleared_at, lvm_first, lvm_grown, lvms_view, names_view, pv_in_vg,
    vg_among, without, Host, Pick, Select, Stacks, SysLvm,
};
use crate::store::{
    append_at, clone_paths, copy_lvms, extended_copy, find_device, find_first, find_vg_among, grow,
    has_device, listed,
    lvm_cleared_at_copy, lvm_cleared_copy, lvm_find, lvm_grow, push_grown, push_pair, pv_group,
    without_copy,
};
use crate::text::{concat, concat3, contains, has_sub};

verus! {

/// The read-only side of a validation, as a model.
pub open spec fn host_of(sys_fs_devs: Vec<BlockDev>, host_files: Vec<String>) -> Host {
    Host { fs_devs: path_view(sys_fs_devs@), files: names_view(host_files@) }
}

/// The mutable side of a validation, as a model.
pub open spec fn stacks_of(
    valids: Vec<Vec<BlockDev>>,
    sys_fs_ready_devs: Vec<BlockDev>,
    sys_lvms: Vec<SysLvm>,
) -> Stacks {
    Stacks {
        store: paths_view(valids@),
        ready: path_view(sys_fs_ready_devs@),
        lvms: lvms_view(sys_lvms@),
    }
}

/// An executable step did what its rule says: on success it left the state
/// the rule gives, on failure it reports the rule's failure.
pub open spec fn agrees(res: Result<(), NayiError>, rule: Result<Stacks, Fault>, left: Stacks) -> bool {
    match res {
        Ok(_) => rule == Ok::<Stacks, Fault>(left),
        Err(e) => rule == Err::<Stacks, Fault>(e.fault()),
    }
}

/// The node of the LUKS volume `name`.
pub open spec fn luks_node(name: Seq<char>) -> Dev {
    Dev { device: "/dev/mapper/"@ + name, kind: Kind::Luks }
}

/// The node of the physical volume at `path`.
pub open spec fn pv_node(path: Seq<char>) -> Dev {
    Dev { device: path, kind: Kind::LvmPv }
}

/// The node of the volume group `name`.
pub open spec fn vg_node(name: Seq<char>) -> Dev {
    Dev { device: "/dev/"@ + name, kind: Kind::LvmVg }
}

/// Device path of a volume group given by name or by path.
pub open spec fn vg_path(vg: Seq<char>) -> Seq<char> {
    if has_sub(vg, "/dev/"@) {
        vg
    } else {
        "/dev/"@ + vg
    }
}

/// The node of the logical volume `name` on the volume group `vg`.
pub open spec fn lv_node(vg: Seq<char>, name: Seq<char>) -> Dev {
    Dev { device: vg_path(vg) + "/"@ + name, kind: Kind::LvmLv }
}

/// Rule for one LUKS volume `name` on the device `base`.
///
/// Rejected where the mapper device exists already or `base` carries a
/// filesystem. Where a scanned LVM stack ends in the logical volume `base`,
/// the first such stack must have a volume group below its tip; every scanned
/// stack that ends in this volume on that group enters the store with the
/// LUKS node on top and is emptied. Otherwise every store stack ending in
/// `base` gets the node, and all of them must be legal LUKS bases: the
/// failure tells the kind of the first that is not. Otherwise
/// `base` is adopted from the free devices, or taken as it is if the host has
/// such a file.
pub open spec fn luks_step(host: Host, st: Stacks, name: Seq<char>, base: Seq<char>) -> Result<
    Stacks,
    Fault,
> {
    let node = luks_node(name);
    let lv = Pick::TipIs(Dev { device: base, kind: Kind::LvmLv });
    let e = lvm_first(st.lvms, lv, 0);
    let found = st.lvms[e].paths[first_pick(st.lvms[e].paths, lv, 0)];
    let route = Pick::LuksRoute(base, below_tip(found).device);
    let illegal = st.store[first_pick(st.store, Pick::BadLuksBase(base), 0)];
    if host.files.contains(node.device) {
        Err(refused("dm luks validation failed: device "@, node.device, " already exists"@))
    } else if has_dev(host.fs_devs, base) {
        Err(
            refused6(
                "dm luks validation failed: luks "@,
                name,
                " base "@,
                base,
                " was already in use as "@,
                label_of(kind_in(host.fs_devs, base)),
            ),
        )
    } else if lvm_any(st.lvms, lv) {
        if found.len() >= 2 && below_tip(found).kind is LvmVg {
            Ok(
                Stacks {
                    store: st.store + lvm_grown(st.lvms, route, node, 0),
                    ready: st.ready,
                    lvms: lvm_cleared(st.lvms, route),
                },
            )
        } else if found.len() >= 2 {
            Err(
                broken(
                    "dm luks validation failed: unexpected device type "@,
                    label_of(below_tip(found).kind),
                    " - expecting a VG"@,
                ),
            )
        } else {
            Err(broken("dm luks validation failed: no device below "@, base, " - expecting a VG"@))
        }
    } else if any_pick(st.store, Pick::TipNamed(base)) {
        if any_pick(st.store, Pick::BadLuksBase(base)) {
            Err(
                refused6(
                    "dm luks validation failed: luks "@,
                    name,
                    " base "@,
                    base,
                    " cannot have type "@,
                    label_of(illegal.last().kind),
                ),
            )
        } else {
            Ok(
                Stacks {
                    store: extended(st.store, Pick::TipNamed(base), node),
                    ready: st.ready,
                    lvms: st.lvms,
                },
            )
        }
    } else if has_dev(st.ready, base) {
        Ok(
            Stacks {
                store: st.store.push(fresh_pair(base, node)),
                ready: without(st.ready, base),
                lvms: st.lvms,
            },
        )
    } else if host.files.contains(base) {
        Ok(Stacks { store: st.store.push(fresh_pair(base, node)), ready: st.ready, lvms: st.lvms })
    } else {
        Err(Fault::NoSuchDevice(base))
    }
}

/// Rule for one physical volume at `pv`.
///
/// Rejected where `pv` carries a filesystem or the scanner found a volume
/// group on it; the failure tells the filesystem or the group. The first
/// store stack ending in `pv` gets the node if its tip is a legal base; a tip
/// that is a physical volume already is told as a duplicate, another illegal
/// tip with its kind. Otherwise `pv` is adopted from the free devices, or
/// taken as it is if the host has such a file.
pub open spec fn pv_step(host: Host, st: Stacks, pv: Seq<char>) -> Result<Stacks, Fault> {
    let node = pv_node(pv);
    let i = first_pick(st.store, Pick::TipNamed(pv), 0);
    let rule = "lvm pv validation failed: pv "@;
    if has_dev(host.fs_devs, pv) {
        Err(
            refused4(
                rule,
                pv,
                " base was already used as "@,
                label_of(kind_in(host.fs_devs, pv)),
            ),
        )
    } else if pv_in_vg(st.lvms, pv) {
        Err(refused4(rule, pv, " was already used for other vg "@, group_on(st.lvms, pv, 0)->Some_0))
    } else if i < st.store.len() {
        if pv_base(st.store[i].last().kind) {
            Ok(
                Stacks {
                    store: st.store.update(i, st.store[i].push(node)),
                    ready: st.ready,
                    lvms: st.lvms,
                },
            )
        } else if st.store[i].last().kind is LvmPv {
            Err(refused("lvm pv validation failed: duplicate pv "@, pv, " in manifest"@))
        } else {
            Err(refused4(rule, pv, " base cannot have type "@, label_of(st.store[i].last().kind)))
        }
    } else if has_dev(st.ready, pv) {
        Ok(
            Stacks {
                store: st.store.push(fresh_pair(pv, node)),
                ready: without(st.ready, pv),
                lvms: st.lvms,
            },
        )
    } else if host.files.contains(pv) {
        Ok(Stacks { store: st.store.push(fresh_pair(pv, node)), ready: st.ready, lvms: st.lvms })
    } else {
        Err(refused("lvm pv validation failed: no such pv device: "@, pv, ""@))
    }
}

/// The name of the volume group that a node stands for: its device path
/// without the leading `/dev/`.
pub open spec fn group_name(vg: Dev) -> Seq<char> {
    vg.device.skip("/dev/"@.len() as int)
}

/// Rule for one physical volume `pv` of the volume group whose node is `vg`.
///
/// Rejected where `pv` carries a filesystem or the scanner found a volume
/// group on it. The first store stack ending in `pv` gets the node if its tip
/// is a physical volume. Otherwise no scanned stack may end in this volume
/// group already, and the first scanned stack ending in `pv` is adopted: it
/// must end in a physical volume; a copy with the node enters the store and
/// the scanned stack is emptied. Where nothing ends in `pv`, the failure
/// tells the group that a stack of the store has on it, if there is one.
pub open spec fn vg_pv_step(host: Host, st: Stacks, vg: Dev, pv: Seq<char>) -> Result<
    Stacks,
    Fault,
> {
    let named = Pick::TipNamed(pv);
    let i = first_pick(st.store, named, 0);
    let e = lvm_first(st.lvms, named, 0);
    let j = first_pick(st.lvms[e].paths, named, 0);
    let found = st.lvms[e].paths[j];
    let rule = "lvm vg validation failed: vg "@;
    let name = group_name(vg);
    if has_dev(host.fs_devs, pv) {
        Err(
            refused6(
                rule,
                name,
                " base "@,
                pv,
                " was already used as filesystem "@,
                label_of(kind_in(host.fs_devs, pv)),
            ),
        )
    } else if pv_in_vg(st.lvms, pv) {
        Err(
            refused6(
                rule,
                name,
                " base "@,
                pv,
                " was already used for other vg "@,
                group_on(st.lvms, pv, 0)->Some_0,
            ),
        )
    } else if i < st.store.len() {
        if vg_base(st.store[i].last().kind) {
            Ok(
                Stacks {
                    store: st.store.update(i, st.store[i].push(vg)),
                    ready: st.ready,
                    lvms: st.lvms,
                },
            )
        } else {
            Err(
                refused6(
                    rule,
                    name,
                    " pv base "@,
                    pv,
                    " cannot have type "@,
                    label_of(st.store[i].last().kind),
                ),
            )
        }
    } else if lvm_any(st.lvms, Pick::TipIs(vg)) {
        Err(refused(rule, name, " already exists"@))
    } else if e >= st.lvms.len() {
        match vg_among(st.store, Some(pv), 0) {
            Some(other) => Err(
                refused6(rule, name, " pv base "@, pv, " was already used for other vg "@, other),
            ),
            None => Err(
                refused(
                    "lvm vg validation failed: no pv device matching "@,
                    pv,
                    " in manifest or in the system"@,
                ),
            ),
        }
    } else if !vg_base(found.last().kind) {
        Err(
            refused6(
                rule,
                name,
                " pv base "@,
                pv,
                " cannot have type "@,
                label_of(found.last().kind),
            ),
        )
    } else {
        Ok(
            Stacks {
                store: st.store.push(found.push(vg)),
                ready: st.ready,
                lvms: lvm_cleared_at(st.lvms, e, j),
            },
        )
    }
}

/// Rule for a volume group: [`vg_pv_step`] for each of its physical volumes
/// from `from` on, in order, up to the first failure.
pub open spec fn vg_step(host: Host, st: Stacks, vg: Dev, pvs: Seq<Seq<char>>, from: int) -> Result<
    Stacks,
    Fault,
>
    decreases pvs.len() - from,
{
    if from < 0 || from >= pvs.len() {
        Ok(st)
    } else {
        match vg_pv_step(host, st, vg, pvs[from]) {
            Ok(next) => vg_step(host, next, vg, pvs, from + 1),
            Err(f) => Err(f),
        }
    }
}

/// Rule for the logical volume `name` on `vg`, with its size if it has one.
///
/// Every stack that ends in the volume group, in the store and then among
/// the scanned ones, gives the store a copy with the volume's node on top.
/// Rejected where there is no such stack or the size is malformed.
pub open spec fn lv_step(st: Stacks, vg: Seq<char>, name: Seq<char>, size: Option<Seq<char>>) -> Result<
    Stacks,
    Fault,
> {
    let node = lv_node(vg, name);
    let base = Pick::TipIs(Dev { device: vg_path(vg), kind: Kind::LvmVg });
    let rule = "lvm lv validation failed: lv "@;
    if size is Some && !size_ok(size.unwrap()) {
        Err(refused(rule, node.device, " has a malformed size"@))
    } else if !any_pick(st.store, base) && !lvm_any(st.lvms, base) {
        Err(refused(rule, node.device, ": no vg device to build on"@))
    } else {
        Ok(
            Stacks {
                store: st.store + grown(st.store, base, node, 0) + lvm_grown(
                    st.lvms,
                    base,
                    node,
                    0,
                ),
                ready: st.ready,
                lvms: st.lvms,
            },
        )
    }
}

/// The size of a logical volume, as a model.
pub open spec fn size_view(size: Option<String>) -> Option<Seq<char>> {
    match size {
        Some(s) => Some(s@),
        None => None,
    }
}

/// [`pv_step`] for each path from `from` on, in order, up to the first failure.
pub open spec fn pvs_fold(host: Host, st: Stacks, pvs: Seq<String>, from: int) -> Result<
    Stacks,
    Fault,
>
    decreases pvs.len() - from,
{
    if from < 0 || from >= pvs.len() {
        Ok(st)
    } else {
        match pv_step(host, st, pvs[from]@) {
            Ok(next) => pvs_fold(host, next, pvs, from + 1),
            Err(f) => Err(f),
        }
    }
}

/// [`vg_step`] for each volume group from `from` on, in order, up to the
/// first failure.
pub open spec fn vgs_fold(host: Host, st: Stacks, vgs: Seq<ManifestLvmVg>, from: int) -> Result<
    Stacks,
    Fault,
>
    decreases vgs.len() - from,
{
    if from < 0 || from >= vgs.len() {
        Ok(st)
    } else {
        match vg_step(host, st, vg_node(vgs[from].name@), names_view(vgs[from].pvs@), 0) {
            Ok(next) => vgs_fold(host, next, vgs, from + 1),
            Err(f) => Err(f),
        }
    }
}

/// [`lv_step`] for each logical volume from `from` on, in order, up to the
/// first failure.
pub open spec fn lvs_fold(st: Stacks, lvs: Seq<ManifestLvmLv>, from: int) -> Result<Stacks, Fault>
    decreases lvs.len() - from,
{
    if from < 0 || from >= lvs.len() {
        Ok(st)
    } else {
        match lv_step(st, lvs[from].vg@, lvs[from].name@, size_view(lvs[from].size)) {
            Ok(next) => lvs_fold(next, lvs, from + 1),
            Err(f) => Err(f),
        }
    }
}

/// Rule for one LVM block: its physical volumes, then its volume groups,
/// then its logical volumes.
pub open spec fn lvm_step(host: Host, st: Stacks, lvm: ManifestLvm) -> Result<Stacks, Fault> {
    match pvs_fold(host, st, items(lvm.pvs), 0) {
        Err(f) => Err(f),
        Ok(with_pvs) => match vgs_fold(host, with_pvs, items(lvm.vgs), 0) {
            Err(f) => Err(f),
            Ok(with_vgs) => lvs_fold(with_vgs, items(lvm.lvs), 0),
        },
    }
}

/// Rule for one device-mapper entry.
pub open spec fn dm_step(host: Host, st: Stacks, dm: Dm) -> Result<Stacks, Fault> {
    match dm {
        Dm::Luks(luks) => luks_step(host, st, luks.name@, luks.device@),
        Dm::Lvm(lvm) => lvm_step(host, st, lvm),
    }
}

/// [`dm_step`] for each entry from `from` on, in order, up to the first failure.
pub open spec fn dms_fold(host: Host, st: Stacks, dms: Seq<Dm>, from: int) -> Result<Stacks, Fault>
    decreases dms.len() - from,
{
    if from < 0 || from >= dms.len() {
        Ok(st)
    } else {
        match dm_step(host, st, dms[from]) {
            Ok(next) => dms_fold(host, next, dms, from + 1),
            Err(f) => Err(f),
        }
    }
}

/// Validates one LUKS volume and enters it into `valids`. A refused volume
/// leaves everything as it was.
pub fn collect_valid_luks(
    luks: &ManifestLuks,
    sys_fs_devs: &Vec<BlockDev>,
    host_files: &Vec<String>,
    sys_fs_ready_devs: &mut Vec<BlockDev>,
    sys_lvms: &mut Vec<SysLvm>,
    valids: &mut Vec<Vec<BlockDev>>,
) -> (res: Result<(), NayiError>)
    ensures
        agrees(
            res,
            luks_step(
                host_of(*sys_fs_devs, *host_files),
                stacks_of(*old(valids), *old(sys_fs_ready_devs), *old(sys_lvms)),
                luks.name@,
                luks.device@,
            ),
            stacks_of(*final(valids), *final(sys_fs_ready_devs), *final(sys_lvms)),
        ),
        res is Err ==> stacks_of(*final(valids), *final(sys_fs_ready_devs), *final(sys_lvms))
            == stacks_of(*old(valids), *old(sys_fs_ready_devs), *old(sys_lvms)),
{
    let base = luks.device.as_str();
    let luks_path = concat("/dev/mapper/", luks.name.as_str());
    if listed(host_files, luks_path.as_str()) {
        return Err(
            bad_manifest(
                "dm luks validation failed: device ",
                luks_path.as_str(),
                " already exists",
            ),
        );
    }
    let used = find_device(sys_fs_devs, base);
    if used < sys_fs_devs.len() {
        let kind = sys_fs_devs[used].device_type.label();
        return Err(
            bad_manifest6(
                "dm luks validation failed: luks ",
                luks.name.as_str(),
                " base ",
                base,
                " was already in use as ",
                kind.as_str(),
            ),
        );
    }
    let node = BlockDev { device: luks_path, device_type: BlockDevType::Dm(DmType::Luks) };
    let lv = Select::TipIs(
        BlockDev { device: luks.device.clone(), device_type: BlockDevType::Dm(DmType::LvmLv) },
    );
    let e = lvm_find(sys_lvms, &lv);
    if e < sys_lvms.len() {
        let j = find_first(&sys_lvms[e].paths, &lv);
        let found = &sys_lvms[e].paths[j];
        let n = found.len();
        if n < 2 {
            return Err(
                internal_bug("dm luks validation failed: no device below ", base, " - expecting a VG"),
            );
        }
        if !is_lv_base(&found[n - 2].device_type) {
            let kind = found[n - 2].device_type.label();
            return Err(
                internal_bug(
                    "dm luks validation failed: unexpected device type ",
                    kind.as_str(),
                    " - expecting a VG",
                ),
            );
        }
        let route = Select::LuksRoute(luks.device.clone(), found[n - 2].device.clone());
        lvm_grow(valids, sys_lvms, &route, &node);
        let emptied = lvm_cleared_copy(sys_lvms, &route);
        *sys_lvms = emptied;
        return Ok(());
    }
    let named = Select::TipNamed(luks.device.clone());
    if find_first(valids, &named) < valids.len() {
        let illegal = Select::BadLuksBase(luks.device.clone());
        let at = find_first(valids, &illegal);
        if at < valids.len() {
            let kind = valids[at][valids[at].len() - 1].device_type.label();
            return Err(
                bad_manifest6(
                    "dm luks validation failed: luks ",
                    luks.name.as_str(),
                    " base ",
                    base,
                    " cannot have type ",
                    kind.as_str(),
                ),
            );
        }
        let with_luks = extended_copy(valids, &named, &node);
        *valids = with_luks;
        return Ok(());
    }
    if has_device(sys_fs_ready_devs, base) {
        push_pair(valids, base, node);
        let rest = without_copy(sys_fs_ready_devs, base);
        *sys_fs_ready_devs = rest;
        return Ok(());
    }
    if !listed(host_files, base) {
        return Err(NayiError::NoSuchDevice(luks.device.clone()));
    }
    push_pair(valids, base, node);
    Ok(())
}

/// Validates one physical volume and enters it into `valids`. A refused
/// volume leaves everything as it was.
pub fn collect_valid_pv(
    pv_path: &str,
    sys_fs_devs: &Vec<BlockDev>,
    host_files: &Vec<String>,
    sys_fs_ready_devs: &mut Vec<BlockDev>,
    sys_lvms: &mut Vec<SysLvm>,
    valids: &mut Vec<Vec<BlockDev>>,
) -> (res: Result<(), NayiError>)
    ensures
        agrees(
            res,
            pv_step(
                host_of(*sys_fs_devs, *host_files),
                stacks_of(*old(valids), *old(sys_fs_ready_devs), *old(sys_lvms)),
                pv_path@,
            ),
            stacks_of(*final(valids), *final(sys_fs_ready_devs), *final(sys_lvms)),
        ),
        res is Err ==> stacks_of(*final(valids), *final(sys_fs_ready_devs), *final(sys_lvms))
            == stacks_of(*old(valids), *old(sys_fs_ready_devs), *old(sys_lvms)),
{
    let msg = "lvm pv validation failed: pv ";
    let used = find_device(sys_fs_devs, pv_path);
    if used < sys_fs_devs.len() {
        let kind = sys_fs_devs[used].device_type.label();
        return Err(bad_manifest4(msg, pv_path, " base was already used as ", kind.as_str()));
    }
    match pv_group(sys_lvms, pv_path) {
        Some(group) => {
            return Err(
                bad_manifest4(msg, pv_path, " was already used for other vg ", group.as_str()),
            );
        },
        None => {},
    }
    let node = BlockDev {
        device: String::from_str(pv_path),
        device_type: BlockDevType::Dm(DmType::LvmPv),
    };
    let named = Select::TipNamed(String::from_str(pv_path));
    let i = find_first(valids, &named);
    if i < valids.len() {
        let tip = &valids[i][valids[i].len() - 1].device_type;
        if is_vg_base(tip) {
            return Err(
                bad_manifest("lvm pv validation failed: duplicate pv ", pv_path, " in manifest"),
            );
        }
        if !is_pv_base(tip) {
            let kind = tip.label();
            return Err(bad_manifest4(msg, pv_path, " base cannot have type ", kind.as_str()));
        }
        append_at(valids, i, node);
        return Ok(());
    }
    if has_device(sys_fs_ready_devs, pv_path) {
        push_pair(valids, pv_path, node);
        let rest = without_copy(sys_fs_ready_devs, pv_path);
        *sys_fs_ready_devs = rest;
        return Ok(());
    }
    if !listed(host_files, pv_path) {
        return Err(bad_manifest("lvm pv validation failed: no such pv device: ", pv_path, ""));
    }
    push_pair(valids, pv_path, node);
    Ok(())
}

fn collect_valid_vg_pv(
    vg_dev: &BlockDev,
    vg_name: &str,
    pv_base: &String,
    sys_fs_devs: &Vec<BlockDev>,
    sys_lvms: &mut Vec<SysLvm>,
    valids: &mut Vec<Vec<BlockDev>>,
) -> (res: Result<(), NayiError>)
    requires
        vg_dev@ == vg_node(vg_name@),
    ensures
        forall|files: Seq<Seq<char>>, ready: Seq<Dev>|
            agrees(
                res,
                #[trigger] vg_pv_step(
                    Host { fs_devs: path_view(sys_fs_devs@), files: files },
                    Stacks {
                        store: paths_view(old(valids)@),
                        ready: ready,
                        lvms: lvms_view(old(sys_lvms)@),
                    },
                    vg_dev@,
                    pv_base@,
                ),
                Stacks {
                    store: paths_view(final(valids)@),
                    ready: ready,
                    lvms: lvms_view(final(sys_lvms)@),
                },
            ),
{
    let msg = "lvm vg validation failed: vg ";
    let pv = pv_base.as_str();
    proof {
        assert(("/dev/"@ + vg_name@).skip("/dev/"@.len() as int) =~= vg_name@);
    }
    let used = find_device(sys_fs_devs, pv);
    if used < sys_fs_devs.len() {
        let kind = sys_fs_devs[used].device_type.label();
        return Err(
            bad_manifest6(
                msg,
                vg_name,
                " base ",
                pv,
                " was already used as filesystem ",
                kind.as_str(),
            ),
        );
    }
    match pv_group(sys_lvms, pv) {
        Some(group) => {
            return Err(
                bad_manifest6(
                    msg,
                    vg_name,
                    " base ",
                    pv,
                    " was already used for other vg ",
                    group.as_str(),
                ),
            );
        },
        None => {},
    }
    let named = Select::TipNamed(pv_base.clone());
    let i = find_first(valids, &named);
    if i < valids.len() {
        let tip = &valids[i][valids[i].len() - 1].device_type;
        if !is_vg_base(tip) {
            let kind = tip.label();
            return Err(
                bad_manifest6(msg, vg_name, " pv base ", pv, " cannot have type ", kind.as_str()),
            );
        }
        append_at(valids, i, vg_dev.duplicate());
        return Ok(());
    }
    let taken = Select::TipIs(vg_dev.duplicate());
    if lvm_find(sys_lvms, &taken) < sys_lvms.len() {
        return Err(bad_manifest(msg, vg_name, " already exists"));
    }
    let e = lvm_find(sys_lvms, &named);
    if e >= sys_lvms.len() {
        return Err(
            match find_vg_among(valids, Some(pv)) {
                Some(other) => bad_manifest6(
                    msg,
                    vg_name,
                    " pv base ",
                    pv,
                    " was already used for other vg ",
                    other.as_str(),
                ),
                None => bad_manifest(
                    "lvm vg validation failed: no pv device matching ",
                    pv,
                    " in manifest or in the system",
                ),
            },
        );
    }
    let j = find_first(&sys_lvms[e].paths, &named);
    let n = sys_lvms[e].paths[j].len();
    if !is_vg_base(&sys_lvms[e].paths[j][n - 1].device_type) {
        let kind = sys_lvms[e].paths[j][n - 1].device_type.label();
        return Err(
            bad_manifest6(msg, vg_name, " pv base ", pv, " cannot have type ", kind.as_str()),
        );
    }
    push_grown(valids, &sys_lvms[e].paths[j], vg_dev.duplicate());
    let emptied = lvm_cleared_at_copy(sys_lvms, e, j);
    *sys_lvms = emptied;
    Ok(())
}

/// Validates one volume group and enters it into `valids`, one physical
/// volume after the other. A refused group leaves everything as it was. An
/// accepted group gives the store at most one stack for each of its physical
/// volumes and then stands on every one of them.
pub fn collect_valid_vg(
    vg: &ManifestLvmVg,
    sys_fs_devs: &Vec<BlockDev>,
    sys_lvms: &mut Vec<SysLvm>,
    valids: &mut Vec<Vec<BlockDev>>,
) -> (res: Result<(), NayiError>)
    ensures
        forall|files: Seq<Seq<char>>, ready: Seq<Dev>|
            agrees(
                res,
                #[trigger] vg_step(
                    Host { fs_devs: path_view(sys_fs_devs@), files: files },
                    Stacks {
                        store: paths_view(old(valids)@),
                        ready: ready,
                        lvms: lvms_view(old(sys_lvms)@),
                    },
                    vg_node(vg.name@),
                    names_view(vg.pvs@),
                    0,
                ),
                Stacks {
                    store: paths_view(final(valids)@),
                    ready: ready,
                    lvms: lvms_view(final(sys_lvms)@),
                },
            ),
        res is Err ==> paths_view(final(valids)@) == paths_view(old(valids)@) && lvms_view(
            final(sys_lvms)@,
        ) == lvms_view(old(sys_lvms)@),
        res is Ok ==> old(valids)@.len() <= final(valids)@.len() <= old(valids)@.len()
            + vg.pvs@.len(),
        res is Ok && (forall|k: int|
            0 <= k < vg.pvs@.len() ==> (#[trigger] vg.pvs@[k])@ != vg_node(vg.name@).device)
            ==> forall|x: int|
            0 <= x < vg.pvs@.len() ==> crate::laws::group_tops(
                paths_view(final(valids)@),
                vg_node(vg.name@),
                (#[trigger] vg.pvs@[x])@,
            ),
{
    let vg_dev = BlockDev {
        device: concat("/dev/", vg.name.as_str()),
        device_type: BlockDevType::Dm(DmType::LvmVg),
    };
    let ghost host = Host { fs_devs: path_view(sys_fs_devs@), files: Seq::empty() };
    let ghost start = Stacks {
        store: paths_view(valids@),
        ready: Seq::empty(),
        lvms: lvms_view(sys_lvms@),
    };
    let saved_store = clone_paths(valids);
    let saved_lvms = copy_lvms(sys_lvms);
    let mut k: usize = 0;
    while k < vg.pvs.len()
        invariant
            k <= vg.pvs.len(),
            vg_dev@ == vg_node(vg.name@),
            paths_view(saved_store@) == paths_view(old(valids)@),
            lvms_view(saved_lvms@) == lvms_view(old(sys_lvms)@),
            host == (Host { fs_devs: path_view(sys_fs_devs@), files: Seq::empty() }),
            start == (Stacks {
                store: paths_view(old(valids)@),
                ready: Seq::empty(),
                lvms: lvms_view(old(sys_lvms)@),
            }),
            forall|files: Seq<Seq<char>>, ready: Seq<Dev>|
                #[trigger] vg_step(
                    Host { fs_devs: path_view(sys_fs_devs@), files: files },
                    Stacks {
                        store: paths_view(old(valids)@),
                        ready: ready,
                        lvms: lvms_view(old(sys_lvms)@),
                    },
                    vg_node(vg.name@),
                    names_view(vg.pvs@),
                    0,
                ) == vg_step(
                    Host { fs_devs: path_view(sys_fs_devs@), files: files },
                    Stacks {
                        store: paths_view(valids@),
                        ready: ready,
                        lvms: lvms_view(sys_lvms@),
                    },
                    vg_node(vg.name@),
                    names_view(vg.pvs@),
                    k as int,
                ),
        decreases vg.pvs.len() - k,
    {
        let step = collect_valid_vg_pv(
            &vg_dev,
            vg.name.as_str(),
            &vg.pvs[k],
            sys_fs_devs,
            sys_lvms,
            valids,
        );
        match step {
            Err(err) => {
                *valids = saved_store;
                *sys_lvms = saved_lvms;
                return Err(err);
            },
            Ok(_) => {},
        }
        k += 1;
    }
    proof {
        let pvs = names_view(vg.pvs@);
        let node = vg_node(vg.name@);
        let left = Stacks {
            store: paths_view(valids@),
            ready: Seq::empty(),
            lvms: lvms_view(sys_lvms@),
        };
        assert(vg_step(host, start, node, pvs, 0) == vg_step(host, left, node, pvs, k as int));
        crate::laws::law_group_adds_a_stack_at_most_per_volume(host, start, node, pvs, 0);
        if forall|k: int| 0 <= k < vg.pvs@.len() ==> (#[trigger] vg.pvs@[k])@ != node.device {
            assert forall|x: int| 0 <= x < vg.pvs@.len() implies crate::laws::group_tops(
                paths_view(valids@),
                node,
                (#[trigger] vg.pvs@[x])@,
            ) by {
                assert forall|m: int| 0 <= m < pvs.len() implies #[trigger] pvs[m] != node.device by {
                    assert(pvs[m] == vg.pvs@[m]@);
                }
                crate::laws::law_group_stands_on_every_volume(host, start, node, pvs, 0, x);
                assert(pvs[x] == vg.pvs@[x]@);
            }
        }
    }
    Ok(())
}

/// Device path of a volume group given by name or by path.
pub fn vg_device(vg: &str) -> (path: String)
    ensures
        path@ == vg_path(vg@),
{
    if contains(vg, "/dev/") {
        String::from_str(vg)
    } else {
        concat("/dev/", vg)
    }
}

/// The device paths of a logical volume's group and of the volume itself.
pub fn vg_lv_name(lv: &ManifestLvmLv) -> (names: (String, String))
    ensures
        names.0@ == vg_path(lv.vg@),
        names.1@ == lv_node(lv.vg@, lv.name@).device,
{
    let vg_name = vg_device(lv.vg.as_str());
    let lv_name = concat3(vg_name.as_str(), "/", lv.name.as_str());
    (vg_name, lv_name)
}

/// Validates one logical volume and enters it into `valids`. A refused
/// volume leaves the store as it was.
pub fn collect_valid_lv(
    lv: &ManifestLvmLv,
    sys_lvms: &Vec<SysLvm>,
    valids: &mut Vec<Vec<BlockDev>>,
) -> (res: Result<(), NayiError>)
    ensures
        forall|ready: Seq<Dev>|
            agrees(
                res,
                #[trigger] lv_step(
                    Stacks {
                        store: paths_view(old(valids)@),
                        ready: ready,
                        lvms: lvms_view(sys_lvms@),
                    },
                    lv.vg@,
                    lv.name@,
                    size_view(lv.size),
                ),
                Stacks {
                    store: paths_view(final(valids)@),
                    ready: ready,
                    lvms: lvms_view(sys_lvms@),
                },
            ),
        res is Err ==> paths_view(final(valids)@) == paths_view(old(valids)@),
{
    let msg = "lvm lv validation failed: lv ";
    let (vg_name, lv_name) = vg_lv_name(lv);
    match &lv.size {
        Some(size) => {
            if !valid_size(size.as_str()) {
                return Err(bad_manifest(msg, lv_name.as_str(), " has a malformed size"));
            }
        },
        None => {},
    }
    let base = Select::TipIs(
        BlockDev { device: vg_name, device_type: BlockDevType::Dm(DmType::LvmVg) },
    );
    if find_first(valids, &base) >= valids.len() && lvm_find(sys_lvms, &base) >= sys_lvms.len() {
        return Err(bad_manifest(msg, lv_name.as_str(), ": no vg device to build on"));
    }
    let node = BlockDev { device: lv_name, device_type: BlockDevType::Dm(DmType::LvmLv) };
    let known = clone_paths(valids);
    grow(valids, &known, &base, &node);
    lvm_grow(valids, sys_lvms, &base, &node);
    Ok(())
}

/// The stacks are sound: none of the store is empty, and each, of the store
/// and of the scan, is well typed, every node built on a legal kind of base.
pub open spec fn sound(st: Stacks) -> bool {
    crate::laws::typed(st) && crate::laws::filled(st.store)
}

/// Rule for the device-mapper section: the sizes of the logical volumes are
/// checked first, then every entry is taken in order.
pub open spec fn dms_rule(host: Host, st: Stacks, dms: Seq<Dm>) -> Result<Stacks, Fault> {
    if lv_sizes_rule(dms) {
        dms_fold(host, st, dms, 0)
    } else {
        Err(size_fault(all_lvs(dms), 0))
    }
}

fn collect_valid_pvs(
    pvs: &Vec<String>,
    sys_fs_devs: &Vec<BlockDev>,
    host_files: &Vec<String>,
    sys_fs_ready_devs: &mut Vec<BlockDev>,
    sys_lvms: &mut Vec<SysLvm>,
    valids: &mut Vec<Vec<BlockDev>>,
) -> (res: Result<(), NayiError>)
    ensures
        agrees(
            res,
            pvs_fold(
                host_of(*sys_fs_devs, *host_files),
                stacks_of(*old(valids), *old(sys_fs_ready_devs), *old(sys_lvms)),
                pvs@,
                0,
            ),
            stacks_of(*final(valids), *final(sys_fs_ready_devs), *final(sys_lvms)),
        ),
{
    let ghost host = host_of(*sys_fs_devs, *host_files);
    let ghost rule = pvs_fold(host, stacks_of(*valids, *sys_fs_ready_devs, *sys_lvms), pvs@, 0);
    let mut k: usize = 0;
    while k < pvs.len()
        invariant
            k <= pvs.len(),
            host == host_of(*sys_fs_devs, *host_files),
            rule == pvs_fold(
                host,
                stacks_of(*old(valids), *old(sys_fs_ready_devs), *old(sys_lvms)),
                pvs@,
                0,
            ),
            rule == pvs_fold(
                host,
                stacks_of(*valids, *sys_fs_ready_devs, *sys_lvms),
                pvs@,
                k as int,
            ),
        decreases pvs.len() - k,
    {
        let step = collect_valid_pv(
            pvs[k].as_str(),
            sys_fs_devs,
            host_files,
            sys_fs_ready_devs,
            sys_lvms,
            valids,
        );
        match step {
            Err(err) => {
                return Err(err);
            },
            Ok(_) => {},
        }
        k += 1;
    }
    Ok(())
}

fn collect_valid_vgs(
    vgs: &Vec<ManifestLvmVg>,
    sys_fs_devs: &Vec<BlockDev>,
    sys_lvms: &mut Vec<SysLvm>,
    valids: &mut Vec<Vec<BlockDev>>,
) -> (res: Result<(), NayiError>)
    ensures
        forall|files: Seq<Seq<char>>, ready: Seq<Dev>|
            agrees(
                res,
                #[trigger] vgs_fold(
                    Host { fs_devs: path_view(sys_fs_devs@), files: files },
                    Stacks {
                        store: paths_view(old(valids)@),
                        ready: ready,
                        lvms: lvms_view(old(sys_lvms)@),
                    },
                    vgs@,
                    0,
                ),
                Stacks {
                    store: paths_view(final(valids)@),
                    ready: ready,
                    lvms: lvms_view(final(sys_lvms)@),
                },
            ),
{
    let mut k: usize = 0;
    while k < vgs.len()
        invariant
            k <= vgs.len(),
            forall|files: Seq<Seq<char>>, ready: Seq<Dev>|
                #[trigger] vgs_fold(
                    Host { fs_devs: path_view(sys_fs_devs@), files: files },
                    Stacks {
                        store: paths_view(old(valids)@),
                        ready: ready,
                        lvms: lvms_view(old(sys_lvms)@),
                    },
                    vgs@,
                    0,
                ) == vgs_fold(
                    Host { fs_devs: path_view(sys_fs_devs@), files: files },
                    Stacks {
                        store: paths_view(valids@),
                        ready: ready,
                        lvms: lvms_view(sys_lvms@),
                    },
                    vgs@,
                    k as int,
                ),
        decreases vgs.len() - k,
    {
        let step = collect_valid_vg(&vgs[k], sys_fs_devs, sys_lvms, valids);
        match step {
            Err(err) => {
                return Err(err);
            },
            Ok(_) => {},
        }
        k += 1;
    }
    Ok(())
}

fn collect_valid_lvs(
    lvs: &Vec<ManifestLvmLv>,
    sys_lvms: &Vec<SysLvm>,
    valids: &mut Vec<Vec<BlockDev>>,
) -> (res: Result<(), NayiError>)
    ensures
        forall|ready: Seq<Dev>|
            agrees(
                res,
                #[trigger] lvs_fold(
                    Stacks {
                        store: paths_view(old(valids)@),
                        ready: ready,
                        lvms: lvms_view(sys_lvms@),
                    },
                    lvs@,
                    0,
                ),
                Stacks {
                    store: paths_view(final(valids)@),
                    ready: ready,
                    lvms: lvms_view(sys_lvms@),
                },
            ),
{
    let mut k: usize = 0;
    while k < lvs.len()
        invariant
            k <= lvs.len(),
            forall|ready: Seq<Dev>|
                #[trigger] lvs_fold(
                    Stacks {
                        store: paths_view(old(valids)@),
                        ready: ready,
                        lvms: lvms_view(sys_lvms@),
                    },
                    lvs@,
                    0,
                ) == lvs_fold(
                    Stacks { store: paths_view(valids@), ready: ready, lvms: lvms_view(sys_lvms@) },
                    lvs@,
                    k as int,
                ),
        decreases lvs.len() - k,
    {
        let step = collect_valid_lv(&lvs[k], sys_lvms, valids);
        match step {
            Err(err) => {
                return Err(err);
            },
            Ok(_) => {},
        }
        k += 1;
    }
    Ok(())
}

fn collect_lvm_parts(
    lvm: &ManifestLvm,
    sys_fs_devs: &Vec<BlockDev>,
    host_files: &Vec<String>,
    sys_fs_ready_devs: &mut Vec<BlockDev>,
    sys_lvms: &mut Vec<SysLvm>,
    valids: &mut Vec<Vec<BlockDev>>,
) -> (res: Result<(), NayiError>)
    ensures
        agrees(
            res,
            lvm_step(
                host_of(*sys_fs_devs, *host_files),
                stacks_of(*old(valids), *old(sys_fs_ready_devs), *old(sys_lvms)),
                *lvm,
            ),
            stacks_of(*final(valids), *final(sys_fs_ready_devs), *final(sys_lvms)),
        ),
{
    match &lvm.pvs {
        Some(pvs) => {
            match collect_valid_pvs(
                pvs,
                sys_fs_devs,
                host_files,
                sys_fs_ready_devs,
                sys_lvms,
                valids,
            ) {
                Err(err) => {
                    return Err(err);
                },
                Ok(_) => {},
            }
        },
        None => {},
    }
    match &lvm.vgs {
        Some(vgs) => {
            match collect_valid_vgs(vgs, sys_fs_devs, sys_lvms, valids) {
                Err(err) => {
                    return Err(err);
                },
                Ok(_) => {},
            }
        },
        None => {},
    }
    match &lvm.lvs {
        Some(lvs) => collect_valid_lvs(lvs, sys_lvms, valids),
        None => Ok(()),
    }
}

/// Validates one LVM block: its physical volumes, then its volume groups,
/// then its logical volumes, so that each finds its base in `valids`.
/// A refused block leaves everything as it was.
pub fn collect_valid_lvm(
    lvm: &ManifestLvm,
    sys_fs_devs: &Vec<BlockDev>,
    host_files: &Vec<String>,
    sys_fs_ready_devs: &mut Vec<BlockDev>,
    sys_lvms: &mut Vec<SysLvm>,
    valids: &mut Vec<Vec<BlockDev>>,
) -> (res: Result<(), NayiError>)
    ensures
        agrees(
            res,
            lvm_step(
                host_of(*sys_fs_devs, *host_files),
                stacks_of(*old(valids), *old(sys_fs_ready_devs), *old(sys_lvms)),
                *lvm,
            ),
            stacks_of(*final(valids), *final(sys_fs_ready_devs), *final(sys_lvms)),
        ),
        res is Err ==> stacks_of(*final(valids), *final(sys_fs_ready_devs), *final(sys_lvms))
            == stacks_of(*old(valids), *old(sys_fs_ready_devs), *old(sys_lvms)),
{
    let saved_store = clone_paths(valids);
    let saved_ready = clone_path(sys_fs_ready_devs);
    let saved_lvms = copy_lvms(sys_lvms);
    let done = collect_lvm_parts(lvm, sys_fs_devs, host_files, sys_fs_ready_devs, sys_lvms, valids);
    if done.is_err() {
        *valids = saved_store;
        *sys_fs_ready_devs = saved_ready;
        *sys_lvms = saved_lvms;
    }
    done
}

fn collect_dm_entries(
    dms: &Vec<Dm>,
    sys_fs_devs: &Vec<BlockDev>,
    host_files: &Vec<String>,
    sys_fs_ready_devs: &mut Vec<BlockDev>,
    sys_lvms: &mut Vec<SysLvm>,
    valids: &mut Vec<Vec<BlockDev>>,
) -> (res: Result<(), NayiError>)
    ensures
        agrees(
            res,
            dms_rule(
                host_of(*sys_fs_devs, *host_files),
                stacks_of(*old(valids), *old(sys_fs_ready_devs), *old(sys_lvms)),
                dms@,
            ),
            stacks_of(*final(valids), *final(sys_fs_ready_devs), *final(sys_lvms)),
        ),
{
    match validate_lv_size(dms) {
        Err(err) => {
            return Err(err);
        },
        Ok(_) => {},
    }
    let ghost host = host_of(*sys_fs_devs, *host_files);
    let ghost rule = dms_fold(host, stacks_of(*valids, *sys_fs_ready_devs, *sys_lvms), dms@, 0);
    let mut k: usize = 0;
    while k < dms.len()
        invariant
            k <= dms.len(),
            host == host_of(*sys_fs_devs, *host_files),
            lv_sizes_rule(dms@),
            rule == dms_fold(
                host,
                stacks_of(*old(valids), *old(sys_fs_ready_devs), *old(sys_lvms)),
                dms@,
                0,
            ),
            rule == dms_fold(
                host,
                stacks_of(*valids, *sys_fs_ready_devs, *sys_lvms),
                dms@,
                k as int,
            ),
        decreases dms.len() - k,
    {
        let step = match &dms[k] {
            Dm::Luks(luks) => collect_valid_luks(
                luks,
                sys_fs_devs,
                host_files,
                sys_fs_ready_devs,
                sys_lvms,
                valids,
            ),
            Dm::Lvm(lvm) => collect_valid_lvm(
                lvm,
                sys_fs_devs,
                host_files,
                sys_fs_ready_devs,
                sys_lvms,
                valids,
            ),
        };
        match step {
            Err(err) => {
                return Err(err);
            },
            Ok(_) => {},
        }
        k += 1;
    }
    Ok(())
}

/// Validates the device-mapper section of a manifest and enters every
/// device it declares into `valids`. A refused section leaves everything as
/// it was; an accepted one keeps sound stacks sound.
pub fn collect_valids(
    dms: &Vec<Dm>,
    sys_fs_devs: &Vec<BlockDev>,
    host_files: &Vec<String>,
    sys_fs_ready_devs: &mut Vec<BlockDev>,
    sys_lvms: &mut Vec<SysLvm>,
    valids: &mut Vec<Vec<BlockDev>>,
) -> (res: Result<(), NayiError>)
    ensures
        agrees(
            res,
            dms_rule(
                host_of(*sys_fs_devs, *host_files),
                stacks_of(*old(valids), *old(sys_fs_ready_devs), *old(sys_lvms)),
                dms@,
            ),
            stacks_of(*final(valids), *final(sys_fs_ready_devs), *final(sys_lvms)),
        ),
        res is Err ==> stacks_of(*final(valids), *final(sys_fs_ready_devs), *final(sys_lvms))
            == stacks_of(*old(valids), *old(sys_fs_ready_devs), *old(sys_lvms)),
        res is Ok && sound(stacks_of(*old(valids), *old(sys_fs_ready_devs), *old(sys_lvms)))
            ==> sound(stacks_of(*final(valids), *final(sys_fs_ready_devs), *final(sys_lvms))),
{
    proof {
        let host = host_of(*sys_fs_devs, *host_files);
        let st = stacks_of(*valids, *sys_fs_ready_devs, *sys_lvms);
        if sound(st) && dms_rule(host, st, dms@) is Ok {
            crate::laws::law_device_mappers_keep_stacks_sound(host, st, dms@);
        }
    }
    let saved_store = clone_paths(valids);
    let saved_ready = clone_path(sys_fs_ready_devs);
    let saved_lvms = copy_lvms(sys_lvms);
    let done = collect_dm_entries(dms, sys_fs_devs, host_files, sys_fs_ready_devs, sys_lvms, valids);
    if done.is_err() {
        *valids = saved_store;
        *sys_fs_ready_devs = saved_ready;
        *sys_lvms = saved_lvms;
    }
    done
}

} // verus!
