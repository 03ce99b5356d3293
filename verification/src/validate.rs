use vstd::prelude::*;
use crate::blockdev::{clone_path, path_view, BlockDev, Dev};
use crate::diskcheck::{collect_valid_disks, disks_fold};
use crate::dm::{agrees, collect_valids, dms_rule, host_of, luks_node, sound, stacks_of};
use crate::laws::{apart, dms_fresh};
use crate::errors::{Fault, NayiError};
use crate::fscheck::{claims, collect_claims, collect_fs_types, fs_rule, fs_types, validate_fs};
use crate::manifest::{items, Dm, Manifest, ManifestDisk};
use crate::text::concat;
use crate::state::{lvms_view, names_view, Host, Stacks, SysLvm};
use crate::store::{clone_paths, copy_lvms};

verus! {

/// What the scanner reports of the host: the devices that carry a
/// filesystem, the devices free to carry one, the LVM stacks by physical
/// volume, and which of the paths that the manifest names exist as files.
#[derive(Debug)]
pub struct Scan {
    pub sys_fs_devs: Vec<BlockDev>,
    pub sys_fs_ready_devs: Vec<BlockDev>,
    pub sys_lvms: Vec<SysLvm>,
    pub host_files: Vec<String>,
}

/// The device paths of a list of devices, in order.
pub open spec fn device_names(devs: Seq<Dev>) -> Seq<Seq<char>> {
    Seq::new(devs.len(), |i: int| devs[i].device)
}

/// The physical volumes of the entries of an LVM table, in order.
pub open spec fn pv_names(lvms: Seq<crate::state::LvmEntry>) -> Seq<Seq<char>> {
    Seq::new(lvms.len(), |i: int| lvms[i].pv)
}

/// The scan is a set of maps: no device occurs twice among those that carry
/// a filesystem, none twice among the free ones, and no physical volume has
/// two entries in the LVM table.
pub open spec fn scan_distinct(
    fs_devs: Seq<Dev>,
    ready: Seq<Dev>,
    lvms: Seq<crate::state::LvmEntry>,
) -> bool {
    device_names(fs_devs).no_duplicates() && device_names(ready).no_duplicates() && pv_names(
        lvms,
    ).no_duplicates()
}

fn no_repeat(names: &Vec<String>) -> (r: bool)
    ensures
        r == names_view(names@).no_duplicates(),
{
    let ghost all = names_view(names@);
    let mut i: usize = 0;
    while i < names.len()
        invariant
            i <= names.len(),
            all == names_view(names@),
            forall|a: int, b: int| 0 <= a < b < i ==> all[a] != all[b],
        decreases names.len() - i,
    {
        let mut k: usize = 0;
        while k < i
            invariant
                k <= i < names.len(),
                all == names_view(names@),
                forall|a: int| 0 <= a < k ==> all[a] != all[i as int],
            decreases i - k,
        {
            if crate::text::same(names[k].as_str(), names[i].as_str()) {
                assert(all[k as int] == all[i as int]);
                return false;
            }
            k += 1;
        }
        i += 1;
    }
    true
}

fn names_of(devs: &Vec<BlockDev>) -> (names: Vec<String>)
    ensures
        names_view(names@) == device_names(path_view(devs@)),
{
    let mut names: Vec<String> = Vec::new();
    let mut i: usize = 0;
    while i < devs.len()
        invariant
            i <= devs.len(),
            names@.len() == i,
            forall|k: int| 0 <= k < i ==> (#[trigger] names@[k])@ == devs@[k].device@,
        decreases devs.len() - i,
    {
        names.push(devs[i].device.clone());
        i += 1;
    }
    assert(names_view(names@) =~= device_names(path_view(devs@)));
    names
}

fn pvs_of(lvms: &Vec<SysLvm>) -> (names: Vec<String>)
    ensures
        names_view(names@) == pv_names(lvms_view(lvms@)),
{
    let mut names: Vec<String> = Vec::new();
    let mut i: usize = 0;
    while i < lvms.len()
        invariant
            i <= lvms.len(),
            names@.len() == i,
            forall|k: int| 0 <= k < i ==> (#[trigger] names@[k])@ == lvms@[k].pv@,
        decreases lvms.len() - i,
    {
        names.push(lvms[i].pv.clone());
        i += 1;
    }
    assert(names_view(names@) =~= pv_names(lvms_view(lvms@)));
    names
}

impl Scan {
    /// No device and no physical volume is reported twice.
    pub open spec fn well_formed(&self) -> bool {
        scan_distinct(
            path_view(self.sys_fs_devs@),
            path_view(self.sys_fs_ready_devs@),
            lvms_view(self.sys_lvms@),
        )
    }

    /// Whether no device and no physical volume is reported twice.
    pub fn is_well_formed(&self) -> (r: bool)
        ensures
            r == self.well_formed(),
    {
        no_repeat(&names_of(&self.sys_fs_devs)) && no_repeat(&names_of(&self.sys_fs_ready_devs))
            && no_repeat(&pvs_of(&self.sys_lvms))
    }
}

/// Rule for the block stack of a manifest: the disks, then the device
/// mappers, each stage extending the state the one before left.
pub open spec fn blk_stacks(host: Host, st: Stacks, manifest: Manifest) -> Result<Stacks, Fault> {
    match disks_fold(host, st, items(manifest.disks), 0) {
        Err(f) => Err(f),
        Ok(with_disks) => dms_rule(host, with_disks, items(manifest.dm)),
    }
}

/// The state in which validation starts: an empty store, and the free
/// devices and LVM stacks as scanned.
pub open spec fn fresh_stacks(ready: Seq<Dev>, lvms: Seq<crate::state::LvmEntry>) -> Stacks {
    Stacks { store: Seq::empty(), ready: ready, lvms: lvms }
}

/// Rule for a whole manifest: its block stack must be valid, and each of
/// its filesystems and swap devices must then find a device of its own.
pub open spec fn blk_rule(host: Host, start: Stacks, manifest: Manifest) -> Result<(), Fault> {
    match blk_stacks(host, start, manifest) {
        Err(f) => Err(f),
        Ok(built) => fs_rule(built, claims(manifest), fs_types(items(manifest.filesystems))),
    }
}

fn collect_sections(
    manifest: &Manifest,
    sys_fs_devs: &Vec<BlockDev>,
    host_files: &Vec<String>,
    sys_fs_ready_devs: &mut Vec<BlockDev>,
    sys_lvms: &mut Vec<SysLvm>,
    valids: &mut Vec<Vec<BlockDev>>,
) -> (res: Result<(), NayiError>)
    ensures
        agrees(
            res,
            blk_stacks(
                host_of(*sys_fs_devs, *host_files),
                stacks_of(*old(valids), *old(sys_fs_ready_devs), *old(sys_lvms)),
                *manifest,
            ),
            stacks_of(*final(valids), *final(sys_fs_ready_devs), *final(sys_lvms)),
        ),
{
    match &manifest.disks {
        Some(disks) => {
            match collect_valid_disks(disks, sys_fs_devs, host_files, sys_fs_ready_devs, valids) {
                Err(err) => {
                    return Err(err);
                },
                Ok(_) => {},
            }
        },
        None => {},
    }
    match &manifest.dm {
        Some(dms) => collect_valids(
            dms,
            sys_fs_devs,
            host_files,
            sys_fs_ready_devs,
            sys_lvms,
            valids,
        ),
        None => {
            let none: Vec<crate::manifest::Dm> = Vec::new();
            collect_valids(&none, sys_fs_devs, host_files, sys_fs_ready_devs, sys_lvms, valids)
        },
    }
}

/// Validates the disks and device mappers of a manifest and enters every
/// device they declare into `valids`, consuming what they use of the host. A
/// refused manifest leaves everything as it was. An accepted one keeps sound
/// stacks sound, and keeps the tips of the store apart from the free devices
/// where its device mappers declare none of these.
pub fn collect_stacks(
    manifest: &Manifest,
    sys_fs_devs: &Vec<BlockDev>,
    host_files: &Vec<String>,
    sys_fs_ready_devs: &mut Vec<BlockDev>,
    sys_lvms: &mut Vec<SysLvm>,
    valids: &mut Vec<Vec<BlockDev>>,
) -> (res: Result<(), NayiError>)
    ensures
        agrees(
            res,
            blk_stacks(
                host_of(*sys_fs_devs, *host_files),
                stacks_of(*old(valids), *old(sys_fs_ready_devs), *old(sys_lvms)),
                *manifest,
            ),
            stacks_of(*final(valids), *final(sys_fs_ready_devs), *final(sys_lvms)),
        ),
        res is Err ==> stacks_of(*final(valids), *final(sys_fs_ready_devs), *final(sys_lvms))
            == stacks_of(*old(valids), *old(sys_fs_ready_devs), *old(sys_lvms)),
        res is Ok && sound(stacks_of(*old(valids), *old(sys_fs_ready_devs), *old(sys_lvms)))
            ==> sound(stacks_of(*final(valids), *final(sys_fs_ready_devs), *final(sys_lvms))),
        res is Ok && apart(stacks_of(*old(valids), *old(sys_fs_ready_devs), *old(sys_lvms)))
            && dms_fresh(path_view(old(sys_fs_ready_devs)@), items(manifest.dm)) ==> apart(
            stacks_of(*final(valids), *final(sys_fs_ready_devs), *final(sys_lvms)),
        ),
{
    proof {
        let host = host_of(*sys_fs_devs, *host_files);
        let st = stacks_of(*valids, *sys_fs_ready_devs, *sys_lvms);
        if blk_stacks(host, st, *manifest) is Ok {
            crate::laws::law_manifest_keeps_the_state(host, st, *manifest);
        }
    }
    let saved_store = clone_paths(valids);
    let saved_ready = clone_path(sys_fs_ready_devs);
    let saved_lvms = copy_lvms(sys_lvms);
    let done = collect_sections(
        manifest,
        sys_fs_devs,
        host_files,
        sys_fs_ready_devs,
        sys_lvms,
        valids,
    );
    if done.is_err() {
        *valids = saved_store;
        *sys_fs_ready_devs = saved_ready;
        *sys_lvms = saved_lvms;
    }
    done
}

/// Validates the block storage of a manifest against what the scanner
/// found, which names no device and no physical volume twice: accepted exactly when [`blk_rule`] accepts, with its failure
/// otherwise.
pub fn validate_blk(
    manifest: &Manifest,
    sys_fs_devs: &Vec<BlockDev>,
    host_files: &Vec<String>,
    sys_fs_ready_devs: Vec<BlockDev>,
    sys_lvms: Vec<SysLvm>,
) -> (res: Result<(), NayiError>)
    requires
        scan_distinct(
            path_view(sys_fs_devs@),
            path_view(sys_fs_ready_devs@),
            lvms_view(sys_lvms@),
        ),
    ensures
        match res {
            Ok(_) => blk_rule(
                host_of(*sys_fs_devs, *host_files),
                fresh_stacks(path_view(sys_fs_ready_devs@), lvms_view(sys_lvms@)),
                *manifest,
            ) == Ok::<(), Fault>(()),
            Err(e) => blk_rule(
                host_of(*sys_fs_devs, *host_files),
                fresh_stacks(path_view(sys_fs_ready_devs@), lvms_view(sys_lvms@)),
                *manifest,
            ) == Err::<(), Fault>(e.fault()),
        },
{
    let mut ready = sys_fs_ready_devs;
    let mut lvms = sys_lvms;
    let mut valids: Vec<Vec<BlockDev>> = Vec::new();
    assert(stacks_of(valids, ready, lvms) == fresh_stacks(
        path_view(sys_fs_ready_devs@),
        lvms_view(sys_lvms@),
    )) by {
        assert(crate::blockdev::paths_view(valids@) =~= Seq::<Seq<Dev>>::empty());
    }
    match collect_stacks(manifest, sys_fs_devs, host_files, &mut ready, &mut lvms, &mut valids) {
        Err(err) => {
            return Err(err);
        },
        Ok(_) => {},
    }
    let wanted = collect_claims(manifest);
    let types = collect_fs_types(manifest);
    validate_fs(&wanted, &types, &ready, &lvms, &valids)
}

/// Validates a manifest against a scan of the host.
pub fn validate(manifest: &Manifest, scan: Scan) -> (res: Result<(), NayiError>)
    requires
        scan.well_formed(),
    ensures
        match res {
            Ok(_) => blk_rule(
                host_of(scan.sys_fs_devs, scan.host_files),
                fresh_stacks(path_view(scan.sys_fs_ready_devs@), lvms_view(scan.sys_lvms@)),
                *manifest,
            ) == Ok::<(), Fault>(()),
            Err(e) => blk_rule(
                host_of(scan.sys_fs_devs, scan.host_files),
                fresh_stacks(path_view(scan.sys_fs_ready_devs@), lvms_view(scan.sys_lvms@)),
                *manifest,
            ) == Err::<(), Fault>(e.fault()),
        },
{
    let Scan { sys_fs_devs, sys_fs_ready_devs, sys_lvms, host_files } = scan;
    validate_blk(manifest, &sys_fs_devs, &host_files, sys_fs_ready_devs, sys_lvms)
}

/// The devices of the disks before `upto`, in order.
pub open spec fn disk_probes(disks: Seq<ManifestDisk>, upto: int) -> Seq<Seq<char>> {
    Seq::new(upto as nat, |i: int| disks[i].device@)
}

/// The paths that one device-mapper entry asks the host about: for a LUKS
/// volume its mapper device and its base, for an LVM block its physical
/// volumes.
pub open spec fn dm_probes(dm: Dm) -> Seq<Seq<char>> {
    match dm {
        Dm::Luks(luks) => seq![luks_node(luks.name@).device, luks.device@],
        Dm::Lvm(lvm) => names_view(items(lvm.pvs)),
    }
}

/// The paths that the entries before `upto` ask the host about, in order.
pub open spec fn dms_probes(dms: Seq<Dm>, upto: int) -> Seq<Seq<char>>
    decreases upto,
{
    if upto <= 0 || upto > dms.len() {
        Seq::empty()
    } else {
        dms_probes(dms, upto - 1) + dm_probes(dms[upto - 1])
    }
}

/// Every path of which validation asks whether it exists as a file.
pub open spec fn probes(manifest: Manifest) -> Seq<Seq<char>> {
    disk_probes(items(manifest.disks), items(manifest.disks).len() as int) + dms_probes(
        items(manifest.dm),
        items(manifest.dm).len() as int,
    )
}

/// The paths that the scanner has to look for on the host before a manifest
/// can be validated: those among them that exist make up `host_files`.
pub fn probe_paths(manifest: &Manifest) -> (paths: Vec<String>)
    ensures
        names_view(paths@) == probes(*manifest),
{
    let mut paths: Vec<String> = Vec::new();
    assert(names_view(paths@) =~= disk_probes(items(manifest.disks), 0));
    match &manifest.disks {
        Some(disks) => {
            let mut i: usize = 0;
            while i < disks.len()
                invariant
                    i <= disks.len(),
                    names_view(paths@) == disk_probes(disks@, i as int),
                decreases disks.len() - i,
            {
                let ghost before = names_view(paths@);
                paths.push(disks[i].device.clone());
                assert(names_view(paths@) =~= before.push(disks@[i as int].device@));
                i += 1;
                assert(before.push(disks@[i - 1].device@) =~= disk_probes(disks@, i as int));
            }
        },
        None => {},
    }
    let ghost head = names_view(paths@);
    assert(head =~= head + dms_probes(items(manifest.dm), 0));
    match &manifest.dm {
        Some(dms) => {
            let mut k: usize = 0;
            while k < dms.len()
                invariant
                    k <= dms.len(),
                    names_view(paths@) == head + dms_probes(dms@, k as int),
                decreases dms.len() - k,
            {
                let ghost before = names_view(paths@);
                match &dms[k] {
                    Dm::Luks(luks) => {
                        paths.push(concat("/dev/mapper/", luks.name.as_str()));
                        paths.push(luks.device.clone());
                        assert(names_view(paths@) =~= before + dm_probes(dms@[k as int]));
                    },
                    Dm::Lvm(lvm) => {
                        match &lvm.pvs {
                            Some(pvs) => {
                                let mut j: usize = 0;
                                assert(names_view(pvs@).take(0) =~= Seq::<Seq<char>>::empty());
                                assert(names_view(paths@) =~= before + names_view(pvs@).take(0));
                                while j < pvs.len()
                                    invariant
                                        j <= pvs.len(),
                                        names_view(paths@) == before + names_view(pvs@).take(
                                            j as int,
                                        ),
                                    decreases pvs.len() - j,
                                {
                                    let ghost mid = names_view(paths@);
                                    paths.push(pvs[j].clone());
                                    assert(names_view(paths@) =~= mid.push(pvs@[j as int]@));
                                    j += 1;
                                    assert(mid.push(pvs@[j - 1]@) =~= before + names_view(
                                        pvs@,
                                    ).take(j as int));
                                }
                                assert(names_view(pvs@).take(j as int) =~= names_view(pvs@));
                            },
                            None => {
                                assert(names_view(paths@) =~= before + dm_probes(dms@[k as int]));
                            },
                        }
                    },
                }
                k += 1;
                assert((head + dms_probes(dms@, k - 1)) + dm_probes(dms@[k - 1]) =~= head
                    + dms_probes(dms@, k as int));
            }
        },
        None => {},
    }
    paths
}

} // verus!
