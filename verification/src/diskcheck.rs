use vstd::prelude::*;
use crate::blockdev::{label_of, path_view, paths_view, BlockDev, BlockDevType, Dev, Kind};
use crate::dm::{agrees, host_of};
use crate::errors::{bad_manifest, bad_manifest4, refused, refused4, Fault, NayiError};
use crate::manifest::ManifestDisk;
use crate::state::{has_dev, kind_in, names_view, Host, LvmEntry, Stacks};
use crate::store::{clone_paths, find_device, has_device, listed};
use crate::text::{concat, concat3, contains, decimal, has_sub, to_decimal};

verus! {

/// What stands before the number in the name of a disk's partitions: the
/// disk's path, followed by `p` for NVMe and MMC devices.
pub open spec fn partition_prefix(device: Seq<char>) -> Seq<char> {
    if has_sub(device, "nvme"@) || has_sub(device, "mmcblk"@) {
        device + "p"@
    } else {
        device
    }
}

/// Device path of partition `number` of a disk; numbers start at one.
pub open spec fn partition_name(device: Seq<char>, number: nat) -> Seq<char> {
    partition_prefix(device) + decimal(number)
}

/// The stack of partition `number` of a disk: the disk, and the partition on it.
pub open spec fn partition_path(device: Seq<char>, number: nat) -> Seq<Dev> {
    seq![
        Dev { device: device, kind: Kind::Disk },
        Dev { device: partition_name(device, number), kind: Kind::Partition },
    ]
}

/// The stacks of the first `count` partitions of a disk, in order.
pub open spec fn disk_paths(device: Seq<char>, count: nat) -> Seq<Seq<Dev>> {
    Seq::new(count, |i: int| partition_path(device, (i + 1) as nat))
}

/// The partition after the first `i` of the disk exists on the host
/// already, free or in use.
pub open spec fn partition_taken(used: Seq<Dev>, free: Seq<Dev>, device: Seq<char>, i: int) -> bool {
    has_dev(free, partition_name(device, (i + 1) as nat)) || has_dev(
        used,
        partition_name(device, (i + 1) as nat),
    )
}

/// The failure that the first partition at or after `from` that exists on
/// the host already gives.
pub open spec fn taken_fault(
    used: Seq<Dev>,
    free: Seq<Dev>,
    device: Seq<char>,
    count: int,
    from: int,
) -> Fault
    decreases count - from,
{
    let name = partition_name(device, (from + 1) as nat);
    let rule = "partition validation failed: partition "@;
    if from < 0 || from >= count {
        Fault::BadManifest(Seq::empty())
    } else if has_dev(free, name) {
        refused(rule, name, " already exists on system"@)
    } else if has_dev(used, name) {
        refused4(rule, name, " is already used as "@, label_of(kind_in(used, name)))
    } else {
        taken_fault(used, free, device, count, from + 1)
    }
}

/// Rule for one disk with `count` partitions: the disk must exist on the
/// host and none of its partitions may; then each partition enters the store
/// as a stack of its own.
pub open spec fn disk_step(host: Host, st: Stacks, device: Seq<char>, count: nat) -> Result<
    Stacks,
    Fault,
> {
    if !host.files.contains(device) {
        Err(Fault::NoSuchDevice(device))
    } else if exists|i: int|
        0 <= i < count && #[trigger] partition_taken(host.fs_devs, st.ready, device, i) {
        Err(taken_fault(host.fs_devs, st.ready, device, count as int, 0))
    } else {
        Ok(Stacks { store: st.store + disk_paths(device, count), ready: st.ready, lvms: st.lvms })
    }
}

/// [`disk_step`] for each disk from `from` on, in order, up to the first failure.
pub open spec fn disks_fold(host: Host, st: Stacks, disks: Seq<ManifestDisk>, from: int) -> Result<
    Stacks,
    Fault,
>
    decreases disks.len() - from,
{
    if from < 0 || from >= disks.len() {
        Ok(st)
    } else {
        match disk_step(host, st, disks[from].device@, disks[from].partitions@.len()) {
            Ok(next) => disks_fold(host, next, disks, from + 1),
            Err(f) => Err(f),
        }
    }
}

/// Device path of partition `number` of the disk `device`.
pub fn partition_device(device: &str, number: usize) -> (name: String)
    ensures
        name@ == partition_name(device@, number as nat),
{
    let digits = to_decimal(number);
    if contains(device, "nvme") || contains(device, "mmcblk") {
        concat3(device, "p", digits.as_str())
    } else {
        concat(device, digits.as_str())
    }
}

/// Validates one disk and enters its partitions into `valids`. A refused
/// disk leaves the store as it was.
pub fn collect_valid_disk(
    disk: &ManifestDisk,
    sys_fs_devs: &Vec<BlockDev>,
    host_files: &Vec<String>,
    sys_fs_ready_devs: &Vec<BlockDev>,
    valids: &mut Vec<Vec<BlockDev>>,
) -> (res: Result<(), NayiError>)
    ensures
        forall|lvms: Seq<LvmEntry>|
            agrees(
                res,
                #[trigger] disk_step(
                    host_of(*sys_fs_devs, *host_files),
                    Stacks {
                        store: paths_view(old(valids)@),
                        ready: path_view(sys_fs_ready_devs@),
                        lvms: lvms,
                    },
                    disk.device@,
                    disk.partitions@.len(),
                ),
                Stacks {
                    store: paths_view(final(valids)@),
                    ready: path_view(sys_fs_ready_devs@),
                    lvms: lvms,
                },
            ),
        res is Err ==> paths_view(final(valids)@) == paths_view(old(valids)@),
{
    let device = disk.device.as_str();
    if !listed(host_files, device) {
        return Err(NayiError::NoSuchDevice(disk.device.clone()));
    }
    let ghost used = path_view(sys_fs_devs@);
    let ghost free = path_view(sys_fs_ready_devs@);
    let ghost start = paths_view(valids@);
    let saved = clone_paths(valids);
    let n = disk.partitions.len();
    let mut i: usize = 0;
    assert(paths_view(valids@) =~= start + disk_paths(device@, 0));
    while i < n
        invariant
            i <= n,
            n == disk.partitions@.len(),
            device@ == disk.device@,
            used == path_view(sys_fs_devs@),
            free == path_view(sys_fs_ready_devs@),
            start == paths_view(old(valids)@),
            paths_view(saved@) == start,
            names_view(host_files@).contains(device@),
            paths_view(valids@) == start + disk_paths(device@, i as nat),
            taken_fault(used, free, device@, n as int, 0) == taken_fault(
                used,
                free,
                device@,
                n as int,
                i as int,
            ),
            forall|k: int| 0 <= k < i ==> !partition_taken(used, free, device@, k),
        decreases n - i,
    {
        let msg = "partition validation failed: partition ";
        let name = partition_device(device, i + 1);
        if has_device(sys_fs_ready_devs, name.as_str()) {
            assert(partition_taken(used, free, device@, i as int));
            *valids = saved;
            return Err(bad_manifest(msg, name.as_str(), " already exists on system"));
        }
        let at = find_device(sys_fs_devs, name.as_str());
        if at < sys_fs_devs.len() {
            assert(partition_taken(used, free, device@, i as int));
            *valids = saved;
            let kind = sys_fs_devs[at].device_type.label();
            return Err(bad_manifest4(msg, name.as_str(), " is already used as ", kind.as_str()));
        }
        let mut path: Vec<BlockDev> = Vec::new();
        path.push(BlockDev { device: disk.device.clone(), device_type: BlockDevType::Disk });
        path.push(BlockDev { device: name, device_type: BlockDevType::Partition });
        assert(path_view(path@) =~= partition_path(device@, (i + 1) as nat));
        let ghost before = paths_view(valids@);
        valids.push(path);
        assert(paths_view(valids@) =~= before.push(partition_path(device@, (i + 1) as nat)));
        i += 1;
        assert(before.push(partition_path(device@, i as nat)) =~= start + disk_paths(
            device@,
            i as nat,
        ));
    }
    Ok(())
}

/// Validates the disks of a manifest and enters their partitions into
/// `valids`. Refused disks leave the store as it was.
pub fn collect_valid_disks(
    disks: &Vec<ManifestDisk>,
    sys_fs_devs: &Vec<BlockDev>,
    host_files: &Vec<String>,
    sys_fs_ready_devs: &Vec<BlockDev>,
    valids: &mut Vec<Vec<BlockDev>>,
) -> (res: Result<(), NayiError>)
    ensures
        forall|lvms: Seq<LvmEntry>|
            agrees(
                res,
                #[trigger] disks_fold(
                    host_of(*sys_fs_devs, *host_files),
                    Stacks {
                        store: paths_view(old(valids)@),
                        ready: path_view(sys_fs_ready_devs@),
                        lvms: lvms,
                    },
                    disks@,
                    0,
                ),
                Stacks {
                    store: paths_view(final(valids)@),
                    ready: path_view(sys_fs_ready_devs@),
                    lvms: lvms,
                },
            ),
        res is Err ==> paths_view(final(valids)@) == paths_view(old(valids)@),
{
    let saved = clone_paths(valids);
    let mut k: usize = 0;
    while k < disks.len()
        invariant
            k <= disks.len(),
            paths_view(saved@) == paths_view(old(valids)@),
            forall|lvms: Seq<LvmEntry>|
                #[trigger] disks_fold(
                    host_of(*sys_fs_devs, *host_files),
                    Stacks {
                        store: paths_view(old(valids)@),
                        ready: path_view(sys_fs_ready_devs@),
                        lvms: lvms,
                    },
                    disks@,
                    0,
                ) == disks_fold(
                    host_of(*sys_fs_devs, *host_files),
                    Stacks {
                        store: paths_view(valids@),
                        ready: path_view(sys_fs_ready_devs@),
                        lvms: lvms,
                    },
                    disks@,
                    k as int,
                ),
        decreases disks.len() - k,
    {
        let step = collect_valid_disk(&disks[k], sys_fs_devs, host_files, sys_fs_ready_devs, valids);
        match step {
            Err(err) => {
                *valids = saved;
                return Err(err);
            },
            Ok(_) => {},
        }
        k += 1;
    }
    Ok(())
}

} // verus!
