use vstd::prelude::*;

verus! {

/// Partition table format of a disk.
#[derive(Debug, Clone, Copy, PartialEq, Eq)]
pub enum PartitionTable {
    Gpt,
    Mbr,
}

/// One partition to create on a disk.
#[derive(Debug, Clone)]
pub struct ManifestPartition {
    pub label: String,
    pub size: Option<String>,
    pub part_type: String,
}

/// One disk to partition.
#[derive(Debug, Clone)]
pub struct ManifestDisk {
    pub device: String,
    pub table: PartitionTable,
    pub partitions: Vec<ManifestPartition>,
}

/// One filesystem to create and mount.
#[derive(Debug, Clone)]
pub struct ManifestFs {
    pub device: String,
    pub mnt: String,
    pub fs_type: String,
    pub fs_opts: Option<String>,
    pub mnt_opts: Option<String>,
}

/// The root filesystem.
#[derive(Debug, Clone)]
pub struct ManifestRootFs(pub ManifestFs);

/// One LUKS volume: its mapper name and the device it encrypts.
#[derive(Debug, Clone)]
pub struct ManifestLuks {
    pub name: String,
    pub device: String,
}

/// One LVM volume group and the physical volumes it spans.
#[derive(Debug, Clone)]
pub struct ManifestLvmVg {
    pub name: String,
    pub pvs: Vec<String>,
}

/// One LVM logical volume; without a size it takes what is left of its group.
#[derive(Debug, Clone)]
pub struct ManifestLvmLv {
    pub name: String,
    pub vg: String,
    pub size: Option<String>,
}

/// One LVM block of the manifest.
#[derive(Debug, Clone)]
pub struct ManifestLvm {
    pub pvs: Option<Vec<String>>,
    pub vgs: Option<Vec<ManifestLvmVg>>,
    pub lvs: Option<Vec<ManifestLvmLv>>,
}

/// One device-mapper entry.
#[derive(Debug, Clone)]
pub enum Dm {
    Luks(ManifestLuks),
    Lvm(ManifestLvm),
}

/// The installation manifest.
#[derive(Debug, Clone)]
pub struct Manifest {
    pub disks: Option<Vec<ManifestDisk>>,
    pub dm: Option<Vec<Dm>>,
    pub rootfs: ManifestRootFs,
    pub filesystems: Option<Vec<ManifestFs>>,
    pub swap: Option<Vec<String>>,
    pub pacstraps: Option<Vec<String>>,
    pub chroot: Option<Vec<String>>,
    pub postinstall: Option<Vec<String>>,
    pub hostname: Option<String>,
    pub timezone: Option<String>,
}

/// The items of an optional list; none where the list is absent.
pub open spec fn items<T>(list: Option<Vec<T>>) -> Seq<T> {
    match list {
        Some(v) => v@,
        None => Seq::empty(),
    }
}

} // verus!
