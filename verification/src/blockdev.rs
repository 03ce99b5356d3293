use vstd::prelude::*;
use vstd::string::*;

verus! {

/// Kind of a device-mapper node.
#[derive(Debug, Clone, Copy, PartialEq, Eq, Hash)]
pub enum DmType {
    Luks,
    LvmPv,
    LvmVg,
    LvmLv,
}

/// Kind of a block device in a device stack.
#[derive(Debug, Clone, PartialEq, Eq, Hash)]
pub enum BlockDevType {
    Disk,
    Partition,
    UnknownBlock,
    Dm(DmType),
    Fs(String),
}

/// Mathematical model of a [`BlockDevType`].
pub enum Kind {
    Disk,
    Partition,
    UnknownBlock,
    Luks,
    LvmPv,
    LvmVg,
    LvmLv,
    Fs(Seq<char>),
}

impl View for BlockDevType {
    type V = Kind;

    open spec fn view(&self) -> Kind {
        match self {
            BlockDevType::Disk => Kind::Disk,
            BlockDevType::Partition => Kind::Partition,
            BlockDevType::UnknownBlock => Kind::UnknownBlock,
            BlockDevType::Dm(DmType::Luks) => Kind::Luks,
            BlockDevType::Dm(DmType::LvmPv) => Kind::LvmPv,
            BlockDevType::Dm(DmType::LvmVg) => Kind::LvmVg,
            BlockDevType::Dm(DmType::LvmLv) => Kind::LvmLv,
            BlockDevType::Fs(name) => Kind::Fs(name@),
        }
    }
}

/// Upper-case label of a kind.
pub open spec fn label_of(k: Kind) -> Seq<char> {
    match k {
        Kind::Disk => "DISK"@,
        Kind::Partition => "PARTITION"@,
        Kind::UnknownBlock => "UNKNOWN_FS_BASE"@,
        Kind::Luks => "DM_LUKS"@,
        Kind::LvmPv => "DM_LVM PV"@,
        Kind::LvmVg => "DM_LVM VG"@,
        Kind::LvmLv => "DM_LVM LV"@,
        Kind::Fs(name) => "FS_"@ + name,
    }
}

/// A device of this kind may carry a filesystem or swap.
pub open spec fn fs_base(k: Kind) -> bool {
    k is Disk || k is Partition || k is UnknownBlock || k is Luks || k is LvmLv
}

/// A device of this kind may be initialised as an LVM physical volume.
pub open spec fn pv_base(k: Kind) -> bool {
    k is Disk || k is Partition || k is UnknownBlock || k is Luks
}

/// A device of this kind may join a volume group.
pub open spec fn vg_base(k: Kind) -> bool {
    k is LvmPv
}

/// A device of this kind may be carved into logical volumes.
pub open spec fn lv_base(k: Kind) -> bool {
    k is LvmVg
}

/// A device of this kind may be encrypted with LUKS.
pub open spec fn luks_base(k: Kind) -> bool {
    k is Disk || k is Partition || k is UnknownBlock || k is LvmLv
}

/// A node of kind `upper` may be built directly on a node of kind `lower`.
pub open spec fn edge_ok(lower: Kind, upper: Kind) -> bool {
    match upper {
        Kind::Partition => lower is Disk,
        Kind::Luks => luks_base(lower),
        Kind::LvmPv => pv_base(lower),
        Kind::LvmVg => vg_base(lower),
        Kind::LvmLv => lv_base(lower),
        _ => false,
    }
}

/// Whether a filesystem or swap may be put on a device of this kind.
pub fn is_fs_base(dev_type: &BlockDevType) -> (b: bool)
    ensures
        b == fs_base(dev_type@),
{
    match dev_type {
        BlockDevType::Disk => true,
        BlockDevType::Partition => true,
        BlockDevType::UnknownBlock => true,
        BlockDevType::Dm(DmType::Luks) => true,
        BlockDevType::Dm(DmType::LvmLv) => true,
        _ => false,
    }
}

/// Whether a device of this kind may be encrypted with LUKS.
pub fn is_luks_base(dev_type: &BlockDevType) -> (b: bool)
    ensures
        b == luks_base(dev_type@),
{
    match dev_type {
        BlockDevType::UnknownBlock => true,
        BlockDevType::Disk => true,
        BlockDevType::Partition => true,
        BlockDevType::Dm(DmType::LvmLv) => true,
        _ => false,
    }
}

/// Whether a device of this kind may become an LVM physical volume.
pub fn is_pv_base(dev_type: &BlockDevType) -> (b: bool)
    ensures
        b == pv_base(dev_type@),
{
    match dev_type {
        BlockDevType::UnknownBlock => true,
        BlockDevType::Disk => true,
        BlockDevType::Partition => true,
        BlockDevType::Dm(DmType::Luks) => true,
        _ => false,
    }
}

/// Whether a device of this kind may join a volume group.
pub fn is_vg_base(dev_type: &BlockDevType) -> (b: bool)
    ensures
        b == vg_base(dev_type@),
{
    match dev_type {
        BlockDevType::Dm(DmType::LvmPv) => true,
        _ => false,
    }
}

/// Whether logical volumes may be carved out of a device of this kind.
pub fn is_lv_base(dev_type: &BlockDevType) -> (b: bool)
    ensures
        b == lv_base(dev_type@),
{
    match dev_type {
        BlockDevType::Dm(DmType::LvmVg) => true,
        _ => false,
    }
}

/// Whether the kind is an LVM logical volume.
pub fn is_lv(dev_type: &BlockDevType) -> (b: bool)
    ensures
        b == (dev_type@ is LvmLv),
{
    match dev_type {
        BlockDevType::Dm(DmType::LvmLv) => true,
        _ => false,
    }
}

impl BlockDevType {
    /// A copy of this kind.
    pub fn duplicate(&self) -> (k: BlockDevType)
        ensures
            k@ == self@,
    {
        match self {
            BlockDevType::Disk => BlockDevType::Disk,
            BlockDevType::Partition => BlockDevType::Partition,
            BlockDevType::UnknownBlock => BlockDevType::UnknownBlock,
            BlockDevType::Dm(DmType::Luks) => BlockDevType::Dm(DmType::Luks),
            BlockDevType::Dm(DmType::LvmPv) => BlockDevType::Dm(DmType::LvmPv),
            BlockDevType::Dm(DmType::LvmVg) => BlockDevType::Dm(DmType::LvmVg),
            BlockDevType::Dm(DmType::LvmLv) => BlockDevType::Dm(DmType::LvmLv),
            BlockDevType::Fs(name) => BlockDevType::Fs(name.clone()),
        }
    }

    /// Upper-case label of the kind, as diagnostics print it.
    pub fn label(&self) -> (s: String)
        ensures
            s@ == label_of(self@),
    {
        match self {
            BlockDevType::Disk => String::from_str("DISK"),
            BlockDevType::Partition => String::from_str("PARTITION"),
            BlockDevType::UnknownBlock => String::from_str("UNKNOWN_FS_BASE"),
            BlockDevType::Dm(DmType::Luks) => String::from_str("DM_LUKS"),
            BlockDevType::Dm(DmType::LvmPv) => String::from_str("DM_LVM PV"),
            BlockDevType::Dm(DmType::LvmVg) => String::from_str("DM_LVM VG"),
            BlockDevType::Dm(DmType::LvmLv) => String::from_str("DM_LVM LV"),
            BlockDevType::Fs(name) => crate::text::concat("FS_", name.as_str()),
        }
    }
}

/// A block device: its path and its kind.
#[derive(Debug, Clone, PartialEq, Eq, Hash)]
pub struct BlockDev {
    pub device: String,
    pub device_type: BlockDevType,
}

/// Mathematical model of a [`BlockDev`].
pub struct Dev {
    pub device: Seq<char>,
    pub kind: Kind,
}

impl View for BlockDev {
    type V = Dev;

    open spec fn view(&self) -> Dev {
        Dev { device: self.device@, kind: self.device_type@ }
    }
}

impl BlockDev {
    /// A copy of this device.
    pub fn duplicate(&self) -> (d: BlockDev)
        ensures
            d@ == self@,
    {
        BlockDev { device: self.device.clone(), device_type: self.device_type.duplicate() }
    }
}

/// Model of a device stack, base first.
pub open spec fn path_view(p: Seq<BlockDev>) -> Seq<Dev> {
    Seq::new(p.len(), |i: int| p[i]@)
}

/// Model of a collection of device stacks.
pub open spec fn paths_view(s: Seq<Vec<BlockDev>>) -> Seq<Seq<Dev>> {
    Seq::new(s.len(), |i: int| path_view(s[i]@))
}

/// A copy of a device stack.
pub fn clone_path(p: &Vec<BlockDev>) -> (q: Vec<BlockDev>)
    ensures
        path_view(q@) == path_view(p@),
{
    let mut q: Vec<BlockDev> = Vec::new();
    let mut i: usize = 0;
    while i < p.len()
        invariant
            i <= p.len(),
            q@.len() == i,
            forall|j: int| 0 <= j < i ==> q@[j]@ == p@[j]@,
        decreases p.len() - i,
    {
        q.push(p[i].duplicate());
        i += 1;
    }
    assert(path_view(q@) =~= path_view(p@));
    q
}

/// Every node but the base is built on a legal kind of base.
pub open spec fn well_typed(p: Seq<Dev>) -> bool {
    forall|i: int| 0 <= i < p.len() - 1 ==> edge_ok(#[trigger] p[i].kind, p[i + 1].kind)
}

/// Every stack of a collection is well typed.
pub open spec fn all_well_typed(s: Seq<Seq<Dev>>) -> bool {
    forall|i: int| 0 <= i < s.len() ==> well_typed(#[trigger] s[i])
}

} // verus!
