use vstd::prelude::*;
use crate::blockdev::{BlockDev, Dev, Kind, paths_view, luks_base, fs_base};

verus! {

/// Every LVM stack the scanner found on one physical volume.
#[derive(Debug)]
pub struct SysLvm {
    pub pv: String,
    pub paths: Vec<Vec<BlockDev>>,
}

/// Mathematical model of a [`SysLvm`].
pub struct LvmEntry {
    pub pv: Seq<char>,
    pub paths: Seq<Seq<Dev>>,
}

impl View for SysLvm {
    type V = LvmEntry;

    open spec fn view(&self) -> LvmEntry {
        LvmEntry { pv: self.pv@, paths: paths_view(self.paths@) }
    }
}

/// Model of the scanner's LVM table.
pub open spec fn lvms_view(s: Seq<SysLvm>) -> Seq<LvmEntry> {
    Seq::new(s.len(), |i: int| s[i]@)
}

/// Model of a list of names.
pub open spec fn names_view(s: Seq<String>) -> Seq<Seq<char>> {
    Seq::new(s.len(), |i: int| s[i]@)
}

/// What validation only reads: devices that already carry a filesystem, and
/// the paths that exist as files on the host.
pub struct Host {
    pub fs_devs: Seq<Dev>,
    pub files: Seq<Seq<char>>,
}

/// What validation builds and consumes: the manifest-derived store, the
/// devices still free to carry a filesystem, and the scanned LVM stacks.
pub struct Stacks {
    pub store: Seq<Seq<Dev>>,
    pub ready: Seq<Dev>,
    pub lvms: Seq<LvmEntry>,
}

/// A way of choosing stacks by their upper end.
pub enum Pick {
    /// The tip has this device path.
    TipNamed(Seq<char>),
    /// The tip is exactly this device.
    TipIs(Dev),
    /// The tip is the logical volume `0`, sitting directly on volume group `1`.
    LuksRoute(Seq<char>, Seq<char>),
    /// The tip has this device path and may not be encrypted.
    BadLuksBase(Seq<char>),
    /// The tip has this device path and may carry a filesystem.
    FsTip(Seq<char>),
}

/// Executable counterpart of [`Pick`].
pub enum Select {
    TipNamed(String),
    TipIs(BlockDev),
    LuksRoute(String, String),
    BadLuksBase(String),
    FsTip(String),
}

impl View for Select {
    type V = Pick;

    open spec fn view(&self) -> Pick {
        match self {
            Select::TipNamed(n) => Pick::TipNamed(n@),
            Select::TipIs(d) => Pick::TipIs(d@),
            Select::LuksRoute(lv, vg) => Pick::LuksRoute(lv@, vg@),
            Select::BadLuksBase(n) => Pick::BadLuksBase(n@),
            Select::FsTip(n) => Pick::FsTip(n@),
        }
    }
}

/// The node directly below the tip.
pub open spec fn below_tip(p: Seq<Dev>) -> Dev
    recommends
        p.len() >= 2,
{
    p[p.len() - 2]
}

/// Whether `pick` chooses the stack `p`. An empty stack is never chosen.
pub open spec fn picks(pick: Pick, p: Seq<Dev>) -> bool {
    p.len() > 0 && match pick {
        Pick::TipNamed(n) => p.last().device == n,
        Pick::TipIs(d) => p.last() == d,
        Pick::LuksRoute(lv, vg) => p.last() == (Dev { device: lv, kind: Kind::LvmLv })
            && p.len() >= 2 && below_tip(p) == (Dev { device: vg, kind: Kind::LvmVg }),
        Pick::BadLuksBase(n) => p.last().device == n && !luks_base(p.last().kind),
        Pick::FsTip(n) => p.last().device == n && fs_base(p.last().kind),
    }
}

/// Some device of the list has this path.
pub open spec fn has_dev(devs: Seq<Dev>, name: Seq<char>) -> bool {
    exists|i: int| 0 <= i < devs.len() && (#[trigger] devs[i]).device == name
}

/// The list without the devices of this path, order kept.
pub open spec fn without(devs: Seq<Dev>, name: Seq<char>) -> Seq<Dev>
    decreases devs.len(),
{
    if devs.len() == 0 {
        devs
    } else if devs.last().device == name {
        without(devs.drop_last(), name)
    } else {
        without(devs.drop_last(), name).push(devs.last())
    }
}

/// Index of the first stack at or after `from` that `pick` chooses, or the
/// number of stacks if there is none.
pub open spec fn first_pick(paths: Seq<Seq<Dev>>, pick: Pick, from: int) -> int
    decreases paths.len() - from,
{
    if from < 0 || from >= paths.len() {
        paths.len() as int
    } else if picks(pick, paths[from]) {
        from
    } else {
        first_pick(paths, pick, from + 1)
    }
}

/// Some stack is chosen by `pick`.
pub open spec fn any_pick(paths: Seq<Seq<Dev>>, pick: Pick) -> bool {
    first_pick(paths, pick, 0) < paths.len()
}

/// For each chosen stack at or after `from`, in order, a copy with `node` on top.
pub open spec fn grown(paths: Seq<Seq<Dev>>, pick: Pick, node: Dev, from: int) -> Seq<Seq<Dev>>
    decreases paths.len() - from,
{
    if from < 0 || from >= paths.len() {
        Seq::empty()
    } else if picks(pick, paths[from]) {
        seq![paths[from].push(node)] + grown(paths, pick, node, from + 1)
    } else {
        grown(paths, pick, node, from + 1)
    }
}

/// The same stacks, with `node` put on top of every chosen one.
pub open spec fn extended(paths: Seq<Seq<Dev>>, pick: Pick, node: Dev) -> Seq<Seq<Dev>> {
    Seq::new(
        paths.len(),
        |i: int|
            if picks(pick, paths[i]) {
                paths[i].push(node)
            } else {
                paths[i]
            },
    )
}

/// The same stacks, with every chosen one emptied.
pub open spec fn cleared(paths: Seq<Seq<Dev>>, pick: Pick) -> Seq<Seq<Dev>> {
    Seq::new(
        paths.len(),
        |i: int|
            if picks(pick, paths[i]) {
                Seq::empty()
            } else {
                paths[i]
            },
    )
}

/// Index of the first entry at or after `from` that holds a chosen stack, or
/// the number of entries if there is none.
pub open spec fn lvm_first(lvms: Seq<LvmEntry>, pick: Pick, from: int) -> int
    decreases lvms.len() - from,
{
    if from < 0 || from >= lvms.len() {
        lvms.len() as int
    } else if any_pick(lvms[from].paths, pick) {
        from
    } else {
        lvm_first(lvms, pick, from + 1)
    }
}

/// Some stack of some entry is chosen by `pick`.
pub open spec fn lvm_any(lvms: Seq<LvmEntry>, pick: Pick) -> bool {
    lvm_first(lvms, pick, 0) < lvms.len()
}

/// [`grown`] over the stacks of every entry at or after `from`, in order.
pub open spec fn lvm_grown(lvms: Seq<LvmEntry>, pick: Pick, node: Dev, from: int) -> Seq<Seq<Dev>>
    decreases lvms.len() - from,
{
    if from < 0 || from >= lvms.len() {
        Seq::empty()
    } else {
        grown(lvms[from].paths, pick, node, 0) + lvm_grown(lvms, pick, node, from + 1)
    }
}

/// The same entries, with every chosen stack emptied.
pub open spec fn lvm_cleared(lvms: Seq<LvmEntry>, pick: Pick) -> Seq<LvmEntry> {
    Seq::new(
        lvms.len(),
        |i: int| LvmEntry { pv: lvms[i].pv, paths: cleared(lvms[i].paths, pick) },
    )
}

/// The same entries, with stack `j` of entry `e` emptied.
pub open spec fn lvm_cleared_at(lvms: Seq<LvmEntry>, e: int, j: int) -> Seq<LvmEntry> {
    lvms.update(e, LvmEntry { pv: lvms[e].pv, paths: lvms[e].paths.update(j, Seq::empty()) })
}

/// The first volume group of the stack `p` at or after `from`; where a
/// physical volume `on` is named, the first that stands directly on it.
pub open spec fn vg_in(p: Seq<Dev>, on: Option<Seq<char>>, from: int) -> Option<Seq<char>>
    decreases p.len() - from,
{
    if from < 0 || from >= p.len() {
        None
    } else if p[from].kind is LvmVg && (on is None || (from >= 1 && p[from - 1] == (Dev {
        device: on.unwrap(),
        kind: Kind::LvmPv,
    }))) {
        Some(p[from].device)
    } else {
        vg_in(p, on, from + 1)
    }
}

/// What [`vg_in`] finds in the first stack at or after `from` in which it
/// finds anything.
pub open spec fn vg_among(paths: Seq<Seq<Dev>>, on: Option<Seq<char>>, from: int) -> Option<
    Seq<char>,
>
    decreases paths.len() - from,
{
    if from < 0 || from >= paths.len() {
        None
    } else if vg_in(paths[from], on, 0) is Some {
        vg_in(paths[from], on, 0)
    } else {
        vg_among(paths, on, from + 1)
    }
}

/// The volume group that the scanner found on the physical volume `pv`:
/// the first in the first entry of `pv`, at or after `from`, that holds one.
pub open spec fn group_on(lvms: Seq<LvmEntry>, pv: Seq<char>, from: int) -> Option<Seq<char>>
    decreases lvms.len() - from,
{
    if from < 0 || from >= lvms.len() {
        None
    } else if lvms[from].pv == pv && vg_among(lvms[from].paths, None, 0) is Some {
        vg_among(lvms[from].paths, None, 0)
    } else {
        group_on(lvms, pv, from + 1)
    }
}

/// The scanner found a volume group on the physical volume `pv`.
pub open spec fn pv_in_vg(lvms: Seq<LvmEntry>, pv: Seq<char>) -> bool {
    group_on(lvms, pv, 0) is Some
}

/// Where the list holds a device of this path first at or after `from`, or
/// its length.
pub open spec fn first_dev(devs: Seq<Dev>, name: Seq<char>, from: int) -> int
    decreases devs.len() - from,
{
    if from < 0 || from >= devs.len() {
        devs.len() as int
    } else if devs[from].device == name {
        from
    } else {
        first_dev(devs, name, from + 1)
    }
}

/// The kind under which the list holds the device of this path first.
pub open spec fn kind_in(devs: Seq<Dev>, name: Seq<char>) -> Kind {
    devs[first_dev(devs, name, 0)].kind
}

/// A new stack of an unverified base and one node on it.
pub open spec fn fresh_pair(base: Seq<char>, node: Dev) -> Seq<Dev> {
    seq![Dev { device: base, kind: Kind::UnknownBlock }, node]
}

} // verus!
