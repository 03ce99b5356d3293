use vstd::prelude::*;
use vstd::string::*;
use crate::blockdev::{
    clone_path, fs_base, is_fs_base, is_luks_base, is_lv, is_lv_base, is_pv_base, is_vg_base,
    luks_base, lv_base, path_view, paths_view, pv_base, vg_base, BlockDev, BlockDevType, Dev,
    DmType, Kind,
};
use crate::state::{
    any_pick, cleared, extended, first_pick, fresh_pair, grown, has_dev, lvm_cleared,
    first_dev, group_on, lvm_cleared_at, lvm_first, lvm_grown, lvms_view, names_view, picks,
    pv_in_vg, vg_among, vg_in, without, Pick, Select, SysLvm,
};
use crate::errors::{bad_manifest, refused, NayiError};
use crate::text::same;

verus! {

/// Whether two kinds are the same.
pub fn same_kind(a: &BlockDevType, b: &BlockDevType) -> (r: bool)
    ensures
        r == (a@ == b@),
{
    match (a, b) {
        (BlockDevType::Disk, BlockDevType::Disk) => true,
        (BlockDevType::Partition, BlockDevType::Partition) => true,
        (BlockDevType::UnknownBlock, BlockDevType::UnknownBlock) => true,
        (BlockDevType::Dm(DmType::Luks), BlockDevType::Dm(DmType::Luks)) => true,
        (BlockDevType::Dm(DmType::LvmPv), BlockDevType::Dm(DmType::LvmPv)) => true,
        (BlockDevType::Dm(DmType::LvmVg), BlockDevType::Dm(DmType::LvmVg)) => true,
        (BlockDevType::Dm(DmType::LvmLv), BlockDevType::Dm(DmType::LvmLv)) => true,
        (BlockDevType::Fs(x), BlockDevType::Fs(y)) => same(x.as_str(), y.as_str()),
        _ => false,
    }
}

/// Whether two devices have the same path and kind.
pub fn same_dev(a: &BlockDev, b: &BlockDev) -> (r: bool)
    ensures
        r == (a@ == b@),
{
    same(a.device.as_str(), b.device.as_str()) && same_kind(&a.device_type, &b.device_type)
}

/// Whether `sel` chooses the stack `p`.
pub fn selects(sel: &Select, p: &Vec<BlockDev>) -> (r: bool)
    ensures
        r == picks(sel@, path_view(p@)),
{
    let n = p.len();
    if n == 0 {
        return false;
    }
    let tip = &p[n - 1];
    match sel {
        Select::TipNamed(name) => same(tip.device.as_str(), name.as_str()),
        Select::TipIs(d) => same_dev(tip, d),
        Select::LuksRoute(lv, vg) => is_lv(&tip.device_type) && same(
            tip.device.as_str(),
            lv.as_str(),
        ) && n >= 2 && is_lv_base(&p[n - 2].device_type) && same(
            p[n - 2].device.as_str(),
            vg.as_str(),
        ),
        Select::BadLuksBase(name) => same(tip.device.as_str(), name.as_str()) && !is_luks_base(
            &tip.device_type,
        ),
        Select::FsTip(name) => same(tip.device.as_str(), name.as_str()) && is_fs_base(
            &tip.device_type,
        ),
    }
}

/// Index of the first stack that `sel` chooses, or the number of stacks.
pub fn find_first(paths: &Vec<Vec<BlockDev>>, sel: &Select) -> (r: usize)
    ensures
        r == first_pick(paths_view(paths@), sel@, 0),
        r <= paths.len(),
        r < paths.len() ==> picks(sel@, paths_view(paths@)[r as int]),
{
    let mut i: usize = 0;
    while i < paths.len()
        invariant
            i <= paths.len(),
            first_pick(paths_view(paths@), sel@, 0) == first_pick(
                paths_view(paths@),
                sel@,
                i as int,
            ),
        decreases paths.len() - i,
    {
        if selects(sel, &paths[i]) {
            return i;
        }
        i += 1;
    }
    i
}

/// Pushes onto `out`, for every stack of `paths` that `sel` chooses, a copy
/// with `node` on top.
pub fn grow(
    out: &mut Vec<Vec<BlockDev>>,
    paths: &Vec<Vec<BlockDev>>,
    sel: &Select,
    node: &BlockDev,
)
    ensures
        paths_view(final(out)@) == paths_view(old(out)@) + grown(
            paths_view(paths@),
            sel@,
            node@,
            0,
        ),
{
    let ghost start = paths_view(out@);
    let ghost pv = paths_view(paths@);
    let mut i: usize = 0;
    while i < paths.len()
        invariant
            i <= paths.len(),
            pv == paths_view(paths@),
            paths_view(out@) + grown(pv, sel@, node@, i as int) == start + grown(
                pv,
                sel@,
                node@,
                0,
            ),
        decreases paths.len() - i,
    {
        let ghost before = paths_view(out@);
        if selects(sel, &paths[i]) {
            let mut q = clone_path(&paths[i]);
            q.push(node.duplicate());
            assert(path_view(q@) =~= pv[i as int].push(node@));
            out.push(q);
            assert(paths_view(out@) =~= before.push(pv[i as int].push(node@)));
            assert(before.push(pv[i as int].push(node@)) + grown(pv, sel@, node@, i + 1)
                =~= before + grown(pv, sel@, node@, i as int));
        }
        i += 1;
    }
    assert(paths_view(out@) + grown(pv, sel@, node@, i as int) =~= paths_view(out@));
}

/// A copy of `paths` with `node` put on top of every stack that `sel` chooses.
pub fn extended_copy(paths: &Vec<Vec<BlockDev>>, sel: &Select, node: &BlockDev) -> (out: Vec<
    Vec<BlockDev>,
>)
    ensures
        paths_view(out@) == extended(paths_view(paths@), sel@, node@),
{
    let ghost pv = paths_view(paths@);
    let mut out: Vec<Vec<BlockDev>> = Vec::new();
    let mut i: usize = 0;
    while i < paths.len()
        invariant
            i <= paths.len(),
            pv == paths_view(paths@),
            out@.len() == i,
            forall|j: int| 0 <= j < i ==> path_view(#[trigger] out@[j]@) == extended(pv, sel@, node@)[j],
        decreases paths.len() - i,
    {
        let mut q = clone_path(&paths[i]);
        if selects(sel, &paths[i]) {
            q.push(node.duplicate());
            assert(path_view(q@) =~= pv[i as int].push(node@));
        }
        out.push(q);
        i += 1;
    }
    assert(paths_view(out@) =~= extended(pv, sel@, node@));
    out
}

/// A copy of `paths` with every stack that `sel` chooses emptied.
pub fn cleared_copy(paths: &Vec<Vec<BlockDev>>, sel: &Select) -> (out: Vec<Vec<BlockDev>>)
    ensures
        paths_view(out@) == cleared(paths_view(paths@), sel@),
{
    let ghost pv = paths_view(paths@);
    let mut out: Vec<Vec<BlockDev>> = Vec::new();
    let mut i: usize = 0;
    while i < paths.len()
        invariant
            i <= paths.len(),
            pv == paths_view(paths@),
            out@.len() == i,
            forall|j: int| 0 <= j < i ==> path_view(#[trigger] out@[j]@) == cleared(pv, sel@)[j],
        decreases paths.len() - i,
    {
        if selects(sel, &paths[i]) {
            let q: Vec<BlockDev> = Vec::new();
            assert(path_view(q@) =~= Seq::<Dev>::empty());
            out.push(q);
        } else {
            out.push(clone_path(&paths[i]));
        }
        i += 1;
    }
    assert(paths_view(out@) =~= cleared(pv, sel@));
    out
}

/// A copy of `paths` with stack `at` emptied.
pub fn cleared_at_copy(paths: &Vec<Vec<BlockDev>>, at: usize) -> (out: Vec<Vec<BlockDev>>)
    requires
        at < paths.len(),
    ensures
        paths_view(out@) == paths_view(paths@).update(at as int, Seq::empty()),
{
    let ghost pv = paths_view(paths@);
    let mut out: Vec<Vec<BlockDev>> = Vec::new();
    let mut i: usize = 0;
    while i < paths.len()
        invariant
            i <= paths.len(),
            at < paths.len(),
            pv == paths_view(paths@),
            out@.len() == i,
            forall|j: int|
                0 <= j < i ==> path_view(#[trigger] out@[j]@) == pv.update(
                    at as int,
                    Seq::empty(),
                )[j],
        decreases paths.len() - i,
    {
        if i == at {
            let q: Vec<BlockDev> = Vec::new();
            assert(path_view(q@) =~= Seq::<Dev>::empty());
            out.push(q);
        } else {
            out.push(clone_path(&paths[i]));
        }
        i += 1;
    }
    assert(paths_view(out@) =~= pv.update(at as int, Seq::empty()));
    out
}

/// Index of the first entry with a stack that `sel` chooses, or the number
/// of entries.
pub fn lvm_find(lvms: &Vec<SysLvm>, sel: &Select) -> (r: usize)
    ensures
        r == lvm_first(lvms_view(lvms@), sel@, 0),
        r <= lvms.len(),
        r < lvms.len() ==> any_pick(lvms_view(lvms@)[r as int].paths, sel@),
{
    let mut e: usize = 0;
    while e < lvms.len()
        invariant
            e <= lvms.len(),
            lvm_first(lvms_view(lvms@), sel@, 0) == lvm_first(lvms_view(lvms@), sel@, e as int),
        decreases lvms.len() - e,
    {
        if find_first(&lvms[e].paths, sel) < lvms[e].paths.len() {
            return e;
        }
        e += 1;
    }
    e
}

/// [`grow`] with the stacks of every entry, in order.
pub fn lvm_grow(out: &mut Vec<Vec<BlockDev>>, lvms: &Vec<SysLvm>, sel: &Select, node: &BlockDev)
    ensures
        paths_view(final(out)@) == paths_view(old(out)@) + lvm_grown(
            lvms_view(lvms@),
            sel@,
            node@,
            0,
        ),
{
    let ghost start = paths_view(out@);
    let ghost lv = lvms_view(lvms@);
    let mut e: usize = 0;
    while e < lvms.len()
        invariant
            e <= lvms.len(),
            lv == lvms_view(lvms@),
            paths_view(out@) + lvm_grown(lv, sel@, node@, e as int) == start + lvm_grown(
                lv,
                sel@,
                node@,
                0,
            ),
        decreases lvms.len() - e,
    {
        let ghost before = paths_view(out@);
        grow(out, &lvms[e].paths, sel, node);
        assert((before + grown(lv[e as int].paths, sel@, node@, 0)) + lvm_grown(
            lv,
            sel@,
            node@,
            e + 1,
        ) =~= before + lvm_grown(lv, sel@, node@, e as int));
        e += 1;
    }
    assert(paths_view(out@) + lvm_grown(lv, sel@, node@, e as int) =~= paths_view(out@));
}

/// A copy of the table with every stack that `sel` chooses emptied.
pub fn lvm_cleared_copy(lvms: &Vec<SysLvm>, sel: &Select) -> (out: Vec<SysLvm>)
    ensures
        lvms_view(out@) == lvm_cleared(lvms_view(lvms@), sel@),
{
    let ghost lv = lvms_view(lvms@);
    let mut out: Vec<SysLvm> = Vec::new();
    let mut e: usize = 0;
    while e < lvms.len()
        invariant
            e <= lvms.len(),
            lv == lvms_view(lvms@),
            out@.len() == e,
            forall|j: int| 0 <= j < e ==> (#[trigger] out@[j])@ == lvm_cleared(lv, sel@)[j],
        decreases lvms.len() - e,
    {
        out.push(SysLvm { pv: lvms[e].pv.clone(), paths: cleared_copy(&lvms[e].paths, sel) });
        e += 1;
    }
    assert(lvms_view(out@) =~= lvm_cleared(lv, sel@));
    out
}

/// A copy of the table with stack `j` of entry `at` emptied.
pub fn lvm_cleared_at_copy(lvms: &Vec<SysLvm>, at: usize, j: usize) -> (out: Vec<SysLvm>)
    requires
        at < lvms.len(),
        j < lvms[at as int].paths.len(),
    ensures
        lvms_view(out@) == lvm_cleared_at(lvms_view(lvms@), at as int, j as int),
{
    let ghost lv = lvms_view(lvms@);
    let ghost goal = lvm_cleared_at(lv, at as int, j as int);
    let mut out: Vec<SysLvm> = Vec::new();
    let mut e: usize = 0;
    while e < lvms.len()
        invariant
            e <= lvms.len(),
            at < lvms.len(),
            j < lvms[at as int].paths.len(),
            lv == lvms_view(lvms@),
            goal == lvm_cleared_at(lv, at as int, j as int),
            out@.len() == e,
            forall|k: int| 0 <= k < e ==> (#[trigger] out@[k])@ == goal[k],
        decreases lvms.len() - e,
    {
        if e == at {
            out.push(SysLvm { pv: lvms[e].pv.clone(), paths: cleared_at_copy(&lvms[e].paths, j) });
        } else {
            let kept = clone_paths(&lvms[e].paths);
            out.push(SysLvm { pv: lvms[e].pv.clone(), paths: kept });
        }
        e += 1;
    }
    assert(lvms_view(out@) =~= goal);
    out
}

/// Puts `node` on top of stack `at`.
pub fn append_at(paths: &mut Vec<Vec<BlockDev>>, at: usize, node: BlockDev)
    requires
        at < old(paths).len(),
    ensures
        paths_view(final(paths)@) == paths_view(old(paths)@).update(
            at as int,
            paths_view(old(paths)@)[at as int].push(node@),
        ),
{
    let ghost before = paths_view(paths@);
    let mut q = clone_path(&paths[at]);
    q.push(node);
    assert(path_view(q@) =~= before[at as int].push(node@));
    paths.set(at, q);
    assert(paths_view(paths@) =~= before.update(at as int, before[at as int].push(node@)));
}

/// Pushes a copy of `path` with `node` on top.
pub fn push_grown(paths: &mut Vec<Vec<BlockDev>>, path: &Vec<BlockDev>, node: BlockDev)
    ensures
        paths_view(final(paths)@) == paths_view(old(paths)@).push(path_view(path@).push(node@)),
{
    let ghost before = paths_view(paths@);
    let mut q = clone_path(path);
    q.push(node);
    assert(path_view(q@) =~= path_view(path@).push(node@));
    paths.push(q);
    assert(paths_view(paths@) =~= before.push(path_view(path@).push(node@)));
}

/// Pushes a new stack: an unverified base named `base`, and `node` on it.
pub fn push_pair(paths: &mut Vec<Vec<BlockDev>>, base: &str, node: BlockDev)
    ensures
        paths_view(final(paths)@) == paths_view(old(paths)@).push(fresh_pair(base@, node@)),
{
    let ghost before = paths_view(paths@);
    let mut q: Vec<BlockDev> = Vec::new();
    q.push(BlockDev { device: String::from_str(base), device_type: BlockDevType::UnknownBlock });
    q.push(node);
    assert(path_view(q@) =~= fresh_pair(base@, node@));
    paths.push(q);
    assert(paths_view(paths@) =~= before.push(fresh_pair(base@, node@)));
}

/// A copy of a collection of stacks.
pub fn clone_paths(paths: &Vec<Vec<BlockDev>>) -> (out: Vec<Vec<BlockDev>>)
    ensures
        paths_view(out@) == paths_view(paths@),
{
    let mut out: Vec<Vec<BlockDev>> = Vec::new();
    let mut i: usize = 0;
    while i < paths.len()
        invariant
            i <= paths.len(),
            out@.len() == i,
            forall|j: int| 0 <= j < i ==> path_view(#[trigger] out@[j]@) == path_view(paths@[j]@),
        decreases paths.len() - i,
    {
        out.push(clone_path(&paths[i]));
        i += 1;
    }
    assert(paths_view(out@) =~= paths_view(paths@));
    out
}

/// A copy of the scanner's LVM table.
pub fn copy_lvms(lvms: &Vec<SysLvm>) -> (out: Vec<SysLvm>)
    ensures
        lvms_view(out@) == lvms_view(lvms@),
{
    let mut out: Vec<SysLvm> = Vec::new();
    let mut e: usize = 0;
    while e < lvms.len()
        invariant
            e <= lvms.len(),
            out@.len() == e,
            forall|k: int| 0 <= k < e ==> (#[trigger] out@[k])@ == lvms@[k]@,
        decreases lvms.len() - e,
    {
        out.push(SysLvm { pv: lvms[e].pv.clone(), paths: clone_paths(&lvms[e].paths) });
        e += 1;
    }
    assert(lvms_view(out@) =~= lvms_view(lvms@));
    out
}

/// Whether some device of the list has this path.
pub fn has_device(devs: &Vec<BlockDev>, name: &str) -> (r: bool)
    ensures
        r == has_dev(path_view(devs@), name@),
{
    let mut i: usize = 0;
    while i < devs.len()
        invariant
            i <= devs.len(),
            forall|j: int| 0 <= j < i ==> (#[trigger] path_view(devs@)[j]).device != name@,
        decreases devs.len() - i,
    {
        if same(devs[i].device.as_str(), name) {
            assert(path_view(devs@)[i as int].device == name@);
            return true;
        }
        i += 1;
    }
    false
}

/// A copy of the list without the devices of this path.
pub fn without_copy(devs: &Vec<BlockDev>, name: &str) -> (out: Vec<BlockDev>)
    ensures
        path_view(out@) == without(path_view(devs@), name@),
{
    let ghost dv = path_view(devs@);
    let mut out: Vec<BlockDev> = Vec::new();
    let mut i: usize = 0;
    assert(path_view(out@) =~= without(dv.take(0), name@));
    while i < devs.len()
        invariant
            i <= devs.len(),
            dv == path_view(devs@),
            path_view(out@) == without(dv.take(i as int), name@),
        decreases devs.len() - i,
    {
        let ghost before = path_view(out@);
        assert(dv.take(i + 1).drop_last() =~= dv.take(i as int));
        if !same(devs[i].device.as_str(), name) {
            out.push(devs[i].duplicate());
            assert(path_view(out@) =~= before.push(dv[i as int]));
        }
        i += 1;
    }
    assert(dv.take(i as int) =~= dv);
    out
}

/// Whether the list of names holds `name`.
pub fn listed(names: &Vec<String>, name: &str) -> (r: bool)
    ensures
        r == names_view(names@).contains(name@),
{
    let mut i: usize = 0;
    while i < names.len()
        invariant
            i <= names.len(),
            forall|j: int| 0 <= j < i ==> names_view(names@)[j] != name@,
        decreases names.len() - i,
    {
        if same(names[i].as_str(), name) {
            assert(names_view(names@)[i as int] == name@);
            return true;
        }
        i += 1;
    }
    false
}

fn find_vg(p: &Vec<BlockDev>, on: Option<&str>) -> (r: Option<String>)
    ensures
        match r {
            Some(s) => vg_in(path_view(p@), on_view(on), 0) == Some(s@),
            None => vg_in(path_view(p@), on_view(on), 0) is None,
        },
{
    let mut k: usize = 0;
    while k < p.len()
        invariant
            k <= p.len(),
            vg_in(path_view(p@), on_view(on), 0) == vg_in(path_view(p@), on_view(on), k as int),
        decreases p.len() - k,
    {
        if is_lv_base(&p[k].device_type) {
            let stands = match on {
                None => true,
                Some(pv) => k >= 1 && is_vg_base(&p[k - 1].device_type) && same(
                    p[k - 1].device.as_str(),
                    pv,
                ),
            };
            if stands {
                return Some(p[k].device.clone());
            }
        }
        k += 1;
    }
    None
}

/// The path named by `on`, as a model.
pub open spec fn on_view(on: Option<&str>) -> Option<Seq<char>> {
    match on {
        Some(s) => Some(s@),
        None => None,
    }
}

/// The first volume group that a stack of `paths` holds; where a physical
/// volume `on` is named, the first that stands directly on it.
pub fn find_vg_among(paths: &Vec<Vec<BlockDev>>, on: Option<&str>) -> (r: Option<String>)
    ensures
        match r {
            Some(s) => vg_among(paths_view(paths@), on_view(on), 0) == Some(s@),
            None => vg_among(paths_view(paths@), on_view(on), 0) is None,
        },
{
    let mut j: usize = 0;
    while j < paths.len()
        invariant
            j <= paths.len(),
            vg_among(paths_view(paths@), on_view(on), 0) == vg_among(
                paths_view(paths@),
                on_view(on),
                j as int,
            ),
        decreases paths.len() - j,
    {
        match find_vg(&paths[j], on) {
            Some(s) => {
                return Some(s);
            },
            None => {},
        }
        j += 1;
    }
    None
}

/// The volume group that the scanner found on the physical volume `pv`.
pub fn pv_group(lvms: &Vec<SysLvm>, pv: &str) -> (r: Option<String>)
    ensures
        match r {
            Some(s) => group_on(lvms_view(lvms@), pv@, 0) == Some(s@),
            None => group_on(lvms_view(lvms@), pv@, 0) is None,
        },
{
    let mut e: usize = 0;
    while e < lvms.len()
        invariant
            e <= lvms.len(),
            group_on(lvms_view(lvms@), pv@, 0) == group_on(lvms_view(lvms@), pv@, e as int),
        decreases lvms.len() - e,
    {
        if same(lvms[e].pv.as_str(), pv) {
            match find_vg_among(&lvms[e].paths, None) {
                Some(s) => {
                    return Some(s);
                },
                None => {},
            }
        }
        e += 1;
    }
    None
}

/// Whether the scanner found a volume group on the physical volume `pv`.
pub fn pv_has_vg(lvms: &Vec<SysLvm>, pv: &str) -> (r: bool)
    ensures
        r == pv_in_vg(lvms_view(lvms@), pv@),
{
    pv_group(lvms, pv).is_some()
}

/// Where the list holds a device of this path first, or its length.
pub fn find_device(devs: &Vec<BlockDev>, name: &str) -> (r: usize)
    ensures
        r == first_dev(path_view(devs@), name@, 0),
        r <= devs.len(),
        r < devs.len() <==> has_dev(path_view(devs@), name@),
{
    let mut i: usize = 0;
    while i < devs.len()
        invariant
            i <= devs.len(),
            first_dev(path_view(devs@), name@, 0) == first_dev(path_view(devs@), name@, i as int),
            forall|j: int| 0 <= j < i ==> (#[trigger] path_view(devs@)[j]).device != name@,
        decreases devs.len() - i,
    {
        if same(devs[i].device.as_str(), name) {
            assert(path_view(devs@)[i as int].device == name@);
            return i;
        }
        i += 1;
    }
    i
}

/// What a new node wants of the device it is built on.
#[derive(Debug, Clone, Copy, PartialEq, Eq)]
pub enum Base {
    /// A filesystem or swap is built on it.
    Fs,
    /// An LVM physical volume is built on it.
    Pv,
    /// An LVM volume group is built on it.
    Vg,
    /// An LVM logical volume is built on it.
    Lv,
    /// A LUKS volume is built on it.
    Luks,
}

/// A device of kind `k` may be the base that `base` asks for.
pub open spec fn may_carry(base: Base, k: Kind) -> bool {
    match base {
        Base::Fs => fs_base(k),
        Base::Pv => pv_base(k),
        Base::Vg => vg_base(k),
        Base::Lv => lv_base(k),
        Base::Luks => luks_base(k),
    }
}

/// Whether a device of this kind may be the base that `base` asks for.
pub fn is_base(base: Base, dev_type: &BlockDevType) -> (r: bool)
    ensures
        r == may_carry(base, dev_type@),
{
    match base {
        Base::Fs => is_fs_base(dev_type),
        Base::Pv => is_pv_base(dev_type),
        Base::Vg => is_vg_base(dev_type),
        Base::Lv => is_lv_base(dev_type),
        Base::Luks => is_luks_base(dev_type),
    }
}

/// Puts `new_node` on the first stack whose tip has the path `tip_path`,
/// and tells whether there was such a stack. Where that tip is no legal
/// base for the node, nothing is appended and the manifest is refused.
pub fn append_if_tip_matches(
    paths: &mut Vec<Vec<BlockDev>>,
    tip_path: &str,
    base: Base,
    new_node: BlockDev,
) -> (res: Result<bool, NayiError>)
    ensures
        ({
            let before = paths_view(old(paths)@);
            let after = paths_view(final(paths)@);
            let i = first_pick(before, Pick::TipNamed(tip_path@), 0);
            match res {
                Ok(found) => {
                    &&& found == (i < before.len())
                    &&& found ==> may_carry(base, before[i].last().kind) && after == before.update(
                        i,
                        before[i].push(new_node@),
                    )
                    &&& !found ==> after == before
                },
                Err(e) => {
                    &&& i < before.len()
                    &&& !may_carry(base, before[i].last().kind)
                    &&& after == before
                    &&& e.fault() == refused("device "@, tip_path@, " is no legal base"@)
                },
            }
        }),
{
    let named = Select::TipNamed(String::from_str(tip_path));
    let i = find_first(paths, &named);
    if i >= paths.len() {
        return Ok(false);
    }
    let n = paths[i].len();
    if !is_base(base, &paths[i][n - 1].device_type) {
        return Err(bad_manifest("device ", tip_path, " is no legal base"));
    }
    append_at(paths, i, new_node);
    Ok(true)
}

/// The device paths of the tips of all stacks that are not empty, in order.
pub open spec fn tip_names(paths: Seq<Seq<Dev>>) -> Seq<Seq<char>>
    decreases paths.len(),
{
    if paths.len() == 0 {
        Seq::empty()
    } else if paths.last().len() == 0 {
        tip_names(paths.drop_last())
    } else {
        tip_names(paths.drop_last()).push(paths.last().last().device)
    }
}

/// The device paths of the tips of all stacks.
pub fn tips(paths: &Vec<Vec<BlockDev>>) -> (names: Vec<String>)
    ensures
        names_view(names@) == tip_names(paths_view(paths@)),
{
    let ghost pv = paths_view(paths@);
    let mut names: Vec<String> = Vec::new();
    let mut i: usize = 0;
    assert(names_view(names@) =~= tip_names(pv.take(0)));
    while i < paths.len()
        invariant
            i <= paths.len(),
            pv == paths_view(paths@),
            names_view(names@) == tip_names(pv.take(i as int)),
        decreases paths.len() - i,
    {
        assert(pv.take(i + 1).drop_last() =~= pv.take(i as int));
        let n = paths[i].len();
        if n > 0 {
            let ghost before = names_view(names@);
            names.push(paths[i][n - 1].device.clone());
            assert(names_view(names@) =~= before.push(pv[i as int].last().device));
        }
        i += 1;
    }
    assert(pv.take(i as int) =~= pv);
    names
}

} // verus!
