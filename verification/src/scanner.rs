use vstd::prelude::*;
use vstd::string::*;
use crate::blockdev::{
    all_well_typed, edge_ok, path_view, paths_view, well_typed, BlockDev, BlockDevType, Dev,
    DmType, Kind,
};
use crate::fscheck::ready_sound;
use crate::state::{lvms_view, names_view, LvmEntry, SysLvm};
use crate::text::{
    chars_of, concat, concat3, find_char, first_of, lines, matches_at, occurs_at, same, slice_of,
    split_chars, split_lines, split_words, string_of, words, Cut,
};

verus! {

/// The filesystem type that a word of `blkid`'s output tells, if it is the
/// tag `TYPE="..."`.
pub open spec fn type_of_word(w: Seq<char>) -> Option<Seq<char>> {
    let tag = "TYPE=\""@;
    if w.len() > tag.len() && occurs_at(w, tag, 0) && w.last() == '"' {
        Some(w.subrange(tag.len() as int, w.len() - 1))
    } else {
        None
    }
}

/// The filesystem type that the first such tag at or after `from` tells.
pub open spec fn type_among(ws: Seq<Seq<char>>, from: int) -> Option<Seq<char>>
    decreases ws.len() - from,
{
    if from < 0 || from >= ws.len() {
        None
    } else if type_of_word(ws[from]) is Some {
        type_of_word(ws[from])
    } else {
        type_among(ws, from + 1)
    }
}

/// What a line of `blkid`'s output tells: the device before the colon,
/// with the filesystem it carries, or of unverified kind if it carries none.
/// A line without a colon tells nothing.
pub open spec fn blkid_entry(line: Seq<char>) -> Option<Dev> {
    let colon = first_of(line, ':', 0);
    if colon >= line.len() {
        None
    } else {
        Some(
            Dev {
                device: line.subrange(0, colon),
                kind: match type_among(words(line.subrange(colon + 1, line.len() as int)), 0) {
                    Some(t) => Kind::Fs(t),
                    None => Kind::UnknownBlock,
                },
            },
        )
    }
}

/// The devices that the lines before `upto` tell: those that carry a
/// filesystem if `with_fs`, else those that carry none.
pub open spec fn blkid_devs(ls: Seq<Seq<char>>, with_fs: bool, upto: int) -> Seq<Dev>
    decreases upto,
{
    if upto <= 0 || upto > ls.len() {
        Seq::empty()
    } else {
        let front = blkid_devs(ls, with_fs, upto - 1);
        match blkid_entry(ls[upto - 1]) {
            Some(d) => if (d.kind is Fs) == with_fs {
                front.push(d)
            } else {
                front
            },
            None => front,
        }
    }
}

fn word_type(w: &str) -> (t: Option<String>)
    ensures
        match t {
            Some(s) => type_of_word(w@) == Some(s@),
            None => type_of_word(w@) is None,
        },
{
    let wv = chars_of(w);
    let tag = chars_of("TYPE=\"");
    let n = wv.len();
    if n > tag.len() && matches_at(&wv, &tag, 0) && wv[n - 1] == '"' {
        let value = slice_of(&wv, tag.len(), n - 1);
        Some(string_of(&value))
    } else {
        None
    }
}

fn find_type(ws: &Vec<String>) -> (t: Option<String>)
    ensures
        match t {
            Some(s) => type_among(names_view(ws@), 0) == Some(s@),
            None => type_among(names_view(ws@), 0) is None,
        },
{
    let mut i: usize = 0;
    while i < ws.len()
        invariant
            i <= ws.len(),
            type_among(names_view(ws@), 0) == type_among(names_view(ws@), i as int),
        decreases ws.len() - i,
    {
        match word_type(ws[i].as_str()) {
            Some(s) => {
                return Some(s);
            },
            None => {},
        }
        i += 1;
    }
    None
}

/// The device that a line of `blkid`'s output tells.
pub fn blkid_line(line: &str) -> (r: Option<BlockDev>)
    ensures
        match r {
            Some(d) => blkid_entry(line@) == Some(d@),
            None => blkid_entry(line@) is None,
        },
{
    let v = chars_of(line);
    let colon = find_char(&v, ':');
    if colon >= v.len() {
        return None;
    }
    let name = slice_of(&v, 0, colon);
    let rest = slice_of(&v, colon + 1, v.len());
    let ws = split_chars(&rest, Cut::Blanks);
    let device_type = match find_type(&ws) {
        Some(t) => BlockDevType::Fs(t),
        None => BlockDevType::UnknownBlock,
    };
    Some(BlockDev { device: string_of(&name), device_type })
}

fn blkid_scan(blkid: &str, with_fs: bool) -> (devs: Vec<BlockDev>)
    ensures
        path_view(devs@) == blkid_devs(lines(blkid@), with_fs, lines(blkid@).len() as int),
{
    let ls = split_lines(blkid);
    let ghost all = names_view(ls@);
    let mut devs: Vec<BlockDev> = Vec::new();
    let mut i: usize = 0;
    assert(path_view(devs@) =~= blkid_devs(all, with_fs, 0));
    while i < ls.len()
        invariant
            i <= ls.len(),
            all == names_view(ls@),
            path_view(devs@) == blkid_devs(all, with_fs, i as int),
        decreases ls.len() - i,
    {
        let ghost before = path_view(devs@);
        match blkid_line(ls[i].as_str()) {
            Some(d) => {
                let carries = match &d.device_type {
                    BlockDevType::Fs(_) => true,
                    _ => false,
                };
                if carries == with_fs {
                    let ghost shown = d@;
                    devs.push(d);
                    assert(path_view(devs@) =~= before.push(shown));
                }
            },
            None => {},
        }
        i += 1;
    }
    devs
}

/// The devices that carry a filesystem, with its type, as `blkid` reports them.
pub fn sys_fs(blkid: &str) -> (devs: Vec<BlockDev>)
    ensures
        path_view(devs@) == blkid_devs(lines(blkid@), true, lines(blkid@).len() as int),
{
    blkid_scan(blkid, true)
}

/// The devices that `blkid` reports without a filesystem: they are free to
/// carry one.
pub fn sys_fs_ready(blkid: &str) -> (devs: Vec<BlockDev>)
    ensures
        path_view(devs@) == blkid_devs(lines(blkid@), false, lines(blkid@).len() as int),
{
    blkid_scan(blkid, false)
}

/// The stack of a logical volume: its physical volume, its group, itself.
pub open spec fn lv_route(pv: Seq<char>, vg: Seq<char>, lv: Seq<char>) -> Seq<Dev> {
    seq![
        Dev { device: pv, kind: Kind::LvmPv },
        Dev { device: "/dev/"@ + vg, kind: Kind::LvmVg },
        Dev { device: "/dev/"@ + vg + "/"@ + lv, kind: Kind::LvmLv },
    ]
}

/// For the lines of `lvs` before `upto`, each naming a group and a volume:
/// the stacks, on the physical volume `pv`, of the volumes of the group `vg`.
pub open spec fn lv_routes(lv_lines: Seq<Seq<char>>, pv: Seq<char>, vg: Seq<char>, upto: int) -> Seq<
    Seq<Dev>,
>
    decreases upto,
{
    if upto <= 0 || upto > lv_lines.len() {
        Seq::empty()
    } else {
        let front = lv_routes(lv_lines, pv, vg, upto - 1);
        let w = words(lv_lines[upto - 1]);
        if w.len() >= 2 && w[0] == vg {
            front.push(lv_route(pv, vg, w[1]))
        } else {
            front
        }
    }
}

/// What a line of `pvs` tells, naming a physical volume and, if it is in
/// one, its group: the stacks of the group's volumes on it; the volume and
/// the group alone where the group has no volume; the volume alone where it
/// is in no group.
pub open spec fn pv_entry(pv_line: Seq<char>, lv_lines: Seq<Seq<char>>) -> Option<LvmEntry> {
    let w = words(pv_line);
    let routes = lv_routes(lv_lines, w[0], w[1], lv_lines.len() as int);
    if w.len() == 0 {
        None
    } else if w.len() == 1 {
        Some(LvmEntry { pv: w[0], paths: seq![seq![Dev { device: w[0], kind: Kind::LvmPv }]] })
    } else if routes.len() == 0 {
        Some(
            LvmEntry {
                pv: w[0],
                paths: seq![
                    seq![
                        Dev { device: w[0], kind: Kind::LvmPv },
                        Dev { device: "/dev/"@ + w[1], kind: Kind::LvmVg },
                    ],
                ],
            },
        )
    } else {
        Some(LvmEntry { pv: w[0], paths: routes })
    }
}

/// What the lines of `pvs` before `upto` tell, line after line.
pub open spec fn lvm_entries(pv_lines: Seq<Seq<char>>, lv_lines: Seq<Seq<char>>, upto: int) -> Seq<
    LvmEntry,
>
    decreases upto,
{
    if upto <= 0 || upto > pv_lines.len() {
        Seq::empty()
    } else {
        let front = lvm_entries(pv_lines, lv_lines, upto - 1);
        match pv_entry(pv_lines[upto - 1], lv_lines) {
            Some(entry) => front.push(entry),
            None => front,
        }
    }
}

fn routes_on(lv_lines: &Vec<String>, pv: &str, vg: &str) -> (paths: Vec<Vec<BlockDev>>)
    ensures
        paths_view(paths@) == lv_routes(names_view(lv_lines@), pv@, vg@, lv_lines@.len() as int),
{
    let ghost all = names_view(lv_lines@);
    let mut paths: Vec<Vec<BlockDev>> = Vec::new();
    let mut i: usize = 0;
    assert(paths_view(paths@) =~= lv_routes(all, pv@, vg@, 0));
    while i < lv_lines.len()
        invariant
            i <= lv_lines.len(),
            all == names_view(lv_lines@),
            paths_view(paths@) == lv_routes(all, pv@, vg@, i as int),
        decreases lv_lines.len() - i,
    {
        let ghost before = paths_view(paths@);
        let w = split_words(lv_lines[i].as_str());
        if w.len() >= 2 && same(w[0].as_str(), vg) {
            assert(names_view(w@)[0] == w@[0]@ && names_view(w@)[1] == w@[1]@);
            let group = concat("/dev/", vg);
            let volume = concat3(group.as_str(), "/", w[1].as_str());
            let mut route: Vec<BlockDev> = Vec::new();
            route.push(
                BlockDev {
                    device: String::from_str(pv),
                    device_type: BlockDevType::Dm(DmType::LvmPv),
                },
            );
            route.push(BlockDev { device: group, device_type: BlockDevType::Dm(DmType::LvmVg) });
            route.push(BlockDev { device: volume, device_type: BlockDevType::Dm(DmType::LvmLv) });
            assert(path_view(route@) =~= lv_route(pv@, vg@, w@[1]@));
            paths.push(route);
            assert(paths_view(paths@) =~= before.push(lv_route(pv@, vg@, w@[1]@)));
        } else {
            assert(w.len() >= 2 ==> names_view(w@)[0] == w@[0]@);
        }
        i += 1;
    }
    paths
}

/// What a line of `pvs` tells, given the lines of `lvs`.
pub fn pv_line(line: &str, lv_lines: &Vec<String>) -> (r: Option<SysLvm>)
    ensures
        match r {
            Some(entry) => pv_entry(line@, names_view(lv_lines@)) == Some(entry@),
            None => pv_entry(line@, names_view(lv_lines@)) is None,
        },
{
    let w = split_words(line);
    if w.len() == 0 {
        return None;
    }
    assert(names_view(w@)[0] == w@[0]@);
    let pv_dev = BlockDev { device: w[0].clone(), device_type: BlockDevType::Dm(DmType::LvmPv) };
    let mut paths: Vec<Vec<BlockDev>> = Vec::new();
    if w.len() == 1 {
        let mut alone: Vec<BlockDev> = Vec::new();
        alone.push(pv_dev);
        assert(path_view(alone@) =~= seq![Dev { device: w@[0]@, kind: Kind::LvmPv }]);
        paths.push(alone);
        assert(paths_view(paths@) =~= seq![seq![Dev { device: w@[0]@, kind: Kind::LvmPv }]]);
        return Some(SysLvm { pv: w[0].clone(), paths });
    }
    assert(names_view(w@)[1] == w@[1]@);
    let routes = routes_on(lv_lines, w[0].as_str(), w[1].as_str());
    if routes.len() == 0 {
        let mut bare: Vec<BlockDev> = Vec::new();
        bare.push(pv_dev);
        bare.push(
            BlockDev {
                device: concat("/dev/", w[1].as_str()),
                device_type: BlockDevType::Dm(DmType::LvmVg),
            },
        );
        let ghost shown = seq![
            Dev { device: w@[0]@, kind: Kind::LvmPv },
            Dev { device: "/dev/"@ + w@[1]@, kind: Kind::LvmVg },
        ];
        assert(path_view(bare@) =~= shown);
        paths.push(bare);
        assert(paths_view(paths@) =~= seq![shown]);
        return Some(SysLvm { pv: w[0].clone(), paths });
    }
    Some(SysLvm { pv: w[0].clone(), paths: routes })
}

/// The LVM stacks of the host by physical volume, as `lvs` (groups and
/// their volumes) and `pvs` (physical volumes and their groups) report them.
pub fn sys_lvms(lvs: &str, pvs: &str) -> (entries: Vec<SysLvm>)
    ensures
        lvms_view(entries@) == lvm_entries(lines(pvs@), lines(lvs@), lines(pvs@).len() as int),
{
    let lv_lines = split_lines(lvs);
    let pv_lines = split_lines(pvs);
    let ghost all = names_view(pv_lines@);
    let mut entries: Vec<SysLvm> = Vec::new();
    let mut i: usize = 0;
    assert(lvms_view(entries@) =~= lvm_entries(all, names_view(lv_lines@), 0));
    while i < pv_lines.len()
        invariant
            i <= pv_lines.len(),
            all == names_view(pv_lines@),
            names_view(lv_lines@) == lines(lvs@),
            lvms_view(entries@) == lvm_entries(all, names_view(lv_lines@), i as int),
        decreases pv_lines.len() - i,
    {
        let ghost before = lvms_view(entries@);
        match pv_line(pv_lines[i].as_str(), &lv_lines) {
            Some(entry) => {
                let ghost shown = entry@;
                entries.push(entry);
                assert(lvms_view(entries@) =~= before.push(shown));
            },
            None => {},
        }
        i += 1;
    }
    entries
}

/// The stacks that [`lv_routes`] gives are well typed.
pub proof fn lemma_routes_are_well_typed(
    lv_lines: Seq<Seq<char>>,
    pv: Seq<char>,
    vg: Seq<char>,
    upto: int,
)
    requires
        0 <= upto <= lv_lines.len(),
    ensures
        all_well_typed(lv_routes(lv_lines, pv, vg, upto)),
    decreases upto,
{
    if upto > 0 {
        lemma_routes_are_well_typed(lv_lines, pv, vg, upto - 1);
        let w = words(lv_lines[upto - 1]);
        if w.len() >= 2 && w[0] == vg {
            let route = lv_route(pv, vg, w[1]);
            assert(edge_ok(route[0].kind, route[1].kind));
            assert(edge_ok(route[1].kind, route[2].kind));
            assert(well_typed(route));
        }
    }
}

/// What the scanner reads from `pvs` and `lvs` is well typed: every stack
/// runs from a physical volume to its group and on to a logical volume, as
/// far as it goes.
pub proof fn law_scanned_stacks_are_well_typed(
    pv_lines: Seq<Seq<char>>,
    lv_lines: Seq<Seq<char>>,
    upto: int,
)
    requires
        0 <= upto <= pv_lines.len(),
    ensures
        forall|e: int|
            0 <= e < lvm_entries(pv_lines, lv_lines, upto).len() ==> all_well_typed(
                (#[trigger] lvm_entries(pv_lines, lv_lines, upto)[e]).paths,
            ),
    decreases upto,
{
    if upto > 0 {
        law_scanned_stacks_are_well_typed(pv_lines, lv_lines, upto - 1);
        let front = lvm_entries(pv_lines, lv_lines, upto - 1);
        let all = lvm_entries(pv_lines, lv_lines, upto);
        let w = words(pv_lines[upto - 1]);
        if w.len() >= 2 {
            lemma_routes_are_well_typed(lv_lines, w[0], w[1], lv_lines.len() as int);
            let bare = seq![
                Dev { device: w[0], kind: Kind::LvmPv },
                Dev { device: "/dev/"@ + w[1], kind: Kind::LvmVg },
            ];
            assert(edge_ok(bare[0].kind, bare[1].kind));
            assert(well_typed(bare));
            assert(all_well_typed(seq![bare]));
        } else if w.len() == 1 {
            let alone = seq![Dev { device: w[0], kind: Kind::LvmPv }];
            assert(well_typed(alone));
            assert(all_well_typed(seq![alone]));
        }
        assert forall|e: int| 0 <= e < all.len() implies all_well_typed((#[trigger] all[e]).paths) by {
            if e < front.len() {
                assert(all[e] == front[e]);
            } else {
                assert(pv_entry(pv_lines[upto - 1], lv_lines) == Some(all[e]));
            }
        }
    }
}

/// What the scanner reads from `blkid` as free is of a kind that may carry
/// a filesystem, and what it reads as in use carries one.
pub proof fn law_scanned_devices_are_sorted(ls: Seq<Seq<char>>, with_fs: bool, upto: int)
    requires
        0 <= upto <= ls.len(),
    ensures
        forall|i: int|
            0 <= i < blkid_devs(ls, with_fs, upto).len() ==> ((#[trigger] blkid_devs(
                ls,
                with_fs,
                upto,
            )[i]).kind is Fs) == with_fs,
        !with_fs ==> ready_sound(blkid_devs(ls, with_fs, upto)),
    decreases upto,
{
    if upto > 0 {
        law_scanned_devices_are_sorted(ls, with_fs, upto - 1);
    }
}

} // verus!
