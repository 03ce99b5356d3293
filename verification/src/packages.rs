use vstd::prelude::*;
use vstd::string::*;
use crate::manifest::{items, Dm, Manifest, ManifestFs};
use crate::state::names_view;
use crate::store::listed;
use crate::text::{copy_names, join, joined, same};

verus! {

/// The root filesystem or another filesystem of the manifest is Btrfs.
pub open spec fn wants_btrfs(manifest: Manifest) -> bool {
    manifest.rootfs.0.fs_type@ == "btrfs"@ || exists|i: int|
        0 <= i < items(manifest.filesystems).len() && (#[trigger] items(
            manifest.filesystems,
        )[i]).fs_type@ == "btrfs"@
}

/// The manifest declares an LVM block.
pub open spec fn wants_lvm(manifest: Manifest) -> bool {
    exists|i: int| 0 <= i < items(manifest.dm).len() && (#[trigger] items(manifest.dm)[i]) is Lvm
}

/// The list with `name` in it: at the end, unless it was there already.
pub open spec fn with_package(list: Seq<Seq<char>>, name: Seq<char>) -> Seq<Seq<char>> {
    if list.contains(name) {
        list
    } else {
        list.push(name)
    }
}

/// The packages of a manifest, as a model; none where it names none.
pub open spec fn packages_view(list: Option<Vec<String>>) -> Option<Seq<Seq<char>>> {
    match list {
        Some(v) => Some(names_view(v@)),
        None => None,
    }
}

/// The packages with `name` added if `wanted`.
pub open spec fn with_needed(list: Option<Seq<Seq<char>>>, wanted: bool, name: Seq<char>) -> Option<
    Seq<Seq<char>>,
> {
    if wanted {
        match list {
            Some(v) => Some(with_package(v, name)),
            None => Some(seq![name]),
        }
    } else {
        list
    }
}

/// The packages that the manifest installs once its own needs are added:
/// `btrfs-progs` where a filesystem is Btrfs, `lvm2` where it declares LVM.
pub open spec fn needed_packages(manifest: Manifest) -> Option<Seq<Seq<char>>> {
    with_needed(
        with_needed(packages_view(manifest.pacstraps), wants_btrfs(manifest), "btrfs-progs"@),
        wants_lvm(manifest),
        "lvm2"@,
    )
}

fn any_btrfs(list: &Vec<ManifestFs>) -> (r: bool)
    ensures
        r == exists|i: int| 0 <= i < list@.len() && (#[trigger] list@[i]).fs_type@ == "btrfs"@,
{
    let mut i: usize = 0;
    while i < list.len()
        invariant
            i <= list.len(),
            forall|k: int| 0 <= k < i ==> (#[trigger] list@[k]).fs_type@ != "btrfs"@,
        decreases list.len() - i,
    {
        if same(list[i].fs_type.as_str(), "btrfs") {
            return true;
        }
        i += 1;
    }
    false
}

fn any_lvm(list: &Vec<Dm>) -> (r: bool)
    ensures
        r == exists|i: int| 0 <= i < list@.len() && (#[trigger] list@[i]) is Lvm,
{
    let mut i: usize = 0;
    while i < list.len()
        invariant
            i <= list.len(),
            forall|k: int| 0 <= k < i ==> !((#[trigger] list@[k]) is Lvm),
        decreases list.len() - i,
    {
        match &list[i] {
            Dm::Lvm(_) => {
                return true;
            },
            Dm::Luks(_) => {},
        }
        i += 1;
    }
    false
}

fn add_package(list: &Option<Vec<String>>, wanted: bool, name: &str) -> (out: Option<Vec<String>>)
    ensures
        packages_view(out) == with_needed(packages_view(*list), wanted, name@),
{
    match list {
        Some(v) => {
            let mut copy = copy_names(v);
            if wanted && !listed(v, name) {
                let ghost before = names_view(copy@);
                copy.push(String::from_str(name));
                assert(names_view(copy@) =~= before.push(name@));
            }
            Some(copy)
        },
        None => {
            if wanted {
                let mut fresh: Vec<String> = Vec::new();
                fresh.push(String::from_str(name));
                assert(names_view(fresh@) =~= seq![name@]);
                Some(fresh)
            } else {
                None
            }
        },
    }
}

/// Adds to the packages of a manifest what its own storage needs:
/// `btrfs-progs` where a filesystem is Btrfs, `lvm2` where it declares LVM.
/// Nothing else of the manifest changes.
pub fn update_manifest(manifest: &mut Manifest)
    ensures
        packages_view(final(manifest).pacstraps) == needed_packages(*old(manifest)),
        final(manifest).disks == old(manifest).disks,
        final(manifest).dm == old(manifest).dm,
        final(manifest).rootfs == old(manifest).rootfs,
        final(manifest).filesystems == old(manifest).filesystems,
        final(manifest).swap == old(manifest).swap,
        final(manifest).chroot == old(manifest).chroot,
        final(manifest).postinstall == old(manifest).postinstall,
        final(manifest).hostname == old(manifest).hostname,
        final(manifest).timezone == old(manifest).timezone,
{
    let mut has_btrfs = same(manifest.rootfs.0.fs_type.as_str(), "btrfs");
    if !has_btrfs {
        has_btrfs = match &manifest.filesystems {
            Some(list) => any_btrfs(list),
            None => false,
        };
    }
    let has_lvm = match &manifest.dm {
        Some(list) => any_lvm(list),
        None => false,
    };
    let with_btrfs = add_package(&manifest.pacstraps, has_btrfs, "btrfs-progs");
    let with_lvm = add_package(&with_btrfs, has_lvm, "lvm2");
    manifest.pacstraps = with_lvm;
}

/// The packages that an installation brings: `base`, then each package of
/// the list that was not named before.
pub open spec fn install_list(packages: Seq<Seq<char>>) -> Seq<Seq<char>>
    decreases packages.len(),
{
    if packages.len() == 0 {
        seq!["base"@]
    } else {
        with_package(install_list(packages.drop_last()), packages.last())
    }
}

/// The `pacstrap` command line that installs the packages to `location`.
pub open spec fn pacstrap_command(packages: Seq<Seq<char>>, location: Seq<char>) -> Seq<char> {
    joined(seq!["pacstrap"@, "-K"@, location] + install_list(packages), " "@)
}

/// The `pacstrap` command line that installs `base` and the given packages
/// to `location`, each package named once.
pub fn pacstrap_to_location(pacstraps: &Option<Vec<String>>, location: &str) -> (cmd: String)
    ensures
        cmd@ == pacstrap_command(
            match *pacstraps {
                Some(v) => names_view(v@),
                None => Seq::empty(),
            },
            location@,
        ),
{
    let mut packages: Vec<String> = Vec::new();
    packages.push(String::from_str("base"));
    assert(names_view(packages@) =~= seq!["base"@]);
    match pacstraps {
        Some(list) => {
            let mut i: usize = 0;
            assert(names_view(list@).take(0) =~= Seq::<Seq<char>>::empty());
            while i < list.len()
                invariant
                    i <= list.len(),
                    names_view(packages@) == install_list(names_view(list@).take(i as int)),
                decreases list.len() - i,
            {
                assert(names_view(list@).take(i + 1).drop_last() =~= names_view(list@).take(
                    i as int,
                ));
                if !listed(&packages, list[i].as_str()) {
                    let ghost before = names_view(packages@);
                    packages.push(list[i].clone());
                    assert(names_view(packages@) =~= before.push(list@[i as int]@));
                }
                i += 1;
            }
            assert(names_view(list@).take(i as int) =~= names_view(list@));
        },
        None => {},
    }
    let ghost chosen = names_view(packages@);
    let mut parts: Vec<String> = Vec::new();
    parts.push(String::from_str("pacstrap"));
    parts.push(String::from_str("-K"));
    parts.push(String::from_str(location));
    let ghost head = names_view(parts@);
    assert(head =~= seq!["pacstrap"@, "-K"@, location@]);
    let mut k: usize = 0;
    while k < packages.len()
        invariant
            k <= packages.len(),
            chosen == names_view(packages@),
            names_view(parts@) == head + chosen.take(k as int),
        decreases packages.len() - k,
    {
        let ghost before = names_view(parts@);
        parts.push(packages[k].clone());
        assert(names_view(parts@) =~= before.push(chosen[k as int]));
        k += 1;
        assert(before.push(chosen[k - 1]) =~= head + chosen.take(k as int));
    }
    assert(chosen.take(k as int) =~= chosen);
    join(&parts, " ")
}

} // verus!
