use ali::actions::{apply_dm, apply_dms, lvm_commands, Action};
use ali::errors::NayiError;
use ali::install::{install_stages, record_action, record_stage, Stage};
use ali::manifest::{
    Dm, Manifest, ManifestFs, ManifestLuks, ManifestLvm, ManifestLvmLv, ManifestLvmVg,
    ManifestRootFs,
};
use ali::packages::{pacstrap_to_location, update_manifest};
use ali::text::{contains, join, replace, split_words, to_decimal};

fn names(list: &[&str]) -> Vec<String> {
    list.iter().map(|s| s.to_string()).collect()
}

fn fs(device: &str, fs_type: &str) -> ManifestFs {
    ManifestFs {
        device: device.to_string(),
        mnt: "/".to_string(),
        fs_type: fs_type.to_string(),
        fs_opts: None,
        mnt_opts: None,
    }
}

fn manifest(root_type: &str) -> Manifest {
    Manifest {
        disks: None,
        dm: None,
        rootfs: ManifestRootFs(fs("/dev/sda1", root_type)),
        filesystems: None,
        swap: None,
        pacstraps: None,
        chroot: None,
        postinstall: None,
        hostname: None,
        timezone: None,
    }
}

fn lvm() -> Dm {
    Dm::Lvm(ManifestLvm {
        pvs: Some(names(&["/dev/sda1", "/dev/sdb1"])),
        vgs: Some(vec![ManifestLvmVg { name: "g".into(), pvs: names(&["/dev/sda1", "/dev/sdb1"]) }]),
        lvs: Some(vec![
            ManifestLvmLv { name: "root".into(), vg: "g".into(), size: Some("20G".into()) },
            ManifestLvmLv { name: "home".into(), vg: "g".into(), size: None },
        ]),
    })
}

fn shown(actions: &[Action]) -> Vec<String> {
    actions.iter().map(|a| format!("{:?}", a)).collect()
}

#[test]
fn manifest_gets_the_packages_it_needs() {
    let mut plain = manifest("ext4");
    update_manifest(&mut plain);
    assert_eq!(plain.pacstraps, None);

    let mut btrfs = manifest("btrfs");
    update_manifest(&mut btrfs);
    assert_eq!(btrfs.pacstraps, Some(names(&["btrfs-progs"])));

    let mut both = manifest("ext4");
    both.filesystems = Some(vec![fs("/dev/sdb1", "xfs"), fs("/dev/sdc1", "btrfs")]);
    both.dm = Some(vec![
        Dm::Luks(ManifestLuks { name: "c".into(), device: "/dev/sdd".into() }),
        lvm(),
    ]);
    both.pacstraps = Some(names(&["vim", "lvm2"]));
    both.hostname = Some("box".into());
    update_manifest(&mut both);
    assert_eq!(both.pacstraps, Some(names(&["vim", "lvm2", "btrfs-progs"])));
    assert_eq!(both.hostname.as_deref(), Some("box"));
    assert_eq!(both.dm.as_ref().unwrap().len(), 2);

    let mut luks_only = manifest("ext4");
    luks_only.dm = Some(vec![Dm::Luks(ManifestLuks { name: "c".into(), device: "/dev/sdd".into() })]);
    update_manifest(&mut luks_only);
    assert_eq!(luks_only.pacstraps, None);
}

#[test]
fn pacstrap_names_each_package_once() {
    assert_eq!(pacstrap_to_location(&None, "/mnt"), "pacstrap -K /mnt base");
    assert_eq!(
        pacstrap_to_location(&Some(names(&["vim", "base", "git", "vim"])), "/alitarget"),
        "pacstrap -K /alitarget base vim git"
    );
    assert_eq!(pacstrap_to_location(&Some(vec![]), ""), "pacstrap -K  base");
}

#[test]
fn lvm_actions_come_in_creation_order() {
    let actions = apply_dm(&lvm()).unwrap();
    assert_eq!(
        shown(&actions),
        shown(&[
            Action::CreateDmLvmPv("/dev/sda1".into()),
            Action::CreateDmLvmPv("/dev/sdb1".into()),
            Action::CreateDmLvmVg { pvs: names(&["/dev/sda1", "/dev/sdb1"]), vg: "/dev/g".into() },
            Action::CreateDmLvmLv { vg: "/dev/g".into(), lv: "/dev/g/root".into() },
            Action::CreateDmLvmLv { vg: "/dev/g".into(), lv: "/dev/g/home".into() },
        ])
    );
    let empty = Dm::Lvm(ManifestLvm { pvs: None, vgs: None, lvs: None });
    assert!(apply_dm(&empty).unwrap().is_empty());
}

#[test]
fn luks_is_not_set_up_yet() {
    let luks = Dm::Luks(ManifestLuks { name: "c".into(), device: "/dev/sdd".into() });
    assert!(matches!(apply_dm(&luks), Err(NayiError::NotImplemented)));

    let failure = apply_dms(&vec![lvm(), luks, lvm()]).unwrap_err();
    assert!(matches!(failure.error, NayiError::NotImplemented));
    assert!(matches!(failure.action_failed, Action::ApplyDm));
    assert_eq!(failure.actions_performed.len(), 5);

    let done = apply_dms(&vec![lvm(), lvm()]).unwrap();
    assert_eq!(done.len(), 10);
    assert!(apply_dms(&vec![]).unwrap().is_empty());
}

#[test]
fn text_helpers() {
    assert_eq!(split_words("  a\tbc \n d  "), names(&["a", "bc", "d"]));
    assert_eq!(split_words("a\u{a0}b\u{3000}c"), names(&["a", "b", "c"]));
    assert!(split_words(" \t ").is_empty());
    assert!(split_words("").is_empty());
    assert_eq!(split_words("x"), names(&["x"]));
    assert_eq!(replace("aaa", "aa", "b"), "ba");
    assert_eq!(replace("abcabc", "bc", ""), "aa");
    assert_eq!(replace("abc", "abcd", "x"), "abc");
    assert_eq!(replace("", "a", "x"), "");
    assert!(contains("/dev/nvme0n1", "nvme"));
    assert!(contains("abc", ""));
    assert!(contains("", ""));
    assert!(!contains("ab", "abc"));
    assert!(!contains("/dev/sda", "nvme"));
    assert_eq!(to_decimal(0), "0");
    assert_eq!(to_decimal(9), "9");
    assert_eq!(to_decimal(10), "10");
    assert_eq!(to_decimal(4096), "4096");
    assert_eq!(join(&names(&["a", "b", "c"]), ", "), "a, b, c");
    assert_eq!(join(&vec![], ", "), "");
}

#[test]
fn error_messages_name_their_class() {
    assert_eq!(NayiError::BadManifest("x".into()).message(), "bad manifest: x");
    assert_eq!(NayiError::NoSuchDevice("/dev/x".into()).message(), "no such device: /dev/x");
    assert_eq!(NayiError::NotImplemented.message(), "not implemented");
    assert_eq!(NayiError::NayiRsBug("b".into()).message(), "nayi-rs bug: b");
    assert_eq!(NayiError::NoSuchFile("f".into()).message(), "no such file: f");
    assert_eq!(NayiError::CmdFailed("c".into()).message(), "shell command failed: c");
    assert_eq!(NayiError::BadArgs("a".into()).message(), "bad cli arguments: a");
    assert_eq!(NayiError::BadHookCmd("h".into()).message(), "bad hook cmd: h");
}

#[test]
fn stages_follow_the_manifest() {
    let bare = manifest("ext4");
    assert_eq!(
        install_stages(&bare),
        vec![
            Stage::CreateRootFs,
            Stage::MkdirRootFs,
            Stage::MountRootFs,
            Stage::InstallPackages,
            Stage::GenFstab,
        ]
    );
    let mut full = manifest("ext4");
    full.disks = Some(vec![]);
    full.dm = Some(vec![lvm()]);
    full.filesystems = Some(vec![fs("/dev/g/home", "xfs")]);
    full.hostname = Some("box".into());
    full.timezone = Some("UTC".into());
    full.chroot = Some(vec![]);
    full.postinstall = Some(names(&["reboot"]));
    assert_eq!(
        install_stages(&full),
        vec![
            Stage::ApplyDisks,
            Stage::ApplyDms,
            Stage::CreateRootFs,
            Stage::ApplyFilesystems,
            Stage::MkdirRootFs,
            Stage::MountRootFs,
            Stage::MountFilesystems,
            Stage::InstallPackages,
            Stage::GenFstab,
            Stage::SetHostname,
            Stage::SetTimezone,
            Stage::CommandsChroot,
            Stage::CommandsPostInstall,
        ]
    );
    assert!(matches!(Stage::ApplyDms.label(), Action::ApplyDms));
    assert!(matches!(Stage::MountFilesystems.label(), Action::MountFilesystems));
    assert!(matches!(Stage::SetTimezone.label(), Action::SetTimezone(_)));
}

#[test]
fn lvm_runs_match_the_actions() {
    let block = match lvm() {
        Dm::Lvm(block) => block,
        other => panic!("unexpected entry: {:?}", other),
    };
    let runs: Vec<(String, Vec<String>)> =
        lvm_commands(&block).into_iter().map(|run| (run.program, run.args)).collect();
    assert_eq!(
        runs,
        vec![
            ("pvcreate".to_string(), names(&["/dev/sda1"])),
            ("pvcreate".to_string(), names(&["/dev/sdb1"])),
            ("vgcreate".to_string(), names(&["g", "/dev/sda1", "/dev/sdb1"])),
            ("lvcreate".to_string(), names(&["-L", "20G", "g", "-n", "root"])),
            ("lvcreate".to_string(), names(&["-l", "100%FREE", "g", "-n", "home"])),
        ]
    );
    assert_eq!(runs.len(), apply_dm(&lvm()).unwrap().len());
}

#[test]
fn the_record_stops_at_the_first_failure() {
    let mut done = vec![Action::ApplyDisks];
    record_stage(&mut done, Stage::CreateRootFs, Ok(vec![Action::CreateRootFs, Action::GenFstab]))
        .unwrap();
    assert_eq!(shown(&done), shown(&[Action::ApplyDisks, Action::CreateRootFs, Action::GenFstab]));
    record_action(&mut done, Action::ApplyDm, Ok(vec![])).unwrap();
    assert_eq!(done.len(), 3);

    let failure = record_stage(
        &mut done,
        Stage::MountRootFs,
        Err(NayiError::CmdFailed("mount failed".into())),
    )
    .unwrap_err();
    assert!(matches!(failure.error, NayiError::CmdFailed(ref text) if text == "mount failed"));
    assert!(matches!(failure.action_failed, Action::MountRootFs));
    assert_eq!(
        shown(&failure.actions_performed),
        shown(&[Action::ApplyDisks, Action::CreateRootFs, Action::GenFstab])
    );
    assert!(done.is_empty());

    let nested = record_stage(
        &mut done,
        Stage::ApplyDms,
        Err(NayiError::InstallFailed(Box::new(failure))),
    )
    .unwrap_err();
    assert!(matches!(nested.action_failed, Action::ApplyDms));
    assert_eq!(nested.error.message(), "installation failed");
}
