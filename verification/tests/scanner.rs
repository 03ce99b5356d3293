use ali::blockdev::{BlockDev, BlockDevType, DmType};
use ali::scanner::{blkid_line, pv_line, sys_fs, sys_fs_ready, sys_lvms};
use ali::text::split_lines;

fn dev(path: &str, kind: BlockDevType) -> BlockDev {
    BlockDev { device: path.to_string(), device_type: kind }
}

fn pv(path: &str) -> BlockDev {
    dev(path, BlockDevType::Dm(DmType::LvmPv))
}

fn vg(path: &str) -> BlockDev {
    dev(path, BlockDevType::Dm(DmType::LvmVg))
}

fn lv(path: &str) -> BlockDev {
    dev(path, BlockDevType::Dm(DmType::LvmLv))
}

const BLKID: &str = "/dev/sda1: UUID=\"1A2B-3C4D\" BLOCK_SIZE=\"512\" TYPE=\"vfat\" PARTUUID=\"abc\"\n\
/dev/sda2: PARTLABEL=\"my root\" PARTUUID=\"def\"\n\
\n\
/dev/sdb: PTUUID=\"0011\" PTTYPE=\"gpt\"\n\
not a device line\n\
/dev/mapper/vg-swap: UUID=\"77\" TYPE=\"swap\"\n\
/dev/sdc1: TYPE=\"\"\n\
/dev/sdd1: LABEL=\"x\" TYPE=\"ext4";

#[test]
fn devices_with_a_filesystem() {
    assert_eq!(
        sys_fs(BLKID),
        vec![
            dev("/dev/sda1", BlockDevType::Fs("vfat".into())),
            dev("/dev/mapper/vg-swap", BlockDevType::Fs("swap".into())),
            dev("/dev/sdc1", BlockDevType::Fs("".into())),
        ]
    );
    assert!(sys_fs("").is_empty());
}

#[test]
fn devices_without_a_filesystem() {
    assert_eq!(
        sys_fs_ready(BLKID),
        vec![
            dev("/dev/sda2", BlockDevType::UnknownBlock),
            dev("/dev/sdb", BlockDevType::UnknownBlock),
            dev("/dev/sdd1", BlockDevType::UnknownBlock),
        ]
    );
}

#[test]
fn one_line_of_blkid() {
    assert_eq!(
        blkid_line("/dev/x:TYPE=\"btrfs\""),
        Some(dev("/dev/x", BlockDevType::Fs("btrfs".into())))
    );
    assert_eq!(
        blkid_line(": TYPE=\"a\" TYPE=\"b\""),
        Some(dev("", BlockDevType::Fs("a".into())))
    );
    assert_eq!(blkid_line("/dev/x TYPE=\"btrfs\""), None);
    assert_eq!(blkid_line("/dev/x:"), Some(dev("/dev/x", BlockDevType::UnknownBlock)));
    assert_eq!(
        blkid_line("/dev/x: SEC_TYPE=\"msdos\" TYPE=\""),
        Some(dev("/dev/x", BlockDevType::UnknownBlock))
    );
}

#[test]
fn stacks_by_physical_volume() {
    let pvs = "  /dev/sda2  myvg \n  /dev/sdb1  myvg\n\n  /dev/sdc1 \n /dev/sdd1 empty\n";
    let lvs = "  myvg root  \n  other data\n  myvg home\n  broken\n";
    let found = sys_lvms(lvs, pvs);
    let shown: Vec<(String, Vec<Vec<BlockDev>>)> =
        found.into_iter().map(|entry| (entry.pv, entry.paths)).collect();
    let routes = |p: &str| {
        vec![
            vec![pv(p), vg("/dev/myvg"), lv("/dev/myvg/root")],
            vec![pv(p), vg("/dev/myvg"), lv("/dev/myvg/home")],
        ]
    };
    assert_eq!(
        shown,
        vec![
            ("/dev/sda2".to_string(), routes("/dev/sda2")),
            ("/dev/sdb1".to_string(), routes("/dev/sdb1")),
            ("/dev/sdc1".to_string(), vec![vec![pv("/dev/sdc1")]]),
            ("/dev/sdd1".to_string(), vec![vec![pv("/dev/sdd1"), vg("/dev/empty")]]),
        ]
    );
    assert!(sys_lvms(lvs, "").is_empty());
    assert!(pv_line("   ", &vec![]).is_none());
}

#[test]
fn lines_that_are_not_empty() {
    assert_eq!(split_lines("a b\n\n c\n"), vec!["a b", " c"]);
    assert_eq!(split_lines("\n"), Vec::<String>::new());
    assert_eq!(split_lines("one"), vec!["one"]);
}
