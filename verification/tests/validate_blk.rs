use ali::blockdev::{BlockDev, BlockDevType, DmType};
use ali::manifest::{
    Dm, Manifest, ManifestDisk, ManifestFs, ManifestLvm, ManifestLvmLv, ManifestLvmVg,
    ManifestPartition, ManifestRootFs, PartitionTable,
};
use ali::state::SysLvm;
use ali::validate::validate_blk;

#[derive(Debug)]
struct Test {
    case: String,
    context: Option<String>, // Extra info about the test
    manifest: Manifest,
    sys_fs_ready_devs: Option<Vec<BlockDev>>,
    sys_fs_devs: Option<Vec<BlockDev>>,
    sys_lvms: Option<Vec<SysLvm>>,
}

fn type_pv() -> BlockDevType {
    BlockDevType::Dm(DmType::LvmPv)
}

fn type_vg() -> BlockDevType {
    BlockDevType::Dm(DmType::LvmVg)
}

fn type_lv() -> BlockDevType {
    BlockDevType::Dm(DmType::LvmLv)
}

fn devs<const N: usize>(entries: [(String, BlockDevType); N]) -> Vec<BlockDev> {
    entries
        .into_iter()
        .map(|(device, device_type)| BlockDev { device, device_type })
        .collect()
}

fn path<const N: usize>(nodes: [BlockDev; N]) -> Vec<BlockDev> {
    nodes.into_iter().collect()
}

fn lvms<const N: usize>(entries: [(String, Vec<Vec<BlockDev>>); N]) -> Vec<SysLvm> {
    entries
        .into_iter()
        .map(|(pv, paths)| SysLvm { pv, paths })
        .collect()
}

fn copy_devs(list: &Option<Vec<BlockDev>>) -> Vec<BlockDev> {
    list.clone().unwrap_or_default()
}

fn copy_lvms(list: &Option<Vec<SysLvm>>) -> Vec<SysLvm> {
    match list {
        None => Vec::new(),
        Some(entries) => entries
            .iter()
            .map(|entry| SysLvm { pv: entry.pv.clone(), paths: entry.paths.clone() })
            .collect(),
    }
}

// The files that stand for disks on the host.
fn mock_files() -> Vec<String> {
    vec!["./mock_devs/sda".to_string(), "./mock_devs/sdb".to_string()]
}

#[test]
fn test_validate_blk() {
    let tests_should_ok = vec![
        Test {
            case: "Root and swap on existing partition".into(),
            context: None,
            sys_fs_ready_devs: Some(devs([
                ("/dev/sda1".into(), BlockDevType::Disk),
                ("/dev/nvme0n1p2".into(), BlockDevType::Disk),
            ])),
            sys_fs_devs: None,
            sys_lvms: None,

            manifest: Manifest {
                disks: None,
                dm: None,
                rootfs: ManifestRootFs(ManifestFs {
                    device: "/dev/sda1".into(),
                    mnt: "/".into(),
                    fs_type: "btrfs".into(),
                    fs_opts: None,
                    mnt_opts: None,
                }),
                filesystems: None,
                swap: Some(vec!["/dev/nvme0n1p2".into()]),
                pacstraps: None,
                chroot: None,
                postinstall: None,
                hostname: None,
                timezone: None,
            },
        },

        Test {
            case: "Root on existing LV, swap on existing partition".into(),
            context: None,
            sys_fs_ready_devs: Some(devs([(
                "/dev/nvme0n1p2".into(),
                BlockDevType::Disk,
            )])),
            sys_fs_devs: None,
            sys_lvms: Some(lvms([(
                "/dev/sda1".into(),
                vec![path([
                    BlockDev {
                        device: "/dev/sda1".into(),
                        device_type: type_pv(),
                    },
                    BlockDev {
                        device: "/dev/myvg".into(),
                        device_type: type_vg(),
                    },
                    BlockDev {
                        device: "/dev/myvg/mylv".into(),
                        device_type: type_lv(),
                    },
                ])],
            )])),

            manifest: Manifest {
                disks: None,
                dm: None,
                rootfs: ManifestRootFs(ManifestFs {
                    device: "/dev/myvg/mylv".into(),
                    mnt: "/".into(),
                    fs_type: "btrfs".into(),
                    fs_opts: None,
                    mnt_opts: None,
                }),
                filesystems: None,
                swap: Some(vec!["/dev/nvme0n1p2".into()]),
                pacstraps: None,
                chroot: None,
                postinstall: None,
                hostname: None,
                timezone: None,
            },
        },

        Test {
            case: "Root on existing LV, swap on manifest partition".into(),
            context: None,
            sys_fs_ready_devs: Some(devs([
                ("/dev/sda1".into(), BlockDevType::Disk),
                ("/dev/nvme0n1p2".into(), BlockDevType::Disk),
            ])),
            sys_fs_devs: None,
            sys_lvms: Some(lvms([(
                "/dev/sda1".into(),
                vec![path([
                    BlockDev {
                        device: "/dev/sda1".into(),
                        device_type: type_pv(),
                    },
                    BlockDev {
                        device: "/dev/myvg".into(),
                        device_type: type_vg(),
                    },
                    BlockDev {
                        device: "/dev/myvg/mylv".into(),
                        device_type: type_lv(),
                    },
                ])],
            )])),

            manifest: Manifest {
                disks: None,
                dm: None,
                rootfs: ManifestRootFs(ManifestFs {
                    device: "/dev/myvg/mylv".into(),
                    mnt: "/".into(),
                    fs_type: "btrfs".into(),
                    fs_opts: None,
                    mnt_opts: None,
                }),
                filesystems: None,
                swap: Some(vec!["/dev/nvme0n1p2".into()]),
                pacstraps: None,
                chroot: None,
                postinstall: None,
                hostname: None,
                timezone: None,
            },
        },

        Test {
            case: "Root and swap on existing LV on existing VG".into(),
            context: None,
            sys_fs_ready_devs: Some(devs([
                ("/dev/sda1".into(), BlockDevType::Disk),
                ("/dev/nvme0n1p2".into(), BlockDevType::Disk),
            ])),
            sys_fs_devs: None,
            sys_lvms: Some(lvms([(
                "/dev/sda1".into(),
                vec![path([
                    BlockDev {
                        device: "/dev/sda1".into(),
                        device_type: type_pv(),
                    },
                    BlockDev {
                        device: "/dev/myvg".into(),
                        device_type: type_vg(),
                    },
                ])],
            )])),

            manifest: Manifest {
                disks: None,
                dm: Some(vec![Dm::Lvm(ManifestLvm {
                    pvs: None,
                    vgs: None,
                    lvs: Some(vec![ManifestLvmLv {
                        name: "mylv".into(),
                        vg: "myvg".into(),
                        size: None,
                    }]),
                })]),
                rootfs: ManifestRootFs(ManifestFs {
                    device: "/dev/myvg/mylv".into(),
                    mnt: "/".into(),
                    fs_type: "btrfs".into(),
                    fs_opts: None,
                    mnt_opts: None,
                }),
                filesystems: None,
                swap: Some(vec!["/dev/nvme0n1p2".into()]),
                pacstraps: None,
                chroot: None,
                postinstall: None,
                hostname: None,
                timezone: None,
            },
        },

        Test {
                case: "Root on manifest LVM, built on existing partition. Swap on existing partition".into(),
                context: None,
                sys_fs_ready_devs: Some(devs([
                    ("/dev/sda1".into(), BlockDevType::Disk),
                    ("/dev/nvme0n1p2".into(), BlockDevType::Disk),
                ])),
                sys_fs_devs: None,
                sys_lvms: None,

                manifest: Manifest {
                    disks: None,
                    dm: Some(vec![Dm::Lvm(ManifestLvm {
                        pvs: Some(vec!["/dev/sda1".into()]),
                        vgs: Some(vec![ManifestLvmVg {
                            name: "myvg".into(),
                            pvs: vec!["/dev/sda1".into()],
                        }]),
                        lvs: Some(vec![ManifestLvmLv {
                            name: "mylv".into(),
                            vg: "myvg".into(),
                            size: None,
                        }]),
                    })]),
                    rootfs: ManifestRootFs(ManifestFs {
                        device: "/dev/myvg/mylv".into(),
                        mnt: "/".into(),
                        fs_type: "btrfs".into(),
                        fs_opts: None,
                        mnt_opts: None,
                    }),
                    filesystems: None,
                    swap: Some(vec!["/dev/nvme0n1p2".into()]),
                    pacstraps: None,
                    chroot: None,
                    postinstall: None,
                    hostname: None,
                    timezone: None,
                },
            },

            Test {
                case:"Root on manifest LVM, built on manifest partition. Swap on manifest partition".into(),
                context: None,
                sys_fs_ready_devs: Some(devs([
                    ("/dev/nvme0n1p2".into(), BlockDevType::Disk),
                ])),
                sys_fs_devs: None,
                sys_lvms: None,

                manifest: Manifest {
                    disks: Some(vec![ManifestDisk {
                        device: "./mock_devs/sda".into(),
                        table: PartitionTable::Gpt,
                        partitions: vec![
                            ManifestPartition {
                                label: "PART_EFI".into(),
                                size: Some("500M".into()),
                                part_type: "ef".into(),
                            },
                            ManifestPartition {
                                label: "PART_PV".into(),
                                size: None,
                                part_type: "8e".into(),
                            },
                        ],
                    }]),
                    dm: Some(vec![Dm::Lvm(ManifestLvm {
                        pvs: Some(vec!["./mock_devs/sda2".into()]),
                        vgs: Some(vec![ManifestLvmVg {
                            name: "myvg".into(),
                            pvs: vec!["./mock_devs/sda2".into()],
                        }]),
                        lvs: Some(vec![ManifestLvmLv {
                            name: "mylv".into(),
                            vg: "myvg".into(),
                            size: None,
                        }]),
                    })]),
                    rootfs: ManifestRootFs(ManifestFs {
                        device: "/dev/myvg/mylv".into(),
                        mnt: "/".into(),
                        fs_type: "btrfs".into(),
                        fs_opts: None,
                        mnt_opts: None,
                    }),
                    filesystems: None,
                    swap: Some(vec!["/dev/nvme0n1p2".into()]),
                    pacstraps: None,
                    chroot: None,
                    postinstall: None,
                    hostname: None,
                    timezone: None,
                },
            },

            Test {
                case: "Root on manifest LVM on manifest partition/existing partition. Swap on manifest partition".into(),
                context: None,
                sys_fs_ready_devs: Some(devs([
                    ("/dev/nvme0n1p1".into(), BlockDevType::Partition),
                    ("/dev/nvme0n1p2".into(), BlockDevType::Partition),
                ])),
                sys_fs_devs: None,
                sys_lvms: None,

                manifest: Manifest {
                    disks: Some(vec![
                        ManifestDisk {
                            device: "./mock_devs/sda".into(),
                            table: PartitionTable::Gpt,
                            partitions: vec![
                                ManifestPartition {
                                    label: "PART_EFI".into(),
                                    size: Some("500M".into()),
                                    part_type: "ef".into(),
                                },
                                ManifestPartition {
                                    label: "PART_PV".into(),
                                    size: None,
                                    part_type: "8e".into(),
                                },
                            ],
                        },
                    ]),
                    dm: Some(vec![Dm::Lvm(ManifestLvm {
                        pvs: Some(vec![
                            "./mock_devs/sda2".into(),
                            "/dev/nvme0n1p1".into(),
                        ]),
                        vgs: Some(vec![ManifestLvmVg {
                            name: "myvg".into(),
                            pvs: vec![
                                "./mock_devs/sda2".into(),
                                "/dev/nvme0n1p1".into(),
                            ],
                        }]),
                        lvs: Some(vec![ManifestLvmLv {
                            name: "mylv".into(),
                            vg: "myvg".into(),
                            size: None,
                        }]),
                    })]),
                    rootfs: ManifestRootFs(ManifestFs {
                        device: "/dev/myvg/mylv".into(),
                        mnt: "/".into(),
                        fs_type: "btrfs".into(),
                        fs_opts: None,
                        mnt_opts:None,
                    }),
                    filesystems: None,
                    swap: Some(vec!["/dev/nvme0n1p2".into()]),
                    pacstraps: None,
                    chroot: None,
                    postinstall: None,
                    hostname: None,
                    timezone: None,
                },
            },

            Test {
                case: "Root on manifest LVM, built on manifest/existing partition. Swap on manifest partition".into(),
                context: None,
                sys_fs_ready_devs: Some(devs([
                    ("/dev/nvme0n1p1".into(), BlockDevType::Partition),
                    ("/dev/nvme0n1p2".into(), BlockDevType::Partition),
                ])),
                sys_fs_devs: None,
                sys_lvms: None,

                manifest: Manifest {
                    disks: Some(vec![
                        ManifestDisk {
                            device: "./mock_devs/sda".into(),
                            table: PartitionTable::Gpt,
                            partitions: vec![
                                ManifestPartition {
                                    label: "PART_EFI".into(),
                                    size: Some("500M".into()),
                                    part_type: "ef".into(),
                                },
                                ManifestPartition {
                                    label: "PART_PV1".into(),
                                    size: None,
                                    part_type: "8e".into(),
                                },
                            ],
                        },
                        ManifestDisk {
                            device: "./mock_devs/sdb".into(),
                            table: PartitionTable::Mbr,
                            partitions: vec![
                                ManifestPartition {
                                    label: "PART_PV2".into(),
                                    size: None,
                                    part_type: "8e".into(),
                                }
                            ]
                        },
                    ]),
                    dm: Some(vec![Dm::Lvm(ManifestLvm {
                        pvs: Some(vec![
                            "./mock_devs/sda2".into(),
                            "./mock_devs/sdb1".into(),
                            "/dev/nvme0n1p2".into(),
                        ]),
                        vgs: Some(vec![ManifestLvmVg {
                            name: "myvg".into(),
                            pvs: vec![
                                "./mock_devs/sda2".into(),
                                "./mock_devs/sdb1".into(),
                                "/dev/nvme0n1p2".into(),
                            ],
                        }]),
                        lvs: Some(vec![ManifestLvmLv {
                            name: "mylv".into(),
                            vg: "myvg".into(),
                            size: None,
                        }]),
                    })]),
                    rootfs: ManifestRootFs(ManifestFs {
                        device: "/dev/myvg/mylv".into(),
                        mnt: "/".into(),
                        fs_type: "btrfs".into(),
                        fs_opts: None,
                        mnt_opts: None,
                    }),
                    filesystems: None,
                    swap: Some(vec!["/dev/nvme0n1p1".into()]),
                    pacstraps: None,
                    chroot: None,
                    postinstall: None,
                    hostname: None,
                    timezone: None,
                },
            },

            Test {
                case: "Root and Swap on manifest LVs from the same VG".into(),
                context: Some("2 LVs on 1 VGs - VGs on 3 PVs".into()),
                sys_fs_ready_devs: Some(devs([
                    ("/dev/nvme0n1p1".into(), BlockDevType::Partition),
                    ("/dev/nvme0n1p2".into(), BlockDevType::Partition)],
                )),
                sys_fs_devs: None,
                sys_lvms: None,

                manifest: Manifest {
                    disks: Some(vec![
                        ManifestDisk {
                            device: "./mock_devs/sda".into(),
                            table: PartitionTable::Gpt,
                            partitions: vec![
                                ManifestPartition {
                                    label: "PART_EFI".into(),
                                    size: Some("500M".into()),
                                    part_type: "ef".into(),
                                },
                                ManifestPartition {
                                    label: "PART_PV1".into(),
                                    size: None,
                                    part_type: "8e".into(),
                                },
                            ],
                        },
                        ManifestDisk {
                            device: "./mock_devs/sdb".into(),
                            table: PartitionTable::Mbr,
                            partitions: vec![
                                ManifestPartition {
                                    label: "PART_PV2".into(),
                                    size: None,
                                    part_type: "8e".into(),
                                }
                            ]
                        },
                    ]),
                    dm: Some(vec![Dm::Lvm(ManifestLvm {
                        pvs: Some(vec![
                            "./mock_devs/sda2".into(),
                            "./mock_devs/sdb1".into(),
                            "/dev/nvme0n1p2".into(),
                        ]),
                        vgs: Some(vec![ManifestLvmVg {
                            name: "myvg".into(),
                            pvs: vec![
                                "./mock_devs/sda2".into(),
                                "./mock_devs/sdb1".into(),
                                "/dev/nvme0n1p2".into(),
                            ],
                        }]),
                        lvs: Some(vec![
                            ManifestLvmLv {
                                name: "myswap".into(),
                                vg: "myvg".into(),
                                size: Some("8G".into()),
                            },
                            ManifestLvmLv {
                                name: "mylv".into(),
                                vg: "myvg".into(),
                                size: None,
                            },
                        ]),
                    })]),
                    rootfs: ManifestRootFs(ManifestFs {
                        device: "/dev/myvg/mylv".into(),
                        mnt: "/".into(),
                        fs_type: "btrfs".into(),
                        fs_opts: None,
                        mnt_opts: None,
                    }),
                    filesystems: None,
                    swap: Some(vec!["/dev/myvg/myswap".into()]),
                    pacstraps: None,
                    chroot: None,
                    postinstall: None,
                    hostname: None,
                    timezone: None,
                },
            },

            Test {
                case: "Root and Swap on manifest LVs from the same VG".into(),
                context: Some("2 LVs on 1 VG on 4 PVs. One of the PV already exists".into()),
                sys_fs_ready_devs: Some(devs([
                    ("/dev/nvme0n1p1".into(), BlockDevType::Partition),
                    ("/dev/nvme0n1p2".into(), BlockDevType::Partition),
                ])),
                sys_fs_devs: None,
                sys_lvms: Some(lvms([
                    ("/dev/nvme0n2p7".into(), vec![
                        path(
                            [BlockDev { device: "/dev/nvme0n2p7".into(), device_type: type_pv() }],
                        ),
                    ]),
                ])),

                manifest: Manifest {
                    disks: Some(vec![
                        ManifestDisk {
                            device: "./mock_devs/sda".into(),
                            table: PartitionTable::Gpt,
                            partitions: vec![
                                ManifestPartition {
                                    label: "PART_EFI".into(),
                                    size: Some("500M".into()),
                                    part_type: "ef".into(),
                                },
                                ManifestPartition {
                                    label: "PART_PV1".into(),
                                    size: None,
                                    part_type: "8e".into(),
                                },
                            ],
                        },
                        ManifestDisk {
                            device: "./mock_devs/sdb".into(),
                            table: PartitionTable::Mbr,
                            partitions: vec![
                                ManifestPartition {
                                    label: "PART_PV2".into(),
                                    size: None,
                                    part_type: "8e".into(),
                                }
                            ]
                        },
                    ]),
                    dm: Some(vec![Dm::Lvm(ManifestLvm {
                        pvs: Some(vec![
                            "./mock_devs/sda2".into(),
                            "./mock_devs/sdb1".into(),
                            "/dev/nvme0n1p2".into(),
                        ]),
                        vgs: Some(vec![ManifestLvmVg {
                            name: "myvg".into(),
                            pvs: vec![
                                "./mock_devs/sda2".into(),
                                "./mock_devs/sdb1".into(),
                                "/dev/nvme0n1p2".into(),
                                "/dev/nvme0n2p7".into(),
                            ],
                        }]),
                        lvs: Some(vec![
                            ManifestLvmLv {
                                name: "myswap".into(),
                                vg: "myvg".into(),
                                size: Some("8G".into()),
                            },
                            ManifestLvmLv {
                                name: "mylv".into(),
                                vg: "myvg".into(),
                                size: None,
                            }
                        ]),
                    })]),
                    rootfs: ManifestRootFs(ManifestFs {
                        device: "/dev/myvg/mylv".into(),
                        mnt: "/".into(),
                        fs_type: "btrfs".into(),
                        fs_opts: None,
                        mnt_opts: None,
                    }),
                    filesystems: None,
                    swap: Some(vec!["/dev/myvg/myswap".into()]),
                    pacstraps: None,
                    chroot: None,
                    postinstall: None,
                    hostname: None,
                    timezone: None,
                },
            },

            Test {
                case: "Multiple LVs on multiple VGs on multiple PVs".into(),
                context: Some("3 LVs on 2 VGs, each VG on 2 PVs - one PV already exists".into()),
                sys_fs_ready_devs: Some(devs([
                    ("/dev/nvme0n1p1".into(), BlockDevType::Partition),
                    ("/dev/nvme0n1p2".into(), BlockDevType::Partition),
                ])),
                sys_fs_devs: None,
                sys_lvms: Some(lvms([(
                    "/dev/nvme0n2p7".into(),
                    vec![path([BlockDev {
                        device: "/dev/nvme0n2p7".into(),
                        device_type: type_pv(),
                    }])],
                )])),

                manifest: Manifest {
                    disks: Some(vec![
                        ManifestDisk {
                            device: "./mock_devs/sda".into(),
                            table: PartitionTable::Gpt,
                            partitions: vec![
                                ManifestPartition {
                                    label: "PART_EFI".into(),
                                    size: Some("500M".into()),
                                    part_type: "ef".into(),
                                },
                                ManifestPartition {
                                    label: "PART_PV1".into(),
                                    size: None,
                                    part_type: "8e".into(),
                                },
                            ],
                        },
                        ManifestDisk {
                            device: "./mock_devs/sdb".into(),
                            table: PartitionTable::Mbr,
                            partitions: vec![ManifestPartition {
                                label: "PART_PV2".into(),
                                size: None,
                                part_type: "8e".into(),
                            }],
                        },
                    ]),
                dm: Some(vec![Dm::Lvm(ManifestLvm {
                    pvs: Some(vec![
                        "./mock_devs/sda2".into(),
                        "./mock_devs/sdb1".into(),
                        "/dev/nvme0n1p2".into(),
                    ]),
                    vgs: Some(vec![
                        ManifestLvmVg {
                            name: "mysatavg".into(),
                            pvs: vec!["./mock_devs/sda2".into(), "./mock_devs/sdb1".into()],
                        },
                        ManifestLvmVg {
                            name: "mynvmevg".into(),
                            pvs: vec!["/dev/nvme0n1p2".into(), "/dev/nvme0n2p7".into()],
                        },
                    ]),
                    lvs: Some(vec![
                        ManifestLvmLv {
                            name: "myswap".into(),
                            vg: "mynvmevg".into(),
                            size: None,
                        },
                        ManifestLvmLv {
                            name: "rootlv".into(),
                            vg: "mysatavg".into(),
                            size: Some("20G".into()),
                        },
                        ManifestLvmLv {
                            name: "datalv".into(),
                            vg: "mysatavg".into(),
                            size: None,
                        },
                    ]),
                })]),
                rootfs: ManifestRootFs(ManifestFs {
                    device: "/dev/mysatavg/rootlv".into(),
                    mnt: "/".into(),
                    fs_type: "btrfs".into(),
                    fs_opts: None,
                    mnt_opts: None,
                }),
                filesystems: Some(vec![ManifestFs {
                    device: "/dev/mysatavg/datalv".into(),
                    mnt: "/opt/data".into(),
                    fs_type: "xfs".into(),
                    fs_opts: None,
                    mnt_opts: None,
                }]),
                swap: Some(vec!["/dev/mynvmevg/myswap".into()]),
                pacstraps: None,
                chroot: None,
                postinstall: None,
                hostname: None,
                timezone: None,
            },
        },
    ];

    let tests_should_err: Vec<Test> = vec![
        Test {
            case: "No manifest disks, root on non-existent, swap on non-existent".into(),
            context: None,
            sys_fs_ready_devs: None,
            sys_fs_devs: None,
            sys_lvms: None,

            manifest: Manifest {
                disks: None,
                dm: None,
                rootfs: ManifestRootFs(ManifestFs {
                    device: "/dev/sda1".into(),
                    mnt: "/".into(),
                    fs_type: "btrfs".into(),
                    fs_opts: None,
                    mnt_opts: None,
                }),
                filesystems: None,
                swap: Some(vec!["/dev/nvme0n1p2".into()]),
                pacstraps: None,
                chroot: None,
                postinstall: None,
                hostname: None,
                timezone: None,
            },
        },

        Test {
            case: "No manifest disks, root on existing ext4 fs, swap on non-existent".into(),
            context: None,
            sys_fs_ready_devs: None,
            sys_fs_devs: Some(devs([(
                "/dev/sda1".into(),
                BlockDevType::Fs("btrfs".into()),
            )])),
            sys_lvms: None,

            manifest: Manifest {
                disks: None,
                dm: None,
                rootfs: ManifestRootFs(ManifestFs {
                    device: "/dev/sda1".into(),
                    mnt: "/".into(),
                    fs_type: "btrfs".into(),
                    fs_opts: None,
                    mnt_opts: None,
                }),
                filesystems: None,
                swap: Some(vec!["/dev/nvme0n1p2".into()]),
                pacstraps: None,
                chroot: None,
                postinstall: None,
                hostname: None,
                timezone: None,
            },
        },

        Test {
            case: "Root on LVM, built on manifest partitions, but missing LV manifest".into(),
            context: None,
            sys_fs_ready_devs: Some(devs([(
                "/dev/nvme0n1p2".into(),
                BlockDevType::Disk,
            )])),
            sys_fs_devs: None,
            sys_lvms: None,

            manifest: Manifest {
                disks: Some(vec![
                    ManifestDisk {
                        device: "./mock_devs/sda".into(),
                        table: PartitionTable::Gpt,
                        partitions: vec![
                            ManifestPartition {
                                label: "PART_EFI".into(),
                                size: Some("500M".into()),
                                part_type: "ef".into(),
                            },
                            ManifestPartition {
                                label: "PART_PV".into(),
                                size: None,
                                part_type: "8e".into(),
                            },
                        ],
                }]),
                dm: Some(vec![Dm::Lvm(ManifestLvm {
                    pvs: Some(vec![
                        "./mock_devs/sda2".into(),
                    ]),
                    vgs: Some(vec![ManifestLvmVg {
                        name: "myvg".into(),
                        pvs: vec!["./mock_devs/sda2".into()],
                    }]),
                    lvs: None,
                })]),
                rootfs: ManifestRootFs(ManifestFs {
                    device: "/dev/myvg/mylv".into(),
                    mnt: "/".into(),
                    fs_type: "btrfs".into(),
                    fs_opts: None,
                    mnt_opts: None,
                }),
                filesystems: None,
                swap: Some(vec!["/dev/nvme0n1p2".into()]),
                pacstraps: None,
                chroot: None,
                postinstall: None,
                hostname: None,
                timezone: None,
            },
        },

        Test {
            case: "Root on LVM, built on manifest partitions".into(),
            context: Some("VG is based on used PV".into()),
            sys_fs_ready_devs: Some(devs([(
                "/dev/nvme0n1p2".into(),
                BlockDevType::Disk,
            )])),
            sys_fs_devs: None,
            sys_lvms: None,

            manifest: Manifest {
                disks: Some(vec![
                    ManifestDisk {
                        device: "./mock_devs/sda".into(),
                        table: PartitionTable::Gpt,
                        partitions: vec![
                            ManifestPartition {
                                label: "PART_EFI".into(),
                                size: Some("500M".into()),
                                part_type: "ef".into(),
                            },
                            ManifestPartition {
                                label: "PART_PV".into(),
                                size: None,
                                part_type: "8e".into(),
                            },
                        ],
                }]),
                dm: Some(vec![Dm::Lvm(ManifestLvm {
                    pvs: Some(vec!["./mock_devs/sda2".into()]),
                    vgs: Some(vec![
                        ManifestLvmVg {
                            name: "myvg".into(),
                            pvs: vec!["./mock_devs/sda2".into()],
                        },
                        ManifestLvmVg {
                            name: "somevg".into(),
                            pvs: vec!["./mock_devs/sda2".into()],
                        },
                    ]),
                    lvs: None,
                })]),
                rootfs: ManifestRootFs(ManifestFs {
                    device: "/dev/myvg/mylv".into(),
                    mnt: "/".into(),
                    fs_type: "btrfs".into(),
                    fs_opts: None,
                    mnt_opts: None,
                }),
                filesystems: None,
                swap: Some(vec!["/dev/nvme0n1p2".into()]),
                pacstraps: None,
                chroot: None,
                postinstall: None,
                hostname: None,
                timezone: None,
            },
        },

        Test {
            case: "Root on LVM, built on manifest partitions, but 1 fs is re-using rootfs LV".into(),
            context: None,
            sys_fs_ready_devs: Some(devs([(
                "/dev/nvme0n1p2".into(),
                BlockDevType::Disk,
            )])),
            sys_fs_devs: None,
            sys_lvms: None,

            manifest: Manifest {
                disks: Some(vec![
                    ManifestDisk {
                        device: "./mock_devs/sda".into(),
                        table: PartitionTable::Gpt,
                        partitions: vec![
                            ManifestPartition {
                                label: "PART_EFI".into(),
                                size: Some("500M".into()),
                                part_type: "ef".into(),
                            },
                            ManifestPartition {
                                label: "PART_PV".into(),
                                size: None,
                                part_type: "8e".into(),
                            },
                        ],
                    },
                ]),
                dm: Some(vec![Dm::Lvm(ManifestLvm {
                    pvs: Some(vec!["./mock_devs/sda2".into()]),
                    vgs: Some(vec![ManifestLvmVg {
                        name: "myvg".into(),
                        pvs: vec!["./mock_devs/sda2".into()],
                    }]),
                    lvs: Some(vec![
                        ManifestLvmLv {
                            name: "mylv".into(),
                            vg: "myvg".into(),
                            size: None,
                        },
                    ]),
                })]),
                rootfs: ManifestRootFs(ManifestFs {
                    device: "/dev/myvg/mylv".into(),
                    mnt: "/".into(),
                    fs_type: "btrfs".into(),
                    fs_opts: None,
                    mnt_opts: None,
                }),
                filesystems: Some(vec![
                    ManifestFs {
                        device: "/dev/myvg.mylv".into(),
                        mnt: "/data".into(),
                        fs_type: "btrfs".into(),
                        fs_opts: None,
                        mnt_opts: None,
                    },
                ]),
                swap: Some(vec!["/dev/nvme0n1p2".into()]),
                pacstraps: None,
                chroot: None,
                postinstall: None,
                hostname: None,
                timezone: None,
            },
        },

         Test {
            case: "Root on manifest LVM, built on manifest partitions and existing partition. Swap on manifest partition that was used to build PV".into(),
            context: None,
            sys_fs_ready_devs: Some(devs(
                [("/dev/nvme0n1p1".into(), BlockDevType::Partition), ("/dev/nvme0n1p2".into(), BlockDevType::Partition)],
            )),
            sys_fs_devs: None,
            sys_lvms: None,

            manifest: Manifest {
                disks: Some(vec![
                    ManifestDisk {
                        device: "./mock_devs/sda".into(),
                        table: PartitionTable::Gpt,
                        partitions: vec![
                            ManifestPartition {
                                label: "PART_EFI".into(),
                                size: Some("500M".into()),
                                part_type: "ef".into(),
                            },
                            ManifestPartition {
                                label: "PART_PV1".into(),
                                size: None,
                                part_type: "8e".into(),
                            },
                        ],
                    },
                    ManifestDisk {
                        device: "./mock_devs/sdb".into(),
                        table: PartitionTable::Mbr,
                        partitions: vec![
                            ManifestPartition {
                                label: "PART_PV2".into(),
                                size: None,
                                part_type: "8e".into(),
                            }
                        ]
                    }]),
                dm: Some(vec![Dm::Lvm(ManifestLvm {
                    pvs: Some(vec![
                        "./mock_devs/sda2".into(),
                        "./mock_devs/sdb1".into(),
                        "/dev/nvme0n1p2".into(),
                    ]),
                    vgs: Some(vec![ManifestLvmVg {
                        name: "myvg".into(),
                        pvs: vec![
                            "./mock_devs/sda2".into(),
                            "./mock_devs/sdb1".into(),
                            "/dev/nvme0n1p2".into(),
                        ],
                    }]),
                    lvs: Some(vec![ManifestLvmLv {
                        name: "mylv".into(),
                        vg: "myvg".into(),
                        size: None,
                    }]),
                })]),
                rootfs: ManifestRootFs(ManifestFs {
                    device: "/dev/myvg/mylv".into(),
                    mnt: "/".into(),
                    fs_type: "btrfs".into(),
                    fs_opts: None,
                    mnt_opts: None,
                }),
                filesystems: None,
                swap: Some(vec!["/dev/nvme0n1p2".into()]), // Was already used as manifest PV
                pacstraps: None,
                chroot: None,
                postinstall: None,
                hostname: None,
                timezone: None,
            },
        },

        Test {
            case: "Root on manifest LVM, built on manifest partitions and non-existent partition. Swap on manifest partition".into(),
            context: None,
            sys_fs_ready_devs: Some(devs([("/dev/nvme0n1p1".into(), BlockDevType::Partition)])),
            sys_fs_devs: None,
            sys_lvms: None,
            manifest: Manifest {
                disks: Some(vec![
                    ManifestDisk {
                        device: "./mock_devs/sda".into(),
                        table: PartitionTable::Gpt,
                        partitions: vec![
                            ManifestPartition {
                                label: "PART_EFI".into(),
                                size: Some("500M".into()),
                                part_type: "ef".into(),
                            },
                            ManifestPartition {
                                label: "PART_PV1".into(),
                                size: None,
                                part_type: "8e".into(),
                            },
                        ],
                    },
                    ManifestDisk {
                        device: "./mock_devs/sdb".into(),
                        table: PartitionTable::Mbr,
                        partitions: vec![
                            ManifestPartition {
                                label: "PART_PV2".into(),
                                size: None,
                                part_type: "8e".into(),
                            }
                        ]
                    },
                ]),
                dm: Some(vec![Dm::Lvm(ManifestLvm {
                    pvs: Some(vec![
                        "./mock_devs/sda2".into(),
                        "./mock_devs/sdb1".into(),
                        "/dev/nvme0n1p2".into(),
                    ]),
                    vgs: Some(vec![ManifestLvmVg {
                        name: "myvg".into(),
                        pvs: vec![
                            "./mock_devs/sda2".into(),
                            "./mock_devs/sdb1".into(),
                            "/dev/nvme0n1p2".into(),
                        ],
                    }]),
                    lvs: Some(vec![ManifestLvmLv {
                        name: "mylv".into(),
                        vg: "myvg".into(),
                        size: None,
                    }]),
                })]),
                rootfs: ManifestRootFs(ManifestFs {
                    device: "/dev/myvg/mylv".into(),
                    mnt: "/".into(),
                    fs_type: "btrfs".into(),
                    fs_opts: None,
                    mnt_opts: None,
                }),
                filesystems: None,
                swap: Some(vec!["/dev/nvme0n1p1".into()]),
                pacstraps: None,
                chroot: None,
                postinstall: None,
                hostname: None,
                timezone: None,
            },
        },

        Test {
            case: "Root and Swap on manifest LVs from the same VG, but existing VG partition already has fs".into(),
            context: Some("2 LVs on 1 VG on 4 PVs, but 1 PV already has swap".into()),
            sys_fs_ready_devs: Some(devs([
                ("/dev/nvme0n1p1".into(), BlockDevType::Partition),
                ("/dev/nvme0n1p2".into(), BlockDevType::Partition),
            ])),
            sys_fs_devs: Some(devs([
                ("/dev/nvme0n2p7".into(), BlockDevType::Fs("swap".into())),
            ])),
            sys_lvms: None,

            manifest: Manifest {
                disks: Some(vec![
                    ManifestDisk {
                        device: "./mock_devs/sda".into(),
                        table: PartitionTable::Gpt,
                        partitions: vec![
                            ManifestPartition {
                                label: "PART_EFI".into(),
                                size: Some("500M".into()),
                                part_type: "ef".into(),
                            },
                            ManifestPartition {
                                label: "PART_PV1".into(),
                                size: None,
                                part_type: "8e".into(),
                            },
                        ],
                    },
                    ManifestDisk {
                        device: "./mock_devs/sdb".into(),
                        table: PartitionTable::Mbr,
                        partitions: vec![
                            ManifestPartition {
                                label: "PART_PV2".into(),
                                size: None,
                                part_type: "8e".into(),
                            },
                        ]
                    },
                ]),
                dm: Some(vec![Dm::Lvm(ManifestLvm {
                    pvs: Some(vec![
                        "./mock_devs/sda2".into(),
                        "./mock_devs/sdb1".into(),
                        "/dev/nvme0n1p2".into(),
                    ]),
                    vgs: Some(vec![ManifestLvmVg {
                        name: "myvg".into(),
                        pvs: vec![
                            "./mock_devs/sda2".into(),
                            "./mock_devs/sdb1".into(),
                            "/dev/nvme0n1p2".into(),
                            "/dev/nvme0n2p7".into(),
                        ],
                    }]),
                    lvs: Some(vec![
                    ManifestLvmLv {
                        name: "myswap".into(),
                        vg: "myvg".into(),
                        size: Some("8G".into()),
                    },
                    ManifestLvmLv {
                        name: "mylv".into(),
                        vg: "myvg".into(),
                        size: None,
                    }]),
                })]),
                rootfs: ManifestRootFs(ManifestFs {
                    device: "/dev/myvg/mylv".into(),
                    mnt: "/".into(),
                    fs_type: "btrfs".into(),
                    fs_opts: None,
                    mnt_opts: None,
                }),
                filesystems: None,
                swap: Some(vec!["/dev/myvg/myswap".into()]),
                pacstraps: None,
                chroot: None,
                postinstall: None,
                hostname: None,
                timezone: None,
            },
        },

        Test {
            case: "Root and Swap on manifest LVs from the same VG".into(),
            context: Some("2 LVs on 1 VG on 4 PVs, but 1 PV was already used".into()),
            sys_fs_ready_devs: Some(devs([
                ("/dev/nvme0n1p1".into(), BlockDevType::Partition),
                ("/dev/nvme0n1p2".into(), BlockDevType::Partition),
            ])),
            sys_fs_devs: None,
            sys_lvms: Some(lvms([
                ("/dev/nvme0n2p7".into(), vec![
                    path(
                        [
                            BlockDev { device: "/dev/nvme0n2p7".into(), device_type: type_pv() },
                            BlockDev { device: "/dev/sysvg".into(), device_type: type_vg() },
                        ],
                    ),
                ]),
            ])),

            manifest: Manifest {
                disks: Some(vec![
                    ManifestDisk {
                        device: "./mock_devs/sda".into(),
                        table: PartitionTable::Gpt,
                        partitions: vec![
                            ManifestPartition {
                                label: "PART_EFI".into(),
                                size: Some("500M".into()),
                                part_type: "ef".into(),
                            },
                            ManifestPartition {
                                label: "PART_PV1".into(),
                                size: None,
                                part_type: "8e".into(),
                            },
                        ],
                    },
                    ManifestDisk {
                        device: "./mock_devs/sdb".into(),
                        table: PartitionTable::Mbr,
                        partitions: vec![
                            ManifestPartition {
                                label: "PART_PV2".into(),
                                size: None,
                                part_type: "8e".into(),
                            }
                        ]
                    },
                ]),
                dm: Some(vec![Dm::Lvm(ManifestLvm {
                    pvs: Some(vec![
                        "./mock_devs/sda2".into(),
                        "./mock_devs/sdb1".into(),
                        "/dev/nvme0n1p2".into(),
                    ]),
                    vgs: Some(vec![ManifestLvmVg {
                        name: "myvg".into(),
                        pvs: vec![
                            "./mock_devs/sda2".into(),
                            "./mock_devs/sdb1".into(),
                            "/dev/nvme0n1p2".into(),
                            "/dev/nvme0n2p7".into(),
                        ],
                    }]),
                    lvs: Some(vec![
                    ManifestLvmLv {
                        name: "myswap".into(),
                        vg: "myvg".into(),
                        size: Some("8G".into()),
                    },
                    ManifestLvmLv {
                        name: "mylv".into(),
                        vg: "myvg".into(),
                        size: None,
                    }]),
                })]),
                rootfs: ManifestRootFs(ManifestFs {
                    device: "/dev/myvg/mylv".into(),
                    mnt: "/".into(),
                    fs_type: "btrfs".into(),
                    fs_opts: None,
                    mnt_opts: None,
                }),
                filesystems: None,
                swap: Some(vec!["/dev/myvg/myswap".into()]),
                pacstraps: None,
                chroot: None,
                postinstall: None,
                hostname: None,
                timezone: None,
            },
        },
    ];
    for (i, test) in tests_should_ok.iter().enumerate() {
        let result = validate_blk(
            &test.manifest,
            &copy_devs(&test.sys_fs_devs),
            &mock_files(),
            copy_devs(&test.sys_fs_ready_devs),
            copy_lvms(&test.sys_lvms),
        );

        if result.is_err() {
            println!("Unexpected error from test case {}: {}", i + 1, test.case);

            if let Some(ref ctx) = test.context {
                println!("\nCONTEXT: {ctx}\n");
            }

            println!("Test structure: {test:?}");
            println!("Error: {result:?}");
        }

        assert!(result.is_ok());
    }

    for (i, test) in tests_should_err.iter().enumerate() {
        let result = validate_blk(
            &test.manifest,
            &copy_devs(&test.sys_fs_devs),
            &mock_files(),
            copy_devs(&test.sys_fs_ready_devs),
            copy_lvms(&test.sys_lvms),
        );

        if result.is_ok() {
            println!(
                "Unexpected ok result from test case {}: {}",
                i + 1,
                test.case
            );

            if let Some(ref ctx) = test.context {
                println!("\nCONTEXT: {ctx}\n");
            }

            println!("Test structure: {test:?}");
        }

        assert!(result.is_err());
    }
}
