use ali::blockdev::{BlockDev, BlockDevType, DmType};
use ali::errors::NayiError;
use ali::hooks::apply_hook;
use ali::quicknet::parse_quicknet;
use ali::replace_token::HookReplaceToken;
use ali::state::{Select, SysLvm};
use ali::store::{
    append_if_tip_matches, find_first, has_device, is_base, listed, lvm_find, pv_has_vg,
    same_dev, selects, tips, without_copy, Base,
};

fn dev(path: &str, kind: BlockDevType) -> BlockDev {
    BlockDev { device: path.to_string(), device_type: kind }
}

fn pv(path: &str) -> BlockDev {
    dev(path, BlockDevType::Dm(DmType::LvmPv))
}

fn vg(path: &str) -> BlockDev {
    dev(path, BlockDevType::Dm(DmType::LvmVg))
}

fn lv(path: &str) -> BlockDev {
    dev(path, BlockDevType::Dm(DmType::LvmLv))
}

fn store() -> Vec<Vec<BlockDev>> {
    vec![
        vec![dev("/dev/sda", BlockDevType::Disk), dev("/dev/sda1", BlockDevType::Partition)],
        vec![],
        vec![dev("/dev/sdb", BlockDevType::Disk), pv("/dev/sdb")],
        vec![dev("/dev/sdc", BlockDevType::Disk), dev("/dev/sda1", BlockDevType::Partition)],
    ]
}

#[test]
fn node_goes_on_the_first_matching_tip() {
    let mut paths = store();
    let found = append_if_tip_matches(&mut paths, "/dev/sda1", Base::Pv, pv("/dev/sda1")).unwrap();
    assert!(found);
    assert_eq!(paths[0].len(), 3);
    assert_eq!(paths[0][2], pv("/dev/sda1"));
    assert_eq!(paths[3].len(), 2);

    let missing = append_if_tip_matches(&mut paths, "/dev/sdz", Base::Pv, pv("/dev/sdz")).unwrap();
    assert!(!missing);

    let before = paths.clone();
    let illegal = append_if_tip_matches(&mut paths, "/dev/sdb", Base::Lv, lv("/dev/g/l"));
    match illegal {
        Err(NayiError::BadManifest(text)) => assert_eq!(text, "device /dev/sdb is no legal base"),
        other => panic!("unexpected result: {:?}", other),
    }
    assert_eq!(paths, before);
    assert!(append_if_tip_matches(&mut paths, "/dev/sdb", Base::Vg, vg("/dev/g")).unwrap());
    assert_eq!(tips(&paths), vec!["/dev/sda1", "/dev/g", "/dev/sda1"]);
    assert!(tips(&vec![]).is_empty());
}

#[test]
fn bases_by_wish() {
    let part = BlockDevType::Partition;
    let group = BlockDevType::Dm(DmType::LvmVg);
    assert!(is_base(Base::Fs, &part));
    assert!(is_base(Base::Pv, &part));
    assert!(is_base(Base::Luks, &part));
    assert!(!is_base(Base::Vg, &part));
    assert!(!is_base(Base::Lv, &part));
    assert!(is_base(Base::Lv, &group));
    assert!(!is_base(Base::Fs, &group));
}

#[test]
fn choosing_stacks() {
    let paths = store();
    assert_eq!(find_first(&paths, &Select::TipNamed("/dev/sda1".into())), 0);
    assert_eq!(find_first(&paths, &Select::TipNamed("/dev/sdb".into())), 2);
    assert_eq!(find_first(&paths, &Select::TipNamed("/dev/sda".into())), 4);
    assert_eq!(find_first(&paths, &Select::TipIs(pv("/dev/sdb"))), 2);
    assert_eq!(find_first(&paths, &Select::TipIs(vg("/dev/sdb"))), 4);
    assert_eq!(find_first(&paths, &Select::FsTip("/dev/sdb".into())), 4);
    assert_eq!(find_first(&paths, &Select::BadLuksBase("/dev/sdb".into())), 2);
    assert!(!selects(&Select::TipNamed("".into()), &vec![]));

    let route = vec![pv("/dev/p"), vg("/dev/g"), lv("/dev/g/l")];
    assert!(selects(&Select::LuksRoute("/dev/g/l".into(), "/dev/g".into()), &route));
    assert!(!selects(&Select::LuksRoute("/dev/g/l".into(), "/dev/h".into()), &route));
    assert!(!selects(&Select::LuksRoute("/dev/g".into(), "/dev/p".into()), &route[..2].to_vec()));

    let lvms = vec![
        SysLvm { pv: "/dev/q".into(), paths: vec![vec![pv("/dev/q")]] },
        SysLvm { pv: "/dev/p".into(), paths: vec![vec![], route.clone()] },
    ];
    assert_eq!(lvm_find(&lvms, &Select::TipNamed("/dev/g/l".into())), 1);
    assert_eq!(lvm_find(&lvms, &Select::TipNamed("/dev/g".into())), 2);
    assert!(pv_has_vg(&lvms, "/dev/p"));
    assert!(!pv_has_vg(&lvms, "/dev/q"));
    assert!(!pv_has_vg(&lvms, "/dev/g"));
}

#[test]
fn device_lists() {
    let list = vec![
        dev("/dev/a", BlockDevType::Disk),
        dev("/dev/b", BlockDevType::Partition),
        dev("/dev/a", BlockDevType::Partition),
    ];
    assert!(has_device(&list, "/dev/a"));
    assert!(!has_device(&list, "/dev/c"));
    assert_eq!(without_copy(&list, "/dev/a"), vec![dev("/dev/b", BlockDevType::Partition)]);
    assert_eq!(without_copy(&list, "/dev/c"), list);
    assert!(same_dev(&list[0], &dev("/dev/a", BlockDevType::Disk)));
    assert!(!same_dev(&list[0], &list[2]));
    assert!(!same_dev(
        &dev("/dev/a", BlockDevType::Fs("ext4".into())),
        &dev("/dev/a", BlockDevType::Fs("xfs".into()))
    ));
    assert!(listed(&vec!["a".to_string(), "b".to_string()], "b"));
    assert!(!listed(&vec![], "b"));
}

fn hook_text(result: Result<impl std::fmt::Debug, NayiError>) -> String {
    match result {
        Err(NayiError::BadHookCmd(text)) => text,
        other => panic!("unexpected result: {:?}", other),
    }
}

#[test]
fn hooks_say_what_is_wrong() {
    assert_eq!(
        hook_text(parse_quicknet("@quicknet")),
        "@quicknet: bad cmd: only 1 string is supplied"
    );
    assert_eq!(
        hook_text(parse_quicknet("quicknet eth0")),
        "@quicknet: bad cmd: 1st part does not start with \"@quicknet\""
    );
    assert_eq!(hook_text(parse_quicknet("@quicknet dns")), "@quicknet: got only keyword `dns`");
    assert_eq!(hook_text(parse_quicknet("@quicknet a b")), "@quicknet: unexpected cmd parts: 3");
    assert_eq!(
        hook_text(parse_quicknet("@quicknet eth0 1.1.1.1 dns")),
        "@quicknet: \"dns\" keyword in bad position: 3"
    );
    assert_eq!(
        hook_text(parse_quicknet("@quicknet a b c")),
        "@quicknet: missing argument keyword \"dns\""
    );
    assert_eq!(
        hook_text(HookReplaceToken::try_from("@replace-token PORT")),
        "@replace-token: expect at least 2 arguments"
    );
    assert_eq!(
        hook_text(HookReplaceToken::try_from("@replace-token PORT 22")),
        "@replace-token: bad cmd parts (expecting 3-4): 3"
    );
    assert_eq!(
        hook_text(HookReplaceToken::try_from("@replace-token-print a b c d e")),
        "@replace-token-print: bad cmd parts (expecting 3-4): 6"
    );
    assert_eq!(hook_text(HookReplaceToken::try_from("PORT 1 /t")), "unexpected key PORT");
    assert_eq!(
        hook_text(HookReplaceToken::try_from("@replace-token A \"b /t")),
        "malformed hook cmd: @replace-token A \"b /t"
    );
    assert_eq!(hook_text(HookReplaceToken::try_from("")), "@replace-token: empty command");
    match apply_hook("@mystery now", false, "/mnt") {
        Err(NayiError::BadArgs(text)) => assert_eq!(text, "bad hook cmd: @mystery"),
        other => panic!("unexpected result: {:?}", other),
    }
    for cmd in ["@quicknet-print eth0", "@replace-token-print A b /t"] {
        let word = cmd.split_whitespace().next().unwrap();
        match apply_hook(cmd, false, "/mnt") {
            Err(NayiError::BadArgs(text)) => assert_eq!(text, format!("bad hook cmd: {word}")),
            other => panic!("unexpected result: {:?}", other),
        }
    }
    match apply_hook("", false, "/mnt") {
        Err(NayiError::BadManifest(text)) => assert_eq!(text, "empty hook"),
        other => panic!("unexpected result: {:?}", other),
    }
}

#[test]
fn white_space_is_what_std_says() {
    for c in '\0'..=char::MAX {
        assert_eq!(ali::text::is_white(c), c.is_whitespace(), "{:?}", c);
    }
}
