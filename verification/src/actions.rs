use vstd::prelude::*;
use vstd::string::*;
use crate::errors::{Fault, NayiError};
use crate::manifest::{items, Dm, ManifestLvm, ManifestLvmLv, ManifestLvmVg, PartitionTable};
use crate::state::names_view;
use crate::text::{concat, concat3, copy_names};

verus! {

/// One thing that the installation does or has done.
#[derive(Debug)]
pub enum Action {
    ApplyDisks,
    ApplyDms,
    ApplyDm,
    PrepareDisk { device: String },
    PrepareDm,
    CreateRootFs,
    ApplyFilesystems,
    MkdirRootFs,
    MountRootFs,
    Mkdir(String),
    MountFilesystems,
    CreatePartitionTable { device: String, table: PartitionTable },
    CreatePartition { device: String, number: usize, size: String },
    SetPartitionType { device: String, number: usize, partition_type: String },
    CreateDmLuks { device: String },
    CreateDmLvmPv(String),
    CreateDmLvmVg { pvs: Vec<String>, vg: String },
    CreateDmLvmLv { vg: String, lv: String },
    CreateFs { device: String, fs_type: String, fs_opts: Option<String>, mountpoint: Option<String> },
    MountFs { src: String, dst: String, opts: Option<String> },
    InstallPackages { packages: Vec<String> },
    AliArchChroot,
    GenFstab,
    SetHostname,
    SetTimezone(String),
    LocaleGen,
    LocaleConf,
    RunCommandsChroot { commands: Vec<String> },
    RunCommandsPostInstall { commands: Vec<String> },
}

/// The text of an optional field, as a model.
pub open spec fn opt_text(field: Option<String>) -> Option<Seq<char>> {
    match field {
        Some(s) => Some(s@),
        None => None,
    }
}

/// Mathematical model of an [`Action`]: the same action with its texts as
/// sequences of characters, the fields of each in the order of declaration.
pub enum ActionView {
    ApplyDisks,
    ApplyDms,
    ApplyDm,
    PrepareDisk(Seq<char>),
    PrepareDm,
    CreateRootFs,
    ApplyFilesystems,
    MkdirRootFs,
    MountRootFs,
    Mkdir(Seq<char>),
    MountFilesystems,
    CreatePartitionTable(Seq<char>, PartitionTable),
    CreatePartition(Seq<char>, nat, Seq<char>),
    SetPartitionType(Seq<char>, nat, Seq<char>),
    CreateDmLuks(Seq<char>),
    CreateDmLvmPv(Seq<char>),
    CreateDmLvmVg(Seq<Seq<char>>, Seq<char>),
    CreateDmLvmLv(Seq<char>, Seq<char>),
    CreateFs(Seq<char>, Seq<char>, Option<Seq<char>>, Option<Seq<char>>),
    MountFs(Seq<char>, Seq<char>, Option<Seq<char>>),
    InstallPackages(Seq<Seq<char>>),
    AliArchChroot,
    GenFstab,
    SetHostname,
    SetTimezone(Seq<char>),
    LocaleGen,
    LocaleConf,
    RunCommandsChroot(Seq<Seq<char>>),
    RunCommandsPostInstall(Seq<Seq<char>>),
}

impl View for Action {
    type V = ActionView;

    open spec fn view(&self) -> ActionView {
        match self {
            Action::ApplyDisks => ActionView::ApplyDisks,
            Action::ApplyDms => ActionView::ApplyDms,
            Action::ApplyDm => ActionView::ApplyDm,
            Action::PrepareDisk { device } => ActionView::PrepareDisk(device@),
            Action::PrepareDm => ActionView::PrepareDm,
            Action::CreateRootFs => ActionView::CreateRootFs,
            Action::ApplyFilesystems => ActionView::ApplyFilesystems,
            Action::MkdirRootFs => ActionView::MkdirRootFs,
            Action::MountRootFs => ActionView::MountRootFs,
            Action::Mkdir(dir) => ActionView::Mkdir(dir@),
            Action::MountFilesystems => ActionView::MountFilesystems,
            Action::CreatePartitionTable { device, table } => ActionView::CreatePartitionTable(
                device@,
                *table,
            ),
            Action::CreatePartition { device, number, size } => ActionView::CreatePartition(
                device@,
                *number as nat,
                size@,
            ),
            Action::SetPartitionType {
                device,
                number,
                partition_type,
            } => ActionView::SetPartitionType(device@, *number as nat, partition_type@),
            Action::CreateDmLuks { device } => ActionView::CreateDmLuks(device@),
            Action::CreateDmLvmPv(pv) => ActionView::CreateDmLvmPv(pv@),
            Action::CreateDmLvmVg { pvs, vg } => ActionView::CreateDmLvmVg(names_view(pvs@), vg@),
            Action::CreateDmLvmLv { vg, lv } => ActionView::CreateDmLvmLv(vg@, lv@),
            Action::CreateFs { device, fs_type, fs_opts, mountpoint } => ActionView::CreateFs(
                device@,
                fs_type@,
                opt_text(*fs_opts),
                opt_text(*mountpoint),
            ),
            Action::MountFs { src, dst, opts } => ActionView::MountFs(src@, dst@, opt_text(*opts)),
            Action::InstallPackages { packages } => ActionView::InstallPackages(
                names_view(packages@),
            ),
            Action::AliArchChroot => ActionView::AliArchChroot,
            Action::GenFstab => ActionView::GenFstab,
            Action::SetHostname => ActionView::SetHostname,
            Action::SetTimezone(zone) => ActionView::SetTimezone(zone@),
            Action::LocaleGen => ActionView::LocaleGen,
            Action::LocaleConf => ActionView::LocaleConf,
            Action::RunCommandsChroot { commands } => ActionView::RunCommandsChroot(
                names_view(commands@),
            ),
            Action::RunCommandsPostInstall { commands } => ActionView::RunCommandsPostInstall(
                names_view(commands@),
            ),
        }
    }
}

/// Model of a list of actions.
pub open spec fn acts_view(actions: Seq<Action>) -> Seq<ActionView> {
    Seq::new(actions.len(), |i: int| actions[i]@)
}

/// The actions that create the physical volumes, in order.
pub open spec fn pv_acts(pvs: Seq<String>) -> Seq<ActionView> {
    Seq::new(pvs.len(), |i: int| ActionView::CreateDmLvmPv(pvs[i]@))
}

/// The actions that create the volume groups, in order; a group's path is
/// `/dev/` and its name.
pub open spec fn vg_acts(vgs: Seq<ManifestLvmVg>) -> Seq<ActionView> {
    Seq::new(vgs.len(), |i: int| ActionView::CreateDmLvmVg(names_view(vgs[i].pvs@), "/dev/"@ + vgs[i].name@))
}

/// The actions that create the logical volumes, in order; a volume's path
/// is that of its group, `/`, and its name.
pub open spec fn lv_acts(lvs: Seq<ManifestLvmLv>) -> Seq<ActionView> {
    Seq::new(
        lvs.len(),
        |i: int| ActionView::CreateDmLvmLv("/dev/"@ + lvs[i].vg@, "/dev/"@ + lvs[i].vg@ + "/"@ + lvs[i].name@),
    )
}

/// The actions of one LVM block: physical volumes, volume groups, logical
/// volumes.
pub open spec fn lvm_acts(lvm: ManifestLvm) -> Seq<ActionView> {
    pv_acts(items(lvm.pvs)) + vg_acts(items(lvm.vgs)) + lv_acts(items(lvm.lvs))
}

/// The actions that set up one device-mapper entry, in the order in which
/// they are to be carried out. LUKS volumes cannot be set up yet.
pub fn apply_dm(dm: &Dm) -> (res: Result<Vec<Action>, NayiError>)
    ensures
        match res {
            Ok(actions) => dm is Lvm && acts_view(actions@) == lvm_acts(dm->Lvm_0),
            Err(e) => dm is Luks && e.fault() == Fault::NotImplemented,
        },
{
    match dm {
        Dm::Luks(_) => Err(NayiError::NotImplemented),
        Dm::Lvm(lvm) => {
            let mut actions: Vec<Action> = Vec::new();
            assert(acts_view(actions@) =~= pv_acts(Seq::<String>::empty()));
            match &lvm.pvs {
                Some(pvs) => {
                    let mut i: usize = 0;
                    assert(pvs@.take(0) =~= Seq::<String>::empty());
                    while i < pvs.len()
                        invariant
                            i <= pvs.len(),
                            acts_view(actions@) == pv_acts(pvs@.take(i as int)),
                        decreases pvs.len() - i,
                    {
                        let ghost before = acts_view(actions@);
                        actions.push(Action::CreateDmLvmPv(pvs[i].clone()));
                        assert(acts_view(actions@) =~= before.push(ActionView::CreateDmLvmPv(pvs@[i as int]@)));
                        i += 1;
                        assert(before.push(ActionView::CreateDmLvmPv(pvs@[i - 1]@)) =~= pv_acts(
                            pvs@.take(i as int),
                        ));
                    }
                    assert(pvs@.take(i as int) =~= pvs@);
                },
                None => {},
            }
            let ghost with_pvs = acts_view(actions@);
            assert(with_pvs =~= with_pvs + vg_acts(Seq::<ManifestLvmVg>::empty()));
            match &lvm.vgs {
                Some(vgs) => {
                    let mut i: usize = 0;
                    assert(vgs@.take(0) =~= Seq::<ManifestLvmVg>::empty());
                    while i < vgs.len()
                        invariant
                            i <= vgs.len(),
                            acts_view(actions@) == with_pvs + vg_acts(vgs@.take(i as int)),
                        decreases vgs.len() - i,
                    {
                        let ghost before = acts_view(actions@);
                        let vg_name = concat("/dev/", vgs[i].name.as_str());
                        let ghost act = ActionView::CreateDmLvmVg(names_view(vgs@[i as int].pvs@), vg_name@);
                        actions.push(
                            Action::CreateDmLvmVg { pvs: copy_names(&vgs[i].pvs), vg: vg_name },
                        );
                        assert(acts_view(actions@) =~= before.push(act));
                        i += 1;
                        assert(before.push(act) =~= with_pvs + vg_acts(vgs@.take(i as int)));
                    }
                    assert(vgs@.take(i as int) =~= vgs@);
                },
                None => {},
            }
            let ghost with_vgs = acts_view(actions@);
            assert(with_vgs =~= with_vgs + lv_acts(Seq::<ManifestLvmLv>::empty()));
            match &lvm.lvs {
                Some(lvs) => {
                    let mut i: usize = 0;
                    assert(lvs@.take(0) =~= Seq::<ManifestLvmLv>::empty());
                    while i < lvs.len()
                        invariant
                            i <= lvs.len(),
                            acts_view(actions@) == with_vgs + lv_acts(lvs@.take(i as int)),
                        decreases lvs.len() - i,
                    {
                        let ghost before = acts_view(actions@);
                        let vg_name = concat("/dev/", lvs[i].vg.as_str());
                        let lv_name = concat3(vg_name.as_str(), "/", lvs[i].name.as_str());
                        let ghost act = ActionView::CreateDmLvmLv(vg_name@, lv_name@);
                        actions.push(Action::CreateDmLvmLv { vg: vg_name, lv: lv_name });
                        assert(acts_view(actions@) =~= before.push(act));
                        i += 1;
                        assert(before.push(act) =~= with_vgs + lv_acts(lvs@.take(i as int)));
                    }
                    assert(lvs@.take(i as int) =~= lvs@);
                },
                None => {},
            }
            Ok(actions)
        },
    }
}

/// What is known when setting up the device mappers stops: the failure, the
/// action it belongs to, and the actions planned up to there.
#[derive(Debug)]
pub struct InstallError {
    pub error: NayiError,
    pub action_failed: Action,
    pub actions_performed: Vec<Action>,
}

/// The LVM actions of the entries before `upto`, in order.
pub open spec fn dms_acts(dms: Seq<Dm>, upto: int) -> Seq<ActionView>
    decreases upto,
{
    if upto <= 0 || upto > dms.len() {
        Seq::empty()
    } else {
        match dms[upto - 1] {
            Dm::Lvm(lvm) => dms_acts(dms, upto - 1) + lvm_acts(lvm),
            Dm::Luks(_) => dms_acts(dms, upto - 1),
        }
    }
}

/// Index of the first LUKS entry, or the number of entries.
pub open spec fn first_luks(dms: Seq<Dm>, from: int) -> int
    decreases dms.len() - from,
{
    if from < 0 || from >= dms.len() {
        dms.len() as int
    } else if dms[from] is Luks {
        from
    } else {
        first_luks(dms, from + 1)
    }
}

/// The actions that set up the device mappers of a manifest, entry after
/// entry. The first LUKS entry stops the work: the failure then holds the
/// actions of the entries before it.
pub fn apply_dms(dms: &Vec<Dm>) -> (res: Result<Vec<Action>, InstallError>)
    ensures
        match res {
            Ok(actions) => first_luks(dms@, 0) == dms@.len() && acts_view(actions@) == dms_acts(
                dms@,
                dms@.len() as int,
            ),
            Err(e) => first_luks(dms@, 0) < dms@.len() && e.error.fault() == Fault::NotImplemented
                && e.action_failed is ApplyDm && acts_view(e.actions_performed@) == dms_acts(
                dms@,
                first_luks(dms@, 0),
            ),
        },
{
    let mut actions: Vec<Action> = Vec::new();
    let mut k: usize = 0;
    assert(acts_view(actions@) =~= dms_acts(dms@, 0));
    while k < dms.len()
        invariant
            k <= dms.len(),
            first_luks(dms@, 0) == first_luks(dms@, k as int),
            acts_view(actions@) == dms_acts(dms@, k as int),
        decreases dms.len() - k,
    {
        match apply_dm(&dms[k]) {
            Err(err) => {
                return Err(
                    InstallError {
                        error: err,
                        action_failed: Action::ApplyDm,
                        actions_performed: actions,
                    },
                );
            },
            Ok(more) => {
                let ghost before = acts_view(actions@);
                let ghost added = acts_view(more@);
                let mut more = more;
                append_actions(&mut actions, &mut more);
                assert(acts_view(actions@) =~= before + added);
            },
        }
        k += 1;
    }
    Ok(actions)
}

fn append_actions(actions: &mut Vec<Action>, more: &mut Vec<Action>)
    ensures
        final(actions)@ == old(actions)@ + old(more)@,
{
    actions.append(more);
}

/// One run of an LVM tool: the program and its arguments.
#[derive(Debug)]
pub struct LvmRun {
    pub program: String,
    pub args: Vec<String>,
}

/// Mathematical model of an [`LvmRun`].
pub struct ToolRun {
    pub program: Seq<char>,
    pub args: Seq<Seq<char>>,
}

impl View for LvmRun {
    type V = ToolRun;

    open spec fn view(&self) -> ToolRun {
        ToolRun { program: self.program@, args: names_view(self.args@) }
    }
}

/// Model of a list of runs.
pub open spec fn runs_view(runs: Seq<LvmRun>) -> Seq<ToolRun> {
    Seq::new(runs.len(), |i: int| runs[i]@)
}

/// `pvcreate` with the device.
pub open spec fn pv_run(pv: Seq<char>) -> ToolRun {
    ToolRun { program: "pvcreate"@, args: seq![pv] }
}

/// `vgcreate` with the group's name and then its physical volumes.
pub open spec fn vg_run(vg: ManifestLvmVg) -> ToolRun {
    ToolRun { program: "vgcreate"@, args: seq![vg.name@] + names_view(vg.pvs@) }
}

/// `lvcreate` on the volume's group under its name: with `-L` and the size,
/// or with `-l 100%FREE` where the volume has none.
pub open spec fn lv_run(lv: ManifestLvmLv) -> ToolRun {
    ToolRun {
        program: "lvcreate"@,
        args: match lv.size {
            Some(size) => seq!["-L"@, size@, lv.vg@, "-n"@, lv.name@],
            None => seq!["-l"@, "100%FREE"@, lv.vg@, "-n"@, lv.name@],
        },
    }
}

/// The runs that initialise the physical volumes, in order.
pub open spec fn pv_runs(pvs: Seq<String>) -> Seq<ToolRun> {
    Seq::new(pvs.len(), |i: int| pv_run(pvs[i]@))
}

/// The runs that create the volume groups, in order.
pub open spec fn vg_runs(vgs: Seq<ManifestLvmVg>) -> Seq<ToolRun> {
    Seq::new(vgs.len(), |i: int| vg_run(vgs[i]))
}

/// The runs that create the logical volumes, in order.
pub open spec fn lv_runs(lvs: Seq<ManifestLvmLv>) -> Seq<ToolRun> {
    Seq::new(lvs.len(), |i: int| lv_run(lvs[i]))
}

/// The runs that carry out the actions of one LVM block, one run for each
/// action of [`lvm_acts`], in the same order.
pub open spec fn lvm_runs(lvm: ManifestLvm) -> Seq<ToolRun> {
    pv_runs(items(lvm.pvs)) + vg_runs(items(lvm.vgs)) + lv_runs(items(lvm.lvs))
}

/// The run that creates a volume group.
pub fn vgcreate_run(vg: &ManifestLvmVg) -> (run: LvmRun)
    ensures
        run@ == vg_run(*vg),
{
    let mut args: Vec<String> = Vec::new();
    args.push(vg.name.clone());
    let ghost head = names_view(args@);
    assert(head =~= seq![vg.name@]);
    let mut i: usize = 0;
    assert(names_view(args@) =~= head + names_view(vg.pvs@).take(0));
    while i < vg.pvs.len()
        invariant
            i <= vg.pvs.len(),
            head == seq![vg.name@],
            names_view(args@) == head + names_view(vg.pvs@).take(i as int),
        decreases vg.pvs.len() - i,
    {
        let ghost before = names_view(args@);
        args.push(vg.pvs[i].clone());
        assert(names_view(args@) =~= before.push(vg.pvs@[i as int]@));
        i += 1;
        assert(before.push(vg.pvs@[i - 1]@) =~= head + names_view(vg.pvs@).take(i as int));
    }
    assert(names_view(vg.pvs@).take(i as int) =~= names_view(vg.pvs@));
    LvmRun { program: String::from_str("vgcreate"), args }
}

/// The run that creates a logical volume.
pub fn lvcreate_run(lv: &ManifestLvmLv) -> (run: LvmRun)
    ensures
        run@ == lv_run(*lv),
{
    let mut args: Vec<String> = Vec::new();
    match &lv.size {
        Some(size) => {
            args.push(String::from_str("-L"));
            args.push(size.clone());
        },
        None => {
            args.push(String::from_str("-l"));
            args.push(String::from_str("100%FREE"));
        },
    }
    args.push(lv.vg.clone());
    args.push(String::from_str("-n"));
    args.push(lv.name.clone());
    assert(names_view(args@) =~= lv_run(*lv).args);
    LvmRun { program: String::from_str("lvcreate"), args }
}

/// The run that initialises a physical volume.
pub fn pvcreate_run(pv: &str) -> (run: LvmRun)
    ensures
        run@ == pv_run(pv@),
{
    let mut args: Vec<String> = Vec::new();
    args.push(String::from_str(pv));
    assert(names_view(args@) =~= seq![pv@]);
    LvmRun { program: String::from_str("pvcreate"), args }
}

/// The runs that carry out the actions that [`apply_dm`] plans for an LVM
/// block, one for each action, in the same order.
pub fn lvm_commands(lvm: &ManifestLvm) -> (runs: Vec<LvmRun>)
    ensures
        runs_view(runs@) == lvm_runs(*lvm),
        runs@.len() == lvm_acts(*lvm).len(),
{
    let mut runs: Vec<LvmRun> = Vec::new();
    assert(runs_view(runs@) =~= pv_runs(Seq::<String>::empty()));
    match &lvm.pvs {
        Some(pvs) => {
            let mut i: usize = 0;
            assert(pvs@.take(0) =~= Seq::<String>::empty());
            while i < pvs.len()
                invariant
                    i <= pvs.len(),
                    runs_view(runs@) == pv_runs(pvs@.take(i as int)),
                decreases pvs.len() - i,
            {
                let ghost before = runs_view(runs@);
                runs.push(pvcreate_run(pvs[i].as_str()));
                assert(runs_view(runs@) =~= before.push(pv_run(pvs@[i as int]@)));
                i += 1;
                assert(before.push(pv_run(pvs@[i - 1]@)) =~= pv_runs(pvs@.take(i as int)));
            }
            assert(pvs@.take(i as int) =~= pvs@);
        },
        None => {},
    }
    let ghost with_pvs = runs_view(runs@);
    assert(with_pvs =~= with_pvs + vg_runs(Seq::<ManifestLvmVg>::empty()));
    match &lvm.vgs {
        Some(vgs) => {
            let mut i: usize = 0;
            assert(vgs@.take(0) =~= Seq::<ManifestLvmVg>::empty());
            while i < vgs.len()
                invariant
                    i <= vgs.len(),
                    runs_view(runs@) == with_pvs + vg_runs(vgs@.take(i as int)),
                decreases vgs.len() - i,
            {
                let ghost before = runs_view(runs@);
                runs.push(vgcreate_run(&vgs[i]));
                assert(runs_view(runs@) =~= before.push(vg_run(vgs@[i as int])));
                i += 1;
                assert(before.push(vg_run(vgs@[i - 1])) =~= with_pvs + vg_runs(
                    vgs@.take(i as int),
                ));
            }
            assert(vgs@.take(i as int) =~= vgs@);
        },
        None => {},
    }
    let ghost with_vgs = runs_view(runs@);
    assert(with_vgs =~= with_vgs + lv_runs(Seq::<ManifestLvmLv>::empty()));
    match &lvm.lvs {
        Some(lvs) => {
            let mut i: usize = 0;
            assert(lvs@.take(0) =~= Seq::<ManifestLvmLv>::empty());
            while i < lvs.len()
                invariant
                    i <= lvs.len(),
                    runs_view(runs@) == with_vgs + lv_runs(lvs@.take(i as int)),
                decreases lvs.len() - i,
            {
                let ghost before = runs_view(runs@);
                runs.push(lvcreate_run(&lvs[i]));
                assert(runs_view(runs@) =~= before.push(lv_run(lvs@[i as int])));
                i += 1;
                assert(before.push(lv_run(lvs@[i - 1])) =~= with_vgs + lv_runs(
                    lvs@.take(i as int),
                ));
            }
            assert(lvs@.take(i as int) =~= lvs@);
        },
        None => {},
    }
    assert(runs_view(runs@).len() == runs@.len());
    runs
}

} // verus!
