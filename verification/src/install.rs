use vstd::prelude::*;
use crate::actions::{Action, InstallError};
use crate::errors::NayiError;
use crate::manifest::Manifest;

verus! {

/// One stage of an installation. A stage that fails stops the
/// installation and is named in the failure.
#[derive(Debug, Clone, Copy, PartialEq, Eq)]
pub enum Stage {
    ApplyDisks,
    ApplyDms,
    CreateRootFs,
    ApplyFilesystems,
    MkdirRootFs,
    MountRootFs,
    MountFilesystems,
    InstallPackages,
    GenFstab,
    SetHostname,
    SetTimezone,
    CommandsChroot,
    CommandsPostInstall,
}

/// The stage, if the manifest has what it works on.
pub open spec fn when(present: bool, stage: Stage) -> Seq<Stage> {
    if present {
        seq![stage]
    } else {
        Seq::empty()
    }
}

/// The stages that install a manifest, in order: disks and device mappers
/// where it declares any; the root filesystem, then the others; the mount
/// point, the root mount, then the other mounts; the packages and the
/// filesystem table; host name and time zone where given; at last its
/// commands inside and outside the new system.
pub open spec fn stages(manifest: Manifest) -> Seq<Stage> {
    Seq::<Stage>::empty() + when(manifest.disks is Some, Stage::ApplyDisks) + when(
        manifest.dm is Some,
        Stage::ApplyDms,
    ) + when(true, Stage::CreateRootFs) + when(
        manifest.filesystems is Some,
        Stage::ApplyFilesystems,
    ) + when(true, Stage::MkdirRootFs) + when(true, Stage::MountRootFs) + when(
        manifest.filesystems is Some,
        Stage::MountFilesystems,
    ) + when(true, Stage::InstallPackages) + when(true, Stage::GenFstab) + when(
        manifest.hostname is Some,
        Stage::SetHostname,
    ) + when(manifest.timezone is Some, Stage::SetTimezone) + when(
        manifest.chroot is Some,
        Stage::CommandsChroot,
    ) + when(manifest.postinstall is Some, Stage::CommandsPostInstall)
}

fn push_when(list: &mut Vec<Stage>, present: bool, stage: Stage)
    ensures
        final(list)@ == old(list)@ + when(present, stage),
{
    let ghost before = list@;
    if present {
        list.push(stage);
        assert(list@ =~= before + when(present, stage));
    } else {
        assert(list@ =~= before + when(present, stage));
    }
}

/// The stages that install a manifest, in the order in which they are to
/// be carried out.
pub fn install_stages(manifest: &Manifest) -> (list: Vec<Stage>)
    ensures
        list@ == stages(*manifest),
{
    let mut list: Vec<Stage> = Vec::new();
    push_when(&mut list, manifest.disks.is_some(), Stage::ApplyDisks);
    push_when(&mut list, manifest.dm.is_some(), Stage::ApplyDms);
    push_when(&mut list, true, Stage::CreateRootFs);
    push_when(&mut list, manifest.filesystems.is_some(), Stage::ApplyFilesystems);
    push_when(&mut list, true, Stage::MkdirRootFs);
    push_when(&mut list, true, Stage::MountRootFs);
    push_when(&mut list, manifest.filesystems.is_some(), Stage::MountFilesystems);
    push_when(&mut list, true, Stage::InstallPackages);
    push_when(&mut list, true, Stage::GenFstab);
    push_when(&mut list, manifest.hostname.is_some(), Stage::SetHostname);
    push_when(&mut list, manifest.timezone.is_some(), Stage::SetTimezone);
    push_when(&mut list, manifest.chroot.is_some(), Stage::CommandsChroot);
    push_when(&mut list, manifest.postinstall.is_some(), Stage::CommandsPostInstall);
    list
}

impl Stage {
    /// The action under which a failure of this stage is reported, as a model.
    pub open spec fn reported(&self, action: Action) -> bool {
        match self {
            Stage::ApplyDisks => action is ApplyDisks,
            Stage::ApplyDms => action is ApplyDms,
            Stage::CreateRootFs => action is CreateRootFs,
            Stage::ApplyFilesystems => action is ApplyFilesystems,
            Stage::MkdirRootFs => action is MkdirRootFs,
            Stage::MountRootFs => action is MountRootFs,
            Stage::MountFilesystems => action is MountFilesystems,
            Stage::InstallPackages => action is InstallPackages && action->InstallPackages_packages@.len()
                == 0,
            Stage::GenFstab => action is GenFstab,
            Stage::SetHostname => action is SetHostname,
            Stage::SetTimezone => action is SetTimezone && action->SetTimezone_0@.len() == 0,
            Stage::CommandsChroot => action is RunCommandsChroot
                && action->RunCommandsChroot_commands@.len() == 0,
            Stage::CommandsPostInstall => action is RunCommandsPostInstall
                && action->RunCommandsPostInstall_commands@.len() == 0,
        }
    }

    /// The action under which a failure of this stage is reported; what the
    /// stage had done by then is for the caller to fill in.
    pub fn label(&self) -> (action: Action)
        ensures
            self.reported(action),
    {
        match self {
            Stage::ApplyDisks => Action::ApplyDisks,
            Stage::ApplyDms => Action::ApplyDms,
            Stage::CreateRootFs => Action::CreateRootFs,
            Stage::ApplyFilesystems => Action::ApplyFilesystems,
            Stage::MkdirRootFs => Action::MkdirRootFs,
            Stage::MountRootFs => Action::MountRootFs,
            Stage::MountFilesystems => Action::MountFilesystems,
            Stage::InstallPackages => Action::InstallPackages { packages: Vec::new() },
            Stage::GenFstab => Action::GenFstab,
            Stage::SetHostname => Action::SetHostname,
            Stage::SetTimezone => Action::SetTimezone(String::new()),
            Stage::CommandsChroot => Action::RunCommandsChroot { commands: Vec::new() },
            Stage::CommandsPostInstall => Action::RunCommandsPostInstall { commands: Vec::new() },
        }
    }
}

/// Takes note of how a step of the installation ended. The actions of a
/// step that went well join those done before. A step that failed stops the
/// installation: the record holds the failure, the action `label` under which
/// it is reported, and the actions done before the step.
pub fn record_action(
    done: &mut Vec<Action>,
    label: Action,
    outcome: Result<Vec<Action>, NayiError>,
) -> (res: Result<(), InstallError>)
    ensures
        match outcome {
            Ok(more) => res is Ok && final(done)@ == old(done)@ + more@,
            Err(e) => res is Err && res->Err_0.error == e && res->Err_0.action_failed == label
                && res->Err_0.actions_performed@ == old(done)@ && final(done)@.len() == 0,
        },
{
    match outcome {
        Ok(more) => {
            let mut more = more;
            done.append(&mut more);
            Ok(())
        },
        Err(error) => {
            let mut performed: Vec<Action> = Vec::new();
            let ghost before = done@;
            performed.append(done);
            assert(performed@ =~= before);
            Err(InstallError { error, action_failed: label, actions_performed: performed })
        },
    }
}

/// Takes note of how a stage of the installation ended: as
/// [`record_action`] does, under the action that stands for the stage.
pub fn record_stage(
    done: &mut Vec<Action>,
    stage: Stage,
    outcome: Result<Vec<Action>, NayiError>,
) -> (res: Result<(), InstallError>)
    ensures
        match outcome {
            Ok(more) => res is Ok && final(done)@ == old(done)@ + more@,
            Err(e) => res is Err && res->Err_0.error == e && stage.reported(
                res->Err_0.action_failed,
            ) && res->Err_0.actions_performed@ == old(done)@ && final(done)@.len() == 0,
        },
{
    record_action(done, stage.label(), outcome)
}

} // verus!
