use vstd::prelude::*;
use vstd::string::*;
use crate::manifest::ManifestFs;

verus! {

/// The quoted `mkfs` command line for a filesystem: `mkfs.` and the type,
/// the options if there are any, and the device.
pub open spec fn mkfs_command(fs: ManifestFs) -> Seq<char> {
    match fs.fs_opts {
        Some(opts) => "'mkfs."@ + fs.fs_type@ + " "@ + opts@ + " "@ + fs.device@ + "'"@,
        None => "'mkfs."@ + fs.fs_type@ + " "@ + fs.device@ + "'"@,
    }
}

/// The command line, quoted for `sh -c`, that creates the filesystem.
pub fn create_fs(fs: &ManifestFs) -> (cmd: String)
    ensures
        cmd@ == mkfs_command(*fs),
{
    let mut cmd = String::from_str("'mkfs.");
    cmd.append(fs.fs_type.as_str());
    cmd.append(" ");
    match &fs.fs_opts {
        Some(opts) => {
            cmd.append(opts.as_str());
            cmd.append(" ");
        },
        None => {},
    }
    cmd.append(fs.device.as_str());
    cmd.append("'");
    cmd
}

} // verus!
