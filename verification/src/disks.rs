use vstd::prelude::*;
use crate::fdisk::{create_partition_cmd, create_table_cmd, partition_answers, script, table_script};
use crate::manifest::ManifestDisk;

verus! {

/// One run of fdisk: the device it works on and the script it is fed.
#[derive(Debug)]
pub struct FdiskRun {
    pub device: String,
    pub cmd: String,
}

/// Mathematical model of an [`FdiskRun`].
pub struct Run {
    pub device: Seq<char>,
    pub cmd: Seq<char>,
}

impl View for FdiskRun {
    type V = Run;

    open spec fn view(&self) -> Run {
        Run { device: self.device@, cmd: self.cmd@ }
    }
}

/// Model of a list of runs.
pub open spec fn runs_view(runs: Seq<FdiskRun>) -> Seq<Run> {
    Seq::new(runs.len(), |i: int| runs[i]@)
}

/// The runs that create the first `count` partitions of a disk, in order.
pub open spec fn partition_runs(disk: ManifestDisk, count: int) -> Seq<Run> {
    Seq::new(
        count as nat,
        |i: int|
            Run {
                device: disk.device@,
                cmd: script(
                    partition_answers(disk.table, (i + 1) as nat, disk.partitions@[i].size),
                ),
            },
    )
}

/// The runs that set up one disk: the table first, then each partition.
pub open spec fn disk_runs(disk: ManifestDisk) -> Seq<Run> {
    seq![Run { device: disk.device@, cmd: table_script(disk.table) }] + partition_runs(
        disk,
        disk.partitions@.len() as int,
    )
}

/// The runs that set up every disk of a list, disk after disk.
pub open spec fn disks_runs(disks: Seq<ManifestDisk>) -> Seq<Run>
    decreases disks.len(),
{
    if disks.len() == 0 {
        Seq::empty()
    } else {
        disks_runs(disks.drop_last()) + disk_runs(disks.last())
    }
}

/// Adds to `runs` the fdisk runs that set up one disk.
pub fn do_disk(disk: &ManifestDisk, runs: &mut Vec<FdiskRun>)
    ensures
        runs_view(final(runs)@) == runs_view(old(runs)@) + disk_runs(*disk),
{
    let ghost start = runs_view(runs@);
    let ghost table = Run { device: disk.device@, cmd: table_script(disk.table) };
    runs.push(
        FdiskRun {
            device: disk.device.clone(),
            cmd: create_table_cmd(disk.device.as_str(), &disk.table),
        },
    );
    assert(runs_view(runs@) =~= start + seq![table] + partition_runs(*disk, 0));
    let n = disk.partitions.len();
    let mut i: usize = 0;
    while i < n
        invariant
            i <= n,
            n == disk.partitions@.len(),
            table == (Run { device: disk.device@, cmd: table_script(disk.table) }),
            runs_view(runs@) == start + seq![table] + partition_runs(*disk, i as int),
        decreases n - i,
    {
        let ghost before = runs_view(runs@);
        let cmd = create_partition_cmd(&disk.table, i + 1, &disk.partitions[i]);
        let ghost added = Run { device: disk.device@, cmd: cmd@ };
        runs.push(FdiskRun { device: disk.device.clone(), cmd });
        assert(runs_view(runs@) =~= before.push(added));
        i += 1;
        assert(before.push(added) =~= start + seq![table] + partition_runs(*disk, i as int));
    }
    assert(start + seq![table] + partition_runs(*disk, n as int) =~= start + disk_runs(*disk));
}

/// The fdisk runs that set up the disks of a manifest, in the order in
/// which they are to be made.
pub fn do_disks(disks: &Vec<ManifestDisk>) -> (runs: Vec<FdiskRun>)
    ensures
        runs_view(runs@) == disks_runs(disks@),
{
    let mut runs: Vec<FdiskRun> = Vec::new();
    let mut k: usize = 0;
    assert(disks@.take(0) =~= Seq::<ManifestDisk>::empty());
    assert(runs_view(runs@) =~= Seq::<Run>::empty());
    while k < disks.len()
        invariant
            k <= disks.len(),
            runs_view(runs@) == disks_runs(disks@.take(k as int)),
        decreases disks.len() - k,
    {
        assert(disks@.take(k + 1).drop_last() =~= disks@.take(k as int));
        do_disk(&disks[k], &mut runs);
        k += 1;
    }
    assert(disks@.take(k as int) =~= disks@);
    runs
}

} // verus!
