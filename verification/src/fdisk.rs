use vstd::prelude::*;
use vstd::string::*;
use crate::manifest::{ManifestPartition, PartitionTable};
use crate::state::names_view;
use crate::text::{concat, decimal, join, joined, to_decimal};

verus! {

/// An fdisk script: one answer per line, then `w` to write the table.
pub open spec fn script(answers: Seq<Seq<char>>) -> Seq<char> {
    joined(answers, "\n"@) + "\nw\n"@
}

/// The script that creates an empty partition table.
pub open spec fn table_script(table: PartitionTable) -> Seq<char> {
    match table {
        PartitionTable::Gpt => "g\nw\n"@,
        PartitionTable::Mbr => "o\nw\n"@,
    }
}

/// The answer to fdisk's question for the last sector: `+` and the size, or
/// nothing where the partition takes the rest.
pub open spec fn size_answer(size: Option<String>) -> Seq<char> {
    match size {
        Some(s) => "+"@ + s@,
        None => ""@,
    }
}

/// The answers that create partition `number`; on MBR it is a primary one.
pub open spec fn partition_answers(table: PartitionTable, number: nat, size: Option<String>) -> Seq<
    Seq<char>,
> {
    match table {
        PartitionTable::Gpt => seq!["n"@, decimal(number), ""@, size_answer(size)],
        PartitionTable::Mbr => seq!["n"@, "p"@, decimal(number), ""@, size_answer(size)],
    }
}

/// The answers that set the type of partition `number`; fdisk does not ask
/// for the number while there is only the first.
pub open spec fn type_answers(number: nat, part_type: Seq<char>) -> Seq<Seq<char>> {
    if number == 1 {
        seq!["t"@, part_type]
    } else {
        seq!["t"@, decimal(number), part_type]
    }
}

/// The fdisk script that creates an empty partition table on a device.
pub fn create_table_cmd(device: &str, table: &PartitionTable) -> (cmd: String)
    ensures
        cmd@ == table_script(*table),
{
    match table {
        PartitionTable::Gpt => String::from_str("g\nw\n"),
        PartitionTable::Mbr => String::from_str("o\nw\n"),
    }
}

/// The fdisk script that gives the answers in order and writes the table.
pub fn assemble_and_w(answers: &Vec<String>) -> (cmd: String)
    ensures
        cmd@ == script(names_view(answers@)),
{
    let mut cmd = join(answers, "\n");
    cmd.append("\nw\n");
    cmd
}

/// The fdisk script that creates partition `part_num` of a disk.
pub fn create_partition_cmd(table: &PartitionTable, part_num: usize, part: &ManifestPartition) -> (cmd:
    String)
    ensures
        cmd@ == script(partition_answers(*table, part_num as nat, part.size)),
{
    let size = match &part.size {
        Some(s) => concat("+", s.as_str()),
        None => String::from_str(""),
    };
    let mut answers: Vec<String> = Vec::new();
    answers.push(String::from_str("n"));
    match table {
        PartitionTable::Gpt => {},
        PartitionTable::Mbr => {
            answers.push(String::from_str("p"));
        },
    }
    answers.push(to_decimal(part_num));
    answers.push(String::from_str(""));
    answers.push(size);
    assert(names_view(answers@) =~= partition_answers(*table, part_num as nat, part.size));
    assemble_and_w(&answers)
}

/// The fdisk script that sets the type of partition `part_num` of a disk.
pub fn set_partition_type_cmd(part_num: usize, part: &ManifestPartition) -> (cmd: String)
    ensures
        cmd@ == script(type_answers(part_num as nat, part.part_type@)),
{
    let mut answers: Vec<String> = Vec::new();
    answers.push(String::from_str("t"));
    if part_num != 1 {
        answers.push(to_decimal(part_num));
    }
    answers.push(part.part_type.clone());
    assert(names_view(answers@) =~= type_answers(part_num as nat, part.part_type@));
    assemble_and_w(&answers)
}

} // verus!
