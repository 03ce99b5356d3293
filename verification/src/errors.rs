use vstd::prelude::*;
use vstd::string::*;

verus! {

/// Every failure the installer reports.
#[derive(Debug)]
pub enum NayiError {
    /// A manifest or template file could not be read.
    NoSuchFile(String),
    /// A device named as a base does not exist on the host.
    NoSuchDevice(String),
    /// The manifest is wrong; the text says which rule fired.
    BadManifest(String),
    /// A shell command failed.
    CmdFailed(String),
    /// The command line is wrong.
    BadArgs(String),
    /// A hook command is malformed.
    BadHookCmd(String),
    /// The requested surface is a stub.
    NotImplemented,
    /// Scanner or store data broke a documented invariant.
    NayiRsBug(String),
    /// A part of the installation stopped; the record says where.
    InstallFailed(Box<crate::actions::InstallError>),
}

/// What a failure is, with the path or the diagnostic text it carries.
pub enum Fault {
    NoSuchFile(Seq<char>),
    NoSuchDevice(Seq<char>),
    BadManifest(Seq<char>),
    CmdFailed(Seq<char>),
    BadArgs(Seq<char>),
    BadHookCmd(Seq<char>),
    NotImplemented,
    InternalBug(Seq<char>),
    /// A part of the installation stopped on the failure inside.
    InstallFailed(Box<Fault>),
}

/// The manifest is wrong: `rule` fired on `subject` for `reason`.
pub open spec fn refused(rule: Seq<char>, subject: Seq<char>, reason: Seq<char>) -> Fault {
    Fault::BadManifest(rule + subject + reason)
}

/// The scan is malformed: `rule` found `subject` broken for `reason`.
pub open spec fn broken(rule: Seq<char>, subject: Seq<char>, reason: Seq<char>) -> Fault {
    Fault::InternalBug(rule + subject + reason)
}

/// The manifest is wrong, told in four parts.
pub open spec fn refused4(a: Seq<char>, b: Seq<char>, c: Seq<char>, d: Seq<char>) -> Fault {
    Fault::BadManifest(a + b + c + d)
}

/// The manifest is wrong, told in six parts.
pub open spec fn refused6(
    a: Seq<char>,
    b: Seq<char>,
    c: Seq<char>,
    d: Seq<char>,
    e: Seq<char>,
    f: Seq<char>,
) -> Fault {
    Fault::BadManifest(a + b + c + d + e + f)
}

/// The error that tells a wrong manifest in four parts.
pub fn bad_manifest4(a: &str, b: &str, c: &str, d: &str) -> (e: NayiError)
    ensures
        e.fault() == refused4(a@, b@, c@, d@),
{
    let head = crate::text::concat3(a, b, c);
    NayiError::BadManifest(crate::text::concat(head.as_str(), d))
}

/// The error that tells a wrong manifest in six parts.
pub fn bad_manifest6(a: &str, b: &str, c: &str, d: &str, e: &str, f: &str) -> (err: NayiError)
    ensures
        err.fault() == refused6(a@, b@, c@, d@, e@, f@),
{
    let head = crate::text::concat3(a, b, c);
    let more = crate::text::concat3(head.as_str(), d, e);
    NayiError::BadManifest(crate::text::concat(more.as_str(), f))
}

/// The error that tells a wrong manifest.
pub fn bad_manifest(rule: &str, subject: &str, reason: &str) -> (e: NayiError)
    ensures
        e.fault() == refused(rule@, subject@, reason@),
{
    NayiError::BadManifest(crate::text::concat3(rule, subject, reason))
}

/// The error that tells a malformed scan.
pub fn internal_bug(rule: &str, subject: &str, reason: &str) -> (e: NayiError)
    ensures
        e.fault() == broken(rule@, subject@, reason@),
{
    NayiError::NayiRsBug(crate::text::concat3(rule, subject, reason))
}

impl NayiError {
    /// The failure that this error reports.
    pub open spec fn fault(&self) -> Fault
        decreases self,
    {
        match self {
            NayiError::NoSuchFile(path) => Fault::NoSuchFile(path@),
            NayiError::NoSuchDevice(path) => Fault::NoSuchDevice(path@),
            NayiError::BadManifest(text) => Fault::BadManifest(text@),
            NayiError::CmdFailed(text) => Fault::CmdFailed(text@),
            NayiError::BadArgs(text) => Fault::BadArgs(text@),
            NayiError::BadHookCmd(text) => Fault::BadHookCmd(text@),
            NayiError::NotImplemented => Fault::NotImplemented,
            NayiError::NayiRsBug(text) => Fault::InternalBug(text@),
            NayiError::InstallFailed(record) => Fault::InstallFailed(Box::new(record.error.fault())),
        }
    }

    /// What is shown of this error, as a model: the name of its class and
    /// what it carries.
    pub open spec fn shown(&self) -> Seq<char> {
        match self {
            NayiError::NoSuchFile(m) => "no such file: "@ + m@,
            NayiError::NoSuchDevice(m) => "no such device: "@ + m@,
            NayiError::BadManifest(m) => "bad manifest: "@ + m@,
            NayiError::CmdFailed(m) => "shell command failed: "@ + m@,
            NayiError::BadArgs(m) => "bad cli arguments: "@ + m@,
            NayiError::BadHookCmd(m) => "bad hook cmd: "@ + m@,
            NayiError::NotImplemented => "not implemented"@,
            NayiError::NayiRsBug(m) => "nayi-rs bug: "@ + m@,
            NayiError::InstallFailed(_) => "installation failed"@,
        }
    }

    /// Short name of the failure class followed by what the error carries.
    pub fn message(&self) -> (s: String)
        ensures
            s@ == self.shown(),
    {
        match self {
            NayiError::NoSuchFile(m) => crate::text::concat("no such file: ", m.as_str()),
            NayiError::NoSuchDevice(m) => crate::text::concat("no such device: ", m.as_str()),
            NayiError::BadManifest(m) => crate::text::concat("bad manifest: ", m.as_str()),
            NayiError::CmdFailed(m) => crate::text::concat("shell command failed: ", m.as_str()),
            NayiError::BadArgs(m) => crate::text::concat("bad cli arguments: ", m.as_str()),
            NayiError::BadHookCmd(m) => crate::text::concat("bad hook cmd: ", m.as_str()),
            NayiError::NotImplemented => String::from_str("not implemented"),
            NayiError::NayiRsBug(m) => crate::text::concat("nayi-rs bug: ", m.as_str()),
            NayiError::InstallFailed(_) => String::from_str("installation failed"),
        }
    }
}

} // verus!
