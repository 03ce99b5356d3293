//! Block-device validation core of a declarative Linux installer, together
//! with the pure command builders and hook parsers around it.

pub mod actions;
pub mod blockdev;
pub mod diskcheck;
pub mod disks;
pub mod dm;
pub mod errors;
pub mod fdisk;
pub mod framing;
pub mod fscheck;
pub mod hooks;
pub mod install;
pub mod json;
pub mod laws;
pub mod lvsize;
pub mod manifest;
pub mod mkfs;
pub mod packages;
pub mod pvlaw;
pub mod quicknet;
pub mod replace_token;
pub mod scanner;
pub mod size;
pub mod state;
pub mod store;
pub mod text;
pub mod validate;
