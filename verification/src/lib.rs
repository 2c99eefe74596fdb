use vstd::prelude::*;

pub mod text;
pub mod strmap;
pub mod records;
pub mod evidence;
pub mod output_bundles;
pub mod organs;
pub mod suggest;
pub mod lines;
pub mod paths;
pub mod patch;
pub mod digest;
pub mod checks;
pub mod verify_run;
pub mod promote_run;
pub mod install_verify;
pub mod install_plan;
pub mod journal;
pub mod cli;
pub mod introspect;
