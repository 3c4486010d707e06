use vstd::prelude::*;

pub mod json;
pub mod text;
pub mod path;
pub mod number;
pub mod render;
pub mod checks;
pub mod budget;
pub mod snapshot;
pub mod aggregate;
pub mod paths;
pub mod run;
pub mod engine;
pub mod config;
pub mod promote;
pub mod marker;
pub mod shim;
pub mod cicd;
pub mod scaffold;
pub mod output;
pub mod schedule;
pub mod sampler;
