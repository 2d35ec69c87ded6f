//! The manifest of a monitored process: which executable it describes and
//! the colour parameters it offers.

use vstd::prelude::*;

verus! {

/// A process manifest.
#[derive(Debug, Clone)]
pub struct Manifest {
    pub version: i32,
    pub exe_file: String,
    pub process_name: String,
    pub window_instance: String,
    pub checksum: String,
    pub parameters: Vec<Parameter>,
}

/// A parameter of a process manifest.
#[derive(Debug, Clone)]
pub struct Parameter {
    pub name: String,
    pub description: String,
    pub location: usize,
    pub default_color: u32,
}

} // verus!
