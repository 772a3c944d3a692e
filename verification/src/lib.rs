//! Verified core of the wallet proof-of-concept provers: the circom `.r1cs`
//! and `.wtns` readers, the SLH-DSA input handling, the command-line
//! parsers, path rules, size formatting and reports, and the step plans of
//! the mobile FIDO operations.
use vstd::prelude::*;

pub mod bytes;
pub mod hex_codec;
pub mod r1cs;
pub mod r1cs_layout;
pub mod wtns;
pub mod size_format;
pub mod paths;
pub mod fido;
pub mod fido_laws;
pub mod rs256_report;
pub mod rs256_run;
pub mod slh_report;
pub mod text;
pub mod cli;
pub mod slh_inputs;
pub mod reshape_laws;
pub mod slh_document;
pub mod circuit_io;

verus! {

} // verus!
