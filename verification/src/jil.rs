//! Autosys JIL (Job Information Language) reader.
//!
//! Converts JIL text into [`JilBlock`] values, which can be translated into
//! [`crate::job::Job`] values.

pub mod attrs;
pub mod error;
pub mod fields;
pub mod model;
pub mod scan;
pub mod parse;
pub mod spec;
pub mod translate;

use vstd::prelude::*;
use crate::jil::spec::{JobSpec, JobSpecV, PartialJobSpec, PartialJobSpecV};

verus! {

/// A parsed JIL block.
#[derive(Debug, Clone, PartialEq)]
pub enum JilBlock {
    /// `insert_job: <name>  job_type: <type>` + attributes.
    Insert(JobSpec),
    /// `update_job: <name>` + partial attributes.
    Update(String, PartialJobSpec),
    /// `delete_job: <name>`.
    Delete(String),
}

/// Model of a [`JilBlock`].
pub enum JilBlockV {
    Insert(JobSpecV),
    Update(Seq<char>, PartialJobSpecV),
    Delete(Seq<char>),
}

impl View for JilBlock {
    type V = JilBlockV;

    open spec fn view(&self) -> JilBlockV {
        match self {
            JilBlock::Insert(s) => JilBlockV::Insert(s@),
            JilBlock::Update(n, p) => JilBlockV::Update(n@, p@),
            JilBlock::Delete(n) => JilBlockV::Delete(n@),
        }
    }
}

} // verus!
