//! Progress reports of a batch conversion and the outputs it returns.
use vstd::prelude::*;

use crate::naming::{basename_in, shown_name};
use crate::path::PathStyle;

verus! {

/// Where one file of a batch stands.
#[derive(Clone, Copy, Debug, PartialEq, Eq, Structural)]
pub enum Phase {
    Start,
    Done,
    Error,
}

/// The name the front end knows a phase by.
pub fn phase_name(phase: Phase) -> (r: &'static str)
    ensures
        r@ == match phase {
            Phase::Start => "start"@,
            Phase::Done => "done"@,
            Phase::Error => "error"@,
        },
{
    match phase {
        Phase::Start => "start",
        Phase::Done => "done",
        Phase::Error => "error",
    }
}

/// One progress report: file `index` of `total`, its path and file name,
/// the phase, and the error or output path once it is over.
#[derive(Debug, PartialEq, Eq)]
pub struct Progress {
    pub index: usize,
    pub total: usize,
    pub path: String,
    pub file: String,
    pub phase: Phase,
    pub error: Option<String>,
    pub output: Option<String>,
}

/// A batch of `total` conversions and the outputs of those that succeeded.
pub struct Batch {
    total: usize,
    outputs: Vec<String>,
}

impl View for Batch {
    /// `(total, outputs so far)`.
    type V = (usize, Seq<Seq<char>>);

    closed spec fn view(&self) -> (usize, Seq<Seq<char>>) {
        (self.total, self.outputs@.map_values(|s: String| s@))
    }
}

impl Batch {
    /// A batch of `total` files with no output yet.
    pub fn new(total: usize) -> (r: Self)
        ensures
            r@ == (total, Seq::<Seq<char>>::empty()),
    {
        let r = Batch { total, outputs: Vec::new() };
        assert(r.outputs@.map_values(|s: String| s@) =~= Seq::<Seq<char>>::empty());
        r
    }

    /// The report that file `index`, at `path`, starts; its file name is
    /// read under the path rules of `style`.
    pub fn started(&self, index: usize, path: &str, style: PathStyle) -> (r: Progress)
        ensures
            r.index == index,
            r.total == self@.0,
            r.path@ == path@,
            r.file@ == shown_name(path@, style),
            r.phase == Phase::Start,
            r.error is None,
            r.output is None,
    {
        Progress {
            index,
            total: self.total,
            path: String::from_str(path),
            file: basename_in(path, style),
            phase: Phase::Start,
            error: None,
            output: None,
        }
    }

    /// The report that file `index`, at `path`, is over with `result`; a
    /// success adds its output to the batch's outputs. The file name is read
    /// under the path rules of `style`.
    pub fn finished(
        &mut self,
        index: usize,
        path: &str,
        style: PathStyle,
        result: Result<String, String>,
    ) -> (r: Progress)
        ensures
            final(self)@.0 == old(self)@.0,
            r.index == index,
            r.total == old(self)@.0,
            r.path@ == path@,
            r.file@ == shown_name(path@, style),
            match result {
                Ok(out) => {
                    &&& r.phase == Phase::Done
                    &&& r.error is None
                    &&& r.output matches Some(o) && o@ == out@
                    &&& final(self)@.1 == old(self)@.1.push(out@)
                },
                Err(e) => {
                    &&& r.phase == Phase::Error
                    &&& r.error matches Some(m) && m@ == e@
                    &&& r.output is None
                    &&& final(self)@.1 == old(self)@.1
                },
            },
    {
        let file = basename_in(path, style);
        match result {
            Ok(out) => {
                let ghost before = self.outputs@;
                self.outputs.push(out.clone());
                assert(self.outputs@.map_values(|s: String| s@) =~= before.map_values(
                    |s: String| s@,
                ).push(out@));
                Progress {
                    index,
                    total: self.total,
                    path: String::from_str(path),
                    file,
                    phase: Phase::Done,
                    error: None,
                    output: Some(out),
                }
            },
            Err(e) => Progress {
                index,
                total: self.total,
                path: String::from_str(path),
                file,
                phase: Phase::Error,
                error: Some(e),
                output: None,
            },
        }
    }

    /// The outputs of the conversions that succeeded, in order.
    pub fn into_outputs(self) -> (r: Vec<String>)
        ensures
            r@.map_values(|s: String| s@) == self@.1,
    {
        self.outputs
    }
}

} // verus!
