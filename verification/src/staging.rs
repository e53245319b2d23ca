//! The steps of converting one file in place, as a state machine.
//!
//! When the original keeps its name (rename mode with an empty suffix) the
//! converted copy is simply written beside it. Otherwise the conversion is
//! staged in a hidden file next to the input; only when it has succeeded is
//! the original moved aside (renamed with the suffix, or to a `.pdfix-bak`
//! safety copy in delete mode) and the staged file moved onto the input's
//! path. A failure after the conversion has succeeded moves the original
//! back (when it was moved) and removes the staging file; in delete mode the
//! safety copy is removed at the end.
//!
//! The caller performs each [`Action`] (a file-system query, the PDF
//! conversion, a rename, a removal) and hands its outcome back as an
//! [`Event`] until the machine answers [`Action::Finish`].
use vstd::prelude::*;

use crate::naming::{
    output_path, output_path_in, rename_target_in, renamed_path, staging_path, temp_target_in,
};
use crate::path::{file_name, PathStyle};
use crate::text::same_text;

verus! {

/// Where a conversion stands.
#[derive(Clone, Copy, Debug, PartialEq, Eq, Structural)]
pub enum Stage {
    /// Writing the converted copy beside the original.
    Direct,
    /// Asking whether the path the original would be moved to is taken.
    Checking,
    /// Writing the converted copy to the staging file.
    Converting,
    /// Moving the original aside.
    MovingOriginal,
    /// Moving the staged file onto the input's path.
    Installing,
    /// Moving the original back after a failure.
    Restoring,
    /// Removing the staging file after a failure.
    DroppingStaged,
    /// Removing the safety copy of the original (delete mode).
    DroppingBackup,
    /// Nothing left to do.
    Finished,
}

/// What the caller is asked to do next.
#[derive(Debug, PartialEq, Eq)]
pub enum Action {
    /// Answer with [`Event::Exists`]: is there a file at this path?
    CheckExists(String),
    /// Convert the PDF `input` into `output`.
    Convert { input: String, output: String },
    /// Rename the file `from` to `to`.
    Rename { from: String, to: String },
    /// Remove the file at this path.
    Remove(String),
    /// The conversion is over: the path of the converted file, or the error.
    Finish(Result<String, String>),
}

/// The outcome of the last action.
#[derive(Debug, PartialEq, Eq)]
pub enum Event {
    /// Answer to [`Action::CheckExists`].
    Exists(bool),
    /// The action succeeded.
    Succeeded,
    /// The action failed with this message.
    Failed(String),
}

/// An event without its payload.
#[derive(Clone, Copy, Debug, PartialEq, Eq, Structural)]
pub enum Outcome {
    /// The action succeeded (or the path asked about is free).
    Done,
    /// The path asked about is taken.
    Taken,
    /// The action failed.
    Failed,
}

/// The outcome an event reports.
pub open spec fn outcome_of(e: Event) -> Outcome {
    match e {
        Event::Exists(true) => Outcome::Taken,
        Event::Exists(false) => Outcome::Done,
        Event::Succeeded => Outcome::Done,
        Event::Failed(_) => Outcome::Failed,
    }
}

/// The stage that follows `stage` on `outcome`. Only a check that finds the
/// target taken reads [`Outcome::Taken`]; elsewhere it counts as success.
pub open spec fn next_stage(stage: Stage, delete_mode: bool, outcome: Outcome) -> Stage {
    let ok = outcome != Outcome::Failed;
    match stage {
        Stage::Direct => Stage::Finished,
        Stage::Checking => if outcome == Outcome::Done {
            Stage::Converting
        } else {
            Stage::Finished
        },
        Stage::Converting => if ok {
            Stage::MovingOriginal
        } else {
            Stage::Finished
        },
        Stage::MovingOriginal => if ok {
            Stage::Installing
        } else {
            Stage::DroppingStaged
        },
        Stage::Installing => if ok {
            if delete_mode {
                Stage::DroppingBackup
            } else {
                Stage::Finished
            }
        } else {
            Stage::Restoring
        },
        Stage::Restoring => Stage::DroppingStaged,
        Stage::DroppingStaged => Stage::Finished,
        Stage::DroppingBackup => Stage::Finished,
        Stage::Finished => Stage::Finished,
    }
}

/// Whether the step from `stage` on `outcome` finishes successfully.
pub open spec fn finishes_ok(stage: Stage, delete_mode: bool, outcome: Outcome) -> bool {
    let ok = outcome != Outcome::Failed;
    ||| stage == Stage::Direct && ok
    ||| stage == Stage::Installing && ok && !delete_mode
    ||| stage == Stage::DroppingBackup
}

/// One conversion in progress.
pub struct Staging {
    /// The file being converted.
    pub input: String,
    /// Where the converted copy goes when the original keeps its name.
    pub output: String,
    /// Where the original is moved aside.
    pub renamed: String,
    /// The staging file.
    pub temp: String,
    /// Whether the original is to be removed at the end.
    pub delete_mode: bool,
    pub stage: Stage,
    /// The failure being rolled back.
    pub error: String,
}

/// `m` asks for `a`, as its stage calls for.
pub open spec fn asks(m: Staging, a: Action) -> bool {
    match m.stage {
        Stage::Direct => a matches Action::Convert { input, output } && input@ == m.input@
            && output@ == m.output@,
        Stage::Checking => a matches Action::CheckExists(p) && p@ == m.renamed@,
        Stage::Converting => a matches Action::Convert { input, output } && input@ == m.input@
            && output@ == m.temp@,
        Stage::MovingOriginal => a matches Action::Rename { from, to } && from@ == m.input@ && to@
            == m.renamed@,
        Stage::Installing => a matches Action::Rename { from, to } && from@ == m.temp@ && to@
            == m.input@,
        Stage::Restoring => a matches Action::Rename { from, to } && from@ == m.renamed@ && to@
            == m.input@,
        Stage::DroppingStaged => a matches Action::Remove(p) && p@ == m.temp@,
        Stage::DroppingBackup => a matches Action::Remove(p) && p@ == m.renamed@,
        Stage::Finished => a is Finish,
    }
}

/// The error a finishing step reports.
pub open spec fn finish_error(m: Staging, e: Event) -> Seq<char> {
    match e {
        Event::Failed(msg) => if m.stage == Stage::DroppingStaged {
            m.error@
        } else {
            msg@
        },
        _ => if m.stage == Stage::Checking {
            "rename target already exists: "@ + m.renamed@
        } else {
            m.error@
        },
    }
}

/// Starts the conversion of `input`, whose neighbouring files are named
/// under the path rules of `style`. `original_mode` `"delete"` removes the
/// original at the end; any other mode keeps it, renamed with `suffix`, or
/// beside the converted copy when `suffix` is empty. An input without a
/// file name is refused when the original has to be moved.
pub fn start(input: &str, original_mode: &str, suffix: &str, style: PathStyle) -> (r: Result<
    (Staging, Action),
    String,
>)
    ensures
        ({
            let delete_mode = original_mode@ == "delete"@;
            let direct = !delete_mode && suffix@.len() == 0;
            match r {
                Ok((m, a)) => {
                    &&& m.input@ == input@
                    &&& m.delete_mode == delete_mode
                    &&& m.stage == (if direct {
                        Stage::Direct
                    } else {
                        Stage::Checking
                    })
                    &&& direct ==> m.output@ == output_path(input@, style)
                    &&& !direct ==> m.renamed@ == renamed_path(
                        input@,
                        if delete_mode {
                            ".pdfix-bak"@
                        } else {
                            suffix@
                        },
                        style,
                    ) && m.temp@ == staging_path(input@, style)
                    &&& !direct ==> file_name(input@, style) is Some
                    &&& asks(m, a)
                },
                Err(e) => !direct && file_name(input@, style) is None && e@ == "invalid filename"@,
            }
        }),
{
    let delete_mode = same_text(original_mode, "delete");
    if !delete_mode && suffix.unicode_len() == 0 {
        let output = output_path_in(input, style);
        let m = Staging {
            input: String::from_str(input),
            output: output.clone(),
            renamed: String::new(),
            temp: String::new(),
            delete_mode,
            stage: Stage::Direct,
            error: String::new(),
        };
        return Ok((m, Action::Convert { input: String::from_str(input), output }));
    }
    let backup = ".pdfix-bak";
    let renamed = match rename_target_in(input, if delete_mode { backup } else { suffix }, style) {
        Ok(p) => p,
        Err(e) => return Err(e),
    };
    let temp = match temp_target_in(input, style) {
        Ok(p) => p,
        Err(e) => return Err(e),
    };
    let m = Staging {
        input: String::from_str(input),
        output: String::new(),
        renamed: renamed.clone(),
        temp,
        delete_mode,
        stage: Stage::Checking,
        error: String::new(),
    };
    Ok((m, Action::CheckExists(renamed)))
}

impl Staging {
    /// Takes the outcome of the last action and answers the next one.
    pub fn step(&mut self, event: Event) -> (a: Action)
        requires
            old(self).stage != Stage::Finished,
        ensures
            final(self).input == old(self).input,
            final(self).output == old(self).output,
            final(self).renamed == old(self).renamed,
            final(self).temp == old(self).temp,
            final(self).delete_mode == old(self).delete_mode,
            final(self).stage == next_stage(
                old(self).stage,
                old(self).delete_mode,
                outcome_of(event),
            ),
            asks(*final(self), a),
            final(self).stage == Stage::Restoring || final(self).stage == Stage::DroppingStaged
                ==> final(self).error@ == (if old(self).stage == Stage::Restoring {
                old(self).error@
            } else {
                finish_error(*old(self), event)
            }),
            a matches Action::Finish(res) ==> match res {
                Ok(p) => finishes_ok(old(self).stage, old(self).delete_mode, outcome_of(event))
                    && p@ == (if old(self).stage == Stage::Direct {
                    old(self).output@
                } else {
                    old(self).input@
                }),
                Err(e) => !finishes_ok(old(self).stage, old(self).delete_mode, outcome_of(event))
                    && e@ == finish_error(*old(self), event),
            },
    {
        let (failed, taken): (Option<String>, bool) = match event {
            Event::Failed(msg) => (Some(msg), false),
            Event::Exists(t) => (None, t),
            Event::Succeeded => (None, false),
        };
        match self.stage {
            Stage::Direct => {
                self.stage = Stage::Finished;
                match failed {
                    Some(msg) => Action::Finish(Err(msg)),
                    None => Action::Finish(Ok(self.output.clone())),
                }
            },
            Stage::Checking => {
                match failed {
                    Some(msg) => {
                        self.stage = Stage::Finished;
                        Action::Finish(Err(msg))
                    },
                    None => {
                        if taken {
                            self.stage = Stage::Finished;
                            let mut msg = String::from_str("rename target already exists: ");
                            msg.append(self.renamed.as_str());
                            Action::Finish(Err(msg))
                        } else {
                            self.stage = Stage::Converting;
                            Action::Convert { input: self.input.clone(), output: self.temp.clone() }
                        }
                    },
                }
            },
            Stage::Converting => {
                match failed {
                    Some(msg) => {
                        self.stage = Stage::Finished;
                        Action::Finish(Err(msg))
                    },
                    None => {
                        self.stage = Stage::MovingOriginal;
                        Action::Rename { from: self.input.clone(), to: self.renamed.clone() }
                    },
                }
            },
            Stage::MovingOriginal => {
                match failed {
                    Some(msg) => {
                        self.stage = Stage::DroppingStaged;
                        self.error = msg;
                        Action::Remove(self.temp.clone())
                    },
                    None => {
                        self.stage = Stage::Installing;
                        Action::Rename { from: self.temp.clone(), to: self.input.clone() }
                    },
                }
            },
            Stage::Installing => {
                match failed {
                    Some(msg) => {
                        self.stage = Stage::Restoring;
                        self.error = msg;
                        Action::Rename { from: self.renamed.clone(), to: self.input.clone() }
                    },
                    None => {
                        if self.delete_mode {
                            self.stage = Stage::DroppingBackup;
                            Action::Remove(self.renamed.clone())
                        } else {
                            self.stage = Stage::Finished;
                            Action::Finish(Ok(self.input.clone()))
                        }
                    },
                }
            },
            Stage::Restoring => {
                self.stage = Stage::DroppingStaged;
                Action::Remove(self.temp.clone())
            },
            Stage::DroppingStaged => {
                self.stage = Stage::Finished;
                Action::Finish(Err(self.error.clone()))
            },
            Stage::DroppingBackup => {
                self.stage = Stage::Finished;
                Action::Finish(Ok(self.input.clone()))
            },
            Stage::Finished => Action::Finish(Err(self.error.clone())),
        }
    }
}

/// Where the original document is.
#[derive(Clone, Copy, Debug, PartialEq, Eq, Structural)]
pub enum Original {
    /// At the input's path.
    AtInput,
    /// Moved aside: renamed with the suffix, or to the safety copy.
    MovedAside,
    /// Removed (delete mode).
    Removed,
}

/// Where the converted document is.
#[derive(Clone, Copy, Debug, PartialEq, Eq, Structural)]
pub enum Converted {
    /// Not written yet.
    Nowhere,
    /// At the output path beside the original.
    AtOutput,
    /// In the staging file.
    AtTemp,
    /// At the input's path, in place of the original.
    AtInput,
    /// Removed with the staging file.
    Removed,
    /// Not written: the conversion failed, leaving at most a partial
    /// document where it was writing (the output path or the staging file).
    Partial,
}

/// Where the original is once the action asked for in `stage` had `outcome`.
pub open spec fn original_after(stage: Stage, outcome: Outcome, o: Original) -> Original {
    let ok = outcome != Outcome::Failed;
    match stage {
        Stage::MovingOriginal => if ok {
            Original::MovedAside
        } else {
            o
        },
        Stage::Restoring => if ok {
            Original::AtInput
        } else {
            o
        },
        Stage::DroppingBackup => if ok {
            Original::Removed
        } else {
            o
        },
        _ => o,
    }
}

/// Where the converted document is once the action asked for in `stage`
/// had `outcome`.
pub open spec fn converted_after(stage: Stage, outcome: Outcome, c: Converted) -> Converted {
    let ok = outcome != Outcome::Failed;
    match stage {
        Stage::Direct => if ok {
            Converted::AtOutput
        } else {
            Converted::Partial
        },
        Stage::Converting => if ok {
            Converted::AtTemp
        } else {
            Converted::Partial
        },
        Stage::Installing => if ok {
            Converted::AtInput
        } else {
            c
        },
        Stage::DroppingStaged => if ok {
            Converted::Removed
        } else {
            c
        },
        _ => c,
    }
}

/// Whether the step from `stage` on `outcome` is a best-effort clean-up
/// that failed: moving the original back, or removing the safety copy.
pub open spec fn cleanup_failed(stage: Stage, outcome: Outcome) -> bool {
    outcome == Outcome::Failed && (stage == Stage::Restoring || stage == Stage::DroppingBackup)
}

/// A run of the machine from `stage` on the outcomes `outcomes`, with the
/// documents at `o` and `c`: the stage it stops in, where the documents
/// are then, whether it finished successfully, whether moving the original
/// back or removing its safety copy failed on the way, and whether removing
/// the staging file failed.
pub open spec fn conversion_run(
    stage: Stage,
    delete_mode: bool,
    outcomes: Seq<Outcome>,
    o: Original,
    c: Converted,
    failed_cleanup: bool,
    staged_kept: bool,
) -> (Stage, Original, Converted, bool, bool, bool)
    decreases outcomes.len(),
{
    if stage == Stage::Finished || outcomes.len() == 0 {
        (stage, o, c, false, failed_cleanup, staged_kept)
    } else {
        let out = outcomes[0];
        let next = next_stage(stage, delete_mode, out);
        let o2 = original_after(stage, out, o);
        let c2 = converted_after(stage, out, c);
        let f2 = failed_cleanup || cleanup_failed(stage, out);
        let k2 = staged_kept || (stage == Stage::DroppingStaged && out == Outcome::Failed);
        if next == Stage::Finished {
            (next, o2, c2, finishes_ok(stage, delete_mode, out), f2, k2)
        } else {
            conversion_run(next, delete_mode, outcomes.drop_first(), o2, c2, f2, k2)
        }
    }
}

/// What holds of the documents in each stage.
pub open spec fn documents_in(
    stage: Stage,
    delete_mode: bool,
    o: Original,
    c: Converted,
    failed_cleanup: bool,
) -> bool {
    match stage {
        Stage::Direct => o == Original::AtInput && c == Converted::Nowhere,
        Stage::Checking => o == Original::AtInput && c == Converted::Nowhere,
        Stage::Converting => o == Original::AtInput && c == Converted::Nowhere,
        Stage::MovingOriginal => o == Original::AtInput && c == Converted::AtTemp,
        Stage::Installing => o == Original::MovedAside && c == Converted::AtTemp,
        Stage::Restoring => o == Original::MovedAside && c == Converted::AtTemp,
        Stage::DroppingStaged => (o == Original::AtInput || failed_cleanup) && c
            == Converted::AtTemp,
        Stage::DroppingBackup => delete_mode && o == Original::MovedAside && c == Converted::AtInput,
        Stage::Finished => true,
    }
}

proof fn lemma_run(
    stage: Stage,
    delete_mode: bool,
    outcomes: Seq<Outcome>,
    o: Original,
    c: Converted,
    failed_cleanup: bool,
    staged_kept: bool,
)
    requires
        stage != Stage::Finished,
        documents_in(stage, delete_mode, o, c, failed_cleanup),
    ensures
        ({
            let (s, o2, c2, ok, f2, k2) = conversion_run(
                stage,
                delete_mode,
                outcomes,
                o,
                c,
                failed_cleanup,
                staged_kept,
            );
            &&& s == Stage::Finished && !ok ==> o2 == Original::AtInput || f2
            &&& s == Stage::Finished && !ok ==> c2 != Converted::AtInput && c2
                != Converted::AtOutput && (c2 == Converted::AtTemp ==> k2)
            &&& s == Stage::Finished && ok ==> (c2 == Converted::AtOutput && o2 == Original::AtInput
                && stage == Stage::Direct) || (c2 == Converted::AtInput && (if delete_mode {
                o2 == Original::Removed || f2
            } else {
                o2 == Original::MovedAside
            }))
        }),
    decreases outcomes.len(),
{
    if outcomes.len() > 0 {
        let out = outcomes[0];
        let next = next_stage(stage, delete_mode, out);
        if next != Stage::Finished {
            lemma_run(
                next,
                delete_mode,
                outcomes.drop_first(),
                original_after(stage, out, o),
                converted_after(stage, out, c),
                failed_cleanup || cleanup_failed(stage, out),
                staged_kept || (stage == Stage::DroppingStaged && out == Outcome::Failed),
            );
        }
    }
}

/// A failed run leaves the original at its path and no converted document
/// there; a complete converted document stays in the staging file only
/// when removing that file failed, and a failed conversion itself leaves at
/// most a partial document where it was writing. A successful run leaves
/// the converted document at the path it reports: beside the original when
/// the original keeps its name, in place of the original otherwise, the
/// original then being renamed aside or, in delete mode, removed. Only a
/// failed best-effort clean-up (moving the original back, removing the
/// safety copy or the staging file) can leave the original elsewhere.
pub proof fn law_conversion_rolls_back(start: Stage, delete_mode: bool, outcomes: Seq<Outcome>)
    requires
        start == Stage::Direct || start == Stage::Checking,
    ensures
        ({
            let (s, o, c, ok, f, k) = conversion_run(
                start,
                delete_mode,
                outcomes,
                Original::AtInput,
                Converted::Nowhere,
                false,
                false,
            );
            &&& s == Stage::Finished && !ok ==> o == Original::AtInput || f
            &&& s == Stage::Finished && !ok ==> c != Converted::AtInput && c
                != Converted::AtOutput && (c == Converted::AtTemp ==> k)
            &&& s == Stage::Finished && ok && start == Stage::Direct ==> c == Converted::AtOutput
                && o == Original::AtInput
            &&& s == Stage::Finished && ok && start == Stage::Checking ==> c == Converted::AtInput
                && (if delete_mode {
                o == Original::Removed || f
            } else {
                o == Original::MovedAside
            })
        }),
{
    lemma_run(start, delete_mode, outcomes, Original::AtInput, Converted::Nowhere, false, false);
}

} // verus!
