//! Saving the user settings without ever leaving a half-written settings
//! file: the settings are written to `settings.json.tmp` beside the live
//! file, which is then replaced by renaming the temporary file onto it.
//!
//! The caller performs each [`SettingsAction`] (creating the directory,
//! serializing the settings, writing the temporary file, the rename, the
//! removal of the temporary file) and hands back its outcome as an
//! [`Event`] until the machine answers [`SettingsAction::Finish`].
use vstd::prelude::*;

use crate::path::{join, join_names, PathStyle};
use crate::staging::{outcome_of, Event, Outcome};

verus! {

/// `<dir>/settings.json`, the live settings file.
pub open spec fn settings_path(dir: Seq<char>, style: PathStyle) -> Seq<char> {
    join(dir, "settings.json"@, style)
}

/// `<dir>/settings.json.tmp`, where settings are written before the rename.
pub open spec fn settings_temp_path(dir: Seq<char>, style: PathStyle) -> Seq<char> {
    join(dir, "settings.json.tmp"@, style)
}

/// The live settings file in the directory `dir`, joined under the path
/// rules of `style`.
pub fn settings_file(dir: &str, style: PathStyle) -> (r: String)
    ensures
        r@ == settings_path(dir@, style),
{
    join_names(dir, "settings.json", style)
}

/// Where a settings write stands.
#[derive(Clone, Copy, Debug, PartialEq, Eq, Structural)]
pub enum SettingsStage {
    CreatingDir,
    Serializing,
    WritingTemp,
    Replacing,
    DroppingTemp,
    Finished,
}

/// What the caller is asked to do next.
#[derive(Debug, PartialEq, Eq)]
pub enum SettingsAction {
    /// Create this directory and its parents.
    CreateDir(String),
    /// Serialize the settings.
    Serialize,
    /// Write the serialized settings to this file.
    WriteTemp(String),
    /// Rename the file `from` to `to`.
    Rename { from: String, to: String },
    /// Remove this file.
    Remove(String),
    /// The write is over.
    Finish(Result<(), String>),
}

/// One settings write in progress.
pub struct SettingsWrite {
    pub dir: String,
    pub live: String,
    pub temp: String,
    pub stage: SettingsStage,
    /// The failure being cleaned up after.
    pub error: String,
}

/// The stage that follows `stage` on `outcome` (a taken path counts as
/// success).
pub open spec fn next_settings_stage(stage: SettingsStage, outcome: Outcome) -> SettingsStage {
    let ok = outcome != Outcome::Failed;
    match stage {
        SettingsStage::CreatingDir => if ok {
            SettingsStage::Serializing
        } else {
            SettingsStage::Finished
        },
        SettingsStage::Serializing => if ok {
            SettingsStage::WritingTemp
        } else {
            SettingsStage::Finished
        },
        SettingsStage::WritingTemp => if ok {
            SettingsStage::Replacing
        } else {
            SettingsStage::Finished
        },
        SettingsStage::Replacing => if ok {
            SettingsStage::Finished
        } else {
            SettingsStage::DroppingTemp
        },
        SettingsStage::DroppingTemp => SettingsStage::Finished,
        SettingsStage::Finished => SettingsStage::Finished,
    }
}

/// `w` asks for `a`, as its stage calls for.
pub open spec fn settings_asks(w: SettingsWrite, a: SettingsAction) -> bool {
    match w.stage {
        SettingsStage::CreatingDir => a matches SettingsAction::CreateDir(d) && d@ == w.dir@,
        SettingsStage::Serializing => a is Serialize,
        SettingsStage::WritingTemp => a matches SettingsAction::WriteTemp(p) && p@ == w.temp@,
        SettingsStage::Replacing => a matches SettingsAction::Rename { from, to } && from@
            == w.temp@ && to@ == w.live@,
        SettingsStage::DroppingTemp => a matches SettingsAction::Remove(p) && p@ == w.temp@,
        SettingsStage::Finished => a is Finish,
    }
}

/// The message of the failure `e` in stage `stage` of a write to `dir`.
pub open spec fn settings_error(w: SettingsWrite, e: Seq<char>) -> Seq<char> {
    match w.stage {
        SettingsStage::CreatingDir => "create config dir ("@ + w.dir@ + "): "@ + e,
        SettingsStage::Serializing => "serialize settings: "@ + e,
        SettingsStage::WritingTemp => "write temp ("@ + w.temp@ + "): "@ + e,
        SettingsStage::Replacing => "rename "@ + w.temp@ + " -> "@ + w.live@ + ": "@ + e,
        _ => w.error@,
    }
}

/// Starts writing the settings into the directory `dir`, whose files are
/// named under the path rules of `style`.
pub fn begin_settings_write(dir: &str, style: PathStyle) -> (r: (SettingsWrite, SettingsAction))
    ensures
        r.0.dir@ == dir@,
        r.0.live@ == settings_path(dir@, style),
        r.0.temp@ == settings_temp_path(dir@, style),
        r.0.stage == SettingsStage::CreatingDir,
        settings_asks(r.0, r.1),
{
    let w = SettingsWrite {
        dir: String::from_str(dir),
        live: join_names(dir, "settings.json", style),
        temp: join_names(dir, "settings.json.tmp", style),
        stage: SettingsStage::CreatingDir,
        error: String::new(),
    };
    (w, SettingsAction::CreateDir(String::from_str(dir)))
}

impl SettingsWrite {
    /// Takes the outcome of the last action and answers the next one.
    pub fn step(&mut self, event: Event) -> (a: SettingsAction)
        requires
            old(self).stage != SettingsStage::Finished,
        ensures
            final(self).dir == old(self).dir,
            final(self).live == old(self).live,
            final(self).temp == old(self).temp,
            final(self).stage == next_settings_stage(old(self).stage, outcome_of(event)),
            settings_asks(*final(self), a),
            a matches SettingsAction::Finish(res) ==> match res {
                Ok(_) => old(self).stage == SettingsStage::Replacing && outcome_of(event)
                    != Outcome::Failed,
                Err(msg) => match event {
                    Event::Failed(e) => msg@ == settings_error(*old(self), e@),
                    _ => old(self).stage == SettingsStage::DroppingTemp && msg@ == old(
                        self,
                    ).error@,
                },
            },
            final(self).stage == SettingsStage::DroppingTemp ==> (event matches Event::Failed(e)
                && final(self).error@ == settings_error(*old(self), e@)),
    {
        let failed: Option<String> = match event {
            Event::Failed(msg) => Some(msg),
            _ => None,
        };
        match self.stage {
            SettingsStage::CreatingDir => match failed {
                None => {
                    self.stage = SettingsStage::Serializing;
                    SettingsAction::Serialize
                },
                Some(e) => {
                    self.stage = SettingsStage::Finished;
                    let mut msg = String::from_str("create config dir (");
                    msg.append(self.dir.as_str());
                    msg.append("): ");
                    msg.append(e.as_str());
                    SettingsAction::Finish(Err(msg))
                },
            },
            SettingsStage::Serializing => match failed {
                None => {
                    self.stage = SettingsStage::WritingTemp;
                    SettingsAction::WriteTemp(self.temp.clone())
                },
                Some(e) => {
                    self.stage = SettingsStage::Finished;
                    let mut msg = String::from_str("serialize settings: ");
                    msg.append(e.as_str());
                    SettingsAction::Finish(Err(msg))
                },
            },
            SettingsStage::WritingTemp => match failed {
                None => {
                    self.stage = SettingsStage::Replacing;
                    SettingsAction::Rename { from: self.temp.clone(), to: self.live.clone() }
                },
                Some(e) => {
                    self.stage = SettingsStage::Finished;
                    let mut msg = String::from_str("write temp (");
                    msg.append(self.temp.as_str());
                    msg.append("): ");
                    msg.append(e.as_str());
                    SettingsAction::Finish(Err(msg))
                },
            },
            SettingsStage::Replacing => match failed {
                None => {
                    self.stage = SettingsStage::Finished;
                    SettingsAction::Finish(Ok(()))
                },
                Some(e) => {
                    let mut msg = String::from_str("rename ");
                    msg.append(self.temp.as_str());
                    msg.append(" -> ");
                    msg.append(self.live.as_str());
                    msg.append(": ");
                    msg.append(e.as_str());
                    self.error = msg;
                    self.stage = SettingsStage::DroppingTemp;
                    SettingsAction::Remove(self.temp.clone())
                },
            },
            SettingsStage::DroppingTemp => {
                self.stage = SettingsStage::Finished;
                SettingsAction::Finish(Err(self.error.clone()))
            },
            SettingsStage::Finished => SettingsAction::Finish(Err(self.error.clone())),
        }
    }
}

/// What the live settings file holds.
#[derive(Clone, Copy, Debug, PartialEq, Eq, Structural)]
pub enum LiveFile {
    /// What it held before the write (possibly nothing).
    Previous,
    /// The complete new settings.
    New,
}

/// What the temporary file holds.
#[derive(Clone, Copy, Debug, PartialEq, Eq, Structural)]
pub enum TempFile {
    /// Nothing written by this write.
    Absent,
    /// The complete new settings.
    Complete,
    /// A write to it was attempted and failed.
    Partial,
}

/// The live file once the action asked for in `stage` had `outcome`.
pub open spec fn live_after(stage: SettingsStage, outcome: Outcome, live: LiveFile) -> LiveFile {
    if stage == SettingsStage::Replacing && outcome != Outcome::Failed {
        LiveFile::New
    } else {
        live
    }
}

/// The temporary file once the action asked for in `stage` had `outcome`.
pub open spec fn temp_after(stage: SettingsStage, outcome: Outcome, temp: TempFile) -> TempFile {
    let ok = outcome != Outcome::Failed;
    match stage {
        SettingsStage::WritingTemp => if ok {
            TempFile::Complete
        } else {
            TempFile::Partial
        },
        SettingsStage::Replacing => if ok {
            TempFile::Absent
        } else {
            temp
        },
        SettingsStage::DroppingTemp => if ok {
            TempFile::Absent
        } else {
            temp
        },
        _ => temp,
    }
}

/// A run of a settings write from `stage` on `outcomes`: the stage it stops
/// in, the live and temporary files then, and whether it succeeded.
pub open spec fn settings_run(
    stage: SettingsStage,
    outcomes: Seq<Outcome>,
    live: LiveFile,
    temp: TempFile,
) -> (SettingsStage, LiveFile, TempFile, bool)
    decreases outcomes.len(),
{
    if stage == SettingsStage::Finished || outcomes.len() == 0 {
        (stage, live, temp, false)
    } else {
        let out = outcomes[0];
        let next = next_settings_stage(stage, out);
        let l2 = live_after(stage, out, live);
        let t2 = temp_after(stage, out, temp);
        if next == SettingsStage::Finished {
            (next, l2, t2, stage == SettingsStage::Replacing && out != Outcome::Failed)
        } else {
            settings_run(next, outcomes.drop_first(), l2, t2)
        }
    }
}

proof fn lemma_settings_run(
    stage: SettingsStage,
    outcomes: Seq<Outcome>,
    live: LiveFile,
    temp: TempFile,
)
    requires
        stage != SettingsStage::Finished,
        live == LiveFile::Previous,
        stage == SettingsStage::WritingTemp || stage == SettingsStage::CreatingDir || stage
            == SettingsStage::Serializing ==> temp == TempFile::Absent,
        stage == SettingsStage::Replacing ==> temp == TempFile::Complete,
    ensures
        ({
            let (s, l, t, ok) = settings_run(stage, outcomes, live, temp);
            &&& s == SettingsStage::Finished && ok ==> l == LiveFile::New && t == TempFile::Absent
            &&& s == SettingsStage::Finished && !ok ==> l == LiveFile::Previous
            &&& l == LiveFile::New ==> ok
            &&& ok ==> s == SettingsStage::Finished
        }),
    decreases outcomes.len(),
{
    if outcomes.len() > 0 {
        let out = outcomes[0];
        let next = next_settings_stage(stage, out);
        if next != SettingsStage::Finished {
            lemma_settings_run(
                next,
                outcomes.drop_first(),
                live_after(stage, out, live),
                temp_after(stage, out, temp),
            );
        }
    }
}

/// A settings write never leaves the live file half-written: it holds either
/// what it held before or the complete new settings, and the new settings
/// exactly when the write succeeded, which leaves no temporary file behind.
pub proof fn law_settings_write_is_atomic(outcomes: Seq<Outcome>)
    ensures
        ({
            let (s, l, t, ok) = settings_run(
                SettingsStage::CreatingDir,
                outcomes,
                LiveFile::Previous,
                TempFile::Absent,
            );
            &&& s == SettingsStage::Finished ==> (l == LiveFile::New <==> ok)
            &&& ok ==> t == TempFile::Absent
        }),
{
    lemma_settings_run(SettingsStage::CreatingDir, outcomes, LiveFile::Previous, TempFile::Absent);
}

/// The step at which reading the settings failed.
#[derive(Clone, Copy, Debug, PartialEq, Eq, Structural)]
pub enum ReadStep {
    /// Reading the file.
    Reading,
    /// Parsing what was read.
    Parsing,
}

/// The message for a settings file at `path` that could not be read or
/// parsed, `error` being the cause.
pub fn read_failure(step: ReadStep, path: &str, error: &str) -> (r: String)
    ensures
        r@ == (match step {
            ReadStep::Reading => "read settings ("@,
            ReadStep::Parsing => "parse settings ("@,
        }) + path@ + "): "@ + error@,
{
    let mut r = match step {
        ReadStep::Reading => String::from_str("read settings ("),
        ReadStep::Parsing => String::from_str("parse settings ("),
    };
    r.append(path);
    r.append("): ");
    r.append(error);
    r
}

/// What removing the settings file came to.
#[derive(Debug, PartialEq, Eq)]
pub enum Removal {
    /// The file was removed.
    Removed,
    /// There was no file to remove.
    Missing,
    /// Removing failed, for the reason given.
    Failed(String),
}

/// The result of removing the settings file at `path`: a missing file
/// counts as removed.
pub fn removal_result(path: &str, removal: Removal) -> (r: Result<(), String>)
    ensures
        match removal {
            Removal::Failed(e) => r matches Err(m) && m@ == "remove settings ("@ + path@ + "): "@
                + e@,
            _ => r is Ok,
        },
{
    match removal {
        Removal::Failed(e) => {
            let mut m = String::from_str("remove settings (");
            m.append(path);
            m.append("): ");
            m.append(e.as_str());
            Err(m)
        },
        _ => Ok(()),
    }
}

} // verus!
