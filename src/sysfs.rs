//! Writes to the per-core attributes under `/sys/devices/system/cpu`.
//!
//! Each write opens a permission window on the attribute file (mode `0600`),
//! writes the value's text, and closes the window again (mode `0400`). The
//! file operations themselves are performed by the caller: an [`AttrWrite`]
//! says which operation comes next and is told how each one went.

use vstd::prelude::*;
use crate::decimal::{decimal_text, int_text};

verus! {

/// Mode of an attribute file while the window is open: owner read/write.
pub const WRITABLE_MODE: u32 = 0o600;

/// Mode of an attribute file outside a write: owner read only.
pub const READ_ONLY_MODE: u32 = 0o400;

/// The per-core attributes that can be written.
#[derive(Clone, Copy, Debug, PartialEq, Eq, Structural)]
pub enum AttrKind {
    MinFrequency,
    MaxFrequency,
    Online,
}

pub open spec fn path_prefix() -> Seq<char> {
    "/sys/devices/system/cpu/cpu"@
}

/// The part of an attribute's path after the core's directory.
pub open spec fn suffix_of(kind: AttrKind) -> Seq<char> {
    match kind {
        AttrKind::MinFrequency => "cpufreq/scaling_min_freq"@,
        AttrKind::MaxFrequency => "cpufreq/scaling_max_freq"@,
        AttrKind::Online => "online"@,
    }
}

/// `/sys/devices/system/cpu/cpu{core}/` followed by the attribute's suffix.
pub open spec fn attribute_path_spec(kind: AttrKind, core: int) -> Seq<char> {
    path_prefix() + int_text(core) + "/"@ + suffix_of(kind)
}

/// The text written to the `online` attribute.
pub open spec fn online_text_spec(enabled: bool) -> Seq<char> {
    if enabled {
        seq!['1']
    } else {
        seq!['0']
    }
}

fn suffix_str(kind: AttrKind) -> (r: &'static str)
    ensures
        r@ == suffix_of(kind),
{
    match kind {
        AttrKind::MinFrequency => "cpufreq/scaling_min_freq",
        AttrKind::MaxFrequency => "cpufreq/scaling_max_freq",
        AttrKind::Online => "online",
    }
}

/// The path of attribute `kind` of core `core`.
pub fn attribute_path(kind: AttrKind, core: i32) -> (r: String)
    ensures
        r@ == attribute_path_spec(kind, core as int),
{
    let mut p = String::from_str("/sys/devices/system/cpu/cpu");
    let n = decimal_text(core);
    p.append(n.as_str());
    p.append("/");
    p.append(suffix_str(kind));
    p
}

/// The text that switches a core on (`"1"`) or off (`"0"`).
pub fn online_text(enabled: bool) -> (r: &'static str)
    ensures
        r@ == online_text_spec(enabled),
{
    proof {
        reveal_strlit("1");
        reveal_strlit("0");
    }
    if enabled {
        "1"
    } else {
        "0"
    }
}

/// The file operation of a write that failed.
#[derive(Clone, Copy, Debug, PartialEq, Eq, Structural)]
pub enum WriteStep {
    OpenWindow,
    WriteValue,
    CloseWindow,
}

/// Where a write stands.
#[derive(Clone, Copy, Debug, PartialEq, Eq, Structural)]
pub enum Stage {
    /// The window is to be opened.
    Open,
    /// The window is open; the value is to be written.
    Write,
    /// The write was attempted; the window is to be closed.
    Close { write_failed: bool },
    /// Every operation succeeded.
    Done,
    /// The write is over, and this operation failed first.
    Failed(WriteStep),
}

/// What the caller is to do next.
#[derive(Clone, Copy, Debug, PartialEq, Eq, Structural)]
pub enum SysfsAction {
    /// Set the attribute file's mode.
    SetMode(u32),
    /// Write the value's text to the attribute file.
    WriteText,
    /// The write succeeded; nothing is left to do.
    Finished,
    /// The write failed; the error is that of the given operation.
    Failed(WriteStep),
}

pub open spec fn is_final(stage: Stage) -> bool {
    stage is Done || stage is Failed
}

pub open spec fn action_of(stage: Stage) -> SysfsAction {
    match stage {
        Stage::Open => SysfsAction::SetMode(WRITABLE_MODE),
        Stage::Write => SysfsAction::WriteText,
        Stage::Close { .. } => SysfsAction::SetMode(READ_ONLY_MODE),
        Stage::Done => SysfsAction::Finished,
        Stage::Failed(step) => SysfsAction::Failed(step),
    }
}

/// The stage after the current operation went well (`ok`) or not. The window
/// is closed after a failed write too; the write's error is then the one
/// reported.
pub open spec fn next_stage(stage: Stage, ok: bool) -> Stage {
    match stage {
        Stage::Open => if ok {
            Stage::Write
        } else {
            Stage::Failed(WriteStep::OpenWindow)
        },
        Stage::Write => Stage::Close { write_failed: !ok },
        Stage::Close { write_failed } => if write_failed {
            Stage::Failed(WriteStep::WriteValue)
        } else if !ok {
            Stage::Failed(WriteStep::CloseWindow)
        } else {
            Stage::Done
        },
        _ => stage,
    }
}

/// The actions asked for, in order, when each operation's outcome is taken
/// from `outcomes` in turn, up to a final action or the last outcome.
pub open spec fn actions_for(stage: Stage, outcomes: Seq<bool>) -> Seq<SysfsAction>
    decreases outcomes.len(),
{
    if is_final(stage) || outcomes.len() == 0 {
        seq![action_of(stage)]
    } else {
        seq![action_of(stage)] + actions_for(next_stage(stage, outcomes[0]), outcomes.drop_first())
    }
}

/// A write of one attribute of one core, in progress.
pub struct AttrWrite {
    path: String,
    text: String,
    stage: Stage,
}

impl AttrWrite {
    pub closed spec fn path_view(&self) -> Seq<char> {
        self.path@
    }

    pub closed spec fn text_view(&self) -> Seq<char> {
        self.text@
    }

    pub closed spec fn stage_view(&self) -> Stage {
        self.stage
    }

    /// A write of `freq` to the minimum frequency of core `core`.
    pub fn min_frequency(core: i32, freq: i32) -> (r: AttrWrite)
        ensures
            r.path_view() == attribute_path_spec(AttrKind::MinFrequency, core as int),
            r.text_view() == int_text(freq as int),
            r.stage_view() == Stage::Open,
    {
        AttrWrite {
            path: attribute_path(AttrKind::MinFrequency, core),
            text: decimal_text(freq),
            stage: Stage::Open,
        }
    }

    /// A write of `freq` to the maximum frequency of core `core`.
    pub fn max_frequency(core: i32, freq: i32) -> (r: AttrWrite)
        ensures
            r.path_view() == attribute_path_spec(AttrKind::MaxFrequency, core as int),
            r.text_view() == int_text(freq as int),
            r.stage_view() == Stage::Open,
    {
        AttrWrite {
            path: attribute_path(AttrKind::MaxFrequency, core),
            text: decimal_text(freq),
            stage: Stage::Open,
        }
    }

    /// A write that switches core `core` on or off.
    pub fn online(core: i32, enabled: bool) -> (r: AttrWrite)
        ensures
            r.path_view() == attribute_path_spec(AttrKind::Online, core as int),
            r.text_view() == online_text_spec(enabled),
            r.stage_view() == Stage::Open,
    {
        AttrWrite {
            path: attribute_path(AttrKind::Online, core),
            text: String::from_str(online_text(enabled)),
            stage: Stage::Open,
        }
    }

    /// The attribute file's path.
    pub fn path(&self) -> (r: &str)
        ensures
            r@ == self.path_view(),
    {
        self.path.as_str()
    }

    /// The text to write.
    pub fn text(&self) -> (r: &str)
        ensures
            r@ == self.text_view(),
    {
        self.text.as_str()
    }

    pub fn stage(&self) -> (r: Stage)
        ensures
            r == self.stage_view(),
    {
        self.stage
    }

    /// The operation to perform next, or the outcome once there is none.
    pub fn action(&self) -> (r: SysfsAction)
        ensures
            r == action_of(self.stage_view()),
    {
        match self.stage {
            Stage::Open => SysfsAction::SetMode(WRITABLE_MODE),
            Stage::Write => SysfsAction::WriteText,
            Stage::Close { .. } => SysfsAction::SetMode(READ_ONLY_MODE),
            Stage::Done => SysfsAction::Finished,
            Stage::Failed(step) => SysfsAction::Failed(step),
        }
    }

    /// Records whether the operation that `action` asked for succeeded. Once
    /// the write is over this changes nothing.
    pub fn record(&mut self, ok: bool)
        ensures
            final(self).stage_view() == next_stage(old(self).stage_view(), ok),
            final(self).path_view() == old(self).path_view(),
            final(self).text_view() == old(self).text_view(),
    {
        self.stage = match self.stage {
            Stage::Open => if ok {
                Stage::Write
            } else {
                Stage::Failed(WriteStep::OpenWindow)
            },
            Stage::Write => Stage::Close { write_failed: !ok },
            Stage::Close { write_failed } => if write_failed {
                Stage::Failed(WriteStep::WriteValue)
            } else if !ok {
                Stage::Failed(WriteStep::CloseWindow)
            } else {
                Stage::Done
            },
            other => other,
        };
    }

    /// Whether the write is over.
    pub fn is_finished(&self) -> (r: bool)
        ensures
            r == is_final(self.stage_view()),
    {
        match self.stage {
            Stage::Done | Stage::Failed(_) => true,
            _ => false,
        }
    }
}

/// Once the window has been opened, the file is set back to read-only mode
/// before the write ends, whether the value's write succeeded or not; if it
/// could not be opened, nothing is written. Three outcomes take every write
/// to its end.
pub proof fn lemma_window_always_closed(opened: bool, written: bool, closed: bool)
    ensures
        actions_for(Stage::Open, seq![opened, written, closed]) == if opened {
            seq![
                SysfsAction::SetMode(WRITABLE_MODE),
                SysfsAction::WriteText,
                SysfsAction::SetMode(READ_ONLY_MODE),
                if !written {
                    SysfsAction::Failed(WriteStep::WriteValue)
                } else if !closed {
                    SysfsAction::Failed(WriteStep::CloseWindow)
                } else {
                    SysfsAction::Finished
                },
            ]
        } else {
            seq![SysfsAction::SetMode(WRITABLE_MODE), SysfsAction::Failed(WriteStep::OpenWindow)]
        },
{
    let o = seq![opened, written, closed];
    reveal_with_fuel(actions_for, 4);
    assert(o.drop_first() =~= seq![written, closed]);
    assert(o.drop_first().drop_first() =~= seq![closed]);
    assert(o.drop_first().drop_first().drop_first() =~= Seq::<bool>::empty());
    if opened {
        let s3 = next_stage(Stage::Close { write_failed: !written }, closed);
        assert(actions_for(s3, Seq::<bool>::empty()) =~= seq![action_of(s3)]);
        assert(actions_for(Stage::Close { write_failed: !written }, seq![closed]) =~= seq![
            SysfsAction::SetMode(READ_ONLY_MODE),
            action_of(s3),
        ]);
        assert(actions_for(Stage::Write, seq![written, closed]) =~= seq![
            SysfsAction::WriteText,
            SysfsAction::SetMode(READ_ONLY_MODE),
            action_of(s3),
        ]);
    } else {
        assert(actions_for(Stage::Failed(WriteStep::OpenWindow), seq![written, closed]) =~= seq![
            SysfsAction::Failed(WriteStep::OpenWindow),
        ]);
    }
    assert(actions_for(Stage::Open, o) =~= seq![action_of(Stage::Open)] + actions_for(
        next_stage(Stage::Open, opened),
        seq![written, closed],
    ));
}

} // verus!
