use vstd::prelude::*;

verus! {

/// The action a key or dial performs on every targeted OBS instance.
#[derive(Clone, Copy, Debug, PartialEq, Eq, Structural)]
pub enum ActionKind {
    Stream,
    Record,
    RecordPause,
    Replay,
    SaveReplay,
    VirtualCam,
    StudioMode,
    StudioTransition,
    Scene,
    Source,
    Mute,
    Filter,
    Collection,
    Profile,
    Screenshot,
    Hotkey,
    RefreshBrowser,
    RefreshCapture,
    Chapter,
    Media,
    Stats,
    Volume,
    Raw,
    RawBatch,
}

/// Kinds that fire a one-shot command rather than flip an on/off state.
pub open spec fn is_one_shot(kind: ActionKind) -> bool {
    match kind {
        ActionKind::SaveReplay
        | ActionKind::StudioTransition
        | ActionKind::Screenshot
        | ActionKind::Hotkey
        | ActionKind::RefreshBrowser
        | ActionKind::RefreshCapture
        | ActionKind::Chapter
        | ActionKind::Raw
        | ActionKind::RawBatch => true,
        _ => false,
    }
}

/// Kinds whose key shows an on/off state.
pub open spec fn spec_has_toggle_state(kind: ActionKind) -> bool {
    !is_one_shot(kind) && kind != ActionKind::Stats && kind != ActionKind::Volume
}

impl ActionKind {
    /// Whether the key image follows an on/off state of OBS.
    pub fn has_toggle_state(self) -> (b: bool)
        ensures
            b == spec_has_toggle_state(self),
    {
        !matches!(
            self,
            Self::SaveReplay
                | Self::StudioTransition
                | Self::Screenshot
                | Self::Hotkey
                | Self::RefreshBrowser
                | Self::RefreshCapture
                | Self::Chapter
                | Self::Stats
                | Self::Volume
                | Self::Raw
                | Self::RawBatch
        )
    }

    /// Whether a press is acknowledged with an OK or alert mark on the key.
    pub fn confirms_press(self) -> (b: bool)
        ensures
            b == is_one_shot(self),
    {
        matches!(
            self,
            Self::SaveReplay
                | Self::StudioTransition
                | Self::Screenshot
                | Self::Hotkey
                | Self::RefreshBrowser
                | Self::RefreshCapture
                | Self::Chapter
                | Self::Raw
                | Self::RawBatch
        )
    }
}

/// A key that confirms its press never shows an on/off state.
pub proof fn confirming_kinds_have_no_toggle_state(kind: ActionKind)
    ensures
        is_one_shot(kind) ==> !spec_has_toggle_state(kind),
{
}

/// How the key was pressed.
#[derive(Clone, Copy, Debug, PartialEq, Eq, Structural)]
pub enum PressKind {
    Single,
    Long,
}

} // verus!
