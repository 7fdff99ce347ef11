use vstd::prelude::*;

use crate::contracts::{ActionParams, ActionParamsView, SceneOutput};
use crate::json::{batch_calls, calls_view, parse_json_object, spec_batch_calls, spec_object_data, spec_parse_json, RawCall};
use crate::kind::{ActionKind, PressKind};
use crate::render::SegmentState;
use crate::text::{blank, decimal, decimal_text, is_blank, is_blank_text, trimmed};

verus! {

/// An OBS output that a key starts, stops, or watches.
#[derive(Clone, Copy, Debug, PartialEq, Eq, Structural)]
pub enum OutputKind {
    Stream,
    Record,
    ReplayBuffer,
    VirtualCam,
}

/// A media input action of OBS.
#[derive(Clone, Copy, Debug, PartialEq, Eq, Structural)]
pub enum MediaAction {
    Play,
    Pause,
    Stop,
    Restart,
    Next,
    Previous,
}

/// One OBS WebSocket request that a key asks an instance to run.
pub enum ObsRequest {
    StopOutput { output: OutputKind },
    ToggleOutput { output: OutputKind },
    GetOutputStatus { output: OutputKind },
    ResumeRecord,
    ToggleRecordPause,
    SaveReplayBuffer,
    GetStudioModeEnabled,
    SetStudioModeEnabled { enabled: bool },
    TriggerStudioModeTransition,
    GetCurrentProgramScene,
    GetCurrentPreviewScene,
    SetCurrentProgramScene { scene: String },
    SetCurrentPreviewScene { scene: String },
    GetSceneItemList { scene: String },
    GetSceneItemEnabled { scene: String, item: i64 },
    SetSceneItemEnabled { scene: String, item: i64, enabled: bool },
    GetInputMute { input: String },
    SetInputMute { input: String, muted: bool },
    ToggleInputMute { input: String },
    GetSourceFilter { source: String, filter: String },
    SetSourceFilterEnabled { source: String, filter: String, enabled: bool },
    GetSceneCollectionList,
    SetCurrentSceneCollection { name: String },
    GetProfileList,
    SetCurrentProfile { name: String },
    SaveSourceScreenshot { source: String, format: String, path: String },
    TriggerHotkeyByName { name: String },
    TriggerHotkeyByKeySequence {
        key_id: String,
        shift: bool,
        control: bool,
        alt: bool,
        command: bool,
    },
    PressInputPropertiesButton { input: String, property: String },
    CreateRecordChapter { chapter: Option<String> },
    GetMediaInputStatus { input: String },
    TriggerMediaInputAction { input: String, action: MediaAction },
    RawRequest { request_type: String, data: String },
    RawBatch { calls: Vec<RawCall>, halt_on_failure: bool },
    GetSceneList,
    GetInputList,
    GetHotkeyList,
    GetSourceFilterList { source: String },
}

pub enum ObsRequestView {
    StopOutput { output: OutputKind },
    ToggleOutput { output: OutputKind },
    GetOutputStatus { output: OutputKind },
    ResumeRecord,
    ToggleRecordPause,
    SaveReplayBuffer,
    GetStudioModeEnabled,
    SetStudioModeEnabled { enabled: bool },
    TriggerStudioModeTransition,
    GetCurrentProgramScene,
    GetCurrentPreviewScene,
    SetCurrentProgramScene { scene: Seq<char> },
    SetCurrentPreviewScene { scene: Seq<char> },
    GetSceneItemList { scene: Seq<char> },
    GetSceneItemEnabled { scene: Seq<char>, item: i64 },
    SetSceneItemEnabled { scene: Seq<char>, item: i64, enabled: bool },
    GetInputMute { input: Seq<char> },
    SetInputMute { input: Seq<char>, muted: bool },
    ToggleInputMute { input: Seq<char> },
    GetSourceFilter { source: Seq<char>, filter: Seq<char> },
    SetSourceFilterEnabled { source: Seq<char>, filter: Seq<char>, enabled: bool },
    GetSceneCollectionList,
    SetCurrentSceneCollection { name: Seq<char> },
    GetProfileList,
    SetCurrentProfile { name: Seq<char> },
    SaveSourceScreenshot { source: Seq<char>, format: Seq<char>, path: Seq<char> },
    TriggerHotkeyByName { name: Seq<char> },
    TriggerHotkeyByKeySequence {
        key_id: Seq<char>,
        shift: bool,
        control: bool,
        alt: bool,
        command: bool,
    },
    PressInputPropertiesButton { input: Seq<char>, property: Seq<char> },
    CreateRecordChapter { chapter: Option<Seq<char>> },
    GetMediaInputStatus { input: Seq<char> },
    TriggerMediaInputAction { input: Seq<char>, action: MediaAction },
    RawRequest { request_type: Seq<char>, data: Seq<char> },
    RawBatch { calls: Seq<(Seq<char>, Seq<char>)>, halt_on_failure: bool },
    GetSceneList,
    GetInputList,
    GetHotkeyList,
    GetSourceFilterList { source: Seq<char> },
}

impl View for ObsRequest {
    type V = ObsRequestView;

    open spec fn view(&self) -> ObsRequestView {
        match self {
            ObsRequest::StopOutput { output } => ObsRequestView::StopOutput { output: *output },
            ObsRequest::ToggleOutput { output } => ObsRequestView::ToggleOutput { output: *output },
            ObsRequest::GetOutputStatus { output } => ObsRequestView::GetOutputStatus {
                output: *output,
            },
            ObsRequest::ResumeRecord => ObsRequestView::ResumeRecord,
            ObsRequest::ToggleRecordPause => ObsRequestView::ToggleRecordPause,
            ObsRequest::SaveReplayBuffer => ObsRequestView::SaveReplayBuffer,
            ObsRequest::GetStudioModeEnabled => ObsRequestView::GetStudioModeEnabled,
            ObsRequest::SetStudioModeEnabled { enabled } => ObsRequestView::SetStudioModeEnabled {
                enabled: *enabled,
            },
            ObsRequest::TriggerStudioModeTransition => ObsRequestView::TriggerStudioModeTransition,
            ObsRequest::GetCurrentProgramScene => ObsRequestView::GetCurrentProgramScene,
            ObsRequest::GetCurrentPreviewScene => ObsRequestView::GetCurrentPreviewScene,
            ObsRequest::SetCurrentProgramScene { scene } => ObsRequestView::SetCurrentProgramScene {
                scene: scene@,
            },
            ObsRequest::SetCurrentPreviewScene { scene } => ObsRequestView::SetCurrentPreviewScene {
                scene: scene@,
            },
            ObsRequest::GetSceneItemList { scene } => ObsRequestView::GetSceneItemList {
                scene: scene@,
            },
            ObsRequest::GetSceneItemEnabled { scene, item } => ObsRequestView::GetSceneItemEnabled {
                scene: scene@,
                item: *item,
            },
            ObsRequest::SetSceneItemEnabled {
                scene,
                item,
                enabled,
            } => ObsRequestView::SetSceneItemEnabled { scene: scene@, item: *item, enabled: *enabled },
            ObsRequest::GetInputMute { input } => ObsRequestView::GetInputMute { input: input@ },
            ObsRequest::SetInputMute { input, muted } => ObsRequestView::SetInputMute {
                input: input@,
                muted: *muted,
            },
            ObsRequest::ToggleInputMute { input } => ObsRequestView::ToggleInputMute {
                input: input@,
            },
            ObsRequest::GetSourceFilter { source, filter } => ObsRequestView::GetSourceFilter {
                source: source@,
                filter: filter@,
            },
            ObsRequest::SetSourceFilterEnabled {
                source,
                filter,
                enabled,
            } => ObsRequestView::SetSourceFilterEnabled {
                source: source@,
                filter: filter@,
                enabled: *enabled,
            },
            ObsRequest::GetSceneCollectionList => ObsRequestView::GetSceneCollectionList,
            ObsRequest::SetCurrentSceneCollection { name } => ObsRequestView::SetCurrentSceneCollection {
                name: name@,
            },
            ObsRequest::GetProfileList => ObsRequestView::GetProfileList,
            ObsRequest::SetCurrentProfile { name } => ObsRequestView::SetCurrentProfile {
                name: name@,
            },
            ObsRequest::SaveSourceScreenshot {
                source,
                format,
                path,
            } => ObsRequestView::SaveSourceScreenshot {
                source: source@,
                format: format@,
                path: path@,
            },
            ObsRequest::TriggerHotkeyByName { name } => ObsRequestView::TriggerHotkeyByName {
                name: name@,
            },
            ObsRequest::TriggerHotkeyByKeySequence {
                key_id,
                shift,
                control,
                alt,
                command,
            } => ObsRequestView::TriggerHotkeyByKeySequence {
                key_id: key_id@,
                shift: *shift,
                control: *control,
                alt: *alt,
                command: *command,
            },
            ObsRequest::PressInputPropertiesButton {
                input,
                property,
            } => ObsRequestView::PressInputPropertiesButton {
                input: input@,
                property: property@,
            },
            ObsRequest::CreateRecordChapter { chapter } => ObsRequestView::CreateRecordChapter {
                chapter: match chapter {
                    Some(n) => Some(n@),
                    None => None,
                },
            },
            ObsRequest::GetMediaInputStatus { input } => ObsRequestView::GetMediaInputStatus {
                input: input@,
            },
            ObsRequest::TriggerMediaInputAction {
                input,
                action,
            } => ObsRequestView::TriggerMediaInputAction { input: input@, action: *action },
            ObsRequest::RawRequest { request_type, data } => ObsRequestView::RawRequest {
                request_type: request_type@,
                data: data@,
            },
            ObsRequest::RawBatch { calls, halt_on_failure } => ObsRequestView::RawBatch {
                calls: calls_view(calls@),
                halt_on_failure: *halt_on_failure,
            },
            ObsRequest::GetSceneList => ObsRequestView::GetSceneList,
            ObsRequest::GetInputList => ObsRequestView::GetInputList,
            ObsRequest::GetHotkeyList => ObsRequestView::GetHotkeyList,
            ObsRequest::GetSourceFilterList { source } => ObsRequestView::GetSourceFilterList {
                source: source@,
            },
        }
    }
}

/// A scene item as OBS lists it.
pub struct SceneItem {
    pub source_name: String,
    pub item_id: i64,
}

/// What OBS answered to one request.
pub enum ObsReply {
    /// The request succeeded and returned nothing the plugin reads.
    Done,
    /// The state of an output; `paused` and `reconnecting` are false where OBS does not report them.
    Output { active: bool, paused: bool, reconnecting: bool },
    /// A boolean state: studio mode, item visibility, mute, filter.
    Flag(bool),
    /// The name of the current program or preview scene.
    Name(String),
    SceneItems(Vec<SceneItem>),
    /// A list with a current entry: scene collections or profiles.
    Listing { current: String, names: Vec<String> },
    Names(Vec<String>),
    MediaState(String),
    /// The request failed with this message.
    Failed(String),
    /// A raw request that OBS refused, with its status code and comment.
    RawFailed { code: i64, comment: Option<String> },
}

/// What to do next for a key press or a state refresh.
pub enum Step {
    Send(ObsRequest),
    Finish(Result<SegmentState, String>),
}

pub enum StepView {
    Send(ObsRequestView),
    Finish(Result<SegmentState, Seq<char>>),
}

impl View for Step {
    type V = StepView;

    open spec fn view(&self) -> StepView {
        match self {
            Step::Send(r) => StepView::Send(r@),
            Step::Finish(Ok(s)) => StepView::Finish(Ok(*s)),
            Step::Finish(Err(e)) => StepView::Finish(Err(e@)),
        }
    }
}

pub open spec fn unexpected() -> Seq<char> {
    "unexpected reply from OBS"@
}

pub open spec fn spec_flag(active: bool) -> SegmentState {
    if active {
        SegmentState::Active
    } else {
        SegmentState::Inactive
    }
}

/// A lit segment for an active state, a dark one otherwise.
pub fn flag(active: bool) -> (state: SegmentState)
    ensures
        state == spec_flag(active),
{
    if active {
        SegmentState::Active
    } else {
        SegmentState::Inactive
    }
}

pub open spec fn spec_output_flag(active: bool, paused: bool) -> SegmentState {
    if paused {
        SegmentState::Intermediate
    } else {
        spec_flag(active)
    }
}

/// A recording's segment: amber while paused.
pub fn output_flag(active: bool, paused: bool) -> (state: SegmentState)
    ensures
        state == spec_output_flag(active, paused),
{
    if paused {
        SegmentState::Intermediate
    } else {
        flag(active)
    }
}

pub open spec fn spec_follows_preview(output: SceneOutput) -> bool {
    output == SceneOutput::Preview || output == SceneOutput::Both
}

/// Whether a scene key watches the studio-mode preview.
pub fn follows_preview(output: SceneOutput) -> (b: bool)
    ensures
        b == spec_follows_preview(output),
{
    matches!(output, SceneOutput::Preview | SceneOutput::Both)
}

pub open spec fn spec_sends_preview(output: SceneOutput, press: PressKind) -> bool {
    (output == SceneOutput::Preview && press == PressKind::Single) || (output
        != SceneOutput::Preview && press == PressKind::Long)
}

/// Whether a scene key press sets the preview scene rather than the program scene.
pub fn sends_preview(output: SceneOutput, press: PressKind) -> (b: bool)
    ensures
        b == spec_sends_preview(output, press),
{
    match (output, press) {
        (SceneOutput::Preview, PressKind::Single) => true,
        (SceneOutput::Program, PressKind::Long) | (SceneOutput::Both, PressKind::Long) => true,
        (SceneOutput::Preview, PressKind::Long)
        | (SceneOutput::Program, PressKind::Single)
        | (SceneOutput::Both, PressKind::Single) => false,
    }
}

/// The segment for a media input state.
pub open spec fn spec_media_segment(state: Seq<char>) -> SegmentState {
    if state == "OBS_MEDIA_STATE_PLAYING"@ {
        SegmentState::Active
    } else if state == "OBS_MEDIA_STATE_PAUSED"@ || state == "OBS_MEDIA_STATE_BUFFERING"@ || state
        == "OBS_MEDIA_STATE_OPENING"@ {
        SegmentState::Intermediate
    } else {
        SegmentState::Inactive
    }
}

pub fn media_segment(state: &str) -> (segment: SegmentState)
    ensures
        segment == spec_media_segment(state@),
{
    if crate::text::same_str(state, "OBS_MEDIA_STATE_PLAYING") {
        SegmentState::Active
    } else if crate::text::same_str(state, "OBS_MEDIA_STATE_PAUSED")
        || crate::text::same_str(state, "OBS_MEDIA_STATE_BUFFERING")
        || crate::text::same_str(state, "OBS_MEDIA_STATE_OPENING") {
        SegmentState::Intermediate
    } else {
        SegmentState::Inactive
    }
}

/// The output that an output key drives.
pub open spec fn output_of(kind: ActionKind) -> Option<OutputKind> {
    match kind {
        ActionKind::Stream => Some(OutputKind::Stream),
        ActionKind::Record => Some(OutputKind::Record),
        ActionKind::Replay => Some(OutputKind::ReplayBuffer),
        ActionKind::VirtualCam => Some(OutputKind::VirtualCam),
        _ => None,
    }
}

/// The first scene item showing the named source.
pub open spec fn find_item(items: Seq<SceneItem>, source: Seq<char>) -> Option<i64>
    decreases items.len(),
{
    if items.len() == 0 {
        None
    } else if items[0].source_name@ == source {
        Some(items[0].item_id)
    } else {
        find_item(items.drop_first(), source)
    }
}

/// The media action a press asks for: a named one, or play/pause by the current state.
pub open spec fn named_media_action(name: Seq<char>) -> Option<MediaAction> {
    if name == "play"@ {
        Some(MediaAction::Play)
    } else if name == "pause"@ {
        Some(MediaAction::Pause)
    } else if name == "stop"@ {
        Some(MediaAction::Stop)
    } else if name == "restart"@ {
        Some(MediaAction::Restart)
    } else if name == "next"@ {
        Some(MediaAction::Next)
    } else if name == "previous"@ {
        Some(MediaAction::Previous)
    } else {
        None
    }
}

/// The error text of a raw request that failed.
pub open spec fn spec_raw_text(label: Seq<char>, reply: ObsReply) -> Seq<char> {
    match reply {
        ObsReply::RawFailed { code, comment } => label + " failed ("@ + decimal(code as int)
            + "): "@ + match comment {
            Some(c) => c@,
            None => "request failed"@,
        },
        ObsReply::Failed(m) => m@,
        _ => unexpected(),
    }
}

/// Finish with the failure a reply carries, or with `state`.
pub open spec fn after(reply: ObsReply, state: SegmentState) -> StepView {
    match reply {
        ObsReply::Failed(m) => StepView::Finish(Err(m@)),
        _ => StepView::Finish(Ok(state)),
    }
}

pub open spec fn fail(message: Seq<char>) -> StepView {
    StepView::Finish(Err(message))
}

pub open spec fn done(state: SegmentState) -> StepView {
    StepView::Finish(Ok(state))
}

pub open spec fn send(request: ObsRequestView) -> StepView {
    StepView::Send(request)
}

/// The key press protocol of an output key. A long press stops the output.
pub open spec fn press_output(output: OutputKind, press: PressKind, replies: Seq<ObsReply>) -> StepView {
    if replies.len() == 0 {
        if press == PressKind::Long {
            send(ObsRequestView::StopOutput { output })
        } else {
            send(ObsRequestView::ToggleOutput { output })
        }
    } else if press == PressKind::Long {
        after(replies[0], SegmentState::Inactive)
    } else {
        match replies[0] {
            ObsReply::Failed(m) => fail(m@),
            ObsReply::Output { active, .. } => done(spec_flag(active)),
            _ => fail(unexpected()),
        }
    }
}

/// Record pause: a long press resumes; a press toggles and reads back whether it is paused.
pub open spec fn press_record_pause(press: PressKind, replies: Seq<ObsReply>) -> StepView {
    if press == PressKind::Long {
        if replies.len() == 0 {
            send(ObsRequestView::ResumeRecord)
        } else {
            after(replies[0], SegmentState::Intermediate)
        }
    } else if replies.len() == 0 {
        send(ObsRequestView::ToggleRecordPause)
    } else if replies[0] is Failed {
        after(replies[0], SegmentState::Intermediate)
    } else if replies.len() == 1 {
        send(ObsRequestView::GetOutputStatus { output: OutputKind::Record })
    } else {
        match replies[1] {
            ObsReply::Failed(m) => fail(m@),
            ObsReply::Output { paused, .. } => done(
                if paused {
                    SegmentState::Active
                } else {
                    SegmentState::Intermediate
                },
            ),
            _ => fail(unexpected()),
        }
    }
}

/// Studio mode: read it, then set the opposite; a long press turns it off.
pub open spec fn press_studio(press: PressKind, replies: Seq<ObsReply>) -> StepView {
    if replies.len() == 0 {
        send(ObsRequestView::GetStudioModeEnabled)
    } else {
        match replies[0] {
            ObsReply::Failed(m) => fail(m@),
            ObsReply::Flag(enabled) => {
                let next = press != PressKind::Long && !enabled;
                if replies.len() == 1 {
                    send(ObsRequestView::SetStudioModeEnabled { enabled: next })
                } else {
                    after(replies[1], spec_flag(next))
                }
            },
            _ => fail(unexpected()),
        }
    }
}

/// Scene: set the program or the preview scene.
pub open spec fn press_scene(
    params: ActionParamsView,
    output: SceneOutput,
    press: PressKind,
    replies: Seq<ObsReply>,
) -> StepView {
    if params.scene_name.len() == 0 {
        done(SegmentState::Inactive)
    } else if spec_sends_preview(output, press) {
        if replies.len() == 0 {
            send(ObsRequestView::SetCurrentPreviewScene { scene: params.scene_name })
        } else if replies[0] is Failed {
            done(SegmentState::Inactive)
        } else if output == SceneOutput::Preview {
            done(SegmentState::Active)
        } else {
            done(SegmentState::Intermediate)
        }
    } else if replies.len() == 0 {
        send(ObsRequestView::SetCurrentProgramScene { scene: params.scene_name })
    } else {
        after(replies[0], SegmentState::Active)
    }
}

pub open spec fn item_missing(params: ActionParamsView) -> Seq<char> {
    "scene item `"@ + params.source_name + "` was not found in `"@ + params.scene_name + "`"@
}

/// Source: find the item, then show or hide it; a long press hides it.
pub open spec fn press_source(params: ActionParamsView, press: PressKind, replies: Seq<ObsReply>) -> StepView {
    let scene = params.scene_name;
    if replies.len() == 0 {
        send(ObsRequestView::GetSceneItemList { scene })
    } else {
        match replies[0] {
            ObsReply::Failed(m) => fail(m@),
            ObsReply::SceneItems(items) => match find_item(items@, params.source_name) {
                None => fail(item_missing(params)),
                Some(item) => if press == PressKind::Long {
                    if replies.len() == 1 {
                        send(ObsRequestView::SetSceneItemEnabled { scene, item, enabled: false })
                    } else {
                        after(replies[1], SegmentState::Inactive)
                    }
                } else if replies.len() == 1 {
                    send(ObsRequestView::GetSceneItemEnabled { scene, item })
                } else {
                    match replies[1] {
                        ObsReply::Failed(m) => fail(m@),
                        ObsReply::Flag(enabled) => if replies.len() == 2 {
                            send(ObsRequestView::SetSceneItemEnabled { scene, item, enabled: !enabled })
                        } else {
                            after(replies[2], spec_flag(!enabled))
                        },
                        _ => fail(unexpected()),
                    }
                },
            },
            _ => fail(unexpected()),
        }
    }
}

/// Mute: toggle; a long press holds mute on.
pub open spec fn press_mute(params: ActionParamsView, press: PressKind, replies: Seq<ObsReply>) -> StepView {
    let input = params.input_name;
    if press == PressKind::Long {
        if replies.len() == 0 {
            send(ObsRequestView::SetInputMute { input, muted: true })
        } else {
            after(replies[0], SegmentState::Active)
        }
    } else if replies.len() == 0 {
        send(ObsRequestView::ToggleInputMute { input })
    } else {
        match replies[0] {
            ObsReply::Failed(m) => fail(m@),
            ObsReply::Flag(muted) => done(spec_flag(muted)),
            _ => fail(unexpected()),
        }
    }
}

/// Filter: read it, then enable or disable it; a long press disables it.
pub open spec fn press_filter(params: ActionParamsView, press: PressKind, replies: Seq<ObsReply>) -> StepView {
    let source = params.source_name;
    let filter = params.filter_name;
    if replies.len() == 0 {
        send(ObsRequestView::GetSourceFilter { source, filter })
    } else {
        match replies[0] {
            ObsReply::Failed(m) => fail(m@),
            ObsReply::Flag(enabled) => {
                let next = press != PressKind::Long && !enabled;
                if replies.len() == 1 {
                    send(ObsRequestView::SetSourceFilterEnabled { source, filter, enabled: next })
                } else {
                    after(replies[1], spec_flag(next))
                }
            },
            _ => fail(unexpected()),
        }
    }
}

/// A one-request action that leaves the key neutral.
pub open spec fn one_shot(request: ObsRequestView, replies: Seq<ObsReply>) -> StepView {
    if replies.len() == 0 {
        send(request)
    } else {
        after(replies[0], SegmentState::Neutral)
    }
}

/// A one-request action that lights the key.
pub open spec fn one_set(request: ObsRequestView, replies: Seq<ObsReply>) -> StepView {
    if replies.len() == 0 {
        send(request)
    } else {
        after(replies[0], SegmentState::Active)
    }
}

pub open spec fn press_screenshot(params: ActionParamsView, replies: Seq<ObsReply>) -> StepView {
    if is_blank_text(params.file_path) {
        fail("screenshot file path is empty"@)
    } else {
        one_shot(
            ObsRequestView::SaveSourceScreenshot {
                source: params.source_name,
                format: params.format,
                path: params.file_path,
            },
            replies,
        )
    }
}

pub open spec fn press_hotkey(params: ActionParamsView, replies: Seq<ObsReply>) -> StepView {
    if !is_blank_text(params.hotkey_name) {
        one_shot(ObsRequestView::TriggerHotkeyByName { name: params.hotkey_name }, replies)
    } else if !is_blank_text(params.key_id) {
        one_shot(
            ObsRequestView::TriggerHotkeyByKeySequence {
                key_id: params.key_id,
                shift: params.shift,
                control: params.control,
                alt: params.alt,
                command: params.command,
            },
            replies,
        )
    } else {
        fail("hotkey name is empty"@)
    }
}

pub open spec fn chapter_name(params: ActionParamsView) -> Option<Seq<char>> {
    if is_blank_text(params.chapter_name) {
        None
    } else {
        Some(trimmed(params.chapter_name))
    }
}

/// Media: trigger the named action (or play/pause by the current state), then read the state back.
pub open spec fn press_media(params: ActionParamsView, replies: Seq<ObsReply>) -> StepView {
    let input = params.input_name;
    match named_media_action(params.media_action) {
        Some(action) => media_after_choice(input, action, replies),
        None => if replies.len() == 0 {
            send(ObsRequestView::GetMediaInputStatus { input })
        } else {
            match replies[0] {
                ObsReply::Failed(m) => fail(m@),
                ObsReply::MediaState(state) => media_after_choice(
                    input,
                    if state@ == "OBS_MEDIA_STATE_PLAYING"@ {
                        MediaAction::Pause
                    } else {
                        MediaAction::Play
                    },
                    replies.drop_first(),
                ),
                _ => fail(unexpected()),
            }
        },
    }
}

pub open spec fn media_after_choice(input: Seq<char>, action: MediaAction, replies: Seq<ObsReply>) -> StepView {
    if replies.len() == 0 {
        send(ObsRequestView::TriggerMediaInputAction { input, action })
    } else if replies[0] is Failed {
        after(replies[0], SegmentState::Neutral)
    } else if replies.len() == 1 {
        send(ObsRequestView::GetMediaInputStatus { input })
    } else {
        match replies[1] {
            ObsReply::Failed(m) => fail(m@),
            ObsReply::MediaState(state) => done(spec_media_segment(state@)),
            _ => fail(unexpected()),
        }
    }
}

pub open spec fn press_raw(params: ActionParamsView, replies: Seq<ObsReply>) -> StepView {
    if is_blank_text(params.request_type) {
        fail("request type is empty"@)
    } else {
        match spec_object_data(spec_parse_json(params.request_data)) {
            Err(e) => fail(e),
            Ok(data) => if replies.len() == 0 {
                send(ObsRequestView::RawRequest { request_type: params.request_type, data })
            } else {
                match replies[0] {
                    ObsReply::Failed(_) | ObsReply::RawFailed { .. } => fail(
                        spec_raw_text(params.request_type, replies[0]),
                    ),
                    _ => done(SegmentState::Neutral),
                }
            },
        }
    }
}

pub open spec fn press_raw_batch(params: ActionParamsView, replies: Seq<ObsReply>) -> StepView {
    match spec_batch_calls(params.batch_requests) {
        Err(e) => fail(e),
        Ok(calls) => if replies.len() == 0 {
            send(ObsRequestView::RawBatch { calls, halt_on_failure: params.halt_on_failure })
        } else {
            match replies[0] {
                ObsReply::Failed(_) | ObsReply::RawFailed { .. } => fail(
                    spec_raw_text("batch"@, replies[0]),
                ),
                _ => done(SegmentState::Neutral),
            }
        },
    }
}

/// The next step of a key press on one instance, given OBS's replies so far.
pub open spec fn press_plan(
    kind: ActionKind,
    params: ActionParamsView,
    output: SceneOutput,
    press: PressKind,
    replies: Seq<ObsReply>,
) -> StepView {
    match kind {
        ActionKind::Stream => press_output(OutputKind::Stream, press, replies),
        ActionKind::Record => press_output(OutputKind::Record, press, replies),
        ActionKind::RecordPause => press_record_pause(press, replies),
        ActionKind::Replay => press_output(OutputKind::ReplayBuffer, press, replies),
        ActionKind::SaveReplay => one_shot(ObsRequestView::SaveReplayBuffer, replies),
        ActionKind::VirtualCam => press_output(OutputKind::VirtualCam, press, replies),
        ActionKind::StudioMode => press_studio(press, replies),
        ActionKind::StudioTransition => one_shot(ObsRequestView::TriggerStudioModeTransition, replies),
        ActionKind::Scene => press_scene(params, output, press, replies),
        ActionKind::Source => press_source(params, press, replies),
        ActionKind::Mute => press_mute(params, press, replies),
        ActionKind::Filter => press_filter(params, press, replies),
        ActionKind::Collection => one_set(
            ObsRequestView::SetCurrentSceneCollection { name: params.collection_name },
            replies,
        ),
        ActionKind::Profile => one_set(ObsRequestView::SetCurrentProfile { name: params.profile_name }, replies),
        ActionKind::Screenshot => press_screenshot(params, replies),
        ActionKind::Hotkey => press_hotkey(params, replies),
        ActionKind::RefreshBrowser => one_shot(
            ObsRequestView::PressInputPropertiesButton {
                input: params.input_name,
                property: "refreshnocache"@,
            },
            replies,
        ),
        ActionKind::RefreshCapture => one_shot(
            ObsRequestView::PressInputPropertiesButton { input: params.input_name, property: "activate"@ },
            replies,
        ),
        ActionKind::Chapter => one_shot(ObsRequestView::CreateRecordChapter { chapter: chapter_name(params) }, replies),
        ActionKind::Media => press_media(params, replies),
        ActionKind::Stats => done(SegmentState::Neutral),
        ActionKind::Volume => done(SegmentState::Neutral),
        ActionKind::Raw => press_raw(params, replies),
        ActionKind::RawBatch => press_raw_batch(params, replies),
    }
}

fn text_of(s: &str) -> (t: String)
    ensures
        t@ == s@,
{
    String::from_str(s)
}

fn fail_with(message: String) -> (step: Step)
    ensures
        step@ == fail(message@),
{
    Step::Finish(Err(message))
}

fn done_with(state: SegmentState) -> (step: Step)
    ensures
        step@ == done(state),
{
    Step::Finish(Ok(state))
}

fn after_reply(reply: &ObsReply, state: SegmentState) -> (step: Step)
    ensures
        step@ == after(*reply, state),
{
    match reply {
        ObsReply::Failed(m) => Step::Finish(Err(m.clone())),
        _ => Step::Finish(Ok(state)),
    }
}

fn unexpected_step() -> (step: Step)
    ensures
        step@ == fail(unexpected()),
{
    fail_with(text_of("unexpected reply from OBS"))
}

proof fn lemma_find_item_index(items: Seq<SceneItem>, source: Seq<char>, i: int)
    requires
        0 <= i <= items.len(),
        forall|j: int| 0 <= j < i ==> items[j].source_name@ != source,
    ensures
        find_item(items, source) == find_item(items.subrange(i, items.len() as int), source),
    decreases i,
{
    if i > 0 {
        let rest = items.drop_first();
        assert forall|j: int| 0 <= j < i - 1 implies rest[j].source_name@ != source by {
            assert(rest[j] == items[j + 1]);
        }
        lemma_find_item_index(rest, source, i - 1);
        assert(rest.subrange(i - 1, rest.len() as int) =~= items.subrange(i, items.len() as int));
    } else {
        assert(items.subrange(0, items.len() as int) =~= items);
    }
}

/// The id of the first scene item that shows the named source.
pub fn find_scene_item(items: &Vec<SceneItem>, source: &String) -> (item: Option<i64>)
    ensures
        item == find_item(items@, source@),
{
    let mut i: usize = 0;
    while i < items.len()
        invariant
            i <= items.len(),
            forall|j: int| 0 <= j < i ==> items@[j].source_name@ != source@,
        decreases items.len() - i,
    {
        if crate::config::same_text(&items[i].source_name, source) {
            proof {
                lemma_find_item_index(items@, source@, i as int);
            }
            return Some(items[i].item_id);
        }
        i = i + 1;
    }
    proof {
        lemma_find_item_index(items@, source@, i as int);
    }
    None
}

/// The media action a setting names, if it names one.
pub fn media_action_named(name: &String) -> (action: Option<MediaAction>)
    ensures
        action == named_media_action(name@),
{
    let n = name.as_str();
    if crate::text::same_str(n, "play") {
        Some(MediaAction::Play)
    } else if crate::text::same_str(n, "pause") {
        Some(MediaAction::Pause)
    } else if crate::text::same_str(n, "stop") {
        Some(MediaAction::Stop)
    } else if crate::text::same_str(n, "restart") {
        Some(MediaAction::Restart)
    } else if crate::text::same_str(n, "next") {
        Some(MediaAction::Next)
    } else if crate::text::same_str(n, "previous") {
        Some(MediaAction::Previous)
    } else {
        None
    }
}

/// The error text of a failed raw request: OBS's code and comment, or the pool's message.
pub fn raw_text(label: &str, reply: &ObsReply) -> (text: String)
    ensures
        text@ == spec_raw_text(label@, *reply),
{
    match reply {
        ObsReply::RawFailed { code, comment } => {
            let mut t = text_of(label);
            t.append(" failed (");
            t.append(decimal_text(*code).as_str());
            t.append("): ");
            match comment {
                Some(c) => t.append(c.as_str()),
                None => t.append("request failed"),
            }
            t
        },
        ObsReply::Failed(m) => m.clone(),
        _ => text_of("unexpected reply from OBS"),
    }
}

fn press_output_step(output: OutputKind, press: PressKind, replies: &Vec<ObsReply>) -> (step: Step)
    ensures
        step@ == press_output(output, press, replies@),
{
    if replies.len() == 0 {
        if press == PressKind::Long {
            Step::Send(ObsRequest::StopOutput { output })
        } else {
            Step::Send(ObsRequest::ToggleOutput { output })
        }
    } else if press == PressKind::Long {
        after_reply(&replies[0], SegmentState::Inactive)
    } else {
        match &replies[0] {
            ObsReply::Failed(m) => fail_with(m.clone()),
            ObsReply::Output { active, .. } => done_with(flag(*active)),
            _ => unexpected_step(),
        }
    }
}

fn press_record_pause_step(press: PressKind, replies: &Vec<ObsReply>) -> (step: Step)
    ensures
        step@ == press_record_pause(press, replies@),
{
    if press == PressKind::Long {
        if replies.len() == 0 {
            Step::Send(ObsRequest::ResumeRecord)
        } else {
            after_reply(&replies[0], SegmentState::Intermediate)
        }
    } else if replies.len() == 0 {
        Step::Send(ObsRequest::ToggleRecordPause)
    } else if matches!(&replies[0], ObsReply::Failed(_)) {
        after_reply(&replies[0], SegmentState::Intermediate)
    } else if replies.len() == 1 {
        Step::Send(ObsRequest::GetOutputStatus { output: OutputKind::Record })
    } else {
        match &replies[1] {
            ObsReply::Failed(m) => fail_with(m.clone()),
            ObsReply::Output { paused, .. } => done_with(
                if *paused {
                    SegmentState::Active
                } else {
                    SegmentState::Intermediate
                },
            ),
            _ => unexpected_step(),
        }
    }
}

fn press_studio_step(press: PressKind, replies: &Vec<ObsReply>) -> (step: Step)
    ensures
        step@ == press_studio(press, replies@),
{
    if replies.len() == 0 {
        Step::Send(ObsRequest::GetStudioModeEnabled)
    } else {
        match &replies[0] {
            ObsReply::Failed(m) => fail_with(m.clone()),
            ObsReply::Flag(enabled) => {
                let next = press != PressKind::Long && !*enabled;
                if replies.len() == 1 {
                    Step::Send(ObsRequest::SetStudioModeEnabled { enabled: next })
                } else {
                    after_reply(&replies[1], flag(next))
                }
            },
            _ => unexpected_step(),
        }
    }
}

fn press_scene_step(
    params: &ActionParams,
    output: SceneOutput,
    press: PressKind,
    replies: &Vec<ObsReply>,
) -> (step: Step)
    ensures
        step@ == press_scene(params@, output, press, replies@),
{
    if params.scene_name.as_str().is_empty() {
        done_with(SegmentState::Inactive)
    } else if sends_preview(output, press) {
        if replies.len() == 0 {
            Step::Send(ObsRequest::SetCurrentPreviewScene { scene: params.scene_name.clone() })
        } else if matches!(&replies[0], ObsReply::Failed(_)) {
            done_with(SegmentState::Inactive)
        } else if output == SceneOutput::Preview {
            done_with(SegmentState::Active)
        } else {
            done_with(SegmentState::Intermediate)
        }
    } else if replies.len() == 0 {
        Step::Send(ObsRequest::SetCurrentProgramScene { scene: params.scene_name.clone() })
    } else {
        after_reply(&replies[0], SegmentState::Active)
    }
}

fn item_missing_text(params: &ActionParams) -> (t: String)
    ensures
        t@ == item_missing(params@),
{
    let mut t = text_of("scene item `");
    t.append(params.source_name.as_str());
    t.append("` was not found in `");
    t.append(params.scene_name.as_str());
    t.append("`");
    t
}

fn press_source_step(params: &ActionParams, press: PressKind, replies: &Vec<ObsReply>) -> (step: Step)
    ensures
        step@ == press_source(params@, press, replies@),
{
    if replies.len() == 0 {
        return Step::Send(ObsRequest::GetSceneItemList { scene: params.scene_name.clone() });
    }
    match &replies[0] {
        ObsReply::Failed(m) => fail_with(m.clone()),
        ObsReply::SceneItems(items) => match find_scene_item(items, &params.source_name) {
            None => fail_with(item_missing_text(params)),
            Some(item) => if press == PressKind::Long {
                if replies.len() == 1 {
                    Step::Send(
                        ObsRequest::SetSceneItemEnabled {
                            scene: params.scene_name.clone(),
                            item,
                            enabled: false,
                        },
                    )
                } else {
                    after_reply(&replies[1], SegmentState::Inactive)
                }
            } else if replies.len() == 1 {
                Step::Send(ObsRequest::GetSceneItemEnabled { scene: params.scene_name.clone(), item })
            } else {
                match &replies[1] {
                    ObsReply::Failed(m) => fail_with(m.clone()),
                    ObsReply::Flag(enabled) => if replies.len() == 2 {
                        Step::Send(
                            ObsRequest::SetSceneItemEnabled {
                                scene: params.scene_name.clone(),
                                item,
                                enabled: !*enabled,
                            },
                        )
                    } else {
                        after_reply(&replies[2], flag(!*enabled))
                    },
                    _ => unexpected_step(),
                }
            },
        },
        _ => unexpected_step(),
    }
}

fn press_mute_step(params: &ActionParams, press: PressKind, replies: &Vec<ObsReply>) -> (step: Step)
    ensures
        step@ == press_mute(params@, press, replies@),
{
    if press == PressKind::Long {
        if replies.len() == 0 {
            Step::Send(ObsRequest::SetInputMute { input: params.input_name.clone(), muted: true })
        } else {
            after_reply(&replies[0], SegmentState::Active)
        }
    } else if replies.len() == 0 {
        Step::Send(ObsRequest::ToggleInputMute { input: params.input_name.clone() })
    } else {
        match &replies[0] {
            ObsReply::Failed(m) => fail_with(m.clone()),
            ObsReply::Flag(muted) => done_with(flag(*muted)),
            _ => unexpected_step(),
        }
    }
}

fn press_filter_step(params: &ActionParams, press: PressKind, replies: &Vec<ObsReply>) -> (step: Step)
    ensures
        step@ == press_filter(params@, press, replies@),
{
    if replies.len() == 0 {
        return Step::Send(
            ObsRequest::GetSourceFilter {
                source: params.source_name.clone(),
                filter: params.filter_name.clone(),
            },
        );
    }
    match &replies[0] {
        ObsReply::Failed(m) => fail_with(m.clone()),
        ObsReply::Flag(enabled) => {
            let next = press != PressKind::Long && !*enabled;
            if replies.len() == 1 {
                Step::Send(
                    ObsRequest::SetSourceFilterEnabled {
                        source: params.source_name.clone(),
                        filter: params.filter_name.clone(),
                        enabled: next,
                    },
                )
            } else {
                after_reply(&replies[1], flag(next))
            }
        },
        _ => unexpected_step(),
    }
}

fn one_shot_step(request: ObsRequest, replies: &Vec<ObsReply>) -> (step: Step)
    ensures
        step@ == one_shot(request@, replies@),
{
    if replies.len() == 0 {
        Step::Send(request)
    } else {
        after_reply(&replies[0], SegmentState::Neutral)
    }
}

fn one_set_step(request: ObsRequest, replies: &Vec<ObsReply>) -> (step: Step)
    ensures
        step@ == one_set(request@, replies@),
{
    if replies.len() == 0 {
        Step::Send(request)
    } else {
        after_reply(&replies[0], SegmentState::Active)
    }
}

fn press_screenshot_step(params: &ActionParams, replies: &Vec<ObsReply>) -> (step: Step)
    ensures
        step@ == press_screenshot(params@, replies@),
{
    if is_blank(params.file_path.as_str()) {
        fail_with(text_of("screenshot file path is empty"))
    } else {
        one_shot_step(
            ObsRequest::SaveSourceScreenshot {
                source: params.source_name.clone(),
                format: params.format.clone(),
                path: params.file_path.clone(),
            },
            replies,
        )
    }
}

fn press_hotkey_step(params: &ActionParams, replies: &Vec<ObsReply>) -> (step: Step)
    ensures
        step@ == press_hotkey(params@, replies@),
{
    if !is_blank(params.hotkey_name.as_str()) {
        one_shot_step(ObsRequest::TriggerHotkeyByName { name: params.hotkey_name.clone() }, replies)
    } else if !is_blank(params.key_id.as_str()) {
        one_shot_step(
            ObsRequest::TriggerHotkeyByKeySequence {
                key_id: params.key_id.clone(),
                shift: params.shift,
                control: params.control,
                alt: params.alt,
                command: params.command,
            },
            replies,
        )
    } else {
        fail_with(text_of("hotkey name is empty"))
    }
}

fn chapter_request(params: &ActionParams) -> (request: ObsRequest)
    ensures
        request@ == (ObsRequestView::CreateRecordChapter { chapter: chapter_name(params@) }),
{
    match blank(params.chapter_name.as_str()) {
        Some(name) => ObsRequest::CreateRecordChapter { chapter: Some(name.to_owned()) },
        None => ObsRequest::CreateRecordChapter { chapter: None },
    }
}

fn media_after_choice_step(
    input: &String,
    action: MediaAction,
    replies: &Vec<ObsReply>,
    offset: usize,
) -> (step: Step)
    requires
        offset <= replies@.len(),
    ensures
        step@ == media_after_choice(input@, action, replies@.skip(offset as int)),
{
    let ghost rest = replies@.skip(offset as int);
    let n = replies.len() - offset;
    if n == 0 {
        Step::Send(ObsRequest::TriggerMediaInputAction { input: input.clone(), action })
    } else if matches!(&replies[offset], ObsReply::Failed(_)) {
        assert(rest[0] == replies@[offset as int]);
        after_reply(&replies[offset], SegmentState::Neutral)
    } else if n == 1 {
        Step::Send(ObsRequest::GetMediaInputStatus { input: input.clone() })
    } else {
        assert(rest[0] == replies@[offset as int]);
        assert(rest[1] == replies@[offset + 1]);
        match &replies[offset + 1] {
            ObsReply::Failed(m) => fail_with(m.clone()),
            ObsReply::MediaState(state) => done_with(media_segment(state.as_str())),
            _ => unexpected_step(),
        }
    }
}

fn press_media_step(params: &ActionParams, replies: &Vec<ObsReply>) -> (step: Step)
    ensures
        step@ == press_media(params@, replies@),
{
    match media_action_named(&params.media_action) {
        Some(action) => {
            assert(replies@.skip(0) =~= replies@);
            media_after_choice_step(&params.input_name, action, replies, 0)
        },
        None => if replies.len() == 0 {
            Step::Send(ObsRequest::GetMediaInputStatus { input: params.input_name.clone() })
        } else {
            match &replies[0] {
                ObsReply::Failed(m) => fail_with(m.clone()),
                ObsReply::MediaState(state) => {
                    let action = if crate::text::same_str(state.as_str(), "OBS_MEDIA_STATE_PLAYING") {
                        MediaAction::Pause
                    } else {
                        MediaAction::Play
                    };
                    assert(replies@.skip(1) =~= replies@.drop_first());
                    media_after_choice_step(&params.input_name, action, replies, 1)
                },
                _ => unexpected_step(),
            }
        },
    }
}

fn press_raw_step(params: &ActionParams, replies: &Vec<ObsReply>) -> (step: Step)
    ensures
        step@ == press_raw(params@, replies@),
{
    if is_blank(params.request_type.as_str()) {
        return fail_with(text_of("request type is empty"));
    }
    match parse_json_object(params.request_data.as_str()) {
        Err(e) => fail_with(e),
        Ok(data) => if replies.len() == 0 {
            Step::Send(ObsRequest::RawRequest { request_type: params.request_type.clone(), data })
        } else {
            match &replies[0] {
                ObsReply::Failed(_) | ObsReply::RawFailed { .. } => fail_with(
                    raw_text(params.request_type.as_str(), &replies[0]),
                ),
                _ => done_with(SegmentState::Neutral),
            }
        },
    }
}

fn press_raw_batch_step(params: &ActionParams, replies: &Vec<ObsReply>) -> (step: Step)
    ensures
        step@ == press_raw_batch(params@, replies@),
{
    match batch_calls(params.batch_requests.as_str()) {
        Err(e) => fail_with(e),
        Ok(calls) => if replies.len() == 0 {
            Step::Send(ObsRequest::RawBatch { calls, halt_on_failure: params.halt_on_failure })
        } else {
            proof {
                reveal_strlit("batch");
            }
            match &replies[0] {
                ObsReply::Failed(_) | ObsReply::RawFailed { .. } => fail_with(raw_text("batch", &replies[0])),
                _ => done_with(SegmentState::Neutral),
            }
        },
    }
}

/// The next step of a key press on one instance, given OBS's replies so far.
///
/// The caller sends each requested call to the instance, appends the reply,
/// and asks again until the press finishes with the segment state to show or
/// the error to report.
pub fn press_step(
    kind: ActionKind,
    params: &ActionParams,
    output: SceneOutput,
    press: PressKind,
    replies: &Vec<ObsReply>,
) -> (step: Step)
    ensures
        step@ == press_plan(kind, params@, output, press, replies@),
{
    match kind {
        ActionKind::Stream => press_output_step(OutputKind::Stream, press, replies),
        ActionKind::Record => press_output_step(OutputKind::Record, press, replies),
        ActionKind::RecordPause => press_record_pause_step(press, replies),
        ActionKind::Replay => press_output_step(OutputKind::ReplayBuffer, press, replies),
        ActionKind::SaveReplay => one_shot_step(ObsRequest::SaveReplayBuffer, replies),
        ActionKind::VirtualCam => press_output_step(OutputKind::VirtualCam, press, replies),
        ActionKind::StudioMode => press_studio_step(press, replies),
        ActionKind::StudioTransition => one_shot_step(ObsRequest::TriggerStudioModeTransition, replies),
        ActionKind::Scene => press_scene_step(params, output, press, replies),
        ActionKind::Source => press_source_step(params, press, replies),
        ActionKind::Mute => press_mute_step(params, press, replies),
        ActionKind::Filter => press_filter_step(params, press, replies),
        ActionKind::Collection => one_set_step(
            ObsRequest::SetCurrentSceneCollection { name: params.collection_name.clone() },
            replies,
        ),
        ActionKind::Profile => one_set_step(
            ObsRequest::SetCurrentProfile { name: params.profile_name.clone() },
            replies,
        ),
        ActionKind::Screenshot => press_screenshot_step(params, replies),
        ActionKind::Hotkey => press_hotkey_step(params, replies),
        ActionKind::RefreshBrowser => {
            proof {
                reveal_strlit("refreshnocache");
            }
            one_shot_step(
                ObsRequest::PressInputPropertiesButton {
                    input: params.input_name.clone(),
                    property: text_of("refreshnocache"),
                },
                replies,
            )
        },
        ActionKind::RefreshCapture => one_shot_step(
            ObsRequest::PressInputPropertiesButton {
                input: params.input_name.clone(),
                property: text_of("activate"),
            },
            replies,
        ),
        ActionKind::Chapter => one_shot_step(chapter_request(params), replies),
        ActionKind::Media => press_media_step(params, replies),
        ActionKind::Stats => done_with(SegmentState::Neutral),
        ActionKind::Volume => done_with(SegmentState::Neutral),
        ActionKind::Raw => press_raw_step(params, replies),
        ActionKind::RawBatch => press_raw_batch_step(params, replies),
    }
}

/// The segment an output key shows for an output's state.
pub open spec fn output_segment(kind: ActionKind, active: bool, paused: bool, reconnecting: bool) -> SegmentState {
    match kind {
        ActionKind::Stream => if reconnecting {
            SegmentState::Intermediate
        } else {
            spec_flag(active)
        },
        ActionKind::Record => spec_output_flag(active, paused),
        ActionKind::RecordPause => if !active {
            SegmentState::Inactive
        } else if paused {
            SegmentState::Active
        } else {
            SegmentState::Intermediate
        },
        _ => spec_flag(active),
    }
}

/// The output whose state an output key shows.
pub open spec fn watched_output(kind: ActionKind) -> Option<OutputKind> {
    match kind {
        ActionKind::RecordPause => Some(OutputKind::Record),
        _ => output_of(kind),
    }
}

/// Read one boolean state and show it.
pub open spec fn read_flag(request: ObsRequestView, replies: Seq<ObsReply>) -> StepView {
    if replies.len() == 0 {
        send(request)
    } else {
        match replies[0] {
            ObsReply::Failed(m) => fail(m@),
            ObsReply::Flag(on) => done(spec_flag(on)),
            _ => fail(unexpected()),
        }
    }
}

/// Read a list with a current entry and light the key when `name` is current.
pub open spec fn read_current(request: ObsRequestView, name: Seq<char>, replies: Seq<ObsReply>) -> StepView {
    if replies.len() == 0 {
        send(request)
    } else {
        match replies[0] {
            ObsReply::Failed(m) => fail(m@),
            ObsReply::Listing { current, .. } => done(spec_flag(current@ == name && name.len() > 0)),
            _ => fail(unexpected()),
        }
    }
}

/// Compare the studio-mode preview scene; a failed read counts as no match.
pub open spec fn preview_phase(name: Seq<char>, output: SceneOutput, replies: Seq<ObsReply>) -> StepView {
    if replies.len() == 0 {
        send(ObsRequestView::GetCurrentPreviewScene)
    } else {
        match replies[0] {
            ObsReply::Name(current) => if current@ == name {
                done(
                    if output == SceneOutput::Preview {
                        SegmentState::Active
                    } else {
                        SegmentState::Intermediate
                    },
                )
            } else {
                done(SegmentState::Inactive)
            },
            _ => done(SegmentState::Inactive),
        }
    }
}

/// A scene key lights when its scene is on program (unless it follows the
/// preview only), and, where it follows the preview, when it is previewed.
pub open spec fn scene_state(params: ActionParamsView, output: SceneOutput, replies: Seq<ObsReply>) -> StepView {
    let name = params.scene_name;
    if name.len() == 0 {
        done(SegmentState::Inactive)
    } else if output == SceneOutput::Preview {
        preview_phase(name, output, replies)
    } else if replies.len() == 0 {
        send(ObsRequestView::GetCurrentProgramScene)
    } else {
        match replies[0] {
            ObsReply::Failed(m) => fail(m@),
            ObsReply::Name(current) => if current@ == name {
                done(SegmentState::Active)
            } else if !spec_follows_preview(output) {
                done(SegmentState::Inactive)
            } else {
                preview_phase(name, output, replies.drop_first())
            },
            _ => fail(unexpected()),
        }
    }
}

/// A source key lights when the item is shown; a missing item is dark.
pub open spec fn source_state(params: ActionParamsView, replies: Seq<ObsReply>) -> StepView {
    let scene = params.scene_name;
    if replies.len() == 0 {
        send(ObsRequestView::GetSceneItemList { scene })
    } else {
        match replies[0] {
            ObsReply::Failed(m) => fail(m@),
            ObsReply::SceneItems(items) => match find_item(items@, params.source_name) {
                None => done(SegmentState::Inactive),
                Some(item) => read_flag(
                    ObsRequestView::GetSceneItemEnabled { scene, item },
                    replies.drop_first(),
                ),
            },
            _ => fail(unexpected()),
        }
    }
}

pub open spec fn media_state(params: ActionParamsView, replies: Seq<ObsReply>) -> StepView {
    if replies.len() == 0 {
        send(ObsRequestView::GetMediaInputStatus { input: params.input_name })
    } else {
        match replies[0] {
            ObsReply::Failed(m) => fail(m@),
            ObsReply::MediaState(state) => done(spec_media_segment(state@)),
            _ => fail(unexpected()),
        }
    }
}

/// The next step of reading what a key should show on one instance.
pub open spec fn refresh_plan(
    kind: ActionKind,
    params: ActionParamsView,
    output: SceneOutput,
    replies: Seq<ObsReply>,
) -> StepView {
    match watched_output(kind) {
        Some(o) => if replies.len() == 0 {
            send(ObsRequestView::GetOutputStatus { output: o })
        } else {
            match replies[0] {
                ObsReply::Failed(m) => fail(m@),
                ObsReply::Output { active, paused, reconnecting } => done(
                    output_segment(kind, active, paused, reconnecting),
                ),
                _ => fail(unexpected()),
            }
        },
        None => match kind {
            ActionKind::StudioMode => read_flag(ObsRequestView::GetStudioModeEnabled, replies),
            ActionKind::Scene => scene_state(params, output, replies),
            ActionKind::Source => source_state(params, replies),
            ActionKind::Mute => read_flag(ObsRequestView::GetInputMute { input: params.input_name }, replies),
            ActionKind::Filter => read_flag(
                ObsRequestView::GetSourceFilter { source: params.source_name, filter: params.filter_name },
                replies,
            ),
            ActionKind::Collection => read_current(
                ObsRequestView::GetSceneCollectionList,
                params.collection_name,
                replies,
            ),
            ActionKind::Profile => read_current(ObsRequestView::GetProfileList, params.profile_name, replies),
            ActionKind::Media => media_state(params, replies),
            _ => done(SegmentState::Neutral),
        },
    }
}

fn read_flag_step(request: ObsRequest, replies: &Vec<ObsReply>, offset: usize) -> (step: Step)
    requires
        offset <= replies@.len(),
    ensures
        step@ == read_flag(request@, replies@.skip(offset as int)),
{
    if replies.len() == offset {
        Step::Send(request)
    } else {
        assert(replies@.skip(offset as int)[0] == replies@[offset as int]);
        match &replies[offset] {
            ObsReply::Failed(m) => fail_with(m.clone()),
            ObsReply::Flag(on) => done_with(flag(*on)),
            _ => unexpected_step(),
        }
    }
}

fn read_current_step(request: ObsRequest, name: &String, replies: &Vec<ObsReply>) -> (step: Step)
    ensures
        step@ == read_current(request@, name@, replies@),
{
    if replies.len() == 0 {
        Step::Send(request)
    } else {
        match &replies[0] {
            ObsReply::Failed(m) => fail_with(m.clone()),
            ObsReply::Listing { current, .. } => done_with(
                flag(crate::config::same_text(current, name) && !name.as_str().is_empty()),
            ),
            _ => unexpected_step(),
        }
    }
}

fn preview_phase_step(name: &String, output: SceneOutput, replies: &Vec<ObsReply>, offset: usize) -> (step: Step)
    requires
        offset <= replies@.len(),
    ensures
        step@ == preview_phase(name@, output, replies@.skip(offset as int)),
{
    if replies.len() == offset {
        Step::Send(ObsRequest::GetCurrentPreviewScene)
    } else {
        assert(replies@.skip(offset as int)[0] == replies@[offset as int]);
        match &replies[offset] {
            ObsReply::Name(current) => if crate::config::same_text(current, name) {
                done_with(
                    if output == SceneOutput::Preview {
                        SegmentState::Active
                    } else {
                        SegmentState::Intermediate
                    },
                )
            } else {
                done_with(SegmentState::Inactive)
            },
            _ => done_with(SegmentState::Inactive),
        }
    }
}

fn scene_state_step(params: &ActionParams, output: SceneOutput, replies: &Vec<ObsReply>) -> (step: Step)
    ensures
        step@ == scene_state(params@, output, replies@),
{
    let name = &params.scene_name;
    if name.as_str().is_empty() {
        done_with(SegmentState::Inactive)
    } else if output == SceneOutput::Preview {
        assert(replies@.skip(0) =~= replies@);
        preview_phase_step(name, output, replies, 0)
    } else if replies.len() == 0 {
        Step::Send(ObsRequest::GetCurrentProgramScene)
    } else {
        match &replies[0] {
            ObsReply::Failed(m) => fail_with(m.clone()),
            ObsReply::Name(current) => if crate::config::same_text(current, name) {
                done_with(SegmentState::Active)
            } else if !follows_preview(output) {
                done_with(SegmentState::Inactive)
            } else {
                assert(replies@.skip(1) =~= replies@.drop_first());
                preview_phase_step(name, output, replies, 1)
            },
            _ => unexpected_step(),
        }
    }
}

fn source_state_step(params: &ActionParams, replies: &Vec<ObsReply>) -> (step: Step)
    ensures
        step@ == source_state(params@, replies@),
{
    if replies.len() == 0 {
        return Step::Send(ObsRequest::GetSceneItemList { scene: params.scene_name.clone() });
    }
    match &replies[0] {
        ObsReply::Failed(m) => fail_with(m.clone()),
        ObsReply::SceneItems(items) => match find_scene_item(items, &params.source_name) {
            None => done_with(SegmentState::Inactive),
            Some(item) => {
                assert(replies@.skip(1) =~= replies@.drop_first());
                read_flag_step(
                    ObsRequest::GetSceneItemEnabled { scene: params.scene_name.clone(), item },
                    replies,
                    1,
                )
            },
        },
        _ => unexpected_step(),
    }
}

fn media_state_step(params: &ActionParams, replies: &Vec<ObsReply>) -> (step: Step)
    ensures
        step@ == media_state(params@, replies@),
{
    if replies.len() == 0 {
        Step::Send(ObsRequest::GetMediaInputStatus { input: params.input_name.clone() })
    } else {
        match &replies[0] {
            ObsReply::Failed(m) => fail_with(m.clone()),
            ObsReply::MediaState(state) => done_with(media_segment(state.as_str())),
            _ => unexpected_step(),
        }
    }
}

fn watched_output_of(kind: ActionKind) -> (output: Option<OutputKind>)
    ensures
        output == watched_output(kind),
{
    match kind {
        ActionKind::Stream => Some(OutputKind::Stream),
        ActionKind::Record | ActionKind::RecordPause => Some(OutputKind::Record),
        ActionKind::Replay => Some(OutputKind::ReplayBuffer),
        ActionKind::VirtualCam => Some(OutputKind::VirtualCam),
        _ => None,
    }
}

fn output_segment_of(kind: ActionKind, active: bool, paused: bool, reconnecting: bool) -> (state: SegmentState)
    ensures
        state == output_segment(kind, active, paused, reconnecting),
{
    match kind {
        ActionKind::Stream => if reconnecting {
            SegmentState::Intermediate
        } else {
            flag(active)
        },
        ActionKind::Record => output_flag(active, paused),
        ActionKind::RecordPause => if !active {
            SegmentState::Inactive
        } else if paused {
            SegmentState::Active
        } else {
            SegmentState::Intermediate
        },
        _ => flag(active),
    }
}

/// The next step of reading what a key should show on one instance, given
/// OBS's replies so far. The caller runs each requested call and asks again.
pub fn refresh_step(
    kind: ActionKind,
    params: &ActionParams,
    output: SceneOutput,
    replies: &Vec<ObsReply>,
) -> (step: Step)
    ensures
        step@ == refresh_plan(kind, params@, output, replies@),
{
    match watched_output_of(kind) {
        Some(o) => if replies.len() == 0 {
            Step::Send(ObsRequest::GetOutputStatus { output: o })
        } else {
            match &replies[0] {
                ObsReply::Failed(m) => fail_with(m.clone()),
                ObsReply::Output { active, paused, reconnecting } => done_with(
                    output_segment_of(kind, *active, *paused, *reconnecting),
                ),
                _ => unexpected_step(),
            }
        },
        None => {
            assert(replies@.skip(0) =~= replies@);
            match kind {
                ActionKind::StudioMode => read_flag_step(ObsRequest::GetStudioModeEnabled, replies, 0),
                ActionKind::Scene => scene_state_step(params, output, replies),
                ActionKind::Source => source_state_step(params, replies),
                ActionKind::Mute => read_flag_step(
                    ObsRequest::GetInputMute { input: params.input_name.clone() },
                    replies,
                    0,
                ),
                ActionKind::Filter => read_flag_step(
                    ObsRequest::GetSourceFilter {
                        source: params.source_name.clone(),
                        filter: params.filter_name.clone(),
                    },
                    replies,
                    0,
                ),
                ActionKind::Collection => read_current_step(
                    ObsRequest::GetSceneCollectionList,
                    &params.collection_name,
                    replies,
                ),
                ActionKind::Profile => read_current_step(ObsRequest::GetProfileList, &params.profile_name, replies),
                ActionKind::Media => media_state_step(params, replies),
                _ => done_with(SegmentState::Neutral),
            }
        },
    }
}

/// The request that lists a catalog resource, if the resource is known.
pub open spec fn catalog_plan(resource: Seq<char>, params: ActionParamsView) -> Option<ObsRequestView> {
    if resource == "scenes"@ {
        Some(ObsRequestView::GetSceneList)
    } else if resource == "inputs"@ {
        Some(ObsRequestView::GetInputList)
    } else if resource == "collections"@ {
        Some(ObsRequestView::GetSceneCollectionList)
    } else if resource == "profiles"@ {
        Some(ObsRequestView::GetProfileList)
    } else if resource == "hotkeys"@ {
        Some(ObsRequestView::GetHotkeyList)
    } else if resource == "filters"@ {
        Some(ObsRequestView::GetSourceFilterList { source: params.source_name })
    } else {
        None
    }
}

pub open spec fn request_option_view(r: Option<ObsRequest>) -> Option<ObsRequestView> {
    match r {
        Some(q) => Some(q@),
        None => None,
    }
}

/// The request that lists the names of a catalog resource; an unknown
/// resource lists nothing and needs no request.
pub fn catalog_request(resource: &str, params: &ActionParams) -> (request: Option<ObsRequest>)
    ensures
        request_option_view(request) == catalog_plan(resource@, params@),
{
    if crate::text::same_str(resource, "scenes") {
        Some(ObsRequest::GetSceneList)
    } else if crate::text::same_str(resource, "inputs") {
        Some(ObsRequest::GetInputList)
    } else if crate::text::same_str(resource, "collections") {
        Some(ObsRequest::GetSceneCollectionList)
    } else if crate::text::same_str(resource, "profiles") {
        Some(ObsRequest::GetProfileList)
    } else if crate::text::same_str(resource, "hotkeys") {
        Some(ObsRequest::GetHotkeyList)
    } else if crate::text::same_str(resource, "filters") {
        Some(ObsRequest::GetSourceFilterList { source: params.source_name.clone() })
    } else {
        None
    }
}

/// The names a catalog reply lists.
pub open spec fn spec_catalog_names(reply: ObsReply) -> Result<Seq<Seq<char>>, Seq<char>> {
    match reply {
        ObsReply::Names(names) => Ok(names.deep_view()),
        ObsReply::Listing { names, .. } => Ok(names.deep_view()),
        ObsReply::Failed(m) => Err(m@),
        _ => Err(unexpected()),
    }
}

pub open spec fn names_result_view(r: Result<Vec<String>, String>) -> Result<Seq<Seq<char>>, Seq<char>> {
    match r {
        Ok(names) => Ok(names.deep_view()),
        Err(e) => Err(e@),
    }
}

/// The names listed by a catalog reply.
pub fn catalog_names(reply: &ObsReply) -> (names: Result<Vec<String>, String>)
    ensures
        names_result_view(names) == spec_catalog_names(*reply),
{
    match reply {
        ObsReply::Names(names) => {
            let copy = crate::config::copy_texts(names);
            assert(copy.deep_view() =~= names.deep_view());
            Ok(copy)
        },
        ObsReply::Listing { names, .. } => {
            let copy = crate::config::copy_texts(names);
            assert(copy.deep_view() =~= names.deep_view());
            Ok(copy)
        },
        ObsReply::Failed(m) => Err(m.clone()),
        _ => Err(text_of("unexpected reply from OBS")),
    }
}

/// Which statistic a stats key shows.
#[derive(Clone, Copy, Debug, PartialEq, Eq, Structural)]
pub enum StatKind {
    Cpu,
    Memory,
    Dropped,
    Fps,
}

pub open spec fn spec_stat_kind(stat: Seq<char>) -> StatKind {
    if stat == "cpu"@ {
        StatKind::Cpu
    } else if stat == "memory"@ {
        StatKind::Memory
    } else if stat == "dropped"@ {
        StatKind::Dropped
    } else {
        StatKind::Fps
    }
}

/// The statistic a setting names; anything unknown shows frames per second.
pub fn stat_kind(stat: &String) -> (kind: StatKind)
    ensures
        kind == spec_stat_kind(stat@),
{
    let s = stat.as_str();
    if crate::text::same_str(s, "cpu") {
        StatKind::Cpu
    } else if crate::text::same_str(s, "memory") {
        StatKind::Memory
    } else if crate::text::same_str(s, "dropped") {
        StatKind::Dropped
    } else {
        StatKind::Fps
    }
}

/// The OBS events that can change what a key shows.
#[derive(Clone, Copy, Debug, PartialEq, Eq, Structural)]
pub enum ObsEvent {
    StreamStateChanged,
    RecordStateChanged,
    ReplayBufferStateChanged,
    VirtualcamStateChanged,
    StudioModeStateChanged,
    CurrentProgramSceneChanged,
    CurrentPreviewSceneChanged,
    SceneNameChanged,
    SceneItemEnableStateChanged,
    SceneItemRemoved,
    InputMuteStateChanged,
    InputRemoved,
    SourceFilterEnableStateChanged,
    SourceFilterRemoved,
    CurrentSceneCollectionChanged,
    CurrentProfileChanged,
    MediaInputPlaybackStarted,
    MediaInputPlaybackEnded,
    MediaInputActionTriggered,
    InputVolumeChanged,
    Other,
}

pub open spec fn spec_event_affects(kind: ActionKind, output: SceneOutput, event: ObsEvent) -> bool {
    match event {
        ObsEvent::StreamStateChanged => kind == ActionKind::Stream,
        ObsEvent::RecordStateChanged => kind == ActionKind::Record || kind == ActionKind::RecordPause,
        ObsEvent::ReplayBufferStateChanged => kind == ActionKind::Replay,
        ObsEvent::VirtualcamStateChanged => kind == ActionKind::VirtualCam,
        ObsEvent::StudioModeStateChanged => kind == ActionKind::StudioMode || (kind
            == ActionKind::Scene && spec_follows_preview(output)),
        ObsEvent::CurrentProgramSceneChanged => kind == ActionKind::Scene && output
            != SceneOutput::Preview,
        ObsEvent::CurrentPreviewSceneChanged => kind == ActionKind::Scene && spec_follows_preview(output),
        ObsEvent::SceneNameChanged => kind == ActionKind::Scene,
        ObsEvent::SceneItemEnableStateChanged | ObsEvent::SceneItemRemoved => kind
            == ActionKind::Source,
        ObsEvent::InputMuteStateChanged | ObsEvent::InputRemoved => kind == ActionKind::Mute,
        ObsEvent::SourceFilterEnableStateChanged | ObsEvent::SourceFilterRemoved => kind
            == ActionKind::Filter,
        ObsEvent::CurrentSceneCollectionChanged | ObsEvent::CurrentProfileChanged => match kind {
            ActionKind::Scene
            | ActionKind::Source
            | ActionKind::Mute
            | ActionKind::Filter
            | ActionKind::Media
            | ActionKind::Collection
            | ActionKind::Profile => true,
            _ => false,
        },
        ObsEvent::MediaInputPlaybackStarted
        | ObsEvent::MediaInputPlaybackEnded
        | ObsEvent::MediaInputActionTriggered => kind == ActionKind::Media,
        ObsEvent::InputVolumeChanged => kind == ActionKind::Volume,
        ObsEvent::Other => false,
    }
}

/// Whether an OBS event can change what this key should display.
///
/// The caller refetches state so event fields never have to be read.
pub fn event_affects(kind: ActionKind, output: SceneOutput, event: ObsEvent) -> (affects: bool)
    ensures
        affects == spec_event_affects(kind, output, event),
{
    match event {
        ObsEvent::StreamStateChanged => kind == ActionKind::Stream,
        ObsEvent::RecordStateChanged => matches!(kind, ActionKind::Record | ActionKind::RecordPause),
        ObsEvent::ReplayBufferStateChanged => kind == ActionKind::Replay,
        ObsEvent::VirtualcamStateChanged => kind == ActionKind::VirtualCam,
        ObsEvent::StudioModeStateChanged => kind == ActionKind::StudioMode || (kind
            == ActionKind::Scene && follows_preview(output)),
        ObsEvent::CurrentProgramSceneChanged => kind == ActionKind::Scene && matches!(
            output,
            SceneOutput::Program | SceneOutput::Both
        ),
        ObsEvent::CurrentPreviewSceneChanged => kind == ActionKind::Scene && follows_preview(output),
        ObsEvent::SceneNameChanged => kind == ActionKind::Scene,
        ObsEvent::SceneItemEnableStateChanged | ObsEvent::SceneItemRemoved => kind
            == ActionKind::Source,
        ObsEvent::InputMuteStateChanged | ObsEvent::InputRemoved => kind == ActionKind::Mute,
        ObsEvent::SourceFilterEnableStateChanged | ObsEvent::SourceFilterRemoved => kind
            == ActionKind::Filter,
        ObsEvent::CurrentSceneCollectionChanged | ObsEvent::CurrentProfileChanged => matches!(
            kind,
            ActionKind::Scene
                | ActionKind::Source
                | ActionKind::Mute
                | ActionKind::Filter
                | ActionKind::Media
                | ActionKind::Collection
                | ActionKind::Profile
        ),
        ObsEvent::MediaInputPlaybackStarted
        | ObsEvent::MediaInputPlaybackEnded
        | ObsEvent::MediaInputActionTriggered => kind == ActionKind::Media,
        ObsEvent::InputVolumeChanged => kind == ActionKind::Volume,
        ObsEvent::Other => false,
    }
}

/// A long press on an output key stops the output (it never toggles), and
/// the key then shows the output as off.
pub proof fn long_press_stops_outputs(
    kind: ActionKind,
    params: ActionParamsView,
    output: SceneOutput,
    reply: ObsReply,
)
    requires
        output_of(kind) is Some,
    ensures
        press_plan(kind, params, output, PressKind::Long, Seq::empty()) == send(
            ObsRequestView::StopOutput { output: output_of(kind)->0 },
        ),
        !(reply is Failed) ==> press_plan(kind, params, output, PressKind::Long, seq![reply]) == done(
            SegmentState::Inactive,
        ),
{
}

/// A long press on a program (or program and preview) scene key sets the
/// scene to preview.
pub proof fn long_press_sets_preview_scene(params: ActionParamsView, output: SceneOutput)
    requires
        params.scene_name.len() > 0,
        output != SceneOutput::Preview,
    ensures
        press_plan(ActionKind::Scene, params, output, PressKind::Long, Seq::empty()) == send(
            ObsRequestView::SetCurrentPreviewScene { scene: params.scene_name },
        ),
{
}

/// A long press on a source key hides the item rather than toggling it.
pub proof fn long_press_hides_source(
    params: ActionParamsView,
    output: SceneOutput,
    items: Vec<SceneItem>,
    item: i64,
)
    requires
        find_item(items@, params.source_name) == Some(item),
    ensures
        press_plan(
            ActionKind::Source,
            params,
            output,
            PressKind::Long,
            seq![ObsReply::SceneItems(items)],
        ) == send(
            ObsRequestView::SetSceneItemEnabled { scene: params.scene_name, item, enabled: false },
        ),
{
}

/// A long press on a mute key holds mute on, and the key then shows it muted.
pub proof fn long_press_holds_mute_on(params: ActionParamsView, output: SceneOutput, reply: ObsReply)
    ensures
        press_plan(ActionKind::Mute, params, output, PressKind::Long, Seq::empty()) == send(
            ObsRequestView::SetInputMute { input: params.input_name, muted: true },
        ),
        !(reply is Failed) ==> press_plan(
            ActionKind::Mute,
            params,
            output,
            PressKind::Long,
            seq![reply],
        ) == done(SegmentState::Active),
{
}

/// Every key press finishes after at most three requests to an instance.
pub proof fn press_finishes_within_three_requests(
    kind: ActionKind,
    params: ActionParamsView,
    output: SceneOutput,
    press: PressKind,
    replies: Seq<ObsReply>,
)
    requires
        replies.len() >= 3,
    ensures
        press_plan(kind, params, output, press, replies) is Finish,
{
    if kind == ActionKind::Media {
        if named_media_action(params.media_action) is None && replies[0] is MediaState {
            assert(replies.drop_first().len() >= 2);
        }
    }
}

/// Whether a request only reads OBS state.
pub open spec fn is_read(request: ObsRequestView) -> bool {
    match request {
        ObsRequestView::GetOutputStatus { .. }
        | ObsRequestView::GetStudioModeEnabled
        | ObsRequestView::GetCurrentProgramScene
        | ObsRequestView::GetCurrentPreviewScene
        | ObsRequestView::GetSceneItemList { .. }
        | ObsRequestView::GetSceneItemEnabled { .. }
        | ObsRequestView::GetInputMute { .. }
        | ObsRequestView::GetSourceFilter { .. }
        | ObsRequestView::GetSceneCollectionList
        | ObsRequestView::GetProfileList
        | ObsRequestView::GetMediaInputStatus { .. }
        | ObsRequestView::GetSceneList
        | ObsRequestView::GetInputList
        | ObsRequestView::GetHotkeyList
        | ObsRequestView::GetSourceFilterList { .. } => true,
        _ => false,
    }
}

/// Refreshing what a key shows only reads OBS state, and finishes after at
/// most two requests.
pub proof fn refresh_only_reads(
    kind: ActionKind,
    params: ActionParamsView,
    output: SceneOutput,
    replies: Seq<ObsReply>,
)
    ensures
        refresh_plan(kind, params, output, replies) matches StepView::Send(r) ==> is_read(r),
        replies.len() >= 2 ==> refresh_plan(kind, params, output, replies) is Finish,
{
}

/// Listing a catalog only reads OBS state.
pub proof fn catalog_only_reads(resource: Seq<char>, params: ActionParamsView)
    ensures
        catalog_plan(resource, params) matches Some(r) ==> is_read(r),
{
}

/// Keys that fire one-shot commands or show statistics are never refreshed by OBS events.
pub proof fn events_skip_stateless_keys(kind: ActionKind, output: SceneOutput, event: ObsEvent)
    requires
        crate::kind::is_one_shot(kind) || kind == ActionKind::Stats,
    ensures
        !spec_event_affects(kind, output, event),
{
}

/// A single press on a filter key flips the filter it read: after reading
/// `enabled` it sets the opposite and then shows the new state; a long press
/// always disables the filter.
pub proof fn filter_press_toggles(params: ActionParamsView, output: SceneOutput, enabled: bool)
    ensures
        press_plan(ActionKind::Filter, params, output, PressKind::Single, Seq::empty()) == send(
            ObsRequestView::GetSourceFilter { source: params.source_name, filter: params.filter_name },
        ),
        press_plan(ActionKind::Filter, params, output, PressKind::Single, seq![ObsReply::Flag(enabled)]) == send(
            ObsRequestView::SetSourceFilterEnabled { source: params.source_name, filter: params.filter_name, enabled: !enabled },
        ),
        press_plan(ActionKind::Filter, params, output, PressKind::Single, seq![ObsReply::Flag(enabled), ObsReply::Done])
            == done(if enabled { SegmentState::Inactive } else { SegmentState::Active }),
        press_plan(ActionKind::Filter, params, output, PressKind::Long, seq![ObsReply::Flag(enabled)]) == send(
            ObsRequestView::SetSourceFilterEnabled { source: params.source_name, filter: params.filter_name, enabled: false },
        ),
{
}

/// A record-pause key lights while the recording is paused, shows amber while
/// it records unpaused, and is dark when nothing records; a refresh shows the
/// same state that a press reads back after toggling the pause.
pub proof fn record_pause_shows_pause(
    params: ActionParamsView,
    output: SceneOutput,
    active: bool,
    paused: bool,
    reconnecting: bool,
)
    ensures
        refresh_plan(ActionKind::RecordPause, params, output, seq![ObsReply::Output { active, paused, reconnecting }])
            == done(if !active { SegmentState::Inactive } else if paused { SegmentState::Active } else { SegmentState::Intermediate }),
        active ==> refresh_plan(ActionKind::RecordPause, params, output, seq![ObsReply::Output { active, paused, reconnecting }])
            == press_plan(ActionKind::RecordPause, params, output, PressKind::Single, seq![ObsReply::Done, ObsReply::Output { active, paused, reconnecting }]),
{
}

/// The event OBS sends when an output starts, stops or pauses.
pub open spec fn state_event(output: OutputKind) -> ObsEvent {
    match output {
        OutputKind::Stream => ObsEvent::StreamStateChanged,
        OutputKind::Record => ObsEvent::RecordStateChanged,
        OutputKind::ReplayBuffer => ObsEvent::ReplayBufferStateChanged,
        OutputKind::VirtualCam => ObsEvent::VirtualcamStateChanged,
    }
}

/// Every key that shows the state of an output is refreshed when that
/// output's state changes.
pub proof fn output_events_reach_watching_keys(kind: ActionKind, params: ActionParamsView, output: SceneOutput, watched: OutputKind)
    requires
        watched_output(kind) == Some(watched),
    ensures
        spec_event_affects(kind, output, state_event(watched)),
        refresh_plan(kind, params, output, Seq::empty()) == send(
            ObsRequestView::GetOutputStatus { output: watched },
        ),
{
}

/// A raw batch press sends the batch read from the key's setting with the
/// key's halt-on-failure choice, and it sends one exactly when the setting
/// reads as a batch.
pub proof fn raw_batch_keeps_settings(params: ActionParamsView, output: SceneOutput, press: PressKind)
    ensures
        spec_batch_calls(params.batch_requests) is Ok <==> press_plan(ActionKind::RawBatch, params, output, press, Seq::empty()) is Send,
        press_plan(ActionKind::RawBatch, params, output, press, Seq::empty()) matches StepView::Send(r) ==> (r
            matches ObsRequestView::RawBatch { calls, halt_on_failure } && halt_on_failure == params.halt_on_failure
            && spec_batch_calls(params.batch_requests) == Ok::<Seq<(Seq<char>, Seq<char>)>, Seq<char>>(calls)),
{
}

} // verus!
