use multiobs::contracts::{ActionParams, SceneOutput};
use multiobs::kind::{ActionKind, PressKind};
use multiobs::ops::{
    catalog_names, catalog_request, event_affects, find_scene_item, flag, follows_preview, media_action_named,
    media_segment, output_flag, press_step, raw_text, refresh_step, sends_preview, stat_kind, MediaAction,
    ObsEvent, ObsReply, ObsRequest, OutputKind, SceneItem, StatKind, Step,
};
use multiobs::render::SegmentState;

fn params() -> ActionParams {
    ActionParams::default()
}

fn scene_params(name: &str) -> ActionParams {
    ActionParams { scene_name: name.into(), ..ActionParams::default() }
}

fn finished(step: Step) -> Result<SegmentState, String> {
    match step {
        Step::Finish(result) => result,
        Step::Send(_) => panic!("expected the press to finish"),
    }
}

#[test]
fn fans_a_toggle_out_to_every_target() {
    for _target in ["a", "b"] {
        let first = press_step(ActionKind::Stream, &params(), SceneOutput::Program, PressKind::Single, &vec![]);
        assert!(matches!(first, Step::Send(ObsRequest::ToggleOutput { output: OutputKind::Stream })));
        let replies = vec![ObsReply::Output { active: true, paused: false, reconnecting: false }];
        let last = press_step(ActionKind::Stream, &params(), SceneOutput::Program, PressKind::Single, &replies);
        assert_eq!(finished(last), Ok(SegmentState::Active));
    }
}

#[test]
fn long_press_stops_outputs() {
    for (kind, output) in [
        (ActionKind::Stream, OutputKind::Stream),
        (ActionKind::Record, OutputKind::Record),
        (ActionKind::Replay, OutputKind::ReplayBuffer),
        (ActionKind::VirtualCam, OutputKind::VirtualCam),
    ] {
        let first = press_step(kind, &params(), SceneOutput::Program, PressKind::Long, &vec![]);
        match first {
            Step::Send(ObsRequest::StopOutput { output: o }) => assert_eq!(o, output),
            _ => panic!("a long press stops the output"),
        }
        let last = press_step(kind, &params(), SceneOutput::Program, PressKind::Long, &vec![ObsReply::Done]);
        assert_eq!(finished(last), Ok(SegmentState::Inactive));
    }
}

#[test]
fn failures_are_reported() {
    let replies = vec![ObsReply::Failed("not streaming".into())];
    let last = press_step(ActionKind::Stream, &params(), SceneOutput::Program, PressKind::Long, &replies);
    assert_eq!(finished(last), Err("not streaming".to_string()));
    let odd = press_step(ActionKind::Stream, &params(), SceneOutput::Program, PressKind::Single, &vec![ObsReply::Done]);
    assert_eq!(finished(odd), Err("unexpected reply from OBS".to_string()));
}

#[test]
fn record_pause_reads_back() {
    let p = params();
    let first = press_step(ActionKind::RecordPause, &p, SceneOutput::Program, PressKind::Single, &vec![]);
    assert!(matches!(first, Step::Send(ObsRequest::ToggleRecordPause)));
    let second = press_step(ActionKind::RecordPause, &p, SceneOutput::Program, PressKind::Single, &vec![ObsReply::Done]);
    assert!(matches!(second, Step::Send(ObsRequest::GetOutputStatus { output: OutputKind::Record })));
    let paused = vec![ObsReply::Done, ObsReply::Output { active: true, paused: true, reconnecting: false }];
    assert_eq!(finished(press_step(ActionKind::RecordPause, &p, SceneOutput::Program, PressKind::Single, &paused)), Ok(SegmentState::Active));
    let resume = press_step(ActionKind::RecordPause, &p, SceneOutput::Program, PressKind::Long, &vec![]);
    assert!(matches!(resume, Step::Send(ObsRequest::ResumeRecord)));
}

#[test]
fn studio_mode_turns_off_on_long_press() {
    let p = params();
    let read = press_step(ActionKind::StudioMode, &p, SceneOutput::Program, PressKind::Long, &vec![]);
    assert!(matches!(read, Step::Send(ObsRequest::GetStudioModeEnabled)));
    let set = press_step(ActionKind::StudioMode, &p, SceneOutput::Program, PressKind::Long, &vec![ObsReply::Flag(false)]);
    assert!(matches!(set, Step::Send(ObsRequest::SetStudioModeEnabled { enabled: false })));
    let toggle = press_step(ActionKind::StudioMode, &p, SceneOutput::Program, PressKind::Single, &vec![ObsReply::Flag(false)]);
    assert!(matches!(toggle, Step::Send(ObsRequest::SetStudioModeEnabled { enabled: true })));
    let done = press_step(ActionKind::StudioMode, &p, SceneOutput::Program, PressKind::Single, &vec![ObsReply::Flag(false), ObsReply::Done]);
    assert_eq!(finished(done), Ok(SegmentState::Active));
}

#[test]
fn scene_keys_set_program_or_preview() {
    let p = scene_params("Live");
    match press_step(ActionKind::Scene, &p, SceneOutput::Program, PressKind::Single, &vec![]) {
        Step::Send(ObsRequest::SetCurrentProgramScene { scene }) => assert_eq!(scene, "Live"),
        _ => panic!("sets the program scene"),
    }
    match press_step(ActionKind::Scene, &p, SceneOutput::Program, PressKind::Long, &vec![]) {
        Step::Send(ObsRequest::SetCurrentPreviewScene { scene }) => assert_eq!(scene, "Live"),
        _ => panic!("a long press sets the preview scene"),
    }
    let preview = press_step(ActionKind::Scene, &p, SceneOutput::Program, PressKind::Long, &vec![ObsReply::Done]);
    assert_eq!(finished(preview), Ok(SegmentState::Intermediate));
    let refused = press_step(ActionKind::Scene, &p, SceneOutput::Program, PressKind::Long, &vec![ObsReply::Failed("no studio mode".into())]);
    assert_eq!(finished(refused), Ok(SegmentState::Inactive));
    let nothing = press_step(ActionKind::Scene, &params(), SceneOutput::Program, PressKind::Single, &vec![]);
    assert_eq!(finished(nothing), Ok(SegmentState::Inactive));
}

#[test]
fn scene_state_checks_program_then_preview() {
    let p = scene_params("Live");
    let first = refresh_step(ActionKind::Scene, &p, SceneOutput::Both, &vec![]);
    assert!(matches!(first, Step::Send(ObsRequest::GetCurrentProgramScene)));
    let on_air = refresh_step(ActionKind::Scene, &p, SceneOutput::Both, &vec![ObsReply::Name("Live".into())]);
    assert_eq!(finished(on_air), Ok(SegmentState::Active));
    let other = refresh_step(ActionKind::Scene, &p, SceneOutput::Program, &vec![ObsReply::Name("Intro".into())]);
    assert_eq!(finished(other), Ok(SegmentState::Inactive));
    let preview = refresh_step(ActionKind::Scene, &p, SceneOutput::Preview, &vec![]);
    assert!(matches!(preview, Step::Send(ObsRequest::GetCurrentPreviewScene)));
    let queued = refresh_step(ActionKind::Scene, &p, SceneOutput::Preview, &vec![ObsReply::Name("Live".into())]);
    assert_eq!(finished(queued), Ok(SegmentState::Active));
}

#[test]
fn output_state_is_read_from_status() {
    let first = refresh_step(ActionKind::Record, &params(), SceneOutput::Program, &vec![]);
    assert!(matches!(first, Step::Send(ObsRequest::GetOutputStatus { output: OutputKind::Record })));
    let paused = refresh_step(
        ActionKind::Record,
        &params(),
        SceneOutput::Program,
        &vec![ObsReply::Output { active: true, paused: true, reconnecting: false }],
    );
    assert_eq!(finished(paused), Ok(SegmentState::Intermediate));
    let stats = refresh_step(ActionKind::Stats, &params(), SceneOutput::Program, &vec![]);
    assert_eq!(finished(stats), Ok(SegmentState::Neutral));
}

#[test]
fn flags_and_media_states() {
    assert_eq!(flag(true), SegmentState::Active);
    assert_eq!(flag(false), SegmentState::Inactive);
    assert_eq!(output_flag(true, true), SegmentState::Intermediate);
    assert_eq!(output_flag(false, false), SegmentState::Inactive);
    assert_eq!(media_segment("OBS_MEDIA_STATE_PLAYING"), SegmentState::Active);
    assert_eq!(media_segment("OBS_MEDIA_STATE_BUFFERING"), SegmentState::Intermediate);
    assert_eq!(media_segment("OBS_MEDIA_STATE_ENDED"), SegmentState::Inactive);
    assert!(follows_preview(SceneOutput::Both));
    assert!(!follows_preview(SceneOutput::Program));
    assert!(sends_preview(SceneOutput::Preview, PressKind::Single));
    assert!(!sends_preview(SceneOutput::Preview, PressKind::Long));
    assert!(sends_preview(SceneOutput::Both, PressKind::Long));
}

#[test]
fn names_and_items() {
    let items = vec![
        SceneItem { source_name: "Cam".into(), item_id: 3 },
        SceneItem { source_name: "Mic".into(), item_id: 5 },
        SceneItem { source_name: "Cam".into(), item_id: 9 },
    ];
    assert_eq!(find_scene_item(&items, &"Cam".to_string()), Some(3));
    assert_eq!(find_scene_item(&items, &"Logo".to_string()), None);
    assert_eq!(media_action_named(&"pause".to_string()), Some(MediaAction::Pause));
    assert_eq!(media_action_named(&"toggle".to_string()), None);
    assert!(matches!(stat_kind(&"cpu".to_string()), StatKind::Cpu));
    assert!(matches!(stat_kind(&"anything".to_string()), StatKind::Fps));
}

#[test]
fn catalog_lists() {
    assert!(matches!(catalog_request("scenes", &params()), Some(ObsRequest::GetSceneList)));
    assert!(catalog_request("unknown", &params()).is_none());
    let names = catalog_names(&ObsReply::Names(vec!["A".into(), "B".into()]));
    assert_eq!(names, Ok(vec!["A".to_string(), "B".to_string()]));
    assert_eq!(catalog_names(&ObsReply::Failed("down".into())), Err("down".to_string()));
}

#[test]
fn raw_failures_name_the_request() {
    let text = raw_text("GetX", &ObsReply::RawFailed { code: 204, comment: Some("bad".into()) });
    assert_eq!(text, "GetX failed (204): bad");
    let plain = raw_text("GetY", &ObsReply::RawFailed { code: -1, comment: None });
    assert_eq!(plain, "GetY failed (-1): request failed");
}

#[test]
fn events_reach_keys_that_show_them() {
    assert!(event_affects(ActionKind::Stream, SceneOutput::Program, ObsEvent::StreamStateChanged));
    assert!(!event_affects(ActionKind::Record, SceneOutput::Program, ObsEvent::StreamStateChanged));
    assert!(!event_affects(ActionKind::Screenshot, SceneOutput::Program, ObsEvent::StreamStateChanged));
    assert!(event_affects(ActionKind::Volume, SceneOutput::Program, ObsEvent::InputVolumeChanged));
}

#[test]
fn long_press_hides_the_source_and_holds_mute() {
    let p = ActionParams { scene_name: "Live".into(), source_name: "Cam".into(), input_name: "Mic".into(), ..ActionParams::default() };
    let items = vec![ObsReply::SceneItems(vec![SceneItem { source_name: "Cam".into(), item_id: 4 }])];
    match press_step(ActionKind::Source, &p, SceneOutput::Program, PressKind::Long, &items) {
        Step::Send(ObsRequest::SetSceneItemEnabled { scene, item, enabled }) => {
            assert_eq!(scene, "Live");
            assert_eq!(item, 4);
            assert!(!enabled);
        },
        _ => panic!("a long press hides the item"),
    }
    let missing = vec![ObsReply::SceneItems(vec![])];
    assert_eq!(
        finished(press_step(ActionKind::Source, &p, SceneOutput::Program, PressKind::Single, &missing)),
        Err("scene item `Cam` was not found in `Live`".to_string())
    );
    match press_step(ActionKind::Mute, &p, SceneOutput::Program, PressKind::Long, &vec![]) {
        Step::Send(ObsRequest::SetInputMute { input, muted }) => {
            assert_eq!(input, "Mic");
            assert!(muted);
        },
        _ => panic!("a long press mutes"),
    }
    let held = press_step(ActionKind::Mute, &p, SceneOutput::Program, PressKind::Long, &vec![ObsReply::Done]);
    assert_eq!(finished(held), Ok(SegmentState::Active));
}

#[test]
fn media_toggle_takes_three_requests() {
    let p = ActionParams { input_name: "Clip".into(), ..ActionParams::default() };
    let mut replies = Vec::new();
    assert!(matches!(press_step(ActionKind::Media, &p, SceneOutput::Program, PressKind::Single, &replies), Step::Send(ObsRequest::GetMediaInputStatus { .. })));
    replies.push(ObsReply::MediaState("OBS_MEDIA_STATE_PLAYING".into()));
    match press_step(ActionKind::Media, &p, SceneOutput::Program, PressKind::Single, &replies) {
        Step::Send(ObsRequest::TriggerMediaInputAction { input, action }) => {
            assert_eq!(input, "Clip");
            assert_eq!(action, MediaAction::Pause);
        },
        _ => panic!("a playing clip pauses"),
    }
    replies.push(ObsReply::Done);
    assert!(matches!(press_step(ActionKind::Media, &p, SceneOutput::Program, PressKind::Single, &replies), Step::Send(ObsRequest::GetMediaInputStatus { .. })));
    replies.push(ObsReply::MediaState("OBS_MEDIA_STATE_PAUSED".into()));
    assert_eq!(finished(press_step(ActionKind::Media, &p, SceneOutput::Program, PressKind::Single, &replies)), Ok(SegmentState::Intermediate));
}

#[test]
fn one_shot_checks_and_errors() {
    let blank_path = ActionParams { file_path: "  ".into(), ..ActionParams::default() };
    assert_eq!(
        finished(press_step(ActionKind::Screenshot, &blank_path, SceneOutput::Program, PressKind::Single, &vec![])),
        Err("screenshot file path is empty".to_string())
    );
    assert_eq!(
        finished(press_step(ActionKind::Hotkey, &params(), SceneOutput::Program, PressKind::Single, &vec![])),
        Err("hotkey name is empty".to_string())
    );
    assert_eq!(
        finished(press_step(ActionKind::Raw, &params(), SceneOutput::Program, PressKind::Single, &vec![])),
        Err("request type is empty".to_string())
    );
    let bad = ActionParams { request_type: "GetVersion".into(), request_data: "[1]".into(), ..ActionParams::default() };
    assert_eq!(
        finished(press_step(ActionKind::Raw, &bad, SceneOutput::Program, PressKind::Single, &vec![])),
        Err("request data must be a JSON object".to_string())
    );
    let raw = ActionParams { request_type: "GetVersion".into(), ..ActionParams::default() };
    match press_step(ActionKind::Raw, &raw, SceneOutput::Program, PressKind::Single, &vec![]) {
        Step::Send(ObsRequest::RawRequest { request_type, data }) => {
            assert_eq!(request_type, "GetVersion");
            assert_eq!(data, "{}");
        },
        _ => panic!("a raw request"),
    }
    let refused = vec![ObsReply::RawFailed { code: 204, comment: None }];
    assert_eq!(
        finished(press_step(ActionKind::Raw, &raw, SceneOutput::Program, PressKind::Single, &refused)),
        Err("GetVersion failed (204): request failed".to_string())
    );
    let done = press_step(ActionKind::SaveReplay, &params(), SceneOutput::Program, PressKind::Single, &vec![ObsReply::Done]);
    assert_eq!(finished(done), Ok(SegmentState::Neutral));
}
