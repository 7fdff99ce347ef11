use multiobs::config::{ObsInstanceConfig, TargetGroup as PoolGroup};
use multiobs::contracts::{ActionParams, ActionSettings, AdvancedSettings, GlobalSettings, TargetSelector};
use multiobs::kind::ActionKind;
use multiobs::ops::ObsEvent;
use multiobs::render::{Segment, SegmentState};
use multiobs::state::{
    add_listing, catalog_items, feedback, inspector_request, long_press_delay, neutral_segments, record_results,
    refresh_view, release_runs_single, targets_for, title_for, toggle_state, unique_join, visual_segments, Feedback,
    InspectorRequest, Runtime, TargetReading,
};
use multiobs::table::Table;

fn instance(id: &str, name: &str, color: &str) -> ObsInstanceConfig {
    ObsInstanceConfig {
        id: id.into(),
        name: name.into(),
        host: "127.0.0.1".into(),
        port: 4455,
        password: String::new(),
        color: color.into(),
        enabled: true,
    }
}

fn two_instances() -> Vec<ObsInstanceConfig> {
    vec![instance("a", "Stream PC", "#4c8dff"), instance("b", "Record", "#ef5b5b")]
}

fn scene_settings(name: &str) -> ActionSettings {
    let mut settings = ActionSettings::default();
    settings.shared = ActionParams { scene_name: name.into(), ..ActionParams::default() };
    settings
}

#[test]
fn titles_name_what_the_key_drives() {
    let params = ActionParams { scene_name: "Live".into(), input_name: " Mic ".into(), ..ActionParams::default() };
    assert_eq!(title_for(ActionKind::Scene, &params), Some("Live".to_string()));
    assert_eq!(title_for(ActionKind::Mute, &params), Some(" Mic ".to_string()));
    assert_eq!(title_for(ActionKind::Filter, &params), None);
    assert_eq!(title_for(ActionKind::Stream, &params), None);
}

#[test]
fn unique_join_keeps_first_occurrences() {
    let lines = vec!["Live".to_string(), "".to_string(), "Intro".to_string(), "Live".to_string()];
    assert_eq!(unique_join(&lines), "Live\nIntro");
    assert_eq!(unique_join(&vec![]), "");
}

#[test]
fn long_press_delays() {
    let off = AdvancedSettings { long_press: false, long_press_ms: 0 };
    let global = AdvancedSettings { long_press: true, long_press_ms: 0 };
    let own = AdvancedSettings { long_press: true, long_press_ms: 900 };
    assert_eq!(long_press_delay(600, &off), None);
    assert_eq!(long_press_delay(600, &global), Some(600));
    assert_eq!(long_press_delay(20, &global), Some(100));
    assert_eq!(long_press_delay(20, &own), Some(900));
    assert!(release_runs_single(false, false));
    assert!(release_runs_single(true, false));
    assert!(!release_runs_single(true, true));
}

#[test]
fn one_shot_keys_confirm_presses() {
    assert_eq!(feedback(ActionKind::Screenshot, false), Some(Feedback::Confirmed));
    assert_eq!(feedback(ActionKind::Screenshot, true), Some(Feedback::Alert));
    assert_eq!(feedback(ActionKind::Stream, true), None);
}

#[test]
fn keys_target_their_selection() {
    let mut settings = ActionSettings::default();
    settings.common.target = TargetSelector::Instances { ids: vec!["b".into()] };
    assert_eq!(targets_for(&settings, &two_instances(), &vec![]), vec!["b".to_string()]);
    let groups = vec![PoolGroup { id: "g".into(), name: "G".into(), members: vec!["b".into(), "a".into()] }];
    settings.common.target = TargetSelector::Group { id: "g".into() };
    assert_eq!(targets_for(&settings, &two_instances(), &groups), vec!["a".to_string(), "b".to_string()]);
    settings.common.target = TargetSelector::All;
    assert_eq!(targets_for(&settings, &two_instances(), &groups).len(), 2);
}

#[test]
fn per_instance_parameters() {
    let mut settings = scene_settings("Shared");
    settings.common.shared_params = false;
    settings.params = vec![("b".to_string(), ActionParams { scene_name: "Own".into(), ..ActionParams::default() })];
    assert_eq!(settings.params_for(&"b".to_string()).scene_name, "Own");
    assert_eq!(settings.params_for(&"a".to_string()).scene_name, "Shared");
    settings.common.shared_params = true;
    assert_eq!(settings.params_for(&"b".to_string()).scene_name, "Shared");
}

#[test]
fn runtime_tracks_keys_presses_and_redraws() {
    let mut runtime: Runtime<u32> = Runtime::new(GlobalSettings::default());
    runtime.upsert_key("k1".into(), ActionKind::Stream, ActionSettings::default(), false);
    assert!(runtime.key("k1").is_some());
    assert!(runtime.key("k2").is_none());
    runtime.begin_press("k1".into(), 5);
    assert_eq!(runtime.end_press("k1"), Some(5));
    assert_eq!(runtime.end_press("k1"), None);
    let failed = runtime.record_press(
        "k1",
        vec![("a".to_string(), Ok(SegmentState::Active)), ("b".to_string(), Err("down".to_string()))],
    );
    assert_eq!(failed, Some(true));
    let key = runtime.key("k1").unwrap();
    assert_eq!(key.segments.get("a"), Some(&SegmentState::Active));
    assert_eq!(key.segments.get("b"), Some(&SegmentState::Unavailable));
    assert_eq!(runtime.record_press("gone", vec![]), None);
    assert!(runtime.mark_unavailable("k1", &"a".to_string(), &vec!["a".to_string()]));
    assert!(!runtime.mark_unavailable("k1", &"c".to_string(), &vec!["a".to_string()]));
    assert_eq!(runtime.key("k1").unwrap().segments.get("a"), Some(&SegmentState::Unavailable));
    runtime.mark_dirty("k1".into());
    runtime.mark_dirty("k1".into());
    runtime.mark_dirty("k2".into());
    assert_eq!(runtime.take_dirty(), vec!["k1".to_string(), "k2".to_string()]);
    assert!(runtime.take_dirty().is_empty());
    runtime.begin_press("k1".into(), 9);
    assert_eq!(runtime.remove_key("k1"), Some(9));
    assert!(runtime.contexts().is_empty());
}

#[test]
fn re_registering_a_key_keeps_its_segments() {
    let mut runtime: Runtime<u32> = Runtime::new(GlobalSettings::default());
    runtime.upsert_key("k".into(), ActionKind::Scene, scene_settings("Live"), false);
    let mut segments = Table::new();
    segments.insert("a".to_string(), SegmentState::Active);
    assert!(runtime.show("k", segments, "Live".into()));
    runtime.upsert_key("k".into(), ActionKind::Scene, scene_settings("Intro"), true);
    let key = runtime.key("k").unwrap();
    assert_eq!(key.segments.get("a"), Some(&SegmentState::Active));
    assert_eq!(key.title, "");
    assert!(key.multi);
}

#[test]
fn painting_shows_each_target() {
    let mut runtime: Runtime<u32> = Runtime::new(GlobalSettings::default());
    let mut settings = ActionSettings::default();
    settings.common.target = TargetSelector::Instances { ids: vec!["a".into(), "b".into()] };
    runtime.upsert_key("k".into(), ActionKind::Stream, settings, false);
    let mut segments = Table::new();
    segments.insert("a".to_string(), SegmentState::Active);
    assert!(runtime.show("k", segments, "On air".into()));
    let plan = runtime.paint_plan("k", &two_instances(), &vec![]).unwrap();
    assert_eq!(plan.kind, ActionKind::Stream);
    assert_eq!(plan.segments.len(), 2);
    assert_eq!(plan.segments[0].label, "Stream PC");
    assert_eq!(plan.segments[0].color, "#4c8dff");
    assert_eq!(plan.segments[0].state, SegmentState::Active);
    assert_eq!(plan.segments[1].state, SegmentState::Unavailable);
    assert_eq!(plan.title, Some("On air".to_string()));
    assert_eq!(plan.toggle_state, Some(1));
    assert_eq!(plan.foreground, "#f4f7fb");
    assert!(runtime.paint_plan("none", &two_instances(), &vec![]).is_none());
}

#[test]
fn unknown_targets_draw_with_their_id() {
    let segments = visual_segments(&vec!["x".to_string()], &two_instances(), &Table::new());
    assert_eq!(segments[0].label, "x");
    assert_eq!(segments[0].color, "#4c8dff");
    assert_eq!(segments[0].state, SegmentState::Unavailable);
    let on = vec![Segment { label: "a".into(), color: "#fff".into(), state: SegmentState::Active }];
    assert_eq!(toggle_state(ActionKind::Stream, &on), Some(0));
    assert_eq!(toggle_state(ActionKind::Stream, &vec![]), Some(1));
    assert_eq!(toggle_state(ActionKind::Screenshot, &on), None);
}

#[test]
fn neutral_and_recorded_segments() {
    let neutral = neutral_segments(&vec!["a".to_string(), "b".to_string()]);
    assert_eq!(neutral.get("a"), Some(&SegmentState::Neutral));
    assert_eq!(neutral.len(), 2);
    let mut segments = Table::new();
    let failed = record_results(&mut segments, vec![("a".to_string(), Ok(SegmentState::Inactive))]);
    assert!(!failed);
    assert_eq!(segments.get("a"), Some(&SegmentState::Inactive));
}

#[test]
fn refresh_shows_each_reading() {
    let targets = vec!["a".to_string(), "b".to_string(), "c".to_string()];
    let readings = vec![
        TargetReading::Read { state: Ok(SegmentState::Active), stat_line: None },
        TargetReading::Offline,
        TargetReading::Read { state: Err("down".into()), stat_line: None },
    ];
    let (segments, title) = refresh_view(ActionKind::Scene, &scene_settings("Live"), &targets, readings);
    assert_eq!(segments.get("a"), Some(&SegmentState::Active));
    assert_eq!(segments.get("b"), Some(&SegmentState::Unavailable));
    assert_eq!(segments.get("c"), Some(&SegmentState::Unavailable));
    assert_eq!(title, "Live");
    let stats = vec![
        TargetReading::Read { state: Ok(SegmentState::Neutral), stat_line: Some("60.0 fps".into()) },
        TargetReading::Read { state: Ok(SegmentState::Neutral), stat_line: Some("30.0 fps".into()) },
    ];
    let (_, lines) = refresh_view(ActionKind::Stats, &ActionSettings::default(), &vec!["a".to_string(), "b".to_string()], stats);
    assert_eq!(lines, "60.0 fps\n30.0 fps");
}

#[test]
fn inspector_messages() {
    assert!(matches!(inspector_request("{\"type\": \"ready\"}"), InspectorRequest::Ready));
    match inspector_request("{\"type\": \"reconnect\", \"id\": \"a\"}") {
        InspectorRequest::Reconnect(Some(id)) => assert_eq!(id, "a"),
        _ => panic!("a reconnect"),
    }
    assert!(matches!(inspector_request("{\"type\": \"reconnect\"}"), InspectorRequest::Reconnect(None)));
    match inspector_request("{\"type\": \"query\", \"resource\": \"scenes\"}") {
        InspectorRequest::Query(resource) => assert_eq!(resource, "scenes"),
        _ => panic!("a query"),
    }
    match inspector_request("{\"type\": \"query\"}") {
        InspectorRequest::Query(resource) => assert_eq!(resource, ""),
        _ => panic!("a query"),
    }
    assert!(matches!(inspector_request("{\"type\": \"other\"}"), InspectorRequest::Ignore));
    assert!(matches!(inspector_request("nonsense"), InspectorRequest::Ignore));
}

#[test]
fn names_missing_on_some_instances_are_flagged() {
    let mut seen: Table<Vec<String>> = Table::new();
    add_listing(&mut seen, &"a".to_string(), &vec!["Live".to_string(), "Intro".to_string()]);
    add_listing(&mut seen, &"b".to_string(), &vec!["Live".to_string()]);
    let items = catalog_items(&vec!["a".to_string(), "b".to_string()], &seen);
    assert_eq!(items.len(), 2);
    assert_eq!(items[0].name, "Live");
    assert_eq!(items[0].present_on, vec!["a".to_string(), "b".to_string()]);
    assert!(items[0].missing_on.is_empty());
    assert_eq!(items[1].name, "Intro");
    assert_eq!(items[1].present_on, vec!["a".to_string()]);
    assert_eq!(items[1].missing_on, vec!["b".to_string()]);
}

#[test]
fn events_reach_the_keys_that_target_the_instance() {
    let mut runtime: Runtime<u32> = Runtime::new(GlobalSettings::default());
    let mut only_b = ActionSettings::default();
    only_b.common.target = TargetSelector::Instances { ids: vec!["b".into()] };
    runtime.upsert_key("stream-all".into(), ActionKind::Stream, ActionSettings::default(), false);
    runtime.upsert_key("stream-b".into(), ActionKind::Stream, only_b, false);
    runtime.upsert_key("record".into(), ActionKind::Record, ActionSettings::default(), false);
    let hit = runtime.affected_by(ObsEvent::StreamStateChanged, &"a".to_string(), &two_instances(), &vec![]);
    assert_eq!(hit, vec!["stream-all".to_string()]);
}

#[test]
fn own_parameters_are_kept_once_per_instance() {
    let mut settings = ActionSettings::default();
    settings.common.shared_params = false;
    settings.set_params("a".to_string(), ActionParams { scene_name: "One".into(), ..ActionParams::default() });
    settings.set_params("b".to_string(), ActionParams { scene_name: "Two".into(), ..ActionParams::default() });
    settings.set_params("a".to_string(), ActionParams { scene_name: "Three".into(), ..ActionParams::default() });
    assert_eq!(settings.params.len(), 2);
    assert_eq!(settings.params_for(&"a".to_string()).scene_name, "Three");
    assert_eq!(settings.params_for(&"b".to_string()).scene_name, "Two");
}

#[test]
fn status_events_refresh_or_mark_unavailable() {
    let mut runtime: Runtime<u32> = Runtime::new(GlobalSettings::default());
    let mut only_b = ActionSettings::default();
    only_b.common.target = TargetSelector::Instances { ids: vec!["b".into()] };
    let mut only_a = ActionSettings::default();
    only_a.common.target = TargetSelector::Instances { ids: vec!["a".into()] };
    runtime.upsert_key("ka".into(), ActionKind::Stream, only_a, false);
    runtime.upsert_key("kb".into(), ActionKind::Stream, only_b, false);
    let connected = runtime.on_status(&"a".to_string(), true, &two_instances(), &vec![]);
    assert_eq!(connected.refresh, vec!["ka".to_string(), "kb".to_string()]);
    assert_eq!(connected.inspectors.len(), 2);
    assert!(runtime.take_dirty().is_empty());
    let dropped = runtime.on_status(&"a".to_string(), false, &two_instances(), &vec![]);
    assert!(dropped.refresh.is_empty());
    assert_eq!(dropped.inspectors, vec!["ka".to_string(), "kb".to_string()]);
    assert_eq!(runtime.key("ka").unwrap().segments.get("a"), Some(&SegmentState::Unavailable));
    assert_eq!(runtime.key("kb").unwrap().segments.get("a"), None);
    assert_eq!(runtime.take_dirty(), vec!["ka".to_string()]);
}
