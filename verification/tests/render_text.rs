use base64::Engine;
use multiobs::kind::{ActionKind, PressKind};
use multiobs::render::{escape, fill_for, icon_path, initial, shows_initials, strip_height, svg_data_url, Segment, SegmentState};
use multiobs::text::{blank, decimal_text, digits_text, is_blank, is_whitespace, same_str, trim};

fn segment(color: &str, state: SegmentState) -> Segment {
    Segment { label: "Stream PC".into(), color: color.into(), state }
}

#[test]
fn fills_follow_the_segment_state() {
    assert_eq!(fill_for(&segment("#4c8dff", SegmentState::Active)), "#4c8dff");
    assert_eq!(fill_for(&segment("#4c8dff", SegmentState::Neutral)), "#4c8dff");
    assert_eq!(fill_for(&segment("#4c8dff", SegmentState::Inactive)), "#2a3140");
    assert_eq!(fill_for(&segment("#4c8dff", SegmentState::Intermediate)), "#d08a2f");
    assert_eq!(fill_for(&segment("#4c8dff", SegmentState::Unavailable)), "#3a241f");
}

#[test]
fn initials_skip_leading_blanks_and_upper_case() {
    assert_eq!(initial("stream PC"), "S");
    assert_eq!(initial("  record"), "R");
    assert_eq!(initial("   "), "?");
    assert_eq!(initial(""), "?");
    assert_eq!(initial("ßig"), "SS");
}

#[test]
fn escapes_markup_characters() {
    assert_eq!(escape("a<b>&c"), "a&lt;b&gt;&amp;c");
    assert_eq!(escape("plain"), "plain");
}

#[test]
fn strip_shows_initials_for_up_to_six() {
    assert_eq!(strip_height(0), 0);
    assert_eq!(strip_height(1), 22);
    assert_eq!(strip_height(6), 22);
    assert_eq!(strip_height(7), 10);
    assert!(!shows_initials(0));
    assert!(shows_initials(6));
    assert!(!shows_initials(7));
}

#[test]
fn icons_differ_by_kind() {
    assert_eq!(icon_path(ActionKind::Record), "<circle cx=\"32\" cy=\"32\" r=\"16\"/>");
    assert_eq!(icon_path(ActionKind::RefreshBrowser), icon_path(ActionKind::RefreshCapture));
    assert_ne!(icon_path(ActionKind::Stream), icon_path(ActionKind::Record));
}

#[test]
fn svg_becomes_a_base64_data_url() {
    assert_eq!(svg_data_url("<svg>"), "data:image/svg+xml;base64,PHN2Zz4=");
    assert_eq!(svg_data_url(""), "data:image/svg+xml;base64,");
    assert_eq!(svg_data_url("ab"), "data:image/svg+xml;base64,YWI=");
}

#[test]
fn kinds_with_toggle_state_and_confirmation() {
    assert!(ActionKind::Stream.has_toggle_state());
    assert!(ActionKind::Mute.has_toggle_state());
    assert!(!ActionKind::Screenshot.has_toggle_state());
    assert!(ActionKind::Screenshot.confirms_press());
    assert!(ActionKind::Hotkey.confirms_press());
    assert!(!ActionKind::Stream.confirms_press());
    let kinds = [
        ActionKind::Stream, ActionKind::Record, ActionKind::RecordPause, ActionKind::Replay,
        ActionKind::SaveReplay, ActionKind::VirtualCam, ActionKind::StudioMode,
        ActionKind::StudioTransition, ActionKind::Scene, ActionKind::Source, ActionKind::Mute,
        ActionKind::Filter, ActionKind::Collection, ActionKind::Profile, ActionKind::Screenshot,
        ActionKind::Hotkey, ActionKind::RefreshBrowser, ActionKind::RefreshCapture,
        ActionKind::Chapter, ActionKind::Media, ActionKind::Stats, ActionKind::Volume,
        ActionKind::Raw, ActionKind::RawBatch,
    ];
    for kind in kinds {
        assert!(!(kind.confirms_press() && kind.has_toggle_state()), "{kind:?}");
    }
    assert_ne!(PressKind::Single, PressKind::Long);
}

#[test]
fn text_helpers() {
    assert_eq!(trim("  a b \n"), "a b");
    assert_eq!(trim("\u{3000}x\u{a0}"), "x");
    assert!(is_blank(" \t\n"));
    assert!(!is_blank(" a "));
    assert_eq!(blank("  "), None);
    assert_eq!(blank("Live"), Some("Live"));
    assert!(is_whitespace('\u{2003}'));
    assert!(!is_whitespace('x'));
    assert!(same_str("abc", "abc"));
    assert!(!same_str("abc", "abd"));
    assert!(!same_str("abc", "ab"));
}

#[test]
fn numbers_in_decimal() {
    assert_eq!(decimal_text(0), "0");
    assert_eq!(decimal_text(-42), "-42");
    assert_eq!(decimal_text(i64::MIN), "-9223372036854775808");
    assert_eq!(decimal_text(600), "600");
    assert_eq!(digits_text(u64::MAX), "18446744073709551615");
    assert_eq!(digits_text(7), "7");
}

fn geometry_for(count: usize) -> (multiobs::render::StripGeometry, Vec<multiobs::render::SegmentPlace>) {
    let strip = f32::from(strip_height(count) as u16);
    let width = if count == 0 { 0.0 } else { 144.0 / count as f32 };
    let geometry = multiobs::render::StripGeometry {
        y: format!("{:.2}", 144.0 - strip),
        width: format!("{width:.2}"),
        height: format!("{strip:.2}"),
    };
    let places = (0..count)
        .map(|index| {
            let x = width * index as f32;
            multiobs::render::SegmentPlace { x: format!("{x:.2}"), text_x: format!("{:.2}", x + width / 2.0) }
        })
        .collect();
    (geometry, places)
}

fn key_image(kind: ActionKind, segments: Vec<Segment>, foreground: &str) -> String {
    let (geometry, places) = geometry_for(segments.len());
    svg_data_url(&multiobs::render::key_svg(kind, &segments, &places, &geometry, foreground))
}

#[test]
fn draws_one_segment_per_instance() {
    let image = key_image(
        ActionKind::Stream,
        vec![
            Segment { label: "Stream PC".into(), color: "#4c8dff".into(), state: SegmentState::Active },
            Segment { label: "Record".into(), color: "#ef5b5b".into(), state: SegmentState::Inactive },
            Segment { label: "Offline".into(), color: "#888".into(), state: SegmentState::Unavailable },
        ],
        "#f4f7fb",
    );
    let svg = String::from_utf8(
        base64::engine::general_purpose::STANDARD
            .decode(image.trim_start_matches("data:image/svg+xml;base64,"))
            .unwrap(),
    )
    .unwrap();
    assert_eq!(svg.matches("<rect x=").count(), 4);
    assert!(svg.contains("url(#hatch)"));
    assert!(svg.contains(">S<"));
    assert!(svg.contains(">R<"));
}

#[test]
fn many_instances_show_color_only() {
    let segments: Vec<Segment> = (0..7)
        .map(|i| Segment { label: format!("PC {i}"), color: "#123456".into(), state: SegmentState::Active })
        .collect();
    let (geometry, places) = geometry_for(7);
    let svg = multiobs::render::key_svg(ActionKind::Record, &segments, &places, &geometry, "#fff");
    assert!(!svg.contains("<text"));
    assert_eq!(svg.matches("fill=\"#123456\"").count(), 7);
    assert!(svg.contains("height=\"10.00\""));
    assert!(svg.starts_with("<svg xmlns=\"http://www.w3.org/2000/svg\""));
    assert!(svg.contains("<circle cx=\"32\" cy=\"32\" r=\"16\"/>"));
    assert!(svg.ends_with("</svg>"));
}
