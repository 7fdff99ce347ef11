use vstd::prelude::*;
use vstd::string::{StrSliceExecFns, StringSliceAdditionalSpecFns};

use crate::kind::ActionKind;
use crate::text::spec_is_whitespace;

verus! {

/// What one instance's strip segment shows.
#[derive(Clone, Copy, Debug, PartialEq, Eq, Structural)]
pub enum SegmentState {
    Active,
    Inactive,
    Intermediate,
    Neutral,
    Unavailable,
}

/// One instance's part of the strip under the key icon.
pub struct Segment {
    pub label: String,
    pub color: String,
    pub state: SegmentState,
}

impl View for Segment {
    type V = (Seq<char>, Seq<char>, SegmentState);

    open spec fn view(&self) -> (Seq<char>, Seq<char>, SegmentState) {
        (self.label@, self.color@, self.state)
    }
}

/// The fill of a segment: the instance color while active or neutral, slate
/// when off, amber in between, rust when unavailable.
pub open spec fn spec_fill(segment: (Seq<char>, Seq<char>, SegmentState)) -> Seq<char> {
    match segment.2 {
        SegmentState::Active | SegmentState::Neutral => segment.1,
        SegmentState::Inactive => "#2a3140"@,
        SegmentState::Intermediate => "#d08a2f"@,
        SegmentState::Unavailable => "#3a241f"@,
    }
}

pub fn fill_for(segment: &Segment) -> (fill: String)
    ensures
        fill@ == spec_fill(segment@),
{
    match segment.state {
        SegmentState::Active | SegmentState::Neutral => segment.color.clone(),
        SegmentState::Inactive => String::from_str("#2a3140"),
        SegmentState::Intermediate => String::from_str("#d08a2f"),
        SegmentState::Unavailable => String::from_str("#3a241f"),
    }
}

/// What `char::to_uppercase` maps a character to.
pub uninterp spec fn uppercase(c: char) -> Seq<char>;

/// Calls `char::to_uppercase` and collects the characters it yields; the
/// contract names that text `uppercase` of the character.
#[verifier::external_body]
fn uppercase_text(c: char) -> (upper: String)
    ensures
        upper@ == uppercase(c),
{
    c.to_uppercase().collect()
}

/// The index of the first character that is not whitespace.
pub open spec fn first_visible(label: Seq<char>) -> Option<int> {
    if exists|i: int| 0 <= i < label.len() && !spec_is_whitespace(label[i]) {
        Some(choose|i: int| 0 <= i < label.len() && !spec_is_whitespace(label[i]) && forall|j: int| 0 <= j < i ==> spec_is_whitespace(#[trigger] label[j]))
    } else {
        None
    }
}

/// A label's initial: its first visible character in upper case, or `?`.
pub open spec fn spec_initial(label: Seq<char>) -> Seq<char> {
    match first_visible(label) {
        Some(i) => uppercase(label[i]),
        None => "?"@,
    }
}

pub fn initial(label: &str) -> (text: String)
    ensures
        text@ == spec_initial(label@),
{
    let n = label.unicode_len();
    let mut i: usize = 0;
    while i < n
        invariant
            n == label@.len(),
            i <= n,
            forall|j: int| 0 <= j < i ==> spec_is_whitespace(#[trigger] label@[j]),
        decreases n - i,
    {
        let c = label.get_char(i);
        if !crate::text::is_whitespace(c) {
            proof {
                let k = choose|k: int| 0 <= k < label@.len() && !spec_is_whitespace(label@[k]) && forall|j: int| 0 <= j < k ==> spec_is_whitespace(#[trigger] label@[j]);
                assert(k == i);
            }
            return uppercase_text(c);
        }
        i = i + 1;
    }
    String::from_str("?")
}

/// A character as it appears in SVG text.
pub open spec fn escaped_char(c: char) -> Seq<char> {
    if c == '&' {
        "&amp;"@
    } else if c == '<' {
        "&lt;"@
    } else if c == '>' {
        "&gt;"@
    } else {
        seq![c]
    }
}

/// Text with `&`, `<` and `>` written as entities.
pub open spec fn escaped(text: Seq<char>) -> Seq<char>
    decreases text.len(),
{
    if text.len() == 0 {
        Seq::empty()
    } else {
        escaped(text.drop_last()) + escaped_char(text.last())
    }
}

pub fn escape(text: &str) -> (out: String)
    ensures
        out@ == escaped(text@),
{
    let n = text.unicode_len();
    let mut out = String::new();
    let mut i: usize = 0;
    while i < n
        invariant
            n == text@.len(),
            i <= n,
            out@ == escaped(text@.take(i as int)),
        decreases n - i,
    {
        let c = text.get_char(i);
        let ghost before = out@;
        if c == '&' {
            out.append("&amp;");
        } else if c == '<' {
            out.append("&lt;");
        } else if c == '>' {
            out.append("&gt;");
        } else {
            out.append(text.substring_char(i, i + 1));
            assert(text@.subrange(i as int, i + 1) =~= seq![c]);
        }
        assert(text@.take(i + 1).drop_last() =~= text@.take(i as int));
        assert(text@.take(i + 1).last() == c);
        i = i + 1;
    }
    assert(text@.take(n as int) =~= text@);
    out
}

/// The height of the strip: none without targets, tall with up to six, thin with more.
pub open spec fn spec_strip_height(count: nat) -> u32 {
    if count == 0 {
        0
    } else if count <= 6 {
        22
    } else {
        10
    }
}

pub fn strip_height(count: usize) -> (h: u32)
    ensures
        h == spec_strip_height(count as nat),
{
    if count == 0 {
        0
    } else if count <= 6 {
        22
    } else {
        10
    }
}

/// Up to six segments show their initials; more than that show color only.
pub fn shows_initials(count: usize) -> (b: bool)
    ensures
        b == (count <= 6 && spec_strip_height(count as nat) > 0),
{
    count <= 6 && strip_height(count) > 0
}

/// Up to six segments show their initials; more than that show color only.
pub proof fn initials_for_up_to_six(count: nat)
    ensures
        (count <= 6 && spec_strip_height(count) > 0) <==> (1 <= count && count <= 6),
{
}

/// The SVG path of each kind's icon.
pub open spec fn spec_icon_path(kind: ActionKind) -> Seq<char> {
    match kind {
        ActionKind::Stream => "<path d=\"M8 18h28l10 10V18h10v28H8z\"/>"@,
        ActionKind::Record => "<circle cx=\"32\" cy=\"32\" r=\"16\"/>"@,
        ActionKind::RecordPause => "<path d=\"M20 16v32M44 16v32\"/>"@,
        ActionKind::Replay => "<path d=\"M16 32a16 16 0 1 0 4-10M16 14v10h10\"/>"@,
        ActionKind::SaveReplay => "<path d=\"M16 44V20h32v24M24 20v12h16\"/>"@,
        ActionKind::VirtualCam => "<rect x=\"10\" y=\"18\" width=\"30\" height=\"24\" rx=\"4\"/><path d=\"M40 26l14-6v24l-14-6\"/>"@,
        ActionKind::StudioMode => "<rect x=\"8\" y=\"16\" width=\"20\" height=\"28\"/><rect x=\"36\" y=\"16\" width=\"20\" height=\"28\"/>"@,
        ActionKind::StudioTransition => "<path d=\"M14 32h36M38 22l12 10-12 10\"/>"@,
        ActionKind::Scene => "<rect x=\"10\" y=\"14\" width=\"44\" height=\"32\" rx=\"4\"/>"@,
        ActionKind::Source => "<rect x=\"12\" y=\"16\" width=\"18\" height=\"18\"/><rect x=\"34\" y=\"30\" width=\"18\" height=\"18\"/>"@,
        ActionKind::Mute => "<path d=\"M24 14v20M18 24a14 10 0 0 0 12 0M16 46l32-28\"/>"@,
        ActionKind::Filter => "<path d=\"M12 16h40l-14 18v14l-12 6V34z\"/>"@,
        ActionKind::Collection => "<rect x=\"12\" y=\"18\" width=\"28\" height=\"28\"/><path d=\"M24 18V12h28v28h-6\"/>"@,
        ActionKind::Profile => "<circle cx=\"32\" cy=\"24\" r=\"10\"/><path d=\"M14 50c2-12 12-16 18-16s16 4 18 16\"/>"@,
        ActionKind::Screenshot => "<rect x=\"12\" y=\"20\" width=\"40\" height=\"28\" rx=\"4\"/><circle cx=\"32\" cy=\"34\" r=\"6\"/>"@,
        ActionKind::Hotkey => "<rect x=\"10\" y=\"22\" width=\"44\" height=\"22\" rx=\"4\"/><path d=\"M20 28v8M32 28v8M44 28v8\"/>"@,
        ActionKind::RefreshBrowser | ActionKind::RefreshCapture => "<path d=\"M18 24a16 16 0 0 1 26-4M46 40a16 16 0 0 1-26 4M44 14v10H34M20 50V40h10\"/>"@,
        ActionKind::Chapter => "<path d=\"M16 14h24l8 8v28H16zM40 14v8h8M24 32h16M24 40h10\"/>"@,
        ActionKind::Media => "<path d=\"M22 16v32l24-16z\"/>"@,
        ActionKind::Stats => "<path d=\"M12 46V30M28 46V18M44 46V26\"/>"@,
        ActionKind::Volume => "<path d=\"M12 26h10l12-10v32L22 38H12zM42 24a12 12 0 0 1 0 16\"/>"@,
        ActionKind::Raw | ActionKind::RawBatch => "<path d=\"M18 20l-8 12 8 12M46 20l8 12-8 12M36 16l-8 32\"/>"@,
    }
}

pub fn icon_path(kind: ActionKind) -> (path: &'static str)
    ensures
        path@ == spec_icon_path(kind),
{
    match kind {
        ActionKind::Stream => "<path d=\"M8 18h28l10 10V18h10v28H8z\"/>",
        ActionKind::Record => "<circle cx=\"32\" cy=\"32\" r=\"16\"/>",
        ActionKind::RecordPause => "<path d=\"M20 16v32M44 16v32\"/>",
        ActionKind::Replay => "<path d=\"M16 32a16 16 0 1 0 4-10M16 14v10h10\"/>",
        ActionKind::SaveReplay => "<path d=\"M16 44V20h32v24M24 20v12h16\"/>",
        ActionKind::VirtualCam => "<rect x=\"10\" y=\"18\" width=\"30\" height=\"24\" rx=\"4\"/><path d=\"M40 26l14-6v24l-14-6\"/>",
        ActionKind::StudioMode => "<rect x=\"8\" y=\"16\" width=\"20\" height=\"28\"/><rect x=\"36\" y=\"16\" width=\"20\" height=\"28\"/>",
        ActionKind::StudioTransition => "<path d=\"M14 32h36M38 22l12 10-12 10\"/>",
        ActionKind::Scene => "<rect x=\"10\" y=\"14\" width=\"44\" height=\"32\" rx=\"4\"/>",
        ActionKind::Source => "<rect x=\"12\" y=\"16\" width=\"18\" height=\"18\"/><rect x=\"34\" y=\"30\" width=\"18\" height=\"18\"/>",
        ActionKind::Mute => "<path d=\"M24 14v20M18 24a14 10 0 0 0 12 0M16 46l32-28\"/>",
        ActionKind::Filter => "<path d=\"M12 16h40l-14 18v14l-12 6V34z\"/>",
        ActionKind::Collection => "<rect x=\"12\" y=\"18\" width=\"28\" height=\"28\"/><path d=\"M24 18V12h28v28h-6\"/>",
        ActionKind::Profile => "<circle cx=\"32\" cy=\"24\" r=\"10\"/><path d=\"M14 50c2-12 12-16 18-16s16 4 18 16\"/>",
        ActionKind::Screenshot => "<rect x=\"12\" y=\"20\" width=\"40\" height=\"28\" rx=\"4\"/><circle cx=\"32\" cy=\"34\" r=\"6\"/>",
        ActionKind::Hotkey => "<rect x=\"10\" y=\"22\" width=\"44\" height=\"22\" rx=\"4\"/><path d=\"M20 28v8M32 28v8M44 28v8\"/>",
        ActionKind::RefreshBrowser | ActionKind::RefreshCapture => "<path d=\"M18 24a16 16 0 0 1 26-4M46 40a16 16 0 0 1-26 4M44 14v10H34M20 50V40h10\"/>",
        ActionKind::Chapter => "<path d=\"M16 14h24l8 8v28H16zM40 14v8h8M24 32h16M24 40h10\"/>",
        ActionKind::Media => "<path d=\"M22 16v32l24-16z\"/>",
        ActionKind::Stats => "<path d=\"M12 46V30M28 46V18M44 46V26\"/>",
        ActionKind::Volume => "<path d=\"M12 26h10l12-10v32L22 38H12zM42 24a12 12 0 0 1 0 16\"/>",
        ActionKind::Raw | ActionKind::RawBatch => "<path d=\"M18 20l-8 12 8 12M46 20l8 12-8 12M36 16l-8 32\"/>",
    }
}

/// The base64 alphabet of RFC 4648.
pub open spec fn base64_digit(v: int) -> char {
    "ABCDEFGHIJKLMNOPQRSTUVWXYZabcdefghijklmnopqrstuvwxyz0123456789+/"@[v]
}

/// Standard base64 (RFC 4648, with `=` padding) of a byte sequence.
pub open spec fn base64(bytes: Seq<u8>) -> Seq<char>
    decreases bytes.len(),
{
    if bytes.len() == 0 {
        Seq::empty()
    } else if bytes.len() == 1 {
        let b0 = bytes[0] as int;
        seq![base64_digit(b0 / 4), base64_digit((b0 % 4) * 16), '=', '=']
    } else if bytes.len() == 2 {
        let b0 = bytes[0] as int;
        let b1 = bytes[1] as int;
        seq![base64_digit(b0 / 4), base64_digit((b0 % 4) * 16 + b1 / 16), base64_digit((b1 % 16) * 4), '=']
    } else {
        let b0 = bytes[0] as int;
        let b1 = bytes[1] as int;
        let b2 = bytes[2] as int;
        seq![
            base64_digit(b0 / 4),
            base64_digit((b0 % 4) * 16 + b1 / 16),
            base64_digit((b1 % 16) * 4 + b2 / 64),
            base64_digit(b2 % 64),
        ] + base64(bytes.subrange(3, bytes.len() as int))
    }
}

/// Calls `Engine::encode` of `base64::engine::general_purpose::STANDARD`,
/// which the base64 crate documents as the RFC 4648 alphabet with padding;
/// the contract states that encoding.
#[verifier::external_body]
pub(crate) fn base64_encode(bytes: &[u8]) -> (encoded: String)
    ensures
        encoded@ == base64(bytes@),
{
    base64::Engine::encode(&base64::engine::general_purpose::STANDARD, bytes)
}

/// An SVG document as a `data:` URL that a key image can use.
pub fn svg_data_url(svg: &str) -> (url: String)
    ensures
        url@ == "data:image/svg+xml;base64,"@ + base64(svg.spec_bytes()),
{
    let mut url = String::from_str("data:image/svg+xml;base64,");
    url.append(base64_encode(svg.as_bytes()).as_str());
    url
}

/// Where the image draws the strip, as it writes the numbers: the top of the
/// strip, the width of one segment and the strip's height.
pub struct StripGeometry {
    pub y: String,
    pub width: String,
    pub height: String,
}

/// Where the image draws one segment, as it writes the numbers: its left
/// edge and the centre of its initial.
pub struct SegmentPlace {
    pub x: String,
    pub text_x: String,
}

/// One rectangle of the strip.
pub open spec fn spec_rect(x: Seq<char>, geometry: (Seq<char>, Seq<char>, Seq<char>), fill: Seq<char>) -> Seq<char> {
    "<rect x=\""@ + x + "\" y=\""@ + geometry.0 + "\" width=\""@ + geometry.1 + "\" height=\""@ + geometry.2
        + "\" fill=\""@ + fill + "\"/>"@
}

/// What the image draws for one segment: a bar in its fill, hatched when the
/// instance is unavailable, and its initial where the strip shows initials.
pub open spec fn spec_bar(
    segment: (Seq<char>, Seq<char>, SegmentState),
    place: (Seq<char>, Seq<char>),
    geometry: (Seq<char>, Seq<char>, Seq<char>),
    show_initial: bool,
    foreground: Seq<char>,
) -> Seq<char> {
    spec_rect(place.0, geometry, spec_fill(segment)) + (if segment.2 == SegmentState::Unavailable {
        spec_rect(place.0, geometry, "url(#hatch)"@)
    } else {
        Seq::empty()
    }) + (if show_initial {
        "<text x=\""@ + place.1
            + "\" y=\"138\" text-anchor=\"middle\" font-size=\"12\" font-family=\"sans-serif\" font-weight=\"700\" fill=\""@
            + foreground + "\">"@ + escaped(spec_initial(segment.0)) + "</text>"@
    } else {
        Seq::empty()
    })
}

/// The bars of the first segments, in order.
pub open spec fn spec_bars(
    segments: Seq<(Seq<char>, Seq<char>, SegmentState)>,
    places: Seq<(Seq<char>, Seq<char>)>,
    geometry: (Seq<char>, Seq<char>, Seq<char>),
    show_initial: bool,
    foreground: Seq<char>,
) -> Seq<char>
    decreases segments.len(),
{
    if segments.len() == 0 || places.len() < segments.len() {
        Seq::empty()
    } else {
        spec_bars(segments.drop_last(), places, geometry, show_initial, foreground) + spec_bar(
            segments.last(),
            places[segments.len() - 1],
            geometry,
            show_initial,
            foreground,
        )
    }
}

/// The key image: the kind's icon drawn in the foreground color on a dark
/// rounded square, over the strip of segments.
pub open spec fn spec_key_svg(kind: ActionKind, bars: Seq<char>, foreground: Seq<char>) -> Seq<char> {
    "<svg xmlns=\"http://www.w3.org/2000/svg\" width=\"144\" height=\"144\" viewBox=\"0 0 144 144\"><defs><pattern id=\"hatch\" width=\"6\" height=\"6\" patternUnits=\"userSpaceOnUse\" patternTransform=\"rotate(45)\"><line x1=\"0\" y1=\"0\" x2=\"0\" y2=\"6\" stroke=\"#111\" stroke-width=\"2\"/></pattern></defs><rect width=\"144\" height=\"144\" rx=\"18\" fill=\"#1b1f27\"/><g fill=\"none\" stroke=\""@
        + foreground
        + "\" stroke-width=\"6\" stroke-linecap=\"round\" stroke-linejoin=\"round\" transform=\"translate(40 28)\">"@
        + spec_icon_path(kind) + "</g>"@ + bars + "</svg>"@
}

pub open spec fn segments_seq(segments: Seq<Segment>) -> Seq<(Seq<char>, Seq<char>, SegmentState)> {
    segments.map_values(|s: Segment| s@)
}

pub open spec fn places_seq(places: Seq<SegmentPlace>) -> Seq<(Seq<char>, Seq<char>)> {
    places.map_values(|p: SegmentPlace| (p.x@, p.text_x@))
}

fn append_rect(out: &mut String, x: &str, geometry: &StripGeometry, fill: &str)
    ensures
        final(out)@ == old(out)@ + spec_rect(x@, (geometry.y@, geometry.width@, geometry.height@), fill@),
{
    out.append("<rect x=\"");
    out.append(x);
    out.append("\" y=\"");
    out.append(geometry.y.as_str());
    out.append("\" width=\"");
    out.append(geometry.width.as_str());
    out.append("\" height=\"");
    out.append(geometry.height.as_str());
    out.append("\" fill=\"");
    out.append(fill);
    out.append("\"/>");
}

fn bar(segment: &Segment, place: &SegmentPlace, geometry: &StripGeometry, show_initial: bool, foreground: &str) -> (out: String)
    ensures
        out@ == spec_bar(segment@, (place.x@, place.text_x@), (geometry.y@, geometry.width@, geometry.height@), show_initial, foreground@),
{
    let mut out = String::new();
    let fill = fill_for(segment);
    append_rect(&mut out, place.x.as_str(), geometry, fill.as_str());
    if segment.state == SegmentState::Unavailable {
        append_rect(&mut out, place.x.as_str(), geometry, "url(#hatch)");
    }
    if show_initial {
        out.append("<text x=\"");
        out.append(place.text_x.as_str());
        out.append("\" y=\"138\" text-anchor=\"middle\" font-size=\"12\" font-family=\"sans-serif\" font-weight=\"700\" fill=\"");
        out.append(foreground);
        out.append("\">");
        out.append(escape(initial(segment.label.as_str()).as_str()).as_str());
        out.append("</text>");
    }
    out
}

/// Draw a key: one bar per segment at its place; initials only where the
/// strip shows them (up to six segments).
pub fn key_svg(
    kind: ActionKind,
    segments: &Vec<Segment>,
    places: &Vec<SegmentPlace>,
    geometry: &StripGeometry,
    foreground: &str,
) -> (svg: String)
    requires
        places@.len() == segments@.len(),
    ensures
        svg@ == spec_key_svg(
            kind,
            spec_bars(
                segments_seq(segments@),
                places_seq(places@),
                (geometry.y@, geometry.width@, geometry.height@),
                segments@.len() <= 6 && spec_strip_height(segments@.len() as nat) > 0,
                foreground@,
            ),
            foreground@,
        ),
{
    let show_initial = shows_initials(segments.len());
    let ghost sv = segments_seq(segments@);
    let ghost pv = places_seq(places@);
    let ghost g = (geometry.y@, geometry.width@, geometry.height@);
    let mut bars = String::new();
    let mut i: usize = 0;
    while i < segments.len()
        invariant
            i <= segments.len(),
            places@.len() == segments@.len(),
            sv == segments_seq(segments@),
            pv == places_seq(places@),
            g == (geometry.y@, geometry.width@, geometry.height@),
            bars@ == spec_bars(sv.take(i as int), pv, g, show_initial, foreground@),
        decreases segments.len() - i,
    {
        let piece = bar(&segments[i], &places[i], geometry, show_initial, foreground);
        bars.append(piece.as_str());
        proof {
            assert(sv.take(i + 1).drop_last() =~= sv.take(i as int));
            assert(sv.take(i + 1).last() == segments@[i as int]@);
            assert(pv[i as int] == (places@[i as int].x@, places@[i as int].text_x@));
        }
        i = i + 1;
    }
    proof {
        assert(sv.take(segments.len() as int) =~= sv);
    }
    let mut svg = String::from_str(
        "<svg xmlns=\"http://www.w3.org/2000/svg\" width=\"144\" height=\"144\" viewBox=\"0 0 144 144\"><defs><pattern id=\"hatch\" width=\"6\" height=\"6\" patternUnits=\"userSpaceOnUse\" patternTransform=\"rotate(45)\"><line x1=\"0\" y1=\"0\" x2=\"0\" y2=\"6\" stroke=\"#111\" stroke-width=\"2\"/></pattern></defs><rect width=\"144\" height=\"144\" rx=\"18\" fill=\"#1b1f27\"/><g fill=\"none\" stroke=\"",
    );
    svg.append(foreground);
    svg.append("\" stroke-width=\"6\" stroke-linecap=\"round\" stroke-linejoin=\"round\" transform=\"translate(40 28)\">");
    svg.append(icon_path(kind));
    svg.append("</g>");
    svg.append(bars.as_str());
    svg.append("</svg>");
    svg
}

/// Where a strip shows initials, each segment's bar ends with its initial
/// written in the key's foreground color, whatever the segment's own color
/// and state; without initials the bar is only its rectangles.
pub proof fn initials_drawn_in_foreground(
    segment: (Seq<char>, Seq<char>, SegmentState),
    other: (Seq<char>, Seq<char>, SegmentState),
    place: (Seq<char>, Seq<char>),
    geometry: (Seq<char>, Seq<char>, Seq<char>),
    foreground: Seq<char>,
)
    requires
        other.0 == segment.0,
    ensures
        spec_bar(segment, place, geometry, true, foreground) == spec_bar(segment, place, geometry, false, foreground)
            + ("<text x=\""@ + place.1
            + "\" y=\"138\" text-anchor=\"middle\" font-size=\"12\" font-family=\"sans-serif\" font-weight=\"700\" fill=\""@
            + foreground + "\">"@ + escaped(spec_initial(segment.0)) + "</text>"@),
        spec_bar(segment, place, geometry, false, foreground) == spec_rect(place.0, geometry, spec_fill(segment)) + (if segment.2 == SegmentState::Unavailable {
            spec_rect(place.0, geometry, "url(#hatch)"@)
        } else {
            Seq::empty()
        }),
        spec_bar(segment, place, geometry, true, foreground).subrange(
            spec_bar(segment, place, geometry, false, foreground).len() as int,
            spec_bar(segment, place, geometry, true, foreground).len() as int,
        ) == spec_bar(other, place, geometry, true, foreground).subrange(
            spec_bar(other, place, geometry, false, foreground).len() as int,
            spec_bar(other, place, geometry, true, foreground).len() as int,
        ),
{
    let t = "<text x=\""@ + place.1
        + "\" y=\"138\" text-anchor=\"middle\" font-size=\"12\" font-family=\"sans-serif\" font-weight=\"700\" fill=\""@
        + foreground + "\">"@ + escaped(spec_initial(segment.0)) + "</text>"@;
    let a = spec_bar(segment, place, geometry, false, foreground);
    let b = spec_bar(other, place, geometry, false, foreground);
    assert(a + Seq::<char>::empty() =~= a);
    assert(b + Seq::<char>::empty() =~= b);
    assert(spec_bar(segment, place, geometry, true, foreground) =~= a + t);
    assert(spec_bar(other, place, geometry, true, foreground) =~= b + t);
    assert((a + t).subrange(a.len() as int, (a + t).len() as int) =~= t);
    assert((b + t).subrange(b.len() as int, (b + t).len() as int) =~= t);
}

} // verus!
