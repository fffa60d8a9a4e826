use base64::engine::general_purpose::STANDARD_NO_PAD;
use base64::Engine;
use equzx::meters::RES_BANDS;
use equzx::params::{
    BandChannel, BandKind, BandResMode, BandWrite, DynMode, EquzxParams, ResMode, ResQuality,
    Slope, Write, MAX_BANDS,
};
use equzx::protocol::{
    encode_reduction, parse_channel, parse_dyn_mode, parse_kind, parse_slope, state_message,
    RES_MAX_CUT_DB,
};
use equzx::single::Single;
use equzx::webview::{
    message_script, on_event, Filter, HTMLSource, Pump, Recipient, Status, WebViewEditor,
    WindowEvent, MOST_MESSAGES,
};

fn s(v: f32) -> Single {
    Single { bits: v.to_bits() }
}

fn f(v: Single) -> f32 {
    f32::from_bits(v.bits)
}

#[test]
fn enum_names_match_the_typescript_side() {
    for (name, kind) in [
        ("lowcut", BandKind::LowCut),
        ("lowshelf", BandKind::LowShelf),
        ("bell", BandKind::Bell),
        ("notch", BandKind::Notch),
        ("bandpass", BandKind::BandPass),
        ("highshelf", BandKind::HighShelf),
        ("highcut", BandKind::HighCut),
    ] {
        assert_eq!(parse_kind(name), Some(kind));
        assert_eq!(kind.as_wire(), name);
    }
    assert_eq!(parse_kind("sideways"), None);
    assert_eq!(parse_channel("mid"), Some(BandChannel::Mid));
    assert_eq!(parse_dyn_mode("above"), Some(DynMode::Above));
    assert_eq!(parse_slope(96), Some(Slope::S96));
    assert_eq!(parse_slope(13), None);
}

#[test]
fn every_name_reads_back() {
    for v in [
        BandChannel::Stereo,
        BandChannel::Left,
        BandChannel::Right,
        BandChannel::Mid,
        BandChannel::Side,
    ] {
        assert_eq!(parse_channel(v.as_wire()), Some(v));
    }
    for v in [DynMode::Above, DynMode::Below] {
        assert_eq!(parse_dyn_mode(v.as_wire()), Some(v));
    }
    assert_eq!(parse_channel("MID"), None);
    assert_eq!(parse_dyn_mode(""), None);
    assert_eq!(ResMode::from_wire(ResMode::Spectral.as_wire()), Some(ResMode::Spectral));
    assert_eq!(ResMode::from_wire("nothing"), None);
    assert_eq!(
        ResQuality::from_wire(ResQuality::Balanced.as_wire()),
        Some(ResQuality::Balanced)
    );
    assert_eq!(ResQuality::from_wire("nothing"), None);
    assert_eq!(
        BandResMode::from_wire(BandResMode::Spectral.as_wire()),
        Some(BandResMode::Spectral)
    );
    assert_eq!(BandResMode::from_wire("nothing"), None);
    assert_eq!(ResQuality::Ultra.max_targets(), 8);
    assert_eq!(ResQuality::Balanced.max_targets(), 16);
    assert_eq!(ResQuality::High.max_targets(), 24);
}

#[test]
fn a_default_state_message_serializes_with_no_bands() {
    let params = EquzxParams::default();
    let msg = state_message(&params, "{}".into(), s(48_000.0), s(20.0));
    assert!(msg.bands.is_empty());
    assert_eq!(msg.max_bands, MAX_BANDS);
    assert_eq!(msg.max_bands, 24);
    assert_eq!(msg.msg, "state");
    assert_eq!(f(msg.output_gain), 0.0);
    assert_eq!(msg.ui, "{}");
}

#[test]
fn the_resonance_state_reads_back_in_the_units_the_ui_shows() {
    let params = EquzxParams::default();
    let res = state_message(&params, String::new(), s(48_000.0), s(20.0)).resonance;
    // Off out of the box, and the ratios are percentages on the wire.
    assert!(!res.enabled);
    assert_eq!(f(res.depth), 50.0);
    assert_eq!(f(res.sharpness), 50.0);
    assert_eq!(f(res.mix), 100.0);
    // The bank's layout travels with it so the UI need not hard-code it.
    assert_eq!(res.bands, RES_BANDS);
    assert_eq!(res.max_cut.bits, RES_MAX_CUT_DB);
    assert_eq!(f32::from_bits(RES_MAX_CUT_DB), 36.0);
}

#[test]
fn a_state_message_lists_the_slots_in_use() {
    let mut params = EquzxParams::default();
    for slot in [2, 9] {
        params.write(Write::Band(slot, BandWrite::Active(true)));
    }
    params.write(Write::Band(9, BandWrite::Kind(BandKind::HighCut)));
    let bands = state_message(&params, String::new(), s(44_100.0), s(20.0)).bands;
    assert_eq!(bands.len(), 2);
    assert_eq!((bands[0].id, bands[0].kind), (2, "bell"));
    assert_eq!((bands[1].id, bands[1].kind, bands[1].slope), (9, "highcut", 24));
}

/// A cut in dB as one byte of the scale.
fn quantised(cut: f32) -> u8 {
    ((cut / f32::from_bits(RES_MAX_CUT_DB)).clamp(0.0, 1.0) * 255.0).round() as u8
}

#[test]
fn the_reduction_curve_quantises_across_its_range() {
    let max = f32::from_bits(RES_MAX_CUT_DB);
    let mut curve = vec![0.0f32; RES_BANDS];
    curve[0] = max;
    curve[1] = max / 2.0;
    // Deeper than the scale, and negative, both have to land on an end.
    curve[2] = max * 3.0;
    curve[3] = -5.0;

    let steps: Vec<u8> = curve.iter().map(|v| quantised(*v)).collect();
    let bytes = STANDARD_NO_PAD.decode(encode_reduction(&steps)).unwrap();
    assert_eq!(bytes.len(), RES_BANDS);
    assert_eq!(bytes[0], 255);
    assert!((i32::from(bytes[1]) - 128).abs() <= 1, "got {}", bytes[1]);
    assert_eq!(bytes[2], 255);
    assert_eq!(bytes[3], 0);
    assert_eq!(bytes[4], 0);
}

/// A short curve is a bug somewhere upstream, not a reason to panic in the
/// editor's frame loop.
#[test]
fn a_short_reduction_curve_still_encodes() {
    assert_eq!(
        STANDARD_NO_PAD.decode(encode_reduction(&[])).unwrap().len(),
        RES_BANDS
    );
}

#[test]
fn every_byte_of_the_reduction_curve_reads_back() {
    let curve: Vec<u8> = (0..RES_BANDS as u32).map(|i| (i * 37 % 256) as u8).collect();
    let text = encode_reduction(&curve);
    assert_eq!(text.len(), 80);
    assert_eq!(STANDARD_NO_PAD.decode(&text).unwrap(), curve);
    assert!(encode_reduction(&[0, 16, 131]).starts_with("ABCD"));
}

#[test]
fn a_message_reaches_the_page_as_one_quoted_argument() {
    assert_eq!(
        message_script("{\"a\":1}"),
        r#"onPluginMessageInternal("{\"a\":1}");"#
    );
    assert_eq!(
        message_script("a\\b\n\t\u{1}\u{1f}é"),
        r#"onPluginMessageInternal("a\\b\n\t\u0001\u001fé");"#
    );
    assert_eq!(message_script("\u{8}\u{c}\r\u{7f}"), "onPluginMessageInternal(\"\\b\\f\\r\u{7f}\");");
    assert_eq!(message_script(""), "onPluginMessageInternal(\"\");");
    // What stands between the brackets is JSON for the message.
    let script = message_script("line\none \"two\"");
    let argument = &script["onPluginMessageInternal(".len()..script.len() - 2];
    assert_eq!(serde_json::from_str::<String>(argument).unwrap(), "line\none \"two\"");
}

#[test]
fn a_window_asks_the_host_only_for_a_new_size() {
    let mut view = WebViewEditor::new(HTMLSource::String("<p>"), (800, 600))
        .with_background_color((1, 2, 3, 4))
        .with_developer_mode(true);
    assert!(view.developer_mode);
    assert_eq!(view.background_color, (1, 2, 3, 4));
    assert!(!view.resize(800, 600));
    assert!(view.resize(801, 600));
    assert_eq!(view.size(), (801, 600));
    assert!(!view.resize(801, 600));
}

#[test]
fn events_are_reported_by_what_became_of_them() {
    assert_eq!(on_event(WindowEvent::Keyboard(true)), (Status::Captured, false));
    assert_eq!(on_event(WindowEvent::Keyboard(false)), (Status::Ignored, false));
    assert_eq!(
        on_event(WindowEvent::Mouse(Status::Captured)),
        (Status::Captured, false)
    );
    assert_eq!(on_event(WindowEvent::Resized), (Status::Ignored, true));
    assert_eq!(on_event(WindowEvent::Other), (Status::Ignored, false));
}

#[test]
fn a_storm_of_messages_does_not_hold_the_frame() {
    let mut pump = Pump::new();
    let mut passed = 0;
    while pump.next(Some(Recipient::Foreign)).is_some() {
        passed += 1;
    }
    assert_eq!(passed, MOST_MESSAGES);

    let mut pump = Pump::new();
    assert_eq!(pump.next(Some(Recipient::Thread)), Some(Filter::ThreadMessages));
    assert_eq!(pump.next(Some(Recipient::Foreign)), Some(Filter::ItsWindow));
    assert_eq!(pump.next(Some(Recipient::Ours)), None);
    assert_eq!(pump.next(None), None);
}
