use equzx::limits::{BandFloat, Limits, ResonanceFloat};
use equzx::params::{
    BandChannel, BandKind, BandResMode, BandWrite, DynMode, EquzxParams, ResMode, ResQuality,
    Slope, Write, MAX_BANDS,
};
use equzx::single::{finite, Single};
use equzx::snapshot::{BandSnapshot, ResonanceSnapshot, Snapshot};
use equzx::state::{
    free_slot, read_bands, AbSlot, AnalyzerMode, BandView, ChannelView, UiState, DB_RANGES,
    PANEL_DEFAULT, PANEL_MIN,
};
use equzx::wire::BandWire;
use serde_json::Value;

fn s(v: f32) -> Single {
    Single { bits: v.to_bits() }
}

fn f(v: Single) -> f32 {
    f32::from_bits(v.bits)
}

fn number(v: &Value, name: &str, fallback: Single) -> Single {
    v[name].as_f64().map(|n| s(n as f32)).unwrap_or(fallback)
}

fn text(v: &Value, name: &str, fallback: String) -> String {
    v[name].as_str().map(str::to_owned).unwrap_or(fallback)
}

/// A band of a text preset, every field that is not named at its default.
fn band(v: &Value) -> BandSnapshot {
    let d = BandWire::default();
    BandSnapshot::from(BandWire {
        kind: text(v, "type", d.kind),
        channel: text(v, "channel", d.channel),
        freq: number(v, "freq", d.freq),
        gain: number(v, "gain", d.gain),
        q: number(v, "q", d.q),
        slope: v["slope"].as_u64().map(|n| n as u32).unwrap_or(d.slope),
        enabled: v["enabled"].as_bool().unwrap_or(d.enabled),
        dynamic: v["dynamic"].as_bool().unwrap_or(d.dynamic),
        dyn_mode: text(v, "dynMode", d.dyn_mode),
        dyn_range: number(v, "dynRange", d.dyn_range),
        threshold: number(v, "threshold", d.threshold),
        attack: number(v, "attack", d.attack),
        release: number(v, "release", d.release),
        resonance: number(v, "resonance", d.resonance),
        ..BandWire::default()
    })
}

fn snapshot(json: &str) -> Snapshot {
    let v: Value = serde_json::from_str(json).unwrap();
    let r = &v["resonance"];
    let d = ResonanceSnapshot::default();
    Snapshot {
        output_gain: number(&v, "outputGain", s(0.0)),
        bands: v["bands"].as_array().unwrap().iter().map(band).collect(),
        resonance: ResonanceSnapshot {
            enabled: r["enabled"].as_bool().unwrap_or(d.enabled),
            depth: number(r, "depth", d.depth),
            low: number(r, "low", d.low),
            ..d
        },
    }
}

#[test]
fn a_preset_written_by_the_web_ui_still_loads() {
    // Verbatim shape of what the web UI used to write, `id` and all.
    let json = r#"{
        "name": "Vocal",
        "version": 2,
        "outputGain": -3,
        "bands": [
            {"id": 7, "type": "highshelf", "channel": "side", "freq": 8000,
             "gain": 2.5, "q": 0.7, "slope": 24, "enabled": true,
             "dynamic": true, "dynMode": "below", "dynRange": -4,
             "threshold": -18, "attack": 12, "release": 150, "resonance": 25},
            {"type": "lowcut", "slope": 48, "freq": 80}
        ],
        "resonance": {"enabled": true, "depth": 70, "low": 120}
    }"#;

    let snap = snapshot(json);
    assert_eq!(f(snap.output_gain), -3.0);
    assert_eq!(snap.bands.len(), 2);

    let first = snap.bands[0];
    assert_eq!(first.kind, BandKind::HighShelf);
    assert_eq!(first.channel, BandChannel::Side);
    assert_eq!(first.dyn_mode, DynMode::Below);
    assert_eq!(f(first.resonance), 25.0);

    // A band that named only some fields gets the defaults for the rest.
    let second = snap.bands[1];
    assert_eq!(second.kind, BandKind::LowCut);
    assert_eq!(second.slope, Slope::S48);
    assert_eq!(f(second.freq), 80.0);
    assert_eq!(f(second.q), 1.0);
    assert!(second.enabled);

    // And the stage keeps what the file did not mention.
    assert!(snap.resonance.enabled);
    assert_eq!(f(snap.resonance.depth), 70.0);
    assert_eq!(f(snap.resonance.mix), 100.0);
}

#[test]
fn a_preset_from_before_the_resonance_stage_lands_on_the_defaults() {
    let snap = snapshot(r#"{"outputGain": 0, "bands": [{"type": "bell"}]}"#);
    // Which is to say: switched off, so an old preset sounds like an old preset.
    assert!(!snap.resonance.enabled);
    assert_eq!(snap.resonance, ResonanceSnapshot::default());
}

#[test]
fn a_snapshot_round_trips_through_json() {
    let band = BandSnapshot {
        kind: BandKind::Notch,
        channel: BandChannel::Mid,
        freq: s(250.0),
        q: s(8.0),
        slope: Slope::S96,
        dyn_mode: DynMode::Below,
        ..BandSnapshot::default()
    };
    let wire = BandWire::of(band);
    assert_eq!(wire.kind, "notch");
    assert_eq!(wire.channel, "mid");
    assert_eq!(wire.slope, 96);
    assert_eq!(wire.dyn_mode, "below");
    assert_eq!(BandSnapshot::from(wire), band);
}

#[test]
fn nonsense_in_a_preset_is_clamped_rather_than_trusted() {
    let json = r#"{"bands":[{"type":"sideways","channel":"upwards","slope":13,
                 "freq": 1e9, "q": -5, "gain": 400, "attack": 0}],
                 "outputGain": 99}"#;
    let snap = snapshot(json).sanitized();
    let band = snap.bands[0];
    assert_eq!(band.kind, BandKind::Bell);
    assert_eq!(band.channel, BandChannel::Stereo);
    assert_eq!(band.slope, Slope::S24);
    assert_eq!(f(band.freq), 22_000.0);
    assert_eq!(f(band.q), 0.025);
    assert_eq!(f(band.gain), 30.0);
    assert_eq!(f(band.attack), 1.0);
    assert_eq!(f(snap.output_gain), 12.0);
}

#[test]
fn a_non_finite_value_falls_back_instead_of_poisoning_the_clamp() {
    let band = BandSnapshot {
        freq: s(f32::NAN),
        q: s(f32::INFINITY),
        ..BandSnapshot::default()
    }
    .sanitized();
    assert_eq!(f(band.freq), 1000.0);
    // Infinity falls back rather than clamping to the top of the range:
    // a preset that lost a value should read as "unset", not "maximum".
    assert_eq!(f(band.q), 1.0);
}

#[test]
fn unreadable_view_state_lands_on_the_defaults() {
    assert_eq!(UiState::load("not json at all", None), UiState::default());
    assert_eq!(UiState::load("", None), UiState::default());
}

#[test]
fn view_state_round_trips_and_is_bounded() {
    let state = || UiState {
        db_range: s(30.0),
        analyzer_mode: AnalyzerMode::Pre,
        spectrum_smoothing: s(1.0 / 6.0),
        channel_view: ChannelView::Side,
        panel_height: s(300.0),
        slot: AbSlot::B,
        parked: Snapshot::default(),
    };
    assert_eq!(UiState::load("{..}", Some(state())), state());

    // A range the picker cannot produce comes back as the default rather
    // than leaving the display on an axis nothing selects.
    let odd = UiState {
        db_range: s(4.5),
        panel_height: s(10.0),
        ..UiState::default()
    };
    let loaded = UiState::load("{..}", Some(odd));
    assert_eq!(f(loaded.db_range), 18.0);
    assert_eq!(loaded.panel_height.bits, PANEL_MIN);
}

#[test]
fn the_view_state_opens_on_known_values() {
    let state = UiState::default();
    assert_eq!(f(state.db_range), 18.0);
    assert_eq!(f(state.spectrum_smoothing), 1.0 / 12.0);
    assert_eq!(state.analyzer_mode, AnalyzerMode::Both);
    assert_eq!(state.channel_view, ChannelView::All);
    assert_eq!(state.panel_height.bits, PANEL_DEFAULT);
    assert_eq!(f32::from_bits(PANEL_DEFAULT), 232.0);
    assert_eq!(f32::from_bits(PANEL_MIN), 176.0);
    assert_eq!(DB_RANGES.map(f32::from_bits), [6.0, 12.0, 18.0, 30.0]);
}

#[test]
fn a_band_is_only_drawn_in_a_view_that_contains_it() {
    let mut band = BandView {
        slot: 0,
        kind: BandKind::Bell,
        channel: BandChannel::Mid,
        freq: s(1000.0),
        gain: s(0.0),
        q: s(1.0),
        slope: Slope::S24,
        enabled: true,
        dynamic: false,
        dyn_mode: DynMode::Above,
        dyn_range: s(-6.0),
        threshold: s(-24.0),
        attack: s(20.0),
        release: s(200.0),
        resonance: s(0.0),
        res_mode: BandResMode::Adaptive,
        res_range: s(36.0),
        res_sens: s(0.0),
        res_width: s(1.0),
        res_attack: s(5.0),
        res_release: s(40.0),
    };
    assert!(band.in_view(ChannelView::All));
    assert!(band.in_view(ChannelView::Mid));
    assert!(!band.in_view(ChannelView::Side));
    assert!(!band.in_view(ChannelView::Left));

    // A stereo band acts on everything, so it is in every view.
    band.channel = BandChannel::Stereo;
    for view in ChannelView::ALL {
        assert!(band.in_view(view), "{view:?}");
    }
}

#[test]
fn slots_are_claimed_lowest_first() {
    let params = EquzxParams::default();
    assert_eq!(free_slot(&params), Some(0));
    assert!(read_bands(&params).is_empty());
}

#[test]
fn the_list_holds_the_active_slots_in_order() {
    let mut params = EquzxParams::default();
    for slot in [0, 1, 5] {
        params.write(Write::Band(slot, BandWrite::Active(true)));
    }
    let slots: Vec<usize> = read_bands(&params).iter().map(|b| b.slot).collect();
    assert_eq!(slots, [0, 1, 5]);
    assert_eq!(free_slot(&params), Some(2));
    for slot in 0..MAX_BANDS {
        params.write(Write::Band(slot, BandWrite::Active(true)));
    }
    assert_eq!(free_slot(&params), None);
    // A slot that does not exist is written nowhere.
    params.write(Write::Band(MAX_BANDS, BandWrite::Active(false)));
    assert_eq!(read_bands(&params).len(), MAX_BANDS);
}

#[test]
fn a_handle_sits_at_its_gain_or_on_the_line() {
    let mut params = EquzxParams::default();
    params.write(Write::Band(0, BandWrite::Active(true)));
    params.write(Write::Band(0, BandWrite::Float(BandFloat::Gain, s(4.5))));
    assert_eq!(f(read_bands(&params)[0].handle_db()), 4.5);
    assert!(read_bands(&params)[0].can_be_dynamic());
    params.write(Write::Band(0, BandWrite::Kind(BandKind::LowCut)));
    assert_eq!(f(read_bands(&params)[0].handle_db()), 0.0);
    assert!(!read_bands(&params)[0].can_be_dynamic());
    assert_eq!(read_bands(&params)[0].badge(), "");
    params.write(Write::Band(0, BandWrite::Channel(BandChannel::Side)));
    assert_eq!(read_bands(&params)[0].badge(), "S");
}

#[test]
fn the_pickers_are_labelled() {
    let modes: Vec<&str> = AnalyzerMode::ALL.iter().map(|m| m.label()).collect();
    assert_eq!(modes, ["Off", "Pre", "Post", "Pre + Post"]);
    assert!(AnalyzerMode::Both.draws_pre() && AnalyzerMode::Both.draws_post());
    assert!(!AnalyzerMode::Off.draws_pre() && !AnalyzerMode::Pre.draws_post());
    assert_eq!(AbSlot::A.other(), AbSlot::B);
    assert_eq!(AbSlot::B.other().label(), "A");
    for view in ChannelView::ALL {
        assert!(!view.label().is_empty());
    }
}

#[test]
fn every_float_parameter_has_the_range_it_says() {
    let band = [
        (BandFloat::Freq, 1000.0, 20.0, 22_000.0),
        (BandFloat::Gain, 0.0, -30.0, 30.0),
        (BandFloat::Q, 1.0, 0.025, 40.0),
        (BandFloat::DynRange, -6.0, -30.0, 30.0),
        (BandFloat::Threshold, -24.0, -70.0, 0.0),
        (BandFloat::Attack, 20.0, 1.0, 300.0),
        (BandFloat::Release, 200.0, 10.0, 2000.0),
        (BandFloat::Resonance, 0.0, 0.0, 100.0),
        (BandFloat::ResRange, 36.0, 0.0, 36.0),
        (BandFloat::ResSens, 0.0, -12.0, 12.0),
        (BandFloat::ResWidth, 1.0, 0.25, 2.0),
        (BandFloat::ResAttack, 5.0, 0.5, 100.0),
        (BandFloat::ResRelease, 40.0, 5.0, 1000.0),
    ];
    for (p, default, min, max) in band {
        let l = p.limits();
        assert_eq!((f(l.default), f(l.min), f(l.max)), (default, min, max), "{p:?}");
    }
    let stage = [
        (ResonanceFloat::Range, 36.0, 0.0, 36.0),
        (ResonanceFloat::Depth, 50.0, 0.0, 100.0),
        (ResonanceFloat::Sharpness, 50.0, 0.0, 100.0),
        (ResonanceFloat::Threshold, 6.0, -12.0, 24.0),
        (ResonanceFloat::Attack, 5.0, 0.5, 100.0),
        (ResonanceFloat::Release, 40.0, 5.0, 1000.0),
        (ResonanceFloat::Low, 20.0, 20.0, 2000.0),
        (ResonanceFloat::High, 20_000.0, 500.0, 20_000.0),
        (ResonanceFloat::Mix, 100.0, 0.0, 100.0),
    ];
    for (p, default, min, max) in stage {
        let l = p.limits();
        assert_eq!((f(l.default), f(l.min), f(l.max)), (default, min, max), "{p:?}");
    }
    let out = Limits::output_gain();
    assert_eq!((f(out.default), f(out.min), f(out.max)), (0.0, -24.0, 12.0));
}

#[test]
fn a_value_from_outside_is_fitted() {
    let gain = BandFloat::Gain.limits();
    assert_eq!(f(gain.fit(s(-99.0))), -30.0);
    assert_eq!(f(gain.fit(s(99.0))), 30.0);
    assert_eq!(f(gain.fit(s(3.25))), 3.25);
    assert_eq!(f(gain.fit(s(f32::NEG_INFINITY))), 0.0);
    assert_eq!(f(finite(s(f32::NAN), s(7.0))), 7.0);
    assert_eq!(f(finite(s(-0.5), s(7.0))), -0.5);
}

#[test]
fn single_precision_values_compare_as_their_bits_say() {
    let values = [
        f32::NEG_INFINITY, -3.5, -1e-40, -0.0, 0.0, 1e-40, 0.1, 2.0, f32::INFINITY, f32::NAN,
    ];
    for a in values {
        for b in values {
            assert_eq!(s(a).lt(s(b)), a < b, "{a} < {b}");
            assert_eq!(s(a).equals(s(b)), a == b, "{a} == {b}");
        }
        assert_eq!(s(a).is_finite(), a.is_finite());
        assert_eq!(s(a).is_nan(), a.is_nan());
    }
    assert_eq!(f(s(9.0).clamp(s(-1.0), s(4.0))), 4.0);
    assert_eq!(f(s(f32::NAN).max(s(4.0))), 4.0);
    assert_eq!(f(s(5.0).max(s(f32::NAN))), 5.0);
}

#[test]
fn the_stage_opens_switched_off_on_the_leanest_tier() {
    let params = EquzxParams::default();
    assert!(!params.resonance.enabled && !params.resonance.delta);
    assert_eq!(params.resonance.mode, ResMode::Adaptive);
    assert_eq!(params.resonance.quality, ResQuality::Ultra);
    assert!(!params.bypass && !params.phase_invert);
    let copy = params.clone();
    assert_eq!(copy.bands, params.bands);
    assert_eq!(copy.ui_state, params.ui_state);
}
