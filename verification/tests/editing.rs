use equzx::display::{Display, HandleInput, PlotInput, Point, Wheel};
use equzx::edit::{
    set_attack, set_band_resonance, set_bool, set_channel, set_dyn_mode, set_dyn_range,
    set_dynamic, set_enabled, set_enum, set_float, set_freq, set_gain, set_kind, set_q,
    set_release, set_slope, set_threshold, step_slope, BoolParam, Choice, FloatParam, Frame,
    SLOPES,
};
use equzx::host::{BandParam, HostCall, ParamId, ParamSetter};
use equzx::limits::{BandFloat, ResonanceFloat};
use equzx::params::{
    BandChannel, BandKind, BandParams, BandWrite, DynMode, EquzxParams, ResMode, ResonanceWrite,
    Slope, TransientState, Write, MAX_BANDS,
};
use equzx::recall::{
    add_band, apply_snapshot, capture, remove_band, reset_all, reset_band, write_resonance,
};
use equzx::single::Single;
use equzx::snapshot::{BandSnapshot, ResonanceSnapshot, Snapshot};
use equzx::state::{read_bands, ChannelView};

fn s(v: f32) -> Single {
    Single { bits: v.to_bits() }
}

fn f(v: Single) -> f32 {
    f32::from_bits(v.bits)
}

fn frame() -> Frame {
    Frame::new(EquzxParams::default(), TransientState::default())
}

/// The parameters once the host has heard everything a frame said.
fn heard(frame: Frame) -> EquzxParams {
    let mut params = frame.params;
    for call in frame.setter.into_calls() {
        if let HostCall::Change(write) = call {
            params.write(write);
        }
    }
    params
}

fn next(params: EquzxParams) -> Frame {
    Frame::new(params, TransientState::default())
}

#[test]
fn the_slope_list_matches_the_parameter() {
    for slope in SLOPES {
        assert_eq!(Slope::from_db_per_oct(slope.db_per_oct()), Some(slope));
    }
    // Steps run from shallowest to steepest, which is what makes the wheel
    // direction mean something.
    let steps: Vec<u32> = SLOPES.iter().map(|s| s.db_per_oct()).collect();
    assert_eq!(steps, vec![12, 24, 36, 48, 72, 96]);
}

#[test]
fn a_new_band_belongs_to_the_channel_it_was_drawn_in() {
    assert_eq!(ChannelView::All.new_band_channel(), BandChannel::Stereo);
    assert_eq!(ChannelView::Side.new_band_channel(), BandChannel::Side);
    assert_eq!(ChannelView::Left.new_band_channel(), BandChannel::Left);
}

#[test]
fn every_write_is_a_complete_gesture() {
    let mut setter = ParamSetter::new();
    set_float(&mut setter, FloatParam::OutputGain, s(-3.0));
    set_bool(&mut setter, BoolParam::Enabled(4), false);
    assert_eq!(
        setter.into_calls(),
        [
            HostCall::Begin(ParamId::OutputGain),
            HostCall::Change(Write::OutputGain(s(-3.0))),
            HostCall::End(ParamId::OutputGain),
            HostCall::Begin(ParamId::Band(4, BandParam::Enabled)),
            HostCall::Change(Write::Band(4, BandWrite::Enabled(false))),
            HostCall::End(ParamId::Band(4, BandParam::Enabled)),
        ]
    );
}

#[test]
fn a_value_that_is_not_finite_is_not_passed_on() {
    let mut setter = ParamSetter::new();
    set_float(&mut setter, FloatParam::OutputGain, s(f32::NAN));
    set_float(&mut setter, FloatParam::Resonance(ResonanceFloat::Mix), s(f32::INFINITY));
    assert!(setter.into_calls().is_empty());
}

#[test]
fn every_setter_reaches_its_own_parameter() {
    let mut frame = frame();
    set_freq(&mut frame, 2, s(300.0));
    set_gain(&mut frame, 2, s(-4.0));
    set_q(&mut frame, 2, s(2.5));
    set_dyn_range(&mut frame, 2, s(-9.0));
    set_threshold(&mut frame, 2, s(-40.0));
    set_attack(&mut frame, 2, s(12.0));
    set_release(&mut frame, 2, s(120.0));
    set_band_resonance(&mut frame, 2, s(30.0));
    set_enabled(&mut frame, 2, false);
    set_dynamic(&mut frame, 2, true);
    set_kind(&mut frame, 2, BandKind::HighShelf);
    set_channel(&mut frame, 2, BandChannel::Right);
    set_slope(&mut frame, 2, Slope::S72);
    set_dyn_mode(&mut frame, 2, DynMode::Below);
    set_enum(&mut frame.setter, Choice::ResMode(ResMode::Spectral));
    set_gain(&mut frame, MAX_BANDS, s(1.0));
    let params = heard(frame);
    let want = BandParams {
        freq: s(300.0),
        gain: s(-4.0),
        q: s(2.5),
        dyn_range: s(-9.0),
        threshold: s(-40.0),
        attack: s(12.0),
        release: s(120.0),
        resonance: s(30.0),
        enabled: false,
        dynamic: true,
        kind: BandKind::HighShelf,
        channel: BandChannel::Right,
        slope: Slope::S72,
        dyn_mode: DynMode::Below,
        ..BandParams::default()
    };
    assert_eq!(params.bands[2], want);
    assert_eq!(params.bands[3], BandParams::default());
    assert_eq!(params.resonance.mode, ResMode::Spectral);
}

#[test]
fn a_slope_steps_and_stops_at_either_end() {
    let mut frame = frame();
    assert!(frame.band(0).is_some() && frame.band(MAX_BANDS).is_none());
    step_slope(&mut frame, 0, 1);
    step_slope(&mut frame, 1, -1);
    step_slope(&mut frame, 2, -7);
    step_slope(&mut frame, 3, 40);
    step_slope(&mut frame, MAX_BANDS, 1);
    let params = heard(frame);
    assert_eq!(params.bands[0].slope, Slope::S36);
    assert_eq!(params.bands[1].slope, Slope::S12);
    assert_eq!(params.bands[2].slope, Slope::S12);
    assert_eq!(params.bands[3].slope, Slope::S96);
}

#[test]
fn adding_a_band_claims_the_lowest_free_slot_and_starts_it_clean() {
    let mut params = EquzxParams::default();
    params.write(Write::Band(0, BandWrite::Active(true)));
    // What the slot held before does not show through.
    params.write(Write::Band(1, BandWrite::Float(BandFloat::Q, s(9.0))));
    let before = params.bands[0];
    let mut frame = next(params);
    assert_eq!(add_band(&mut frame, s(440.0), s(3.0), ChannelView::Mid), Some(1));
    let params = heard(frame);
    assert_eq!(params.bands[0], before);
    assert_eq!(
        params.bands[1],
        BandParams {
            active: true,
            freq: s(440.0),
            gain: s(3.0),
            channel: BandChannel::Mid,
            ..BandParams::default()
        }
    );

    let mut full = EquzxParams::default();
    for slot in 0..MAX_BANDS {
        full.write(Write::Band(slot, BandWrite::Active(true)));
    }
    let mut frame = next(full);
    assert_eq!(add_band(&mut frame, s(440.0), s(3.0), ChannelView::All), None);
    assert!(frame.setter.into_calls().is_empty());
}

#[test]
fn removing_a_band_frees_its_slot_and_its_solo() {
    let mut params = EquzxParams::default();
    params.write(Write::Band(3, BandWrite::Active(true)));
    let mut frame = next(params);
    frame.transient.set_solo(Some(3));
    assert_eq!(frame.transient.solo(), Some(3));
    remove_band(&mut frame, 3);
    assert_eq!(frame.transient.solo(), None);
    let params = heard(frame);
    assert!(!params.bands[3].active);

    let mut frame = next(params);
    frame.transient.set_solo(Some(5));
    remove_band(&mut frame, 3);
    assert_eq!(frame.transient.solo(), Some(5));
}

#[test]
fn the_solo_button_undoes_itself() {
    let mut t = TransientState::default();
    t.toggle_solo(7);
    assert_eq!(t.solo(), Some(7));
    t.toggle_solo(2);
    assert_eq!(t.solo(), Some(2));
    t.toggle_solo(2);
    assert_eq!(t.solo(), None);
    t.set_solo(Some(MAX_BANDS));
    assert_eq!(t.solo(), None);
}

fn a_scene() -> Snapshot {
    Snapshot {
        output_gain: s(-6.0),
        bands: vec![
            BandSnapshot {
                kind: BandKind::LowCut,
                freq: s(80.0),
                slope: Slope::S48,
                ..BandSnapshot::default()
            },
            BandSnapshot {
                gain: s(5.5),
                dynamic: true,
                res_width: s(0.5),
                ..BandSnapshot::default()
            },
        ],
        resonance: ResonanceSnapshot {
            enabled: true,
            range: s(12.0),
            mode: ResMode::Spectral,
            ..ResonanceSnapshot::default()
        },
    }
}

#[test]
fn a_recall_reads_back_and_leaves_nothing_behind() {
    let mut params = EquzxParams::default();
    for slot in 0..5 {
        params.write(Write::Band(slot, BandWrite::Active(true)));
        params.write(Write::Band(slot, BandWrite::Float(BandFloat::Q, s(7.0))));
    }
    params.write(Write::Resonance(ResonanceWrite::Delta(true)));
    params.write(Write::Bypass(true));
    let mut frame = next(params);
    apply_snapshot(&mut frame, &a_scene());
    assert!(frame.transient.flush);
    assert_eq!(frame.transient.solo(), None);
    let params = heard(frame);
    assert_eq!(capture(&params), a_scene());
    assert!(!params.bands[2].active);
    assert_eq!(f(params.bands[0].q), 1.0);
    // Ways of listening survive a recall.
    assert!(params.resonance.delta);
    assert!(params.bypass);
}

#[test]
fn a_recall_fits_what_it_is_given() {
    let mut scene = a_scene();
    scene.output_gain = s(99.0);
    scene.bands[1].gain = s(f32::NAN);
    scene.bands = scene.bands.iter().copied().cycle().take(30).collect();
    let mut frame = frame();
    apply_snapshot(&mut frame, &scene);
    let params = heard(frame);
    assert_eq!(f(params.output_gain), 12.0);
    assert_eq!(f(params.bands[1].gain), 0.0);
    assert_eq!(read_bands(&params).len(), MAX_BANDS);
}

#[test]
fn a_reset_leaves_everything_flat() {
    let mut frame = frame();
    apply_snapshot(&mut frame, &a_scene());
    let mut params = heard(frame);
    params.write(Write::Bypass(true));
    let mut frame = next(params);
    reset_all(&mut frame);
    let params = heard(frame);
    assert!(capture(&params).is_empty());
    assert_eq!(capture(&params), Snapshot::default());
    assert!(!params.bypass);
}

#[test]
fn resetting_a_band_keeps_its_slot() {
    let mut params = EquzxParams::default();
    params.write(Write::Band(1, BandWrite::Active(true)));
    params.write(Write::Band(1, BandWrite::Float(BandFloat::ResWidth, s(2.0))));
    params.write(Write::Band(1, BandWrite::Kind(BandKind::Notch)));
    let mut frame = next(params);
    reset_band(&mut frame.setter, 1);
    let params = heard(frame);
    assert_eq!(
        params.bands[1],
        BandParams {
            active: true,
            ..BandParams::default()
        }
    );
}

#[test]
fn a_stage_is_written_whole() {
    let mut frame = frame();
    let want = ResonanceSnapshot {
        high: s(9000.0),
        mix: s(40.0),
        ..a_scene().resonance
    };
    write_resonance(&mut frame.setter, &want);
    let params = heard(frame);
    assert_eq!(ResonanceSnapshot::capture(&params.resonance), want);
}

// --- the plot --------------------------------------------------------------

fn still() -> HandleInput {
    HandleInput {
        left_grip: None,
        right_grip: None,
        hovered: false,
        clicked: false,
        double_clicked: false,
        audition_started: false,
        swept_to: None,
        dragged_to: None,
        q_up: s(2.0),
        q_down: s(0.5),
    }
}

fn idle(handles: usize) -> PlotInput {
    PlotInput {
        pressed: None,
        dragged: None,
        released: true,
        alt: false,
        handles: vec![still(); handles],
        secondary_down: false,
        background_hovered: false,
        wheel: Wheel::Still,
    }
}

fn with_bands(kinds: &[BandKind]) -> EquzxParams {
    let mut params = EquzxParams::default();
    for (slot, kind) in kinds.iter().enumerate() {
        params.write(Write::Band(slot, BandWrite::Active(true)));
        params.write(Write::Band(slot, BandWrite::Kind(*kind)));
    }
    params
}

#[test]
fn only_the_resonant_types_offer_a_q() {
    for kind in [BandKind::Bell, BandKind::Notch, BandKind::BandPass] {
        assert!(kind.uses_q(), "{kind:?}");
    }
    for kind in [
        BandKind::LowCut,
        BandKind::HighCut,
        BandKind::LowShelf,
        BandKind::HighShelf,
    ] {
        assert!(!kind.uses_q(), "{kind:?}");
    }
}

#[test]
fn a_press_draws_a_band_that_follows_the_pointer() {
    let mut display = Display::new();
    let mut selected = None;
    let at = |freq: f32, db: f32| {
        Some(Point {
            freq: s(freq),
            db: s(db),
        })
    };

    let mut frame = frame();
    let press = PlotInput {
        pressed: at(500.0, 2.0),
        released: false,
        ..idle(0)
    };
    display.interact(&mut frame, &press, &vec![], ChannelView::Side, &mut selected);
    assert_eq!(selected, Some(0));
    let params = heard(frame);
    assert_eq!(params.bands[0].channel, BandChannel::Side);
    assert_eq!(f(params.bands[0].freq), 500.0);

    let bands = read_bands(&params);
    let mut frame = next(params);
    let drag = PlotInput {
        dragged: at(800.0, -3.0),
        released: false,
        ..idle(1)
    };
    display.interact(&mut frame, &drag, &bands, ChannelView::Side, &mut selected);
    let params = heard(frame);
    assert_eq!((f(params.bands[0].freq), f(params.bands[0].gain)), (800.0, -3.0));

    // Once released, a drag moves nothing.
    let bands = read_bands(&params);
    let mut frame = next(params);
    display.interact(&mut frame, &idle(1), &bands, ChannelView::Side, &mut selected);
    let stray = PlotInput {
        dragged: at(100.0, 0.0),
        ..idle(1)
    };
    display.interact(&mut frame, &stray, &bands, ChannelView::Side, &mut selected);
    assert!(frame.setter.into_calls().is_empty());
}

#[test]
fn an_audition_gives_back_the_solo() {
    let params = with_bands(&[BandKind::Bell, BandKind::Bell]);
    let bands = read_bands(&params);
    let mut display = Display::new();
    let mut selected = None;
    let mut frame = next(params);
    frame.transient.set_solo(Some(0));

    let mut input = idle(2);
    input.secondary_down = true;
    input.handles[1].audition_started = true;
    input.handles[1].swept_to = Some(s(2000.0));
    display.interact(&mut frame, &input, &bands, ChannelView::All, &mut selected);
    assert_eq!(frame.transient.solo(), Some(1));
    assert_eq!(selected, Some(1));

    let mut input = idle(2);
    input.secondary_down = true;
    display.interact(&mut frame, &input, &bands, ChannelView::All, &mut selected);
    assert_eq!(frame.transient.solo(), Some(1));

    display.interact(&mut frame, &idle(2), &bands, ChannelView::All, &mut selected);
    assert_eq!(frame.transient.solo(), Some(0));
    assert_eq!(f(heard(frame).bands[1].freq), 2000.0);
}

#[test]
fn the_wheel_turns_what_the_band_has() {
    let params = with_bands(&[BandKind::LowCut, BandKind::Bell, BandKind::LowShelf]);
    let bands = read_bands(&params);
    let mut display = Display::new();
    let mut selected = None;
    let mut frame = next(params);
    for slot in 0..3 {
        let mut input = idle(3);
        input.wheel = Wheel::Up;
        input.handles[slot].hovered = true;
        display.interact(&mut frame, &input, &bands, ChannelView::All, &mut selected);
        assert_eq!(display.hovered(), Some(slot));
    }
    // Nothing is turned while the pointer is elsewhere.
    let mut away = idle(3);
    away.wheel = Wheel::Down;
    selected = Some(1);
    display.interact(&mut frame, &away, &bands, ChannelView::All, &mut selected);
    let params = heard(frame);
    assert_eq!(params.bands[0].slope, Slope::S12);
    assert_eq!(f(params.bands[1].q), 2.0);
    assert_eq!(f(params.bands[2].q), 1.0);
}

#[test]
fn a_handle_is_dragged_gripped_and_taken_away() {
    let params = with_bands(&[BandKind::Bell, BandKind::HighCut]);
    let bands = read_bands(&params);
    let mut display = Display::new();
    let mut selected = Some(0);
    let mut frame = next(params);
    frame.transient.set_solo(Some(1));
    let to = Some(Point {
        freq: s(60.0),
        db: s(9.0),
    });

    let mut input = idle(2);
    input.handles[0].left_grip = Some(s(500.0));
    input.handles[0].dragged_to = to;
    input.handles[1].dragged_to = to;
    display.interact(&mut frame, &input, &bands, ChannelView::All, &mut selected);
    // Alt pins the gain.
    let mut input = idle(2);
    input.alt = true;
    input.handles[0].dragged_to = Some(Point {
        freq: s(70.0),
        db: s(-9.0),
    });
    display.interact(&mut frame, &input, &bands, ChannelView::All, &mut selected);
    let mut input = idle(2);
    input.handles[1].clicked = true;
    input.handles[1].double_clicked = true;
    display.interact(&mut frame, &input, &bands, ChannelView::All, &mut selected);
    assert_eq!(selected, None);
    assert_eq!(frame.transient.solo(), None);

    let params = heard(frame);
    assert_eq!(f(params.bands[0].q), 40.0);
    assert_eq!((f(params.bands[0].freq), f(params.bands[0].gain)), (70.0, 9.0));
    assert_eq!((f(params.bands[1].freq), f(params.bands[1].gain)), (60.0, 0.0));
    assert!(!params.bands[1].active);
}
