use equzx::chrome::{
    armed, dyn_fill, kind_fill, lit, segment_is_dark, slope_fill, solo_fill, Fill,
};
use equzx::edit::Frame;
use equzx::editor::{
    keyboard, Keys, Session, DEFAULT_HEIGHT, DEFAULT_WIDTH, MIN_HEIGHT, MIN_WIDTH,
};
use equzx::header::{
    copy_button, preset_menu, show as show_header, swap_slots, HeaderInput, HeaderState,
    PresetEvent,
};
use equzx::host::HostCall;
use equzx::knob::{Knob, KnobInput};
use equzx::menu::{
    current, dropdown, item, popup, spaced, spread_out, Align, Plate, PopupInput,
};
use equzx::overlay::{analyzer, OverlayInput, SMOOTHING};
use equzx::params::{
    BandChannel, BandKind, BandWrite, DynMode, EquzxParams, ResonanceWrite, Slope,
    TransientState, Write, MAX_BANDS,
};
use equzx::recall::capture;
use equzx::single::Single;
use equzx::snapshot::{BandSnapshot, Snapshot};
use equzx::state::{read_bands, AbSlot, AnalyzerMode, BandView, ChannelView, UiState, PANEL_MIN};
use equzx::strip::{
    chip, chips, dyn_meter, dynamics_row, resizer, show as show_strip, DynamicsInput, FilterInput,
    StripInput, CHANNELS, KINDS, KIND_LABELS, METER_MIN,
};
use equzx::suppressor::{pair, readout, Reduction, ResonanceInput, QUIET};
use equzx::theme::{band_color, white, Color, MOCHI};

fn s(v: f32) -> Single {
    Single { bits: v.to_bits() }
}

fn f(v: Single) -> f32 {
    f32::from_bits(v.bits)
}

fn next(params: EquzxParams) -> Frame {
    Frame::new(params, TransientState::default())
}

fn heard(frame: Frame) -> EquzxParams {
    let mut params = frame.params;
    for call in frame.setter.into_calls() {
        if let HostCall::Change(write) = call {
            params.write(write);
        }
    }
    params
}

fn with_bands(kinds: &[BandKind]) -> EquzxParams {
    let mut params = EquzxParams::default();
    for (slot, kind) in kinds.iter().enumerate() {
        params.write(Write::Band(slot, BandWrite::Active(true)));
        params.write(Write::Band(slot, BandWrite::Kind(*kind)));
    }
    params
}

// --- the band strip ----------------------------------------------------------

#[test]
fn every_filter_kind_has_a_button_and_a_name() {
    assert_eq!(KINDS.len(), KIND_LABELS.len());
    // The seven the parameter can hold, in the order the row draws them.
    for kind in [
        BandKind::LowCut,
        BandKind::LowShelf,
        BandKind::Bell,
        BandKind::Notch,
        BandKind::BandPass,
        BandKind::HighShelf,
        BandKind::HighCut,
    ] {
        assert!(KINDS.contains(&kind), "{kind:?} has no button");
    }
    assert_eq!(BandKind::BandPass.label(), "Band Pass");
}

#[test]
fn every_channel_has_a_badge() {
    assert_eq!(CHANNELS.len(), 5);
    for (channel, short, _) in CHANNELS {
        assert!(!short.is_empty(), "{channel:?}");
        assert_eq!(CHANNELS[channel.position()].0, channel);
    }
}

fn no_filter() -> FilterInput {
    FilterInput {
        kind: None,
        freq: None,
        gain: None,
        q: None,
        resonance: None,
        slope: None,
        channel: None,
        delete: false,
        solo: false,
        enable: false,
    }
}

fn no_dynamics() -> DynamicsInput {
    DynamicsInput {
        switch: false,
        mode: None,
        range: None,
        threshold: None,
        attack: None,
        release: None,
    }
}

#[test]
fn the_strip_edits_the_band_it_shows() {
    let params = with_bands(&[BandKind::Bell, BandKind::LowCut]);
    let bands = read_bands(&params);
    let mut frame = next(params);
    let mut selected = None;
    let every = FilterInput {
        freq: Some(s(200.0)),
        gain: Some(s(6.0)),
        q: Some(s(3.0)),
        resonance: Some(s(20.0)),
        slope: Some(Slope::S96),
        channel: Some(BandChannel::Side),
        enable: true,
        ..no_filter()
    };
    // Nothing selected: nothing shown, nothing written.
    let input = StripInput {
        chip: None,
        filter: every,
        dynamics: no_dynamics(),
    };
    assert_eq!(show_strip(&mut frame, &bands, &input, &mut selected), None);

    // A chip selects, and the rows then act on that band.
    let input = StripInput {
        chip: Some(1),
        ..input
    };
    assert_eq!(show_strip(&mut frame, &bands, &input, &mut selected), Some(1));
    assert_eq!(selected, Some(1));
    let params = heard(frame);
    let cut = params.bands[1];
    assert_eq!(params.bands[0], with_bands(&[BandKind::Bell]).bands[0]);
    assert_eq!(f(cut.freq), 200.0);
    // A cut has no gain and no Q to turn, but it has a slope.
    assert_eq!((f(cut.gain), f(cut.q), cut.slope), (0.0, 1.0, Slope::S96));
    assert_eq!((f(cut.resonance), cut.channel, cut.enabled), (20.0, BandChannel::Side, false));

    let bands = read_bands(&params);
    let mut frame = next(params);
    let input = StripInput {
        chip: Some(0),
        filter: every,
        dynamics: no_dynamics(),
    };
    show_strip(&mut frame, &bands, &input, &mut selected);
    let bell = heard(frame).bands[0];
    assert_eq!((f(bell.gain), f(bell.q), bell.slope), (6.0, 3.0, Slope::S24));
}

#[test]
fn deleting_from_the_strip_deselects_and_unsolos() {
    let params = with_bands(&[BandKind::Notch]);
    let bands = read_bands(&params);
    let mut frame = next(params);
    frame.transient.set_solo(Some(0));
    let mut selected = Some(0);
    let input = StripInput {
        chip: None,
        filter: FilterInput {
            delete: true,
            ..no_filter()
        },
        dynamics: no_dynamics(),
    };
    assert_eq!(show_strip(&mut frame, &bands, &input, &mut selected), Some(0));
    assert_eq!(selected, None);
    assert_eq!(frame.transient.solo(), None);
    assert!(!heard(frame).bands[0].active);
}

#[test]
fn the_dynamics_row_is_inert_until_it_is_armed() {
    let params = with_bands(&[BandKind::Bell, BandKind::Notch]);
    let bands = read_bands(&params);
    let all = DynamicsInput {
        switch: true,
        mode: Some(DynMode::Below),
        range: Some(s(-12.0)),
        threshold: Some(s(-30.0)),
        attack: Some(s(5.0)),
        release: Some(s(50.0)),
    };
    let mut frame = next(params);
    assert_eq!(
        dynamics_row(&mut frame, &bands[0], &all),
        Some("Off — the band holds the gain it is drawn at")
    );
    assert_eq!(
        dynamics_row(&mut frame, &bands[1], &all),
        Some("Only a bell or a shelf has a gain to move")
    );
    let params = heard(frame);
    assert!(params.bands[0].dynamic && !params.bands[1].dynamic);
    assert_eq!(f(params.bands[0].dyn_range), -6.0);

    let bands = read_bands(&params);
    let mut frame = next(params);
    assert_eq!(dynamics_row(&mut frame, &bands[0], &all), None);
    let band = heard(frame).bands[0];
    assert!(!band.dynamic);
    assert_eq!(band.dyn_mode, DynMode::Below);
    assert_eq!(f(band.dyn_range), -12.0);
    assert_eq!(f(band.threshold), -30.0);
    assert_eq!((f(band.attack), f(band.release)), (5.0, 50.0));
}

#[test]
fn chips_are_numbered_and_counted() {
    let mut params = with_bands(&[BandKind::Bell, BandKind::HighCut]);
    params.write(Write::Band(0, BandWrite::Dynamic(true)));
    params.write(Write::Band(1, BandWrite::Dynamic(true)));
    params.write(Write::Band(1, BandWrite::Channel(BandChannel::Mid)));
    let bands = read_bands(&params);
    let first = chip(&bands[0], 0, Some(0));
    assert_eq!((first.number, first.active, first.dynamic), (1, true, true));
    assert_eq!((first.badge, first.label, first.channel), ("", "Bell", None));
    let second = chip(&bands[1], 1, Some(0));
    assert_eq!((second.number, second.active, second.dynamic), (2, false, false));
    assert_eq!(
        (second.badge, second.label, second.channel),
        ("M", "High Cut", Some("mid"))
    );

    let mut selected = None;
    let count = chips(&bands, Some(1), &mut selected);
    assert_eq!((count.used, count.full, selected), (2, false, Some(1)));
    let full = vec![bands[0]; MAX_BANDS];
    assert!(chips(&full, None, &mut selected).full);
}

#[test]
fn a_band_nothing_was_read_for_has_an_empty_meter() {
    let bands = read_bands(&with_bands(&[BandKind::Bell]));
    let meter = dyn_meter(&vec![], &vec![], &bands[0]);
    assert_eq!((f(meter.level), f(meter.delta)), (-70.0, 0.0));
    assert_eq!(meter.level.bits, METER_MIN);
    let meter = dyn_meter(&vec![s(-12.0)], &vec![s(-3.0)], &bands[0]);
    assert_eq!((f(meter.level), f(meter.delta)), (-12.0, -3.0));
    assert_eq!(meter.engages, "engages above threshold");
}

#[test]
fn the_panel_is_resized_within_its_limits() {
    assert_eq!(f(resizer(s(232.0), Some(s(300.0)), false, s(500.0))), 300.0);
    assert_eq!(f(resizer(s(232.0), Some(s(900.0)), false, s(500.0))), 500.0);
    assert_eq!(f(resizer(s(232.0), Some(s(9.0)), false, s(500.0))), 176.0);
    assert_eq!(f(resizer(s(400.0), None, true, s(500.0))), 232.0);
    assert_eq!(f(resizer(s(400.0), None, true, s(200.0))), 200.0);
    assert_eq!(resizer(s(400.0), None, true, s(f32::NAN)).bits, PANEL_MIN);
    assert_eq!(f(resizer(s(400.0), None, false, s(100.0))), 400.0);
}

#[test]
fn buttons_are_filled_by_what_they_stand_for() {
    let bands = read_bands(&with_bands(&[BandKind::Bell, BandKind::LowCut]));
    let pink = band_color(1);
    assert_eq!(kind_fill(&bands[0], BandKind::Bell), Fill::Lit);
    assert_eq!(kind_fill(&bands[0], BandKind::Notch), Fill::Quiet);
    assert_eq!(slope_fill(&bands[0], Slope::S24, pink), Fill::Bare);
    assert_eq!(slope_fill(&bands[1], Slope::S24, pink), Fill::Solid(pink));
    assert_eq!(slope_fill(&bands[1], Slope::S96, pink), Fill::Quiet);
    assert_eq!(dyn_fill(&bands[1], pink), Fill::Bare);
    let on = BandView {
        dynamic: true,
        ..bands[0]
    };
    assert_eq!(dyn_fill(&on, pink), Fill::Solid(pink));
    assert_eq!(solo_fill(Some(3), 3), Fill::Solid(Color::opaque(MOCHI)));
    assert_eq!(solo_fill(Some(3), 2), Fill::Quiet);
    assert_eq!((lit(true), armed(true), armed(false)), (Fill::Lit, Fill::Armed, Fill::Quiet));
    assert!(segment_is_dark(1, 1, pink) && !segment_is_dark(0, 1, pink));
    assert!(!segment_is_dark(1, 1, white(38)));
}

#[test]
fn bands_take_their_colours_in_turn() {
    assert_eq!(
        band_color(0),
        Color {
            r: 0xff,
            g: 0xe1,
            b: 0xee,
            a: 255
        }
    );
    assert_eq!(band_color(12), band_color(0));
    assert_ne!(band_color(11), band_color(12));
    assert_eq!(
        white(64),
        Color {
            r: 64,
            g: 64,
            b: 64,
            a: 64
        }
    );
}

// --- the suppressor ----------------------------------------------------------

fn no_resonance() -> ResonanceInput {
    ResonanceInput {
        switch: false,
        depth: None,
        sharpness: None,
        threshold: None,
        mix: None,
        attack: None,
        release: None,
        low: None,
        high: None,
        listen: false,
    }
}

#[test]
fn only_the_switch_works_while_the_stage_is_off() {
    let all = ResonanceInput {
        switch: true,
        depth: Some(s(80.0)),
        sharpness: Some(s(70.0)),
        threshold: Some(s(3.0)),
        mix: Some(s(60.0)),
        attack: Some(s(9.0)),
        release: Some(s(90.0)),
        low: Some(s(100.0)),
        high: Some(s(9000.0)),
        listen: true,
    };
    let mut frame = next(EquzxParams::default());
    assert_eq!(pair(&mut frame, &all, s(6.0)), Reduction::Off);
    let params = heard(frame);
    assert!(params.resonance.enabled && !params.resonance.delta);
    assert_eq!(f(params.resonance.depth), 50.0);

    let mut frame = next(params);
    assert_eq!(pair(&mut frame, &all, s(6.0)), Reduction::Deep(s(6.0)));
    let stage = heard(frame).resonance;
    assert!(!stage.enabled && stage.delta);
    assert_eq!((f(stage.depth), f(stage.sharpness), f(stage.mix)), (80.0, 70.0, 60.0));
    assert_eq!((f(stage.threshold), f(stage.attack), f(stage.release)), (3.0, 9.0, 90.0));
    assert_eq!((f(stage.low), f(stage.high)), (100.0, 9000.0));
}

#[test]
fn the_switch_reads_the_deepest_cut() {
    assert_eq!(f32::from_bits(QUIET), 0.05);
    assert_eq!(readout(true, s(0.05)), Reduction::Idle);
    assert_eq!(readout(true, s(0.06)), Reduction::Deep(s(0.06)));
    assert_eq!(readout(true, s(f32::NAN)), Reduction::Idle);
    assert_eq!(readout(false, s(9.0)), Reduction::Off);
}

// --- the overlay -------------------------------------------------------------

#[test]
fn the_overlay_acts_on_the_selected_band_and_on_the_view() {
    let smoothing: Vec<f32> = SMOOTHING.iter().map(|(v, _)| f32::from_bits(*v)).collect();
    assert_eq!(smoothing, [0.0, 1.0 / 24.0, 1.0 / 12.0, 1.0 / 6.0, 1.0 / 3.0]);

    let params = with_bands(&[BandKind::Bell]);
    let bands = read_bands(&params);
    let input = OverlayInput {
        phase: true,
        enable: true,
        solo: true,
        delete: false,
        mode: Some(AnalyzerMode::Pre),
        smoothing: Some(4),
    };
    let mut ui = UiState::default();
    let mut selected = Some(0);
    let mut frame = next(params);
    assert!(analyzer(&mut frame, &mut ui, &bands, &input, &mut selected));
    assert_eq!(ui.analyzer_mode, AnalyzerMode::Pre);
    assert_eq!(f(ui.spectrum_smoothing), 1.0 / 3.0);
    assert_eq!(frame.transient.solo(), Some(0));
    let params = heard(frame);
    assert!(params.phase_invert && !params.bands[0].enabled);

    let bands = read_bands(&params);
    let mut frame = next(params);
    frame.transient.set_solo(Some(0));
    let input = OverlayInput {
        phase: true,
        enable: false,
        solo: false,
        delete: true,
        mode: None,
        smoothing: None,
    };
    assert!(analyzer(&mut frame, &mut ui, &bands, &input, &mut selected));
    assert_eq!((selected, frame.transient.solo()), (None, None));
    // With nothing selected, only the polarity button is left.
    assert!(!analyzer(&mut frame, &mut ui, &bands, &input, &mut selected));
    let params = heard(frame);
    assert!(!params.bands[0].active && !params.phase_invert);
}

// --- the header --------------------------------------------------------------

fn no_header() -> HeaderInput {
    HeaderInput {
        cell: None,
        copy: false,
        reset: false,
        bypass: false,
        resonance: no_resonance(),
        output: None,
        range: None,
        view: None,
    }
}

fn a_snapshot() -> Snapshot {
    Snapshot {
        output_gain: s(-4.0),
        bands: vec![BandSnapshot {
            kind: BandKind::HighShelf,
            gain: s(2.0),
            ..BandSnapshot::default()
        }],
        ..Snapshot::default()
    }
}

#[test]
fn swapping_twice_gives_everything_back() {
    let params = with_bands(&[BandKind::Notch, BandKind::Bell]);
    let sound = capture(&params);
    let mut ui = UiState {
        parked: a_snapshot(),
        ..UiState::default()
    };
    let mut frame = next(params);
    swap_slots(&mut frame, &mut ui);
    assert_eq!(ui.slot, AbSlot::B);
    assert_eq!(ui.parked, sound);
    let params = heard(frame);
    assert_eq!(capture(&params), a_snapshot());

    let mut frame = next(params);
    swap_slots(&mut frame, &mut ui);
    assert_eq!(ui.slot, AbSlot::A);
    assert_eq!(ui.parked, a_snapshot());
    assert_eq!(capture(&heard(frame)), sound);
}

#[test]
fn the_header_does_what_was_clicked() {
    let mut state = HeaderState::default();
    let mut ui = UiState {
        parked: a_snapshot(),
        ..UiState::default()
    };
    // The cell of the live slot does nothing.
    let mut frame = next(EquzxParams::default());
    let input = HeaderInput {
        cell: Some(0),
        bypass: true,
        output: Some(s(-6.0)),
        range: Some(3),
        view: Some(ChannelView::Mid),
        ..no_header()
    };
    let out = show_header(&mut frame, &mut state, &mut ui, &input, None, s(0.0));
    assert!(!out.close);
    assert_eq!(out.reduction, Reduction::Off);
    assert_eq!(ui.slot, AbSlot::A);
    assert_eq!((f(ui.db_range), ui.channel_view), (30.0, ChannelView::Mid));
    let params = heard(frame);
    assert!(params.bypass);
    assert_eq!(f(params.output_gain), -6.0);

    // The other cell swaps.
    let mut frame = next(params);
    let input = HeaderInput {
        cell: Some(1),
        ..no_header()
    };
    show_header(&mut frame, &mut state, &mut ui, &input, None, s(0.0));
    assert_eq!(ui.slot, AbSlot::B);
    assert!(frame.transient.flush);
    let params = heard(frame);
    assert_eq!(capture(&params), a_snapshot());

    // Copying parks what is live; resetting flattens it.
    let mut frame = next(params);
    let input = HeaderInput {
        copy: true,
        reset: true,
        ..no_header()
    };
    show_header(&mut frame, &mut state, &mut ui, &input, None, s(0.0));
    assert_eq!(ui.parked, a_snapshot());
    let params = heard(frame);
    assert!(capture(&params).is_empty() && !params.bypass);
    assert_eq!(copy_button(AbSlot::A), ("A", "B"));
    assert_eq!(copy_button(AbSlot::B), ("B", "A"));
}

#[test]
fn the_preset_menu_keeps_its_own_account() {
    let mut state = HeaderState::default();
    assert!(state.begin(false));
    assert!(!state.begin(false));
    assert_eq!((state.shown().as_str(), state.heading()), ("Init", "No presets yet"));
    state.refresh(vec!["Air".to_owned(), "Bus".to_owned()]);
    assert_eq!(state.heading(), "Saved");

    // A row that loads names the state and closes the menu.
    let mut frame = next(EquzxParams::default());
    let found = PresetEvent::Chosen {
        index: 1,
        found: Some(a_snapshot()),
    };
    assert!(preset_menu(&mut frame, &mut state, found));
    assert_eq!(state.shown(), "Bus");
    let params = heard(frame);
    assert_eq!(capture(&params), a_snapshot());

    // One that does not says so, and changes nothing.
    let mut frame = next(params);
    let lost = PresetEvent::Chosen {
        index: 0,
        found: None,
    };
    assert!(!preset_menu(&mut frame, &mut state, lost));
    assert_eq!((state.shown().as_str(), state.current.as_str()), ("Not found", "Bus"));
    state.begin(true);
    assert_eq!(state.shown(), "Bus");

    // What was typed wins over the name that is up.
    assert_eq!(state.save_name().as_deref(), Some("Bus"));
    state.draft = "  Drums ".to_owned();
    assert_eq!(state.save_name().as_deref(), Some("Drums"));
    let saved = |written| PresetEvent::Saved {
        name: "Drums".to_owned(),
        written,
        now: vec!["Drums".to_owned()],
    };
    preset_menu(&mut frame, &mut state, saved(false));
    assert_eq!((state.shown().as_str(), state.draft.as_str()), ("Could not save", "  Drums "));
    preset_menu(&mut frame, &mut state, saved(true));
    assert_eq!((state.shown().as_str(), state.draft.as_str()), ("Saved", ""));
    assert_eq!((state.current.as_str(), state.presets.len()), ("Drums", 1));

    // Deleting what is up leaves the state without a name.
    let deleted = PresetEvent::Deleted {
        index: 0,
        left: vec![],
    };
    preset_menu(&mut frame, &mut state, deleted);
    assert_eq!((state.shown().as_str(), state.current.as_str()), ("Deleted", ""));
    assert_eq!(state.save_name(), None);
    preset_menu(&mut frame, &mut state, PresetEvent::Unnamed);
    assert_eq!(state.shown(), "Name it first");
    let now = vec!["Air".to_owned()];
    preset_menu(&mut frame, &mut state, PresetEvent::Reloaded { now });
    assert_eq!(state.shown(), "Reloaded");
    assert!(preset_menu(&mut frame, &mut state, PresetEvent::Opened));
    assert!(frame.setter.into_calls().is_empty());
}

// --- the keyboard and the session --------------------------------------------

#[test]
fn the_default_window_is_within_its_own_limits() {
    assert!(DEFAULT_WIDTH as f32 >= MIN_WIDTH as f32);
    assert!(DEFAULT_HEIGHT as f32 >= MIN_HEIGHT as f32);
}

#[test]
fn an_editor_state_persists_the_size_it_was_built_with() {
    let state = nih_plug_egui::EguiState::from_size(DEFAULT_WIDTH, DEFAULT_HEIGHT);
    assert_eq!(state.size(), (DEFAULT_WIDTH, DEFAULT_HEIGHT));
    assert!(!state.is_open());
}

fn no_keys() -> Keys {
    Keys {
        typing: false,
        b: false,
        escape: false,
        delete: false,
        backspace: false,
        x: false,
        tab: false,
    }
}

#[test]
fn tab_goes_round_the_bands() {
    let params = with_bands(&[BandKind::Bell, BandKind::Bell, BandKind::Bell]);
    let bands = read_bands(&params);
    let mut frame = next(params);
    let mut ui = UiState::default();
    let mut selected = None;
    let tab = Keys {
        tab: true,
        ..no_keys()
    };
    let mut visited = vec![];
    for _ in 0..4 {
        keyboard(&mut frame, &mut ui, &mut selected, &bands, tab);
        visited.push(selected);
    }
    assert_eq!(visited, [Some(0), Some(1), Some(2), Some(0)]);
    keyboard(&mut frame, &mut ui, &mut selected, &vec![], tab);
    assert_eq!(selected, Some(0));
}

#[test]
fn the_shortcuts_do_what_they_say() {
    let params = with_bands(&[BandKind::Bell]);
    let bands = read_bands(&params);
    let mut ui = UiState {
        parked: a_snapshot(),
        ..UiState::default()
    };
    let mut selected = Some(0);

    // None of them while a name is being typed.
    let mut frame = next(params);
    let typing = Keys {
        typing: true,
        b: true,
        x: true,
        delete: true,
        ..no_keys()
    };
    keyboard(&mut frame, &mut ui, &mut selected, &bands, typing);
    assert_eq!((selected, ui.slot), (Some(0), AbSlot::A));

    let keys = Keys {
        b: true,
        backspace: true,
        ..no_keys()
    };
    keyboard(&mut frame, &mut ui, &mut selected, &bands, keys);
    assert_eq!(selected, None);
    let params = heard(frame);
    assert!(params.bypass && !params.bands[0].active);

    let mut frame = next(params);
    let keys = Keys {
        x: true,
        ..no_keys()
    };
    keyboard(&mut frame, &mut ui, &mut selected, &bands, keys);
    assert_eq!(ui.slot, AbSlot::B);
    assert_eq!(capture(&heard(frame)), a_snapshot());

    // Escape deselects before a deletion can.
    let mut frame = next(with_bands(&[BandKind::Bell]));
    selected = Some(0);
    let keys = Keys {
        escape: true,
        delete: true,
        ..no_keys()
    };
    keyboard(&mut frame, &mut ui, &mut selected, &bands, keys);
    assert_eq!(selected, None);
    assert!(frame.setter.into_calls().is_empty());
}

#[test]
fn the_view_state_is_read_once_and_written_when_it_moved() {
    let mut session = Session::new();
    assert!(!session.is_restored());
    let parsed = UiState {
        panel_height: s(300.0),
        ..UiState::default()
    };
    let state = session.restore(Some("{saved}"), Some(parsed)).unwrap();
    assert_eq!(f(state.panel_height), 300.0);
    assert!(session.is_restored());
    assert!(session.restore(Some("{other}"), None).is_none());
    assert_eq!(session.persist("{saved}".to_owned()), None);
    assert_eq!(session.persist("{new}".to_owned()).as_deref(), Some("{new}"));
    assert_eq!(session.persist("{new}".to_owned()), None);

    let mut unread = Session::new();
    assert!(unread.restore(None, None).is_none());
    assert!(unread.restore(Some("x"), None).is_none());
}

// --- small widgets -----------------------------------------------------------

#[test]
fn captions_are_spaced_out() {
    assert_eq!(spaced("Save"), "S\u{2009}A\u{2009}V\u{2009}E");
    assert_eq!(spaced("ß"), "S\u{2009}S");
    assert_eq!(spaced(""), "");
    assert_eq!(spread_out("ab"), "a\u{2009}b");
}

fn nothing() -> PopupInput {
    PopupInput {
        close: false,
        pressed: false,
        over_panel: false,
        over_trigger: false,
        escape: false,
    }
}

#[test]
fn a_popover_closes_on_escape_outside_and_on_request() {
    assert!(popup(true, nothing()));
    assert!(!popup(false, nothing()));
    let escape = PopupInput {
        escape: true,
        ..nothing()
    };
    assert!(!popup(true, escape));
    let close = PopupInput {
        close: true,
        ..nothing()
    };
    assert!(!popup(true, close));
    let press = |over_panel, over_trigger| PopupInput {
        pressed: true,
        over_panel,
        over_trigger,
        ..nothing()
    };
    assert!(!popup(true, press(false, false)));
    assert!(popup(true, press(true, false)));
    assert!(popup(true, press(false, true)));
    assert_eq!(equzx::menu::trigger(false, true), (Fill::Quiet, true));
    assert_eq!(equzx::menu::trigger(true, false), (Fill::Lit, true));
    assert_eq!(equzx::menu::trigger(true, true), (Fill::Lit, false));
}

#[test]
fn a_picker_closes_once_something_is_picked() {
    let picked = dropdown(true, false, Some(2), nothing());
    assert_eq!((picked.choice, picked.open), (Some(2), false));
    let opened = dropdown(false, true, None, nothing());
    assert_eq!((opened.choice, opened.open), (None, true));
    let shut = dropdown(false, false, Some(1), nothing());
    assert_eq!((shut.choice, shut.open), (None, false));
    assert_eq!(current(&vec!["a", "b"], 1), "b");
    assert_eq!(current(&vec!["a", "b"], 2), "—");
    assert_eq!(f(Align::Start.place(s(1.0), s(2.0))), 1.0);
    assert_eq!(f(Align::End.place(s(1.0), s(2.0))), 2.0);
}

#[test]
fn rows_are_drawn_by_what_they_do() {
    let look = item(true, false, false);
    assert_eq!((look.ink, look.plate, look.tick), (Color::opaque(MOCHI), Plate::Selected, true));
    let look = item(false, true, true);
    assert_eq!((look.ink, look.plate), (Color::opaque(0xff9a9a), Plate::Danger));
    let look = item(false, true, false);
    assert_eq!((look.ink, look.plate, look.tick), (white(150), Plate::Bare, false));
    assert_eq!(item(false, false, true).plate, Plate::Hovered);
    assert_eq!(item(false, false, false).ink, white(180));
}

#[test]
fn a_dial_moves_by_the_last_thing_done_to_it() {
    let knob = Knob::new(s(1.0), s(-30.0), s(30.0)).default_value(s(0.0));
    let input = |dragged, scrolled, double_clicked| KnobInput {
        dragged,
        scrolled,
        double_clicked,
    };
    assert_eq!(knob.show(input(Some(s(2.0)), None, false)), Some(s(2.0)));
    assert_eq!(knob.show(input(Some(s(2.0)), Some(s(3.0)), false)), Some(s(3.0)));
    assert_eq!(knob.show(input(Some(s(2.0)), None, true)), Some(s(0.0)));
    assert_eq!(knob.disabled(true).show(input(Some(s(2.0)), None, true)), None);
    assert!(knob.is_bipolar());
    assert!(!knob.log(true).is_bipolar());
    assert!(!Knob::new(s(1.0), s(0.0), s(1.0)).inline(true).is_bipolar());
    // Without a default, a double click is no move.
    let plain = Knob::new(s(1.0), s(0.0), s(1.0));
    assert_eq!(plain.show(input(Some(s(0.5)), None, true)), None);
}

#[test]
fn a_way_of_listening_survives_a_preset() {
    let mut params = EquzxParams::default();
    params.write(Write::Resonance(ResonanceWrite::Delta(true)));
    let mut frame = next(params);
    let mut state = HeaderState::default();
    state.refresh(vec!["One".to_owned()]);
    let event = PresetEvent::Chosen {
        index: 0,
        found: Some(a_snapshot()),
    };
    preset_menu(&mut frame, &mut state, event);
    assert!(heard(frame).resonance.delta);
}

#[test]
fn what_was_typed_wins_over_the_preset_that_is_up() {
    let mut state = HeaderState::default();
    assert_eq!(state.name_for(""), None);
    assert_eq!(state.name_for("Drums").as_deref(), Some("Drums"));
    state.current = "Bus".to_owned();
    assert_eq!(state.name_for("").as_deref(), Some("Bus"));
    assert_eq!(state.name_for("Drums").as_deref(), Some("Drums"));
}
