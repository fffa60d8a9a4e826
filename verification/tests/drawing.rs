use equzx::glyph::{outline, shape, Dot, Seg, STEPS};
use equzx::gpu::{
    create_levels, passes, sampled, ChainKey, FxRenderer, FxStep, Job, Lookup, Pass, Region,
    ScratchCache, MAX_SCRATCH_CHAINS,
};
use equzx::grid::{columns, db_lines, is_labelled, layers, segments, FREQ_TICKS, LABELLED};
use equzx::mesh::{area_mesh, glow, spectrum_fill};
use equzx::params::{BandChannel, BandKind, BandWrite, EquzxParams, Slope, TransientState, Write};
use equzx::plot::{draw_curves, draw_handles, draw_readout, CurveCache, CurvePlan, Line};
use equzx::plugin::{control_blocks, Block, CLAP_ID, NAME, VENDOR, VST3_CLASS_ID};
use equzx::preview::{adler32, crc32, to_png};
use equzx::single::Single;
use equzx::spectrum::{blur_edges, clamp_index, taps, Scratch, NEVER};
use equzx::state::{read_bands, AnalyzerMode, BandView, ChannelView};
use equzx::targets::{draw_res_targets, emphasis_line, Mark, Target};

fn s(v: f32) -> Single {
    Single { bits: v.to_bits() }
}

fn f(v: Single) -> f32 {
    f32::from_bits(v.bits)
}

fn bands(kinds: &[BandKind]) -> Vec<BandView> {
    let mut params = EquzxParams::default();
    for (slot, kind) in kinds.iter().enumerate() {
        params.write(Write::Band(slot, BandWrite::Active(true)));
        params.write(Write::Band(slot, BandWrite::Kind(*kind)));
    }
    read_bands(&params)
}

// --- fields ------------------------------------------------------------------

#[test]
fn an_area_mesh_covers_every_column_it_is_given() {
    let points = 8;
    let indices = area_mesh(points, true);
    assert_eq!(indices.iter().max(), Some(&(2 * points as u32 - 1)));
    assert_eq!(2 * points, 16);
    // Two triangles per gap between columns.
    assert_eq!(indices.len(), (points - 1) * 6);
    assert_eq!(indices[..6], [0, 1, 2, 1, 2, 3]);
}

#[test]
fn a_degenerate_area_is_empty_rather_than_malformed() {
    assert!(area_mesh(1, true).is_empty());
    assert!(area_mesh(0, true).is_empty());
    assert!(area_mesh(8, false).is_empty());
}

#[test]
fn the_spectrum_fill_has_five_rows() {
    let indices = spectrum_fill(3);
    assert_eq!(indices.len(), 48);
    assert_eq!(indices[..6], [0, 1, 5, 1, 5, 6]);
    assert_eq!(indices[42..], [8, 9, 13, 9, 13, 14]);
    assert!(spectrum_fill(1).is_empty() && spectrum_fill(0).is_empty());
    assert_eq!(glow(2), [0, 1, 2, 0, 2, 3]);
    assert_eq!(glow(28).len(), 84);
}

#[test]
fn the_grid_labels_what_it_should() {
    assert_eq!(db_lines(6), [-6, -3, 0, 3, 6]);
    assert_eq!(db_lines(18), [-18, -12, -6, 0, 6, 12, 18]);
    assert_eq!(db_lines(30).len(), 11);
    assert_eq!(db_lines(12).len(), 9);
    assert!(LABELLED.iter().all(|hz| FREQ_TICKS.contains(hz)));
    assert!(is_labelled(500) && !is_labelled(600));
    assert_eq!((segments(10), segments(900), segments(9000)), (256, 900, 4096));
    assert_eq!((columns(0), columns(900), columns(9000)), (2, 900, 4096));
}

#[test]
fn a_bypassed_eq_shows_nothing_of_what_it_would_cut() {
    let cuts = vec![s(0.0), s(0.06)];
    let on = layers(AnalyzerMode::Post, false, &cuts);
    assert_eq!((on.pre, on.post, on.resonance, on.targets), (false, true, true, true));
    let off = layers(AnalyzerMode::Both, true, &cuts);
    assert_eq!((off.pre, off.post, off.resonance, off.targets), (true, true, false, false));
    assert!(!layers(AnalyzerMode::Off, false, &vec![s(0.05)]).resonance);
}

// --- the spectrum ------------------------------------------------------------

/// The spline between the taps around a fractional index, as it is drawn.
fn sample(points: &[f32], pos: f32, floor: f32) -> f32 {
    let points: Vec<Single> = points.iter().map(|v| s(*v)).collect();
    let i = pos.floor() as isize;
    let t = pos - i as f32;
    match taps(&points, i, s(floor)) {
        None => floor,
        Some(taps) => {
            let (p0, p1) = (f(taps.before), f(taps.left));
            let (p2, p3) = (f(taps.right), f(taps.after));
            let v = 0.5
                * (2.0 * p1
                    + (-p0 + p2) * t
                    + (2.0 * p0 - 5.0 * p1 + 4.0 * p2 - p3) * t * t
                    + (-p0 + 3.0 * p1 - 3.0 * p2 + p3) * t * t * t);
            f(taps.settle(s(v)))
        }
    }
}

#[test]
fn sampling_between_two_points_stays_between_them() {
    let points = [-60.0, -20.0, -50.0, -10.0];
    for k in 0..=10 {
        let t = k as f32 / 10.0;
        let v = sample(&points, 1.0 + t, -110.0);
        assert!(
            (-50.0 - 1e-4..=-20.0 + 1e-4).contains(&v),
            "t={t} sampled {v}, outside its two neighbours"
        );
    }
}

#[test]
fn sampling_on_a_point_returns_it() {
    let points = [-60.0, -20.0, -50.0, -10.0];
    for (i, expected) in points.iter().enumerate() {
        let v = sample(&points, i as f32, -110.0);
        assert!((v - expected).abs() < 1e-4, "point {i} sampled {v}");
    }
}

#[test]
fn a_non_finite_point_reads_as_the_floor() {
    let points = [f32::NAN, f32::NEG_INFINITY, -30.0];
    assert_eq!(sample(&points, 0.0, -110.0), -110.0);
}

#[test]
fn an_empty_curve_is_not_an_overrun() {
    assert_eq!(sample(&[], 3.0, -110.0), -110.0);
}

/// A box blur by one running sum.
fn box_blur(src: &[f32], radius: usize) -> Vec<f32> {
    let n = src.len();
    let r = radius as isize;
    let mut sum: f32 = (-r..=r).map(|i| src[clamp_index(i, n)]).sum();
    let mut dst = vec![];
    for i in 0..n {
        dst.push(sum / (2 * radius + 1) as f32);
        let (leaves, enters) = blur_edges(i, radius, n);
        sum += src[enters] - src[leaves];
    }
    dst
}

#[test]
fn a_box_blur_preserves_a_constant() {
    let src = vec![-42.0f32; 64];
    let dst = box_blur(&src, 5);
    assert!(dst.iter().all(|v| (v + 42.0).abs() < 1e-3));
}

#[test]
fn a_box_blur_of_zero_radius_is_a_copy() {
    let src: Vec<f32> = (0..16).map(|i| i as f32).collect();
    assert_eq!(box_blur(&src, 0), src);
}

#[test]
fn the_edges_of_a_window_are_clamped() {
    assert_eq!(blur_edges(0, 3, 10), (0, 4));
    assert_eq!(blur_edges(8, 3, 10), (5, 9));
    assert_eq!((clamp_index(-4, 3), clamp_index(1, 3), clamp_index(9, 3)), (0, 1, 2));
}

#[test]
fn peaks_hold_then_decay() {
    let mut scratch = Scratch::new();
    scratch.ensure(40);
    assert_eq!(scratch.peaks()[10].bits, NEVER);
    assert_eq!(f32::from_bits(NEVER), f32::NEG_INFINITY);
    let decayed = |scratch: &Scratch| -> Vec<Single> {
        scratch.peaks().iter().map(|p| s(f(*p) - 0.35)).collect()
    };
    let loud = vec![s(-10.0); 40];
    let quiet = vec![s(-90.0); 40];

    let fallen = decayed(&scratch);
    scratch.hold(&loud, &fallen);
    let held = f(scratch.peaks()[10]);
    for _ in 0..3 {
        let fallen = decayed(&scratch);
        scratch.hold(&quiet, &fallen);
    }
    let after = f(scratch.peaks()[10]);
    assert!(after < held, "peak did not decay: {held} then {after}");
    assert!(
        after > -80.0,
        "peak fell straight to the signal instead of decaying: {after}"
    );
    // The peaks last as long as the number of columns does.
    scratch.ensure(40);
    assert_eq!(f(scratch.peaks()[10]), after);
    scratch.ensure(41);
    assert_eq!(scratch.peaks()[10].bits, NEVER);
}

// --- curves, handles and targets ---------------------------------------------

#[test]
fn curves_are_worked_out_once_for_the_same_bands() {
    let mut list = bands(&[BandKind::Bell, BandKind::HighShelf, BandKind::LowCut]);
    list[1].dynamic = true;
    list[2].channel = BandChannel::Side;
    let mut cache = CurveCache::new();
    let rate = s(48_000.0);
    let plans = cache.rebuild(&list, rate, false, ChannelView::Mid).unwrap();
    assert_eq!(
        plans,
        [
            CurvePlan::Kept { counted: true },
            CurvePlan::Dynamic,
            CurvePlan::Hidden
        ]
    );
    assert_eq!(cache.dynamic, [1]);
    assert!(cache.rebuild(&list, rate, false, ChannelView::Mid).is_none());
    assert!(cache.rebuild(&list, rate, true, ChannelView::Mid).is_some());
    cache.invalidate();
    assert!(cache.rebuild(&list, rate, true, ChannelView::Mid).is_some());

    let strokes = draw_curves(&list, &vec![1], false, ChannelView::Mid, Some(0));
    let drawn: Vec<(usize, bool, bool)> =
        strokes.iter().map(|s| (s.slot, s.moving, s.focused)).collect();
    assert_eq!(drawn, [(0, false, true), (1, true, false)]);
}

#[test]
fn handles_show_what_their_bands_are() {
    let mut list = bands(&[BandKind::Bell, BandKind::LowCut]);
    list[1].enabled = false;
    let looks = draw_handles(&list, ChannelView::All, Some(0), Some(1), Some(1));
    assert_eq!(looks.len(), 2);
    assert_eq!((f(looks[0].opacity), f(looks[0].radius), looks[0].grips), (0.25, 7.0, true));
    assert_eq!((f(looks[1].opacity), f(looks[1].radius), looks[1].lit), (0.3, 7.0, false));
    list[1].channel = BandChannel::Side;
    assert_eq!(draw_handles(&list, ChannelView::Mid, None, None, None).len(), 1);
}

#[test]
fn the_read_out_says_what_a_band_has() {
    let mut list = bands(&[BandKind::Bell, BandKind::HighCut]);
    list[0].dynamic = true;
    let out = draw_readout(&list, ChannelView::All, None, Some(0)).unwrap();
    assert_eq!(out.index, 0);
    assert_eq!(
        out.lines,
        [
            Line::Headline(s(1000.0), BandChannel::Stereo),
            Line::Gain(s(0.0)),
            Line::Q(s(1.0)),
            Line::DynRange(s(-6.0)),
        ]
    );
    // The pointer wins over the selection.
    let out = draw_readout(&list, ChannelView::All, Some(1), Some(0)).unwrap();
    assert_eq!(out.lines[1], Line::Slope(Slope::S24));
    assert!(draw_readout(&list, ChannelView::All, None, None).is_none());
    assert_eq!(Slope::S72.label(), "72 dB/oct");
}

#[test]
fn only_the_deepest_cuts_are_emphasised() {
    let cut = |freq: f32, cut_db: f32| Target {
        present: true,
        active: true,
        freq: s(freq),
        cut_db: s(cut_db),
        confidence: s(0.0),
    };
    let mut targets: Vec<Target> = [3.0, 9.0, 1.0, 7.0, 5.0]
        .iter()
        .enumerate()
        .map(|(i, c)| cut(100.0 * (i + 1) as f32, *c))
        .collect();
    targets.push(Target {
        active: false,
        confidence: s(0.2),
        ..cut(900.0, 0.0)
    });
    targets.push(cut(30_000.0, 2.0));
    assert_eq!(f(emphasis_line(&targets)), 5.0);
    let mut distances = vec![None; targets.len()];
    distances[0] = Some(s(2.0));
    distances[2] = Some(s(1.0));
    let looks = draw_res_targets(&targets, &distances);
    let strong = |i: usize| matches!(looks[i].mark, Mark::Cut { strong: true });
    assert!(strong(1) && strong(3) && strong(4) && !strong(0));
    // The one pointed at is emphasised and labelled, however shallow.
    assert!(strong(2) && looks[2].labelled && !looks[0].labelled);
    assert_eq!(looks[5].mark, Mark::Tick);
    assert_eq!(looks[6].mark, Mark::Absent);
}

#[test]
fn glyphs_are_drawn_through_their_outline() {
    let (start, segments) = outline(BandKind::LowCut);
    assert_eq!(start, Dot { x: 2, y: 14 });
    assert_eq!(segments[1], Seg::Quad(13, 14, 13, 3));
    let points = shape(BandKind::LowCut);
    assert_eq!(points.len(), 2 + STEPS as usize + 1);
    assert_eq!(points[0], Dot { x: 128, y: 896 });
    // Half way along the curve: a quarter of each end and half the control point.
    assert_eq!(
        points[5],
        Dot {
            x: 16 * 8 + 32 * 13 + 16 * 13,
            y: 16 * 14 + 32 * 14 + 16 * 3
        }
    );
    assert_eq!(points[9], Dot { x: 832, y: 192 });
    assert_eq!(points[10], Dot { x: 1152, y: 192 });
}

// --- effects, pictures and buffers -------------------------------------------

#[test]
fn a_blur_reads_what_it_reaches_for() {
    assert_eq!((Job::Glass(0).padding(), Job::Glass(3).padding()), (3, 24));
    assert_eq!((Job::Bloom(9).padding(), Job::Bloom(9).levels()), (96, 5));
    assert_eq!(Job::Glass(0).levels(), 1);
    let rect = Region {
        left: 10,
        bottom: 20,
        width: 100,
        height: 50,
    };
    assert_eq!(
        sampled(&rect, 115, 400, 24),
        Some(Region {
            left: 0,
            bottom: 0,
            width: 115,
            height: 94
        })
    );
    let sliver = Region { width: 1, ..rect };
    assert_eq!(sampled(&sliver, 115, 400, 24), None);

    let sizes: Vec<(i32, i32)> = create_levels(&ChainKey {
        width: 9,
        height: 2,
        count: 4,
    })
    .iter()
    .map(|l| (l.width, l.height))
    .collect();
    assert_eq!(sizes, [(9, 2), (4, 1), (2, 1), (1, 1)]);
    let pass = |source, target, bright| Pass {
        source,
        target,
        bright,
    };
    assert_eq!(
        passes(&Job::Bloom(2), 3),
        [pass(0, 1, true), pass(1, 2, false), pass(2, 1, false)]
    );
    assert_eq!(passes(&Job::Glass(2), 3)[0], pass(0, 1, false));
}

#[test]
fn the_longest_unused_targets_make_room() {
    let key = |width| ChainKey {
        width,
        height: 10,
        count: 3,
    };
    let mut cache = ScratchCache::new();
    for width in 0..MAX_SCRATCH_CHAINS as i32 {
        assert_eq!(cache.scratch_chain(key(width)), Lookup::Miss(None));
        assert_eq!(cache.keep(key(width)), width as usize);
    }
    assert_eq!(cache.scratch_chain(key(0)), Lookup::Hit(0));
    // The second is now the one that has gone unused the longest.
    assert_eq!(cache.scratch_chain(key(99)), Lookup::Miss(Some(1)));
    cache.keep(key(99));
    assert_eq!(cache.scratch_chain(key(0)), Lookup::Hit(0));
    assert_eq!(cache.scratch_chain(key(7)), Lookup::Hit(1));
}

#[test]
fn effects_that_fail_stay_flat_until_the_context_changes() {
    let mut fx = FxRenderer::new();
    assert_eq!(fx.start(true, 1), FxStep::Flat { repaint: false });
    assert_eq!(fx.start(false, 1), FxStep::Build);
    assert_eq!(fx.built(1, true), FxStep::Run { repaint: true });
    assert!(fx.is_ready(false) && !fx.is_ready(true));
    assert_eq!(fx.start(false, 1), FxStep::Run { repaint: false });
    assert!(fx.ran(1, false, false));
    assert!(!fx.is_ready(false));
    assert_eq!(fx.start(false, 1), FxStep::Flat { repaint: false });
    assert_eq!(fx.start(false, 2), FxStep::Build);
    assert_eq!(fx.built(2, false), FxStep::Flat { repaint: true });
    assert_eq!(fx.start(false, 2), FxStep::Flat { repaint: false });
}

#[test]
fn a_picture_is_a_png() {
    assert_eq!(adler32(b"Wikipedia"), 0x11e6_0398);
    assert_eq!(crc32(b"123456789"), 0xcbf4_3926);
    let png = to_png(2, 1, &vec![255, 0, 0, 0, 0, 255]);
    assert_eq!(&png[..8], b"\x89PNG\r\n\x1a\n");
    assert_eq!(&png[12..16], b"IHDR");
    assert_eq!(&png[16..24], &[0, 0, 0, 2, 0, 0, 0, 1]);
    assert_eq!(&png[37..41], b"IDAT");
    // One stored block: a filter byte and six bytes of colour.
    assert_eq!(&png[41..55], &[0x78, 1, 1, 7, 0, 0xf8, 0xff, 0, 255, 0, 0, 0, 0, 255]);
    assert_eq!(&png[png.len() - 12..], b"\x00\x00\x00\x00IEND\xae\x42\x60\x82");
    // More than one block.
    let wide = to_png(30_000, 1, &vec![7; 90_000]);
    assert_eq!(wide.len(), 8 + 25 + 12 + (6 + 90_001 + 10) + 12);
}

#[test]
fn a_buffer_is_walked_in_control_blocks() {
    let block = |offset, len| Block { offset, len };
    assert_eq!(control_blocks(70, 32), [block(0, 32), block(32, 32), block(64, 6)]);
    assert_eq!(control_blocks(32, 32), [block(0, 32)]);
    assert!(control_blocks(0, 32).is_empty());
    let mut t = TransientState {
        held: 3,
        flush: true,
    };
    assert!(t.take_flush());
    assert!(!t.take_flush());
    assert_eq!(t.solo(), Some(3));
    assert_eq!(&VST3_CLASS_ID, b"EQUZXFutureboard");
    assert_eq!((NAME, CLAP_ID), ("EQUZX", "digital.futureboard.equzx"));
    assert_eq!(VENDOR, "Futureboard Digital Technologies");
}
