use equzx::io_meter::{clips, Channel, IoMeterState, Reading, FLOOR_DB};
use equzx::meters::{BandMeter, Meters, TargetView, MAX_TARGETS, RES_BANDS};
use equzx::params::MAX_BANDS;
use equzx::single::Single;

fn s(v: f32) -> Single {
    Single { bits: v.to_bits() }
}

fn f(v: Single) -> f32 {
    f32::from_bits(v.bits)
}

#[test]
fn published_values_come_back_out() {
    let mut meters = Meters::default();
    meters.publish(
        3,
        BandMeter {
            level_db: s(-12.5),
            delta_db: s(-4.0),
        },
    );

    let mut level = vec![s(0.0); MAX_BANDS];
    let mut delta = vec![s(0.0); MAX_BANDS];
    meters.read_into(&mut level, &mut delta);

    assert_eq!(f(level[3]), -12.5);
    assert_eq!(f(delta[3]), -4.0);
    // Untouched slots stay at the resting values.
    assert_eq!(f(level[0]), -100.0);
    assert_eq!(f(delta[0]), 0.0);
}

#[test]
fn clearing_parks_every_slot() {
    let mut meters = Meters::default();
    for slot in 0..MAX_BANDS {
        meters.publish(
            slot,
            BandMeter {
                level_db: s(0.0),
                delta_db: s(6.0),
            },
        );
    }
    meters.clear();

    let mut level = vec![s(0.0); MAX_BANDS];
    let mut delta = vec![s(0.0); MAX_BANDS];
    meters.read_into(&mut level, &mut delta);
    assert!(level.iter().all(|v| f(*v) == -100.0));
    assert!(delta.iter().all(|v| f(*v) == 0.0));
}

#[test]
fn a_short_read_buffer_is_not_an_overrun() {
    let mut meters = Meters::default();
    meters.publish(
        0,
        BandMeter {
            level_db: s(-3.0),
            delta_db: s(1.0),
        },
    );
    let mut level = vec![s(0.0); 2];
    let mut delta = vec![s(0.0); 2];
    meters.read_into(&mut level, &mut delta);
    assert_eq!(f(level[0]), -3.0);
}

#[test]
fn the_reduction_curve_and_the_targets_come_back_out() {
    let mut meters = Meters::default();
    let curve: Vec<Single> = (0..RES_BANDS + 5).map(|i| s(i as f32)).collect();
    meters.publish_resonance(&curve, s(9.5));
    let mut out = vec![s(-1.0); RES_BANDS];
    assert_eq!(f(meters.read_resonance(&mut out)), 9.5);
    assert_eq!(f(out[RES_BANDS - 1]), (RES_BANDS - 1) as f32);

    let view = TargetView {
        freq: s(440.0),
        cut_db: s(3.0),
        q: s(8.0),
        confidence: s(0.5),
    };
    meters.publish_targets(&[view]);
    let mut targets = vec![view; MAX_TARGETS];
    meters.read_targets(&mut targets);
    assert_eq!(targets[0], view);
    assert_eq!(f(targets[1].freq), 0.0);
}

/// What `IoMeterState` is handed after `dt` seconds at 36 dB a second.
fn reading(channel: &Channel, incoming: f32, dt: f32, hold_over: bool) -> Reading {
    Reading {
        incoming: s(incoming),
        level_fallen: s(f(channel.level_db) - 36.0 * dt),
        held_fallen: s(f(channel.held_db) - 36.0 * dt),
        hold_over,
    }
}

#[test]
fn attack_is_instant_and_release_is_time_based() {
    let floor = f32::from_bits(FLOOR_DB);
    let mut meter = IoMeterState::default();
    assert!(!meter.is_active(false));
    assert!(meter.is_active(true));

    let first = reading(&meter.input[0], 0.0, 1.0 / 60.0, true);
    assert!(meter.input[0].update(first));
    let second = reading(&meter.input[1], 20.0 * 0.5f32.log10(), 1.0 / 60.0, true);
    assert!(meter.input[1].update(second));
    assert_eq!(f(meter.input[0].level_db), 0.0);
    assert!((f(meter.input[1].level_db) + 6.0206).abs() < 0.001);
    assert!(meter.is_active(false));

    let silence = reading(&meter.input[0], floor, 0.1, false);
    assert!(!meter.input[0].update(silence));
    assert!((f(meter.input[0].level_db) + 3.6).abs() < 0.001);
    assert_eq!(f(meter.input[0].held_db), 0.0);

    let later = reading(&meter.input[0], floor, 0.7, true);
    meter.input[0].update(later);
    assert!(f(meter.input[0].held_db) < 0.0);
    assert!(f(meter.input[0].held_db) >= f(meter.input[0].level_db));

    // A host may suspend painting while its window is obscured. On the
    // first frame back, decay must catch up to wall time.
    let suspended = reading(&meter.input[0], floor, 2.0, true);
    meter.input[0].update(suspended);
    assert!(f(meter.input[0].level_db) <= floor + 0.001);

    meter.reset();
    assert_eq!(f(meter.input[1].level_db), -72.0);
    assert!(!meter.is_active(false));
}

#[test]
fn the_clip_lamp_lights_at_full_scale() {
    assert!(clips(s(1.0)));
    assert!(clips(s(-1.5)));
    assert!(!clips(s(0.999)));
    assert!(!clips(s(f32::INFINITY)));
    assert!(!clips(s(f32::NAN)));
}
