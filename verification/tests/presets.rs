use equzx::params::{BandChannel, BandKind, BandResMode, DynMode, ResMode, ResQuality, Slope};
use equzx::preset_file::{decode, encode, PresetFile, PRESET_VERSION};
use equzx::presets::{
    arrange, delete, directory, file_name, file_under, has_magic, list, load, name_after,
    paths_for, read, reveal_command, save, Platform, Variable, MAX_STEM,
};
use equzx::single::Single;
use equzx::snapshot::{BandSnapshot, ResonanceSnapshot, Snapshot};
use equzx::text::{trim, trim_marked};
use equzx::wire::BandWire;

const EXTENSION: &str = "pst";

fn s(v: f32) -> Single {
    Single { bits: v.to_bits() }
}

fn f(v: Single) -> f32 {
    f32::from_bits(v.bits)
}

#[test]
fn a_name_becomes_a_filename_every_platform_accepts() {
    assert_eq!(file_name("Vocal Bright"), "Vocal Bright.pst");
    assert_eq!(file_name("bus/master"), "bus_master.pst");
    assert_eq!(file_name("../../etc/passwd"), "______etc_passwd.pst");
    assert_eq!(file_name("  "), "preset.pst");
    assert_eq!(file_name("crème"), "cr_me.pst");
}

#[test]
fn a_filename_never_escapes_the_preset_folder() {
    for hostile in ["../evil", "..\\evil", "/etc/passwd", "a/../../b", "C:\\Windows"] {
        let name = file_name(hostile);
        assert!(!name.contains('/'), "{hostile} produced {name}");
        assert!(!name.contains('\\'), "{hostile} produced {name}");
        assert!(!name.contains(".."), "{hostile} produced {name}");
        assert!(!name.contains(':'), "{hostile} produced {name}");
    }
}

/// Windows keeps a handful of names for devices, and refuses them as
/// filenames whatever extension is stuck on the end.
#[test]
fn a_name_windows_has_reserved_is_stepped_around() {
    assert_eq!(file_name("CON"), "_CON.pst");
    assert_eq!(file_name("nul"), "_nul.pst");
    assert_eq!(file_name("Com1"), "_Com1.pst");
    assert_eq!(file_name("LPT9"), "_LPT9.pst");
    // Only the whole stem is reserved, not a name that merely contains one.
    assert_eq!(file_name("Console"), "Console.pst");
    assert_eq!(file_name("COM10"), "COM10.pst");
}

/// A path over 260 characters is unopenable on a Windows install without
/// long paths, and `%APPDATA%` has already spent sixty of them.
#[test]
fn a_very_long_name_is_truncated_rather_than_left_to_fail() {
    let name = file_name(&"x".repeat(500));
    assert_eq!(name.len(), MAX_STEM + 1 + EXTENSION.len());
    assert!(name.starts_with("xxxx"));

    // Truncation must not leave a trailing space, which Windows also
    // refuses at the end of a filename component.
    let name = file_name(&format!("{} tail", "y".repeat(MAX_STEM - 1)));
    assert!(!name[..name.len() - EXTENSION.len() - 1].ends_with(' '), "{name}");
}

/// Whatever comes out has to be legal on every platform, because a preset
/// folder is something people copy between machines.
#[test]
fn a_filename_holds_no_character_any_platform_rejects() {
    for hostile in [
        "a<b>c:d\"e|f?g*h",
        "trailing.",
        "trailing ",
        "\u{0}nul byte",
        "emoji 🎛 knob",
    ] {
        let name = file_name(hostile);
        assert!(
            name.chars()
                .all(|c| c.is_ascii_alphanumeric() || matches!(c, '-' | '_' | ' ' | '.')),
            "{hostile} produced {name}"
        );
        let stem = &name[..name.len() - EXTENSION.len() - 1];
        assert!(!stem.ends_with(' ') && !stem.ends_with('.'), "{hostile} produced {name}");
        assert!(!stem.is_empty(), "{hostile} produced {name}");
    }
}

#[test]
fn a_name_is_looked_for_in_both_formats() {
    let [today, legacy] = paths_for("bus/master");
    assert_eq!(today, "bus_master.pst");
    assert_eq!(legacy, "bus_master.equz.json");
}

fn a_rich_snapshot() -> Snapshot {
    Snapshot {
        output_gain: s(-2.25),
        bands: vec![
            BandSnapshot {
                kind: BandKind::HighCut,
                channel: BandChannel::Side,
                freq: s(12_000.0),
                slope: Slope::S96,
                enabled: false,
                ..BandSnapshot::default()
            },
            BandSnapshot {
                dynamic: true,
                dyn_mode: DynMode::Below,
                dyn_range: s(-9.5),
                threshold: s(-31.0),
                resonance: s(40.0),
                res_mode: BandResMode::Spectral,
                res_range: s(9.0),
                res_sens: s(-3.5),
                res_width: s(0.75),
                res_attack: s(2.5),
                res_release: s(120.0),
                ..BandSnapshot::default()
            },
        ],
        resonance: ResonanceSnapshot {
            enabled: true,
            depth: s(72.0),
            high: s(14_500.0),
            mode: ResMode::Spectral,
            quality: ResQuality::Balanced,
            range: s(18.0),
            ..ResonanceSnapshot::default()
        },
    }
}

/// Everything a snapshot can hold survives the binary round trip exactly:
/// numbers are stored as their own bits, and every enum code maps back.
#[test]
fn a_futureboard_preset_file_round_trips() {
    let snapshot = a_rich_snapshot();
    let preset = PresetFile {
        name: "Vocal / bright ✨".into(),
        version: PRESET_VERSION,
        snapshot: snapshot.clone(),
    };
    let bytes = encode(&preset);
    assert_eq!(&bytes[..4], b"FBPF");

    let back = decode(&bytes).expect("should have decoded");
    assert_eq!(back.name, preset.name);
    assert_eq!(back.snapshot, snapshot);
}

/// A version-1 file — written before the spectral fields existed — still
/// loads, with the new fields on their defaults.
#[test]
fn a_version_one_preset_still_loads() {
    let mut bytes = Vec::new();
    bytes.extend_from_slice(b"FBPF");
    bytes.extend_from_slice(&1u16.to_le_bytes());
    bytes.extend_from_slice(&2u16.to_le_bytes());
    bytes.extend_from_slice(b"V1");
    bytes.extend_from_slice(&(-1.5f32).to_le_bytes());
    // The v1 resonance block: enabled + eight floats.
    bytes.push(1);
    for v in [60.0f32, 50.0, 6.0, 5.0, 40.0, 20.0, 20_000.0, 100.0] {
        bytes.extend_from_slice(&v.to_le_bytes());
    }
    // One v1 band: four bytes of codes, eight floats.
    bytes.push(1);
    bytes.extend_from_slice(&[2, 0, 24, 0b001]);
    for v in [440.0f32, -3.0, 2.0, -6.0, -24.0, 20.0, 200.0, 30.0] {
        bytes.extend_from_slice(&v.to_le_bytes());
    }

    let preset = decode(&bytes).expect("a v1 file should still decode");
    assert_eq!(preset.name, "V1");
    assert_eq!(f(preset.snapshot.output_gain), -1.5);
    assert_eq!(f(preset.snapshot.resonance.depth), 60.0);
    // The fields v1 could not carry land on their defaults.
    assert_eq!(preset.snapshot.resonance.mode, ResMode::Adaptive);
    assert_eq!(f(preset.snapshot.resonance.range), 36.0);
    let band = preset.snapshot.bands[0];
    assert_eq!(f(band.freq), 440.0);
    assert_eq!(f(band.resonance), 30.0);
    assert_eq!(band.res_mode, BandResMode::Adaptive);
    assert_eq!(f(band.res_width), 1.0);
}

/// A file cut off mid-band reads as nothing rather than as noise.
#[test]
fn a_truncated_preset_file_is_refused() {
    let preset = PresetFile {
        name: "Test".into(),
        version: PRESET_VERSION,
        snapshot: Snapshot {
            bands: vec![BandSnapshot::default()],
            ..Snapshot::default()
        },
    };
    let bytes = encode(&preset);
    for cut in [3, 7, 12, bytes.len() - 5] {
        assert!(decode(&bytes[..cut]).is_none(), "accepted {cut} bytes");
    }
    // A version from the future is refused outright rather than misread.
    let mut wrong = bytes.clone();
    wrong[4] = 0xff;
    assert!(decode(&wrong).is_none());
}

#[test]
fn every_cut_of_a_preset_file_is_refused_and_a_tail_is_ignored() {
    let preset = PresetFile {
        name: "é".into(),
        version: PRESET_VERSION,
        snapshot: a_rich_snapshot(),
    };
    let mut bytes = encode(&preset);
    for cut in 0..bytes.len() {
        assert!(decode(&bytes[..cut]).is_none(), "accepted {cut} bytes");
    }
    bytes.extend_from_slice(b"a later addition");
    assert_eq!(decode(&bytes).unwrap().snapshot, preset.snapshot);
}

#[test]
fn a_preset_file_is_refused_by_its_magic_and_by_a_name_that_is_not_text() {
    let preset = PresetFile {
        name: "xy".into(),
        version: PRESET_VERSION,
        snapshot: Snapshot::default(),
    };
    let bytes = encode(&preset);
    assert!(has_magic(&bytes));

    let mut wrong = bytes.clone();
    wrong[0] = b'f';
    assert!(!has_magic(&wrong));
    assert!(decode(&wrong).is_none());

    let mut wrong = bytes.clone();
    wrong[8] = 0xff;
    assert!(decode(&wrong).is_none());
}

/// The `.equz.json` an earlier build wrote still opens.
#[test]
fn a_legacy_json_preset_still_loads() {
    let text = r#"{"name":"Legacy","version":2,"bands":[{"type":"highcut","freq":9000}],"outputGain":-1.5}"#;
    let json: serde_json::Value = serde_json::from_str(text).unwrap();
    let bands = json["bands"]
        .as_array()
        .unwrap()
        .iter()
        .map(|band| {
            BandSnapshot::from(BandWire {
                kind: band["type"].as_str().unwrap().to_owned(),
                freq: s(band["freq"].as_f64().unwrap() as f32),
                ..BandWire::default()
            })
        })
        .collect();
    let parsed = PresetFile {
        name: json["name"].as_str().unwrap().to_owned(),
        version: json["version"].as_u64().unwrap() as u32,
        snapshot: Snapshot {
            output_gain: s(json["outputGain"].as_f64().unwrap() as f32),
            bands,
            ..Snapshot::default()
        },
    };

    let preset = read(text.as_bytes(), Some(parsed), Some("Legacy.equz.json"))
        .expect("should have parsed");
    assert_eq!(preset.name, "Legacy");
    assert_eq!(f(preset.snapshot.output_gain), -1.5);
    assert_eq!(preset.snapshot.bands[0].kind, BandKind::HighCut);
}

#[test]
fn a_file_with_no_name_is_named_after_itself() {
    let preset = PresetFile {
        name: String::new(),
        version: PRESET_VERSION,
        snapshot: Snapshot::default(),
    };
    let bytes = encode(&preset);
    let preset = read(&bytes, None, Some("Fallback.pst")).expect("should have parsed");
    assert_eq!(preset.name, "Fallback");
}

#[test]
fn an_unparseable_file_is_skipped_rather_than_fatal() {
    assert!(read(b"{ this is not json", None, Some("Broken.equz.json")).is_none());
}

#[test]
fn what_was_saved_is_what_loads() {
    let snapshot = a_rich_snapshot();
    let file = save("  Mix bus ", &snapshot).expect("a name to save under");
    assert_eq!(file.name, "Mix bus.pst");
    let preset = read(&file.bytes, None, Some("Mix bus.pst"));
    assert_eq!(preset.as_ref().unwrap().name, "Mix bus");
    assert_eq!(load(preset, None).unwrap(), snapshot);

    assert!(save(" \t ", &snapshot).is_none());
    assert!(load(None, None).is_none());
}

#[test]
fn the_list_is_sorted_whatever_the_case_and_repeats_nothing() {
    let names = ["bus", "Air", "drum", "air", "Éclair", "bus", "éclat"]
        .iter()
        .map(|n| n.to_string())
        .collect();
    let listed = list(names);
    assert_eq!(listed, ["Air", "air", "bus", "drum", "Éclair", "éclat"]);
}

#[test]
fn presets_live_below_the_configuration_folder() {
    let folder = directory(Platform::Windows, true, false, true).unwrap();
    assert_eq!(folder.base, Variable::AppData);
    assert_eq!(folder.below, ["EQUZX", "presets"]);
    let folder = directory(Platform::Other, true, false, true).unwrap();
    assert_eq!(folder.base, Variable::Home);
    assert_eq!(folder.below, [".config", "EQUZX", "presets"]);
    let folder = directory(Platform::Other, true, true, true).unwrap();
    assert_eq!(folder.base, Variable::XdgConfigHome);
    assert!(directory(Platform::MacOs, true, true, false).is_none());
    assert_eq!(reveal_command(Platform::Windows), "explorer");
    assert_eq!(reveal_command(Platform::MacOs), "open");
    assert_eq!(reveal_command(Platform::Other), "xdg-open");
}

#[test]
fn marked_characters_go_from_the_ends_only() {
    let marks = vec![true, false, true, false, true, true];
    assert_eq!(trim_marked(" a b  ", &marks), "a b");
    assert_eq!(trim_marked("xyz", &vec![false, false, false]), "xyz");
    assert_eq!(trim_marked("xyz", &vec![true, true, true]), "");
    assert_eq!(trim_marked("", &Vec::new()), "");
    assert_eq!(trim("\t crème \u{2003}"), "crème");
    assert_eq!(trim(trim("\t crème \u{2003}")), "crème");
}

#[test]
fn a_file_is_made_for_a_name_and_for_no_blank() {
    let snapshot = Snapshot::default();
    assert!(file_under("", &snapshot).is_none());
    let file = file_under("bus/master", &snapshot).unwrap();
    assert_eq!(file.name, "bus_master.pst");
    let back = decode(&file.bytes).unwrap();
    assert_eq!(back.name, "bus/master");
    assert_eq!(back.version, PRESET_VERSION);
}

#[test]
fn a_nameless_preset_is_called_after_its_file() {
    let preset = |name: &str| PresetFile {
        name: name.to_owned(),
        version: PRESET_VERSION,
        snapshot: Snapshot::default(),
    };
    assert_eq!(name_after(preset("Own"), false, Some("file.pst")).name, "Own");
    assert_eq!(name_after(preset(" "), true, Some("file.pst")).name, "file");
    assert_eq!(name_after(preset(" "), true, Some("old.equz.json")).name, "old");
    assert_eq!(name_after(preset(" "), true, None).name, "preset");
}

#[test]
fn names_are_arranged_by_the_keys_they_are_given() {
    let own = |names: &[&str]| -> Vec<String> { names.iter().map(|n| (*n).to_owned()).collect() };
    let keys = own(&["c", "a", "b", "a"]);
    let names = own(&["C", "A", "B", "A"]);
    assert_eq!(arrange(keys, names), own(&["A", "B", "C"]));
}

#[test]
fn deleting_either_file_is_deleting_the_preset() {
    assert!(delete(Some(true), None));
    assert!(delete(None, Some(true)));
    assert!(delete(Some(false), Some(true)));
    assert!(!delete(Some(false), None));
    assert!(!delete(None, None));
}
