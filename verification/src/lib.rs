//! EQUZX: the logic of a 24-band dynamic mid/side parametric equaliser plugin.

pub mod plot;
pub mod plugin;
pub mod preset_file;
pub mod presets;
pub mod preview;
pub mod protocol;
pub mod recall;
pub mod single;
pub mod snapshot;
pub mod spectrum;
pub mod state;
pub mod strip;
pub mod suppressor;
pub mod targets;
pub mod text;
pub mod chrome;
pub mod display;
pub mod edit;
pub mod editor;
pub mod glyph;
pub mod gpu;
pub mod grid;
pub mod header;
pub mod host;
pub mod io_meter;
pub mod knob;
pub mod limits;
pub mod menu;
pub mod mesh;
pub mod meters;
pub mod overlay;
pub mod params;
pub mod theme;
pub mod webview;
pub mod wire;
