# EQUZX

The logic of a 24-band dynamic mid/side parametric EQ plugin, verified with
Verus: its parameters and their limits, the snapshots a preset or an A/B slot
holds, the preset file format, what every panel and every gesture on the plot
does to the sound, and what is drawn where.

- `src/` is the library. Every function in it carries a contract. A
  single-precision number is carried as its bit pattern and compared, never
  computed with. What a frame does to the host's parameters is a list of writes,
  and the contracts say which. Properties of the library as a whole stand as
  public proof functions beside the functions they speak of.
- `tests/` runs the library on concrete values.
- `app/` is ordinary Rust around the library: the host's parameters, the preset
  folder, the JSON, the picture on screen, and all floating-point arithmetic. The
  filters, the analyser and the shaders are handed to it.
