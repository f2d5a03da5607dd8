//! A "falling glyphs" terminal effect driven by a single buffer of cell intensities, which
//! every tick is rendered to escape-coded text and then advanced by a shift-down and a
//! top-row spawn/decay rule.

pub mod rain;
