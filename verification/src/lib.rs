//! Resolution of human-readable color names to RGB triples.
//!
//! A color table maps lowercase names to RGB records. The table can come
//! from the bundled asset, from a caller-supplied JSON string, or from a
//! remote source guarded by a time-boxed local cache; parsing, lookup and
//! mutation are all verified.

pub mod colors;
pub mod errors;
pub mod norm;
pub mod parse;
pub mod resolver;
pub mod table;

use vstd::prelude::*;

verus! {

/// Retrieves the RGB values of a color by its name from the provided table.
///
/// The name is normalized to lowercase before the lookup, so the letter
/// case of `color_name` does not matter. Returns `Some((r, g, b))` when the
/// normalized name is present and `None` otherwise; absence is an expected
/// outcome, never an error. This mirror of [`colors::get_color_by_name`]
/// lets a caller keep one preloaded table and query it repeatedly.
pub fn get_color_by_name(color_map: &table::ColorTable, color_name: &str) -> (result: Option<(
    u8,
    u8,
    u8,
)>)
    requires
        color_map.wf(),
    ensures
        result == colors::spec_lookup(color_map@, norm::lower_of(color_name@)),
{
    colors::get_color_by_name(color_map, color_name)
}

} // verus!
