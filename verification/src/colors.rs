//! The color record, the public table operations, and the bundled asset.

use crate::errors::NamedColorsError;
use crate::norm::lower_of;
use crate::norm::lowercase;
use crate::norm::normalized;
use crate::parse::parse_table;
use crate::parse::spec_parse_table;
use crate::table::ColorTable;
use crate::table::spec_get;
use vstd::prelude::*;

verus! {

/// Represents a color using RGB values; each channel is a single byte.
#[derive(Clone, Copy, Debug, PartialEq, Eq, Structural)]
pub struct Color {
    pub r: u8,
    pub g: u8,
    pub b: u8,
}

/// The channels of the color stored under `k`, or `None` when `k` is
/// absent.
pub open spec fn spec_lookup(m: Map<Seq<char>, Color>, k: Seq<char>) -> Option<(u8, u8, u8)> {
    match spec_get(m, k) {
        Some(c) => Some((c.r, c.g, c.b)),
        None => None,
    }
}

/// The text of the bundled color table asset.
pub const BUNDLED_COLORS_JSON: &'static str = "{\"red\": {\"r\": 255, \"g\": 0, \"b\": 0}, \"green\": {\"r\": 0, \"g\": 128, \"b\": 0}, \"lime\": {\"r\": 0, \"g\": 255, \"b\": 0}, \"yellow\": {\"r\": 255, \"g\": 255, \"b\": 0}, \"cyan\": {\"r\": 0, \"g\": 255, \"b\": 255}, \"magenta\": {\"r\": 255, \"g\": 0, \"b\": 255}, \"black\": {\"r\": 0, \"g\": 0, \"b\": 0}, \"white\": {\"r\": 255, \"g\": 255, \"b\": 255}, \"gray\": {\"r\": 128, \"g\": 128, \"b\": 128}, \"silver\": {\"r\": 192, \"g\": 192, \"b\": 192}, \"maroon\": {\"r\": 128, \"g\": 0, \"b\": 0}, \"olive\": {\"r\": 128, \"g\": 128, \"b\": 0}, \"purple\": {\"r\": 128, \"g\": 0, \"b\": 128}, \"teal\": {\"r\": 0, \"g\": 128, \"b\": 128}, \"navy\": {\"r\": 0, \"g\": 0, \"b\": 128}, \"orange\": {\"r\": 255, \"g\": 165, \"b\": 0}, \"pink\": {\"r\": 255, \"g\": 192, \"b\": 203}, \"brown\": {\"r\": 165, \"g\": 42, \"b\": 42}, \"gold\": {\"r\": 255, \"g\": 215, \"b\": 0}, \"indigo\": {\"r\": 75, \"g\": 0, \"b\": 130}, \"violet\": {\"r\": 238, \"g\": 130, \"b\": 238}, \"coral\": {\"r\": 255, \"g\": 127, \"b\": 80}, \"salmon\": {\"r\": 250, \"g\": 128, \"b\": 114}, \"turquoise\": {\"r\": 64, \"g\": 224, \"b\": 208}, \"crimson\": {\"r\": 220, \"g\": 20, \"b\": 60}, \"emerald\": {\"r\": 80, \"g\": 200, \"b\": 120}, \"chocolate\": {\"r\": 210, \"g\": 105, \"b\": 30}, \"lavender\": {\"r\": 230, \"g\": 230, \"b\": 250}, \"beige\": {\"r\": 245, \"g\": 245, \"b\": 220}, \"ivory\": {\"r\": 255, \"g\": 255, \"b\": 240}}";

/// Loads the predefined colors bundled with the library.
///
/// The result is exactly what parsing the bundled asset denotes; a parse
/// failure would mean a malformed asset, which is a build-time concern, not
/// a runtime one.
pub fn load_colors() -> (result: Result<ColorTable, NamedColorsError>)
    ensures
        spec_parse_table(BUNDLED_COLORS_JSON@) matches Ok(m) ==> (result matches Ok(t) && t.wf()
            && t@ == m),
        spec_parse_table(BUNDLED_COLORS_JSON@) matches Err(e) ==> (result matches Err(err)
            && err matches NamedColorsError::ParseError { offset } && offset == e),
{
    load_colors_from_file(BUNDLED_COLORS_JSON)
}

/// Loads colors from a JSON string provided by the caller.
///
/// Succeeds exactly on text the table grammar accepts, returning the table
/// it denotes; on malformed input it returns a parse error carrying the
/// character offset at which decoding failed.
pub fn load_colors_from_file(json_data: &str) -> (result: Result<ColorTable, NamedColorsError>)
    ensures
        spec_parse_table(json_data@) matches Ok(m) ==> (result matches Ok(t) && t.wf() && t@
            == m),
        spec_parse_table(json_data@) matches Err(e) ==> (result matches Err(err)
            && err matches NamedColorsError::ParseError { offset } && offset == e),
{
    match parse_table(json_data) {
        Ok(t) => Ok(t),
        Err(offset) => Err(NamedColorsError::ParseError { offset }),
    }
}

/// Adds a new color to the table under the lowercase form of `color_name`.
///
/// When the normalized name is already present, the call fails with a
/// duplicate-entry error carrying that name and leaves the table unchanged;
/// otherwise the new color is inserted and nothing else changes.
pub fn add_color(
    color_map: &mut ColorTable,
    color_name: &str,
    r: u8,
    g: u8,
    b: u8,
) -> (result: Result<(), NamedColorsError>)
    requires
        old(color_map).wf(),
    ensures
        final(color_map).wf(),
        old(color_map)@.contains_key(lower_of(color_name@)) ==> (result matches Err(e)
            && e matches NamedColorsError::DuplicateEntryError { name } && name@ == lower_of(
            color_name@,
        ) && *final(color_map) == *old(color_map)),
        !old(color_map)@.contains_key(lower_of(color_name@)) ==> (result is Ok
            && final(color_map)@ == old(color_map)@.insert(
            lower_of(color_name@),
            Color { r, g, b },
        )),
{
    let lowered = lowercase(color_name);
    if color_map.contains(&lowered) {
        return Err(NamedColorsError::DuplicateEntryError { name: lowered });
    }
    proof {
        assert(normalized(lowered@));
    }
    color_map.set(lowered, Color { r, g, b });
    Ok(())
}

/// Retrieves the RGB values of a color by its name.
///
/// The name is normalized to lowercase first, so lookup is
/// case-insensitive. Absence is an expected outcome, reported as `None`,
/// never as an error.
pub fn get_color_by_name(color_map: &ColorTable, color_name: &str) -> (result: Option<(
    u8,
    u8,
    u8,
)>)
    requires
        color_map.wf(),
    ensures
        result == spec_lookup(color_map@, lower_of(color_name@)),
{
    let lowered = lowercase(color_name);
    match color_map.get(&lowered) {
        Some(c) => Some((c.r, c.g, c.b)),
        None => None,
    }
}

/// Lookup is case-insensitive: two names with the same lowercase form
/// resolve identically in any table.
pub proof fn lemma_lookup_case_insensitive(
    m: Map<Seq<char>, Color>,
    name_a: Seq<char>,
    name_b: Seq<char>,
)
    requires
        lower_of(name_a) == lower_of(name_b),
    ensures
        spec_lookup(m, lower_of(name_a)) == spec_lookup(m, lower_of(name_b)),
{
}

/// A present name resolves to exactly the stored color; an absent name
/// resolves to nothing, never to an error.
pub proof fn lemma_lookup_exact(m: Map<Seq<char>, Color>, name: Seq<char>)
    ensures
        m.contains_key(lower_of(name)) ==> spec_lookup(m, lower_of(name)) == Some(
            (m[lower_of(name)].r, m[lower_of(name)].g, m[lower_of(name)].b),
        ),
        !m.contains_key(lower_of(name)) ==> spec_lookup(m, lower_of(name)) is None,
{
}

/// A just-added color is found again under any casing of its name.
pub proof fn lemma_add_then_lookup(
    m: Map<Seq<char>, Color>,
    added: Seq<char>,
    queried: Seq<char>,
    c: Color,
)
    requires
        lower_of(queried) == lower_of(added),
    ensures
        spec_lookup(m.insert(lower_of(added), c), lower_of(queried)) == Some((c.r, c.g, c.b)),
{
}

} // verus!
