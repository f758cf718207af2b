//! What the desktop shell hands to its frontend: error codes and preset
//! metadata. Nothing user facing is written in English here; the frontend
//! turns codes into translated strings.

use crate::style::{hex2, is_preset_style, preset_with_id, push_hex2, Rgb, StylePreset, SubtitleStyle};
use crate::text::push_char;
use vstd::prelude::*;

verus! {

/// Error shape handed to the frontend. `code` is a stable key the UI translates,
/// `detail` is diagnostic text that is only shown in the expandable details.
#[derive(Debug)]
pub struct CommandError {
    pub code: String,
    pub detail: String,
}

impl CommandError {
    pub fn new(code: &str, detail: &str) -> (e: CommandError)
        ensures
            e.code@ == code@,
            e.detail@ == detail@,
    {
        CommandError { code: String::from_str(code), detail: String::from_str(detail) }
    }
}

/// `#RRGGBB` in upper case hexadecimal.
pub open spec fn hex_text(c: Rgb) -> Seq<char> {
    seq!['#'] + hex2(c.r) + hex2(c.g) + hex2(c.b)
}

/// A colour as the frontend writes it: `#RRGGBB`.
pub fn hex(c: &Rgb) -> (s: String)
    ensures
        s@ == hex_text(*c),
{
    let mut s = String::new();
    push_char(&mut s, '#');
    push_hex2(&mut s, c.r);
    push_hex2(&mut s, c.g);
    push_hex2(&mut s, c.b);
    assert(s@ =~= hex_text(*c));
    s
}

/// Preset metadata for the picker. Labels stay in the frontend locale files,
/// so only the visual properties travel across the bridge.
#[derive(Debug)]
pub struct StyleInfo {
    pub id: String,
    pub base_color: String,
    pub highlight_color: String,
    pub uppercase: bool,
    /// ASS numpad alignment, used by the UI to place its preview text.
    pub alignment: u8,
    pub max_words_per_line: usize,
}

/// What the picker shows of the preset `p`.
pub open spec fn describes(info: StyleInfo, p: StylePreset) -> bool {
    exists|s| {
        &&& #[trigger] is_preset_style(s, p)
        &&& info.id@ == s.id@
        &&& info.base_color@ == hex_text(s.base_color)
        &&& info.highlight_color@ == hex_text(s.highlight_color)
        &&& info.uppercase == s.uppercase
        &&& info.alignment == s.alignment
        &&& info.max_words_per_line == s.max_words_per_line
    }
}

/// The presets in the order the UI lists them.
pub open spec fn presets_in_order() -> Seq<StylePreset> {
    seq![StylePreset::BoldCenter, StylePreset::MinimalBottom, StylePreset::KaraokeLine]
}

/// One entry per preset, in order.
pub fn list_styles() -> (r: Vec<StyleInfo>)
    ensures
        r@.len() == 3,
        forall|i: int| 0 <= i < 3 ==> describes(#[trigger] r@[i], presets_in_order()[i]),
{
    let all = StylePreset::ALL;
    let mut r: Vec<StyleInfo> = Vec::new();
    let mut i: usize = 0;
    while i < 3
        invariant
            i <= 3,
            all@ == presets_in_order(),
            r@.len() == i,
            forall|j: int| 0 <= j < i ==> describes(#[trigger] r@[j], presets_in_order()[j]),
        decreases 3 - i,
    {
        let s = all[i].style();
        let info = StyleInfo {
            id: s.id.clone(),
            base_color: hex(&s.base_color),
            highlight_color: hex(&s.highlight_color),
            uppercase: s.uppercase,
            alignment: s.alignment,
            max_words_per_line: s.max_words_per_line,
        };
        assert(describes(info, presets_in_order()[i as int]));
        r.push(info);
        i = i + 1;
    }
    r
}

/// The style a job renders with: the preset named `style_id`, or the
/// `unknown_style` error carrying the id.
pub fn style_for_job(style_id: &str) -> (r: Result<SubtitleStyle, CommandError>)
    ensures
        preset_with_id(style_id@) is None <==> r is Err,
        r matches Ok(s) ==> is_preset_style(s, preset_with_id(style_id@)->0),
        r matches Err(e) ==> e.code@ == "unknown_style"@ && e.detail@ == style_id@,
{
    match StylePreset::from_id(style_id) {
        Some(p) => Ok(p.style()),
        None => Err(CommandError::new("unknown_style", style_id)),
    }
}

} // verus!
