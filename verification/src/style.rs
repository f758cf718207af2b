//! Caption look and feel.
//!
//! Sizes are stored as a share of the video height, not as pixels, so a
//! preset renders the same on a 1080p reel and on a 4K clip. Shares are kept
//! in hundredths of a percent, so `640` stands for 6.4 %.

use crate::text::{push_char, str_eq};
use vstd::prelude::*;

verus! {

/// Plain sRGB colour. ASS stores colours as `&HAABBGGRR`, so the byte order is
/// reversed on the way out.
#[derive(Debug, Clone, Copy, PartialEq, Eq, Structural)]
pub struct Rgb {
    pub r: u8,
    pub g: u8,
    pub b: u8,
}

/// The upper case hexadecimal digit for `d` (0..=15).
pub open spec fn hex_digit(d: int) -> char {
    if d < 10 {
        (48 + d) as char
    } else {
        (55 + d) as char
    }
}

/// `x` as two upper case hexadecimal digits.
pub open spec fn hex2(x: u8) -> Seq<char> {
    seq![hex_digit((x / 16) as int), hex_digit((x % 16) as int)]
}

fn hex_digit_char(d: u8) -> (c: char)
    requires
        d < 16,
    ensures
        c == hex_digit(d as int),
{
    if d < 10 {
        (48 + d) as char
    } else {
        (55 + d) as char
    }
}

/// Appends `x` as two upper case hexadecimal digits.
pub fn push_hex2(s: &mut String, x: u8)
    ensures
        final(s)@ == old(s)@ + hex2(x),
{
    push_char(s, hex_digit_char(x / 16));
    push_char(s, hex_digit_char(x % 16));
    assert(final(s)@ =~= old(s)@ + hex2(x));
}

/// The style line form of a colour: `&H`, then alpha, blue, green, red.
pub open spec fn ass_style_text(c: Rgb, alpha: u8) -> Seq<char> {
    seq!['&', 'H'] + hex2(alpha) + hex2(c.b) + hex2(c.g) + hex2(c.r)
}

/// The inline override form of a colour: `&H`, blue, green, red, `&`.
pub open spec fn ass_inline_text(c: Rgb) -> Seq<char> {
    seq!['&', 'H'] + hex2(c.b) + hex2(c.g) + hex2(c.r) + seq!['&']
}

impl Rgb {
    pub fn new(r: u8, g: u8, b: u8) -> (c: Rgb)
        ensures
            c == (Rgb { r, g, b }),
    {
        Rgb { r, g, b }
    }

    /// Style line form, with an alpha byte. `alpha` is ASS transparency:
    /// 0 is fully opaque, 255 fully transparent.
    pub fn to_ass_style(self, alpha: u8) -> (s: String)
        ensures
            s@ == ass_style_text(self, alpha),
    {
        let mut s = String::new();
        push_char(&mut s, '&');
        push_char(&mut s, 'H');
        push_hex2(&mut s, alpha);
        push_hex2(&mut s, self.b);
        push_hex2(&mut s, self.g);
        push_hex2(&mut s, self.r);
        assert(s@ =~= ass_style_text(self, alpha));
        s
    }

    /// Inline override form, as used by `\1c` and friends.
    pub fn to_ass_inline(self) -> (s: String)
        ensures
            s@ == ass_inline_text(self),
    {
        let mut s = String::new();
        push_char(&mut s, '&');
        push_char(&mut s, 'H');
        push_hex2(&mut s, self.b);
        push_hex2(&mut s, self.g);
        push_hex2(&mut s, self.r);
        push_char(&mut s, '&');
        assert(s@ =~= ass_inline_text(self));
        s
    }
}

/// How the currently spoken word is picked out.
#[derive(Debug, Clone, Copy, PartialEq, Eq, Structural)]
pub enum HighlightMode {
    /// Classic ASS karaoke. One event per caption line; every word carries a
    /// `\k` tag. Words start in SecondaryColour and flip to PrimaryColour as
    /// they are spoken, so the line fills up from left to right.
    KaraokeFill,
    /// One event per word. The whole line is redrawn for each word and only the
    /// word being spoken carries the highlight colour and the scale pop. The
    /// spoken duration is still written as a `\k` tag on the active word.
    ActiveWord,
}

/// Everything needed to render a caption track.
#[derive(Debug, Clone, PartialEq)]
pub struct SubtitleStyle {
    /// Stable preset id. Used by the UI and by output file naming.
    pub id: String,
    /// Font family name as macOS knows it. Not bundled, must exist on the system.
    pub font: String,
    /// Font size, in hundredths of a percent of the video height.
    pub font_size_pct_x100: u32,
    /// Outline thickness, in hundredths of a percent of the video height.
    pub outline_pct_x100: u32,
    /// Drop shadow offset, in hundredths of a percent of the video height.
    pub shadow_pct_x100: u32,
    /// Distance from the frame edge, in hundredths of a percent of the video height.
    pub margin_v_pct_x100: u32,
    /// Left and right margin, in hundredths of a percent of the video width.
    pub margin_h_pct_x100: u32,
    pub base_color: Rgb,
    pub highlight_color: Rgb,
    pub outline_color: Rgb,
    pub bold: bool,
    /// Shout case. Common for reels, and it hides inconsistent casing.
    pub uppercase: bool,
    /// ASS numpad alignment: 1 to 3 bottom, 4 to 6 middle, 7 to 9 top.
    pub alignment: u8,
    /// Scale of the active word in percent. 100 disables the pop.
    pub highlight_scale: u32,
    pub max_words_per_line: usize,
    /// A silence longer than this starts a new caption line.
    pub max_gap_ms: u64,
    /// Hard cap on how long one caption line may stay on screen.
    pub max_line_ms: u64,
    /// Floor for how long a caption line stays readable. Fast speech produces
    /// word groups of a few hundred milliseconds, which flash by unread, so a
    /// short group is merged with the next one and its dialogue event is held
    /// open into the following pause when there is room.
    pub min_line_ms: u64,
    pub highlight: HighlightMode,
    /// Script resolution. The pipeline overwrites this with the real video size
    /// so libass does not have to guess a scale factor.
    pub play_res_x: u32,
    pub play_res_y: u32,
}

/// The presets the UI offers.
#[derive(Debug, Clone, Copy, PartialEq, Eq, Structural)]
pub enum StylePreset {
    BoldCenter,
    MinimalBottom,
    KaraokeLine,
}

/// The stable id of each preset.
pub open spec fn preset_id(p: StylePreset) -> Seq<char> {
    match p {
        StylePreset::BoldCenter => "bold-center"@,
        StylePreset::MinimalBottom => "minimal-bottom"@,
        StylePreset::KaraokeLine => "karaoke-line"@,
    }
}

/// The preset whose id is `id`, if any.
pub open spec fn preset_with_id(id: Seq<char>) -> Option<StylePreset> {
    if id == preset_id(StylePreset::BoldCenter) {
        Some(StylePreset::BoldCenter)
    } else if id == preset_id(StylePreset::MinimalBottom) {
        Some(StylePreset::MinimalBottom)
    } else if id == preset_id(StylePreset::KaraokeLine) {
        Some(StylePreset::KaraokeLine)
    } else {
        None
    }
}

/// The look each preset stands for.
pub open spec fn is_preset_style(s: SubtitleStyle, p: StylePreset) -> bool {
    &&& s.id@ == preset_id(p)
    &&& s.play_res_x == 1080
    &&& s.play_res_y == 1920
    &&& s.min_line_ms == 1000
    &&& match p {
        StylePreset::BoldCenter => {
            &&& s.font@ == "Arial Black"@
            &&& s.font_size_pct_x100 == 640
            &&& s.outline_pct_x100 == 55
            &&& s.shadow_pct_x100 == 0
            &&& s.margin_v_pct_x100 == 0
            &&& s.margin_h_pct_x100 == 800
            &&& s.base_color == (Rgb { r: 0xFF, g: 0xFF, b: 0xFF })
            &&& s.highlight_color == (Rgb { r: 0xFF, g: 0xD3, b: 0x4D })
            &&& s.outline_color == (Rgb { r: 0x0A, g: 0x0A, b: 0x0A })
            &&& s.bold
            &&& s.uppercase
            &&& s.alignment == 5
            &&& s.highlight_scale == 112
            &&& s.max_words_per_line == 3
            &&& s.max_gap_ms == 700
            &&& s.max_line_ms == 4000
            &&& s.highlight == HighlightMode::ActiveWord
        },
        StylePreset::MinimalBottom => {
            &&& s.font@ == "Helvetica Neue"@
            &&& s.font_size_pct_x100 == 420
            &&& s.outline_pct_x100 == 35
            &&& s.shadow_pct_x100 == 15
            &&& s.margin_v_pct_x100 == 800
            &&& s.margin_h_pct_x100 == 1000
            &&& s.base_color == (Rgb { r: 0xF7, g: 0xF6, b: 0xF2 })
            &&& s.highlight_color == (Rgb { r: 0x7F, g: 0xD8, b: 0xC4 })
            &&& s.outline_color == (Rgb { r: 0x14, g: 0x1A, b: 0x19 })
            &&& !s.bold
            &&& !s.uppercase
            &&& s.alignment == 2
            &&& s.highlight_scale == 100
            &&& s.max_words_per_line == 6
            &&& s.max_gap_ms == 900
            &&& s.max_line_ms == 5000
            &&& s.highlight == HighlightMode::ActiveWord
        },
        StylePreset::KaraokeLine => {
            &&& s.font@ == "Avenir Next Demi Bold"@
            &&& s.font_size_pct_x100 == 500
            &&& s.outline_pct_x100 == 45
            &&& s.shadow_pct_x100 == 0
            &&& s.margin_v_pct_x100 == 1000
            &&& s.margin_h_pct_x100 == 900
            &&& s.base_color == (Rgb { r: 0xF7, g: 0xF6, b: 0xF2 })
            &&& s.highlight_color == (Rgb { r: 0x2A, g: 0xC3, b: 0xA6 })
            &&& s.outline_color == (Rgb { r: 0x10, g: 0x14, b: 0x13 })
            &&& !s.bold
            &&& !s.uppercase
            &&& s.alignment == 2
            &&& s.highlight_scale == 100
            &&& s.max_words_per_line == 5
            &&& s.max_gap_ms == 900
            &&& s.max_line_ms == 5000
            &&& s.highlight == HighlightMode::KaraokeFill
        },
    }
}

impl StylePreset {
    /// Every preset, in the order the UI lists them.
    pub const ALL: [StylePreset; 3] = [
        StylePreset::BoldCenter,
        StylePreset::MinimalBottom,
        StylePreset::KaraokeLine,
    ];

    pub fn id(self) -> (s: &'static str)
        ensures
            s@ == preset_id(self),
    {
        match self {
            StylePreset::BoldCenter => "bold-center",
            StylePreset::MinimalBottom => "minimal-bottom",
            StylePreset::KaraokeLine => "karaoke-line",
        }
    }

    pub fn from_id(id: &str) -> (r: Option<StylePreset>)
        ensures
            r == preset_with_id(id@),
    {
        if str_eq(id, StylePreset::BoldCenter.id()) {
            Some(StylePreset::BoldCenter)
        } else if str_eq(id, StylePreset::MinimalBottom.id()) {
            Some(StylePreset::MinimalBottom)
        } else if str_eq(id, StylePreset::KaraokeLine.id()) {
            Some(StylePreset::KaraokeLine)
        } else {
            None
        }
    }

    pub fn style(self) -> (s: SubtitleStyle)
        ensures
            is_preset_style(s, self),
    {
        match self {
            // Big, shouty, dead centre. Three words at a time, active word in
            // amber with a slight pop. The default reel look.
            StylePreset::BoldCenter => SubtitleStyle {
                id: String::from_str(self.id()),
                font: String::from_str("Arial Black"),
                font_size_pct_x100: 640,
                outline_pct_x100: 55,
                shadow_pct_x100: 0,
                margin_v_pct_x100: 0,
                margin_h_pct_x100: 800,
                base_color: Rgb::new(0xFF, 0xFF, 0xFF),
                highlight_color: Rgb::new(0xFF, 0xD3, 0x4D),
                outline_color: Rgb::new(0x0A, 0x0A, 0x0A),
                bold: true,
                uppercase: true,
                alignment: 5,
                highlight_scale: 112,
                max_words_per_line: 3,
                max_gap_ms: 700,
                max_line_ms: 4000,
                min_line_ms: 1000,
                highlight: HighlightMode::ActiveWord,
                play_res_x: 1080,
                play_res_y: 1920,
            },
            // Quiet lower third. Longer lines, no scale pop, teal accent.
            StylePreset::MinimalBottom => SubtitleStyle {
                id: String::from_str(self.id()),
                font: String::from_str("Helvetica Neue"),
                font_size_pct_x100: 420,
                outline_pct_x100: 35,
                shadow_pct_x100: 15,
                margin_v_pct_x100: 800,
                margin_h_pct_x100: 1000,
                base_color: Rgb::new(0xF7, 0xF6, 0xF2),
                highlight_color: Rgb::new(0x7F, 0xD8, 0xC4),
                outline_color: Rgb::new(0x14, 0x1A, 0x19),
                bold: false,
                uppercase: false,
                alignment: 2,
                highlight_scale: 100,
                max_words_per_line: 6,
                max_gap_ms: 900,
                max_line_ms: 5000,
                min_line_ms: 1000,
                highlight: HighlightMode::ActiveWord,
                play_res_x: 1080,
                play_res_y: 1920,
            },
            // True karaoke: the line fills up left to right and stays filled.
            StylePreset::KaraokeLine => SubtitleStyle {
                id: String::from_str(self.id()),
                // A named weight rather than "Avenir Next" plus the bold flag:
                // fontconfig resolves that combination to the Bold Italic face
                // and the captions come out slanted.
                font: String::from_str("Avenir Next Demi Bold"),
                font_size_pct_x100: 500,
                outline_pct_x100: 45,
                shadow_pct_x100: 0,
                margin_v_pct_x100: 1000,
                margin_h_pct_x100: 900,
                base_color: Rgb::new(0xF7, 0xF6, 0xF2),
                highlight_color: Rgb::new(0x2A, 0xC3, 0xA6),
                outline_color: Rgb::new(0x10, 0x14, 0x13),
                bold: false,
                uppercase: false,
                alignment: 2,
                highlight_scale: 100,
                max_words_per_line: 5,
                max_gap_ms: 900,
                max_line_ms: 5000,
                min_line_ms: 1000,
                highlight: HighlightMode::KaraokeFill,
                play_res_x: 1080,
                play_res_y: 1920,
            },
        }
    }
}

impl Default for SubtitleStyle {
    fn default() -> (s: SubtitleStyle)
        ensures
            is_preset_style(s, StylePreset::BoldCenter),
    {
        StylePreset::BoldCenter.style()
    }
}

/// Every preset is found again by its id, and an id names at most one
/// preset: `from_id(p.id())` is `p`.
pub proof fn law_id_roundtrip(p: StylePreset)
    ensures
        preset_with_id(preset_id(p)) == Some(p),
{
    reveal_strlit("bold-center");
    reveal_strlit("minimal-bottom");
    reveal_strlit("karaoke-line");
    assert(preset_id(StylePreset::BoldCenter).len() != preset_id(StylePreset::MinimalBottom).len());
    assert(preset_id(StylePreset::BoldCenter) != preset_id(StylePreset::KaraokeLine)) by {
        assert(preset_id(StylePreset::BoldCenter)[0] != preset_id(StylePreset::KaraokeLine)[0]);
    }
    assert(preset_id(StylePreset::MinimalBottom).len() != preset_id(StylePreset::KaraokeLine).len());
}

/// An id is accepted exactly when it is the id of a preset.
pub proof fn law_from_id_only_known(id: Seq<char>, p: StylePreset)
    ensures
        preset_with_id(id) == Some(p) ==> id == preset_id(p),
        (preset_with_id(id) is None) <==> (id != preset_id(StylePreset::BoldCenter) && id
            != preset_id(StylePreset::MinimalBottom) && id != preset_id(StylePreset::KaraokeLine)),
{
}

/// Both colour forms carry the red, green and blue bytes, in reversed order,
/// and differ only in the alpha byte and the closing `&`.
pub proof fn law_colour_forms_agree(c: Rgb, alpha: u8)
    ensures
        ass_style_text(c, alpha).len() == 10,
        ass_inline_text(c).len() == 9,
        ass_style_text(c, alpha).subrange(4, 10) == ass_inline_text(c).subrange(2, 8),
{
    assert(ass_style_text(c, alpha).subrange(4, 10) =~= ass_inline_text(c).subrange(2, 8));
}

} // verus!
