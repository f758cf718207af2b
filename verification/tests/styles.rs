use wortlaut::commands::{hex, list_styles, style_for_job, CommandError};
use wortlaut::style::{HighlightMode, Rgb, StylePreset, SubtitleStyle};

#[test]
fn colours_are_written_in_ass_byte_order() {
    let amber = Rgb::new(0xFF, 0xD3, 0x4D);
    assert_eq!(amber.to_ass_style(0), "&H004DD3FF");
    assert_eq!(amber.to_ass_style(0x80), "&H804DD3FF");
    assert_eq!(amber.to_ass_inline(), "&H4DD3FF&");
    assert_eq!(Rgb::new(0x0A, 0x1B, 0x2C).to_ass_inline(), "&H2C1B0A&");
    assert_eq!(hex(&amber), "#FFD34D");
    assert_eq!(hex(&Rgb::new(0, 0x0F, 0xA0)), "#000FA0");
}

#[test]
fn presets_are_found_by_their_ids() {
    for p in StylePreset::ALL {
        assert_eq!(StylePreset::from_id(p.id()), Some(p));
        assert_eq!(p.style().id, p.id());
    }
    assert_eq!(StylePreset::BoldCenter.id(), "bold-center");
    assert_eq!(StylePreset::MinimalBottom.id(), "minimal-bottom");
    assert_eq!(StylePreset::KaraokeLine.id(), "karaoke-line");
    assert_eq!(StylePreset::from_id("Bold-Center"), None);
    assert_eq!(StylePreset::from_id(""), None);
}

#[test]
fn preset_values() {
    let s = StylePreset::BoldCenter.style();
    assert_eq!(s.font, "Arial Black");
    assert_eq!(s.font_size_pct_x100, 640);
    assert_eq!(s.max_words_per_line, 3);
    assert_eq!(s.highlight, HighlightMode::ActiveWord);
    assert!(s.uppercase && s.bold);
    let k = StylePreset::KaraokeLine.style();
    assert_eq!(k.highlight, HighlightMode::KaraokeFill);
    assert_eq!(k.font, "Avenir Next Demi Bold");
    assert_eq!(k.highlight_color, Rgb::new(0x2A, 0xC3, 0xA6));
    let m = StylePreset::MinimalBottom.style();
    assert_eq!(m.shadow_pct_x100, 15);
    assert_eq!((m.play_res_x, m.play_res_y), (1080, 1920));
    assert_eq!(SubtitleStyle::default(), StylePreset::BoldCenter.style());
}

#[test]
fn style_list_follows_the_presets() {
    let l = list_styles();
    assert_eq!(l.len(), 3);
    assert_eq!(l[0].id, "bold-center");
    assert_eq!(l[0].base_color, "#FFFFFF");
    assert_eq!(l[0].highlight_color, "#FFD34D");
    assert_eq!(l[1].id, "minimal-bottom");
    assert_eq!(l[1].alignment, 2);
    assert_eq!(l[2].id, "karaoke-line");
    assert_eq!(l[2].max_words_per_line, 5);
    assert!(l[0].uppercase && !l[2].uppercase);
}

#[test]
fn a_job_with_an_unknown_style_is_refused() {
    let e: CommandError = style_for_job("neon").unwrap_err();
    assert_eq!((e.code.as_str(), e.detail.as_str()), ("unknown_style", "neon"));
    assert_eq!(style_for_job("minimal-bottom").unwrap().id, "minimal-bottom");
    let c = CommandError::new("busy", "another video is being processed");
    assert_eq!(c.code, "busy");
}
