use dispatch::presenter::theme::{shorten, signature, Color, Style, Theme};
use dispatch::presenter::{Cluster, Measured};
use unicode_width::UnicodeWidthStr;

fn palette(color: &str, theme: &str) -> Theme {
    Theme::from_hints(false, Some(color), Some(theme), None, None)
}

fn native() -> Style {
    Style { fg: None, bold: false, underlined: false }
}

#[test]
fn exact_dark_brand_tokens_and_native_background() {
    let theme = palette("truecolor", "dark");
    assert_eq!(theme.accent.fg, Some(Color::Rgb(103, 232, 249)));
    assert_eq!(theme.focus.fg, Some(Color::Rgb(165, 243, 252)));
    assert_eq!(theme.secondary.fg, Some(Color::Rgb(148, 163, 184)));
    assert_eq!(theme.success.fg, Some(Color::Rgb(94, 233, 181)));
    assert_eq!(theme.warning.fg, Some(Color::Rgb(255, 210, 54)));
    assert_eq!(theme.foreground, native());
}

#[test]
fn explicit_light_variant_and_color_fallbacks() {
    let light = palette("truecolor", "light");
    assert_eq!(light.accent.fg, Some(Color::Rgb(0, 101, 120)));
    assert_eq!(light.warning.fg, Some(Color::Rgb(138, 90, 0)));
    assert_eq!(palette("256", "dark").accent.fg, Some(Color::Indexed(87)));
    assert_eq!(palette("16", "dark").accent.fg, Some(Color::Cyan));
    assert_eq!(palette("16", "light").accent.fg, Some(Color::Blue));
    assert_eq!(palette("none", "dark").accent, native());
    assert_eq!(
        Theme::from_hints(false, Some("unknown"), None, Some("truecolor"), None).accent.fg,
        Some(Color::Cyan)
    );
    let no_color = Theme::from_hints(
        true,
        Some("truecolor"),
        Some("dark"),
        Some("truecolor"),
        Some("xterm-256color"),
    );
    assert_eq!(no_color.accent, native());
    assert_eq!(no_color.warning, native());
}

#[test]
fn auto_capabilities_have_conservative_fallbacks() {
    let auto = |colorterm, term| Theme::from_hints(false, None, None, colorterm, term);
    assert_eq!(auto(None, None).accent.fg, Some(Color::Cyan));
    assert_eq!(auto(None, Some("screen")).accent.fg, Some(Color::Cyan));
    assert_eq!(auto(None, Some("screen-256color")).accent.fg, Some(Color::Indexed(87)));
    assert_eq!(
        auto(Some("truecolor"), Some("xterm-256color")).accent.fg,
        Some(Color::Rgb(103, 232, 249))
    );
    assert_eq!(auto(Some("truecolor"), Some("dumb")).accent, native());
}

#[test]
fn compact_unicode_ascii_and_narrow_signatures() {
    assert_eq!(
        signature("raylib", 80, false),
        "  ┌──╮  DISPATCH\n━━   ┃  raylib\n━━━  ┃  intent → work → review\n━━└──╯"
    );
    assert_eq!(
        signature("raylib", 80, true),
        "  +--+  DISPATCH\n==   |  raylib\n===  |  intent > work > review\n==+--+"
    );
    assert_eq!(signature("raylib", 12, false), "DISPATCH\nraylib");
    assert_eq!(signature("", 0, false), "");
    for width in [1, 8, 12, 16, 24, 40, 120] {
        for ascii in [false, true] {
            let text = signature("very long 界 project context with spaces", width, ascii);
            assert!(text.lines().count() <= 4);
            assert!(text
                .lines()
                .all(|l| UnicodeWidthStr::width(l) <= usize::from(width).min(40)));
            assert!(!ascii || !text.contains(['●', '╰', '…']));
        }
    }
    assert!(!signature("x\x1b]52;c;secret\x07\ny", 40, false).contains("secret"));
}

#[test]
fn every_style_of_a_colorless_theme_is_native() {
    for theme in [
        palette("none", "light"),
        palette("none", "dark"),
        Theme::from_hints(true, Some("256"), Some("light"), Some("24bit"), None),
    ] {
        for style in [
            theme.accent,
            theme.foreground,
            theme.secondary,
            theme.inactive,
            theme.focus,
            theme.warning,
            theme.error,
            theme.success,
            theme.addition,
            theme.deletion,
        ] {
            assert_eq!(style, native());
        }
    }
}

#[test]
fn a_measured_name_is_shortened_between_its_clusters() {
    let cluster = |text: &str, cells| Cluster { text: text.into(), cells };
    let m = Measured {
        clusters: vec![cluster("a", 1), cluster("世", 2), cluster("b", 1), cluster("c", 1)],
        cells: 5,
    };
    assert_eq!(shorten("a世bc", &m, 5, false), "a世bc");
    assert_eq!(shorten("a世bc", &m, 4, false), "a世…");
    assert_eq!(shorten("a世bc", &m, 3, true), "a~");
    assert_eq!(shorten("a世bc", &m, 1, false), "…");
    assert_eq!(shorten("a世bc", &m, 0, false), "");
}
