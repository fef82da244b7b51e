//! The colors of a presentation, and the signature that a session begins with.

use vstd::prelude::*;

use crate::presenter::{cells_of, display_width, measure, measured, one_line, sanitize, Measured};

use crate::text::{
    contains_text, lower, lowered, occurs, optional_str, replace_text, replaced, same,
};

verus! {

/// A color of a terminal.
#[derive(Debug, Clone, Copy, PartialEq, Eq, Structural)]
pub enum Color {
    Rgb(u8, u8, u8),
    Indexed(u8),
    Red,
    Green,
    Yellow,
    Blue,
    Cyan,
    Gray,
    DarkGray,
    LightRed,
    LightGreen,
    LightCyan,
}

/// How text is drawn. The background is always that of the terminal.
#[derive(Debug, Clone, Copy, PartialEq, Eq)]
pub struct Style {
    pub fg: Option<Color>,
    pub bold: bool,
    pub underlined: bool,
}

impl Style {
    /// The style that changes nothing.
    pub open spec fn native() -> Style {
        Style { fg: None, bold: false, underlined: false }
    }

    /// The same style in bold.
    pub fn bold(self) -> (r: Style)
        ensures
            r == (Style { bold: true, ..self }),
    {
        Style { fg: self.fg, bold: true, underlined: self.underlined }
    }

    /// The same style underlined.
    pub fn underlined(self) -> (r: Style)
        ensures
            r == (Style { underlined: true, ..self }),
    {
        Style { fg: self.fg, bold: self.bold, underlined: true }
    }
}

/// The styles of a presentation.
#[derive(Debug, Clone, Copy, PartialEq, Eq)]
pub struct Theme {
    pub accent: Style,
    pub foreground: Style,
    pub secondary: Style,
    pub inactive: Style,
    pub focus: Style,
    pub warning: Style,
    pub error: Style,
    pub success: Style,
    pub addition: Style,
    pub deletion: Style,
}

/// How many colors a terminal shows.
#[derive(Debug, Clone, Copy, PartialEq, Eq, Structural)]
pub enum Colors {
    Rgb,
    Indexed,
    Ansi,
    Nothing,
}

/// Which colors hints ask for. They come from the environment; nothing is asked of the terminal.
pub open spec fn hinted(
    no_color: bool,
    color: Option<Seq<char>>,
    colorterm: Option<Seq<char>>,
    term: Option<Seq<char>>,
) -> Colors {
    let asked = match color {
        Some(c) => lower(c),
        None => lower("auto"@),
    };
    if no_color {
        Colors::Nothing
    } else if asked == "truecolor"@ {
        Colors::Rgb
    } else if asked == "256"@ {
        Colors::Indexed
    } else if asked == "16"@ {
        Colors::Ansi
    } else if asked == "none"@ {
        Colors::Nothing
    } else if asked == "auto"@ && term == Some("dumb"@) {
        Colors::Nothing
    } else if asked == "auto"@ && (colorterm == Some("truecolor"@) || colorterm == Some("24bit"@)) {
        Colors::Rgb
    } else if asked == "auto"@ && (term matches Some(t) && occurs(t, "256color"@)) {
        Colors::Indexed
    } else {
        Colors::Ansi
    }
}

/// A foreground as far as a terminal shows it.
pub open spec fn tint(colors: Colors, rgb: (u8, u8, u8), indexed: u8, ansi: Color) -> Style {
    let fg = match colors {
        Colors::Rgb => Some(Color::Rgb(rgb.0, rgb.1, rgb.2)),
        Colors::Indexed => Some(Color::Indexed(indexed)),
        Colors::Ansi => Some(ansi),
        Colors::Nothing => None,
    };
    Style { fg, bold: false, underlined: false }
}

fn tinted(colors: Colors, rgb: (u8, u8, u8), indexed: u8, ansi: Color) -> (r: Style)
    ensures
        r == tint(colors, rgb, indexed, ansi),
{
    let fg = match colors {
        Colors::Rgb => Some(Color::Rgb(rgb.0, rgb.1, rgb.2)),
        Colors::Indexed => Some(Color::Indexed(indexed)),
        Colors::Ansi => Some(ansi),
        Colors::Nothing => None,
    };
    Style { fg, bold: false, underlined: false }
}

/// The styles on a light or a dark background. The terminal's own foreground stays, as its background
/// does.
pub open spec fn palette(colors: Colors, light: bool) -> Theme {
    let success = if light {
        tint(colors, (8, 123, 76), 28, Color::Green)
    } else {
        tint(colors, (94, 233, 181), 85, Color::LightGreen)
    };
    let error = if light {
        tint(colors, (180, 35, 24), 124, Color::Red)
    } else {
        tint(colors, (248, 113, 113), 203, Color::LightRed)
    };
    Theme {
        accent: if light {
            tint(colors, (0, 101, 120), 24, Color::Blue)
        } else {
            tint(colors, (103, 232, 249), 87, Color::Cyan)
        },
        foreground: Style::native(),
        secondary: if light {
            tint(colors, (71, 85, 105), 240, Color::DarkGray)
        } else {
            tint(colors, (148, 163, 184), 248, Color::Gray)
        },
        inactive: if light {
            tint(colors, (100, 116, 139), 242, Color::DarkGray)
        } else {
            tint(colors, (100, 116, 139), 243, Color::DarkGray)
        },
        focus: if light {
            tint(colors, (0, 84, 105), 23, Color::Blue)
        } else {
            tint(colors, (165, 243, 252), 159, Color::LightCyan)
        },
        warning: if light {
            tint(colors, (138, 90, 0), 94, Color::Yellow)
        } else {
            tint(colors, (255, 210, 54), 220, Color::Yellow)
        },
        error,
        success,
        addition: success,
        deletion: error,
    }
}

/// Whether a light background is asked for.
pub open spec fn asks_light(theme: Option<Seq<char>>) -> bool {
    theme matches Some(t) && lower(t) == "light"@
}

impl Theme {
    /// The styles that hints ask for. The hints cannot identify a terminal's background or its own
    /// palette: a light background is asked for explicitly.
    pub fn from_hints(
        no_color: bool,
        color: Option<&str>,
        theme: Option<&str>,
        colorterm: Option<&str>,
        term: Option<&str>,
    ) -> (r: Self)
        ensures
            r == palette(
                hinted(
                    no_color,
                    optional_str(color),
                    optional_str(colorterm),
                    optional_str(term),
                ),
                asks_light(optional_str(theme)),
            ),
    {
        let asked = match color {
            Some(c) => lowered(c),
            None => lowered("auto"),
        };
        let auto = same(asked.as_str(), "auto");
        let colors = if no_color {
            Colors::Nothing
        } else if same(asked.as_str(), "truecolor") {
            Colors::Rgb
        } else if same(asked.as_str(), "256") {
            Colors::Indexed
        } else if same(asked.as_str(), "16") {
            Colors::Ansi
        } else if same(asked.as_str(), "none") {
            Colors::Nothing
        } else if auto && (match term {
            Some(t) => same(t, "dumb"),
            None => false,
        }) {
            Colors::Nothing
        } else if auto && (match colorterm {
            Some(c) => same(c, "truecolor") || same(c, "24bit"),
            None => false,
        }) {
            Colors::Rgb
        } else if auto && (match term {
            Some(t) => contains_text(t, "256color"),
            None => false,
        }) {
            Colors::Indexed
        } else {
            Colors::Ansi
        };
        let light = match theme {
            Some(t) => same(lowered(t).as_str(), "light"),
            None => false,
        };
        let foreground = Style { fg: None, bold: false, underlined: false };
        if light {
            let error = tinted(colors, (180, 35, 24), 124, Color::Red);
            let success = tinted(colors, (8, 123, 76), 28, Color::Green);
            Theme {
                accent: tinted(colors, (0, 101, 120), 24, Color::Blue),
                foreground,
                secondary: tinted(colors, (71, 85, 105), 240, Color::DarkGray),
                inactive: tinted(colors, (100, 116, 139), 242, Color::DarkGray),
                focus: tinted(colors, (0, 84, 105), 23, Color::Blue),
                warning: tinted(colors, (138, 90, 0), 94, Color::Yellow),
                error,
                success,
                addition: success,
                deletion: error,
            }
        } else {
            let error = tinted(colors, (248, 113, 113), 203, Color::LightRed);
            let success = tinted(colors, (94, 233, 181), 85, Color::LightGreen);
            Theme {
                accent: tinted(colors, (103, 232, 249), 87, Color::Cyan),
                foreground,
                secondary: tinted(colors, (148, 163, 184), 248, Color::Gray),
                inactive: tinted(colors, (100, 116, 139), 243, Color::DarkGray),
                focus: tinted(colors, (165, 243, 252), 159, Color::LightCyan),
                warning: tinted(colors, (255, 210, 54), 220, Color::Yellow),
                error,
                success,
                addition: success,
                deletion: error,
            }
        }
    }
}

/// Without colors everything is drawn as the terminal draws it.
pub proof fn no_color_means_no_color(light: bool)
    ensures
        ({
            let t = palette(Colors::Nothing, light);
            &&& t.accent == Style::native()
            &&& t.foreground == Style::native()
            &&& t.secondary == Style::native()
            &&& t.inactive == Style::native()
            &&& t.focus == Style::native()
            &&& t.warning == Style::native()
            &&& t.error == Style::native()
            &&& t.success == Style::native()
            &&& t.addition == Style::native()
            &&& t.deletion == Style::native()
        }),
{
}

/// Whoever asks for no color gets none, whatever else is hinted.
pub proof fn refused_color_stays_refused(
    color: Option<Seq<char>>,
    colorterm: Option<Seq<char>>,
    term: Option<Seq<char>>,
)
    ensures
        hinted(true, color, colorterm, term) == Colors::Nothing,
{
}

/// The clusters from `i` on that leave a cell for the sign of what is left out, where `used` cells are
/// taken already.
pub open spec fn leading(parts: Seq<(Seq<char>, nat)>, width: int, i: int, used: int) -> Seq<char>
    decreases parts.len() - i,
{
    if i < 0 || i >= parts.len() || used + parts[i].1 >= width {
        Seq::empty()
    } else {
        parts[i].0 + leading(parts, width, i + 1, used + parts[i].1)
    }
}

/// A text that takes `cells`, cut between its clusters to a width, with a sign where something is left
/// out.
pub open spec fn signed(
    text: Seq<char>,
    cells: int,
    parts: Seq<(Seq<char>, nat)>,
    width: int,
    ascii: bool,
) -> Seq<char> {
    if cells <= width {
        text
    } else if width == 0 {
        Seq::empty()
    } else {
        leading(parts, width, 0, 0).push(
            if ascii {
                '~'
            } else {
                '…'
            },
        )
    }
}

/// A text cut to a width, with a sign where something is left out.
pub open spec fn shortened(text: Seq<char>, width: int, ascii: bool) -> Seq<char> {
    signed(text, display_width(text) as int, measured(text), width, ascii)
}

/// A text that was measured, cut between its clusters to a width, with a sign where something is left out.
pub fn shorten(text: &str, m: &Measured, width: usize, ascii: bool) -> (r: String)
    ensures
        r@ == signed(text@, m.cells as int, cells_of(m.clusters@), width as int, ascii),
{
    if m.cells <= width {
        return text.to_owned();
    }
    if width == 0 {
        return String::new();
    }
    let parts = &m.clusters;
    let ghost all = cells_of(parts@);
    let mut out = String::new();
    let mut used: usize = 0;
    let mut i: usize = 0;
    let mut full = false;
    assert(out@ + leading(all, width as int, 0, 0) =~= leading(all, width as int, 0, 0));
    while i < parts.len() && !full
        invariant
            i <= parts.len(),
            all == cells_of(parts@),
            used < width,
            leading(all, width as int, 0, 0) == out@ + (if full {
                Seq::empty()
            } else {
                leading(all, width as int, i as int, used as int)
            }),
        decreases
                parts.len() - i,
                (if full {
                    0int
                } else {
                    1int
                }),
    {
        assert(all[i as int] == (parts@[i as int].text@, parts@[i as int].cells as nat));
        let cells = parts[i].cells;
        if cells >= width - used {
            full = true;
            assert(out@ + Seq::<char>::empty() =~= out@);
        } else {
            used = used + cells;
            out.push_str(parts[i].text.as_str());
            i += 1;
            assert(leading(all, width as int, 0, 0) =~= out@ + leading(
                all,
                width as int,
                i as int,
                used as int,
            ));
        }
    }
    assert(leading(all, width as int, 0, 0) =~= out@);
    out.push(
        if ascii {
            '~'
        } else {
            '…'
        },
    );
    out
}

/// A text cut to a width, with a sign where something is left out.
fn fit(text: &str, width: usize, ascii: bool) -> (r: String)
    ensures
        r@ == shortened(text@, width as int, ascii),
{
    let m = measure(text);
    shorten(text, &m, width, ascii)
}

/// The signature of a session: staggered bars beside its name and its project, at most forty cells wide.
pub open spec fn signature_text(project: Seq<char>, width: int, ascii: bool) -> Seq<char> {
    let limit = if width < 40 {
        width
    } else {
        40
    };
    let name = one_line(project);
    if limit <= 0 {
        Seq::empty()
    } else if limit < 16 {
        shortened("DISPATCH"@, limit, ascii) + (if name.len() > 0 {
            "\n"@ + shortened(name, limit, ascii)
        } else {
            Seq::empty()
        })
    } else {
        let flow = shortened("intent → work → review"@, limit - 8, ascii);
        if ascii {
            "  +--+  DISPATCH\n==   |  "@ + shortened(name, limit - 8, ascii) + "\n===  |  "@ + replaced(
                flow,
                "→"@,
                ">"@,
            ) + "\n==+--+"@
        } else {
            "  ┌──╮  DISPATCH\n━━   ┃  "@ + shortened(name, limit - 8, ascii) + "\n━━━  ┃  "@ + flow
                + "\n━━└──╯"@
        }
    }
}

/// The signature of a session.
pub fn signature(project: &str, width: u16, ascii: bool) -> (r: String)
    ensures
        r@ == signature_text(project@, width as int, ascii),
{
    let limit: usize = if width < 40 {
        width as usize
    } else {
        40
    };
    if limit == 0 {
        return String::new();
    }
    proof {
        reveal_strlit("\n");
        reveal_strlit("\t");
        reveal_strlit("→");
    }
    let clean = sanitize(project);
    let unbroken = replace_text(clean.as_str(), "\n", " ");
    let name = replace_text(unbroken.as_str(), "\t", " ");
    if limit < 16 {
        let mut text = fit("DISPATCH", limit, ascii);
        if !name.as_str().is_empty() {
            text.push_str("\n");
            text.push_str(fit(name.as_str(), limit, ascii).as_str());
        }
        assert(text@ =~= signature_text(project@, width as int, ascii));
        return text;
    }
    let flow = fit("intent → work → review", limit - 8, ascii);
    if ascii {
        let mut text = "  +--+  DISPATCH\n==   |  ".to_owned();
        text.push_str(fit(name.as_str(), limit - 8, ascii).as_str());
        text.push_str("\n===  |  ");
        text.push_str(replace_text(flow.as_str(), "→", ">").as_str());
        text.push_str("\n==+--+");
        text
    } else {
        let mut text = "  ┌──╮  DISPATCH\n━━   ┃  ".to_owned();
        text.push_str(fit(name.as_str(), limit - 8, ascii).as_str());
        text.push_str("\n━━━  ┃  ");
        text.push_str(flow.as_str());
        text.push_str("\n━━└──╯");
        text
    }
}

} // verus!
