//! Content configuration for screen items.
//!
//! Every type here is a plain struct or C-like enum with a `Default`, meant to
//! be overridden with struct-update syntax: a field left alone keeps its
//! default, and there is nothing to unwrap.

use vstd::prelude::*;
use crate::fmt::{hex2, push_hex2};

verus! {

/// A 24-bit RGB color. Serializes as `#rrggbb`, the form the SDK expects.
#[derive(Debug, Clone, Copy, PartialEq, Eq, Structural)]
pub struct Color {
    /// Red channel.
    pub r: u8,
    /// Green channel.
    pub g: u8,
    /// Blue channel.
    pub b: u8,
}

/// The `#rrggbb` text of a color: lowercase, two digits per channel.
pub open spec fn hex_text(c: Color) -> Seq<char> {
    seq!['#'] + hex2(c.r) + hex2(c.g) + hex2(c.b)
}

impl Color {
    /// Pure red.
    pub fn red() -> (c: Color)
        ensures
            c == (Color { r: 0xff, g: 0x00, b: 0x00 }),
    {
        Color { r: 0xff, g: 0x00, b: 0x00 }
    }

    /// Pure green.
    pub fn green() -> (c: Color)
        ensures
            c == (Color { r: 0x00, g: 0xff, b: 0x00 }),
    {
        Color { r: 0x00, g: 0xff, b: 0x00 }
    }

    /// Pure blue.
    pub fn blue() -> (c: Color)
        ensures
            c == (Color { r: 0x00, g: 0x00, b: 0xff }),
    {
        Color { r: 0x00, g: 0x00, b: 0xff }
    }

    /// White.
    pub fn white() -> (c: Color)
        ensures
            c == (Color { r: 0xff, g: 0xff, b: 0xff }),
    {
        Color { r: 0xff, g: 0xff, b: 0xff }
    }

    /// Black.
    pub fn black() -> (c: Color)
        ensures
            c == (Color { r: 0x00, g: 0x00, b: 0x00 }),
    {
        Color { r: 0x00, g: 0x00, b: 0x00 }
    }

    /// Yellow.
    pub fn yellow() -> (c: Color)
        ensures
            c == (Color { r: 0xff, g: 0xff, b: 0x00 }),
    {
        Color { r: 0xff, g: 0xff, b: 0x00 }
    }

    /// Cyan.
    pub fn cyan() -> (c: Color)
        ensures
            c == (Color { r: 0x00, g: 0xff, b: 0xff }),
    {
        Color { r: 0x00, g: 0xff, b: 0xff }
    }

    /// Magenta.
    pub fn magenta() -> (c: Color)
        ensures
            c == (Color { r: 0xff, g: 0x00, b: 0xff }),
    {
        Color { r: 0xff, g: 0x00, b: 0xff }
    }

    /// A color from its three channels.
    pub fn rgb(r: u8, g: u8, b: u8) -> (c: Color)
        ensures
            c == (Color { r, g, b }),
    {
        Color { r, g, b }
    }

    /// The `#rrggbb` string the SDK writes into `color` attributes.
    pub fn to_hex(self) -> (s: String)
        ensures
            s@ == hex_text(self),
    {
        let mut s = String::from_str("#");
        proof {
            reveal_strlit("#");
        }
        push_hex2(&mut s, self.r);
        push_hex2(&mut s, self.g);
        push_hex2(&mut s, self.b);
        s
    }
}

impl Default for Color {
    /// White.
    fn default() -> (c: Color)
        ensures
            c == (Color { r: 0xff, g: 0xff, b: 0xff }),
    {
        Color::white()
    }
}

/// A text entry/exit animation. The numeric [`Effect::code`] is what the
/// device reads from the `<effect>` element's `in` / `out` attributes.
///
/// The exact firmware code table is not published; this ordering is the
/// crate's own stable mapping. The continuous-scroll variants set the
/// `singleLine` attribute; see [`Effect::is_continuous_scroll`].
#[derive(Debug, Clone, Copy, PartialEq, Eq, Structural, Default)]
pub enum Effect {
    /// Draw at once, no animation.
    #[default]
    Immediate,
    /// Slide in from the right, stopping in place (one pass).
    MoveLeft,
    /// Slide in from the left, stopping in place (one pass).
    MoveRight,
    /// Slide up into place (one pass).
    MoveUp,
    /// Slide down into place (one pass).
    MoveDown,
    /// Scroll leftward continuously (marquee).
    LeftScrollLoop,
    /// Scroll rightward continuously.
    RightScrollLoop,
    /// Scroll upward continuously.
    UpScrollLoop,
    /// Scroll downward continuously.
    DownScrollLoop,
    /// Fade in from black.
    FadeIn,
    /// Fade out to black.
    FadeOut,
    /// Flash on and off.
    Flicker,
}

/// The code of each effect: its position in the declaration, from 0.
pub open spec fn effect_code(e: Effect) -> u16 {
    match e {
        Effect::Immediate => 0,
        Effect::MoveLeft => 1,
        Effect::MoveRight => 2,
        Effect::MoveUp => 3,
        Effect::MoveDown => 4,
        Effect::LeftScrollLoop => 5,
        Effect::RightScrollLoop => 6,
        Effect::UpScrollLoop => 7,
        Effect::DownScrollLoop => 8,
        Effect::FadeIn => 9,
        Effect::FadeOut => 10,
        Effect::Flicker => 11,
    }
}

/// The four continuous marquee scrolls.
pub open spec fn continuous_scroll(e: Effect) -> bool {
    e is LeftScrollLoop || e is RightScrollLoop || e is UpScrollLoop || e is DownScrollLoop
}

impl Effect {
    /// The integer the device reads from the `<effect>` `in` / `out` attribute.
    pub fn code(self) -> (c: u16)
        ensures
            c == effect_code(self),
    {
        match self {
            Effect::Immediate => 0,
            Effect::MoveLeft => 1,
            Effect::MoveRight => 2,
            Effect::MoveUp => 3,
            Effect::MoveDown => 4,
            Effect::LeftScrollLoop => 5,
            Effect::RightScrollLoop => 6,
            Effect::UpScrollLoop => 7,
            Effect::DownScrollLoop => 8,
            Effect::FadeIn => 9,
            Effect::FadeOut => 10,
            Effect::Flicker => 11,
        }
    }

    /// Whether this is a continuous marquee scroll, which the firmware renders
    /// on a single non-wrapping line (`singleLine="true"`).
    pub fn is_continuous_scroll(self) -> (b: bool)
        ensures
            b == continuous_scroll(self),
    {
        matches!(self, Effect::LeftScrollLoop | Effect::RightScrollLoop | Effect::UpScrollLoop | Effect::DownScrollLoop)
    }
}

/// Every effect, in declaration order.
pub open spec fn effects() -> Seq<Effect> {
    seq![
        Effect::Immediate,
        Effect::MoveLeft,
        Effect::MoveRight,
        Effect::MoveUp,
        Effect::MoveDown,
        Effect::LeftScrollLoop,
        Effect::RightScrollLoop,
        Effect::UpScrollLoop,
        Effect::DownScrollLoop,
        Effect::FadeIn,
        Effect::FadeOut,
        Effect::Flicker,
    ]
}

/// An effect's code is its position in the declaration, counted from zero:
/// the `k`-th effect is sent as `k`.
pub proof fn lemma_effect_code_position()
    ensures
        forall|e: Effect| effects().contains(e),
        forall|k: int| 0 <= k < effects().len() ==> effect_code(#[trigger] effects()[k]) == k,
{
    assert forall|e: Effect| effects().contains(e) by {
        let k: int = match e {
            Effect::Immediate => 0,
            Effect::MoveLeft => 1,
            Effect::MoveRight => 2,
            Effect::MoveUp => 3,
            Effect::MoveDown => 4,
            Effect::LeftScrollLoop => 5,
            Effect::RightScrollLoop => 6,
            Effect::UpScrollLoop => 7,
            Effect::DownScrollLoop => 8,
            Effect::FadeIn => 9,
            Effect::FadeOut => 10,
            Effect::Flicker => 11,
        };
        assert(effects()[k] == e);
    }
}

/// Distinct effects have distinct codes, and every code is below 12.
pub proof fn lemma_effect_code_injective(a: Effect, b: Effect)
    ensures
        effect_code(a) == effect_code(b) ==> a == b,
        effect_code(a) < 12,
{
}

/// Horizontal alignment of text within its area.
#[derive(Debug, Clone, Copy, PartialEq, Eq, Structural, Default)]
pub enum HAlign {
    /// Align to the left edge.
    Left,
    /// Center horizontally.
    #[default]
    Center,
    /// Align to the right edge.
    Right,
}

/// The `align` attribute text.
pub open spec fn h_align_text(a: HAlign) -> Seq<char> {
    match a {
        HAlign::Left => "left"@,
        HAlign::Center => "center"@,
        HAlign::Right => "right"@,
    }
}

/// Every horizontal alignment, in declaration order.
pub open spec fn h_aligns() -> Seq<HAlign> {
    seq![
        HAlign::Left,
        HAlign::Center,
        HAlign::Right,
    ]
}

/// The `align` texts of the horizontal alignments, in declaration order.
pub proof fn lemma_h_align_texts()
    ensures
        forall|x: HAlign| h_aligns().contains(x),
        forall|k: int| 0 <= k < h_aligns().len() ==> h_align_text(#[trigger] h_aligns()[k]) == seq!["left"@, "center"@, "right"@][k],
{
    assert forall|x: HAlign| h_aligns().contains(x) by {
        let k: int = match x {
            HAlign::Left => 0,
            HAlign::Center => 1,
            HAlign::Right => 2,
        };
        assert(h_aligns()[k] == x);
    }
}

impl HAlign {
    /// The `align` attribute string.
    pub fn as_str(self) -> (s: &'static str)
        ensures
            s@ == h_align_text(self),
    {
        match self {
            HAlign::Left => "left",
            HAlign::Center => "center",
            HAlign::Right => "right",
        }
    }
}

/// Vertical alignment of text within its area.
#[derive(Debug, Clone, Copy, PartialEq, Eq, Structural, Default)]
pub enum VAlign {
    /// Align to the top edge.
    Top,
    /// Center vertically.
    #[default]
    Middle,
    /// Align to the bottom edge.
    Bottom,
}

/// The `valign` attribute text.
pub open spec fn v_align_text(a: VAlign) -> Seq<char> {
    match a {
        VAlign::Top => "top"@,
        VAlign::Middle => "middle"@,
        VAlign::Bottom => "bottom"@,
    }
}

/// Every vertical alignment, in declaration order.
pub open spec fn v_aligns() -> Seq<VAlign> {
    seq![
        VAlign::Top,
        VAlign::Middle,
        VAlign::Bottom,
    ]
}

/// The `valign` texts of the vertical alignments, in declaration order.
pub proof fn lemma_v_align_texts()
    ensures
        forall|x: VAlign| v_aligns().contains(x),
        forall|k: int| 0 <= k < v_aligns().len() ==> v_align_text(#[trigger] v_aligns()[k]) == seq!["top"@, "middle"@, "bottom"@][k],
{
    assert forall|x: VAlign| v_aligns().contains(x) by {
        let k: int = match x {
            VAlign::Top => 0,
            VAlign::Middle => 1,
            VAlign::Bottom => 2,
        };
        assert(v_aligns()[k] == x);
    }
}

impl VAlign {
    /// The `valign` attribute string.
    pub fn as_str(self) -> (s: &'static str)
        ensures
            s@ == v_align_text(self),
    {
        match self {
            VAlign::Top => "top",
            VAlign::Middle => "middle",
            VAlign::Bottom => "bottom",
        }
    }
}

/// How a piece of text looks and animates. Override with struct-update.
#[derive(Debug, Clone, PartialEq)]
pub struct TextConfig {
    /// Glyph color.
    pub color: Color,
    /// Font family name the device resolves (e.g. `"Arial"`).
    pub font_name: String,
    /// Font size in points.
    pub font_size: u32,
    /// Render bold.
    pub bold: bool,
    /// Render italic.
    pub italic: bool,
    /// Render underlined.
    pub underline: bool,
    /// Entry animation.
    pub effect: Effect,
    /// Exit animation.
    pub out_effect: Effect,
    /// Animation speed, `1`–`10` (higher is faster).
    pub speed: u32,
    /// Seconds the text holds on screen once it has entered.
    pub hold_secs: u32,
    /// Horizontal alignment.
    pub h_align: HAlign,
    /// Vertical alignment.
    pub v_align: VAlign,
}

/// A [`TextConfig`] as plain values.
pub struct TextConfigView {
    pub color: Color,
    pub font_name: Seq<char>,
    pub font_size: u32,
    pub bold: bool,
    pub italic: bool,
    pub underline: bool,
    pub effect: Effect,
    pub out_effect: Effect,
    pub speed: u32,
    pub hold_secs: u32,
    pub h_align: HAlign,
    pub v_align: VAlign,
}

impl View for TextConfig {
    type V = TextConfigView;

    open spec fn view(&self) -> TextConfigView {
        TextConfigView {
            color: self.color,
            font_name: self.font_name@,
            font_size: self.font_size,
            bold: self.bold,
            italic: self.italic,
            underline: self.underline,
            effect: self.effect,
            out_effect: self.out_effect,
            speed: self.speed,
            hold_secs: self.hold_secs,
            h_align: self.h_align,
            v_align: self.v_align,
        }
    }
}

impl Default for TextConfig {
    /// White 12pt Arial, plain, drawn at once at speed 4, held 3 seconds,
    /// centered both ways.
    fn default() -> (c: TextConfig)
        ensures
            c@ == (TextConfigView {
                color: Color { r: 0xff, g: 0xff, b: 0xff },
                font_name: "Arial"@,
                font_size: 12,
                bold: false,
                italic: false,
                underline: false,
                effect: Effect::Immediate,
                out_effect: Effect::Immediate,
                speed: 4,
                hold_secs: 3,
                h_align: HAlign::Center,
                v_align: VAlign::Middle,
            }),
    {
        TextConfig {
            color: Color::white(),
            font_name: String::from_str("Arial"),
            font_size: 12,
            bold: false,
            italic: false,
            underline: false,
            effect: Effect::Immediate,
            out_effect: Effect::Immediate,
            speed: 4,
            hold_secs: 3,
            h_align: HAlign::Center,
            v_align: VAlign::Middle,
        }
    }
}

/// A 12- or 24-hour clock face.
#[derive(Debug, Clone, Copy, PartialEq, Eq, Structural, Default)]
pub enum TimeFormat {
    /// 24-hour (`13:05`).
    #[default]
    Hour24,
    /// 12-hour (`1:05`).
    Hour12,
}

/// The `format` code of a clock face.
pub open spec fn time_format_code(f: TimeFormat) -> u32 {
    match f {
        TimeFormat::Hour24 => 0,
        TimeFormat::Hour12 => 1,
    }
}

/// Every clock face, in declaration order.
pub open spec fn time_formats() -> Seq<TimeFormat> {
    seq![
        TimeFormat::Hour24,
        TimeFormat::Hour12,
    ]
}

/// A clock face's `format` code is its position in the declaration,
/// counted from zero.
pub proof fn lemma_time_format_position()
    ensures
        forall|x: TimeFormat| time_formats().contains(x),
        forall|k: int| 0 <= k < time_formats().len() ==> time_format_code(#[trigger] time_formats()[k]) == seq![0u32, 1u32][k],
{
    assert forall|x: TimeFormat| time_formats().contains(x) by {
        let k: int = match x {
            TimeFormat::Hour24 => 0,
            TimeFormat::Hour12 => 1,
        };
        assert(time_formats()[k] == x);
    }
}

impl TimeFormat {
    /// The `format` code the firmware reads on the `<time>` element.
    pub fn code(self) -> (c: u32)
        ensures
            c == time_format_code(self),
    {
        match self {
            TimeFormat::Hour24 => 0,
            TimeFormat::Hour12 => 1,
        }
    }
}

/// A digital-clock item. Each `show_*` toggles one line of the face; the
/// matching `*_color` tints it. Override with struct-update.
#[derive(Debug, Clone, Copy, PartialEq, Eq, Structural)]
pub struct ClockConfig {
    /// Show the time line.
    pub show_time: bool,
    /// Show the date line.
    pub show_date: bool,
    /// Show the weekday line.
    pub show_week: bool,
    /// Time color.
    pub time_color: Color,
    /// Date color.
    pub date_color: Color,
    /// Weekday color.
    pub week_color: Color,
    /// 12- or 24-hour time.
    pub time_format: TimeFormat,
    /// Lay the enabled lines out multi-line rather than on one row.
    pub multi_line: bool,
}

impl Default for ClockConfig {
    /// A single-line, white, 24-hour time.
    fn default() -> (c: ClockConfig)
        ensures
            c == (ClockConfig {
                show_time: true,
                show_date: false,
                show_week: false,
                time_color: Color { r: 0xff, g: 0xff, b: 0xff },
                date_color: Color { r: 0xff, g: 0xff, b: 0xff },
                week_color: Color { r: 0xff, g: 0xff, b: 0xff },
                time_format: TimeFormat::Hour24,
                multi_line: false,
            }),
    {
        ClockConfig {
            show_time: true,
            show_date: false,
            show_week: false,
            time_color: Color::white(),
            date_color: Color::white(),
            week_color: Color::white(),
            time_format: TimeFormat::Hour24,
            multi_line: false,
        }
    }
}

} // verus!
