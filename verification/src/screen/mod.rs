//! The high-level content model: `Screen` → `Program` → `Area` → `Item`, and
//! its serialization to SDK 2.0 program XML.
//!
//! The tree is built owned-then-push: construct a node, fill it, and hand it
//! to its parent. [`Screen::to_program_xml`] renders the tree to the
//! `<screen>…</screen>` fragment that `AddProgram` carries. Node guids are
//! derived from tree position (`program-0`, `area-0-1`, `text-0-1-2`), so
//! serialization is a function of the tree alone, with no clock or
//! randomness.

pub mod config;

pub use config::{ClockConfig, Color, Effect, HAlign, TextConfig, TimeFormat, VAlign};
use vstd::prelude::*;
use crate::error::ProtoError;
use crate::fmt::{bool_str, bool_text, dec, push_dec, u64_to_string};
use crate::screen::config::{continuous_scroll, effect_code, h_align_text, hex_text, time_format_code,
    v_align_text, TextConfigView};
use crate::sdk::xml::{attrs_view, lemma_render_append, lemma_render_take, render, XmlEvent, XmlWriter};

verus! {

/// How long a program stays up before the device advances to the next one.
#[derive(Debug, Clone, Copy, PartialEq, Eq, Structural)]
pub enum PlayControl {
    /// Play the program's content through `n` times, then advance.
    Count(u32),
    /// Hold the program for a fixed number of whole seconds.
    Duration(u64),
}

impl Default for PlayControl {
    /// Play once through.
    fn default() -> (p: PlayControl)
        ensures
            p == PlayControl::Count(1),
    {
        PlayControl::Count(1)
    }
}

/// A single content element inside an [`Area`].
#[derive(Debug, Clone, PartialEq)]
pub enum Item {
    /// Styled, animated text.
    Text {
        /// The displayed string.
        text: String,
        /// Font, color, effect, and layout.
        config: TextConfig,
    },
    /// A digital clock.
    Clock {
        /// Which lines to show and how to tint them.
        config: ClockConfig,
    },
}

/// An [`Item`] as plain values.
pub enum ItemView {
    Text(Seq<char>, TextConfigView),
    Clock(ClockConfig),
}

impl View for Item {
    type V = ItemView;

    open spec fn view(&self) -> ItemView {
        match self {
            Item::Text { text, config } => ItemView::Text(text@, config@),
            Item::Clock { config } => ItemView::Clock(*config),
        }
    }
}

/// A rectangular region of a program that holds content items.
#[derive(Debug, Clone, PartialEq)]
pub struct Area {
    /// Left edge in pixels.
    pub x: u32,
    /// Top edge in pixels.
    pub y: u32,
    /// Width in pixels.
    pub width: u32,
    /// Height in pixels.
    pub height: u32,
    items: Vec<Item>,
}

/// An [`Area`] as plain values.
pub struct AreaView {
    pub x: u32,
    pub y: u32,
    pub width: u32,
    pub height: u32,
    pub items: Seq<ItemView>,
}

impl View for Area {
    type V = AreaView;

    closed spec fn view(&self) -> AreaView {
        AreaView {
            x: self.x,
            y: self.y,
            width: self.width,
            height: self.height,
            items: self.items@.map_values(|i: Item| i@),
        }
    }
}

/// One program in a [`Screen`]: a named collection of areas with play timing.
#[derive(Debug, Clone, PartialEq)]
pub struct Program {
    /// Human-facing program name (echoed to the device).
    pub name: String,
    /// When to advance to the next program.
    pub play: PlayControl,
    areas: Vec<Area>,
}

/// A [`Program`] as plain values.
pub struct ProgramView {
    pub name: Seq<char>,
    pub play: PlayControl,
    pub areas: Seq<AreaView>,
}

impl View for Program {
    type V = ProgramView;

    closed spec fn view(&self) -> ProgramView {
        ProgramView { name: self.name@, play: self.play, areas: self.areas@.map_values(|a: Area| a@) }
    }
}

/// A full display: an ordered set of programs the device cycles through.
#[derive(Debug, Clone, Default, PartialEq)]
pub struct Screen {
    programs: Vec<Program>,
}

impl View for Screen {
    type V = Seq<ProgramView>;

    closed spec fn view(&self) -> Seq<ProgramView> {
        self.programs@.map_values(|p: Program| p@)
    }
}

// ---------------------------------------------------------------- the XML

/// `program-<pi>`.
pub open spec fn program_guid(pi: nat) -> Seq<char> {
    "program-"@ + dec(pi)
}

/// `area-<pi>-<ai>`.
pub open spec fn area_guid(pi: nat, ai: nat) -> Seq<char> {
    "area-"@ + dec(pi) + "-"@ + dec(ai)
}

/// `<kind>-<pi>-<ai>-<ii>`.
pub open spec fn item_guid(kind: Seq<char>, pi: nat, ai: nat, ii: nat) -> Seq<char> {
    kind + "-"@ + dec(pi) + "-"@ + dec(ai) + "-"@ + dec(ii)
}

/// A text item: the `<text>` wrapper with its guid and single-line flag, the
/// alignment, the escaped string, the font, and the effect timing (in
/// deciseconds).
pub open spec fn text_events(text: Seq<char>, c: TextConfigView, pi: nat, ai: nat, ii: nat) -> Seq<XmlEvent> {
    seq![
        XmlEvent::Start("text"@, seq![
            ("guid"@, item_guid("text"@, pi, ai, ii)),
            ("singleLine"@, bool_text(continuous_scroll(c.effect))),
        ]),
        XmlEvent::Empty("style"@, seq![("align"@, h_align_text(c.h_align)), ("valign"@, v_align_text(c.v_align))]),
        XmlEvent::Start("string"@, Seq::empty()),
        XmlEvent::Text(text),
        XmlEvent::End("string"@),
        XmlEvent::Empty("font"@, seq![
            ("name"@, c.font_name),
            ("size"@, dec(c.font_size as nat)),
            ("color"@, hex_text(c.color)),
            ("bold"@, bool_text(c.bold)),
            ("italic"@, bool_text(c.italic)),
            ("underline"@, bool_text(c.underline)),
        ]),
        XmlEvent::Empty("effect"@, seq![
            ("in"@, dec(effect_code(c.effect) as nat)),
            ("inSpeed"@, dec(c.speed as nat)),
            ("out"@, dec(effect_code(c.out_effect) as nat)),
            ("outSpeed"@, dec(c.speed as nat)),
            ("duration"@, dec((c.hold_secs * 10) as nat)),
        ]),
        XmlEvent::End("text"@),
    ]
}

/// A clock item: the `<clock>` wrapper, then one line each for time, date
/// and weekday.
pub open spec fn clock_events(c: ClockConfig, pi: nat, ai: nat, ii: nat) -> Seq<XmlEvent> {
    seq![
        XmlEvent::Start("clock"@, seq![
            ("guid"@, item_guid("clock"@, pi, ai, ii)),
            ("type"@, "0"@),
            ("multiLine"@, bool_text(c.multi_line)),
        ]),
        XmlEvent::Empty("time"@, seq![
            ("display"@, bool_text(c.show_time)),
            ("format"@, dec(time_format_code(c.time_format) as nat)),
            ("color"@, hex_text(c.time_color)),
        ]),
        XmlEvent::Empty("date"@, seq![("display"@, bool_text(c.show_date)), ("color"@, hex_text(c.date_color))]),
        XmlEvent::Empty("week"@, seq![("display"@, bool_text(c.show_week)), ("color"@, hex_text(c.week_color))]),
        XmlEvent::End("clock"@),
    ]
}

/// One item at position `ii` of area `ai` of program `pi`.
pub open spec fn item_events(it: ItemView, pi: nat, ai: nat, ii: nat) -> Seq<XmlEvent> {
    match it {
        ItemView::Text(text, c) => text_events(text, c, pi, ai, ii),
        ItemView::Clock(c) => clock_events(c, pi, ai, ii),
    }
}

/// An area's items, in order, each numbered by its position.
pub open spec fn items_events(items: Seq<ItemView>, pi: nat, ai: nat) -> Seq<XmlEvent>
    decreases items.len(),
{
    if items.len() == 0 {
        Seq::empty()
    } else {
        items_events(items.drop_last(), pi, ai) + item_events(items.last(), pi, ai, (items.len() - 1) as nat)
    }
}

/// An area: `<area>` with its guid, the rectangle, then the items inside
/// `<resources>`.
pub open spec fn area_events(a: AreaView, pi: nat, ai: nat) -> Seq<XmlEvent> {
    seq![
        XmlEvent::Start("area"@, seq![("guid"@, area_guid(pi, ai)), ("alpha"@, "255"@)]),
        XmlEvent::Empty("rectangle"@, seq![
            ("x"@, dec(a.x as nat)),
            ("y"@, dec(a.y as nat)),
            ("width"@, dec(a.width as nat)),
            ("height"@, dec(a.height as nat)),
        ]),
        XmlEvent::Start("resources"@, Seq::empty()),
    ] + items_events(a.items, pi, ai) + seq![XmlEvent::End("resources"@), XmlEvent::End("area"@)]
}

/// A program's areas, in order, each numbered by its position.
pub open spec fn areas_events(areas: Seq<AreaView>, pi: nat) -> Seq<XmlEvent>
    decreases areas.len(),
{
    if areas.len() == 0 {
        Seq::empty()
    } else {
        areas_events(areas.drop_last(), pi) + area_events(areas.last(), pi, (areas.len() - 1) as nat)
    }
}

/// The `<playControl>` element: a count, or a duration in deciseconds.
pub open spec fn play_event(p: PlayControl) -> XmlEvent {
    match p {
        PlayControl::Count(n) => XmlEvent::Empty("playControl"@, seq![("count"@, dec(n as nat))]),
        PlayControl::Duration(s) => XmlEvent::Empty("playControl"@, seq![("duration"@, dec((s * 10) as nat))]),
    }
}

/// A program at position `pi`: `<program>` with its id, guid and name, the
/// play control, then its areas.
pub open spec fn program_events(p: ProgramView, pi: nat) -> Seq<XmlEvent> {
    seq![
        XmlEvent::Start("program"@, seq![
            ("type"@, "normal"@),
            ("id"@, dec(pi)),
            ("guid"@, program_guid(pi)),
            ("name"@, p.name),
        ]),
        play_event(p.play),
    ] + areas_events(p.areas, pi) + seq![XmlEvent::End("program"@)]
}

/// The programs, in order, each numbered by its position.
pub open spec fn programs_events(ps: Seq<ProgramView>) -> Seq<XmlEvent>
    decreases ps.len(),
{
    if ps.len() == 0 {
        Seq::empty()
    } else {
        programs_events(ps.drop_last()) + program_events(ps.last(), (ps.len() - 1) as nat)
    }
}

/// The whole `<screen>` fragment.
pub open spec fn screen_events(ps: Seq<ProgramView>) -> Seq<XmlEvent> {
    seq![XmlEvent::Start("screen"@, Seq::empty())] + programs_events(ps) + seq![XmlEvent::End("screen"@)]
}

/// An item's timing fits its field once scaled to deciseconds.
pub open spec fn item_fits(it: ItemView) -> bool {
    match it {
        ItemView::Text(_, c) => c.hold_secs * 10 <= u32::MAX,
        ItemView::Clock(_) => true,
    }
}

/// Every item's timing of an area fits once scaled to deciseconds.
pub open spec fn area_fits(a: AreaView) -> bool {
    forall|i: int| 0 <= i < a.items.len() ==> item_fits(#[trigger] a.items[i])
}

/// A program's play duration and its items' timings fit once scaled to
/// deciseconds.
pub open spec fn program_fits(p: ProgramView) -> bool {
    &&& (p.play matches PlayControl::Duration(s) ==> s * 10 <= u64::MAX)
    &&& forall|i: int| 0 <= i < p.areas.len() ==> area_fits(#[trigger] p.areas[i])
}

/// Every timing in the tree fits once scaled to deciseconds.
pub open spec fn screen_fits(ps: Seq<ProgramView>) -> bool {
    forall|i: int| 0 <= i < ps.len() ==> program_fits(#[trigger] ps[i])
}

fn item_guid_string(kind: &str, pi: usize, ai: usize, ii: usize) -> (s: String)
    ensures
        s@ == item_guid(kind@, pi as nat, ai as nat, ii as nat),
{
    let mut s = String::from_str(kind);
    s.append("-");
    push_dec(&mut s, pi as u64);
    s.append("-");
    push_dec(&mut s, ai as u64);
    s.append("-");
    push_dec(&mut s, ii as u64);
    s
}

fn write_text(x: &mut XmlWriter, pi: usize, ai: usize, ii: usize, text: &str, c: &TextConfig)
    requires
        c.hold_secs * 10 <= u32::MAX,
    ensures
        final(x)@ == old(x)@ + render(text_events(text@, c@, pi as nat, ai as nat, ii as nat)),
{
    let ghost start = x@;
    let ghost evs = text_events(text@, c@, pi as nat, ai as nat, ii as nat);
    assert(evs.take(0) =~= Seq::<XmlEvent>::empty());
    let guid = item_guid_string("text", pi, ai, ii);
    let a0 = [("guid", guid.as_str()), ("singleLine", bool_str(c.effect.is_continuous_scroll()))];
    x.open("text", &a0);
    proof {
        assert(attrs_view(a0@) =~= evs[0]->Start_1);
        lemma_render_take(evs, 0);
        assert(x@ =~= start + render(evs.take(1)));
    }
    let a1 = [("align", c.h_align.as_str()), ("valign", c.v_align.as_str())];
    x.empty("style", &a1);
    proof {
        assert(attrs_view(a1@) =~= evs[1]->Empty_1);
        lemma_render_take(evs, 1);
        assert(x@ =~= start + render(evs.take(2)));
    }
    let none: [(&str, &str); 0] = [];
    x.open("string", &none);
    proof {
        assert(attrs_view(none@) =~= evs[2]->Start_1);
        lemma_render_take(evs, 2);
        assert(x@ =~= start + render(evs.take(3)));
    }
    x.text(text);
    proof {
        lemma_render_take(evs, 3);
        assert(x@ =~= start + render(evs.take(4)));
    }
    x.close("string");
    proof {
        lemma_render_take(evs, 4);
        assert(x@ =~= start + render(evs.take(5)));
    }
    let size = u64_to_string(c.font_size as u64);
    let color = c.color.to_hex();
    let a5 = [
        ("name", c.font_name.as_str()),
        ("size", size.as_str()),
        ("color", color.as_str()),
        ("bold", bool_str(c.bold)),
        ("italic", bool_str(c.italic)),
        ("underline", bool_str(c.underline)),
    ];
    x.empty("font", &a5);
    proof {
        assert(attrs_view(a5@) =~= evs[5]->Empty_1);
        lemma_render_take(evs, 5);
        assert(x@ =~= start + render(evs.take(6)));
    }
    let effect_in = u64_to_string(c.effect.code() as u64);
    let speed = u64_to_string(c.speed as u64);
    let effect_out = u64_to_string(c.out_effect.code() as u64);
    let hold = u64_to_string((c.hold_secs * 10) as u64);
    let a6 = [
        ("in", effect_in.as_str()),
        ("inSpeed", speed.as_str()),
        ("out", effect_out.as_str()),
        ("outSpeed", speed.as_str()),
        ("duration", hold.as_str()),
    ];
    x.empty("effect", &a6);
    proof {
        assert(attrs_view(a6@) =~= evs[6]->Empty_1);
        lemma_render_take(evs, 6);
        assert(x@ =~= start + render(evs.take(7)));
    }
    x.close("text");
    proof {
        lemma_render_take(evs, 7);
        assert(evs.take(8) =~= evs);
    }
}

fn write_clock(x: &mut XmlWriter, pi: usize, ai: usize, ii: usize, c: &ClockConfig)
    ensures
        final(x)@ == old(x)@ + render(clock_events(*c, pi as nat, ai as nat, ii as nat)),
{
    let ghost start = x@;
    let ghost evs = clock_events(*c, pi as nat, ai as nat, ii as nat);
    assert(evs.take(0) =~= Seq::<XmlEvent>::empty());
    let guid = item_guid_string("clock", pi, ai, ii);
    let a0 = [("guid", guid.as_str()), ("type", "0"), ("multiLine", bool_str(c.multi_line))];
    x.open("clock", &a0);
    proof {
        assert(attrs_view(a0@) =~= evs[0]->Start_1);
        lemma_render_take(evs, 0);
        assert(x@ =~= start + render(evs.take(1)));
    }
    let format = u64_to_string(c.time_format.code() as u64);
    let time_color = c.time_color.to_hex();
    let a1 = [("display", bool_str(c.show_time)), ("format", format.as_str()), ("color", time_color.as_str())];
    x.empty("time", &a1);
    proof {
        assert(attrs_view(a1@) =~= evs[1]->Empty_1);
        lemma_render_take(evs, 1);
        assert(x@ =~= start + render(evs.take(2)));
    }
    let date_color = c.date_color.to_hex();
    let a2 = [("display", bool_str(c.show_date)), ("color", date_color.as_str())];
    x.empty("date", &a2);
    proof {
        assert(attrs_view(a2@) =~= evs[2]->Empty_1);
        lemma_render_take(evs, 2);
        assert(x@ =~= start + render(evs.take(3)));
    }
    let week_color = c.week_color.to_hex();
    let a3 = [("display", bool_str(c.show_week)), ("color", week_color.as_str())];
    x.empty("week", &a3);
    proof {
        assert(attrs_view(a3@) =~= evs[3]->Empty_1);
        lemma_render_take(evs, 3);
        assert(x@ =~= start + render(evs.take(4)));
    }
    x.close("clock");
    proof {
        lemma_render_take(evs, 4);
        assert(evs.take(5) =~= evs);
    }
}

impl Item {
    fn write_xml(&self, x: &mut XmlWriter, pi: usize, ai: usize, ii: usize)
        requires
            item_fits(self@),
        ensures
            final(x)@ == old(x)@ + render(item_events(self@, pi as nat, ai as nat, ii as nat)),
    {
        match self {
            Item::Text { text, config } => write_text(x, pi, ai, ii, text.as_str(), config),
            Item::Clock { config } => write_clock(x, pi, ai, ii, config),
        }
    }
}

impl Area {
    /// An area at `(x, y)` of the given size.
    pub fn new(x: u32, y: u32, width: u32, height: u32) -> (a: Area)
        ensures
            a@ == (AreaView { x, y, width, height, items: Seq::empty() }),
    {
        let a = Area { x, y, width, height, items: Vec::new() };
        assert(a@.items =~= Seq::<ItemView>::empty());
        a
    }

    /// An area covering the whole panel (`0, 0, width, height`).
    pub fn full_screen(width: u32, height: u32) -> (a: Area)
        ensures
            a@ == (AreaView { x: 0, y: 0, width, height, items: Seq::empty() }),
    {
        Area::new(0, 0, width, height)
    }

    /// Add a text item.
    pub fn add_text(&mut self, text: &str, config: TextConfig)
        ensures
            final(self)@ == (AreaView { items: old(self)@.items.push(ItemView::Text(text@, config@)), ..old(self)@ }),
    {
        let ghost before = self.items@;
        let item = Item::Text { text: String::from_str(text), config };
        self.items.push(item);
        assert(self.items@.map_values(|i: Item| i@) =~= before.map_values(|i: Item| i@).push(ItemView::Text(text@, config@)));
    }

    /// Add a digital-clock item.
    pub fn add_clock(&mut self, config: ClockConfig)
        ensures
            final(self)@ == (AreaView { items: old(self)@.items.push(ItemView::Clock(config)), ..old(self)@ }),
    {
        let ghost before = self.items@;
        self.items.push(Item::Clock { config });
        assert(self.items@.map_values(|i: Item| i@) =~= before.map_values(|i: Item| i@).push(ItemView::Clock(config)));
    }

    /// The items in this area, in render order.
    pub fn items(&self) -> (r: &[Item])
        ensures
            r@.map_values(|i: Item| i@) == self@.items,
    {
        self.items.as_slice()
    }

    fn write_xml(&self, x: &mut XmlWriter, pi: usize, ai: usize)
        requires
            area_fits(self@),
        ensures
            final(x)@ == old(x)@ + render(area_events(self@, pi as nat, ai as nat)),
    {
        let ghost start = x@;
        let ghost a = self@;
        let ghost head = seq![
            XmlEvent::Start("area"@, seq![("guid"@, area_guid(pi as nat, ai as nat)), ("alpha"@, "255"@)]),
            XmlEvent::Empty("rectangle"@, seq![
                ("x"@, dec(a.x as nat)),
                ("y"@, dec(a.y as nat)),
                ("width"@, dec(a.width as nat)),
                ("height"@, dec(a.height as nat)),
            ]),
            XmlEvent::Start("resources"@, Seq::empty()),
        ];
        assert(head.take(0) =~= Seq::<XmlEvent>::empty());
        let mut guid = String::from_str("area-");
        push_dec(&mut guid, pi as u64);
        guid.append("-");
        push_dec(&mut guid, ai as u64);
        let a0 = [("guid", guid.as_str()), ("alpha", "255")];
        x.open("area", &a0);
        proof {
            assert(attrs_view(a0@) =~= head[0]->Start_1);
            lemma_render_take(head, 0);
            assert(x@ =~= start + render(head.take(1)));
        }
        let sx = u64_to_string(self.x as u64);
        let sy = u64_to_string(self.y as u64);
        let sw = u64_to_string(self.width as u64);
        let sh = u64_to_string(self.height as u64);
        let a1 = [("x", sx.as_str()), ("y", sy.as_str()), ("width", sw.as_str()), ("height", sh.as_str())];
        x.empty("rectangle", &a1);
        proof {
            assert(attrs_view(a1@) =~= head[1]->Empty_1);
            lemma_render_take(head, 1);
            assert(x@ =~= start + render(head.take(2)));
        }
        let none: [(&str, &str); 0] = [];
        x.open("resources", &none);
        proof {
            assert(attrs_view(none@) =~= head[2]->Start_1);
            lemma_render_take(head, 2);
            assert(head.take(3) =~= head);
            assert(items_events(a.items.take(0), pi as nat, ai as nat) =~= Seq::<XmlEvent>::empty());
            assert(x@ =~= start + render(head) + render(items_events(a.items.take(0), pi as nat, ai as nat)));
        }
        let n = self.items.len();
        let mut ii: usize = 0;
        while ii < n
            invariant
                n == self.items@.len(),
                ii <= n,
                a == self@,
                area_fits(a),
                x@ == start + render(head) + render(items_events(a.items.take(ii as int), pi as nat, ai as nat)),
            decreases n - ii,
        {
            let ghost mid = x@;
            proof {
                assert(a.items[ii as int] == self.items@[ii as int]@);
                assert(item_fits(a.items[ii as int]));
            }
            self.items[ii].write_xml(x, pi, ai, ii);
            proof {
                let pre = a.items.take(ii as int);
                let post = a.items.take(ii + 1);
                assert(post.drop_last() =~= pre);
                assert(post.last() == a.items[ii as int]);
                lemma_render_append(
                    items_events(pre, pi as nat, ai as nat),
                    item_events(a.items[ii as int], pi as nat, ai as nat, ii as nat),
                );
            }
            ii = ii + 1;
        }
        x.close("resources");
        x.close("area");
        proof {
            assert(a.items.take(n as int) =~= a.items);
            let its = items_events(a.items, pi as nat, ai as nat);
            let tail = seq![XmlEvent::End("resources"@), XmlEvent::End("area"@)];
            lemma_render_take(tail, 0);
            lemma_render_take(tail, 1);
            assert(tail.take(0) =~= Seq::<XmlEvent>::empty());
            assert(tail.take(2) =~= tail);
            lemma_render_append(head, its);
            lemma_render_append(head + its, tail);
            assert(area_events(a, pi as nat, ai as nat) =~= head + its + tail);
            assert(render(Seq::<XmlEvent>::empty()) =~= Seq::<char>::empty());
            assert(x@ =~= start + render(area_events(a, pi as nat, ai as nat)));
        }
    }
}

impl Program {
    /// A new program with the given name, played once through.
    pub fn new(name: &str) -> (p: Program)
        ensures
            p@ == (ProgramView { name: name@, play: PlayControl::Count(1), areas: Seq::empty() }),
    {
        let p = Program { name: String::from_str(name), play: PlayControl::Count(1), areas: Vec::new() };
        assert(p@.areas =~= Seq::<AreaView>::empty());
        p
    }

    /// Hold this program for a fixed number of seconds, chainable at
    /// construction.
    pub fn with_duration_secs(self, secs: u64) -> (p: Program)
        ensures
            p@ == (ProgramView { play: PlayControl::Duration(secs), ..self@ }),
    {
        let mut p = self;
        p.play = PlayControl::Duration(secs);
        p
    }

    /// Play this program's content through `count` times, chainable at
    /// construction.
    pub fn with_play_count(self, count: u32) -> (p: Program)
        ensures
            p@ == (ProgramView { play: PlayControl::Count(count), ..self@ }),
    {
        let mut p = self;
        p.play = PlayControl::Count(count);
        p
    }

    /// Append an area. Areas render stacked in push order.
    pub fn push_area(&mut self, area: Area)
        ensures
            final(self)@ == (ProgramView { areas: old(self)@.areas.push(area@), ..old(self)@ }),
    {
        let ghost before = self.areas@;
        let ghost av = area@;
        self.areas.push(area);
        assert(self.areas@.map_values(|a: Area| a@) =~= before.map_values(|a: Area| a@).push(av));
    }

    /// The areas, in render order.
    pub fn areas(&self) -> (r: &[Area])
        ensures
            r@.map_values(|a: Area| a@) == self@.areas,
    {
        self.areas.as_slice()
    }

    fn write_xml(&self, x: &mut XmlWriter, pi: usize)
        requires
            program_fits(self@),
        ensures
            final(x)@ == old(x)@ + render(program_events(self@, pi as nat)),
    {
        let ghost start = x@;
        let ghost p = self@;
        let ghost head = seq![
            XmlEvent::Start("program"@, seq![
                ("type"@, "normal"@),
                ("id"@, dec(pi as nat)),
                ("guid"@, program_guid(pi as nat)),
                ("name"@, p.name),
            ]),
            play_event(p.play),
        ];
        let id = u64_to_string(pi as u64);
        let mut guid = String::from_str("program-");
        push_dec(&mut guid, pi as u64);
        let a0 = [("type", "normal"), ("id", id.as_str()), ("guid", guid.as_str()), ("name", self.name.as_str())];
        x.open("program", &a0);
        proof {
            assert(head.take(0) =~= Seq::<XmlEvent>::empty());
            assert(attrs_view(a0@) =~= head[0]->Start_1);
            lemma_render_take(head, 0);
            assert(x@ =~= start + render(head.take(1)));
        }
        match self.play {
            PlayControl::Count(n) => {
                let count = u64_to_string(n as u64);
                let a = [("count", count.as_str())];
                x.empty("playControl", &a);
                proof {
                    assert(attrs_view(a@) =~= head[1]->Empty_1);
                }
            },
            PlayControl::Duration(secs) => {
                let ds = u64_to_string(secs * 10);
                let a = [("duration", ds.as_str())];
                x.empty("playControl", &a);
                proof {
                    assert(attrs_view(a@) =~= head[1]->Empty_1);
                }
            },
        }
        proof {
            lemma_render_take(head, 1);
            assert(head.take(2) =~= head);
            assert(areas_events(p.areas.take(0), pi as nat) =~= Seq::<XmlEvent>::empty());
            assert(x@ =~= start + render(head) + render(areas_events(p.areas.take(0), pi as nat)));
        }
        let n = self.areas.len();
        let mut ai: usize = 0;
        while ai < n
            invariant
                n == self.areas@.len(),
                ai <= n,
                p == self@,
                program_fits(p),
                x@ == start + render(head) + render(areas_events(p.areas.take(ai as int), pi as nat)),
            decreases n - ai,
        {
            proof {
                assert(p.areas[ai as int] == self.areas@[ai as int]@);
                assert(area_fits(p.areas[ai as int]));
            }
            self.areas[ai].write_xml(x, pi, ai);
            proof {
                let pre = p.areas.take(ai as int);
                let post = p.areas.take(ai + 1);
                assert(post.drop_last() =~= pre);
                assert(post.last() == p.areas[ai as int]);
                lemma_render_append(areas_events(pre, pi as nat), area_events(p.areas[ai as int], pi as nat, ai as nat));
            }
            ai = ai + 1;
        }
        x.close("program");
        proof {
            assert(p.areas.take(n as int) =~= p.areas);
            let ars = areas_events(p.areas, pi as nat);
            let tail = seq![XmlEvent::End("program"@)];
            lemma_render_take(tail, 0);
            assert(tail.take(0) =~= Seq::<XmlEvent>::empty());
            assert(tail.take(1) =~= tail);
            lemma_render_append(head, ars);
            lemma_render_append(head + ars, tail);
            assert(program_events(p, pi as nat) =~= head + ars + tail);
            assert(render(Seq::<XmlEvent>::empty()) =~= Seq::<char>::empty());
            assert(x@ =~= start + render(program_events(p, pi as nat)));
        }
    }
}

impl Screen {
    /// An empty screen. Sending it clears all programs from the device.
    pub fn new() -> (s: Screen)
        ensures
            s@ == Seq::<ProgramView>::empty(),
    {
        let s = Screen { programs: Vec::new() };
        assert(s@ =~= Seq::<ProgramView>::empty());
        s
    }

    /// Append a program. Programs play in push order.
    pub fn push_program(&mut self, program: Program)
        ensures
            final(self)@ == old(self)@.push(program@),
    {
        let ghost before = self.programs@;
        let ghost pv = program@;
        self.programs.push(program);
        assert(self.programs@.map_values(|p: Program| p@) =~= before.map_values(|p: Program| p@).push(pv));
    }

    /// Whether the screen has no programs.
    pub fn is_empty(&self) -> (b: bool)
        ensures
            b == (self@.len() == 0),
    {
        self.programs.len() == 0
    }

    /// The programs, in play order.
    pub fn programs(&self) -> (r: &[Program])
        ensures
            r@.map_values(|p: Program| p@) == self@,
    {
        self.programs.as_slice()
    }

    /// Whether every timing in the tree fits its field once scaled to
    /// deciseconds, which [`Screen::to_program_xml`] needs.
    pub fn timings_fit(&self) -> (b: bool)
        ensures
            b == screen_fits(self@),
    {
        let n = self.programs.len();
        let mut pi: usize = 0;
        while pi < n
            invariant
                n == self.programs@.len(),
                pi <= n,
                forall|i: int| 0 <= i < pi ==> program_fits(#[trigger] self@[i]),
            decreases n - pi,
        {
            let p = &self.programs[pi];
            proof {
                assert(self@[pi as int] == p@);
            }
            if let PlayControl::Duration(s) = p.play {
                if s > 0xffff_ffff_ffff_ffff / 10 {
                    return false;
                }
            }
            let m = p.areas.len();
            let mut ai: usize = 0;
            while ai < m
                invariant
                    m == p.areas@.len(),
                    ai <= m,
                    pi < self@.len(),
                    self@[pi as int] == p@,
                    forall|j: int| 0 <= j < ai ==> area_fits(#[trigger] p@.areas[j]),
                decreases m - ai,
            {
                let a = &p.areas[ai];
                proof {
                    assert(p@.areas[ai as int] == a@);
                }
                let k = a.items.len();
                let mut ii: usize = 0;
                while ii < k
                    invariant
                        k == a.items@.len(),
                        ii <= k,
                        pi < self@.len(),
                        self@[pi as int] == p@,
                        ai < p@.areas.len(),
                        p@.areas[ai as int] == a@,
                        forall|l: int| 0 <= l < ii ==> item_fits(#[trigger] a@.items[l]),
                    decreases k - ii,
                {
                    proof {
                        assert(a@.items[ii as int] == a.items@[ii as int]@);
                    }
                    if let Item::Text { config, .. } = &a.items[ii] {
                        if config.hold_secs > 0xffff_ffff / 10 {
                            proof {
                                assert(!item_fits(a@.items[ii as int]));
                                assert(!area_fits(p@.areas[ai as int]));
                                assert(!program_fits(self@[pi as int]));
                            }
                            return false;
                        }
                    }
                    ii = ii + 1;
                }
                ai = ai + 1;
            }
            pi = pi + 1;
        }
        true
    }

    /// Serialize to the `<screen>…</screen>` fragment `AddProgram` carries.
    /// No XML declaration: the request envelope injects the fragment verbatim.
    pub fn to_program_xml(&self) -> (res: Result<String, ProtoError>)
        requires
            screen_fits(self@),
        ensures
            res matches Ok(s) && s@ == render(screen_events(self@)),
    {
        let ghost ps = self@;
        let ghost open = XmlEvent::Start("screen"@, Seq::empty());
        let mut x = XmlWriter::new();
        let none: [(&str, &str); 0] = [];
        x.open("screen", &none);
        proof {
            assert(attrs_view(none@) =~= Seq::<(Seq<char>, Seq<char>)>::empty());
            assert(programs_events(ps.take(0)) =~= Seq::<XmlEvent>::empty());
            assert(render(seq![open]) == render(Seq::<XmlEvent>::empty()) + crate::sdk::xml::event_text(open)) by {
                crate::sdk::xml::lemma_render_push(Seq::empty(), open);
                assert(Seq::<XmlEvent>::empty().push(open) =~= seq![open]);
            }
            assert(render(Seq::<XmlEvent>::empty()) =~= Seq::<char>::empty());
            assert(x@ =~= render(seq![open]) + render(programs_events(ps.take(0))));
        }
        let n = self.programs.len();
        let mut pi: usize = 0;
        while pi < n
            invariant
                n == self.programs@.len(),
                pi <= n,
                ps == self@,
                screen_fits(ps),
                open == XmlEvent::Start("screen"@, Seq::empty()),
                x@ == render(seq![open]) + render(programs_events(ps.take(pi as int))),
            decreases n - pi,
        {
            proof {
                assert(ps[pi as int] == self.programs@[pi as int]@);
                assert(program_fits(ps[pi as int]));
            }
            self.programs[pi].write_xml(&mut x, pi);
            proof {
                let pre = ps.take(pi as int);
                let post = ps.take(pi + 1);
                assert(post.drop_last() =~= pre);
                assert(post.last() == ps[pi as int]);
                lemma_render_append(programs_events(pre), program_events(ps[pi as int], pi as nat));
            }
            pi = pi + 1;
        }
        x.close("screen");
        proof {
            assert(ps.take(n as int) =~= ps);
            let body = programs_events(ps);
            let close = XmlEvent::End("screen"@);
            crate::sdk::xml::lemma_render_push(seq![open] + body, close);
            lemma_render_append(seq![open], body);
            assert((seq![open] + body).push(close) =~= screen_events(ps));
        }
        Ok(x.into_string())
    }
}

} // verus!
