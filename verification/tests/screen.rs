use huidu::screen::{Area, ClockConfig, Color, Effect, HAlign, PlayControl, Program, Screen, TextConfig, TimeFormat, VAlign};

#[test]
fn color_hex_is_lowercase_six_digits() {
    assert_eq!(Color::red().to_hex(), "#ff0000");
    assert_eq!(Color::rgb(0x0a, 0xb0, 0x0c).to_hex(), "#0ab00c");
    assert_eq!(Color::default(), Color::white());
}

#[test]
fn effect_codes_and_scroll_classification() {
    assert_eq!(Effect::default(), Effect::Immediate);
    assert_eq!(Effect::Immediate.code(), 0);
    assert_eq!(Effect::LeftScrollLoop.code(), 5);
    assert!(Effect::LeftScrollLoop.is_continuous_scroll());
    assert!(!Effect::FadeIn.is_continuous_scroll());
    assert!(!Effect::MoveLeft.is_continuous_scroll());
}

#[test]
fn defaults_are_sensible() {
    let t = TextConfig::default();
    assert_eq!(t.font_name, "Arial");
    assert_eq!(t.color, Color::white());
    assert_eq!(t.h_align, HAlign::Center);
    let c = ClockConfig::default();
    assert!(c.show_time);
    assert!(!c.show_date);
    assert_eq!(c.time_format.code(), 0);
}

#[test]
fn named_colors_and_alignment_strings() {
    assert_eq!(Color::cyan().to_hex(), "#00ffff");
    assert_eq!(Color::magenta(), Color::rgb(0xff, 0x00, 0xff));
    assert_eq!(Color::black().to_hex(), "#000000");
    assert_eq!(HAlign::Right.as_str(), "right");
    assert_eq!(VAlign::Bottom.as_str(), "bottom");
    assert_eq!(TimeFormat::Hour12.code(), 1);
    assert_eq!(Effect::Flicker.code(), 11);
}

fn text_program(effect: Effect) -> Screen {
    let mut screen = Screen::new();
    let mut prog = Program::new("welcome");
    let mut area = Area::full_screen(128, 64);
    area.add_text(
        "Hi",
        TextConfig { color: Color::red(), font_size: 14, effect, speed: 4, hold_secs: 3, ..Default::default() },
    );
    prog.push_area(area);
    screen.push_program(prog);
    screen
}

#[test]
fn empty_screen_serializes_to_empty_screen_element() {
    let xml = Screen::new().to_program_xml().unwrap();
    assert_eq!(xml, "<screen></screen>");
}

#[test]
fn text_program_has_expected_shape() {
    let xml = text_program(Effect::Immediate).to_program_xml().unwrap();
    assert!(xml.starts_with("<screen><program type=\"normal\" id=\"0\" guid=\"program-0\" name=\"welcome\">"));
    assert!(xml.contains("<playControl count=\"1\"/>"));
    assert!(xml.contains("<rectangle x=\"0\" y=\"0\" width=\"128\" height=\"64\"/>"));
    assert!(xml.contains("<string>Hi</string>"));
    assert!(xml.contains("color=\"#ff0000\""));
    assert!(xml.contains("size=\"14\""));
    assert!(xml.contains("<effect in=\"0\" inSpeed=\"4\" out=\"0\" outSpeed=\"4\" duration=\"30\"/>"));
    assert!(xml.ends_with("</program></screen>"));
}

#[test]
fn continuous_scroll_sets_single_line() {
    let scroll = text_program(Effect::LeftScrollLoop).to_program_xml().unwrap();
    assert!(scroll.contains("singleLine=\"true\""));
    assert!(scroll.contains("<effect in=\"5\""));
    let still = text_program(Effect::Immediate).to_program_xml().unwrap();
    assert!(still.contains("singleLine=\"false\""));
}

#[test]
fn text_content_and_attrs_are_escaped() {
    let mut screen = Screen::new();
    let mut prog = Program::new("a & b");
    let mut area = Area::full_screen(64, 32);
    area.add_text("<x> & \"y\"", TextConfig::default());
    prog.push_area(area);
    screen.push_program(prog);
    let xml = screen.to_program_xml().unwrap();
    assert!(xml.contains("<string>&lt;x&gt; &amp; &quot;y&quot;</string>"));
    assert!(xml.contains("name=\"a &amp; b\""));
}

#[test]
fn duration_playcontrol_uses_deciseconds() {
    let mut screen = Screen::new();
    screen.push_program(Program::new("p").with_duration_secs(10));
    let xml = screen.to_program_xml().unwrap();
    assert!(xml.contains("<playControl duration=\"100\"/>"));
}

#[test]
fn clock_item_emits_lines() {
    let mut screen = Screen::new();
    let mut prog = Program::new("clock");
    let mut area = Area::full_screen(128, 64);
    area.add_clock(ClockConfig { show_time: true, show_date: true, time_color: Color::cyan(), ..Default::default() });
    prog.push_area(area);
    screen.push_program(prog);
    let xml = screen.to_program_xml().unwrap();
    assert!(xml.contains("<clock guid=\"clock-0-0-0\" type=\"0\" multiLine=\"false\">"));
    assert!(xml.contains("<time display=\"true\" format=\"0\" color=\"#00ffff\"/>"));
    assert!(xml.contains("<date display=\"true\" color=\"#ffffff\"/>"));
    assert!(xml.contains("<week display=\"false\""));
}

#[test]
fn multiple_programs_and_areas_get_positional_guids() {
    let mut screen = Screen::new();
    let mut p0 = Program::new("p0");
    let mut a0 = Area::new(0, 0, 64, 32);
    a0.add_text("one", TextConfig::default());
    p0.push_area(a0);
    screen.push_program(p0);
    let mut p1 = Program::new("p1");
    let mut a1 = Area::new(0, 0, 64, 32);
    a1.add_text("two", TextConfig::default());
    p1.push_area(a1);
    screen.push_program(p1);
    let xml = screen.to_program_xml().unwrap();
    assert!(xml.contains("guid=\"program-0\""));
    assert!(xml.contains("guid=\"program-1\""));
    assert!(xml.contains("guid=\"text-1-0-0\""));
}

#[test]
fn a_full_text_item_serializes_exactly() {
    let mut screen = Screen::new();
    let mut prog = Program::new("n").with_play_count(2);
    let mut area = Area::new(1, 2, 3, 4);
    area.add_text("t", TextConfig { h_align: HAlign::Left, v_align: VAlign::Top, bold: true, ..Default::default() });
    prog.push_area(area);
    screen.push_program(prog);
    assert_eq!(
        screen.to_program_xml().unwrap(),
        "<screen><program type=\"normal\" id=\"0\" guid=\"program-0\" name=\"n\"><playControl count=\"2\"/>\
<area guid=\"area-0-0\" alpha=\"255\"><rectangle x=\"1\" y=\"2\" width=\"3\" height=\"4\"/><resources>\
<text guid=\"text-0-0-0\" singleLine=\"false\"><style align=\"left\" valign=\"top\"/><string>t</string>\
<font name=\"Arial\" size=\"12\" color=\"#ffffff\" bold=\"true\" italic=\"false\" underline=\"false\"/>\
<effect in=\"0\" inSpeed=\"4\" out=\"0\" outSpeed=\"4\" duration=\"30\"/></text></resources></area></program></screen>"
    );
}

#[test]
fn tree_accessors_and_timing_check() {
    let mut screen = Screen::new();
    assert!(screen.is_empty());
    let mut prog = Program::new("p");
    let mut area = Area::full_screen(8, 8);
    area.add_clock(ClockConfig::default());
    assert_eq!(area.items().len(), 1);
    prog.push_area(area);
    assert_eq!(prog.areas().len(), 1);
    assert_eq!(prog.play, PlayControl::Count(1));
    screen.push_program(prog);
    assert!(!screen.is_empty());
    assert_eq!(screen.programs().len(), 1);
    assert!(screen.timings_fit());
    let mut long = Screen::new();
    long.push_program(Program::new("x").with_duration_secs(u64::MAX));
    assert!(!long.timings_fit());
}
