use qbar::docs;
use qbar::text::{is_whitespace, str_equal, trim};
use qbar::util::format_iter_with_spacer;
use qbar::web::{
    add_attribute, as_background, as_color_style, as_foreground, color_to_rgb_text, preformatted,
    styled_text_to_html, Attribute, Clear, Color, Markup, Msg, State, Terminal, WriteStyle,
};

#[test]
fn rgb_text() {
    assert_eq!(color_to_rgb_text(Color(255, 0, 17)), "rgb(255, 0, 17)");
    assert_eq!(color_to_rgb_text(Color(9, 10, 100)), "rgb(9, 10, 100)");
    assert_eq!(as_foreground(Color(1, 2, 3)), "color: rgb(1, 2, 3)");
    assert_eq!(as_background(Color(1, 2, 3)), "background: rgb(1, 2, 3)");
    assert_eq!(
        as_color_style(Color(1, 2, 3), Color(4, 5, 6)),
        "color: rgb(1, 2, 3); background: rgb(4, 5, 6)"
    );
}

#[test]
fn terminal_new_bounds() {
    assert!(Terminal::<u8>::new(10, 0).is_none());
    assert!(Terminal::<u8>::new(10, 10).is_none());
    assert!(Terminal::<u8>::new(10, 11).is_none());
    let t = Terminal::<u8>::new(10, 3).unwrap();
    assert_eq!(t.max_capacity(), 10);
    assert_eq!(t.drop_count(), 3);
    let d = Terminal::<u8>::default();
    assert_eq!(d.max_capacity(), 1024);
    assert_eq!(d.drop_count(), 256);
}

#[test]
fn terminal_write_and_done() {
    let mut t = Terminal::<&str>::new(4, 2).unwrap();
    t.write_styled("a");
    t.write_styled("b");
    assert_eq!(t.entries(), &vec![vec!["a", "b"]]);
    t.done();
    t.write_styled("c");
    assert_eq!(t.entries(), &vec![vec!["a", "b"], vec!["c"]]);
}

#[test]
fn terminal_stays_within_capacity() {
    let mut t = Terminal::<u32>::new(4, 2).unwrap();
    for i in 0..10u32 {
        t.write_styled(i);
        t.done();
        assert!(t.entries().len() <= 4);
        assert_eq!(t.entries().back().unwrap().last(), Some(&i));
    }
    assert_eq!(t.entries(), &vec![vec![6], vec![7], vec![8], vec![9]]);
}

#[test]
fn terminal_maybe_drop_and_clear() {
    let mut t = Terminal::<u32>::new(3, 2).unwrap();
    for i in 0..3u32 {
        t.write_styled(i);
        t.done();
    }
    assert!(t.maybe_drop());
    assert_eq!(t.entries(), &vec![vec![2]]);
    assert!(!t.maybe_drop());
    t.clear(Clear::CurrentLine);
    assert_eq!(t.entries().len(), 1);
    t.clear(Clear::All);
    assert!(t.entries().is_empty());
}

#[test]
fn web_state_updates() {
    let mut s = State::new();
    assert!(!s.started());
    assert!(s.update(Msg::Update("  help ".to_string())));
    assert_eq!(s.value(), "  help ");
    assert!(s.update(Msg::Run));
    assert_eq!(s.value(), "");
    assert!(s.started());
    assert_eq!(s.entries(), &vec!["help information ...".to_string()]);
    s.update(Msg::Update("foo ".to_string()));
    s.update(Msg::Run);
    assert_eq!(s.entries()[1], "missing command: foo ");
    s.update(Msg::Update("   ".to_string()));
    s.update(Msg::Run);
    assert_eq!(s.entries().len(), 2);
    s.update(Msg::Update("clear".to_string()));
    s.update(Msg::Run);
    assert!(s.entries().is_empty());
    s.update(Msg::Update("?".to_string()));
    s.update(Msg::Run);
    s.update(Msg::Idle);
    assert_eq!(s.entries().len(), 1);
    s.update(Msg::Clear);
    assert!(s.entries().is_empty());
    let d = State::default();
    assert!(d.entries().is_empty());
}

#[test]
fn docs_state_updates() {
    let mut s = docs::State::new();
    s.update(docs::Msg::Update(" ls -a".to_string()));
    assert_eq!(s.value(), " ls -a");
    assert!(s.update(docs::Msg::Run));
    assert_eq!(s.entries(), &vec![" ls -a".to_string()]);
    assert_eq!(s.value(), "");
    s.update(docs::Msg::Run);
    assert_eq!(s.entries().len(), 1);
    s.update(docs::Msg::Update(" clear ".to_string()));
    s.update(docs::Msg::Run);
    assert!(s.entries().is_empty());
    s.update(docs::Msg::Update("x".to_string()));
    s.update(docs::Msg::Run);
    s.update(docs::Msg::Clear);
    assert!(s.entries().is_empty());
}

#[test]
fn whitespace_and_trim() {
    assert!(is_whitespace(' '));
    assert!(is_whitespace('\u{3000}'));
    assert!(is_whitespace('\u{85}'));
    assert!(!is_whitespace('a'));
    assert!(!is_whitespace('\u{200b}'));
    for c in ['\t', '\n', '\u{a0}', '\u{2009}', 'x', '_', '\u{180e}'] {
        assert_eq!(is_whitespace(c), c.is_whitespace());
    }
    assert_eq!(trim("  a b \u{2003}"), "a b");
    assert_eq!(trim("   "), "");
    assert_eq!(trim(""), "");
    assert!(str_equal("abc", "abc"));
    assert!(!str_equal("abc", "abd"));
    assert!(!str_equal("ab", "abc"));
}

#[test]
fn spaced_formatting() {
    let items = [1u32, 2, 3];
    let mut out = String::new();
    let r: Result<(), ()> =
        format_iter_with_spacer(&items, &mut out, |i: &u32| Ok(i.to_string()), || Ok(", ".to_string()));
    assert_eq!(r, Ok(()));
    assert_eq!(out, "1, 2, 3");
    let mut out = String::from(">");
    let r: Result<(), ()> =
        format_iter_with_spacer(&[] as &[u32], &mut out, |i: &u32| Ok(i.to_string()), || Ok(",".to_string()));
    assert_eq!(r, Ok(()));
    assert_eq!(out, ">");
    let mut out = String::new();
    let r = format_iter_with_spacer(
        &items,
        &mut out,
        |i: &u32| if *i == 2 { Err(*i) } else { Ok(i.to_string()) },
        || Ok("-".to_string()),
    );
    assert_eq!(r, Err(2));
    assert_eq!(out, "1-");
}

#[test]
fn spaced_formatting_goes_on_after_a_failing_first_item() {
    let items = [1u32, 2, 3];
    let mut out = String::new();
    let r = format_iter_with_spacer(
        &items,
        &mut out,
        |i: &u32| if *i == 1 { Err(format!("item {}", i)) } else { Ok(i.to_string()) },
        || Ok("-".to_string()),
    );
    assert_eq!(r, Err("item 1".to_string()));
    assert_eq!(out, "-2-3");
}

#[test]
fn spaced_formatting_formats_the_item_after_a_failing_spacer() {
    let items = [1u32, 2, 3];
    let mut out = String::new();
    let r = format_iter_with_spacer(
        &items,
        &mut out,
        |i: &u32| if *i == 2 { Err(format!("item {}", i)) } else { Ok(i.to_string()) },
        || Err::<String, String>("spacer".to_string()),
    );
    assert_eq!(r, Err("spacer".to_string()));
    assert_eq!(out, "1");
}

fn text(t: &str) -> Markup {
    Markup::Text(t.to_string())
}

fn span(style: &str, t: &str) -> Markup {
    Markup::Span(style.to_string(), t.to_string())
}

#[test]
fn preformatted_text() {
    assert_eq!(preformatted("", "a b"), text("a b"));
    assert_eq!(preformatted("  \t", "x"), text("x"));
    assert_eq!(preformatted("color: red", "x"), span("color: red", "x"));
}

#[test]
fn attributes_wrap_markup() {
    assert_eq!(add_attribute(Attribute::Bold, text("x")), Markup::Bold(Box::new(text("x"))));
    assert_eq!(add_attribute(Attribute::Underlined, text("x")), text("x"));
    assert_eq!(add_attribute(Attribute::ItalicUnderlined, text("x")), Markup::Italic(Box::new(text("x"))));
    assert_eq!(
        add_attribute(Attribute::BoldItalicUnderlined, text("x")),
        Markup::Bold(Box::new(Markup::Italic(Box::new(text("x")))))
    );
}

#[test]
fn styled_text_markup() {
    let c = Color(1, 2, 3);
    let d = Color(40, 50, 255);
    assert_eq!(styled_text_to_html("hi", WriteStyle::Plain), text("hi"));
    assert_eq!(styled_text_to_html("hi", WriteStyle::Foreground(c)), span("color: rgb(1, 2, 3)", "hi"));
    assert_eq!(
        styled_text_to_html("hi", WriteStyle::Color(c, d)),
        span("color: rgb(1, 2, 3); background: rgb(40, 50, 255)", "hi")
    );
    assert_eq!(
        styled_text_to_html("hi", WriteStyle::BackgroundAttribute(d, Attribute::BoldItalic)),
        Markup::Bold(Box::new(Markup::Italic(Box::new(span("background: rgb(40, 50, 255)", "hi")))))
    );
    assert_eq!(
        styled_text_to_html("hi", WriteStyle::Attribute(Attribute::Italic)),
        Markup::Italic(Box::new(text("hi")))
    );
}
