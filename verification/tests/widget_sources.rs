use mdfried::patterns::{Pattern, TextMatch};
use mdfried::model::{Model, PaddingConfig, ScreenSize};
use mdfried::widget_sources::{LineExtra, WidgetSource, WidgetSourceData, WidgetSources};
use ratatui::style::Stylize;
use ratatui::text::{Line, Span};

fn text_unit(id: usize, height: u16, text: &str) -> WidgetSource<'static> {
    WidgetSource {
        id,
        height,
        data: WidgetSourceData::Line(Line::from(String::from(text)), Vec::new()),
    }
}

fn header_unit(id: usize, text: &str) -> WidgetSource<'static> {
    WidgetSource {
        id,
        height: 2,
        data: WidgetSourceData::Header(String::from(text), 1),
    }
}

#[test]
fn widgestsources_update() {
    let mut ws = WidgetSources::new();
    ws.push(text_unit(0, 2, "line #0"));
    ws.push(text_unit(1, 2, "headerline1 headerline2"));
    ws.push(text_unit(2, 2, "line #2"));

    ws.update(vec![
        WidgetSource {
            id: 1,
            height: 2,
            data: WidgetSourceData::Header(String::from("headerline1"), 1),
        },
        WidgetSource {
            id: 1,
            height: 2,
            data: WidgetSourceData::Header(String::from("headerline2"), 1),
        },
    ]);
    assert_eq!(ws.len(), 4);
    assert_eq!(0, ws.sources()[0].id);
    assert_eq!(1, ws.sources()[1].id);
    assert!(WidgetSourceData::Header(String::from("headerline1"), 1) == ws.sources()[1].data);
    assert_eq!(1, ws.sources()[2].id);
    assert!(WidgetSourceData::Header(String::from("headerline2"), 1) == ws.sources()[2].data);
    assert_eq!(2, ws.sources()[3].id);

    ws.update(vec![
        WidgetSource {
            id: 1,
            height: 2,
            data: WidgetSourceData::Header(String::from("headerline3"), 1),
        },
        WidgetSource {
            id: 1,
            height: 2,
            data: WidgetSourceData::Header(String::from("headerline4"), 1),
        },
    ]);
    assert_eq!(ws.len(), 4);
    assert_eq!(0, ws.sources()[0].id);
    assert_eq!(1, ws.sources()[1].id);
    assert!(WidgetSourceData::Header(String::from("headerline3"), 1) == ws.sources()[1].data);
    assert_eq!(1, ws.sources()[2].id);
    assert!(WidgetSourceData::Header(String::from("headerline4"), 1) == ws.sources()[2].data);
    assert_eq!(2, ws.sources()[3].id);
}

#[test]
fn get_y() {
    let mut ws = WidgetSources::new();
    ws.push(header_unit(1, "one"));
    ws.push(text_unit(2, 1, "line"));
    ws.push(text_unit(3, 1, "line"));
    ws.push(header_unit(4, "one"));
    ws.push(text_unit(5, 1, "line"));
    assert_eq!(ws.get_y(1), 0);
    assert_eq!(ws.get_y(2), 2);
    assert_eq!(ws.get_y(3), 3);
    assert_eq!(ws.get_y(4), 4);
    assert_eq!(ws.get_y(5), 6);
}

#[test]
fn get_y_of_an_absent_id_is_the_total_height() {
    let mut ws = WidgetSources::new();
    ws.push(header_unit(1, "one"));
    ws.push(text_unit(2, 1, "line"));
    assert_eq!(ws.get_y(9), 3);
}

#[test]
fn add_search_offset() {
    let line = Line::from(vec![Span::from("▐").magenta(), Span::from(" hi")]);
    let mut wsd = WidgetSourceData::Line(line, Vec::new());
    wsd.add_search(&Some(Pattern::new("hi")));
    let WidgetSourceData::Line(_, extra) = wsd else {
        panic!("Line");
    };
    assert!(extra[0] == LineExtra::SearchMatch(2, 4, String::from("hi")));
}

#[test]
fn add_search_replaces_earlier_matches_and_keeps_links() {
    let mut unit = WidgetSource {
        id: 3,
        height: 1,
        data: WidgetSourceData::Line(
            Line::from("see http://a.com or ask"),
            vec![
                LineExtra::SearchMatch(0, 3, String::from("see")),
                LineExtra::Link(String::from("http://a.com"), 4, 16),
                LineExtra::SearchMatch(20, 23, String::from("ask")),
            ],
        ),
    };
    unit.add_search(&Some(Pattern::new("o")));
    let WidgetSourceData::Line(_, extras) = &unit.data else {
        panic!("Line");
    };
    assert_eq!(extras.len(), 3);
    assert!(extras[0] == LineExtra::Link(String::from("http://a.com"), 4, 16));
    assert!(extras[1] == LineExtra::SearchMatch(14, 15, String::from("o")));
    assert!(extras[2] == LineExtra::SearchMatch(17, 18, String::from("o")));

    unit.add_search(&None);
    let WidgetSourceData::Line(_, extras) = &unit.data else {
        panic!("Line");
    };
    assert_eq!(extras.len(), 1);
    assert!(extras[0] == LineExtra::Link(String::from("http://a.com"), 4, 16));
}

#[test]
fn add_search_leaves_other_units_alone() {
    let mut unit = header_unit(1, "hi there");
    unit.add_search(&Some(Pattern::new("hi")));
    assert!(unit == header_unit(1, "hi there"));
}

#[test]
fn search_extras_count_columns_not_bytes() {
    let found = vec![TextMatch { start: 7, end: 9, text: String::from("hi") }];
    let extras = mdfried::search::search_extras("日本 hi", &found);
    assert_eq!(extras.len(), 1);
    assert!(extras[0] == LineExtra::SearchMatch(5, 7, String::from("hi")));
}

#[test]
fn update_with_an_empty_list_changes_nothing() {
    let mut ws = WidgetSources::new();
    ws.push(text_unit(0, 1, "a"));
    ws.update(Vec::new());
    assert_eq!(ws.len(), 1);
    assert!(ws.sources()[0] == text_unit(0, 1, "a"));
}

#[test]
fn update_replaces_a_run_by_a_shorter_one() {
    let mut ws = WidgetSources::new();
    ws.push(text_unit(0, 1, "a"));
    ws.update(vec![header_unit(1, "h1"), header_unit(1, "h2"), header_unit(1, "h3")]);
    ws.update(vec![text_unit(2, 1, "z")]);
    assert_eq!(ws.len(), 5);
    ws.update(vec![text_unit(1, 1, "only")]);
    assert_eq!(ws.len(), 3);
    assert!(ws.sources()[0] == text_unit(0, 1, "a"));
    assert!(ws.sources()[1] == text_unit(1, 1, "only"));
    assert!(ws.sources()[2] == text_unit(2, 1, "z"));
}

#[test]
fn update_appends_above_every_id_and_into_an_empty_store() {
    let mut ws = WidgetSources::new();
    ws.update(vec![text_unit(4, 1, "first")]);
    assert_eq!(ws.len(), 1);
    ws.update(vec![text_unit(7, 1, "later")]);
    assert_eq!(ws.len(), 2);
    assert_eq!(ws.sources()[1].id, 7);
}

#[test]
fn update_of_an_absent_id_below_the_last_changes_nothing() {
    let mut ws = WidgetSources::new();
    ws.push(text_unit(1, 1, "a"));
    ws.push(text_unit(5, 1, "b"));
    ws.update(vec![text_unit(3, 1, "lost")]);
    assert_eq!(ws.len(), 2);
    assert!(ws.sources()[0] == text_unit(1, 1, "a"));
    assert!(ws.sources()[1] == text_unit(5, 1, "b"));
}

#[test]
fn trim_cuts_after_the_last_id() {
    let mut ws = WidgetSources::new();
    for id in 0..6 {
        ws.push(text_unit(id, 1, "line"));
    }
    ws.trim_last_source(Some(3));
    assert_eq!(ws.len(), 4);
    assert_eq!(ws.sources()[3].id, 3);
}

#[test]
fn trim_twice_is_trim_once() {
    let mut ws = WidgetSources::new();
    for id in 0..6 {
        ws.push(text_unit(id, 1, "line"));
    }
    ws.trim_last_source(Some(2));
    let once: Vec<usize> = ws.sources().iter().map(|unit| unit.id).collect();
    ws.trim_last_source(Some(2));
    let twice: Vec<usize> = ws.sources().iter().map(|unit| unit.id).collect();
    assert_eq!(once, vec![0, 1, 2]);
    assert_eq!(once, twice);
}

#[test]
fn trim_without_an_id_or_with_an_absent_id_keeps_the_list() {
    let mut ws = WidgetSources::new();
    for id in 0..3 {
        ws.push(text_unit(id, 1, "line"));
    }
    ws.trim_last_source(None);
    assert_eq!(ws.len(), 3);
    ws.trim_last_source(Some(9));
    assert_eq!(ws.len(), 3);
    ws.trim_last_source(Some(2));
    assert_eq!(ws.len(), 3);
}

#[test]
fn image_unknown_is_a_broken_image_of_one_row() {
    let unit = WidgetSource::image_unknown(4, String::from("a.png"), String::from("not found"));
    assert_eq!(unit.id, 4);
    assert_eq!(unit.height, 1);
    assert!(unit.data == WidgetSourceData::BrokenImage(String::from("a.png"), String::from("not found")));
}

#[test]
fn loading_line_names_the_image() {
    let unit = WidgetSource::loading(2, "a.png");
    assert!(unit == text_unit(2, 1, "![Loading...](a.png)"));
}

#[test]
fn units_are_the_same_only_where_all_they_show_is() {
    assert!(text_unit(1, 1, "a") == text_unit(1, 1, "a"));
    assert!(text_unit(1, 1, "a") != text_unit(1, 1, "b"));
    assert!(text_unit(1, 1, "a") != text_unit(2, 1, "a"));
    assert!(text_unit(1, 1, "a") != text_unit(1, 2, "a"));
    assert!(text_unit(1, 2, "a") != header_unit(1, "a"));
    let plain = WidgetSourceData::Line(Line::from("a"), Vec::new());
    let styled = WidgetSourceData::Line(Line::from(Span::from("a").bold()), Vec::new());
    assert!(plain != styled);
    let linked = |url: &str, start| {
        WidgetSourceData::Line(Line::from("a"), vec![LineExtra::Link(url.to_owned(), start, 1)])
    };
    assert!(linked("u", 0) == linked("u", 0));
    assert!(linked("u", 0) != linked("v", 0));
    assert!(linked("u", 0) != linked("u", 1));
    assert!(linked("u", 0) != plain);
    assert!(
        LineExtra::SearchMatch(0, 1, "a".into()) != LineExtra::Link("a".into(), 0, 1)
    );
    assert!(
        WidgetSourceData::BrokenImage("u".into(), "x".into())
            != WidgetSourceData::BrokenImage("u".into(), "y".into())
    );
    assert!(
        WidgetSourceData::Header("h".into(), 1) != WidgetSourceData::Header("h".into(), 2)
    );
}

#[test]
fn a_needle_is_searched_for_as_it_is_written_whatever_its_case() {
    let mut model = Model::new(None, ScreenSize { width: 80, height: 20 }, PaddingConfig::Off);
    model.sources.push(text_unit(0, 1, "abc A.C a.c (x)"));
    model.add_searches(Some("a.c".to_owned()));
    let WidgetSourceData::Line(_, extras) = &model.sources()[0].data else {
        panic!("Line");
    };
    assert_eq!(extras.len(), 2);
    assert!(extras[0] == LineExtra::SearchMatch(4, 7, "A.C".into()));
    assert!(extras[1] == LineExtra::SearchMatch(8, 11, "a.c".into()));

    model.add_searches(Some("(X)".to_owned()));
    let WidgetSourceData::Line(_, extras) = &model.sources()[0].data else {
        panic!("Line");
    };
    assert_eq!(extras.len(), 1);
    assert!(extras[0] == LineExtra::SearchMatch(12, 15, "(x)".into()));

    model.add_searches(None);
    let WidgetSourceData::Line(_, extras) = &model.sources()[0].data else {
        panic!("Line");
    };
    assert!(extras.is_empty());
}

#[test]
fn a_new_store_is_empty() {
    let ws = WidgetSources::default();
    assert_eq!(ws.len(), 0);
    assert!(ws.get(0).is_none());
    assert!(!ws.contains_id(0));
    assert!(!ws.holds_image(0, "a.png"));
    let mut ws = WidgetSources::new();
    ws.push(text_unit(4, 1, "a"));
    assert!(ws.contains_id(4));
    assert_eq!(ws.get(0).unwrap().id, 4);
    assert!(ws.get(1).is_none());
}

#[test]
fn every_character_of_a_needle_stands_for_itself() {
    let needle = r"\.+*?()|[]{}^$#&-~ %/!";
    let text = format!("x{needle}y{needle}");
    let mut model = Model::new(None, ScreenSize { width: 80, height: 20 }, PaddingConfig::Off);
    model.sources.push(text_unit(0, 1, &text));
    model.add_searches(Some(needle.to_owned()));
    let WidgetSourceData::Line(_, extras) = &model.sources()[0].data else {
        panic!("Line");
    };
    assert_eq!(extras.len(), 2);
    assert!(extras[0] == LineExtra::SearchMatch(1, 23, needle.to_owned()));
    assert!(extras[1] == LineExtra::SearchMatch(24, 46, needle.to_owned()));
}

fn without_line_endings(text: &str) -> String {
    let chars: Vec<char> = text.chars().collect();
    let mut out = String::new();
    let mut i = 0;
    while i < chars.len() {
        if chars[i] == '\n' {
            i += 1;
        } else if chars[i] == '\r' && i + 1 < chars.len() && chars[i + 1] == '\n' {
            i += 2;
        } else {
            out.push(chars[i]);
            i += 1;
        }
    }
    out
}

fn text_of(unit: &WidgetSource) -> String {
    let WidgetSourceData::Line(line, extras) = &unit.data else {
        panic!("Line");
    };
    assert!(extras.is_empty());
    line.to_string()
}

#[test]
fn lines_lose_their_line_endings_and_nothing_else() {
    let texts = [
        "", "a", "a\nb", "a\r\nb", "a\rb", "a\r", "\r", "\n", "\r\n", "a\n", "a\n\n", "\n\nb",
        "\r\n\r\n", "a\r\r\nb", "a\n\rb", "a\r\n\r", "\r\r", " \n ", "日本\n語", "a\u{2028}b",
        "a\u{85}b", "a\u{b}b\u{c}c",
    ];
    for text in texts {
        let loading = WidgetSource::loading(1, text);
        assert_eq!(
            text_of(&loading),
            without_line_endings(&format!("![Loading...]({text})")),
            "{text:?}"
        );
        let header = mdfried::events::header_line(2, 3, text.to_owned());
        assert_eq!(
            text_of(&header),
            format!("### {}", without_line_endings(text)),
            "{text:?}"
        );
    }
    assert_eq!(text_of(&WidgetSource::loading(1, "a\r\nb\nc\rd")), "![Loading...](abc\rd)");
}

#[test]
fn patterns_tell_case_apart_unless_they_are_literal() {
    let line = || WidgetSourceData::Line(Line::from("Hi hi h.i"), Vec::new());
    let search = |pattern: Pattern| {
        let mut data = line();
        data.add_search(&Some(pattern));
        let WidgetSourceData::Line(_, extras) = data else {
            panic!("Line");
        };
        extras
    };
    let found = search(Pattern::new("hi"));
    assert_eq!(found.len(), 1);
    assert!(found[0] == LineExtra::SearchMatch(3, 5, "hi".into()));
    let found = search(Pattern::new("h.i"));
    assert_eq!(found.len(), 1);
    assert!(found[0] == LineExtra::SearchMatch(6, 9, "h.i".into()));
    let found = search(Pattern::literal("hi"));
    assert_eq!(found.len(), 2);
    assert!(found[0] == LineExtra::SearchMatch(0, 2, "Hi".into()));
    let found = search(Pattern::literal("H.I"));
    assert_eq!(found.len(), 1);
    assert!(found[0] == LineExtra::SearchMatch(6, 9, "h.i".into()));
    // A text that is no regular expression finds nothing.
    assert!(search(Pattern::new("(")).is_empty());
    // An empty pattern matches between all characters.
    assert_eq!(search(Pattern::new("")).len(), 10);
}

#[test]
fn trim_keeps_the_whole_run_of_the_last_id() {
    let mut ws = WidgetSources::new();
    ws.push(text_unit(0, 1, "a"));
    ws.update(vec![header_unit(1, "h1"), header_unit(1, "h2"), header_unit(1, "h3")]);
    ws.update(vec![text_unit(2, 1, "stale")]);
    ws.update(vec![text_unit(3, 1, "stale")]);
    assert_eq!(ws.len(), 6);
    ws.trim_last_source(Some(1));
    let ids: Vec<usize> = ws.sources().iter().map(|unit| unit.id).collect();
    assert_eq!(ids, vec![0, 1, 1, 1]);
    assert!(ws.sources()[3] == header_unit(1, "h3"));
    ws.trim_last_source(Some(1));
    assert_eq!(ws.len(), 4);
    ws.trim_last_source(Some(0));
    assert_eq!(ws.len(), 1);
}
