use mdfried::document::DocumentId;
use mdfried::markdown::blocks::{split_headers_and_images as split, Block, Splitter};
use mdfried::markdown::links::{capture_line, LinkPatterns, COLOR_DECOR, COLOR_LINK, COLOR_TEXT};
use mdfried::markdown::shapes::{check_shapes, check_text, CellShape, LineShape};
use mdfried::markdown::{
    checked_parse, checked_parse_pass, fitting_width, header_width, parse, parse_pass, Skin,
};
use mdfried::messages::Event;
use mdfried::widget_sources::{LineExtra, WidgetSource, WidgetSourceData};
use ratatui::style::{Color, Stylize};
use ratatui::text::{Line, Span};

#[test]
fn split_headers_and_images() {
    let blocks = split(
        r#"
# header

paragraph

paragraph

# header

paragraph
paragraph

# header

paragraph

# header
"#,
    );
    assert_eq!(
        blocks,
        vec![
            Block::Header(1, "header".to_owned()),
            Block::Markdown("paragraph\n\nparagraph\n".to_owned()),
            Block::Header(1, "header".to_owned()),
            Block::Markdown("paragraph\nparagraph\n".to_owned()),
            Block::Header(1, "header".to_owned()),
            Block::Markdown("paragraph\n".to_owned()),
            Block::Header(1, "header".to_owned()),
        ]
    );
}

#[test]
fn split_headers_and_images_without_space() {
    let blocks = split(
        r#"
# header
paragraph
# header
# header
paragraph
# header
"#,
    );
    assert_eq!(6, blocks.len());
    assert_eq!(
        blocks,
        vec![
            Block::Header(1, "header".to_owned()),
            Block::Markdown("paragraph".to_owned()),
            Block::Header(1, "header".to_owned()),
            Block::Header(1, "header".to_owned()),
            Block::Markdown("paragraph".to_owned()),
            Block::Header(1, "header".to_owned()),
        ]
    );
}

#[test]
fn codefence() {
    let blocks = split(
        r#"
# header

paragraph

```c
#ifdef FOO
bar();
#endif
```

paragraph

  ~~~~
  x("
  ~~~
  ");
  #define Y
  z();
  ~~~~

# header

paragraph
"#,
    );
    assert_eq!(
        blocks,
        vec![
            Block::Header(1, "header".to_owned()),
            Block::Markdown(
                r#"paragraph

```c
#ifdef FOO
bar();
#endif
```

paragraph

  ~~~~
  x("
  ~~~
  ");
  #define Y
  z();
  ~~~~
"#
                .to_owned()
            ),
            Block::Header(1, "header".to_owned()),
            Block::Markdown("paragraph".to_owned()),
        ]
    );
}

#[test]
fn split_finds_images_on_lines_of_their_own() {
    let blocks = split("intro\n![alt text](a.png)\nsee ![inline](b.png) here\n####### deep");
    assert_eq!(
        blocks,
        vec![
            Block::Markdown("intro".to_owned()),
            Block::Image("alt text".to_owned(), "a.png".to_owned()),
            Block::Markdown("see ![inline](b.png) here".to_owned()),
            Block::Header(6, "deep".to_owned()),
        ]
    );
}

#[test]
fn split_of_an_empty_text_gives_no_block() {
    assert_eq!(split(""), Vec::new());
}

#[test]
fn splitter_takes_lines_with_their_captures() {
    let mut splitter = Splitter::new();
    splitter.take_line("text", None, None, None);
    splitter.take_line(
        "## two",
        Some(vec![Some("## two".to_owned()), Some("##".to_owned()), Some("two".to_owned())]),
        None,
        None,
    );
    splitter.take_line("~~~", None, None, Some(vec![Some("~~~".to_owned()), Some("~~~".to_owned())]));
    assert!(splitter.in_codefence());
    splitter.take_line(
        "# inside",
        Some(vec![Some("# inside".to_owned()), Some("#".to_owned()), Some("inside".to_owned())]),
        None,
        None,
    );
    splitter.take_line("~~~~", None, None, Some(vec![Some("~~~~".to_owned()), Some("~~~~".to_owned())]));
    assert!(!splitter.in_codefence());
    assert_eq!(
        splitter.finish(),
        vec![
            Block::Markdown("text".to_owned()),
            Block::Header(2, "two".to_owned()),
            Block::Markdown("~~~\n# inside\n~~~~".to_owned()),
        ]
    );
}

#[test]
fn parse_one_basic_line() {
    let events: Vec<Event> = parse("*ah* ha ha", &Skin::new(), DocumentId::default(), 80, true);
    assert_eq!(events.len(), 1);
    let Event::Parsed(document_id, source) = &events[0] else {
        panic!("expected Parsed");
    };
    assert_eq!(*document_id, DocumentId::default());
    let expected = WidgetSource {
        id: 0,
        height: 1,
        data: WidgetSourceData::Line(
            Line::from(vec![Span::from("ah").italic(), Span::from(" ha ha")]),
            Vec::new(),
        ),
    };
    assert!(*source == expected);
}

fn header_of(event: &Event) -> (usize, u16, String, u8) {
    let Event::Parsed(_, WidgetSource { id, height, data: WidgetSourceData::Header(text, tier) }) =
        event
    else {
        panic!("expected Header");
    };
    (*id, *height, text.clone(), *tier)
}

#[test]
fn parse_header_wrapping_tier_1() {
    let events: Vec<Event> =
        parse("# 1234567890", &Skin::new(), DocumentId::default(), 10, true);
    assert_eq!(2, events.len());
    assert_eq!(header_of(&events[0]), (0, 2, "12345".to_owned(), 1));
    assert_eq!(header_of(&events[1]), (1, 2, "67890".to_owned(), 1));
}

#[test]
fn parse_header_wrapping_tier_4() {
    let events: Vec<Event> =
        parse("#### 1234567890", &Skin::new(), DocumentId::default(), 10, true);
    assert_eq!(2, events.len());
    assert_eq!(header_of(&events[0]), (0, 2, "1234567".to_owned(), 4));
    assert_eq!(header_of(&events[1]), (1, 2, "890".to_owned(), 4));
}

#[test]
fn header_width_scales_half_the_width() {
    assert_eq!(header_width(10, 1), 5);
    assert_eq!(header_width(10, 4), 7);
    assert_eq!(header_width(80, 2), 48);
    assert_eq!(header_width(81, 6), 120);
    assert_eq!(header_width(u16::MAX, 6), u16::MAX);
}

fn four_blocks() -> &'static str {
    "# Hello\nThis is a test markdown document.\n![image](./assets/NixOS.png)\nGoodbye."
}

#[test]
fn parse_numbers_the_units_and_asks_for_images_and_headers() {
    let generation = DocumentId { id: 3, reload_id: 1 };
    let events: Vec<Event> = parse(four_blocks(), &Skin::new(), generation, 80, false);
    assert_eq!(events.len(), 6);
    let Event::ParseHeader(document_id, id, tier, text) = &events[0] else {
        panic!("expected ParseHeader");
    };
    assert_eq!((*document_id, *id, *tier, text.as_str()), (generation, 0, 1, "Hello"));
    let Event::Parsed(_, paragraph) = &events[1] else {
        panic!("expected Parsed");
    };
    assert_eq!(paragraph.id, 1);
    assert_eq!(paragraph.height, 1);
    let Event::Parsed(_, spacer) = &events[2] else {
        panic!("expected Parsed");
    };
    assert!(
        *spacer
            == WidgetSource {
                id: 2,
                height: 1,
                data: WidgetSourceData::Line(Line::default(), Vec::new())
            }
    );
    let Event::ParseImage(document_id, id, url, alt, title) = &events[3] else {
        panic!("expected ParseImage");
    };
    assert_eq!(
        (*document_id, *id, url.as_str(), alt.as_str(), title.as_str()),
        (generation, 3, "./assets/NixOS.png", "image", "")
    );
    let Event::Parsed(_, spacer) = &events[4] else {
        panic!("expected Parsed");
    };
    assert_eq!(spacer.id, 4);
    let Event::Parsed(_, last) = &events[5] else {
        panic!("expected Parsed");
    };
    assert_eq!(last.id, 5);
    assert!(
        last.data == WidgetSourceData::Line(Line::from(Span::from("Goodbye.")), Vec::new())
    );
}

#[test]
fn parse_pass_frames_the_units() {
    let generation = DocumentId { id: 1, reload_id: 0 };
    let events: Vec<Event> = parse_pass(four_blocks(), &Skin::new(), generation, 80, true);
    assert_eq!(events.len(), 8);
    assert!(matches!(&events[0], Event::NewDocument(document_id) if *document_id == generation));
    assert!(matches!(
        &events[7],
        Event::ParseDone(document_id, Some(5)) if *document_id == generation
    ));

    let events: Vec<Event> = parse_pass("", &Skin::new(), generation, 80, true);
    assert_eq!(events.len(), 2);
    assert!(matches!(&events[1], Event::ParseDone(_, None)));
}

#[test]
fn parse_survives_narrow_widths() {
    let text = "# A header\nSome *markdown* text that is long enough to wrap.\n\n* one\n * two with words\n\n> a quote that is long enough to wrap\n";
    for width in 0..24 {
        for scaled in [true, false] {
            let events = checked_parse(text, &Skin::new(), DocumentId::default(), width, scaled)
                .expect("nothing in the text is too wide");
            assert!(!events.is_empty());
        }
    }
}

fn parses(text: &str, width: u16) -> bool {
    let skin = Skin::new();
    let fine = check_text(&skin, text, width);
    let parsed = checked_parse(text, &skin, DocumentId::default(), width, false);
    assert_eq!(parsed.is_some(), fine, "{text:?} at {width}");
    fine
}

#[test]
fn list_items_are_not_wrapped_narrower_than_their_bullet() {
    // Two spaces before the star: a bullet of four columns.
    let text = "text\n  * nested item\n";
    for width in 0..100u16 {
        assert_eq!(parses(text, width), width != 3, "{width}");
    }
    // Three spaces: a bullet of five columns.
    let text = "   * nested item";
    for width in 0..100u16 {
        assert_eq!(parses(text, width), width != 3 && width != 4, "{width}");
    }
    // A bullet that needs no wrapping, and bullets of two and three columns.
    for width in 0..100u16 {
        assert!(parses("  *", width));
        assert!(parses("* item with words", width));
        assert!(parses(" * item with words", width));
        assert!(parses("    * code, no item", width));
        assert!(parses("> a quote with words", width));
    }
    let skin = Skin::new();
    assert!(checked_parse_pass("  * nested item", &skin, DocumentId::default(), 3, false).is_none());
    assert!(checked_parse_pass("  * nested item", &skin, DocumentId::default(), 4, false).is_some());
    // A header is rendered at its own width: half of seven columns for the first tier.
    let header = "#   * not a list\ntext";
    assert!(checked_parse(header, &skin, DocumentId::default(), 7, true).is_some());
}

#[test]
fn tables_are_cut_to_the_columns_that_the_screen_has_room_for() {
    // Three columns are fitted from thirteen columns on. Below that the first columns
    // are kept, and the second row, which has one cell and has to be wrapped, is in
    // the way where two columns are kept.
    let table = "|a|b|c|\n|xxxxxxxxxx|\n";
    for width in 0..100u16 {
        assert_eq!(parses(table, width), !(9..=12).contains(&width), "{width}");
    }
    // A table whose rows all have their cells is cut at any width.
    let table = "|a|b|c|\n|-|-|-|\n|some words|more words|and more|\n";
    for width in 0..100u16 {
        assert!(parses(table, width));
    }
    // A short row whose cell needs no wrapping is filled up.
    let table = "|a|b|c|\n|xxx|\n";
    for width in 0..100u16 {
        assert!(parses(table, width));
    }
}

#[test]
fn cells_are_list_items_only_where_they_begin_with_a_bullet() {
    for width in 0..100u16 {
        assert!(parses("| a  * b |", width));
        assert!(parses("|a  * b with some more words|c|", width));
        assert!(parses("|* item with words|b|", width));
    }
    // A cell that begins with a bullet of four columns is in the way where its column
    // is narrower than the bullet.
    let table = "|  * nested item|b|";
    for width in 0..100u16 {
        assert_eq!(parses(table, width), !(5..=9).contains(&width), "{width}");
    }
}

#[test]
fn rows_between_fences_are_code() {
    let text = "```\n|a|b|c|\n|xxxxxxxxxx|\n  * nested item\n```\n";
    for width in 0..100u16 {
        assert!(parses(text, width));
    }
}

#[test]
fn shapes_decide_whether_lines_fit() {
    let cell = |bullet: usize, length: usize| CellShape { bullet, length };
    // A line outside tables.
    assert!(check_shapes(&vec![LineShape::Text(cell(4, 15))], 4));
    assert!(!check_shapes(&vec![LineShape::Text(cell(4, 15))], 3));
    assert!(check_shapes(&vec![LineShape::Text(cell(4, 15))], 2));
    assert!(check_shapes(&vec![LineShape::Text(cell(5, 5))], 5));
    assert!(!check_shapes(&vec![LineShape::Text(cell(5, 5))], 4));
    assert!(check_shapes(&vec![LineShape::Bar, LineShape::Text(cell(0, 500))], 3));
    assert!(check_shapes(&Vec::new(), 3));
    // A table that is cut to two columns, with a short row.
    let table = |length: usize| {
        vec![
            LineShape::Text(cell(0, 1)),
            LineShape::Row(vec![cell(0, 1), cell(0, 1), cell(0, 1)]),
            LineShape::Rule(3),
            LineShape::Row(vec![cell(0, length)]),
            LineShape::Bar,
        ]
    };
    assert!(!check_shapes(&table(4), 9));
    assert!(check_shapes(&table(3), 9));
    assert!(!check_shapes(&table(4), 12));
    assert!(check_shapes(&table(4), 8));
    assert!(check_shapes(&table(4), 13));
    assert!(check_shapes(&table(4), 0));
    // A cell with a bullet of four columns in a column of three.
    let listed = vec![LineShape::Row(vec![cell(4, 9), cell(0, 1)])];
    assert!(!check_shapes(&listed, 9));
    assert!(!check_shapes(&listed, 5));
    assert!(check_shapes(&listed, 4));
    assert!(check_shapes(&listed, 80));
    // Two tables: the second is in the way.
    let mut two = table(3);
    two.extend(table(4));
    assert!(!check_shapes(&two, 9));
    // A rule alone gives the table its columns.
    assert!(!check_shapes(&vec![LineShape::Rule(3), LineShape::Row(vec![cell(0, 4)])], 9));
    assert!(check_shapes(&vec![LineShape::Rule(1), LineShape::Row(vec![cell(0, 4)])], 9));
}

#[test]
fn a_text_is_laid_out_at_the_first_width_that_takes_it() {
    let skin = Skin::new();
    let table = "|a|b|c|\n|xxxxxxxxxx|\n";
    assert_eq!(fitting_width(table, &skin, 80, false), Some(80));
    assert_eq!(fitting_width(table, &skin, 8, false), Some(8));
    assert_eq!(fitting_width(table, &skin, 9, false), Some(18));
    assert_eq!(fitting_width(table, &skin, 12, false), Some(24));
    assert_eq!(fitting_width(table, &skin, 0, false), Some(0));
    assert_eq!(fitting_width("  * nested item", &skin, 3, false), Some(6));
    assert_eq!(fitting_width("text", &skin, u16::MAX, true), Some(u16::MAX));
    // More columns than the widest screen has room for, and a short row to wrap.
    let wide = format!("{}\n|xxxxxxxxxx|\n", "|a".repeat(16400));
    assert_eq!(fitting_width(&wide, &skin, u16::MAX, false), None);
}

#[test]
fn checked_parse_pass_frames_the_units() {
    let generation = DocumentId { id: 1, reload_id: 0 };
    let events = checked_parse_pass(four_blocks(), &Skin::new(), generation, 80, true).unwrap();
    assert_eq!(events.len(), 8);
    assert!(matches!(&events[0], Event::NewDocument(document_id) if *document_id == generation));
    assert!(matches!(&events[7], Event::ParseDone(_, Some(5))));
}

fn decor(text: &'static str) -> Span<'static> {
    Span::from(text).fg(Color::Indexed(COLOR_DECOR))
}

fn link(text: &'static str) -> Span<'static> {
    Span::from(text).fg(Color::Indexed(COLOR_LINK)).underlined()
}

fn parsed_line(event: &Event<'static>) -> (usize, u16, Line<'static>, Vec<LineExtra>) {
    let Event::Parsed(_, WidgetSource { id, height, data: WidgetSourceData::Line(line, extras) }) =
        event
    else {
        panic!("expected Line");
    };
    (*id, *height, line.clone(), extras.clone())
}

fn same_line(event: &Event<'static>, id: usize, spans: Vec<Span<'static>>, extras: Vec<LineExtra>) -> bool {
    let expected =
        WidgetSource { id, height: 1, data: WidgetSourceData::Line(Line::from(spans), extras) };
    matches!(event, Event::Parsed(document_id, source)
        if *document_id == DocumentId::default() && *source == expected)
}

fn urls_of(events: &[Event<'static>]) -> Vec<String> {
    events
        .iter()
        .flat_map(|event| parsed_line(event).3)
        .flat_map(|extra| match extra {
            LineExtra::Link(url, _, _) => vec![url],
            _ => Vec::new(),
        })
        .collect()
}

#[test]
fn parse_link() {
    let events: Vec<Event> =
        parse("[text](http://link.com)", &Skin::new(), DocumentId::default(), 80, true);
    assert_eq!(events.len(), 1);
    assert!(same_line(
        &events[0],
        0,
        vec![
            decor("["),
            Span::from("text").fg(Color::Indexed(COLOR_TEXT)),
            decor("]"),
            decor("("),
            link("http://link.com"),
            decor(")"),
        ],
        vec![LineExtra::Link("http://link.com".to_owned(), 7, 22)],
    ));
}

#[test]
fn parse_long_link() {
    let events: Vec<Event> = parse(
        "[text](http://link.com/veeeeeeeeeeeeeeeeery/long/tail)",
        &Skin::new(),
        DocumentId::default(),
        30,
        true,
    );
    assert_eq!(events.len(), 2);
    assert!(same_line(
        &events[0],
        0,
        vec![
            decor("["),
            Span::from("text").fg(Color::Indexed(COLOR_TEXT)),
            decor("]"),
            decor("("),
            link("http://link.com/veeeeee"),
        ],
        vec![LineExtra::Link(
            "http://link.com/veeeeeeeeeeeeeeeeery/long/tail".to_owned(),
            7,
            30,
        )],
    ));
    assert!(same_line(&events[1], 1, vec![Span::from("eeeeeeeeeeery/long/tail)")], Vec::new()));
}

#[test]
fn parse_long_linebroken_link() {
    let events: Vec<Event> = parse(
        "[a b](http://link.com/veeeeeeeeeeeeeeeeery/long/tail)",
        &Skin::new(),
        DocumentId::default(),
        30,
        true,
    );

    let str_lines: Vec<String> =
        events.iter().map(|event| parsed_line(event).2.to_string()).collect();
    assert_eq!(
        vec!["[a ", "b](http://link.com/veeeeeeeeee", "eeeeeeery/long/tail)"],
        str_lines,
        "breaks into 3 lines",
    );

    assert_eq!(
        vec!["http://link.com/veeeeeeeeeeeeeeeeery/long/tail"],
        urls_of(&events),
        "finds the full URL"
    );

    assert!(same_line(&events[0], 0, vec![Span::from("[a"), Span::from(" ")], Vec::new()));
    assert!(
        same_line(
            &events[1],
            1,
            vec![Span::from("b]("), link("http://link.com/veeeeeeeeee")],
            vec![LineExtra::Link(
                "http://link.com/veeeeeeeeeeeeeeeeery/long/tail".to_owned(),
                3,
                30,
            )],
        ),
        "stylizes the part of the URL that starts on one line"
    );
    assert!(same_line(&events[2], 2, vec![Span::from("eeeeeeery/long/tail)")], Vec::new()));
}

#[test]
fn parse_multiple_links_same_line() {
    let events: Vec<Event> =
        parse("http://a.com http://b.com", &Skin::new(), DocumentId::default(), 80, true);
    assert_eq!(vec!["http://a.com", "http://b.com"], urls_of(&events), "finds all URLs");
    let extras = parsed_line(&events[0]).3;
    assert!(extras[0] == LineExtra::Link("http://a.com".to_owned(), 0, 12));
    assert!(extras[1] == LineExtra::Link("http://b.com".to_owned(), 13, 25));
}

#[test]
fn capture_line_leaves_a_line_without_an_address_alone() {
    let patterns = LinkPatterns::new();
    let line = Line::from(vec![Span::from("bold").bold(), Span::from(" and [no](link) here")]);
    let (shown, extras) = capture_line(line.clone(), "source", &patterns);
    assert_eq!(shown, line);
    assert!(extras.is_empty());
}

#[test]
fn capture_line_takes_a_whole_address_as_it_is_and_asks_the_source_for_a_cut_one() {
    let patterns = LinkPatterns::new();
    let source = "see https://a.com/long/path and https://a.com/lo and (https://b.org) 日本 https://c.d";
    let (shown, extras) =
        capture_line(Line::from("x https://a.com/lo y https://a.com/lo"), source, &patterns);
    assert_eq!(shown.to_string(), "x https://a.com/lo y https://a.com/lo");
    assert_eq!(extras.len(), 2);
    assert!(extras[0] == LineExtra::Link("https://a.com/lo".to_owned(), 2, 18));
    assert!(extras[1] == LineExtra::Link("https://a.com/long/path".to_owned(), 21, 37));
    let (shown, extras) = capture_line(Line::from("日本 [b](https://b.org) http://nowhere"), source, &patterns);
    assert_eq!(shown.to_string(), "日本 [b](https://b.org) http://nowhere");
    assert!(extras[0] == LineExtra::Link("https://b.org".to_owned(), 9, 22));
    assert!(extras[1] == LineExtra::Link("http://nowhere".to_owned(), 24, 38));
    assert_eq!(
        shown,
        Line::from(vec![
            Span::from("日本 "),
            decor("["),
            Span::from("b").fg(Color::Indexed(COLOR_TEXT)),
            decor("]"),
            decor("("),
            link("https://b.org"),
            decor(")"),
            Span::from(" "),
            link("http://nowhere"),
        ])
    );
}

fn lines_after(text: &str) -> Vec<String> {
    let mut lines = Vec::new();
    let mut current = String::new();
    for c in text.chars() {
        if c == '\n' {
            if current.ends_with('\r') {
                current.pop();
            }
            lines.push(std::mem::take(&mut current));
        } else {
            current.push(c);
        }
    }
    if !current.is_empty() {
        lines.push(current);
    }
    lines
}

#[test]
fn lines_are_what_stands_between_line_feeds() {
    let texts = [
        "", "a", "a\n", "a\nb", "a\r\nb", "a\r", "\r", "\n", "\r\n", "\n\n", "a\n\nb\n", "a\r\r\nb",
        "a\n\rb", "\r\n\r\n", "a\rb\nc", "日本\r\n語\n", "a\u{2028}b\nc", "a\u{85}b", "\n\r",
    ];
    for text in texts {
        let expected: Vec<String> = text.lines().map(str::to_owned).collect();
        assert_eq!(lines_after(text), expected, "{text:?}");
    }
}

#[test]
fn split_takes_lines_without_their_carriage_returns() {
    assert_eq!(
        split("one\r\n# two\r\nthree\r\nfour\r"),
        vec![
            Block::Markdown("one".to_owned()),
            Block::Header(1, "two".to_owned()),
            Block::Markdown("three\nfour\r".to_owned()),
        ]
    );
}
