use mdfried::cursor::{Cursor, CursorPointer, SearchState};
use mdfried::layout::{overlay_span, Placed};
use mdfried::model::{Model, PaddingConfig, ScreenSize};
use mdfried::widget_sources::{LineExtra, WidgetSource, WidgetSourceData};
use ratatui::text::Line;

fn test_model() -> Model<'static> {
    Model::new(None, ScreenSize { width: 80, height: 20 }, PaddingConfig::Off)
}

fn line_unit(id: usize, text: String, extras: Vec<LineExtra>) -> WidgetSource<'static> {
    WidgetSource { id, height: 1, data: WidgetSourceData::Line(Line::from(text), extras) }
}

fn assert_cursor_link(model: &Model, expected_url: &str) {
    let pointer = model
        .cursor
        .pointer()
        .expect("model.cursor.pointer() should be Some(CursorPointer{ .. })");
    let extra = model
        .sources
        .find_extra_by_cursor(&pointer)
        .expect("find_extra_by_cursor(...).unwrap()");
    let LineExtra::Link(url, ..) = extra else {
        panic!("assert_link expected LineExtra::Link");
    };
    assert_eq!(url, expected_url);
}

fn two_lines_with_three_links(model: &mut Model<'static>) {
    model.sources.push(line_unit(
        1,
        "http://a.com http://b.com".into(),
        vec![
            LineExtra::Link("http://a.com".into(), 0, 11),
            LineExtra::Link("http://b.com".into(), 12, 21),
        ],
    ));
    model.sources.push(line_unit(
        2,
        "http://c.com".into(),
        vec![LineExtra::Link("http://c.com".into(), 0, 11)],
    ));
}

#[test]
fn finds_link_per_line() {
    let mut model = test_model();
    two_lines_with_three_links(&mut model);

    model.cursor_next();
    assert_cursor_link(&model, "http://a.com");

    model.cursor_next();
    assert_cursor_link(&model, "http://b.com");

    model.cursor_next();
    assert_cursor_link(&model, "http://c.com");
}

#[test]
fn finds_link_with_scroll() {
    let mut model = test_model();
    for i in 1..5 {
        let link = format!("http://{}.com", i);
        model.sources.push(line_unit(i, link.clone(), vec![LineExtra::Link(link, 0, 11)]));
    }

    model.scroll = 2;
    model.cursor_next();
    assert_cursor_link(&model, "http://3.com");
}

#[test]
fn finds_link_with_scroll_wrapping() {
    let mut model = test_model();
    model.sources.push(line_unit(
        1,
        "http://a.com".into(),
        vec![LineExtra::Link("http://a.com".into(), 0, 11)],
    ));
    for i in 2..5 {
        model.sources.push(line_unit(i, "text".into(), vec![]));
    }

    model.scroll = 2;
    model.cursor_next();
    assert_cursor_link(&model, "http://a.com");
}

#[test]
fn finds_multiple_links_per_line_next() {
    let mut model = test_model();
    two_lines_with_three_links(&mut model);

    model.cursor_next();
    assert_cursor_link(&model, "http://a.com");

    model.cursor_next();
    assert_cursor_link(&model, "http://b.com");

    model.cursor_next();
    assert_cursor_link(&model, "http://c.com");
}

#[test]
fn finds_multiple_links_per_line_prev() {
    let mut model = test_model();
    two_lines_with_three_links(&mut model);

    model.cursor_prev();
    assert_cursor_link(&model, "http://a.com");

    model.cursor_prev();
    assert_cursor_link(&model, "http://c.com");

    model.cursor_prev();
    assert_cursor_link(&model, "http://b.com");
}

#[test]
fn jump_to_pointer() {
    let mut model = test_model();
    for i in 0..31 {
        model.sources.push(line_unit(i, format!("line {}", i + 1), Vec::new()));
    }

    // Just outside of view (terminal height is 20, the last line is not rendered)
    model.cursor = Cursor::Search(SearchState::default(), Some(CursorPointer { id: 19, index: 0 }));
    model.jump_to_pointer();
    assert_eq!(model.scroll, 1);

    model.scroll = 0;
    // Towards the end
    model.cursor = Cursor::Search(SearchState::default(), Some(CursorPointer { id: 30, index: 0 }));
    model.jump_to_pointer();
    assert_eq!(model.scroll, 12);
}

#[test]
fn jump_back_to_pointer() {
    let mut model = test_model();
    for i in 0..31 {
        model.sources.push(line_unit(i, format!("line {}", i + 1), Vec::new()));
    }

    model.scroll = 12;
    model.cursor = Cursor::Search(SearchState::default(), Some(CursorPointer { id: 0, index: 0 }));
    model.jump_to_pointer();
    assert_eq!(model.scroll, 0);
}

#[test]
fn scrolls_into_view() {
    let mut model = test_model();
    for i in 0..30 {
        model.sources.push(line_unit(i, format!("line {}", i + 1), Vec::new()));
    }
    model.sources.push(line_unit(
        30,
        "http://a.com".into(),
        vec![LineExtra::Link("http://a.com".into(), 0, 11)],
    ));

    model.cursor_next();
    assert_cursor_link(&model, "http://a.com");

    assert_eq!(model.scroll, 12);
    assert_eq!(model.visible_lines(), (12, 30));

    let mut last_rendered = None;
    let mut y: i16 = 0 - (model.scroll as i16);
    for source in model.sources.sources().iter() {
        y += source.height as i16;
        if y >= model.inner_height(model.screen_size.height) as i16 - 1 {
            last_rendered = Some(source);
            break;
        }
    }
    let last_rendered = last_rendered.unwrap();
    let WidgetSourceData::Line(_, extra) = &last_rendered.data else {
        panic!("expected Line");
    };
    let LineExtra::Link(url, _, _) = &extra[0] else {
        panic!("expected Link");
    };
    assert_eq!("http://a.com", url);
}

#[test]
fn scroll_by_stays_between_the_top_and_the_limit() {
    let mut model = test_model();
    for i in 0..50 {
        model.sources.push(line_unit(i, format!("line {}", i + 1), Vec::new()));
    }
    let limit = 50 - 20 + 1;
    for delta in [1i16, 5, i16::MAX, -3, i16::MIN, 40, 31, -1, i16::MAX, i16::MAX] {
        model.scroll_by(delta);
        assert!(model.scroll <= limit);
    }
    assert_eq!(model.scroll, limit);
    model.scroll_by(-11);
    assert_eq!(model.scroll, 20);
    model.scroll_by(i16::MIN);
    assert_eq!(model.scroll, 0);
}

#[test]
fn scroll_by_in_a_short_document_reaches_row_one_at_most() {
    let mut model = test_model();
    for i in 0..5 {
        model.sources.push(line_unit(i, format!("line {}", i + 1), Vec::new()));
    }
    model.scroll_by(10);
    assert_eq!(model.scroll, 1);
}

#[test]
fn scroll_by_uses_up_the_pending_count() {
    let mut model = test_model();
    for i in 0..100 {
        model.sources.push(line_unit(i, format!("line {}", i + 1), Vec::new()));
    }
    model.scroll_by_mul = 7;
    model.scroll_by(3);
    assert_eq!(model.scroll, 21);
    assert_eq!(model.scroll_by_mul, 0);
    model.scroll_by(3);
    assert_eq!(model.scroll, 24);
}

#[test]
fn cursor_cycles_through_all_links_and_back() {
    let mut model = test_model();
    two_lines_with_three_links(&mut model);
    model.cursor_next();
    let start = model.cursor.pointer().unwrap();
    for _ in 0..3 {
        model.cursor_next();
    }
    assert_eq!(model.cursor.pointer().unwrap(), start);
    model.cursor_next();
    let there = model.cursor.pointer().unwrap();
    assert_ne!(there, start);
    model.cursor_prev();
    assert_eq!(model.cursor.pointer().unwrap(), start);
}

#[test]
fn centered_padding_narrows_the_document() {
    let model = Model::new(None, ScreenSize { width: 120, height: 40 }, PaddingConfig::Centered(80));
    assert_eq!(model.inner_width(120), 80);
    assert_eq!(model.inner_width(60), 60);
    assert_eq!(model.inner_height(40), 40);
    assert_eq!(model.block_padding(120).left, 20);
    assert_eq!(model.block_padding(120).right, 20);
    assert_eq!(model.block_padding(60).left, 0);
}

#[test]
fn units_are_placed_from_the_viewport_on_as_far_as_they_fit() {
    let mut model = test_model();
    for (id, height) in [(0, 3), (1, 1), (2, 4), (3, 2), (4, 30), (5, 1)] {
        model.sources.push(WidgetSource {
            id,
            height,
            data: WidgetSourceData::Line(Line::from("unit"), Vec::new()),
        });
    }
    // All of the first four fit above the last row; the tall one does not.
    assert_eq!(
        model.placed_units(20),
        vec![
            Placed { index: 0, y: 0 },
            Placed { index: 1, y: 3 },
            Placed { index: 2, y: 4 },
            Placed { index: 3, y: 8 },
        ]
    );
    // A unit that begins above the viewport is not drawn.
    model.scroll = 1;
    assert_eq!(
        model.placed_units(20),
        vec![Placed { index: 1, y: 2 }, Placed { index: 2, y: 3 }, Placed { index: 3, y: 7 }]
    );
    // A unit must end above the last row of the area.
    model.scroll = 3;
    assert_eq!(model.placed_units(5), vec![Placed { index: 1, y: 0 }]);
    assert_eq!(model.placed_units(6), vec![Placed { index: 1, y: 0 }, Placed { index: 2, y: 1 }]);
    model.scroll = 40;
    assert_eq!(model.placed_units(20), vec![Placed { index: 5, y: 0 }]);
    model.scroll = 41;
    assert_eq!(model.placed_units(20), Vec::new());
    assert_eq!(model.placed_units(0), Vec::new());
}

#[test]
fn overlays_begin_after_the_padding() {
    assert_eq!(overlay_span(0, 10, 7, 22), (17, 15));
    assert_eq!(overlay_span(2, 0, 0, 0), (2, 0));
    assert_eq!(overlay_span(0, 0, 9, 4), (9, 0));
    assert_eq!(overlay_span(u16::MAX, 1, 1, 2), (u16::MAX, 1));
    assert_eq!(overlay_span(0, 0, usize::MAX, usize::MAX), (u16::MAX, 0));
}

#[test]
fn total_lines_adds_the_heights() {
    let mut model = test_model();
    assert_eq!(model.total_lines(), 0);
    for (id, height) in [(0, 3), (1, 1), (2, 4)] {
        model.sources.push(WidgetSource {
            id,
            height,
            data: WidgetSourceData::Line(Line::from("unit"), Vec::new()),
        });
    }
    assert_eq!(model.total_lines(), 8);
    assert_eq!(model.sources().len(), 3);
}
