use mdfried::cursor::{Cursor, CursorPointer, SearchState};
use mdfried::input::{half_up, tenth, Key, KeyOutcome, KeyPress};
use mdfried::model::{Model, PaddingConfig, ScreenSize};
use mdfried::widget_sources::{LineExtra, WidgetSource, WidgetSourceData};
use ratatui::text::Line;

fn press(key: Key) -> KeyPress {
    KeyPress { key, control: false }
}

fn typed(model: &mut Model<'static>, text: &str) {
    for c in text.chars() {
        send(model, press(Key::Char(c)));
    }
}

fn send(model: &mut Model<'static>, key: KeyPress) -> KeyOutcome {
    assert!(model.check_can_handle(key));
    model.handle_key(key)
}

fn document(lines: usize) -> Model<'static> {
    let mut model = Model::new(None, ScreenSize { width: 80, height: 20 }, PaddingConfig::Off);
    for id in 0..lines {
        let text = if id % 10 == 7 { format!("needle {id}") } else { format!("line {id}") };
        model.sources.push(WidgetSource {
            id,
            height: 1,
            data: WidgetSourceData::Line(Line::from(text), Vec::new()),
        });
    }
    model
}

fn search_matches(model: &Model) -> Vec<(usize, usize, usize, String)> {
    let mut found = Vec::new();
    for unit in model.sources.sources() {
        if let WidgetSourceData::Line(_, extras) = &unit.data {
            for extra in extras {
                if let LineExtra::SearchMatch(start, end, text) = extra {
                    found.push((unit.id, *start, *end, text.clone()));
                }
            }
        }
    }
    found
}

#[test]
fn scroll_keys_move_the_viewport() {
    let mut model = document(100);
    assert!(matches!(send(&mut model, press(Key::Char('j'))), KeyOutcome::Handled));
    assert_eq!(model.scroll, 1);
    send(&mut model, press(Key::Down));
    assert_eq!(model.scroll, 2);
    send(&mut model, press(Key::Char('k')));
    send(&mut model, press(Key::Up));
    assert_eq!(model.scroll, 0);
    send(&mut model, press(Key::Char('f')));
    assert_eq!(model.scroll, 18);
    send(&mut model, press(Key::Char(' ')));
    send(&mut model, press(Key::PageDown));
    assert_eq!(model.scroll, 54);
    send(&mut model, press(Key::Char('b')));
    send(&mut model, press(Key::PageUp));
    assert_eq!(model.scroll, 18);
    send(&mut model, press(Key::Char('d')));
    assert_eq!(model.scroll, 27);
    send(&mut model, press(Key::Char('u')));
    assert_eq!(model.scroll, 18);
}

#[test]
fn a_count_scales_the_next_scroll_and_names_a_line() {
    let mut model = document(100);
    typed(&mut model, "12");
    assert_eq!(model.scroll_by_mul, 12);
    send(&mut model, press(Key::Backspace));
    assert_eq!(model.scroll_by_mul, 1);
    typed(&mut model, "5");
    send(&mut model, press(Key::Char('j')));
    assert_eq!(model.scroll, 15);
    assert_eq!(model.scroll_by_mul, 0);

    typed(&mut model, "42");
    send(&mut model, press(Key::Char('g')));
    assert_eq!((model.scroll, model.scroll_by_mul), (41, 0));
    typed(&mut model, "7");
    send(&mut model, press(Key::Char('G')));
    assert_eq!((model.scroll, model.scroll_by_mul), (6, 0));
    send(&mut model, press(Key::Char('g')));
    assert_eq!(model.scroll, 0);
    send(&mut model, press(Key::Char('G')));
    assert_eq!(model.scroll, 81);

    typed(&mut model, "99999999");
    assert_eq!(model.scroll_by_mul, i16::MAX);
    send(&mut model, press(Key::Esc));
    assert_eq!(model.scroll_by_mul, 0);
}

#[test]
fn quit_reload_and_log_are_left_to_the_caller() {
    let mut model = document(3);
    assert!(matches!(send(&mut model, press(Key::Char('q'))), KeyOutcome::Quit));
    assert!(matches!(
        send(&mut model, KeyPress { key: Key::Char('c'), control: true }),
        KeyOutcome::Quit
    ));
    assert!(matches!(send(&mut model, press(Key::Char('c'))), KeyOutcome::Handled));
    assert!(matches!(send(&mut model, press(Key::Char('r'))), KeyOutcome::Reload));
    assert!(matches!(send(&mut model, press(Key::F(11))), KeyOutcome::ToggleLog));
    assert!(matches!(send(&mut model, press(Key::F(5))), KeyOutcome::Handled));
    assert!(matches!(send(&mut model, press(Key::Other)), KeyOutcome::Handled));
    assert_eq!(model.scroll, 0);
    assert!(matches!(model.cursor, Cursor::Idle));
}

#[test]
fn search_is_typed_accepted_stepped_and_left() {
    let mut model = document(40);
    send(&mut model, press(Key::Char('/')));
    assert!(matches!(&model.cursor, Cursor::Search(state, None) if state.needle.is_empty() && !state.accepted));

    // While the search is typed, keys are text: no command runs.
    typed(&mut model, "qNEEx");
    assert!(matches!(&model.cursor, Cursor::Search(state, None) if state.needle == "qNEEx"));
    assert!(search_matches(&model).is_empty());
    send(&mut model, press(Key::Backspace));
    send(&mut model, press(Key::Backspace));
    send(&mut model, press(Key::Backspace));
    send(&mut model, press(Key::Backspace));
    send(&mut model, press(Key::Backspace));
    send(&mut model, press(Key::Backspace));
    typed(&mut model, "NEEdle");
    assert_eq!(
        search_matches(&model),
        vec![
            (7, 0, 6, "needle".to_owned()),
            (17, 0, 6, "needle".to_owned()),
            (27, 0, 6, "needle".to_owned()),
            (37, 0, 6, "needle".to_owned()),
        ]
    );
    assert_eq!(model.scroll, 0);

    send(&mut model, press(Key::Enter));
    assert!(matches!(
        &model.cursor,
        Cursor::Search(state, Some(CursorPointer { id: 7, index: 0 })) if state.accepted
    ));
    send(&mut model, press(Key::Char('n')));
    send(&mut model, press(Key::Char('n')));
    assert_eq!(model.cursor.pointer(), Some(CursorPointer { id: 27, index: 0 }));
    assert_eq!(model.scroll, 9);
    send(&mut model, press(Key::Char('N')));
    assert_eq!(model.cursor.pointer(), Some(CursorPointer { id: 17, index: 0 }));
    assert_eq!(model.scroll, 9);
    send(&mut model, press(Key::Char('n')));
    send(&mut model, press(Key::Char('n')));
    send(&mut model, press(Key::Char('n')));
    assert_eq!(model.cursor.pointer(), Some(CursorPointer { id: 7, index: 0 }));
    assert_eq!(model.scroll, 7);

    send(&mut model, press(Key::Esc));
    assert!(matches!(model.cursor, Cursor::Idle));
}

#[test]
fn escape_leaves_a_search_that_is_being_typed() {
    let mut model = document(5);
    send(&mut model, press(Key::Char('/')));
    typed(&mut model, "li");
    model.scroll_by_mul = 3;
    send(&mut model, press(Key::Esc));
    assert!(matches!(&model.cursor, Cursor::Search(state, None) if state.needle == "li"));
    assert_eq!(model.scroll_by_mul, 0);
    send(&mut model, press(Key::Esc));
    assert!(matches!(model.cursor, Cursor::Idle));
}

#[test]
fn enter_follows_the_link_under_the_cursor() {
    let mut model = document(3);
    model.sources.push(WidgetSource {
        id: 3,
        height: 1,
        data: WidgetSourceData::Line(
            Line::from("see http://a.com"),
            vec![
                LineExtra::SearchMatch(0, 3, "see".into()),
                LineExtra::Link("http://a.com".into(), 4, 16),
            ],
        ),
    });
    assert!(matches!(send(&mut model, press(Key::Enter)), KeyOutcome::Handled));
    send(&mut model, press(Key::Char('n')));
    assert!(matches!(model.cursor, Cursor::Links(CursorPointer { id: 3, index: 1 })));
    let KeyOutcome::OpenLink(url) = send(&mut model, press(Key::Enter)) else {
        panic!("expected OpenLink");
    };
    assert_eq!(url, "http://a.com");

    model.cursor = Cursor::Links(CursorPointer { id: 3, index: 0 });
    assert!(matches!(send(&mut model, press(Key::Enter)), KeyOutcome::Handled));
    assert!(model.sources.find_link(&CursorPointer { id: 9, index: 0 }).is_none());

    send(&mut model, press(Key::Esc));
    assert!(matches!(model.cursor, Cursor::Idle));
}

#[test]
fn halves_and_tenths_round_to_zero() {
    assert_eq!(half_up(18), 9);
    assert_eq!(half_up(17), 9);
    assert_eq!(half_up(0), 0);
    assert_eq!(half_up(-1), 0);
    assert_eq!(half_up(-2), 0);
    assert_eq!(half_up(-4), -1);
    assert_eq!(tenth(129), 12);
    assert_eq!(tenth(9), 0);
    assert_eq!(tenth(-19), -1);
}

#[test]
fn the_bottom_key_needs_a_screen_of_another_height_than_one() {
    let mut model = document(30);
    model.screen_size = ScreenSize { width: 80, height: 1 };
    assert!(!model.check_can_handle(press(Key::Char('G'))));
    assert!(model.check_can_handle(press(Key::Char('j'))));
    model.screen_size = ScreenSize { width: 80, height: 0 };
    assert!(model.check_can_handle(press(Key::Char('G'))));
    send(&mut model, press(Key::Char('G')));
    assert_eq!(model.scroll, 0);
    model.cursor = Cursor::Search(SearchState::default(), None);
    model.screen_size = ScreenSize { width: 80, height: 1 };
    assert!(model.check_can_handle(press(Key::Char('G'))));
}

#[test]
fn a_document_too_tall_for_the_navigator_is_told_apart() {
    let mut model = Model::new(None, ScreenSize { width: 80, height: 20 }, PaddingConfig::Off);
    model.sources.push(WidgetSource {
        id: 0,
        height: 32765,
        data: WidgetSourceData::Line(Line::from("tall"), Vec::new()),
    });
    assert!(model.check_can_jump());
    model.sources.push(WidgetSource {
        id: 1,
        height: 1,
        data: WidgetSourceData::Line(Line::from("taller"), Vec::new()),
    });
    assert!(!model.check_can_jump());
}

#[test]
fn only_the_keys_that_count_rows_need_rows_that_can_be_counted() {
    let mut model = Model::new(None, ScreenSize { width: 80, height: 20 }, PaddingConfig::Off);
    for id in 0..3 {
        model.sources.push(WidgetSource {
            id,
            height: 30000,
            data: WidgetSourceData::Line(Line::from("tall"), Vec::new()),
        });
    }
    assert!(!model.check_can_scroll());
    assert!(!model.check_can_jump());
    assert_eq!(model.counted_rows(u16::MAX), None);
    for key in [Key::Char('j'), Key::Char('f'), Key::Char('G'), Key::Char('n'), Key::Up, Key::PageDown] {
        assert!(!model.check_can_handle(press(key)));
    }
    for key in [Key::Char('q'), Key::Char('r'), Key::Char('g'), Key::Char('/'), Key::Char('7'), Key::Esc, Key::Enter, Key::Backspace, Key::F(11), Key::Other] {
        assert!(model.check_can_handle(press(key)));
    }
    assert!(matches!(send(&mut model, press(Key::Char('q'))), KeyOutcome::Quit));
    send(&mut model, press(Key::Char('/')));
    assert!(model.check_can_handle(press(Key::Char('j'))));
    assert!(!model.check_can_handle(press(Key::Enter)));

    let mut model = Model::new(None, ScreenSize { width: 80, height: 20 }, PaddingConfig::Off);
    model.sources.push(WidgetSource {
        id: 0,
        height: 40000,
        data: WidgetSourceData::Line(Line::from("tall"), Vec::new()),
    });
    assert!(model.check_can_scroll());
    assert!(!model.check_can_jump());
    assert_eq!(model.counted_rows(u16::MAX), Some(40000));
    send(&mut model, press(Key::Char('G')));
    assert_eq!(model.scroll, 39981);
    send(&mut model, press(Key::PageUp));
    assert_eq!(model.scroll, 39963);
}
