use mdfried::big_text::BigText;
use mdfried::error::Error;
use mdfried::events::{input_wait, needs_redraw};
use image::DynamicImage;
use mdfried::images::{
    answered_kind, broken_unit, encoded_unit, image_unit, Encoder, checked_header_sources,
    checked_image_source_unit, image_kind,
    image_place, image_width, ImageKind, ImagePlace,
};
use ratatui_image::errors::Errors;
use ratatui_image::picker::Picker;
use ratatui_image::Resize;
use mdfried::setup::{background_for, configured_font, BgColor};
use mdfried::widget_sources::WidgetSourceData;

#[test]
fn text_sizing_sequence_erases_two_rows_and_cuts_the_text() {
    let big = BigText::new("Hello", 4);
    assert_eq!(
        big.text_sizing_sequence(40),
        "\x1b[40X\x1B[?7l\x1b[1B\x1b[40X\x1B[?7l\x1b[1A\x1b]66;s=2:n=2:d=3:w=2;Hel\x1b\\\x1b]66;s=2:n=2:d=3:w=2;lo\x1b\\"
    );
}

#[test]
fn text_sizing_sequence_of_an_empty_text_only_erases() {
    let big = BigText::new("", 1);
    assert_eq!(big.text_sizing_sequence(7), "\x1b[7X\x1B[?7l\x1b[1B\x1b[7X\x1B[?7l\x1b[1A");
}

#[test]
fn text_sizing_sequence_counts_characters_not_bytes() {
    let big = BigText::new("äöüßéèê", 1);
    assert_eq!(
        big.text_sizing_sequence(65535),
        "\x1b[65535X\x1B[?7l\x1b[1B\x1b[65535X\x1B[?7l\x1b[1A\x1b]66;s=2:n=7:d=7:w=7;äöüßéèê\x1b\\"
    );
}

#[test]
fn size_ratio_by_tier() {
    assert_eq!(BigText::size_ratio(1), (7, 7));
    assert_eq!(BigText::size_ratio(2), (5, 6));
    assert_eq!(BigText::size_ratio(3), (3, 4));
    assert_eq!(BigText::size_ratio(4), (2, 3));
    assert_eq!(BigText::size_ratio(5), (3, 5));
    assert_eq!(BigText::size_ratio(6), (1, 3));
    assert_eq!(BigText::size_ratio(0), (1, 3));
}

#[test]
fn image_place_by_address() {
    assert_eq!(image_place("https://a.com/a.png"), ImagePlace::Remote);
    assert_eq!(image_place("http://a.com/a.png"), ImagePlace::Remote);
    assert_eq!(image_place("./assets/a.png"), ImagePlace::Relative);
    assert_eq!(image_place("/tmp/a.png"), ImagePlace::Local);
    assert_eq!(image_place("httpx://a.png"), ImagePlace::Local);
    assert_eq!(image_place(""), ImagePlace::Local);
}

#[test]
fn image_kind_by_content_type() {
    assert!(matches!(image_kind(1, "u", Some("image/jpeg")), Ok(ImageKind::Jpeg)));
    assert!(matches!(image_kind(1, "u", Some("image/png")), Ok(ImageKind::Png)));
    assert!(matches!(image_kind(1, "u", Some("image/webp")), Ok(ImageKind::WebP)));
    assert!(matches!(image_kind(1, "u", Some("image/gif")), Ok(ImageKind::Gif)));
    assert!(matches!(
        image_kind(4, "http://a.com/a", Some("text/html")),
        Err(Error::UnknownImage(4, url)) if url == "http://a.com/a"
    ));
    assert!(matches!(
        image_kind(5, "http://a.com/b", None),
        Err(Error::UnknownImage(5, url)) if url == "http://a.com/b"
    ));
}

#[test]
fn image_width_is_one_and_a_half_heights_at_most() {
    assert_eq!(image_width(10, 80), 15);
    assert_eq!(image_width(9, 80), 13);
    assert_eq!(image_width(60, 80), 80);
    assert_eq!(image_width(u16::MAX, u16::MAX), u16::MAX);
    assert_eq!(image_width(0, 80), 0);
}

#[test]
fn broken_unit_names_the_address_and_the_reason() {
    let unit = broken_unit(3, "a.png", "no such file");
    assert_eq!((unit.id, unit.height), (3, 1));
    assert!(matches!(
        &unit.data,
        WidgetSourceData::BrokenImage(url, text) if url == "a.png" && text == "no such file"
    ));
}

#[test]
fn background_only_behind_sixels() {
    assert_eq!(background_for(true).unwrap().rgba(), [20, 0, 40, 255]);
    assert_eq!(background_for(true).unwrap().rgb(), (20, 0, 40));
    assert!(background_for(false).is_none());
    assert_eq!(BgColor::default().rgba(), [0, 0, 0, 0]);
}

#[test]
fn configured_font_must_exist() {
    let families = vec!["Mono".to_owned(), "Serif".to_owned()];
    let serif = "Serif".to_owned();
    let other = "Other".to_owned();
    assert_eq!(configured_font(false, Some(&serif), &families), Some("Serif".to_owned()));
    assert_eq!(configured_font(true, Some(&serif), &families), None);
    assert_eq!(configured_font(false, Some(&other), &families), None);
    assert_eq!(configured_font(false, None, &families), None);
}

#[test]
fn an_empty_box_is_not_encoded_for() {
    let picker = Encoder::new(Picker::halfblocks());
    assert!(picker.check_can_encode(1, 1));
    assert!(!picker.check_can_encode(0, 1));
    assert!(!picker.check_can_encode(1, 0));
    // Cells are ten by twenty pixels: 6553 columns and 3276 rows are 65535 pixels at most.
    assert!(picker.check_can_encode(6553, 3276));
    assert!(!picker.check_can_encode(6554, 1));
    assert!(!picker.check_can_encode(1, 3277));
    assert!(checked_image_source_unit(&picker, 10, 7000, 1, "a.png", DynamicImage::new_rgba8(70001, 10)).is_some());
    assert!(checked_header_sources(&picker, 7000, 1, vec![("t".to_owned(), DynamicImage::new_rgba8(70001, 10))]).is_none());
    // The widest box that is encoded for takes the widest image.
    let units = checked_header_sources(
        &picker,
        6553,
        1,
        vec![("t".to_owned(), DynamicImage::new_rgba8(70001, 10))],
    )
    .unwrap()
    .unwrap();
    assert_eq!(units.len(), 1);
    let image = || DynamicImage::new_rgba8(10, 10);
    assert!(checked_image_source_unit(&picker, 0, 80, 1, "a.png", image()).is_none());
    assert!(checked_image_source_unit(&picker, 10, 0, 1, "a.png", image()).is_none());
    assert!(checked_header_sources(&picker, 0, 1, vec![("t".to_owned(), image())]).is_none());
    let unit = checked_image_source_unit(&picker, 10, 80, 4, "a.png", image()).unwrap().unwrap();
    assert_eq!((unit.id, unit.height), (4, 1));
    let units =
        checked_header_sources(&picker, 20, 7, vec![("t".to_owned(), image())]).unwrap().unwrap();
    assert_eq!(units.len(), 1);
    assert_eq!((units[0].id, units[0].height), (7, 2));
    assert!(checked_header_sources(&picker, 20, 7, Vec::new()).unwrap().unwrap().is_empty());
}

#[test]
fn an_encoder_error_becomes_a_protocol_error() {
    let failed = encoded_unit(3, "a.png".to_owned(), Err(Errors::NoCap));
    assert!(matches!(failed, Err(Error::Protocol(Errors::NoCap))));

    let picker = Picker::halfblocks();
    let protocol = picker
        .new_protocol(
            DynamicImage::new_rgba8(10, 10),
            ratatui::layout::Size::new(4, 4),
            Resize::Fit(None),
        )
        .unwrap();
    let unit = encoded_unit(3, "a.png".to_owned(), Ok(protocol.clone())).unwrap();
    assert_eq!((unit.id, unit.height), (3, 1));
    assert!(matches!(&unit.data, WidgetSourceData::Image(url, _) if url == "a.png"));
    let unit = image_unit(5, "b.png".to_owned(), protocol, 2);
    assert_eq!((unit.id, unit.height), (5, 2));
    assert!(matches!(&unit.data, WidgetSourceData::Image(url, _) if url == "b.png"));
}

#[test]
fn an_answer_without_success_is_no_image() {
    assert!(matches!(answered_kind(1, "u", true, Some("image/png")), Ok(ImageKind::Png)));
    assert!(matches!(answered_kind(1, "u", true, Some("image/gif")), Ok(ImageKind::Gif)));
    assert!(matches!(
        answered_kind(2, "http://a.com/a", false, Some("image/png")),
        Err(Error::UnknownImage(2, url)) if url == "http://a.com/a"
    ));
    assert!(matches!(
        answered_kind(3, "http://a.com/b", true, Some("text/html")),
        Err(Error::UnknownImage(3, url)) if url == "http://a.com/b"
    ));
    assert!(matches!(
        answered_kind(4, "http://a.com/c", true, None),
        Err(Error::UnknownImage(4, url)) if url == "http://a.com/c"
    ));
    assert!(matches!(answered_kind(5, "u", false, None), Err(Error::UnknownImage(5, _))));
}

#[test]
fn the_coordinator_waits_for_input_only_after_a_quiet_cycle() {
    assert_eq!(input_wait(true), 0);
    assert_eq!(input_wait(false), 100);
    assert!(needs_redraw(true, false));
    assert!(needs_redraw(false, true));
    assert!(needs_redraw(true, true));
    assert!(!needs_redraw(false, false));
}
