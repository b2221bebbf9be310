//! Images on their way into the document: where they come from, how large
//! they may be shown, and the units that they become.

use crate::error::Error;
use crate::patterns::starts_with;
use crate::seqs::reversed;
use crate::widget_sources::{SourceID, WidgetSource, WidgetSourceData};
use image::DynamicImage;
use ratatui::layout::Size;
use ratatui_image::Resize;
use ratatui_image::errors::Errors;
use ratatui_image::picker::Picker;
use ratatui_image::protocol::Protocol;
use vstd::prelude::*;
use vstd::string::StringExecFns;

verus! {

/// `image::DynamicImage`: a decoded bitmap.
#[verifier::external_type_specification]
#[verifier::external_body]
pub struct ExDynamicImage(DynamicImage);

/// `ratatui_image::picker::Picker`: what the terminal can show, and the
/// size of its font.
#[verifier::external_type_specification]
#[verifier::external_body]
pub struct ExPicker(Picker);

/// The rows that a header rendered as images takes for each of its lines.
pub const HEADER_ROW_COUNT: u16 = 2;

/// What encodes images for the terminal: the terminal's abilities, and the
/// size of one of its cells in pixels, width and height.
pub struct Encoder {
    picker: Picker,
    cell: (u16, u16),
}

/// The size of a cell of the terminal in pixels, as a picker holds it:
/// width and height.
pub uninterp spec fn picker_cell(picker: Picker) -> (u16, u16);

/// The rows of cells that an encoded image takes.
pub uninterp spec fn protocol_rows(protocol: Protocol) -> u16;

/// `Picker::font_size`: the size of a cell of the terminal in pixels.
#[verifier::external_body]
pub(crate) fn font_size(picker: &Picker) -> (size: (u16, u16))
    ensures
        size == picker_cell(*picker),
{
    let size = picker.font_size();
    (size.width, size.height)
}

/// `Picker::new_protocol` with `Resize::Fit`: encodes `image` for the
/// terminal, scaled down to fit a box of `width` by `height` cells. The
/// picker refuses an empty box, cells without a size, and a box of more
/// than 65535 pixels in width or in height.
#[verifier::external_body]
pub(crate) fn new_protocol(encoder: &Encoder, image: DynamicImage, width: u16, height: u16) -> (encoded:
    Result<Protocol, Errors>)
    requires
        encoder.can_encode(width, height),
{
    encoder.picker.new_protocol(image, Size::new(width, height), Resize::Fit(None))
}

/// `Protocol::size`: the rows that an encoded image takes.
#[verifier::external_body]
pub(crate) fn protocol_height(protocol: &Protocol) -> (rows: u16)
    ensures
        rows == protocol_rows(*protocol),
{
    protocol.size().height
}

impl Encoder {
    /// The size that the encoder holds is the size of the cells of its
    /// picker.
    #[verifier::type_invariant]
    spec fn holds_its_cell(self) -> bool {
        self.cell == picker_cell(self.picker)
    }

    /// What the encoder knows of the terminal.
    pub closed spec fn picker(&self) -> Picker {
        self.picker
    }

    /// The size of a cell of the terminal in pixels: width and height.
    pub closed spec fn cell_size(&self) -> (u16, u16) {
        self.cell
    }

    /// Whether an image can be encoded for a box of `width` by `height`
    /// cells: the box and the cells of the terminal have a width and a
    /// height, and the box is 65535 pixels wide and high at most.
    pub open spec fn can_encode(&self, width: u16, height: u16) -> bool {
        &&& width > 0
        &&& height > 0
        &&& self.cell_size().0 > 0
        &&& self.cell_size().1 > 0
        &&& width * self.cell_size().0 <= u16::MAX
        &&& height * self.cell_size().1 <= u16::MAX
    }

    /// An encoder for the terminal that `picker` knows: it holds `picker`
    /// as it is, beside the size of a cell that `picker` tells.
    pub fn new(picker: Picker) -> (encoder: Encoder)
        ensures
            encoder.picker() == picker,
            encoder.cell_size() == picker_cell(picker),
    {
        let cell = font_size(&picker);
        Encoder { picker, cell }
    }

    /// Whether an image can be encoded for a box of `width` by `height`
    /// cells.
    pub fn check_can_encode(&self, width: u16, height: u16) -> (fine: bool)
        ensures
            fine == self.can_encode(width, height),
    {
        assert(width * self.cell.0 <= 65535 * 65535) by (nonlinear_arith)
            requires
                width <= 65535,
                self.cell.0 <= 65535,
        ;
        assert(height * self.cell.1 <= 65535 * 65535) by (nonlinear_arith)
            requires
                height <= 65535,
                self.cell.1 <= 65535,
        ;
        width > 0 && height > 0 && self.cell.0 > 0 && self.cell.1 > 0 && width as u32
            * self.cell.0 as u32 <= 65535 && height as u32 * self.cell.1 as u32 <= 65535
    }
}

/// Where the bytes of an image are to be had.
#[derive(Debug, Clone, Copy, PartialEq, Eq, Structural)]
pub enum ImagePlace {
    /// On the network.
    Remote,
    /// In a file, beside the document.
    Relative,
    /// In a file, at the path as given.
    Local,
}

/// The kinds of image that the viewer takes from the network.
#[derive(Debug, Clone, Copy, PartialEq, Eq, Structural)]
pub enum ImageKind {
    Jpeg,
    Png,
    WebP,
    Gif,
}

/// Where the address `url` points: to the network for `http://` and
/// `https://`, beside the document for `./`, else to a path.
pub open spec fn place_of(url: Seq<char>) -> ImagePlace {
    if "https://"@.is_prefix_of(url) || "http://"@.is_prefix_of(url) {
        ImagePlace::Remote
    } else if "./"@.is_prefix_of(url) {
        ImagePlace::Relative
    } else {
        ImagePlace::Local
    }
}

/// Where the bytes of the image at `url` are to be had.
pub fn image_place(url: &str) -> (place: ImagePlace)
    ensures
        place == place_of(url@),
{
    if starts_with(url, "https://") || starts_with(url, "http://") {
        ImagePlace::Remote
    } else if starts_with(url, "./") {
        ImagePlace::Relative
    } else {
        ImagePlace::Local
    }
}

/// The kind that a content type names.
pub open spec fn kind_of(content_type: Seq<char>) -> Option<ImageKind> {
    if content_type == "image/jpeg"@ {
        Some(ImageKind::Jpeg)
    } else if content_type == "image/png"@ {
        Some(ImageKind::Png)
    } else if content_type == "image/webp"@ {
        Some(ImageKind::WebP)
    } else if content_type == "image/gif"@ {
        Some(ImageKind::Gif)
    } else {
        None
    }
}

/// Whether two texts are the same.
pub fn same_text(a: &str, b: &str) -> (same: bool)
    ensures
        same == (a@ == b@),
{
    String::from_str(a) == String::from_str(b)
}

/// The kind of the image that a server sent for the unit `id` from `url`,
/// by the content type that it named, if it named one. Any other content
/// type, and none, is an error.
pub fn image_kind(id: SourceID, url: &str, content_type: Option<&str>) -> (kind: Result<
    ImageKind,
    Error,
>)
    ensures
        match content_type {
            Some(named) => match kind_of(named@) {
                Some(known) => kind == Ok::<ImageKind, Error>(known),
                None => kind matches Err(Error::UnknownImage(unit, address)) && unit == id
                    && address@ == url@,
            },
            None => kind matches Err(Error::UnknownImage(unit, address)) && unit == id && address@
                == url@,
        },
{
    match content_type {
        Some(named) => {
            if same_text(named, "image/jpeg") {
                Ok(ImageKind::Jpeg)
            } else if same_text(named, "image/png") {
                Ok(ImageKind::Png)
            } else if same_text(named, "image/webp") {
                Ok(ImageKind::WebP)
            } else if same_text(named, "image/gif") {
                Ok(ImageKind::Gif)
            } else {
                Err(Error::UnknownImage(id, String::from_str(url)))
            }
        },
        None => Err(Error::UnknownImage(id, String::from_str(url))),
    }
}

/// The kind of the image in a server's answer for the unit `id` from
/// `url`: that of `image_kind` where the server answered with success; an
/// answer without success is an error, whatever content type it names.
pub fn answered_kind(id: SourceID, url: &str, success: bool, content_type: Option<&str>) -> (kind:
    Result<ImageKind, Error>)
    ensures
        match content_type {
            Some(named) => match kind_of(named@) {
                Some(known) if success => kind == Ok::<ImageKind, Error>(known),
                _ => kind matches Err(Error::UnknownImage(unit, address)) && unit == id
                    && address@ == url@,
            },
            None => kind matches Err(Error::UnknownImage(unit, address)) && unit == id && address@
                == url@,
        },
{
    if success {
        image_kind(id, url, content_type)
    } else {
        Err(Error::UnknownImage(id, String::from_str(url)))
    }
}

/// The widest that an image of at most `max_height` rows is shown in a
/// document `width` columns wide: one and a half times its height, and no
/// wider than the document.
pub open spec fn image_width_of(max_height: u16, width: u16) -> u16 {
    if max_height * 3 / 2 < width {
        (max_height * 3 / 2) as u16
    } else {
        width
    }
}

/// The widest that an image of at most `max_height` rows is shown in a
/// document `width` columns wide.
pub fn image_width(max_height: u16, width: u16) -> (max_width: u16)
    ensures
        max_width == image_width_of(max_height, width),
{
    let wide: u32 = max_height as u32 * 3 / 2;
    if wide < width as u32 {
        wide as u16
    } else {
        width
    }
}

/// The unit that shows the encoded image `protocol` of the address `url`
/// in `height` rows.
pub fn image_unit<'a>(id: SourceID, url: String, protocol: Protocol, height: u16) -> (unit:
    WidgetSource<'a>)
    ensures
        unit == (WidgetSource { id, height, data: WidgetSourceData::Image(url, protocol) }),
{
    WidgetSource { id, height, data: WidgetSourceData::Image(url, protocol) }
}

/// The unit of an image once the terminal's encoder has had it: the image
/// in the rows that it takes, or the encoder's error.
pub fn encoded_unit<'a>(id: SourceID, url: String, encoded: Result<Protocol, Errors>) -> (unit:
    Result<WidgetSource<'a>, Error>)
    ensures
        match encoded {
            Ok(protocol) => unit == Ok::<WidgetSource<'a>, Error>(
                WidgetSource {
                    id,
                    height: protocol_rows(protocol),
                    data: WidgetSourceData::Image(url, protocol),
                },
            ),
            Err(errors) => unit == Err::<WidgetSource<'a>, Error>(Error::Protocol(errors)),
        },
{
    match encoded {
        Ok(protocol) => {
            let height = protocol_height(&protocol);
            Ok(image_unit(id, url, protocol, height))
        },
        Err(errors) => Err(Error::Protocol(errors)),
    }
}

/// Encodes a decoded image for the terminal, to fit a box of `max_height`
/// rows in a document `width` columns wide, and makes it the unit `id`: an
/// image under the address `url`, in the rows that the encoded image takes.
/// Where the encoder fails, its error is handed on.
pub fn image_source_unit<'a>(
    encoder: &Encoder,
    max_height: u16,
    width: u16,
    id: SourceID,
    url: &str,
    image: DynamicImage,
) -> (unit: Result<WidgetSource<'a>, Error>)
    requires
        encoder.can_encode(image_width_of(max_height, width), max_height),
    ensures
        match unit {
            Ok(source) => {
                &&& source.id == id
                &&& source.data matches WidgetSourceData::Image(address, protocol)
                &&& address@ == url@
                &&& source.height == protocol_rows(protocol)
            },
            Err(error) => error is Protocol,
        },
{
    let max_width = image_width(max_height, width);
    encoded_unit(id, String::from_str(url), new_protocol(encoder, image, max_width, max_height))
}

/// The unit for an image that could not be had: a broken image that names
/// its address and what went wrong.
pub fn broken_unit<'a>(id: SourceID, url: &str, error: &str) -> (unit: WidgetSource<'a>)
    ensures
        unit.id == id,
        unit.height == 1,
        unit.data matches WidgetSourceData::BrokenImage(address, text) && address@ == url@ && text@
            == error@,
{
    WidgetSource::image_unknown(id, String::from_str(url), String::from_str(error))
}

/// Whether `units` are the lines of a header rendered as images: one unit
/// for each line, all with the id `id`, each two rows high, each showing an
/// image under its line's text.
pub open spec fn are_header_sources(
    units: Seq<WidgetSource<'_>>,
    id: SourceID,
    texts: Seq<Seq<char>>,
) -> bool {
    &&& units.len() == texts.len()
    &&& forall|i: int|
        0 <= i < units.len() ==> {
            &&& (#[trigger] units[i]).id == id
            &&& units[i].height == HEADER_ROW_COUNT
            &&& units[i].is_image_of(texts[i])
        }
}

/// The texts of the lines of a header.
pub open spec fn line_texts(lines: Seq<(String, DynamicImage)>) -> Seq<Seq<char>> {
    lines.map_values(|line: (String, DynamicImage)| line.0@)
}

/// Encodes the lines of a header that were drawn as images, each to fit two
/// rows of `width` columns, and makes them the units of the id `id`. The
/// first line that the encoder refuses ends the work with its error; no
/// lines give no units.
pub fn header_sources<'a>(
    encoder: &Encoder,
    width: u16,
    id: SourceID,
    dyn_imgs: Vec<(String, DynamicImage)>,
) -> (sources: Result<Vec<WidgetSource<'a>>, Error>)
    requires
        encoder.can_encode(width, HEADER_ROW_COUNT),
    ensures
        match sources {
            Ok(units) => are_header_sources(units@, id, line_texts(dyn_imgs@)),
            Err(error) => error is Protocol && dyn_imgs@.len() > 0,
        },
{
    let ghost texts = line_texts(dyn_imgs@);
    let n = dyn_imgs.len();
    let mut back = reversed(dyn_imgs);
    let mut sources: Vec<WidgetSource<'a>> = Vec::new();
    let mut i: usize = 0;
    while i < n
        invariant
            n == texts.len(),
            n == dyn_imgs@.len(),
            i <= n,
            encoder.can_encode(width, HEADER_ROW_COUNT),
            back@.len() == n - i,
            line_texts(back@) == texts.reverse().subrange(0, n - i),
            are_header_sources(sources@, id, texts.subrange(0, i as int)),
        decreases n - i,
    {
        let ghost rest = back@;
        let (text, dyn_img) = back.pop().unwrap();
        proof {
            assert(line_texts(back@) =~= texts.reverse().subrange(0, n - i - 1));
            assert(line_texts(rest)[n - i - 1] == rest[n - i - 1].0@);
            assert(text@ == texts[i as int]);
        }
        match new_protocol(encoder, dyn_img, width, HEADER_ROW_COUNT) {
            Ok(proto) => {
                sources.push(image_unit(id, text, proto, HEADER_ROW_COUNT));
            },
            Err(errors) => {
                return Err(Error::Protocol(errors));
            },
        }
        i += 1;
    }
    assert(texts.subrange(0, n as int) =~= texts);
    Ok(sources)
}

/// `image_source_unit` where the encoder can encode for the box; `None`
/// where it cannot.
pub fn checked_image_source_unit<'a>(
    encoder: &Encoder,
    max_height: u16,
    width: u16,
    id: SourceID,
    url: &str,
    image: DynamicImage,
) -> (unit: Option<Result<WidgetSource<'a>, Error>>)
    ensures
        unit is Some == encoder.can_encode(image_width_of(max_height, width), max_height),
        match unit {
            Some(Ok(source)) => {
                &&& source.id == id
                &&& source.data matches WidgetSourceData::Image(address, protocol)
                &&& address@ == url@
                &&& source.height == protocol_rows(protocol)
            },
            Some(Err(error)) => error is Protocol,
            None => true,
        },
{
    if encoder.check_can_encode(image_width(max_height, width), max_height) {
        Some(image_source_unit(encoder, max_height, width, id, url, image))
    } else {
        None
    }
}

/// `header_sources` where the encoder can encode for two rows of `width`
/// columns; `None` where it cannot.
pub fn checked_header_sources<'a>(
    encoder: &Encoder,
    width: u16,
    id: SourceID,
    dyn_imgs: Vec<(String, DynamicImage)>,
) -> (sources: Option<Result<Vec<WidgetSource<'a>>, Error>>)
    ensures
        sources is Some == encoder.can_encode(width, HEADER_ROW_COUNT),
        match sources {
            Some(Ok(units)) => are_header_sources(units@, id, line_texts(dyn_imgs@)),
            Some(Err(error)) => error is Protocol && dyn_imgs@.len() > 0,
            None => true,
        },
{
    if encoder.check_can_encode(width, HEADER_ROW_COUNT) {
        Some(header_sources(encoder, width, id, dyn_imgs))
    } else {
        None
    }
}

} // verus!
