//! The gallery: images as they are served, listed, packed and made small.
use vstd::prelude::*;
use vstd::utf8::encode_utf8;

use crate::archive::{
    named_files, pack_zip, too_large, zip_bytes, zip_excess, zip_small, MAX_ZIP_NAME,
};
use crate::assoc::lookup;
use crate::clock::Moment;
use crate::error::{message_detail, AppError};
use crate::image_paths::{
    content_type_for, file_name, media_of, safe_path, safe_relative_path, split_stem_suffix,
    stem_suffix,
};
use crate::image_storage::{source_of, ImageSource, ImageStorageService};
use crate::image_tags::ImageTagsService;
use crate::json::non_empty_or;
use crate::naming::{free_name, free_name_for, lemma_free_name_unique};
use crate::text::{
    cat, cat3, chars_of, deduped, ends, ends_with, last_piece, push_new, same, skip_back,
    text_between, trim_back, views, CharClass,
};
use crate::value::{empty_object, int_json, list_view, or_else, Json, JsonView};

verus! {

broadcast use crate::value::group_json;

/// The longest side of a small picture, in pixels.
pub const THUMBNAIL_SIZE: u32 = 320;

/// A file as it is served; `filename` names a download.
pub struct ImageFile {
    pub bytes: Vec<u8>,
    pub content_type: String,
    pub filename: Option<String>,
}

// ---------------------------------------------------------------------------
// small pictures
// ---------------------------------------------------------------------------

/// A decoded picture: red, green, blue and alpha, a byte each, row by row.
pub struct Picture {
    pub width: u32,
    pub height: u32,
    /// Whether the alpha means anything.
    pub alpha: bool,
    pub pixels: Vec<u8>,
}

impl Picture {
    /// There are four bytes for each pixel.
    pub open spec fn wf(self) -> bool {
        self.pixels@.len() == self.width * self.height * 4
    }
}

/// What an image file holds: the width, the height and whether there is an alpha channel, of its
/// picture as it is stored, and how it says that the picture is to be turned, in the numbers of
/// Exif; none where it cannot be decoded.
pub uninterp spec fn picture_shape(bytes: Seq<u8>) -> Option<(u32, u32, bool, Option<u8>)>;

/// Whether a file begins as those of JPEG do.
pub open spec fn begins_as_jpeg(b: Seq<u8>) -> bool {
    b.len() >= 3 && b[0] == 0xff && b[1] == 0xd8 && b[2] == 0xff
}

/// The pixels that an image file other than one of JPEG is decoded to.
pub uninterp spec fn picture_pixels(bytes: Seq<u8>) -> Seq<u8>;

/// Whether these are pixels that a JPEG file may be decoded to. Machines with other vector
/// instructions may decode one file to other pixels.
pub uninterp spec fn jpeg_may_give(bytes: Seq<u8>, pixels: Seq<u8>) -> bool;

/// Whether these are the pixels that an image file is decoded to.
pub open spec fn are_pixels_of(bytes: Seq<u8>, pixels: Seq<u8>) -> bool {
    if begins_as_jpeg(bytes) {
        jpeg_may_give(bytes, pixels)
    } else {
        pixels == picture_pixels(bytes)
    }
}

/// Calls `image::DynamicImage::from_decoder` on the decoder that `image::ImageReader` guesses, asks
/// the decoder for its orientation, and takes the pixels with `image::DynamicImage::to_rgba8`.
/// Claims that there are four bytes for each pixel, that an orientation is a number from one to
/// eight, and that whether there is a picture, its sides, its alpha channel and its orientation
/// depend on the bytes alone. So do the pixels of PNG and WebP files. JPEG files are decoded with
/// the vector instructions that the machine has: of their pixels no more is claimed than that they
/// come of these bytes. It is left open whether one of the decoders panics on a malformed file.
#[verifier::external_body]
fn decode_picture(data: &[u8]) -> (r: Option<(Picture, Option<u8>)>)
    ensures
        match r {
            Some(x) => {
                &&& x.0.wf()
                &&& picture_shape(data@) == Some((x.0.width, x.0.height, x.0.alpha, x.1))
                &&& x.1 is Some ==> 1 <= x.1->0 <= 8
                &&& if begins_as_jpeg(data@) {
                    jpeg_may_give(data@, x.0.pixels@)
                } else {
                    x.0.pixels@ == picture_pixels(data@)
                }
            },
            None => picture_shape(data@) is None,
        },
{
    let reader = image::ImageReader::new(std::io::Cursor::new(data)).with_guessed_format().ok()?;
    let mut decoder = reader.into_decoder().ok()?;
    let turn = image::ImageDecoder::orientation(&mut decoder).ok().map(|o| o.to_exif());
    let img = image::DynamicImage::from_decoder(decoder).ok()?;
    let (width, height, alpha) = (img.width(), img.height(), img.color().has_alpha());
    Some((Picture { width, height, alpha, pixels: img.to_rgba8().into_raw() }, turn))
}

/// The pixel of a picture in column `x` and row `y`.
pub open spec fn pixel(p: Picture, x: int, y: int) -> Seq<u8> {
    p.pixels@.subrange((y * p.width + x) * 4, (y * p.width + x) * 4 + 4)
}

/// Whether a turn makes columns of the rows.
pub open spec fn is_quarter(turn: u8) -> bool {
    5 <= turn <= 8
}

/// The pixel of a picture with the given sides that a turn brings to column `x` and row `y`.
pub open spec fn turned_from(turn: u8, width: int, height: int, x: int, y: int) -> (int, int) {
    if turn == 2 {
        (width - 1 - x, y)
    } else if turn == 3 {
        (width - 1 - x, height - 1 - y)
    } else if turn == 4 {
        (x, height - 1 - y)
    } else if turn == 5 {
        (y, x)
    } else if turn == 6 {
        (y, height - 1 - x)
    } else if turn == 7 {
        (width - 1 - y, height - 1 - x)
    } else if turn == 8 {
        (width - 1 - y, x)
    } else {
        (x, y)
    }
}

/// Whether `q` is the picture `p` after a turn.
pub open spec fn is_turned(p: Picture, turn: u8, q: Picture) -> bool {
    &&& q.wf()
    &&& q.alpha == p.alpha
    &&& if is_quarter(turn) {
        q.width == p.height && q.height == p.width
    } else {
        q.width == p.width && q.height == p.height
    }
    &&& forall|x: int, y: int|
        0 <= x < q.width && 0 <= y < q.height ==> #[trigger] pixel(q, x, y) == ({
            let from = turned_from(turn, p.width as int, p.height as int, x, y);
            pixel(p, from.0, from.1)
        })
}

/// Calls `image::DynamicImage::apply_orientation` with an orientation in the numbers of Exif.
/// Claims that each pixel goes where the orientation says.
#[verifier::external_body]
fn turn_picture(p: Picture, turn: u8) -> (r: Option<Picture>)
    requires
        p.wf(),
        1 <= turn <= 8,
    ensures
        r is Some,
        is_turned(p, turn, r->0),
{
    let whole = image::RgbaImage::from_raw(p.width, p.height, p.pixels)?;
    let mut img = image::DynamicImage::ImageRgba8(whole);
    img.apply_orientation(image::metadata::Orientation::from_exif(turn)?);
    let (width, height, alpha) = (img.width(), img.height(), p.alpha);
    Some(Picture { width, height, alpha, pixels: img.into_rgba8().into_raw() })
}

/// Whether `n` is about `limit` times `a` over `b`, and at least one.
pub open spec fn in_ratio(n: int, limit: int, a: int, b: int) -> bool {
    n >= 1 && (n == 1 || (n * b <= limit * a + b && limit * a <= n * b + b))
}

/// Whether `q` is a picture that `p` may become when it is resized to fit into the given sides.
/// Machines with another sine may make other pixels of one picture.
pub uninterp spec fn resize_may_give(
    p: (u32, u32, Seq<u8>),
    width: u32,
    height: u32,
    q: (u32, u32, Seq<u8>),
) -> bool;

/// The sides and the pixels of a picture.
pub open spec fn content(p: Picture) -> (u32, u32, Seq<u8>) {
    (p.width, p.height, p.pixels@)
}

/// Calls `image::DynamicImage::resize` with the Lanczos filter. Claims that the picture fits into
/// the given sides, and that into a square it fits with its longer side, and with the other one in
/// the ratio of its sides. Its pixels are computed with floating-point numbers and the machine's
/// sine: of them no more is claimed than that they come of this picture and these sides.
#[verifier::external_body]
fn resize_picture(p: Picture, width: u32, height: u32) -> (r: Option<Picture>)
    requires
        p.wf(),
        width > 0,
        height > 0,
    ensures
        r is Some,
        r->0.wf(),
        r->0.width <= width,
        r->0.height <= height,
        r->0.alpha == p.alpha,
        resize_may_give(content(p), width, height, content(r->0)),
        width == height && p.width >= p.height > 0 ==> r->0.width == width && in_ratio(
            r->0.height as int,
            width as int,
            p.height as int,
            p.width as int,
        ),
        width == height && p.height > p.width > 0 ==> r->0.height == height && in_ratio(
            r->0.width as int,
            height as int,
            p.width as int,
            p.height as int,
        ),
{
    let whole = image::RgbaImage::from_raw(p.width, p.height, p.pixels)?;
    let filter = image::imageops::FilterType::Lanczos3;
    let small = image::DynamicImage::ImageRgba8(whole).resize(width, height, filter).into_rgba8();
    let (width, height, alpha) = (small.width(), small.height(), p.alpha);
    Some(Picture { width, height, alpha, pixels: small.into_raw() })
}

/// The PNG file of a picture with three bytes for each pixel, where it can be written.
pub uninterp spec fn png_rgb(width: u32, height: u32, pixels: Seq<u8>) -> Option<Seq<u8>>;

/// Calls `image::DynamicImage::write_to` on an `ImageRgb8` for the PNG format. Claims that the
/// outcome depends on the sides and the pixels alone.
#[verifier::external_body]
fn encode_rgb(width: u32, height: u32, pixels: Vec<u8>) -> (r: Option<Vec<u8>>)
    requires
        pixels@.len() == width * height * 3,
    ensures
        match r {
            Some(b) => png_rgb(width, height, pixels@) == Some(b@),
            None => png_rgb(width, height, pixels@) is None,
        },
{
    let whole = image::DynamicImage::ImageRgb8(image::RgbImage::from_raw(width, height, pixels)?);
    let mut out = std::io::Cursor::new(Vec::new());
    whole.write_to(&mut out, image::ImageFormat::Png).ok()?;
    Some(out.into_inner())
}

/// The PNG file of a picture with four bytes for each pixel, where it can be written.
pub uninterp spec fn png_rgba(width: u32, height: u32, pixels: Seq<u8>) -> Option<Seq<u8>>;

/// Calls `image::DynamicImage::write_to` on an `ImageRgba8` for the PNG format. Claims that the
/// outcome depends on the sides and the pixels alone.
#[verifier::external_body]
fn encode_rgba(width: u32, height: u32, pixels: Vec<u8>) -> (r: Option<Vec<u8>>)
    requires
        pixels@.len() == width * height * 4,
    ensures
        match r {
            Some(b) => png_rgba(width, height, pixels@) == Some(b@),
            None => png_rgba(width, height, pixels@) is None,
        },
{
    let whole = image::DynamicImage::ImageRgba8(image::RgbaImage::from_raw(width, height, pixels)?);
    let mut out = std::io::Cursor::new(Vec::new());
    whole.write_to(&mut out, image::ImageFormat::Png).ok()?;
    Some(out.into_inner())
}

/// Pixels without their alpha.
pub open spec fn opaque_pixels(pixels: Seq<u8>) -> Seq<u8> {
    Seq::new(pixels.len() / 4 * 3, |i: int| pixels[i / 3 * 4 + i % 3])
}

fn drop_alpha(pixels: &Vec<u8>) -> (r: Vec<u8>)
    requires
        pixels@.len() % 4 == 0,
    ensures
        r@ == opaque_pixels(pixels@),
{
    let ghost want = opaque_pixels(pixels@);
    let mut out: Vec<u8> = Vec::new();
    let mut i: usize = 0;
    while i < pixels.len()
        invariant
            i <= pixels@.len(),
            i % 4 == 0,
            pixels@.len() % 4 == 0,
            want == opaque_pixels(pixels@),
            out@.len() == i / 4 * 3,
            out@ =~= want.take(i / 4 * 3),
        decreases pixels@.len() - i,
    {
        let ghost k = (i / 4) as int;
        assert(want[k * 3] == pixels@[k * 4]);
        assert(want[k * 3 + 1] == pixels@[k * 4 + 1]) by {
            assert((k * 3 + 1) / 3 == k && (k * 3 + 1) % 3 == 1);
        }
        assert(want[k * 3 + 2] == pixels@[k * 4 + 2]) by {
            assert((k * 3 + 2) / 3 == k && (k * 3 + 2) % 3 == 2);
        }
        out.push(pixels[i]);
        out.push(pixels[i + 1]);
        out.push(pixels[i + 2]);
        i += 4;
    }
    assert(want.take(i / 4 * 3) =~= want);
    out
}

/// The PNG file of a picture, with its alpha where that means anything.
pub open spec fn png_of(p: Picture) -> Option<Seq<u8>> {
    if p.alpha {
        png_rgba(p.width, p.height, p.pixels@)
    } else {
        png_rgb(p.width, p.height, opaque_pixels(p.pixels@))
    }
}

/// Writes a picture as a PNG file.
pub fn encode_picture(p: Picture) -> (r: Result<Vec<u8>, AppError>)
    requires
        p.wf(),
    ensures
        match png_of(p) {
            Some(b) => r matches Ok(v) && v@ == b,
            None => r matches Err(e) && e.is_plain(422, message_detail("failed to create thumbnail"@)),
        },
{
    let out = if p.alpha {
        encode_rgba(p.width, p.height, p.pixels)
    } else {
        assert(p.pixels@.len() % 4 == 0 && p.pixels@.len() / 4 * 3 == p.width * p.height * 3);
        let plain = drop_alpha(&p.pixels);
        encode_rgb(p.width, p.height, plain)
    };
    match out {
        Some(b) => Ok(b),
        None => Err(thumb_err()),
    }
}

fn thumb_err() -> (r: AppError)
    ensures
        r.is_plain(422, message_detail("failed to create thumbnail"@)),
{
    AppError::message(422, "failed to create thumbnail")
}

/// Whether a picture with sides `w` and `h` is made small to sides `qw` and `qh`: one that fits
/// keeps its sides, another one gets the largest size for its longer side, and the other side in
/// the ratio of the two.
pub open spec fn fitted(w: int, h: int, qw: int, qh: int) -> bool {
    &&& qw <= THUMBNAIL_SIZE && qh <= THUMBNAIL_SIZE
    &&& if w <= THUMBNAIL_SIZE && h <= THUMBNAIL_SIZE {
        qw == w && qh == h
    } else if w >= h && h > 0 {
        qw == THUMBNAIL_SIZE && in_ratio(qh, THUMBNAIL_SIZE as int, h, w)
    } else if h > w && w > 0 {
        qh == THUMBNAIL_SIZE && in_ratio(qw, THUMBNAIL_SIZE as int, w, h)
    } else {
        true
    }
}

/// Whether a picture is small enough as it is.
pub open spec fn is_small(p: Picture) -> bool {
    p.width <= THUMBNAIL_SIZE && p.height <= THUMBNAIL_SIZE
}

/// How a picture is made small.
pub enum Shrinking {
    /// It stays as it is.
    Keep(Picture),
    /// It is resized to fit into a width and a height.
    Resize(Picture, u32, u32),
}

/// Decides how a picture is made small.
pub fn plan_shrink(p: Picture) -> (r: Shrinking)
    ensures
        r == if is_small(p) {
            Shrinking::Keep(p)
        } else {
            Shrinking::Resize(p, THUMBNAIL_SIZE, THUMBNAIL_SIZE)
        },
{
    if p.width > THUMBNAIL_SIZE || p.height > THUMBNAIL_SIZE {
        Shrinking::Resize(p, THUMBNAIL_SIZE, THUMBNAIL_SIZE)
    } else {
        Shrinking::Keep(p)
    }
}

/// Whether `q` is the picture `p` made small: one that fits stays as it is, another one is resized
/// to fit.
pub open spec fn is_shrunk(p: Picture, q: Picture) -> bool {
    &&& q.wf()
    &&& q.alpha == p.alpha
    &&& fitted(p.width as int, p.height as int, q.width as int, q.height as int)
    &&& if is_small(p) {
        q == p
    } else {
        resize_may_give(content(p), THUMBNAIL_SIZE, THUMBNAIL_SIZE, content(q))
    }
}

/// Makes a picture small: one that fits stays as it is.
pub fn shrink(p: Picture) -> (r: Option<Picture>)
    requires
        p.wf(),
    ensures
        r is Some,
        is_shrunk(p, r->0),
{
    match plan_shrink(p) {
        Shrinking::Keep(q) => Some(q),
        Shrinking::Resize(q, width, height) => resize_picture(q, width, height),
    }
}

/// Whether `u` is the picture `p` turned as its file says; one whose file says nothing stays as it
/// is.
pub open spec fn is_upright(p: Picture, turn: Option<u8>, u: Picture) -> bool {
    u.wf() && match turn {
        Some(n) => is_turned(p, n, u),
        None => u == p,
    }
}

/// Turns a picture as its file says; one whose file says nothing stays as it is.
pub fn set_upright(p: Picture, turn: Option<u8>) -> (r: Option<Picture>)
    requires
        p.wf(),
        turn is Some ==> 1 <= turn->0 <= 8,
    ensures
        r is Some,
        is_upright(p, turn, r->0),
{
    match turn {
        Some(n) => turn_picture(p, n),
        None => Some(p),
    }
}

/// Whether `r` is the PNG file of a picture, or the refusal of one that cannot be written.
pub open spec fn is_file_of(q: Picture, r: Result<Vec<u8>, AppError>) -> bool {
    match png_of(q) {
        Some(b) => r matches Ok(x) && x@ == b,
        None => r matches Err(e) && e.is_plain(422, message_detail("failed to create thumbnail"@)),
    }
}

/// Whether `r` is the file of the small picture of a stored one: it is set upright, then made
/// small, then written.
pub open spec fn is_thumbnail(
    stored: Picture,
    turn: Option<u8>,
    r: Result<Vec<u8>, AppError>,
) -> bool {
    exists|u: Picture, q: Picture| #[trigger]
        is_upright(stored, turn, u) && #[trigger] is_shrunk(u, q) && is_file_of(q, r)
}

/// Makes the small picture of one as it is stored, as a PNG file: set upright, then made small.
pub fn thumbnail_of(stored: Picture, turn: Option<u8>) -> (r: Result<Vec<u8>, AppError>)
    requires
        stored.wf(),
        turn is Some ==> 1 <= turn->0 <= 8,
    ensures
        is_thumbnail(stored, turn, r),
{
    match set_upright(stored, turn) {
        Some(u) => match shrink(u) {
            Some(q) => {
                let r = encode_picture(q);
                assert(is_upright(stored, turn, u) && is_shrunk(u, q) && is_file_of(q, r));
                r
            },
            None => Err(thumb_err()),
        },
        None => Err(thumb_err()),
    }
}

/// Whether a picture has the sides and the alpha channel that an image file gives.
pub open spec fn has_shape(p: Picture, shape: (u32, u32, bool, Option<u8>)) -> bool {
    p.wf() && p.width == shape.0 && p.height == shape.1 && p.alpha == shape.2
}

/// Makes the small picture of an image, as a PNG file: what [`thumbnail_of`] makes of the picture
/// that the image is decoded to.
pub fn make_thumbnail(data: &[u8]) -> (r: Result<Vec<u8>, AppError>)
    ensures
        match picture_shape(data@) {
            Some(shape) => exists|stored: Picture| #[trigger]
                has_shape(stored, shape) && are_pixels_of(data@, stored.pixels@) && is_thumbnail(
                    stored,
                    shape.3,
                    r,
                ),
            None => r matches Err(e) && e.is_plain(
                422,
                message_detail("failed to create thumbnail"@),
            ),
        },
{
    match decode_picture(data) {
        Some((stored, turn)) => {
            assert(has_shape(stored, picture_shape(data@)->0));
            thumbnail_of(stored, turn)
        },
        None => Err(thumb_err()),
    }
}

// ---------------------------------------------------------------------------
// serving
// ---------------------------------------------------------------------------

/// The address of the small picture of an image.
pub open spec fn small_url(base: Seq<char>, rel: Seq<char>) -> Option<Seq<char>> {
    match safe_path(rel) {
        Some(safe) => Some(skip_back(base, CharClass::Just('/')) + "/image-thumbnails/"@ + safe),
        None => None,
    }
}

/// Whether a text is in a list as the path of a shown image.
pub open spec fn path_of() -> spec_fn(JsonView) -> Option<Seq<char>> {
    |it: JsonView|
        match it.get("path"@) {
            Some(JsonView::Str(s)) => Some(s),
            _ => None,
        }
}

/// An image as it is listed: with its address, that of its small picture, and its tags.
pub open spec fn listed_image(
    base: Seq<char>,
    tags: Seq<(Seq<char>, JsonView)>,
) -> spec_fn(JsonView) -> Option<JsonView> {
    |it: JsonView|
        if it is Obj {
            let path = it.str_at("path"@);
            Some(
                it.put(
                    "url"@,
                    JsonView::Str(
                        or_else(
                            it.str_at("url"@),
                            skip_back(base, CharClass::Just('/')) + "/images/"@ + path,
                        ),
                    ),
                ).put(
                    "thumbnail_url"@,
                    JsonView::Str(
                        match small_url(base, path) {
                            Some(u) => u,
                            None => Seq::empty(),
                        },
                    ),
                ).put(
                    "tags"@,
                    match lookup(tags, path) {
                        Some(v) => v,
                        None => JsonView::Arr(Seq::empty()),
                    },
                ),
            )
        } else {
            None
        }
}

/// Whether a list holds an image with a path.
pub open spec fn shows_path(items: Seq<JsonView>, path: Option<JsonView>) -> bool {
    exists|k: int| 0 <= k < items.len() && (#[trigger] items[k]).get("path"@) == path
}

/// Whether an image is of a day.
pub open spec fn of_day(day: Seq<char>) -> spec_fn(JsonView) -> bool {
    |it: JsonView| it.str_at("date"@) == day
}

/// The days of images.
pub open spec fn days_of(items: Seq<JsonView>) -> Seq<Seq<char>> {
    items.map_values(|it: JsonView| it.str_at("date"@))
}

/// The images of a day.
pub open spec fn day_group(items: Seq<JsonView>, day: Seq<char>) -> JsonView {
    empty_object().put("date"@, JsonView::Str(day)).put(
        "items"@,
        JsonView::Arr(items.filter(of_day(day))),
    )
}

/// The images by their days, each day where its first image stands.
pub open spec fn day_groups(items: Seq<JsonView>) -> Seq<JsonView> {
    deduped(days_of(items)).map_values(|day: Seq<char>| day_group(items, day))
}

fn group_of(items: &Vec<Json>, day: &str) -> (r: Json)
    ensures
        r@ == day_group(list_view(items@), day@),
{
    let ghost v = list_view(items@);
    let ghost keep = of_day(day@);
    let mut out: Vec<Json> = Vec::new();
    let mut i: usize = 0;
    proof {
        reveal(Seq::filter);
        assert(list_view(out@) =~= v.take(0).filter(keep));
    }
    while i < items.len()
        invariant
            i <= items@.len(),
            v == list_view(items@),
            keep == of_day(day@),
            list_view(out@) == v.take(i as int).filter(keep),
        decreases items@.len() - i,
    {
        let ghost done = list_view(out@);
        assert(v.take(i + 1).drop_last() =~= v.take(i as int));
        assert(v.take(i + 1).filter(keep) == if keep(v[i as int]) {
            done.push(v[i as int])
        } else {
            done
        }) by {
            reveal(Seq::filter);
        }
        if same(items[i].str_at("date").as_str(), day) {
            out.push(items[i].copy());
            assert(list_view(out@) =~= done.push(v[i as int]));
        }
        i += 1;
    }
    assert(v.take(i as int) =~= v);
    let mut o = Json::object();
    o.set("date", Json::from_text(day));
    o.set("items", Json::Arr(out));
    o
}

fn group_by_day(items: &Vec<Json>) -> (r: Vec<Json>)
    ensures
        list_view(r@) == day_groups(list_view(items@)),
{
    let ghost v = list_view(items@);
    let ghost d = days_of(v);
    let mut days: Vec<String> = Vec::new();
    let mut i: usize = 0;
    assert(views(days@) =~= Seq::empty());
    while i < items.len()
        invariant
            i <= items@.len(),
            v == list_view(items@),
            d == days_of(v),
            views(days@) == deduped(d.take(i as int)),
        decreases items@.len() - i,
    {
        assert(d.take(i + 1).drop_last() =~= d.take(i as int));
        push_new(&mut days, items[i].str_at("date").as_str());
        i += 1;
    }
    assert(d.take(i as int) =~= d);
    let ghost want = day_groups(v);
    let mut out: Vec<Json> = Vec::new();
    let mut k: usize = 0;
    assert(views(days@).len() == days@.len());
    while k < days.len()
        invariant
            k <= days@.len(),
            v == list_view(items@),
            d == days_of(v),
            views(days@) == deduped(d),
            views(days@).len() == days@.len(),
            want == day_groups(v),
            list_view(out@) =~= want.take(k as int),
        decreases days@.len() - k,
    {
        let ghost done = list_view(out@);
        assert(views(days@)[k as int] == days@[k as int]@);
        let g = group_of(items, days[k].as_str());
        let ghost gv = g@;
        out.push(g);
        assert(list_view(out@) =~= done.push(gv));
        k += 1;
    }
    assert(list_view(out@) =~= want);
    out
}

/// The names under which images are packed: each free of those before it.
pub open spec fn packed_names(rels: Seq<Seq<char>>) -> Seq<Seq<char>>
    decreases rels.len(),
{
    if rels.len() == 0 {
        Seq::empty()
    } else {
        let used = packed_names(rels.drop_last());
        let parts = stem_suffix(last_piece(rels.last(), '/'));
        used.push(free_name_for(used, parts.0, "_"@, parts.1))
    }
}

/// The paths of images.
pub open spec fn rels_of(images: Seq<(Seq<char>, Seq<u8>)>) -> Seq<Seq<char>> {
    images.map_values(|f: (Seq<char>, Seq<u8>)| f.0)
}

/// Images under the names under which they are packed.
pub open spec fn packed_images(images: Seq<(Seq<char>, Seq<u8>)>) -> Seq<(Seq<char>, Seq<u8>)> {
    Seq::new(images.len(), |i: int| (packed_names(rels_of(images))[i], images[i].1))
}

/// The gallery.
pub struct ImageService;

impl ImageService {
    /// The address of the small picture of an image.
    pub fn thumbnail_url(base_url: &str, relative_path: &str) -> (r: Result<String, AppError>)
        ensures
            match small_url(base_url@, relative_path@) {
                Some(u) => r matches Ok(s) && s@ == u,
                None => r matches Err(e) && e.is_plain(404, message_detail("image not found"@)),
            },
    {
        match safe_relative_path(relative_path) {
            Ok(safe) => Ok(
                cat3(
                    trim_back(base_url, CharClass::Just('/')).as_str(),
                    "/image-thumbnails/",
                    safe.as_str(),
                ),
            ),
            Err(e) => Err(e),
        }
    }

    /// The place of the small picture of an image among small pictures.
    pub fn thumbnail_path(relative_path: &str) -> (r: Result<String, AppError>)
        ensures
            match safe_path(relative_path@) {
                Some(safe) => r matches Ok(s) && s@ == safe + ".png"@,
                None => r matches Err(e) && e.is_plain(404, message_detail("image not found"@)),
            },
    {
        match safe_relative_path(relative_path) {
            Ok(safe) => Ok(cat(safe.as_str(), ".png")),
            Err(e) => Err(e),
        }
    }

    /// An image as it is served; `local` tells whether it was read locally.
    pub fn get_image(relative_path: &str, local: bool, bytes: Vec<u8>) -> (r: ImageFile)
        ensures
            r.bytes@ == bytes@,
            r.content_type@ == (if local {
                media_of(last_piece(relative_path@, '/'))
            } else {
                "image/png"@
            }),
            r.filename is None,
    {
        ImageFile {
            bytes,
            content_type: if local {
                content_type_for(file_name(relative_path).as_str())
            } else {
                "image/png".to_owned()
            },
            filename: None,
        }
    }

    /// An image as it is downloaded; `local_name` is the name of its file where it was read
    /// locally.
    pub fn get_image_download(relative_path: &str, local_name: Option<&str>, bytes: Vec<u8>) -> (r:
        Result<ImageFile, AppError>)
        ensures
            match local_name {
                Some(name) => r matches Ok(f) && f.bytes@ == bytes@ && f.content_type@ == media_of(
                    name@,
                ) && f.filename is Some && f.filename->0@ == name@,
                None => match safe_path(relative_path@) {
                    Some(safe) => r matches Ok(f) && f.bytes@ == bytes@ && f.content_type@
                        == "image/png"@ && f.filename is Some && f.filename->0@ == last_piece(
                        safe,
                        '/',
                    ),
                    None => r matches Err(e) && e.is_plain(404, message_detail("image not found"@)),
                },
            },
    {
        match local_name {
            Some(name) => Ok(
                ImageFile {
                    content_type: content_type_for(name),
                    filename: Some(name.to_owned()),
                    bytes,
                },
            ),
            None => match safe_relative_path(relative_path) {
                Ok(safe) => Ok(
                    ImageFile {
                        bytes,
                        content_type: "image/png".to_owned(),
                        filename: Some(file_name(safe.as_str())),
                    },
                ),
                Err(e) => Err(e),
            },
        }
    }

    /// A small picture as it is served.
    pub fn get_thumbnail(bytes: Vec<u8>) -> (r: ImageFile)
        ensures
            r.bytes@ == bytes@,
            r.content_type@ == "image/png"@,
            r.filename is None,
    {
        ImageFile { bytes, content_type: "image/png".to_owned(), filename: None }
    }

    /// Whether a small picture is fresh: it is there, and not older than its image where that has
    /// a time.
    pub fn thumbnail_fresh(target: Option<Moment>, source: Option<Moment>) -> (r: bool)
        ensures
            r == (match (target, source) {
                (None, _) => false,
                (Some(t), None) => true,
                (Some(t), Some(s)) => s.not_after(t),
            }),
    {
        match (target, source) {
            (None, _) => false,
            (Some(_), None) => true,
            (Some(t), Some(s)) => s.secs < t.secs || (s.secs == t.secs && s.nanos <= t.nanos),
        }
    }

    /// The image that the small picture `rel` belongs to; none where its name is not that of one.
    pub fn thumbnail_source(rel: &str) -> (r: Option<String>)
        ensures
            if ends(rel@, ".png"@) {
                r matches Some(s) && s@ + ".png"@ == rel@
            } else {
                r is None
            },
    {
        if !ends_with(rel, ".png") {
            return None;
        }
        let v = chars_of(rel);
        proof {
            reveal_strlit(".png");
        }
        let s = text_between(&v, 0, v.len() - 4);
        assert(s@ + ".png"@ =~= rel@);
        Some(s)
    }

    /// Whether the small picture `rel` stays when small pictures are cleaned up: its image is
    /// stored; `local` tells whether the image's file is there.
    pub fn keeps_thumbnail(rel: &str, storage: &ImageStorageService, local: bool) -> (r: bool)
        ensures
            r == (ends(rel@, ".png"@) && source_of(
                storage.entries(),
                rel@.take(rel@.len() - 4),
                local,
            ) != ImageSource::Missing),
    {
        match Self::thumbnail_source(rel) {
            Some(s) => {
                proof {
                    reveal_strlit(".png");
                    assert(s@ =~= rel@.take(rel@.len() - 4));
                }
                storage.is_stored(s.as_str(), local)
            },
            None => false,
        }
    }

    /// The images as they are listed, all of them and by their days.
    pub fn list_images(raw: &Vec<Json>, base_url: &str, tags: &ImageTagsService) -> (r: Json)
        ensures
            ({
                let items = list_view(raw@).filter_map(listed_image(base_url@, tags.entries()));
                r@ == empty_object().put("items"@, JsonView::Arr(items)).put(
                    "groups"@,
                    JsonView::Arr(day_groups(items)),
                )
            }),
            forall|i: int|
                0 <= i < raw@.len() && (#[trigger] raw@[i])@ is Obj ==> shows_path(
                    r@.items_at("items"@),
                    raw@[i]@.get("path"@),
                ),
    {
        let ghost v = list_view(raw@);
        let ghost f = listed_image(base_url@, tags.entries());
        let mut items: Vec<Json> = Vec::new();
        let mut i: usize = 0;
        assert(v.take(0).filter_map(f) =~= Seq::empty());
        assert(list_view(items@) =~= Seq::empty());
        while i < raw.len()
            invariant
                i <= raw@.len(),
                v == list_view(raw@),
                f == listed_image(base_url@, tags.entries()),
                list_view(items@) == v.take(i as int).filter_map(f),
            decreases raw@.len() - i,
        {
            proof {
                v.lemma_filter_map_take_succ(f, i as int);
            }
            let ghost done = list_view(items@);
            if raw[i].is_object() {
                let mut o = raw[i].copy();
                let path = o.str_at("path");
                let plain = cat3(
                    trim_back(base_url, CharClass::Just('/')).as_str(),
                    "/images/",
                    path.as_str(),
                );
                let url = non_empty_or(o.str_at("url"), plain.as_str());
                o.set("url", Json::Str(url));
                let small = match Self::thumbnail_url(base_url, path.as_str()) {
                    Ok(u) => u,
                    Err(_) => String::new(),
                };
                o.set("thumbnail_url", Json::Str(small));
                let mine = match tags.tags_value(path.as_str()) {
                    Some(t) => t,
                    None => {
                        let none: Vec<Json> = Vec::new();
                        assert(list_view(none@) =~= Seq::empty());
                        Json::Arr(none)
                    },
                };
                o.set("tags", mine);
                let ghost ov = o@;
                items.push(o);
                assert(list_view(items@) =~= done + seq![ov]);
            }
            assert(list_view(items@) =~= v.take(i + 1).filter_map(f));
            i += 1;
        }
        assert(v.take(i as int) =~= v);
        let ghost shown = list_view(items@);
        proof {
            assert forall|i: int| 0 <= i < raw@.len() && (#[trigger] raw@[i])@ is Obj implies shows_path(
                shown,
                raw@[i]@.get("path"@),
            ) by {
                assert(v[i] == raw@[i]@);
                crate::gallery_laws::law_gallery_image(base_url@, tags.entries(), v[i]);
                crate::lists::lemma_mapped_has(v, f, i);
                let k = shown.index_of(f(v[i])->0);
                assert(shown[k].get("path"@) == v[i].get("path"@));
            }
        }
        let groups = group_by_day(&items);
        broadcast use crate::value::group_fields;

        proof {
            reveal_strlit("items");
            reveal_strlit("groups");
            assert("items"@.len() == 5);
            assert("groups"@.len() == 6);
        }
        let mut o = Json::object();
        o.set("items", Json::Arr(items));
        o.set("groups", Json::Arr(groups));
        o
    }

    /// The images that a deletion is about: all that are listed, or those that are named.
    pub fn delete_targets(all_matching: bool, listed: &Vec<Json>, paths: Vec<String>) -> (r: Vec<String>)
        ensures
            views(r@) == (if all_matching {
                list_view(listed@).filter_map(path_of())
            } else {
                views(paths@)
            }),
    {
        if !all_matching {
            return paths;
        }
        let ghost v = list_view(listed@);
        let ghost f = path_of();
        let mut out: Vec<String> = Vec::new();
        let mut i: usize = 0;
        assert(v.take(0).filter_map(f) =~= Seq::empty());
        assert(views(out@) =~= Seq::empty());
        while i < listed.len()
            invariant
                i <= listed@.len(),
                v == list_view(listed@),
                f == path_of(),
                views(out@) == v.take(i as int).filter_map(f),
            decreases listed@.len() - i,
        {
            proof {
                v.lemma_filter_map_take_succ(f, i as int);
            }
            let ghost done = views(out@);
            match listed[i].get("path") {
                Some(Json::Str(s)) => {
                    out.push(s.clone());
                    assert(views(out@) =~= done + seq![s@]);
                },
                _ => {},
            }
            assert(views(out@) =~= v.take(i + 1).filter_map(f));
            i += 1;
        }
        assert(v.take(i as int) =~= v);
        out
    }

    /// The report on a deletion.
    pub fn delete_report(removed: i64) -> (r: Json)
        ensures
            r@ == empty_object().put("removed"@, int_json(removed as int)),
    {
        let mut o = Json::object();
        o.set("removed", Json::from_int(removed));
        o
    }

    /// The names under which images are packed: that of the file, with a number where it is taken.
    pub fn zip_names(rels: &Vec<String>) -> (r: Vec<String>)
        ensures
            views(r@) == packed_names(views(rels@)),
            r@.len() == rels@.len(),
    {
        let ghost v = views(rels@);
        let mut used: Vec<String> = Vec::new();
        let mut i: usize = 0;
        assert(views(used@) =~= Seq::empty());
        while i < rels.len()
            invariant
                i <= rels@.len(),
                v == views(rels@),
                used@.len() == i,
                views(used@) == packed_names(v.take(i as int)),
            decreases rels@.len() - i,
        {
            assert(v.take(i + 1).drop_last() =~= v.take(i as int));
            let ghost had = views(used@);
            let (stem, suffix) = split_stem_suffix(file_name(rels[i].as_str()).as_str());
            let name = free_name(&used, stem.as_str(), "_", suffix.as_str());
            proof {
                lemma_free_name_unique(had, stem@, "_"@, suffix@, name@);
            }
            let ghost nv = name@;
            used.push(name);
            assert(views(used@) =~= had.push(nv));
            i += 1;
        }
        assert(v.take(i as int) =~= v);
        used
    }

    /// Packs images that were read, each given by its path and its bytes. An image that is too
    /// large for the archive is refused.
    pub fn download_images_zip(images: Vec<(String, Vec<u8>)>) -> (r: Result<Vec<u8>, AppError>)
        requires
            forall|i: int|
                0 <= i < images@.len() ==> encode_utf8(
                    #[trigger] packed_names(rels_of(named_files(images@)))[i],
                ).len() <= MAX_ZIP_NAME,
        ensures
            ({
                let files = packed_images(named_files(images@));
                if images@.len() == 0 {
                    r matches Err(x) && x.is_plain(404, message_detail("no images found"@))
                } else {
                    &&& match r {
                        Ok(b) => b@ == zip_bytes(files),
                        Err(x) => !zip_small(files) && (x.is_plain(
                            500,
                            message_detail("zip: "@ + too_large()),
                        ) || x.is_plain(500, message_detail("zip: "@ + "i/o error"@))),
                    }
                    &&& zip_excess(files) ==> r is Err
                }
            }),
    {
        let ghost v = named_files(images@);
        let mut rels: Vec<String> = Vec::new();
        let mut i: usize = 0;
        while i < images.len()
            invariant
                i <= images@.len(),
                v == named_files(images@),
                views(rels@) =~= rels_of(v).take(i as int),
            decreases images@.len() - i,
        {
            let ghost had = views(rels@);
            rels.push(images[i].0.clone());
            assert(views(rels@) =~= had.push(rels_of(v)[i as int]));
            i += 1;
        }
        assert(rels_of(v).take(i as int) =~= rels_of(v));
        let names = Self::zip_names(&rels);
        assert(rels@.len() == images@.len()) by {
            assert(views(rels@).len() == rels@.len());
        }
        let mut files: Vec<(String, Vec<u8>)> = Vec::new();
        let mut k: usize = 0;
        while k < images.len()
            invariant
                k <= images@.len(),
                v == named_files(images@),
                names@.len() == images@.len(),
                views(names@) == packed_names(rels_of(v)),
                named_files(files@) =~= packed_images(v).take(k as int),
            decreases images@.len() - k,
        {
            let ghost had = named_files(files@);
            assert(views(names@)[k as int] == names@[k as int]@);
            let bytes = vstd::slice::slice_to_vec(images[k].1.as_slice());
            files.push((names[k].clone(), bytes));
            assert(named_files(files@) =~= had.push(packed_images(v)[k as int]));
            k += 1;
        }
        assert(named_files(files@) =~= packed_images(v));
        let ghost all = packed_images(v);
        proof {
            law_packed_names_differ(rels_of(v));
            assert forall|i: int, j: int| 0 <= i < j < all.len() implies (#[trigger] all[i]).0 != (
            #[trigger] all[j]).0 by {
                assert(packed_names(rels_of(v))[i] != packed_names(rels_of(v))[j]);
            }
            assert(images@.len() == 0 ==> all =~= Seq::empty());
        }
        match pack_zip(&files) {
            Err(e) => {
                Err(AppError::internal(cat("zip: ", e.as_str()).as_str()))
            },
            Ok(bytes) => if images.len() == 0 {
                Err(AppError::not_found("no images found"))
            } else {
                Ok(bytes)
            },
        }
    }
}

// ---------------------------------------------------------------------------
// laws
// ---------------------------------------------------------------------------

/// A picture that is small and is not turned goes into its thumbnail as it is stored.
pub proof fn law_small_picture_stays(stored: Picture, r: Result<Vec<u8>, AppError>)
    requires
        is_small(stored),
        is_thumbnail(stored, None, r),
    ensures
        is_file_of(stored, r),
{
}

/// No two images are packed under one name.
pub proof fn law_packed_names_differ(rels: Seq<Seq<char>>)
    ensures
        packed_names(rels).no_duplicates(),
        packed_names(rels).len() == rels.len(),
    decreases rels.len(),
{
    if rels.len() > 0 {
        let used = packed_names(rels.drop_last());
        law_packed_names_differ(rels.drop_last());
        let parts = stem_suffix(last_piece(rels.last(), '/'));
        crate::naming::lemma_free_name_exists(used, parts.0, "_"@, parts.1);
        let name = free_name_for(used, parts.0, "_"@, parts.1);
        crate::naming::law_free_name_is_free(used, parts.0, "_"@, parts.1, name);
        let all = used.push(name);
        assert forall|i: int, j: int| 0 <= i < j < all.len() implies all[i] != all[j] by {
            if j == used.len() {
                assert(used.contains(all[i]));
            }
        }
    }
}

/// Each image is in the group of its day, and of no other day, and no day has two groups.
pub proof fn law_grouped_once(items: Seq<JsonView>, i: int)
    requires
        0 <= i < items.len(),
    ensures
        deduped(days_of(items)).no_duplicates(),
        deduped(days_of(items)).contains(items[i].str_at("date"@)),
        forall|day: Seq<char>| #[trigger]
            items.filter(of_day(day)).contains(items[i]) <==> day == items[i].str_at("date"@),
{
    broadcast use vstd::seq_lib::group_filter_ensures;

    crate::text::lemma_deduped(days_of(items));
    assert(days_of(items)[i] == items[i].str_at("date"@));
    assert(days_of(items).contains(items[i].str_at("date"@)));
    assert forall|day: Seq<char>| #[trigger]
        items.filter(of_day(day)).contains(items[i]) <==> day == items[i].str_at("date"@) by {
        let q = items.filter(of_day(day));
        if q.contains(items[i]) {
            let k = q.index_of(items[i]);
            assert(of_day(day)(q[k]));
        }
    }
}

} // verus!
