//! Getting the image that is sent: the screenshot as it is, or a smaller one.
//!
//! As with a capture, nothing is performed here: each state of a [`Preparation`]
//! names what it waits for.
use vstd::prelude::*;
use crate::config::{DownscaleConfig, DownscaleView};
use crate::scan::{replace, replaced, starts};
use crate::screenshot::{Exit, ExitView};
use crate::text::{cat2, cat3, cat4, chars_of, decimal, decimal_text, none, one, texts};

verus! {

// ---------------------------------------------------------------------------
// The built-in resizer

/// What the `image` crate finds when it decodes bytes in the format that the
/// extension of a path stands for: the width and height, or why it cannot.
pub uninterp spec fn decoded_size(bytes: Seq<u8>, path: Seq<char>) -> Result<
    (u32, u32),
    Seq<char>,
>;

/// What the `image` crate makes of an image that it decodes in the same way, scales
/// to fit a square of a given edge, and encodes as PNG: the width and height, and the
/// PNG or why there is none.
pub uninterp spec fn shrunk_png(bytes: Seq<u8>, path: Seq<char>, edge: u32) -> (
    u32,
    u32,
    Result<Seq<u8>, Seq<char>>,
);

/// The width and height, or the failure, that a decoding gave.
pub open spec fn size_result(r: Result<(u32, u32), String>) -> Result<(u32, u32), Seq<char>> {
    match r {
        Ok(size) => Ok(size),
        Err(e) => Err(e@),
    }
}

/// The bytes, or the failure, that something gave.
pub open spec fn bytes_result(r: Result<Vec<u8>, String>) -> Result<Seq<u8>, Seq<char>> {
    match r {
        Ok(bytes) => Ok(bytes@),
        Err(e) => Err(e@),
    }
}

/// Calls `ImageFormat::from_path` and `load_from_memory_with_format` of the `image`
/// crate, then `width` and `height`. The outcome, an error in words included, depends
/// on the bytes and the path's extension alone. PNG is the only format there is a
/// decoder for, so what decodes under one name decodes alike under every name of a PNG.
#[verifier::external_body]
fn image_size(bytes: &Vec<u8>, path: &str) -> (r: Result<(u32, u32), String>)
    ensures
        size_result(r) == decoded_size(bytes@, path@),
        r is Ok || is_png_name(path@) ==> decodes_alike(bytes@, size_result(r)),
{
    match image::ImageFormat::from_path(path) {
        Err(e) => Err(e.to_string()),
        Ok(format) => match image::load_from_memory_with_format(bytes, format) {
            Err(e) => Err(e.to_string()),
            Ok(img) => Ok((img.width(), img.height())),
        },
    }
}

/// The path that an image's format goes by. A path that ends in a dot has no
/// extension to go by.
pub open spec fn format_name(path: Seq<char>) -> Seq<char> {
    if path.len() > 0 && path.last() == '.' {
        Seq::empty()
    } else {
        path
    }
}

/// Finds the path that an image's format goes by.
fn name_format(path: &str) -> (name: String)
    ensures
        name@ == format_name(path@),
{
    let v = chars_of(path);
    if v.len() > 0 && v[v.len() - 1] == '.' {
        String::new()
    } else {
        path.to_owned()
    }
}

/// Whether a path is that of a PNG by its extension.
pub open spec fn is_png_name(path: Seq<char>) -> bool {
    let stem = path.len() - 4;
    &&& stem > 0
    &&& path.skip(stem) == ".png"@
    &&& path[stem - 1] != '/' && path[stem - 1] != '\\' && path[stem - 1] != ':'
}

/// Whether bytes decode to the same outcome under whatever name of a PNG.
pub open spec fn decodes_alike(bytes: Seq<u8>, size: Result<(u32, u32), Seq<char>>) -> bool {
    forall|name: Seq<char>| is_png_name(name) ==> (#[trigger] decoded_size(bytes, name)) == size
}

/// Whether bytes decode to a size under whatever name of a PNG.
pub open spec fn decodes_to(png: Seq<u8>, w: u32, h: u32) -> bool {
    decodes_alike(png, Ok((w, h)))
}

/// The longer side.
pub open spec fn long_side(w: u32, h: u32) -> u32 {
    if w >= h {
        w
    } else {
        h
    }
}

/// Whether a side keeps its ratio to the longer one, up to rounding to the nearest
/// pixel, when that one becomes the edge. No side is shorter than one pixel.
pub open spec fn is_scaled_side(side: u32, long: u32, edge: u32, new: u32) -> bool {
    &&& 1 <= new
    &&& new == 1 || 2 * (new * long) <= 2 * (side * edge) + long
    &&& 2 * (side * edge) - long <= 2 * (new * long)
}

/// Whether a size is another one scaled down to an edge, its ratio kept.
pub open spec fn is_scaled(w: u32, h: u32, edge: u32, new_w: u32, new_h: u32) -> bool {
    &&& is_scaled_side(w, long_side(w, h), edge, new_w)
    &&& is_scaled_side(h, long_side(w, h), edge, new_h)
}

/// The longest that a scaled side can be.
pub open spec fn most_scaled(side: u32, long: u32, edge: u32) -> int {
    let nearest = (2 * (side * edge) + long) / (2 * long as int);
    if nearest > 1 {
        nearest
    } else {
        1
    }
}

/// Whether the middle of the last pixel, which the resizer computes in 32-bit floats,
/// comes to lie past the image by more than a pixel. The middle of a pixel beyond 2^23
/// is rounded to a whole and even number, and so is the middle in the old image; between
/// the two stands the ratio of the sides, rounded to a step of 2^-23.
pub open spec fn overshoots(long: u32, edge: u32) -> bool {
    let rest = ((long - edge) * 0x80_0000) % edge as int;
    &&& long % 2 == 1 && edge % 2 == 0
    &&& 2 * rest > edge
    &&& edge - rest >= 0x40_0000
}

/// Whether the resizer can bring an image of this size down to an edge.
///
/// It weighs pixels by positions that it computes in 32-bit floats. Up to an edge of
/// 2^23 it holds the middle of every pixel exactly. Above, all weights of the last pixel
/// vanish just if the position overshoots, as long as the image itself is no longer than
/// 2^24. For still longer images nothing is claimed: some that are left out here would
/// be scaled.
///
/// In between it holds sixteen bytes for every pixel of an image as wide as this one and
/// as high as the new one, and a weight for every row.
pub open spec fn within_resizer(w: u32, h: u32, edge: u32) -> bool {
    let long = long_side(w, h);
    &&& edge <= 0x80_0000 || (long <= 0x100_0000 && !overshoots(long, edge))
    &&& 16 * (w * most_scaled(h, long, edge)) <= isize::MAX
    &&& 8 * h <= isize::MAX
}

/// Decodes as `image_size` does, then calls `resize` of the `image` crate's
/// `DynamicImage` with the `Triangle` filter, `width` and `height`, and `write_to` with
/// the PNG format into memory. The outcome depends on the arguments alone. The new
/// image keeps the ratio of the sides, and decodes as PNG to the size it was encoded
/// with. Images beyond what `within_resizer` allows, and images that would have to
/// grow, can make `resize` panic.
#[verifier::external_body]
fn shrink_png(bytes: &Vec<u8>, path: &str, edge: u32) -> (r: (u32, u32, Result<Vec<u8>, String>))
    requires
        decoded_size(bytes@, path@) matches Ok((w, h)) && (w > edge || h > edge) && within_resizer(
            w,
            h,
            edge,
        ),
    ensures
        (r.0, r.1, bytes_result(r.2)) == shrunk_png(bytes@, path@, edge),
        decoded_size(bytes@, path@) matches Ok((w, h)) ==> is_scaled(w, h, edge, r.0, r.1),
        r.2 matches Ok(png) ==> decodes_to(png@, r.0, r.1),
{
    let format = image::ImageFormat::from_path(path).unwrap();
    let img = image::load_from_memory_with_format(bytes, format).unwrap();
    let resized = img.resize(edge, edge, image::imageops::FilterType::Triangle);
    let mut png = std::io::Cursor::new(Vec::new());
    let written = match resized.write_to(&mut png, image::ImageFormat::Png) {
        Err(e) => Err(e.to_string()),
        Ok(()) => Ok(png.into_inner()),
    };
    (resized.width(), resized.height(), written)
}

/// What to do with a decoded image.
#[derive(Debug, PartialEq, Eq, Structural)]
pub enum Fit {
    /// It is small enough.
    Keep,
    /// It is to be scaled down.
    Shrink,
    /// It is too large for the resizer.
    TooLarge,
}

/// What to do with an image of a size whose long edge may be so long at most.
pub open spec fn fitting(w: u32, h: u32, max_long_edge: u32) -> Fit {
    if w <= max_long_edge && h <= max_long_edge {
        Fit::Keep
    } else if within_resizer(w, h, max_long_edge) {
        Fit::Shrink
    } else {
        Fit::TooLarge
    }
}

/// Finds the longest that a scaled side can be.
fn most(side: u32, long: u32, edge: u32) -> (n: u128)
    requires
        long > 0,
    ensures
        n == most_scaled(side, long, edge),
        1 <= n <= 0x2_0000_0000_0000_0000,
{
    assert(0 <= side * edge <= u32::MAX * u32::MAX) by (nonlinear_arith)
        requires
            0 <= side <= u32::MAX,
            0 <= edge <= u32::MAX,
    ;
    let area: u128 = side as u128 * edge as u128;
    let top: u128 = 2 * area + long as u128;
    let under: u128 = 2 * long as u128;
    let nearest: u128 = top / under;
    assert(nearest <= top) by (nonlinear_arith)
        requires
            nearest == top / under,
            under > 0,
    ;
    if nearest > 1 {
        nearest
    } else {
        1
    }
}

/// Tells whether the resizer can place the last pixel.
fn places_last(long: u32, edge: u32) -> (yes: bool)
    requires
        long > edge,
    ensures
        yes == (edge <= 0x80_0000 || (long <= 0x100_0000 && !overshoots(long, edge))),
{
    if edge <= 0x80_0000 {
        return true;
    }
    let rest: u64 = ((long - edge) as u64 * 0x80_0000) % (edge as u64);
    let off = long % 2 == 1 && edge % 2 == 0 && 2 * rest > edge as u64 && edge as u64 - rest
        >= 0x40_0000;
    long <= 0x100_0000 && !off
}

/// Decides what to do with a decoded image.
pub fn fit(w: u32, h: u32, max_long_edge: u32) -> (f: Fit)
    ensures
        f == fitting(w, h, max_long_edge),
{
    if w <= max_long_edge && h <= max_long_edge {
        return Fit::Keep;
    }
    let long: u32 = if w >= h {
        w
    } else {
        h
    };
    let rows: u128 = most(h, long, max_long_edge);
    assert(0 <= w * rows <= u32::MAX * 0x2_0000_0000_0000_0000) by (nonlinear_arith)
        requires
            0 <= w <= u32::MAX,
            0 <= rows <= 0x2_0000_0000_0000_0000,
    ;
    let pixels: u128 = w as u128 * rows;
    let limit: u128 = isize::MAX as u128;
    if places_last(long, max_long_edge) && 16 * pixels <= limit && 8 * (h as u128) <= limit {
        Fit::Shrink
    } else {
        Fit::TooLarge
    }
}

/// What the built-in resizer came to.
#[derive(Debug, PartialEq)]
pub enum Scaled {
    /// The screenshot is small enough as it is.
    Keep,
    /// The smaller image.
    Png(Vec<u8>),
    /// Why there is no image.
    Failed(String),
}

pub enum ScaledView {
    Keep,
    Png(Seq<u8>),
    Failed(Seq<char>),
}

impl View for Scaled {
    type V = ScaledView;

    open spec fn view(&self) -> ScaledView {
        match *self {
            Scaled::Keep => ScaledView::Keep,
            Scaled::Png(bytes) => ScaledView::Png(bytes@),
            Scaled::Failed(e) => ScaledView::Failed(e@),
        }
    }
}

/// What the built-in resizer comes to, from what decoding found and what scaling
/// would give; nothing if the image is too large for it.
pub open spec fn scaling(
    path: Seq<char>,
    max_long_edge: u32,
    size: Result<(u32, u32), Seq<char>>,
    shrunk: (u32, u32, Result<Seq<u8>, Seq<char>>),
) -> Option<ScaledView> {
    match size {
        Err(e) => Some(ScaledView::Failed("cannot decode "@ + path + ": "@ + e)),
        Ok((w, h)) => match fitting(w, h, max_long_edge) {
            Fit::Keep => Some(ScaledView::Keep),
            Fit::Shrink => match shrunk.2 {
                Ok(png) => Some(ScaledView::Png(png)),
                Err(e) => Some(ScaledView::Failed("re-encode failed: "@ + e)),
            },
            Fit::TooLarge => None,
        },
    }
}

/// A size in words.
pub open spec fn size_text(w: u32, h: u32) -> Seq<char> {
    decimal_text(w as nat) + "x"@ + decimal_text(h as nat)
}

/// Writes a size.
fn write_size(w: u32, h: u32) -> (s: String)
    ensures
        s@ == size_text(w, h),
{
    let width = decimal(w as u64);
    let height = decimal(h as u64);
    cat3(width.as_str(), "x", height.as_str())
}

/// What is noted of the built-in resizer.
pub open spec fn scaling_notes(
    max_long_edge: u32,
    size: Result<(u32, u32), Seq<char>>,
    shrunk: (u32, u32, Result<Seq<u8>, Seq<char>>),
) -> Seq<Seq<char>> {
    match size {
        Err(_) => Seq::empty(),
        Ok((w, h)) => match fitting(w, h, max_long_edge) {
            Fit::Keep => seq![
                size_text(w, h) + " already within "@ + decimal_text(max_long_edge as nat)
                    + "px, skipping downscale"@,
            ],
            Fit::Shrink => seq![
                "downscaled "@ + size_text(w, h) + " -> "@ + size_text(shrunk.0, shrunk.1),
            ],
            Fit::TooLarge => Seq::empty(),
        },
    }
}

/// What an outcome of the resizer, if there is one, holds.
pub open spec fn opt_scaled(s: Option<Scaled>) -> Option<ScaledView> {
    match s {
        Some(v) => Some(v@),
        None => None,
    }
}

/// Whether a PNG is an image scaled down to an edge: its sides keep their ratio, and
/// under the name of a PNG it decodes to them.
pub open spec fn is_downscaled(bytes: Seq<u8>, path: Seq<char>, edge: u32, png: Seq<u8>) -> bool {
    let new = shrunk_png(bytes, format_name(path), edge);
    &&& decoded_size(bytes, format_name(path)) matches Ok((w, h))
    &&& is_scaled(w, h, edge, new.0, new.1)
    &&& decodes_to(png, new.0, new.1)
}

/// Whether a PNG is within a limit, under whatever name of a PNG it is stored.
pub open spec fn is_within(png: Seq<u8>, max_long_edge: u32) -> bool {
    forall|name: Seq<char>|
        is_png_name(name) ==> ((#[trigger] decoded_size(png, name)) matches Ok((w, h)) && w
            <= max_long_edge && h <= max_long_edge)
}

/// Scales a screenshot, read from `path`, so that its long edge is no longer than
/// `max_long_edge`, and tells what is noted; nothing comes of it if the image is too
/// large for the resizer. What is kept and what was scaled down is within the limit,
/// under whatever name of a PNG it is stored, so scaling it again keeps it as it is.
pub fn downscale_builtin(max_long_edge: u32, path: &str, bytes: &Vec<u8>) -> (r: (
    Option<Scaled>,
    Vec<String>,
))
    ensures
        opt_scaled(r.0) == scaling(
            path@,
            max_long_edge,
            decoded_size(bytes@, format_name(path@)),
            shrunk_png(bytes@, format_name(path@), max_long_edge),
        ),
        texts(r.1@) == scaling_notes(
            max_long_edge,
            decoded_size(bytes@, format_name(path@)),
            shrunk_png(bytes@, format_name(path@), max_long_edge),
        ),
        opt_scaled(r.0) == Some(ScaledView::Keep) ==> is_within(bytes@, max_long_edge),
        opt_scaled(r.0) matches Some(ScaledView::Png(png)) ==> {
            &&& is_downscaled(bytes@, path@, max_long_edge, png)
            &&& max_long_edge >= 1 ==> is_within(png, max_long_edge)
        },
{
    let name = name_format(path);
    match image_size(bytes, name.as_str()) {
        Err(e) => (Some(Scaled::Failed(cat4("cannot decode ", path, ": ", e.as_str()))), none()),
        Ok((w, h)) => {
            let size = write_size(w, h);
            match fit(w, h, max_long_edge) {
                Fit::Keep => {
                    let max = decimal(max_long_edge as u64);
                    let note = cat4(
                        size.as_str(),
                        " already within ",
                        max.as_str(),
                        "px, skipping downscale",
                    );
                    (Some(Scaled::Keep), one(note))
                },
                Fit::TooLarge => (None, none()),
                Fit::Shrink => {
                    let (new_w, new_h, written) = shrink_png(bytes, name.as_str(), max_long_edge);
                    let new_size = write_size(new_w, new_h);
                    let note = cat4("downscaled ", size.as_str(), " -> ", new_size.as_str());
                    proof {
                        if max_long_edge >= 1 {
                            law_long_edge_is_the_limit(w, h, max_long_edge, new_w, new_h);
                        }
                    }
                    match written {
                        Ok(png) => (Some(Scaled::Png(png)), one(note)),
                        Err(e) => (
                            Some(Scaled::Failed(cat2("re-encode failed: ", e.as_str()))),
                            one(note),
                        ),
                    }
                },
            }
        },
    }
}

// ---------------------------------------------------------------------------
// The external command

/// The command line that a template stands for. The placeholders are filled in one
/// after the other: the input, the output, the edge.
pub open spec fn command_line(
    template: Seq<char>,
    path: Seq<char>,
    out: Seq<char>,
    max_long_edge: u32,
) -> Seq<char> {
    replaced(
        replaced(replaced(template, "{in}"@, path), "{out}"@, out),
        "{max}"@,
        decimal_text(max_long_edge as nat),
    )
}

/// Fills in a command template.
pub fn downscale_external(ds: &DownscaleConfig, path: &str, out: &str) -> (line: String)
    ensures
        line@ == command_line(ds.command@, path@, out@, ds.max_long_edge),
{
    proof {
        reveal_strlit("{in}");
        reveal_strlit("{out}");
        reveal_strlit("{max}");
    }
    let max = decimal(ds.max_long_edge as u64);
    let line = replace(ds.command.as_str(), "{in}", path);
    let line = replace(line.as_str(), "{out}", out);
    replace(line.as_str(), "{max}", max.as_str())
}

// ---------------------------------------------------------------------------
// Preparation

/// Where the preparation of an image stands.
#[derive(Debug, PartialEq)]
pub enum Preparation {
    /// Waits for the screenshot, which is sent as it is.
    Reading { path: String },
    /// Waits for a shell to run a command line.
    Running { line: String, out: String },
    /// Waits for the file that the command wrote.
    ReadingScaled { out: String },
    /// Waits for the screenshot, which is to be scaled.
    Opening { path: String },
    /// The image is too large for the built-in resizer.
    TooLarge,
    /// The image, or why there is none.
    Done(Result<Vec<u8>, String>),
}

/// What the driver reports.
#[derive(Debug, PartialEq)]
pub enum Prepared {
    /// The contents of a file, or why it cannot be read.
    Read(Result<Vec<u8>, String>),
    /// How the command ended, or why it did not start.
    Ran(Result<Exit, String>),
}

pub enum PreparationView {
    Reading { path: Seq<char> },
    Running { line: Seq<char>, out: Seq<char> },
    ReadingScaled { out: Seq<char> },
    Opening { path: Seq<char> },
    TooLarge,
    Done(Result<Seq<u8>, Seq<char>>),
}

impl View for Preparation {
    type V = PreparationView;

    open spec fn view(&self) -> PreparationView {
        match *self {
            Preparation::Reading { path } => PreparationView::Reading { path: path@ },
            Preparation::Running { line, out } => PreparationView::Running {
                line: line@,
                out: out@,
            },
            Preparation::ReadingScaled { out } => PreparationView::ReadingScaled { out: out@ },
            Preparation::Opening { path } => PreparationView::Opening { path: path@ },
            Preparation::TooLarge => PreparationView::TooLarge,
            Preparation::Done(r) => PreparationView::Done(bytes_result(r)),
        }
    }
}

pub enum PreparedView {
    Read(Result<Seq<u8>, Seq<char>>),
    Ran(Result<ExitView, Seq<char>>),
}

impl View for Prepared {
    type V = PreparedView;

    open spec fn view(&self) -> PreparedView {
        match *self {
            Prepared::Read(r) => PreparedView::Read(bytes_result(r)),
            Prepared::Ran(r) => PreparedView::Ran(
                match r {
                    Ok(exit) => Ok(exit@),
                    Err(e) => Err(e@),
                },
            ),
        }
    }
}

/// How the image is to be had: the screenshot as it is, unless scaling is enabled;
/// then by the command if there is one, else by the built-in resizer if it was
/// built in.
pub open spec fn planned(
    ds: DownscaleView,
    path: Seq<char>,
    out: Seq<char>,
    resizer: bool,
) -> PreparationView {
    if !ds.enabled {
        PreparationView::Reading { path }
    } else if ds.command.len() > 0 {
        PreparationView::Running {
            line: command_line(ds.command, path, out, ds.max_long_edge),
            out,
        }
    } else if resizer {
        PreparationView::Opening { path }
    } else {
        PreparationView::Reading { path }
    }
}

/// What is noted of how the image is to be had.
pub open spec fn plan_notes(
    ds: DownscaleView,
    path: Seq<char>,
    out: Seq<char>,
    resizer: bool,
) -> Seq<Seq<char>> {
    if !ds.enabled {
        Seq::empty()
    } else if ds.command.len() > 0 {
        seq!["external downscale: "@ + command_line(ds.command, path, out, ds.max_long_edge)]
    } else if resizer {
        Seq::empty()
    } else {
        seq![
            "built without `downscale` feature and no external command set; sending full-size PNG"@,
        ]
    }
}

/// Starts the preparation of the screenshot at `path`, and tells what is noted. `out`
/// is where a command may write; `resizer` tells whether the built-in resizer is there.
pub fn prepare_image(ds: &DownscaleConfig, path: &str, out: &str, resizer: bool) -> (r: (
    Preparation,
    Vec<String>,
))
    ensures
        r.0@ == planned(ds@, path@, out@, resizer),
        texts(r.1@) == plan_notes(ds@, path@, out@, resizer),
{
    if !ds.enabled {
        (Preparation::Reading { path: path.to_owned() }, none())
    } else if !ds.command.as_str().is_empty() {
        let line = downscale_external(ds, path, out);
        let note = cat2("external downscale: ", line.as_str());
        (Preparation::Running { line, out: out.to_owned() }, one(note))
    } else if resizer {
        (Preparation::Opening { path: path.to_owned() }, none())
    } else {
        (
            Preparation::Reading { path: path.to_owned() },
            one(
                "built without `downscale` feature and no external command set; sending full-size PNG".to_owned(),
            ),
        )
    }
}

/// Where a preparation stands after an event. An event that it does not wait for
/// changes nothing.
pub open spec fn next(ds: DownscaleView, p: PreparationView, event: PreparedView) -> PreparationView {
    match (p, event) {
        (PreparationView::Reading { path }, PreparedView::Read(r)) => match r {
            Ok(bytes) => PreparationView::Done(Ok(bytes)),
            Err(e) => PreparationView::Done(Err("cannot read "@ + path + ": "@ + e)),
        },
        (PreparationView::Running { line, out }, PreparedView::Ran(r)) => match r {
            Err(e) => PreparationView::Done(Err("downscale command failed to start: "@ + e)),
            Ok(exit) => if exit.success {
                PreparationView::ReadingScaled { out }
            } else {
                PreparationView::Done(Err("downscale command exited with "@ + exit.text))
            },
        },
        (PreparationView::ReadingScaled { out }, PreparedView::Read(r)) => match r {
            Ok(bytes) => PreparationView::Done(Ok(bytes)),
            Err(e) => PreparationView::Done(Err("cannot read downscaled "@ + out + ": "@ + e)),
        },
        (PreparationView::Opening { path }, PreparedView::Read(r)) => match r {
            Err(e) => PreparationView::Done(Err("cannot decode "@ + path + ": "@ + e)),
            Ok(bytes) => opened(
                path,
                scaling(
                    path,
                    ds.max_long_edge,
                    decoded_size(bytes, format_name(path)),
                    shrunk_png(bytes, format_name(path), ds.max_long_edge),
                ),
            ),
        },
        _ => p,
    }
}

/// What is noted when an event is taken in.
pub open spec fn notes(ds: DownscaleView, p: PreparationView, event: PreparedView) -> Seq<
    Seq<char>,
> {
    match (p, event) {
        (PreparationView::Opening { path }, PreparedView::Read(Ok(bytes))) => scaling_notes(
            ds.max_long_edge,
            decoded_size(bytes, format_name(path)),
            shrunk_png(bytes, format_name(path), ds.max_long_edge),
        ),
        _ => Seq::empty(),
    }
}

/// Where a preparation stands after the resizer. A screenshot that is small enough
/// is read anew.
pub open spec fn opened(path: Seq<char>, scaled: Option<ScaledView>) -> PreparationView {
    match scaled {
        None => PreparationView::TooLarge,
        Some(ScaledView::Keep) => PreparationView::Reading { path },
        Some(ScaledView::Png(png)) => PreparationView::Done(Ok(png)),
        Some(ScaledView::Failed(e)) => PreparationView::Done(Err(e)),
    }
}

/// Goes on after the resizer.
pub fn after_scaling(path: String, scaled: Option<Scaled>) -> (p: Preparation)
    ensures
        p@ == opened(path@, opt_scaled(scaled)),
{
    match scaled {
        None => Preparation::TooLarge,
        Some(Scaled::Keep) => Preparation::Reading { path },
        Some(Scaled::Png(png)) => Preparation::Done(Ok(png)),
        Some(Scaled::Failed(e)) => Preparation::Done(Err(e)),
    }
}

/// Ends with a failure.
fn fail(message: String) -> (p: Preparation)
    ensures
        p@ == PreparationView::Done(Err(message@)),
{
    Preparation::Done(Err(message))
}

impl Preparation {
    /// Takes an event in: where the preparation then stands, and what is noted. An
    /// image that the built-in resizer keeps or gives is within the limit.
    pub fn step(self, ds: &DownscaleConfig, event: Prepared) -> (r: (Preparation, Vec<String>))
        ensures
            r.0@ == next(ds@, self@, event@),
            texts(r.1@) == notes(ds@, self@, event@),
            self@ matches PreparationView::Opening { path } ==> (event@ matches PreparedView::Read(
                Ok(bytes),
            ) ==> (r.0@ is Reading ==> is_within(bytes, ds.max_long_edge)) && (r.0@ matches PreparationView::Done(Ok(png)) ==> {
                &&& is_downscaled(bytes, path, ds.max_long_edge, png)
                &&& ds.max_long_edge >= 1 ==> is_within(png, ds.max_long_edge)
            })),
    {
        match (self, event) {
            (Preparation::Reading { path }, Prepared::Read(r)) => match r {
                Ok(bytes) => (Preparation::Done(Ok(bytes)), none()),
                Err(e) => (fail(cat4("cannot read ", path.as_str(), ": ", e.as_str())), none()),
            },
            (Preparation::Running { line: _, out }, Prepared::Ran(r)) => match r {
                Err(e) => (fail(cat2("downscale command failed to start: ", e.as_str())), none()),
                Ok(exit) => if exit.success {
                    (Preparation::ReadingScaled { out }, none())
                } else {
                    (fail(cat2("downscale command exited with ", exit.text.as_str())), none())
                },
            },
            (Preparation::ReadingScaled { out }, Prepared::Read(r)) => match r {
                Ok(bytes) => (Preparation::Done(Ok(bytes)), none()),
                Err(e) => (
                    fail(cat4("cannot read downscaled ", out.as_str(), ": ", e.as_str())),
                    none(),
                ),
            },
            (Preparation::Opening { path }, Prepared::Read(r)) => match r {
                Err(e) => (fail(cat4("cannot decode ", path.as_str(), ": ", e.as_str())), none()),
                Ok(bytes) => {
                    let (scaled, noted) = downscale_builtin(
                        ds.max_long_edge,
                        path.as_str(),
                        &bytes,
                    );
                    (after_scaling(path, scaled), noted)
                },
            },
            (p, _) => (p, none()),
        }
    }
}

// ---------------------------------------------------------------------------
// Laws

/// With scaling off, the screenshot is sent as it was read, byte for byte.
pub proof fn law_unscaled_is_unchanged(
    ds: DownscaleView,
    path: Seq<char>,
    out: Seq<char>,
    resizer: bool,
    bytes: Seq<u8>,
)
    requires
        !ds.enabled,
    ensures
        next(ds, planned(ds, path, out, resizer), PreparedView::Read(Ok(bytes)))
            == PreparationView::Done(Ok(bytes)),
{
}

/// Without the built-in resizer, only a command can scale.
pub proof fn law_without_resizer(ds: DownscaleView, path: Seq<char>, out: Seq<char>)
    ensures
        planned(ds, path, out, false) is Running <==> ds.enabled && ds.command.len() > 0,
        !(planned(ds, path, out, false) is Running) ==> planned(ds, path, out, false)
            == (PreparationView::Reading { path }),
{
}

/// A screenshot within the limit is sent as it was read, byte for byte.
pub proof fn law_small_is_unchanged(
    ds: DownscaleView,
    path: Seq<char>,
    first: Seq<u8>,
    again: Seq<u8>,
)
    requires
        decoded_size(first, format_name(path)) matches Ok((w, h)) && w <= ds.max_long_edge && h
            <= ds.max_long_edge,
    ensures
        next(
            ds,
            next(ds, PreparationView::Opening { path }, PreparedView::Read(Ok(first))),
            PreparedView::Read(Ok(again)),
        ) == PreparationView::Done(Ok(again)),
{
}

/// The long edge of a scaled image is the limit, and no side is longer.
pub proof fn law_long_edge_is_the_limit(w: u32, h: u32, edge: u32, new_w: u32, new_h: u32)
    requires
        w > edge || h > edge,
        edge >= 1,
        is_scaled(w, h, edge, new_w, new_h),
    ensures
        long_side(new_w, new_h) == edge,
        1 <= new_w <= edge,
        1 <= new_h <= edge,
{
    let long = long_side(w, h);
    lemma_scaled_side(w, long, edge, new_w);
    lemma_scaled_side(h, long, edge, new_h);
}

proof fn lemma_scaled_side(side: u32, long: u32, edge: u32, new: u32)
    requires
        side <= long,
        long > edge,
        edge >= 1,
        is_scaled_side(side, long, edge, new),
    ensures
        new <= edge,
        side == long ==> new == edge,
{
    if new > edge {
        assert(2 * (new * long) > 2 * (side * edge) + long) by (nonlinear_arith)
            requires
                new >= edge + 1,
                0 <= side <= long,
                long > 0,
                edge >= 1,
        ;
    }
    if side == long && new < edge {
        assert(2 * (new * long) < 2 * (side * edge) - long) by (nonlinear_arith)
            requires
                new <= edge - 1,
                side == long,
                long > 0,
        ;
    }
}

/// An image that is within the limit, stored under the name of a PNG, is kept byte
/// for byte when it is scaled: so what was scaled once is not changed again.
pub proof fn law_scaling_twice(ds: DownscaleView, name: Seq<char>, png: Seq<u8>)
    requires
        is_within(png, ds.max_long_edge),
        is_png_name(name),
    ensures
        next(
            ds,
            next(ds, PreparationView::Opening { path: name }, PreparedView::Read(Ok(png))),
            PreparedView::Read(Ok(png)),
        ) == PreparationView::Done(Ok(png)),
{
    reveal_strlit(".png");
    assert(name.last() == name.skip(name.len() - 4)[3]);
    law_small_is_unchanged(ds, name, png, png);
}

/// How many awaited events a preparation can still take in.
pub open spec fn rank(p: PreparationView) -> nat {
    match p {
        PreparationView::Reading { path } => 1,
        PreparationView::Running { line, out } => 2,
        PreparationView::ReadingScaled { out } => 1,
        PreparationView::Opening { path } => 2,
        PreparationView::TooLarge => 0,
        PreparationView::Done(_) => 0,
    }
}

/// Whether an event is what a state waits for.
pub open spec fn awaits(p: PreparationView, event: PreparedView) -> bool {
    match p {
        PreparationView::Reading { path } => event is Read,
        PreparationView::Running { line, out } => event is Ran,
        PreparationView::ReadingScaled { out } => event is Read,
        PreparationView::Opening { path } => event is Read,
        PreparationView::TooLarge => false,
        PreparationView::Done(_) => false,
    }
}

/// Every awaited event brings a preparation nearer to its end; any other changes
/// nothing.
pub proof fn law_progress(ds: DownscaleView, p: PreparationView, event: PreparedView)
    ensures
        awaits(p, event) ==> rank(next(ds, p, event)) < rank(p),
        !awaits(p, event) ==> next(ds, p, event) == p,
{
}

// ---------------------------------------------------------------------------
// Laws: plans and outcomes

/// An image is kept just if neither side is longer than the limit. A longer one of an
/// ordinary size is scaled.
pub proof fn law_which_images_are_scaled(w: u32, h: u32, max_long_edge: u32)
    ensures
        fitting(w, h, max_long_edge) == Fit::Keep <==> w <= max_long_edge && h <= max_long_edge,
        !(w <= max_long_edge && h <= max_long_edge) && 1 <= w && 1 <= h && w * h <= 0x400_0000
            && max_long_edge <= 0x80_0000 ==> fitting(w, h, max_long_edge) == Fit::Shrink,
{
    if !(w <= max_long_edge && h <= max_long_edge) && 1 <= w && 1 <= h && w * h <= 0x400_0000
        && max_long_edge <= 0x80_0000 {
        let long = long_side(w, h);
        let edge = max_long_edge;
        let top = 2 * (h * edge) + long;
        assert(top < (h + 1) * (2 * long as int)) by (nonlinear_arith)
            requires
                top == 2 * (h * edge) + long,
                0 <= edge < long,
                1 <= h,
        ;
        assert(top / (2 * long as int) <= h) by (nonlinear_arith)
            requires
                top < (h + 1) * (2 * long as int),
                long > 0,
        ;
        let rows = most_scaled(h, long, edge);
        assert(rows <= h);
        assert(w * rows <= w * h) by (nonlinear_arith)
            requires
                1 <= rows <= h,
                0 <= w,
        ;
        assert(h <= w * h) by (nonlinear_arith)
            requires
                1 <= w,
                0 <= h,
        ;
    }
}

/// What the resizer comes to: a failure to decode is told with the path; an image within
/// the limit is kept; one that is scaled is the PNG, or a failure to encode is told.
pub proof fn law_scaling_outcomes(
    path: Seq<char>,
    max: u32,
    w: u32,
    h: u32,
    e: Seq<char>,
    shrunk: (u32, u32, Result<Seq<u8>, Seq<char>>),
)
    ensures
        scaling(path, max, Err(e), shrunk) == Some(
            ScaledView::Failed("cannot decode "@ + path + ": "@ + e),
        ),
        scaling_notes(max, Err(e), shrunk) == Seq::<Seq<char>>::empty(),
        w <= max && h <= max ==> scaling(path, max, Ok((w, h)), shrunk) == Some(ScaledView::Keep),
        w <= max && h <= max ==> scaling_notes(max, Ok((w, h)), shrunk) == seq![
            decimal_text(w as nat) + "x"@ + decimal_text(h as nat) + " already within "@
                + decimal_text(max as nat) + "px, skipping downscale"@,
        ],
        fitting(w, h, max) == Fit::Shrink ==> (shrunk.2 matches Ok(png) ==> scaling(
            path,
            max,
            Ok((w, h)),
            shrunk,
        ) == Some(ScaledView::Png(png))),
        fitting(w, h, max) == Fit::Shrink ==> (shrunk.2 matches Err(why) ==> scaling(
            path,
            max,
            Ok((w, h)),
            shrunk,
        ) == Some(ScaledView::Failed("re-encode failed: "@ + why))),
        fitting(w, h, max) == Fit::Shrink ==> scaling_notes(max, Ok((w, h)), shrunk) == seq![
            "downscaled "@ + (decimal_text(w as nat) + "x"@ + decimal_text(h as nat)) + " -> "@ + (
            decimal_text(shrunk.0 as nat) + "x"@ + decimal_text(shrunk.1 as nat)),
        ],
{
}

/// The screenshot is read as it is unless scaling is on. A command comes before the
/// built-in resizer, and without either the screenshot is read as it is.
pub proof fn law_plans(ds: DownscaleView, path: Seq<char>, out: Seq<char>, resizer: bool)
    ensures
        !ds.enabled ==> planned(ds, path, out, resizer) == (PreparationView::Reading { path })
            && plan_notes(ds, path, out, resizer) == Seq::<Seq<char>>::empty(),
        ds.enabled && ds.command.len() > 0 ==> (planned(ds, path, out, resizer)
            matches PreparationView::Running { line, out: o } && o == out && line == command_line(
            ds.command,
            path,
            out,
            ds.max_long_edge,
        ) && plan_notes(ds, path, out, resizer) == seq!["external downscale: "@ + line]),
        ds.enabled && ds.command.len() == 0 && resizer ==> planned(ds, path, out, resizer)
            == (PreparationView::Opening { path }) && plan_notes(ds, path, out, resizer) == Seq::<
            Seq<char>,
        >::empty(),
        ds.enabled && ds.command.len() == 0 && !resizer ==> planned(ds, path, out, resizer)
            == (PreparationView::Reading { path }) && plan_notes(ds, path, out, resizer) == seq![
            "built without `downscale` feature and no external command set; sending full-size PNG"@,
        ],
{
}

/// The placeholders of a template give way to the input, the output and the edge; the rest
/// of the template stays.
pub proof fn law_template_is_filled_in(
    a: Seq<char>,
    b: Seq<char>,
    c: Seq<char>,
    d: Seq<char>,
    path: Seq<char>,
    out: Seq<char>,
    edge: u32,
)
    requires
        !a.contains('{'),
        !b.contains('{'),
        !c.contains('{'),
        !d.contains('{'),
        !path.contains('{'),
        !out.contains('{'),
    ensures
        command_line(a + "{in}"@ + b + "{out}"@ + c + "{max}"@ + d, path, out, edge) == a + path + b
            + out + c + decimal_text(edge as nat) + d,
{
    reveal_strlit("{in}");
    reveal_strlit("{out}");
    reveal_strlit("{max}");
    let i = "{in}"@;
    let o = "{out}"@;
    let m = "{max}"@;
    let n = decimal_text(edge as nat);
    let rest = b + o + c + m + d;
    assert(a + i + b + o + c + m + d =~= a + i + rest);
    crate::scan::law_replace_first(a, i, rest, path);
    lemma_no_in(b, o, c, m, d, path);
    let first = a + path + rest;
    let before = a + path + b;
    let after = c + m + d;
    assert(first =~= before + o + after);
    lemma_no_brace(a, path, b);
    crate::scan::law_replace_first(before, o, after, out);
    lemma_no_out(c, m, d, out);
    let second = before + out + after;
    let front = before + out + c;
    assert(second =~= front + m + d);
    lemma_no_brace(before, out, c);
    crate::scan::law_replace_first(front, m, d, n);
    crate::scan::law_replace_without_start(d, m, n);
    assert(front + n + d =~= a + path + b + out + c + n + d);
}

proof fn lemma_no_brace(a: Seq<char>, b: Seq<char>, c: Seq<char>)
    requires
        !a.contains('{'),
        !b.contains('{'),
        !c.contains('{'),
    ensures
        !(a + b + c).contains('{'),
{
    let w = a + b + c;
    assert forall|i: int| 0 <= i < w.len() implies w[i] != '{' by {
        if i < a.len() {
            assert(a.contains(a[i]));
        } else if i < a.len() + b.len() {
            assert(b.contains(b[i - a.len()]));
        } else {
            assert(c.contains(c[i - a.len() - b.len()]));
        }
    }
}

/// Placeholders of other names are left alone.
proof fn lemma_no_in(
    b: Seq<char>,
    o: Seq<char>,
    c: Seq<char>,
    m: Seq<char>,
    d: Seq<char>,
    path: Seq<char>,
)
    requires
        !b.contains('{'),
        !c.contains('{'),
        !d.contains('{'),
        o == "{out}"@,
        m == "{max}"@,
    ensures
        replaced(b + o + c + m + d, "{in}"@, path) == b + o + c + m + d,
{
    reveal_strlit("{in}");
    reveal_strlit("{out}");
    reveal_strlit("{max}");
    let s = b + o + c + m + d;
    let pat = "{in}"@;
    let x = b.len() as int;
    let y = x + 5 + c.len();
    assert(s[x + 1] == o[1] && s[y + 1] == m[1]);
    assert forall|i: int| 0 <= i <= s.len() implies !starts(#[trigger] s.skip(i), pat) by {
        if starts(s.skip(i), pat) {
            assert(s.skip(i).take(4)[0] == s[i]);
            assert(s.skip(i).take(4)[1] == s[i + 1]);
            if i < x {
                assert(b.contains(b[i]));
            } else if i == x {
            } else if i < x + 5 {
                assert(s[i] == o[i - x]);
            } else if i < y {
                assert(c.contains(c[i - x - 5]));
            } else if i == y {
            } else if i < y + 5 {
                assert(s[i] == m[i - y]);
            } else {
                assert(d.contains(d[i - y - 5]));
            }
        }
    }
    crate::scan::law_replace_absent(s, pat, path);
}

proof fn lemma_no_out(c: Seq<char>, m: Seq<char>, d: Seq<char>, out: Seq<char>)
    requires
        !c.contains('{'),
        !d.contains('{'),
        m == "{max}"@,
    ensures
        replaced(c + m + d, "{out}"@, out) == c + m + d,
{
    reveal_strlit("{out}");
    reveal_strlit("{max}");
    let s = c + m + d;
    let pat = "{out}"@;
    let y = c.len() as int;
    assert(s[y + 1] == m[1]);
    assert forall|i: int| 0 <= i <= s.len() implies !starts(#[trigger] s.skip(i), pat) by {
        if starts(s.skip(i), pat) {
            assert(s.skip(i).take(5)[0] == s[i]);
            assert(s.skip(i).take(5)[1] == s[i + 1]);
            if i < y {
                assert(c.contains(c[i]));
            } else if i == y {
            } else if i < y + 5 {
                assert(s[i] == m[i - y]);
            } else {
                assert(d.contains(d[i - y - 5]));
            }
        }
    }
    crate::scan::law_replace_absent(s, pat, out);
}

/// What each event leads to: what was read is the image; a command that ran is followed by
/// reading what it wrote; and every failure is told in its words.
pub proof fn law_preparation_outcomes(
    ds: DownscaleView,
    path: Seq<char>,
    line: Seq<char>,
    out: Seq<char>,
    bytes: Seq<u8>,
    exit: ExitView,
    e: Seq<char>,
)
    ensures
        ({
            let reading = PreparationView::Reading { path };
            let running = PreparationView::Running { line, out };
            let ran = next(ds, running, PreparedView::Ran(Ok(exit)));
            let opening = PreparationView::Opening { path };
            &&& next(ds, reading, PreparedView::Read(Ok(bytes))) == PreparationView::Done(Ok(bytes))
            &&& next(ds, reading, PreparedView::Read(Err(e))) == PreparationView::Done(
                Err("cannot read "@ + path + ": "@ + e),
            )
            &&& next(ds, running, PreparedView::Ran(Err(e))) == PreparationView::Done(
                Err("downscale command failed to start: "@ + e),
            )
            &&& !exit.success ==> ran == PreparationView::Done(
                Err("downscale command exited with "@ + exit.text),
            )
            &&& exit.success ==> ran == (PreparationView::ReadingScaled { out }) && next(
                ds,
                ran,
                PreparedView::Read(Ok(bytes)),
            ) == PreparationView::Done(Ok(bytes)) && next(ds, ran, PreparedView::Read(Err(e)))
                == PreparationView::Done(Err("cannot read downscaled "@ + out + ": "@ + e))
            &&& next(ds, opening, PreparedView::Read(Err(e))) == PreparationView::Done(
                Err("cannot decode "@ + path + ": "@ + e),
            )
        }),
{
}

/// An image that the resizer cannot decode, or encode, ends the preparation; one that it
/// scales is the image.
pub proof fn law_resized_image_is_sent(ds: DownscaleView, path: Seq<char>, bytes: Seq<u8>)
    ensures
        ({
            let end = next(ds, PreparationView::Opening { path }, PreparedView::Read(Ok(bytes)));
            let name = if path.len() > 0 && path.last() == '.' {
                Seq::empty()
            } else {
                path
            };
            let new = shrunk_png(bytes, name, ds.max_long_edge);
            &&& decoded_size(bytes, name) matches Err(e) ==> end == PreparationView::Done(
                Err("cannot decode "@ + path + ": "@ + e),
            )
            &&& decoded_size(bytes, name) matches Ok((w, h)) ==> {
                &&& w <= ds.max_long_edge && h <= ds.max_long_edge ==> end
                    == (PreparationView::Reading { path })
                &&& fitting(w, h, ds.max_long_edge) == Fit::Shrink ==> (new.2 matches Ok(png) ==> end
                    == PreparationView::Done(Ok(png)))
                &&& fitting(w, h, ds.max_long_edge) == Fit::Shrink ==> (new.2 matches Err(e) ==> end
                    == PreparationView::Done(Err("re-encode failed: "@ + e)))
                &&& fitting(w, h, ds.max_long_edge) == Fit::TooLarge ==> end is TooLarge
            }
        }),
{
}

/// A template without braces is run as it stands. Each placeholder gives way wherever it
/// occurs: the input first, then the output, then the edge.
pub proof fn law_template(template: Seq<char>, path: Seq<char>, out: Seq<char>, edge: u32)
    ensures
        !template.contains('{') ==> command_line(template, path, out, edge) == template,
        command_line(template, path, out, edge) == replaced(
            replaced(replaced(template, "{in}"@, path), "{out}"@, out),
            "{max}"@,
            decimal_text(edge as nat),
        ),
{
    reveal_strlit("{in}");
    reveal_strlit("{out}");
    reveal_strlit("{max}");
    if !template.contains('{') {
        crate::scan::law_replace_without_start(template, "{in}"@, path);
        crate::scan::law_replace_without_start(template, "{out}"@, out);
        crate::scan::law_replace_without_start(template, "{max}"@, decimal_text(edge as nat));
    }
}

} // verus!
