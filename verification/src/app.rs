//! Generator state: error correction level, export format, raster style, and
//! the decisions taken when the form changes or an export is asked for.
use vstd::prelude::*;
use vstd::utf8::encode_utf8;

use crate::qr_types::{build, payload, text_of, PartsView, QrKind, QrParts};
use crate::raster::{
    render_rgba, renderable, rgba_image, side_px, GridView,
};
use crate::symbol::{encode, failure_text, qr_svg, qr_symbol, render_svg, QrFailure};
use crate::text::{decimal, push_decimal};

verus! {

#[derive(Debug, Clone, Copy, PartialEq, Eq, Structural)]
pub enum EcLevel {
    L,
    M,
    Q,
    H,
}

pub open spec fn ec_label(e: EcLevel) -> Seq<char> {
    match e {
        EcLevel::L => "L \u{00B7} ~7%"@,
        EcLevel::M => "M \u{00B7} ~15%"@,
        EcLevel::Q => "Q \u{00B7} ~25%"@,
        EcLevel::H => "H \u{00B7} ~30%"@,
    }
}

impl EcLevel {
    /// Every level, in the order the selector shows them.
    pub fn all() -> (v: Vec<EcLevel>)
        ensures
            v@ == seq![EcLevel::L, EcLevel::M, EcLevel::Q, EcLevel::H],
    {
        vec![EcLevel::L, EcLevel::M, EcLevel::Q, EcLevel::H]
    }

    pub fn label(self) -> (r: &'static str)
        ensures
            r@ == ec_label(self),
    {
        match self {
            EcLevel::L => "L \u{00B7} ~7%",
            EcLevel::M => "M \u{00B7} ~15%",
            EcLevel::Q => "Q \u{00B7} ~25%",
            EcLevel::H => "H \u{00B7} ~30%",
        }
    }
}

#[derive(Debug, Clone, Copy, PartialEq, Eq, Structural)]
pub enum ExportFormat {
    Png,
    Svg,
}

pub open spec fn format_label(f: ExportFormat) -> Seq<char> {
    match f {
        ExportFormat::Png => "PNG"@,
        ExportFormat::Svg => "SVG"@,
    }
}

pub open spec fn format_extension(f: ExportFormat) -> Seq<char> {
    match f {
        ExportFormat::Png => "png"@,
        ExportFormat::Svg => "svg"@,
    }
}

impl ExportFormat {
    /// Every format, in the order the selector shows them.
    pub fn all() -> (v: Vec<ExportFormat>)
        ensures
            v@ == seq![ExportFormat::Png, ExportFormat::Svg],
    {
        vec![ExportFormat::Png, ExportFormat::Svg]
    }

    pub fn label(self) -> (r: &'static str)
        ensures
            r@ == format_label(self),
    {
        match self {
            ExportFormat::Png => "PNG",
            ExportFormat::Svg => "SVG",
        }
    }

    pub fn extension(self) -> (r: &'static str)
        ensures
            r@ == format_extension(self),
    {
        match self {
            ExportFormat::Png => "png",
            ExportFormat::Svg => "svg",
        }
    }
}

#[derive(Debug, Clone, Copy)]
pub struct Style {
    /// pixels per module in the rendered output
    pub module_size: u32,
    /// modules of border around the code
    pub quiet_zone: u32,
    pub foreground: [u8; 4],
    pub background: [u8; 4],
}

impl Default for Style {
    fn default() -> (r: Self)
        ensures
            r.module_size == 10,
            r.quiet_zone == 4,
            r.foreground@ == seq![20u8, 20, 24, 255],
            r.background@ == seq![252u8, 252, 250, 255],
    {
        Style {
            module_size: 10,
            quiet_zone: 4,
            foreground: [20, 20, 24, 255],
            background: [252, 252, 250, 255],
        }
    }
}

impl Style {
    /// Whether a symbol `width` modules wide can be drawn in this style: its
    /// side in pixels fits the renderer's `u32` arithmetic and its RGBA
    /// buffer fits in memory addressable by `usize`.
    pub fn fits(&self, width: usize) -> (r: bool)
        ensures
            r == renderable(width as nat, *self),
    {
        let scale: u128 = if self.module_size == 0 {
            1
        } else {
            self.module_size as u128
        };
        let modules: u128 = width as u128 + 2 * (self.quiet_zone as u128);
        assert(modules * scale <= 0x2_0000_0000_0000_0000_0000_0000) by (nonlinear_arith)
            requires
                modules <= 0x2_0000_0000_0000_0000,
                scale <= 0x1_0000_0000,
        ;
        let side: u128 = modules * scale;
        if side > 0xffff_ffff {
            return false;
        }
        assert(side * side * 4 <= 0x4_0000_0000_0000_0000) by (nonlinear_arith)
            requires
                side <= 0xffff_ffff,
        ;
        side * side * 4 <= usize::MAX as u128
    }
}

fn same_style(a: &Style, b: &Style) -> (r: bool)
    ensures
        r == (*a == *b),
{
    let r = a.module_size == b.module_size && a.quiet_zone == b.quiet_zone && a.foreground[0]
        == b.foreground[0] && a.foreground[1] == b.foreground[1] && a.foreground[2]
        == b.foreground[2] && a.foreground[3] == b.foreground[3] && a.background[0]
        == b.background[0] && a.background[1] == b.background[1] && a.background[2]
        == b.background[2] && a.background[3] == b.background[3];
    proof {
        if r {
            assert(a.foreground =~= b.foreground);
            assert(a.background =~= b.background);
        }
    }
    r
}

/// An RGBA8 image, four bytes per pixel, row by row.
pub struct RgbaImage {
    pub pixels: Vec<u8>,
    pub width: usize,
    pub height: usize,
}

/// What the preview on screen was drawn from.
#[derive(Debug, Clone)]
pub struct Preview {
    pub size_px: [usize; 2],
    pub payload: String,
    pub ec: EcLevel,
    pub style: Style,
}

pub struct PreviewView {
    pub width: nat,
    pub height: nat,
    pub payload: Seq<char>,
    pub ec: EcLevel,
    pub style: Style,
}

impl View for Preview {
    type V = PreviewView;

    open spec fn view(&self) -> PreviewView {
        PreviewView {
            width: self.size_px@[0] as nat,
            height: self.size_px@[1] as nat,
            payload: self.payload@,
            ec: self.ec,
            style: self.style,
        }
    }
}

pub open spec fn preview_of(p: Option<Preview>) -> Option<PreviewView> {
    match p {
        Some(p) => Some(p@),
        None => None,
    }
}

pub struct QrApp {
    pub kind: QrKind,
    pub parts: QrParts,
    pub ec: EcLevel,
    pub style: Style,
    pub export_format: ExportFormat,
    pub preview: Option<Preview>,
    pub status: Option<String>,
    pub last_error: Option<String>,
}

pub struct AppView {
    pub kind: QrKind,
    pub parts: PartsView,
    pub ec: EcLevel,
    pub style: Style,
    pub export_format: ExportFormat,
    pub preview: Option<PreviewView>,
    pub status: Option<Seq<char>>,
    pub last_error: Option<Seq<char>>,
}

impl View for QrApp {
    type V = AppView;

    open spec fn view(&self) -> AppView {
        AppView {
            kind: self.kind,
            parts: self.parts@,
            ec: self.ec,
            style: self.style,
            export_format: self.export_format,
            preview: preview_of(self.preview),
            status: text_of(self.status),
            last_error: text_of(self.last_error),
        }
    }
}

/// `s` with its preview and messages replaced.
pub open spec fn with_outcome(
    s: AppView,
    preview: Option<PreviewView>,
    status: Option<Seq<char>>,
    last_error: Option<Seq<char>>,
) -> AppView {
    AppView {
        kind: s.kind,
        parts: s.parts,
        ec: s.ec,
        style: s.style,
        export_format: s.export_format,
        preview,
        status,
        last_error,
    }
}

/// The status shown once a symbol of `modules` modules per side is drawn
/// `w` by `h` pixels.
pub open spec fn generated_status(w: nat, h: nat, modules: nat) -> Seq<char> {
    "Generated \u{2014} "@ + decimal(w) + " \u{00D7} "@ + decimal(h) + " px, "@ + decimal(modules)
        + " modules"@
}

pub open spec fn qr_error_text(e: QrFailure) -> Seq<char> {
    "QR error: "@ + failure_text(e)
}

/// The preview on screen was drawn from `payload` at the current level and
/// in the current style.
pub open spec fn shows(s: AppView, payload: Seq<char>) -> bool {
    s.preview matches Some(pv) && pv.payload == payload && pv.ec == s.ec && pv.style == s.style
}

/// The state after the preview is brought up to date with the form.
pub open spec fn regenerated(s: AppView) -> AppView {
    match payload(s.kind, s.parts) {
        None => with_outcome(s, None, Some("Fill in the form to generate a QR code."@), None),
        Some(p) => if shows(s, p) {
            s
        } else {
            match qr_symbol(encode_utf8(p), s.ec) {
                Ok((w, dark)) => {
                    let side = side_px(w, s.style);
                    with_outcome(
                        s,
                        Some(
                            PreviewView {
                                width: side,
                                height: side,
                                payload: p,
                                ec: s.ec,
                                style: s.style,
                            },
                        ),
                        Some(generated_status(side, side, w)),
                        None,
                    )
                },
                Err(e) => with_outcome(
                    s,
                    None,
                    Some("Failed to render QR."@),
                    Some(qr_error_text(e)),
                ),
            }
        },
    }
}

/// Bringing the preview up to date either draws nothing or draws a symbol
/// whose image the renderer can hold.
pub open spec fn can_regenerate(s: AppView) -> bool {
    match payload(s.kind, s.parts) {
        None => true,
        Some(p) => shows(s, p) || match qr_symbol(encode_utf8(p), s.ec) {
            Ok((w, _)) => renderable(w, s.style),
            Err(_) => true,
        },
    }
}

/// The image to put on screen when the preview is brought up to date: the
/// side in pixels and the RGBA bytes, where a new symbol is drawn.
pub open spec fn regenerated_image(s: AppView) -> Option<(nat, Seq<u8>)> {
    match payload(s.kind, s.parts) {
        None => None,
        Some(p) => if shows(s, p) {
            None
        } else {
            match qr_symbol(encode_utf8(p), s.ec) {
                Ok((w, dark)) => Some(
                    (side_px(w, s.style), rgba_image(GridView { width: w, dark }, s.style)),
                ),
                Err(e) => None,
            }
        },
    }
}

pub open spec fn image_of(r: Option<RgbaImage>) -> Option<(nat, Seq<u8>)> {
    match r {
        Some(img) => if img.width == img.height {
            Some((img.width as nat, img.pixels@))
        } else {
            None
        },
        None => None,
    }
}

/// What an export writes: an RGBA image to encode as PNG, or an SVG
/// document.
pub enum ExportJob {
    Png(RgbaImage),
    Svg(String),
}

pub enum JobView {
    Png(nat, Seq<u8>),
    Svg(Seq<char>),
}

pub open spec fn job_of(j: Option<ExportJob>) -> Option<JobView> {
    match j {
        Some(ExportJob::Png(img)) => if img.width == img.height {
            Some(JobView::Png(img.width as nat, img.pixels@))
        } else {
            None
        },
        Some(ExportJob::Svg(doc)) => Some(JobView::Svg(doc@)),
        None => None,
    }
}

/// The state after an export is asked for: an error message where there is
/// nothing to export or the payload cannot be encoded.
pub open spec fn exported(s: AppView) -> AppView {
    match payload(s.kind, s.parts) {
        None => with_outcome(
            s,
            s.preview,
            s.status,
            Some("Nothing to export \u{2014} fill the form first."@),
        ),
        Some(p) => match qr_symbol(encode_utf8(p), s.ec) {
            Ok(_) => s,
            Err(e) => with_outcome(s, s.preview, s.status, Some(qr_error_text(e))),
        },
    }
}

/// Exporting either draws nothing (no payload, an encoding error, an SVG
/// document) or draws a PNG image that the renderer can hold.
pub open spec fn can_export(s: AppView) -> bool {
    match payload(s.kind, s.parts) {
        None => true,
        Some(p) => match qr_symbol(encode_utf8(p), s.ec) {
            Ok((w, _)) => s.export_format == ExportFormat::Svg || renderable(w, s.style),
            Err(_) => true,
        },
    }
}

/// What the export writes: the image or the SVG document of the payload's
/// symbol, in the export format.
pub open spec fn export_job(s: AppView) -> Option<JobView> {
    match payload(s.kind, s.parts) {
        None => None,
        Some(p) => match qr_symbol(encode_utf8(p), s.ec) {
            Ok((w, dark)) => Some(
                match s.export_format {
                    ExportFormat::Png => JobView::Png(
                        side_px(w, s.style),
                        rgba_image(GridView { width: w, dark }, s.style),
                    ),
                    ExportFormat::Svg => JobView::Svg(qr_svg(encode_utf8(p), s.ec)),
                },
            ),
            Err(_) => None,
        },
    }
}

pub open spec fn outcome_of(r: Result<(), String>) -> Result<(), Seq<char>> {
    match r {
        Ok(()) => Ok(()),
        Err(e) => Err(e@),
    }
}

/// The state once the export to `destination` has been written, or has
/// failed with `outcome`'s message.
pub open spec fn export_settled(
    s: AppView,
    destination: Seq<char>,
    outcome: Result<(), Seq<char>>,
) -> AppView {
    match outcome {
        Ok(()) => with_outcome(s, s.preview, Some("Saved to "@ + destination), None),
        Err(e) => with_outcome(s, s.preview, s.status, Some("Save failed: "@ + e)),
    }
}

/// The number of bytes of the UTF-8 text of `doc`.
pub open spec fn byte_count(doc: Seq<char>) -> nat {
    (encode_utf8(doc).len() as usize) as nat
}

/// The state after the SVG document of the payload is copied.
pub open spec fn svg_copied(s: AppView) -> AppView {
    match payload(s.kind, s.parts) {
        None => s,
        Some(p) => match qr_symbol(encode_utf8(p), s.ec) {
            Ok(_) => with_outcome(
                s,
                s.preview,
                Some(
                    "Copied SVG to clipboard ("@ + decimal(byte_count(qr_svg(encode_utf8(p), s.ec)))
                        + " bytes)"@,
                ),
                None,
            ),
            Err(_) => s,
        },
    }
}

/// The SVG document that copying hands to the clipboard.
pub open spec fn svg_to_copy(s: AppView) -> Option<Seq<char>> {
    match payload(s.kind, s.parts) {
        None => None,
        Some(p) => match qr_symbol(encode_utf8(p), s.ec) {
            Ok(_) => Some(qr_svg(encode_utf8(p), s.ec)),
            Err(_) => None,
        },
    }
}

/// The state after the payload is copied.
pub open spec fn data_copied(s: AppView) -> AppView {
    match payload(s.kind, s.parts) {
        None => s,
        Some(_) => with_outcome(s, s.preview, Some("Copied payload to clipboard."@), None),
    }
}

impl QrApp {
    pub fn new() -> (r: Self)
        ensures
            r@.kind == QrKind::Url,
            r@.parts == QrParts::default_view(),
            r@.ec == EcLevel::M,
            r.style.module_size == 10,
            r.style.quiet_zone == 4,
            r.style.foreground@ == seq![20u8, 20, 24, 255],
            r.style.background@ == seq![252u8, 252, 250, 255],
            r@.export_format == ExportFormat::Png,
            r@.preview is None,
            r@.status == Some("Pick a content type and fill in the form."@),
            r@.last_error is None,
    {
        QrApp {
            kind: QrKind::Url,
            parts: QrParts::default(),
            ec: EcLevel::M,
            style: Style::default(),
            export_format: ExportFormat::Png,
            preview: None,
            status: Some(String::from_str("Pick a content type and fill in the form.")),
            last_error: None,
        }
    }

    /// Returns the encoded payload string for the current `kind` / `parts`,
    /// or `None` if the inputs are empty.
    pub fn payload(&self) -> (r: Option<String>)
        ensures
            text_of(r) == payload(self.kind, self.parts@),
    {
        build(self.kind, &self.parts)
    }

    /// Rebuilds the preview if any input has changed since the last render:
    /// returns the image to show where a new one was drawn. Idempotent and
    /// cheap to call on every frame. Where a new symbol would be drawn too
    /// large for the renderer (see `can_regenerate`), returns `None` and
    /// leaves the state as it was.
    pub fn try_regenerate_preview(&mut self) -> (r: Option<Option<RgbaImage>>)
        ensures
            r is Some <==> can_regenerate(old(self)@),
            r matches Some(image) ==> {
                &&& final(self)@ == regenerated(old(self)@)
                &&& image_of(image) == regenerated_image(old(self)@)
                &&& image is Some ==> image_of(image) is Some
            },
            r is None ==> final(self)@ == old(self)@,
    {
        let payload = match self.payload() {
            Some(p) => p,
            None => {
                self.preview = None;
                self.last_error = None;
                self.status = Some(String::from_str("Fill in the form to generate a QR code."));
                return Some(None);
            },
        };
        let current = match &self.preview {
            Some(prev) => prev.payload == payload && prev.ec == self.ec && same_style(
                &prev.style,
                &self.style,
            ),
            None => false,
        };
        if current {
            return Some(None);
        }
        match encode(payload.as_str().as_bytes(), self.ec) {
            Ok(grid) => {
                if !self.style.fits(grid.width) {
                    return None;
                }
                let (rgba, w, h) = render_rgba(&grid, &self.style);
                let mut status = String::from_str("Generated \u{2014} ");
                push_decimal(&mut status, w);
                status.append(" \u{00D7} ");
                push_decimal(&mut status, h);
                status.append(" px, ");
                push_decimal(&mut status, grid.width);
                status.append(" modules");
                self.preview = Some(Preview { size_px: [w, h], payload, ec: self.ec, style: self.style });
                self.last_error = None;
                self.status = Some(status);
                Some(Some(RgbaImage { pixels: rgba, width: w, height: h }))
            },
            Err(e) => {
                self.preview = None;
                let mut message = String::from_str("QR error: ");
                message.append(e.message());
                self.last_error = Some(message);
                self.status = Some(String::from_str("Failed to render QR."));
                Some(None)
            },
        }
    }

    /// Rebuilds the preview if any input has changed since the last render:
    /// returns the image to show where a new one was drawn. Idempotent and
    /// cheap to call on every frame.
    pub fn regenerate_preview(&mut self) -> (image: Option<RgbaImage>)
        requires
            can_regenerate(old(self)@),
        ensures
            final(self)@ == regenerated(old(self)@),
            image_of(image) == regenerated_image(old(self)@),
            image is Some ==> image_of(image) is Some,
    {
        match self.try_regenerate_preview() {
            Some(image) => image,
            None => None,
        }
    }

    /// Encodes the payload for saving: returns what to write to disk, or
    /// records why there is nothing to write. Where a PNG image of the symbol
    /// would be too large for the renderer (see `can_export`), returns `None`
    /// and leaves the state as it was.
    pub fn try_export(&mut self) -> (r: Option<Option<ExportJob>>)
        ensures
            r is Some <==> can_export(old(self)@),
            r matches Some(job) ==> {
                &&& final(self)@ == exported(old(self)@)
                &&& job_of(job) == export_job(old(self)@)
                &&& job is Some ==> job_of(job) is Some
            },
            r is None ==> final(self)@ == old(self)@,
    {
        let payload = match self.payload() {
            Some(p) => p,
            None => {
                self.last_error = Some(
                    String::from_str("Nothing to export \u{2014} fill the form first."),
                );
                return Some(None);
            },
        };
        let grid = match encode(payload.as_str().as_bytes(), self.ec) {
            Ok(g) => g,
            Err(e) => {
                let mut message = String::from_str("QR error: ");
                message.append(e.message());
                self.last_error = Some(message);
                return Some(None);
            },
        };
        match self.export_format {
            ExportFormat::Png => {
                if !self.style.fits(grid.width) {
                    return None;
                }
                let (rgba, w, h) = render_rgba(&grid, &self.style);
                Some(Some(ExportJob::Png(RgbaImage { pixels: rgba, width: w, height: h })))
            },
            ExportFormat::Svg => match render_svg(payload.as_str().as_bytes(), self.ec) {
                Some(doc) => Some(Some(ExportJob::Svg(doc))),
                None => Some(None),
            },
        }
    }

    /// Encodes the payload for saving: returns what to write to disk, or
    /// records why there is nothing to write.
    pub fn export(&mut self) -> (job: Option<ExportJob>)
        requires
            can_export(old(self)@),
        ensures
            final(self)@ == exported(old(self)@),
            job_of(job) == export_job(old(self)@),
            job is Some ==> job_of(job) is Some,
    {
        match self.try_export() {
            Some(job) => job,
            None => None,
        }
    }

    /// Records how writing the export to `destination` went.
    pub fn export_finished(&mut self, destination: &str, outcome: Result<(), String>)
        ensures
            final(self)@ == export_settled(old(self)@, destination@, outcome_of(outcome)),
    {
        match outcome {
            Ok(()) => {
                self.last_error = None;
                let mut status = String::from_str("Saved to ");
                status.append(destination);
                self.status = Some(status);
            },
            Err(e) => {
                let mut message = String::from_str("Save failed: ");
                message.append(e.as_str());
                self.last_error = Some(message);
            },
        }
    }

    /// The SVG document of the payload's symbol, for the clipboard, where
    /// there is one.
    pub fn copy_svg(&mut self) -> (r: Option<String>)
        ensures
            final(self)@ == svg_copied(old(self)@),
            text_of(r) == svg_to_copy(old(self)@),
    {
        let payload = match self.payload() {
            Some(p) => p,
            None => {
                return None;
            },
        };
        match render_svg(payload.as_str().as_bytes(), self.ec) {
            Some(doc) => {
                self.last_error = None;
                let mut status = String::from_str("Copied SVG to clipboard (");
                push_decimal(&mut status, doc.as_str().len());
                status.append(" bytes)");
                self.status = Some(status);
                Some(doc)
            },
            None => None,
        }
    }

    /// The payload, for the clipboard, where there is one.
    pub fn copy_data(&mut self) -> (r: Option<String>)
        ensures
            final(self)@ == data_copied(old(self)@),
            text_of(r) == payload(old(self)@.kind, old(self)@.parts),
    {
        match self.payload() {
            Some(p) => {
                self.last_error = None;
                self.status = Some(String::from_str("Copied payload to clipboard."));
                Some(p)
            },
            None => None,
        }
    }
}

/// Bringing the preview up to date a second time changes nothing and draws
/// nothing.
pub proof fn law_regenerate_idempotent(s: AppView)
    ensures
        can_regenerate(regenerated(s)),
        regenerated(regenerated(s)) == regenerated(s),
        regenerated_image(regenerated(s)) is None,
{
}

/// Once the preview is brought up to date, whatever preview there is was drawn
/// from the current payload, at the current level and in the current style.
pub proof fn law_preview_matches_form(s: AppView)
    ensures
        regenerated(s).preview matches Some(pv) ==> payload(s.kind, s.parts) == Some(pv.payload)
            && pv.ec == s.ec && pv.style == s.style,
{
}

} // verus!
