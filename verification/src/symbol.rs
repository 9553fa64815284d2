//! QR symbols, as the `qrcode` crate encodes and renders them.
use vstd::prelude::*;

use qrcode::types::QrError;

use crate::app::EcLevel;
use crate::raster::{GridView, ModuleGrid};

verus! {

/// Why the encoder refused the data: the cases of `qrcode::types::QrError`.
#[derive(Debug, Clone, Copy, PartialEq, Eq, Structural)]
pub enum QrFailure {
    DataTooLong,
    InvalidVersion,
    UnsupportedCharacterSet,
    InvalidEciDesignator,
    InvalidCharacter,
}

/// How the encoder describes a failure (the `Display` text of
/// `qrcode::types::QrError`).
pub open spec fn failure_text(e: QrFailure) -> Seq<char> {
    match e {
        QrFailure::DataTooLong => "data too long"@,
        QrFailure::InvalidVersion => "invalid version"@,
        QrFailure::UnsupportedCharacterSet => "unsupported character set"@,
        QrFailure::InvalidEciDesignator => "invalid ECI designator"@,
        QrFailure::InvalidCharacter => "invalid character"@,
    }
}

impl QrFailure {
    pub fn message(self) -> (r: &'static str)
        ensures
            r@ == failure_text(self),
    {
        match self {
            QrFailure::DataTooLong => "data too long",
            QrFailure::InvalidVersion => "invalid version",
            QrFailure::UnsupportedCharacterSet => "unsupported character set",
            QrFailure::InvalidEciDesignator => "invalid ECI designator",
            QrFailure::InvalidCharacter => "invalid character",
        }
    }
}

/// The symbol that `qrcode::QrCode::with_error_correction_level` makes of
/// `data` at `level`: its modules per side and, row by row, whether each
/// module is dark; or why it makes none.
pub uninterp spec fn qr_symbol(data: Seq<u8>, level: EcLevel) -> Result<(nat, Seq<bool>), QrFailure>;

/// The SVG document that `qrcode`'s SVG renderer draws, with its default
/// settings, of the symbol of `data` at `level`.
pub uninterp spec fn qr_svg(data: Seq<u8>, level: EcLevel) -> Seq<char>;

pub open spec fn symbol_of(r: Result<(usize, Vec<bool>), QrFailure>) -> Result<
    (nat, Seq<bool>),
    QrFailure,
> {
    match r {
        Ok((w, m)) => Ok((w as nat, m@)),
        Err(e) => Err(e),
    }
}

/// Calls `qrcode::QrCode::with_error_correction_level` and reads the symbol's
/// `width()` and its modules (`to_vec()`, true for dark). Claims that the
/// result is the named `qr_symbol` of the arguments, and what the crate's
/// source shows of every symbol it makes: a normal QR code of version 1 to 40,
/// so 21 to 177 modules per side, with one module per cell.
#[verifier::external_body]
#[allow(deprecated)]
fn encode_symbol(data: &[u8], level: EcLevel) -> (r: Result<(usize, Vec<bool>), QrFailure>)
    ensures
        symbol_of(r) == qr_symbol(data@, level),
        r matches Ok((w, m)) ==> 21 <= w <= 177 && m@.len() == w * w,
{
    let level = match level {
        EcLevel::L => qrcode::EcLevel::L,
        EcLevel::M => qrcode::EcLevel::M,
        EcLevel::Q => qrcode::EcLevel::Q,
        EcLevel::H => qrcode::EcLevel::H,
    };
    match qrcode::QrCode::with_error_correction_level(data, level) {
        Ok(code) => Ok((code.width(), code.to_vec())),
        Err(QrError::DataTooLong) => Err(QrFailure::DataTooLong),
        Err(QrError::InvalidVersion) => Err(QrFailure::InvalidVersion),
        Err(QrError::UnsupportedCharacterSet) => Err(QrFailure::UnsupportedCharacterSet),
        Err(QrError::InvalidEciDesignator) => Err(QrFailure::InvalidEciDesignator),
        Err(QrError::InvalidCharacter) => Err(QrFailure::InvalidCharacter),
    }
}

/// Encodes as `encode_symbol` does, then draws the symbol with
/// `Renderer::build` of `qrcode::render::svg::Color`. Claims that a document
/// comes exactly when encoding succeeds (the same deterministic call), and
/// that it is the named `qr_svg` of the arguments.
#[verifier::external_body]
pub(crate) fn render_svg(data: &[u8], level: EcLevel) -> (r: Option<String>)
    ensures
        r is Some <==> qr_symbol(data@, level) is Ok,
        r matches Some(s) ==> s@ == qr_svg(data@, level),
{
    let level = match level {
        EcLevel::L => qrcode::EcLevel::L,
        EcLevel::M => qrcode::EcLevel::M,
        EcLevel::Q => qrcode::EcLevel::Q,
        EcLevel::H => qrcode::EcLevel::H,
    };
    match qrcode::QrCode::with_error_correction_level(data, level) {
        Ok(code) => Some(code.render::<qrcode::render::svg::Color<'_>>().build()),
        Err(_) => None,
    }
}

/// The module grid of the QR symbol of `data` at `level`.
pub fn encode(data: &[u8], level: EcLevel) -> (r: Result<ModuleGrid, QrFailure>)
    ensures
        r matches Ok(g) ==> g.wf() && 21 <= g.width <= 177 && qr_symbol(data@, level) == Ok::<
            (nat, Seq<bool>),
            QrFailure,
        >((g@.width, g@.dark)),
        r matches Err(e) ==> qr_symbol(data@, level) == Err::<(nat, Seq<bool>), QrFailure>(e),
{
    match encode_symbol(data, level) {
        Ok((width, dark)) => {
            match ModuleGrid::from_modules(width, dark) {
                Some(g) => Ok(g),
                None => {
                    assert(false);
                    Err(QrFailure::DataTooLong)
                },
            }
        },
        Err(e) => Err(e),
    }
}

} // verus!
