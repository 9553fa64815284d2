//! Payload builders for QR codes of common content types, the state of the
//! generator that turns them into QR symbols, and the rasteriser that draws a
//! symbol into an RGBA image.
use vstd::prelude::*;

pub mod app;
pub mod qr_types;
pub mod raster;
pub mod symbol;
pub mod text;

pub use app::{EcLevel, ExportFormat, ExportJob, Preview, QrApp, RgbaImage, Style};
pub use qr_types::{
    build, CryptoKind, CryptoParams, EmailParams, EventParams, GeoParams, QrKind, QrParts,
    SmsParams, VCardParams, WifiParams, WifiSecurity,
};
pub use raster::{render_rgba, ModuleGrid};
pub use symbol::{encode, QrFailure};
