//! Receipt printing library for ESC/POS-style thermal and wide-carriage
//! printers: raw command encoding, CP858 text layout, 1-bit rasterisation,
//! a fluent receipt builder, and a JSON template interpreter.

pub mod builder;
pub mod commands;
pub mod dither;
pub mod encoding;
pub mod error;
pub mod i18n;
pub mod json;
pub mod laws;
pub mod money;
pub mod template;
pub mod transport;
pub mod types;

pub use builder::ReceiptBuilder;
pub use dither::dither_rgba;
pub use dither::DitherMethod;
pub use error::ThermoprintError;
pub use i18n::Language;
pub use i18n::ReceiptLabels;
pub use json::render_json;
pub use money::Money;
pub use template::ReceiptTemplate;
pub use types::Align;
pub use types::PrintWidth;
pub use types::TaxEntry;
