//! Error types of the receipt library.

use vstd::prelude::*;
use crate::types::PrintWidth;

verus! {

/// Every error the receipt layer can produce.
#[derive(Debug)]
pub enum ThermoprintError {
    /// The barcode value is empty or too long for the chosen symbology.
    InvalidBarcode {
        /// The invalid barcode value.
        value: String,
        /// Why the value was rejected.
        reason: String,
    },
    /// A money string could not be parsed.
    InvalidDecimal(String),
    /// A logo image could not be loaded; carries the underlying cause.
    LogoLoad {
        /// Path to the image that failed to load.
        path: String,
        /// Underlying error description.
        reason: String,
    },
    /// The requested operation is not supported for the current print width.
    UnsupportedWidth(PrintWidth),
}

} // verus!
