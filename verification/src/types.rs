//! Shared domain types: paper width, alignment, tax entries.

use vstd::prelude::*;
use crate::money::Money;
use vstd::string::StringExecFns;

verus! {

/// Supported paper widths.
///
/// Each variant carries a fixed printable character count used for layout
/// math, and a maximum raster pixel width for logo printing.
#[derive(Debug, Clone, Copy, PartialEq, Eq, Structural)]
pub enum PrintWidth {
    /// 58 mm thermal roll — 32 characters at standard font.
    Mm58,
    /// 80 mm thermal roll — 48 characters at standard font.
    Mm80,
    /// A4 / generic wide-carriage — 90 characters.
    A4,
}

impl PrintWidth {
    /// The printable character column count of each width:
    /// 32 for 58 mm, 48 for 80 mm, 90 for A4. Always positive.
    pub open spec fn spec_cols(self) -> nat {
        match self {
            PrintWidth::Mm58 => 32,
            PrintWidth::Mm80 => 48,
            PrintWidth::A4 => 90,
        }
    }

    /// Printable character column count for this width.
    pub fn cols(self) -> (r: usize)
        ensures
            r == self.spec_cols(),
            r >= 32,
    {
        match self {
            PrintWidth::Mm58 => 32,
            PrintWidth::Mm80 => 48,
            PrintWidth::A4 => 90,
        }
    }

    /// Whether this is a thermal roll target (58 mm or 80 mm).
    pub fn is_thermal(self) -> (r: bool)
        ensures
            r == (self != PrintWidth::A4),
    {
        match self {
            PrintWidth::Mm58 => true,
            PrintWidth::Mm80 => true,
            PrintWidth::A4 => false,
        }
    }

    /// The maximum raster image pixel width of each paper width:
    /// 256 for 58 mm, 384 for 80 mm, 576 for A4.
    pub open spec fn spec_max_image_px(self) -> nat {
        match self {
            PrintWidth::Mm58 => 256,
            PrintWidth::Mm80 => 384,
            PrintWidth::A4 => 576,
        }
    }

    /// Maximum raster image width in pixels for logo printing.
    pub fn max_image_px(self) -> (r: u32)
        ensures
            r == self.spec_max_image_px(),
    {
        match self {
            PrintWidth::Mm58 => 256,
            PrintWidth::Mm80 => 384,
            PrintWidth::A4 => 576,
        }
    }
}

/// Text alignment.
#[derive(Debug, Clone, Copy, PartialEq, Eq, Structural)]
pub enum Align {
    /// Left-align (default).
    Left,
    /// Centre-align.
    Center,
    /// Right-align.
    Right,
}

/// The mathematical content of a tax entry.
pub struct TaxView {
    /// The label characters.
    pub label: Seq<char>,
    /// The tax amount.
    pub amount: Money,
    /// Whether the tax is already included in the item prices.
    pub included: bool,
}

/// A single tax line attached to a receipt.
#[derive(Debug, Clone)]
pub struct TaxEntry {
    /// Display label, e.g. `"TVA 18%"`.
    pub label: String,
    /// Tax amount in the local currency unit.
    pub amount: Money,
    /// `true` when the tax is already included in the item prices (shown for
    /// information only); `false` when it is added on top of the subtotal.
    pub included: bool,
}

impl View for TaxEntry {
    type V = TaxView;

    open spec fn view(&self) -> TaxView {
        TaxView { label: self.label@, amount: self.amount, included: self.included }
    }
}

/// The views of a sequence of tax entries.
pub open spec fn tax_views(s: Seq<TaxEntry>) -> Seq<TaxView> {
    Seq::new(s.len(), |i: int| s[i]@)
}

impl TaxEntry {
    /// Convenience constructor.
    pub fn new(label: &str, amount: Money, included: bool) -> (r: TaxEntry)
        ensures
            r.label@ == label@,
            r.amount == amount,
            r.included == included,
    {
        TaxEntry { label: label.to_owned(), amount, included }
    }
}

} // verus!
