//! Declarative template interpreter for receipt generation.
//!
//! A [`ReceiptTemplate`] is a declarative description of one receipt: a
//! paper width, a currency, a language (each optional in the document form,
//! falling back to documented defaults) and an ordered list of typed
//! elements. Rendering replays the elements, strictly in document order,
//! against a fresh [`ReceiptBuilder`] — a successful render is byte-exact to
//! the equivalent fluent builder calls, and any element-level failure aborts
//! the whole render with no partial buffer.

use vstd::prelude::*;
use vstd::string::StrSliceExecFns;

use crate::builder::{
    amount_row_seq, cols_of, discount_seq, divider_bytes, code128_seq, ean13_seq, init_seq,
    item_seq, line_of, shop_header_seq, subtotal_seq, taxes_seq, thank_you_seq, total_seq,
    BuilderView, ReceiptBuilder,
};
use crate::commands;
use crate::encoding::{spec_center, spec_right_align, spec_two_col};
use crate::i18n::{labels_of, labels_view, Language};
use crate::money::{parsed_money, Money};
use crate::types::{Align, PrintWidth, TaxEntry, TaxView};

verus! {

/// A complete receipt template, ready to render to printer bytes.
pub struct ReceiptTemplate {
    /// Paper width code: `"58mm"`/`"58"`, `"80mm"`/`"80"`, or `"a4"`.
    pub width: String,
    /// Currency symbol (default `"FCFA"`).
    pub currency: String,
    /// Receipt language code (default `"fr"`).
    pub language: String,
    /// Ordered list of receipt elements.
    pub elements: Vec<Element>,
}

/// A single element in a receipt template. Each variant maps to one or more
/// receipt builder calls; money fields are decimal strings, parsed into
/// exact decimals at render time.
pub enum Element {
    /// Printer init (reset + code page). Should be first.
    Init,
    /// Shop header block (centred, bold, large name).
    ShopHeader {
        /// Shop name.
        name: String,
        /// Phone line.
        phone: String,
        /// Address line.
        address: String,
    },
    /// A single text line.
    TextLine {
        /// The text.
        text: String,
    },
    /// Centred text line.
    Centered {
        /// The text.
        text: String,
    },
    /// Right-aligned text line.
    Right {
        /// The text.
        text: String,
    },
    /// Two-column row (label left, value right).
    Row {
        /// Left column text.
        left: String,
        /// Right column text.
        right: String,
    },
    /// Full-width divider; the first character of `ch` is repeated (default
    /// `-`).
    Divider {
        /// The divider character, as a string.
        ch: String,
    },
    /// Blank line.
    Blank,
    /// Toggle bold.
    Bold {
        /// On or off.
        on: bool,
    },
    /// Toggle double size.
    DoubleSize {
        /// On or off.
        on: bool,
    },
    /// Toggle double height.
    DoubleHeight {
        /// On or off.
        on: bool,
    },
    /// Reset to normal size.
    NormalSize,
    /// Toggle underline.
    Underline {
        /// On or off.
        on: bool,
    },
    /// Set alignment: `"left"`, `"center"`, or `"right"`.
    Align {
        /// The alignment code.
        value: String,
    },
    /// Line item.
    Item {
        /// Item name.
        name: String,
        /// Quantity.
        qty: i32,
        /// Unit price, as a decimal string.
        unit_price: String,
        /// Optional discount, as a decimal string.
        discount: Option<String>,
    },
    /// Subtotal excluding tax; the amount is a decimal string.
    Subtotal {
        /// The amount.
        amount: String,
    },
    /// Single tax line.
    Tax {
        /// Tax label.
        label: String,
        /// The amount, as a decimal string.
        amount: String,
        /// Whether the tax is already included in the item prices.
        included: bool,
    },
    /// Discount line.
    Discount {
        /// The amount, as a decimal string.
        amount: String,
        /// Optional coupon code shown with the label.
        coupon_code: Option<String>,
    },
    /// Grand total; the amount is a decimal string.
    Total {
        /// The amount.
        amount: String,
    },
    /// Amount received; a decimal string.
    Received {
        /// The amount.
        amount: String,
    },
    /// Change to return; a decimal string.
    Change {
        /// The amount.
        amount: String,
    },
    /// Served-by footer.
    ServedBy {
        /// The server's name.
        name: String,
    },
    /// Thank-you footer.
    ThankYou {
        /// The shop name in the see-you-soon line.
        shop_name: String,
    },
    /// CODE128 barcode.
    BarcodeCode128 {
        /// The barcode value.
        value: String,
    },
    /// EAN-13 barcode (12 digits).
    BarcodeEan13 {
        /// The barcode value.
        value: String,
    },
    /// QR code.
    QrCode {
        /// The encoded data.
        data: String,
        /// Module size 1–8 (default 4).
        size: u8,
    },
    /// Feed n lines (default 3).
    Feed {
        /// Line count.
        lines: u8,
    },
    /// Partial cut.
    Cut,
    /// Full cut.
    CutFull,
    /// Form feed (page eject).
    FormFeed,
    /// Open cash drawer.
    OpenCashDrawer,
}

/// Error type for template rendering.
#[derive(Debug)]
pub enum TemplateError {
    /// The document is not well-formed; carries the underlying syntax cause.
    JsonError {
        /// What was wrong with the document.
        message: String,
    },
    /// A decimal amount string could not be parsed.
    InvalidDecimal {
        /// The invalid value.
        value: String,
        /// Description of the error.
        reason: String,
    },
    /// An unknown width string was provided. Use `"58mm"`, `"80mm"`, or
    /// `"a4"`.
    UnknownWidth(String),
    /// An unknown language code was provided. Use `fr`, `en`, `es`, `pt`,
    /// `ar`, or `wo`.
    UnknownLanguage(String),
    /// An unknown alignment value was provided. Use `"left"`, `"center"`,
    /// or `"right"`.
    UnknownAlign(String),
}

/// The mathematical content of a template error.
pub enum TemplateErrorView {
    /// Malformed document, with its cause.
    JsonError {
        /// The cause characters.
        message: Seq<char>,
    },
    /// A decimal amount string could not be parsed.
    InvalidDecimal {
        /// The invalid value.
        value: Seq<char>,
        /// The parser's description of the cause.
        reason: Seq<char>,
    },
    /// Unknown width code.
    UnknownWidth(Seq<char>),
    /// Unknown language code.
    UnknownLanguage(Seq<char>),
    /// Unknown alignment value.
    UnknownAlign(Seq<char>),
}

impl View for TemplateError {
    type V = TemplateErrorView;

    open spec fn view(&self) -> TemplateErrorView {
        match self {
            TemplateError::JsonError { message } => TemplateErrorView::JsonError {
                message: message@,
            },
            TemplateError::InvalidDecimal { value, reason } => TemplateErrorView::InvalidDecimal {
                value: value@,
                reason: reason@,
            },
            TemplateError::UnknownWidth(s) => TemplateErrorView::UnknownWidth(s@),
            TemplateError::UnknownLanguage(s) => TemplateErrorView::UnknownLanguage(s@),
            TemplateError::UnknownAlign(s) => TemplateErrorView::UnknownAlign(s@),
        }
    }
}

// ── Keyword parsing ───────────────────────────────────────────────────────

/// One character lowered: the ASCII capitals fold to their small letters,
/// anything else is unchanged.
pub open spec fn ascii_lower_char(c: char) -> char {
    match c {
        'A' => 'a',
        'B' => 'b',
        'C' => 'c',
        'D' => 'd',
        'E' => 'e',
        'F' => 'f',
        'G' => 'g',
        'H' => 'h',
        'I' => 'i',
        'J' => 'j',
        'K' => 'k',
        'L' => 'l',
        'M' => 'm',
        'N' => 'n',
        'O' => 'o',
        'P' => 'p',
        'Q' => 'q',
        'R' => 'r',
        'S' => 's',
        'T' => 't',
        'U' => 'u',
        'V' => 'v',
        'W' => 'w',
        'X' => 'x',
        'Y' => 'y',
        'Z' => 'z',
        _ => c,
    }
}

/// A character sequence with its ASCII capitals folded to small letters.
pub open spec fn lower_seq(s: Seq<char>) -> Seq<char> {
    Seq::new(s.len(), |i: int| ascii_lower_char(s[i]))
}

/// Lower one character's ASCII capitals.
fn ascii_lower_char_exec(c: char) -> (r: char)
    ensures
        r == ascii_lower_char(c),
{
    match c {
        'A' => 'a',
        'B' => 'b',
        'C' => 'c',
        'D' => 'd',
        'E' => 'e',
        'F' => 'f',
        'G' => 'g',
        'H' => 'h',
        'I' => 'i',
        'J' => 'j',
        'K' => 'k',
        'L' => 'l',
        'M' => 'm',
        'N' => 'n',
        'O' => 'o',
        'P' => 'p',
        'Q' => 'q',
        'R' => 'r',
        'S' => 's',
        'T' => 't',
        'U' => 'u',
        'V' => 'v',
        'W' => 'w',
        'X' => 'x',
        'Y' => 'y',
        'Z' => 'z',
        _ => c,
    }
}

/// Whether a string, lowered, equals a keyword.
fn eq_lower(s: &str, lit: &str) -> (r: bool)
    ensures
        r == (lower_seq(s@) == lit@),
{
    let n = s.unicode_len();
    let m = lit.unicode_len();
    if n != m {
        assert(lower_seq(s@).len() != lit@.len());
        return false;
    }
    let mut i: usize = 0;
    while i < n
        invariant
            i <= n,
            n == s@.len(),
            n == lit@.len(),
            forall|j: int| 0 <= j < i ==> lower_seq(s@)[j] == lit@[j],
        decreases n - i,
    {
        let c = ascii_lower_char_exec(s.get_char(i));
        if c != lit.get_char(i) {
            assert(lower_seq(s@)[i as int] != lit@[i as int]);
            return false;
        }
        i = i + 1;
    }
    assert(lower_seq(s@) =~= lit@);
    true
}

/// The width a width code denotes, matched case-insensitively, or nothing.
pub open spec fn spec_parse_width(s: Seq<char>) -> Option<PrintWidth> {
    let t = lower_seq(s);
    if t == "58mm"@ || t == "58"@ {
        Some(PrintWidth::Mm58)
    } else if t == "80mm"@ || t == "80"@ {
        Some(PrintWidth::Mm80)
    } else if t == "a4"@ {
        Some(PrintWidth::A4)
    } else {
        None
    }
}

/// Parse a paper width code. Fails with `UnknownWidth`, naming the code,
/// exactly on the strings no width matches.
fn parse_width(s: &str) -> (r: Result<PrintWidth, TemplateError>)
    ensures
        match r {
            Ok(w) => spec_parse_width(s@) == Some(w),
            Err(e) => spec_parse_width(s@) is None && e@ == TemplateErrorView::UnknownWidth(s@),
        },
{
    if eq_lower(s, "58mm") || eq_lower(s, "58") {
        Ok(PrintWidth::Mm58)
    } else if eq_lower(s, "80mm") || eq_lower(s, "80") {
        Ok(PrintWidth::Mm80)
    } else if eq_lower(s, "a4") {
        Ok(PrintWidth::A4)
    } else {
        Err(TemplateError::UnknownWidth(s.to_owned()))
    }
}

/// The language a language code denotes, matched case-insensitively
/// (two-letter codes and English full names), or nothing.
pub open spec fn spec_parse_language(s: Seq<char>) -> Option<Language> {
    let t = lower_seq(s);
    if t == "fr"@ || t == "french"@ {
        Some(Language::Fr)
    } else if t == "en"@ || t == "english"@ {
        Some(Language::En)
    } else if t == "es"@ || t == "spanish"@ {
        Some(Language::Es)
    } else if t == "pt"@ || t == "portuguese"@ {
        Some(Language::Pt)
    } else if t == "ar"@ || t == "arabic"@ {
        Some(Language::Ar)
    } else if t == "wo"@ || t == "wolof"@ {
        Some(Language::Wo)
    } else {
        None
    }
}

/// Parse a language code. Fails with `UnknownLanguage`, naming the code,
/// exactly on the strings no language matches.
fn parse_language(s: &str) -> (r: Result<Language, TemplateError>)
    ensures
        match r {
            Ok(l) => spec_parse_language(s@) == Some(l),
            Err(e) => spec_parse_language(s@) is None && e@ == TemplateErrorView::UnknownLanguage(
                s@,
            ),
        },
{
    if eq_lower(s, "fr") || eq_lower(s, "french") {
        Ok(Language::Fr)
    } else if eq_lower(s, "en") || eq_lower(s, "english") {
        Ok(Language::En)
    } else if eq_lower(s, "es") || eq_lower(s, "spanish") {
        Ok(Language::Es)
    } else if eq_lower(s, "pt") || eq_lower(s, "portuguese") {
        Ok(Language::Pt)
    } else if eq_lower(s, "ar") || eq_lower(s, "arabic") {
        Ok(Language::Ar)
    } else if eq_lower(s, "wo") || eq_lower(s, "wolof") {
        Ok(Language::Wo)
    } else {
        Err(TemplateError::UnknownLanguage(s.to_owned()))
    }
}

/// The alignment an alignment value denotes, matched case-insensitively,
/// or nothing.
pub open spec fn spec_parse_align(s: Seq<char>) -> Option<Align> {
    let t = lower_seq(s);
    if t == "left"@ {
        Some(Align::Left)
    } else if t == "center"@ {
        Some(Align::Center)
    } else if t == "right"@ {
        Some(Align::Right)
    } else {
        None
    }
}

/// Parse an alignment value. Fails with `UnknownAlign`, naming the value,
/// exactly on the strings no alignment matches.
fn parse_align(s: &str) -> (r: Result<Align, TemplateError>)
    ensures
        match r {
            Ok(a) => spec_parse_align(s@) == Some(a),
            Err(e) => spec_parse_align(s@) is None && e@ == TemplateErrorView::UnknownAlign(s@),
        },
{
    if eq_lower(s, "left") {
        Ok(Align::Left)
    } else if eq_lower(s, "center") {
        Ok(Align::Center)
    } else if eq_lower(s, "right") {
        Ok(Align::Right)
    } else {
        Err(TemplateError::UnknownAlign(s.to_owned()))
    }
}


// ── Element application ───────────────────────────────────────────────────

/// A builder state with bytes appended.
pub open spec fn appended(v: BuilderView, tail: Seq<u8>) -> BuilderView {
    BuilderView { bytes: v.bytes + tail, ..v }
}

/// The first character of a divider string, defaulting to a dash.
pub open spec fn divider_char(s: Seq<char>) -> char {
    if s.len() == 0 {
        '-'
    } else {
        s[0]
    }
}

/// What one element does to a builder state: the exact bytes each element
/// kind appends, or the error that aborts the render. Money strings parse
/// to exact decimals; a malformed one fails with `InvalidDecimal` naming the
/// offending value, an unknown alignment with `UnknownAlign`.
#[verifier::opaque]
pub open spec fn spec_apply_element(v: BuilderView, e: Element) -> Result<
    BuilderView,
    TemplateErrorView,
> {
    match e {
        Element::Init => Ok(appended(v, init_seq())),
        Element::ShopHeader { name, phone, address } => Ok(
            appended(v, shop_header_seq(name@, phone@, address@)),
        ),
        Element::TextLine { text } => Ok(appended(v, line_of(text@))),
        Element::Centered { text } => Ok(
            appended(v, line_of(spec_center(text@, cols_of(v)))),
        ),
        Element::Right { text } => Ok(
            appended(v, line_of(spec_right_align(text@, cols_of(v)))),
        ),
        Element::Row { left, right } => Ok(
            appended(v, line_of(spec_two_col(left@, right@, cols_of(v)))),
        ),
        Element::Divider { ch } => Ok(
            appended(v, divider_bytes(divider_char(ch@), cols_of(v))),
        ),
        Element::Blank => Ok(appended(v, seq![0x0Au8])),
        Element::Bold { on } => Ok(
            appended(v, commands::bold_bytes(if on { 1u8 } else { 0u8 })),
        ),
        Element::DoubleSize { on } => Ok(
            appended(v, commands::size_bytes(if on { 0x30u8 } else { 0u8 })),
        ),
        Element::DoubleHeight { on } => Ok(
            appended(v, commands::size_bytes(if on { 0x10u8 } else { 0u8 })),
        ),
        Element::NormalSize => Ok(appended(v, commands::size_bytes(0))),
        Element::Underline { on } => Ok(
            appended(v, commands::underline_bytes(if on { 1u8 } else { 0u8 })),
        ),
        Element::Align { value } => match spec_parse_align(value@) {
            Some(a) => Ok(
                appended(v, commands::align_bytes(crate::builder::align_code(a))),
            ),
            None => Err(TemplateErrorView::UnknownAlign(value@)),
        },
        Element::Item { name, qty, unit_price, discount } => match parsed_money(unit_price@) {
            Err(reason) => Err(
                TemplateErrorView::InvalidDecimal { value: unit_price@, reason },
            ),
            Ok(price) => match discount {
                Some(ds) => match parsed_money(ds@) {
                    Err(reason) => Err(
                        TemplateErrorView::InvalidDecimal { value: ds@, reason },
                    ),
                    Ok(d) => Ok(
                        appended(
                            v,
                            item_seq(
                                name@,
                                qty as int,
                                price,
                                Some(d),
                                cols_of(v),
                                v.currency,
                                v.labels.item_discount,
                            ),
                        ),
                    ),
                },
                None => Ok(
                    appended(
                        v,
                        item_seq(
                            name@,
                            qty as int,
                            price,
                            None,
                            cols_of(v),
                            v.currency,
                            v.labels.item_discount,
                        ),
                    ),
                ),
            },
        },
        Element::Subtotal { amount } => match parsed_money(amount@) {
            Err(reason) => Err(TemplateErrorView::InvalidDecimal { value: amount@, reason }),
            Ok(a) => Ok(
                appended(
                    v,
                    subtotal_seq(a, cols_of(v), v.currency, v.labels.subtotal_ht, v.labels.excl_tax_note),
                ),
            ),
        },
        Element::Tax { label, amount, included } => match parsed_money(amount@) {
            Err(reason) => Err(TemplateErrorView::InvalidDecimal { value: amount@, reason }),
            Ok(a) => Ok(
                appended(
                    v,
                    taxes_seq(
                        seq![TaxView { label: label@, amount: a, included }],
                        cols_of(v),
                        v.currency,
                        v.labels,
                    ),
                ),
            ),
        },
        Element::Discount { amount, coupon_code } => match parsed_money(amount@) {
            Err(reason) => Err(TemplateErrorView::InvalidDecimal { value: amount@, reason }),
            Ok(a) => Ok(
                appended(
                    v,
                    discount_seq(
                        a,
                        match coupon_code {
                            Some(c) => Some(c@),
                            None => None,
                        },
                        cols_of(v),
                        v.currency,
                        v.labels.discount,
                    ),
                ),
            ),
        },
        Element::Total { amount } => match parsed_money(amount@) {
            Err(reason) => Err(TemplateErrorView::InvalidDecimal { value: amount@, reason }),
            Ok(a) => Ok(appended(v, total_seq(a, cols_of(v), v.currency, v.labels.total))),
        },
        Element::Received { amount } => match parsed_money(amount@) {
            Err(reason) => Err(TemplateErrorView::InvalidDecimal { value: amount@, reason }),
            Ok(a) => Ok(
                appended(v, amount_row_seq(a, cols_of(v), v.currency, v.labels.received)),
            ),
        },
        Element::Change { amount } => match parsed_money(amount@) {
            Err(reason) => Err(TemplateErrorView::InvalidDecimal { value: amount@, reason }),
            Ok(a) => Ok(appended(v, amount_row_seq(a, cols_of(v), v.currency, v.labels.change))),
        },
        Element::ServedBy { name } => Ok(
            appended(v, line_of(v.labels.served_by + " "@ + name@)),
        ),
        Element::ThankYou { shop_name } => Ok(
            appended(v, thank_you_seq(shop_name@, v.labels.thank_you, v.labels.see_you_at)),
        ),
        Element::BarcodeCode128 { value } => Ok(
            appended(v, code128_seq(vstd::utf8::encode_utf8(value@), 2, 60)),
        ),
        Element::BarcodeEan13 { value } => Ok(
            appended(v, ean13_seq(vstd::utf8::encode_utf8(value@))),
        ),
        Element::QrCode { data, size } => Ok(
            appended(v, crate::builder::qr_seq(vstd::utf8::encode_utf8(data@), size)),
        ),
        Element::Feed { lines } => Ok(appended(v, commands::feed_lines_bytes(lines))),
        Element::Cut => Ok(appended(v, commands::cut_partial_bytes())),
        Element::CutFull => Ok(appended(v, commands::cut_full_bytes())),
        Element::FormFeed => Ok(appended(v, commands::form_feed_bytes())),
        Element::OpenCashDrawer => Ok(appended(v, commands::cash_drawer_kick_bytes())),
    }
}

/// Apply one element to the builder: emit its bytes, or abort with the
/// element's error.
#[verifier::rlimit(100)]
#[verifier::spinoff_prover]
fn apply_element(builder: ReceiptBuilder, element: &Element) -> (r: Result<
    ReceiptBuilder,
    TemplateError,
>)
    ensures
        match r {
            Ok(b) => spec_apply_element(builder@, *element) == Ok::<BuilderView, TemplateErrorView>(
                b@,
            ),
            Err(e) => spec_apply_element(builder@, *element) == Err::<
                BuilderView,
                TemplateErrorView,
            >(e@),
        },
{
    proof {
        reveal(spec_apply_element);
    }
    match element {
        Element::Init => Ok(builder.init()),
        Element::ShopHeader { name, phone, address } => Ok(
            builder.shop_header(name.as_str(), phone.as_str(), address.as_str()),
        ),
        Element::TextLine { text } => Ok(builder.text_line(text.as_str())),
        Element::Centered { text } => Ok(builder.centered(text.as_str())),
        Element::Right { text } => Ok(builder.right(text.as_str())),
        Element::Row { left, right } => Ok(builder.row(left.as_str(), right.as_str())),
        Element::Divider { ch } => {
            let c: char = if ch.as_str().unicode_len() == 0 {
                '-'
            } else {
                ch.as_str().get_char(0)
            };
            Ok(builder.divider(c))
        },
        Element::Blank => Ok(builder.blank()),
        Element::Bold { on } => Ok(builder.bold(*on)),
        Element::DoubleSize { on } => Ok(builder.double_size(*on)),
        Element::DoubleHeight { on } => Ok(builder.double_height(*on)),
        Element::NormalSize => Ok(builder.normal_size()),
        Element::Underline { on } => Ok(builder.underline(*on)),
        Element::Align { value } => match parse_align(value.as_str()) {
            Ok(a) => Ok(builder.align(a)),
            Err(e) => Err(e),
        },
        Element::Item { name, qty, unit_price, discount } => {
            match Money::parse(unit_price.as_str()) {
                Err(reason) => Err(
                    TemplateError::InvalidDecimal { value: unit_price.clone(), reason },
                ),
                Ok(price) => match discount {
                    Some(ds) => match Money::parse(ds.as_str()) {
                        Err(reason) => Err(
                            TemplateError::InvalidDecimal { value: ds.clone(), reason },
                        ),
                        Ok(d) => Ok(builder.item(name.as_str(), *qty, price, Some(d))),
                    },
                    None => Ok(builder.item(name.as_str(), *qty, price, None)),
                },
            }
        },
        Element::Subtotal { amount } => match Money::parse(amount.as_str()) {
            Err(reason) => Err(TemplateError::InvalidDecimal { value: amount.clone(), reason }),
            Ok(a) => Ok(builder.subtotal_ht(a)),
        },
        Element::Tax { label, amount, included } => match Money::parse(amount.as_str()) {
            Err(reason) => Err(TemplateError::InvalidDecimal { value: amount.clone(), reason }),
            Ok(a) => {
                let entry = TaxEntry::new(label.as_str(), a, *included);
                let mut entries: Vec<TaxEntry> = Vec::new();
                entries.push(entry);
                let r = builder.taxes(entries.as_slice());
                proof {
                    assert(crate::types::tax_views(entries@) =~= seq![
                        TaxView { label: label@, amount: a, included: *included },
                    ]);
                }
                Ok(r)
            },
        },
        Element::Discount { amount, coupon_code } => match Money::parse(amount.as_str()) {
            Err(reason) => Err(TemplateError::InvalidDecimal { value: amount.clone(), reason }),
            Ok(a) => match coupon_code {
                Some(c) => Ok(builder.discount(a, Some(c.as_str()))),
                None => Ok(builder.discount(a, None)),
            },
        },
        Element::Total { amount } => match Money::parse(amount.as_str()) {
            Err(reason) => Err(TemplateError::InvalidDecimal { value: amount.clone(), reason }),
            Ok(a) => Ok(builder.total(a)),
        },
        Element::Received { amount } => match Money::parse(amount.as_str()) {
            Err(reason) => Err(TemplateError::InvalidDecimal { value: amount.clone(), reason }),
            Ok(a) => Ok(builder.received(a)),
        },
        Element::Change { amount } => match Money::parse(amount.as_str()) {
            Err(reason) => Err(TemplateError::InvalidDecimal { value: amount.clone(), reason }),
            Ok(a) => Ok(builder.change(a)),
        },
        Element::ServedBy { name } => Ok(builder.served_by(name.as_str())),
        Element::ThankYou { shop_name } => Ok(builder.thank_you(shop_name.as_str())),
        Element::BarcodeCode128 { value } => Ok(builder.barcode_code128(value.as_str())),
        Element::BarcodeEan13 { value } => Ok(builder.barcode_ean13(value.as_str())),
        Element::QrCode { data, size } => Ok(builder.qr_code(data.as_str(), *size)),
        Element::Feed { lines } => Ok(builder.feed(*lines)),
        Element::Cut => Ok(builder.cut()),
        Element::CutFull => Ok(builder.cut_full()),
        Element::FormFeed => Ok(builder.form_feed()),
        Element::OpenCashDrawer => Ok(builder.open_cash_drawer()),
    }
}

// ── Rendering ─────────────────────────────────────────────────────────────

/// The bytes the remaining elements produce from a builder state, or the
/// first element error.
pub open spec fn spec_render_elements(v: BuilderView, elems: Seq<Element>) -> Result<
    Seq<u8>,
    TemplateErrorView,
>
    decreases elems.len(),
{
    if elems.len() == 0 {
        Ok(v.bytes)
    } else {
        match spec_apply_element(v, elems[0]) {
            Err(e) => Err(e),
            Ok(v2) => spec_render_elements(v2, elems.drop_first()),
        }
    }
}

/// The fresh builder state a template starts from: no bytes, the parsed
/// width, the template's currency, the parsed language's labels.
pub open spec fn initial_view(w: PrintWidth, currency: Seq<char>, lang: Language) -> BuilderView {
    BuilderView { bytes: Seq::<u8>::empty(), width: w, currency, labels: labels_view(lang) }
}

/// What a template renders to: the whole byte stream, or the first error.
/// An unknown width or language code fails before any element is applied;
/// an element failure aborts the whole render — there is no partial buffer
/// either way.
pub open spec fn spec_render(t: ReceiptTemplate) -> Result<Seq<u8>, TemplateErrorView> {
    match spec_parse_width(t.width@) {
        None => Err(TemplateErrorView::UnknownWidth(t.width@)),
        Some(w) => match spec_parse_language(t.language@) {
            None => Err(TemplateErrorView::UnknownLanguage(t.language@)),
            Some(lang) => spec_render_elements(initial_view(w, t.currency@, lang), t.elements@),
        },
    }
}

impl ReceiptTemplate {
    /// Render this template to printer bytes: replay every element, in
    /// document order, against a fresh builder. All-or-nothing — on any
    /// failure the error comes back and no buffer at all.
    #[verifier::rlimit(100)]
    pub fn render(&self) -> (r: Result<Vec<u8>, TemplateError>)
        ensures
            match r {
                Ok(bytes) => spec_render(*self) == Ok::<Seq<u8>, TemplateErrorView>(bytes@),
                Err(e) => spec_render(*self) == Err::<Seq<u8>, TemplateErrorView>(e@),
            },
    {
        let width = match parse_width(self.width.as_str()) {
            Ok(w) => w,
            Err(e) => {
                return Err(e);
            },
        };
        let lang = match parse_language(self.language.as_str()) {
            Ok(l) => l,
            Err(e) => {
                return Err(e);
            },
        };
        let mut builder = ReceiptBuilder::new(width).currency(self.currency.as_str()).language(
            lang,
        );
        assert(builder@ == initial_view(width, self.currency@, lang)) by {
            assert(builder@.bytes =~= Seq::<u8>::empty());
        }
        let ghost v0 = builder@;
        proof {
            assert(self.elements@.skip(0int) =~= self.elements@);
        }
        let n = self.elements.len();
        let mut i: usize = 0;
        while i < n
            invariant
                i <= n,
                n == self.elements@.len(),
                spec_parse_width(self.width@) == Some(width),
                spec_parse_language(self.language@) == Some(lang),
                v0 == initial_view(width, self.currency@, lang),
                spec_render_elements(v0, self.elements@) == spec_render_elements(
                    builder@,
                    self.elements@.skip(i as int),
                ),
            decreases n - i,
        {
            let ghost rest = self.elements@.skip(i as int);
            builder = match apply_element(builder, &self.elements[i]) {
                Ok(b) => b,
                Err(e) => {
                    proof {
                        assert(rest[0] == self.elements@[i as int]);
                    }
                    return Err(e);
                },
            };
            i = i + 1;
            proof {
                assert(rest[0] == self.elements@[i - 1]);
                assert(rest.drop_first() =~= self.elements@.skip(i as int));
            }
        }
        proof {
            assert(self.elements@.skip(n as int) =~= Seq::<Element>::empty());
        }
        Ok(builder.build())
    }
}

} // verus!
