//! Fluent receipt builder.
//!
//! A [`ReceiptBuilder`] accumulates the raw byte stream of one receipt:
//! every operation appends the exact bytes of one instruction and never
//! retracts or rewrites what came before — each contract here exhibits the
//! new byte stream as the old one plus a suffix. The builder is consumed by
//! each operation and handed back, so two receipts can never alias one
//! buffer, and `build` consumes it for good.

use vstd::prelude::*;
use vstd::string::StrSliceExecFns;
use vstd::string::StringExecFns;
use vstd::string::StringSliceAdditionalSpecFns;

use crate::commands;
use crate::encoding;
use crate::encoding::{cp858_seq, spec_center, spec_right_align, spec_truncate, spec_two_col};
use crate::i18n::{labels_of, LabelsView, Language, ReceiptLabels};
use crate::money::{int_chars, spec_add, spec_round_units, spec_sub, spec_times_int, Money};
use crate::money::int_to_string;
use crate::types::{tax_views, Align, PrintWidth, TaxEntry, TaxView};

verus! {

/// Fluent printer byte-stream builder.
///
/// Construction fixes the paper width; the currency symbol defaults to
/// `"FCFA"` and the labels to French until changed. All money is exact
/// decimal arithmetic; display rounds to whole currency units only at
/// formatting time.
pub struct ReceiptBuilder {
    data: Vec<u8>,
    width: PrintWidth,
    currency: String,
    labels: ReceiptLabels,
}

/// The mathematical content of a builder: the bytes emitted so far and the
/// fixed layout configuration.
pub struct BuilderView {
    /// The byte stream accumulated so far.
    pub bytes: Seq<u8>,
    /// The paper width chosen at construction.
    pub width: PrintWidth,
    /// The currency symbol used in money formatting.
    pub currency: Seq<char>,
    /// The active label set.
    pub labels: LabelsView,
}

impl View for ReceiptBuilder {
    type V = BuilderView;

    closed spec fn view(&self) -> BuilderView {
        BuilderView {
            bytes: self.data@,
            width: self.width,
            currency: self.currency@,
            labels: self.labels@,
        }
    }
}

/// Whether two builder states share width, currency and labels: everything
/// but the bytes.
pub open spec fn setup_eq(a: BuilderView, b: BuilderView) -> bool {
    a.width == b.width && a.currency == b.currency && a.labels == b.labels
}

/// The column count of a builder state.
pub open spec fn cols_of(v: BuilderView) -> nat {
    v.width.spec_cols()
}

/// A text line as emitted: its CP858 bytes followed by a line feed.
pub open spec fn line_of(t: Seq<char>) -> Seq<u8> {
    cp858_seq(t) + seq![0x0Au8]
}

/// The display characters of an amount: the rounded whole units, a space,
/// the currency symbol.
pub open spec fn fmt_amount_chars(a: Money, currency: Seq<char>) -> Seq<char> {
    int_chars(spec_round_units(a)) + seq![' '] + currency
}

/// The bytes `init` emits: a double reset (to clear residual state on
/// stubborn printers), code page 858, left alignment, normal size, bold off.
pub open spec fn init_seq() -> Seq<u8> {
    commands::init_bytes() + seq![0x0Au8] + commands::init_bytes() + seq![0x0Au8]
        + commands::code_page_858_bytes() + commands::align_bytes(0) + commands::size_bytes(0)
        + commands::bold_bytes(0) + seq![0x0Au8]
}

/// The alignment selector byte of an alignment.
pub open spec fn align_code(a: Align) -> u8 {
    match a {
        Align::Left => 0,
        Align::Center => 1,
        Align::Right => 2,
    }
}

/// Format an amount for display: rounded whole units, a space, the symbol.
fn fmt_amount(amount: &Money, currency: &str) -> (r: String)
    requires
        amount.valid(),
    ensures
        r@ == fmt_amount_chars(*amount, currency@),
{
    let mut s = amount.display_units();
    proof {
        reveal_strlit(" ");
        assert(" "@ =~= seq![' ']);
    }
    s.append(" ");
    s.append(currency);
    s
}

impl ReceiptBuilder {
    /// Create a new builder for the given paper width, with no bytes
    /// emitted, currency `"FCFA"` and French labels.
    pub fn new(width: PrintWidth) -> (r: Self)
        ensures
            r@.bytes == Seq::<u8>::empty(),
            r@.width == width,
            r@.currency == "FCFA"@,
            labels_of(r@.labels, Language::Fr),
    {
        ReceiptBuilder {
            data: Vec::new(),
            width,
            currency: "FCFA".to_owned(),
            labels: Language::Fr.labels(),
        }
    }

    /// Set the currency symbol used in all money formatting; everything else
    /// is untouched.
    pub fn currency(self, symbol: &str) -> (r: Self)
        ensures
            r@.bytes == self@.bytes,
            r@.width == self@.width,
            r@.labels == self@.labels,
            r@.currency == symbol@,
    {
        ReceiptBuilder { currency: symbol.to_owned(), ..self }
    }

    /// Set the language whose labels the high-level receipt methods use;
    /// everything else is untouched.
    pub fn language(self, lang: Language) -> (r: Self)
        ensures
            r@.bytes == self@.bytes,
            r@.width == self@.width,
            r@.currency == self@.currency,
            labels_of(r@.labels, lang),
    {
        ReceiptBuilder { labels: lang.labels(), ..self }
    }

    /// Consume the builder and return the raw byte stream. The builder is
    /// used up: the buffer is handed to exactly one caller.
    pub fn build(self) -> (r: Vec<u8>)
        ensures
            r@ == self@.bytes,
    {
        self.data
    }

    /// Append raw bytes.
    fn push(&mut self, bytes: &Vec<u8>)
        ensures
            final(self)@.bytes == old(self)@.bytes + bytes@,
            setup_eq(final(self)@, old(self)@),
    {
        self.data.extend_from_slice(bytes.as_slice());
    }

    /// Append a single line feed.
    fn push_lf(&mut self)
        ensures
            final(self)@.bytes == old(self)@.bytes + seq![0x0Au8],
            setup_eq(final(self)@, old(self)@),
    {
        self.data.push(0x0A);
        assert(self@.bytes =~= old(self)@.bytes + seq![0x0Au8]);
    }

    /// Append the CP858 bytes of a text, without a line feed.
    fn push_text(&mut self, text: &str)
        ensures
            final(self)@.bytes == old(self)@.bytes + cp858_seq(text@),
            setup_eq(final(self)@, old(self)@),
    {
        let encoded = encoding::encode_cp858(text);
        self.data.extend_from_slice(encoded.as_slice());
    }

    /// Append the CP858 bytes of a text followed by a line feed.
    fn push_text_line(&mut self, text: &str)
        ensures
            final(self)@.bytes == old(self)@.bytes + line_of(text@),
            setup_eq(final(self)@, old(self)@),
    {
        self.push_text(text);
        self.push_lf();
        assert(self@.bytes =~= old(self)@.bytes + line_of(text@));
    }

    /// Printable character column count of this builder's width.
    fn cols(&self) -> (r: usize)
        ensures
            r == cols_of(self@),
            r >= 32,
    {
        self.width.cols()
    }

    // ── Initialisation ────────────────────────────────────────────────────

    /// Send a full reset (twice, to clear residual state on stubborn
    /// printers) plus code page 858 and sane defaults: left alignment,
    /// normal size, bold off. Call this first.
    pub fn init(self) -> (r: Self)
        ensures
            r@.bytes == self@.bytes + init_seq(),
            setup_eq(r@, self@),
    {
        let mut b = self;
        b.push(&commands::init());
        b.push_lf();
        b.push(&commands::init());
        b.push_lf();
        b.push(&commands::code_page_858());
        b.push(&commands::align_left());
        b.push(&commands::normal_size());
        b.push(&commands::bold_off());
        b.push_lf();
        proof {
            assert(b@.bytes =~= self@.bytes + init_seq());
        }
        b
    }

    // ── Alignment ─────────────────────────────────────────────────────────

    /// Set text alignment (left, center, or right).
    pub fn align(self, a: Align) -> (r: Self)
        ensures
            r@.bytes == self@.bytes + commands::align_bytes(align_code(a)),
            setup_eq(r@, self@),
    {
        let mut b = self;
        match a {
            Align::Left => b.push(&commands::align_left()),
            Align::Center => b.push(&commands::align_center()),
            Align::Right => b.push(&commands::align_right()),
        }
        b
    }

    /// Shorthand for left alignment.
    pub fn align_left(self) -> (r: Self)
        ensures
            r@.bytes == self@.bytes + commands::align_bytes(0),
            setup_eq(r@, self@),
    {
        self.align(Align::Left)
    }

    /// Shorthand for center alignment.
    pub fn align_center(self) -> (r: Self)
        ensures
            r@.bytes == self@.bytes + commands::align_bytes(1),
            setup_eq(r@, self@),
    {
        self.align(Align::Center)
    }

    /// Shorthand for right alignment.
    pub fn align_right(self) -> (r: Self)
        ensures
            r@.bytes == self@.bytes + commands::align_bytes(2),
            setup_eq(r@, self@),
    {
        self.align(Align::Right)
    }

    // ── Text style ────────────────────────────────────────────────────────

    /// Toggle bold text.
    pub fn bold(self, on: bool) -> (r: Self)
        ensures
            r@.bytes == self@.bytes + commands::bold_bytes(if on { 1u8 } else { 0u8 }),
            setup_eq(r@, self@),
    {
        let mut b = self;
        if on {
            b.push(&commands::bold_on());
        } else {
            b.push(&commands::bold_off());
        }
        b
    }

    /// Toggle double-width and double-height text.
    pub fn double_size(self, on: bool) -> (r: Self)
        ensures
            r@.bytes == self@.bytes + commands::size_bytes(if on { 0x30u8 } else { 0u8 }),
            setup_eq(r@, self@),
    {
        let mut b = self;
        if on {
            b.push(&commands::double_size_on());
        } else {
            b.push(&commands::normal_size());
        }
        b
    }

    /// Toggle double-height text (normal width).
    pub fn double_height(self, on: bool) -> (r: Self)
        ensures
            r@.bytes == self@.bytes + commands::size_bytes(if on { 0x10u8 } else { 0u8 }),
            setup_eq(r@, self@),
    {
        let mut b = self;
        if on {
            b.push(&commands::double_height_on());
        } else {
            b.push(&commands::normal_size());
        }
        b
    }

    /// Reset text size to normal (single width and height).
    pub fn normal_size(self) -> (r: Self)
        ensures
            r@.bytes == self@.bytes + commands::size_bytes(0),
            setup_eq(r@, self@),
    {
        let mut b = self;
        b.push(&commands::normal_size());
        b
    }

    /// Toggle underline.
    pub fn underline(self, on: bool) -> (r: Self)
        ensures
            r@.bytes == self@.bytes + commands::underline_bytes(if on { 1u8 } else { 0u8 }),
            setup_eq(r@, self@),
    {
        let mut b = self;
        if on {
            b.push(&commands::underline_on());
        } else {
            b.push(&commands::underline_off());
        }
        b
    }

    // ── Text output ───────────────────────────────────────────────────────

    /// Append encoded text without a trailing line feed.
    pub fn text(self, s: &str) -> (r: Self)
        ensures
            r@.bytes == self@.bytes + cp858_seq(s@),
            setup_eq(r@, self@),
    {
        let mut b = self;
        b.push_text(s);
        b
    }

    /// Append encoded text with a trailing line feed.
    pub fn text_line(self, s: &str) -> (r: Self)
        ensures
            r@.bytes == self@.bytes + line_of(s@),
            setup_eq(r@, self@),
    {
        let mut b = self;
        b.push_text_line(s);
        b
    }

    /// Append a blank line.
    pub fn blank(self) -> (r: Self)
        ensures
            r@.bytes == self@.bytes + seq![0x0Au8],
            setup_eq(r@, self@),
    {
        let mut b = self;
        b.push_lf();
        b
    }

    /// Append a horizontal divider: the character repeated across the full
    /// column width, in its raw UTF-8 bytes, then a line feed.
    pub fn divider(self, ch: char) -> (r: Self)
        ensures
            r@.bytes == self@.bytes + divider_bytes(ch, cols_of(self@)),
            setup_eq(r@, self@),
    {
        let cols = self.cols();
        let mut b = self;
        let mut line: Vec<u8> = Vec::new();
        let mut i: usize = 0;
        while i < cols
            invariant
                i <= cols,
                line@ == vstd::utf8::encode_utf8(Seq::new(i as nat, |j: int| ch)),
            decreases cols - i,
        {
            let ghost before = Seq::new(i as nat, |j: int| ch);
            push_char_utf8(&mut line, ch);
            i = i + 1;
            proof {
                lemma_encode_utf8_push(before, ch);
                assert(before.push(ch) =~= Seq::new(i as nat, |j: int| ch));
            }
        }
        b.push(&line);
        b.push_lf();
        proof {
            assert(b@.bytes =~= self@.bytes + divider_bytes(ch, cols_of(self@)));
        }
        b
    }

    /// Append a centred text line.
    pub fn centered(self, text: &str) -> (r: Self)
        ensures
            r@.bytes == self@.bytes + line_of(spec_center(text@, cols_of(self@))),
            setup_eq(r@, self@),
    {
        let cols = self.cols();
        let s = encoding::center(text, cols);
        let mut b = self;
        b.push_text_line(s.as_str());
        b
    }

    /// Append a right-aligned text line.
    pub fn right(self, text: &str) -> (r: Self)
        ensures
            r@.bytes == self@.bytes + line_of(spec_right_align(text@, cols_of(self@))),
            setup_eq(r@, self@),
    {
        let cols = self.cols();
        let s = encoding::right_align(text, cols);
        let mut b = self;
        b.push_text_line(s.as_str());
        b
    }

    /// Append a two-column row (label left, value right).
    pub fn row(self, left: &str, right: &str) -> (r: Self)
        ensures
            r@.bytes == self@.bytes + line_of(spec_two_col(left@, right@, cols_of(self@))),
            setup_eq(r@, self@),
    {
        let cols = self.cols();
        let s = encoding::two_col(left, right, cols);
        let mut b = self;
        b.push_text_line(s.as_str());
        b
    }

    // ── Paper movement ────────────────────────────────────────────────────

    /// Feed `n` blank lines.
    pub fn feed(self, n: u8) -> (r: Self)
        ensures
            r@.bytes == self@.bytes + commands::feed_lines_bytes(n),
            setup_eq(r@, self@),
    {
        let mut b = self;
        b.push(&commands::feed_lines(n));
        b
    }

    /// Cut the paper (partial cut — safest for most printers).
    pub fn cut(self) -> (r: Self)
        ensures
            r@.bytes == self@.bytes + commands::cut_partial_bytes(),
            setup_eq(r@, self@),
    {
        let mut b = self;
        b.push(&commands::cut_partial());
        b
    }

    /// Full cut.
    pub fn cut_full(self) -> (r: Self)
        ensures
            r@.bytes == self@.bytes + commands::cut_full_bytes(),
            setup_eq(r@, self@),
    {
        let mut b = self;
        b.push(&commands::cut_full());
        b
    }

    /// Form feed (page eject — for wide-carriage / impact printers).
    pub fn form_feed(self) -> (r: Self)
        ensures
            r@.bytes == self@.bytes + commands::form_feed_bytes(),
            setup_eq(r@, self@),
    {
        let mut b = self;
        b.push(&commands::form_feed());
        b
    }

    // ── Barcodes & QR ─────────────────────────────────────────────────────

    /// Print a CODE128 barcode with the default dimensions: module width 2,
    /// height 60 dots, HRI below in font A.
    pub fn barcode_code128(self, value: &str) -> (r: Self)
        ensures
            r@.bytes == self@.bytes + code128_seq(value.spec_bytes(), 2, 60),
            setup_eq(r@, self@),
    {
        self.barcode_code128_custom(value, 2, 60)
    }

    /// Print a CODE128 barcode with custom module width (1–6) and height in
    /// dots.
    pub fn barcode_code128_custom(self, value: &str, bar_width: u8, bar_height: u8) -> (r: Self)
        ensures
            r@.bytes == self@.bytes + code128_seq(value.spec_bytes(), bar_width, bar_height),
            setup_eq(r@, self@),
    {
        let mut b = self;
        b.push(&commands::barcode_width(bar_width));
        b.push(&commands::barcode_height(bar_height));
        b.push(&commands::barcode_hri_position(2));
        b.push(&commands::barcode_hri_font(0));
        b.push(&commands::barcode_code128(value));
        b.push_lf();
        proof {
            assert(b@.bytes =~= self@.bytes + code128_seq(value.spec_bytes(), bar_width, bar_height));
        }
        b
    }

    /// Print an EAN-13 barcode. `value` must be 12 digits (a documented
    /// caller precondition, not validated here).
    pub fn barcode_ean13(self, value: &str) -> (r: Self)
        ensures
            r@.bytes == self@.bytes + ean13_seq(value.spec_bytes()),
            setup_eq(r@, self@),
    {
        let mut b = self;
        b.push(&commands::barcode_width(2));
        b.push(&commands::barcode_height(60));
        b.push(&commands::barcode_hri_position(2));
        b.push(&commands::barcode_ean13(value));
        b.push_lf();
        proof {
            assert(b@.bytes =~= self@.bytes + ean13_seq(value.spec_bytes()));
        }
        b
    }

    /// Print a QR code. `size` controls the module size (1–8).
    pub fn qr_code(self, data: &str, size: u8) -> (r: Self)
        ensures
            r@.bytes == self@.bytes + qr_seq(data.spec_bytes(), size),
            setup_eq(r@, self@),
    {
        let mut b = self;
        b.push(&commands::qr_code(data, size));
        b.push_lf();
        proof {
            assert(b@.bytes =~= self@.bytes + qr_seq(data.spec_bytes(), size));
        }
        b
    }

    // ── Cash drawer ───────────────────────────────────────────────────────

    /// Emit a cash drawer kick pulse (pin 2 then pin 5).
    pub fn open_cash_drawer(self) -> (r: Self)
        ensures
            r@.bytes == self@.bytes + commands::cash_drawer_kick_bytes(),
            setup_eq(r@, self@),
    {
        let mut b = self;
        b.push(&commands::cash_drawer_kick());
        b
    }

    // ── Logo ──────────────────────────────────────────────────────────────

    /// Append pre-rasterised image bytes directly (use when the image was
    /// converted outside the library, e.g. by the dithering pipeline).
    pub fn logo_raw(self, raster_bytes: &[u8]) -> (r: Self)
        ensures
            r@.bytes == self@.bytes + raster_bytes@ + seq![0x0Au8],
            setup_eq(r@, self@),
    {
        let mut b = self;
        b.data.extend_from_slice(raster_bytes);
        b.push_lf();
        b
    }
}

/// The bytes of a divider line: the character's UTF-8 encoding repeated
/// `cols` times (raw UTF-8, not CP858 — an inherited quirk, kept as is),
/// then a line feed.
pub open spec fn divider_bytes(ch: char, cols: nat) -> Seq<u8> {
    vstd::utf8::encode_utf8(Seq::new(cols, |j: int| ch)) + seq![0x0Au8]
}

/// The bytes of a CODE128 barcode block: module width, height, HRI below,
/// HRI font A, the barcode itself, a line feed.
pub open spec fn code128_seq(data: Seq<u8>, bar_width: u8, bar_height: u8) -> Seq<u8> {
    commands::barcode_width_bytes(bar_width) + commands::barcode_height_bytes(bar_height)
        + commands::barcode_hri_position_bytes(2) + commands::barcode_hri_font_bytes(0)
        + commands::barcode_code128_bytes(data) + seq![0x0Au8]
}

/// The bytes of a QR block: the four QR sub-frames, then a line feed.
pub open spec fn qr_seq(data: Seq<u8>, size: u8) -> Seq<u8> {
    commands::qr_code_bytes(data, size) + seq![0x0Au8]
}

/// The bytes of an EAN-13 barcode block: module width 2, height 60, HRI
/// below, the barcode itself, a line feed.
pub open spec fn ean13_seq(data: Seq<u8>) -> Seq<u8> {
    commands::barcode_width_bytes(2) + commands::barcode_height_bytes(60)
        + commands::barcode_hri_position_bytes(2) + commands::barcode_ean13_bytes(data)
        + seq![0x0Au8]
}

/// Append the UTF-8 bytes of one character, exactly as std encodes it.
fn push_char_utf8(out: &mut Vec<u8>, c: char)
    ensures
        final(out)@ == old(out)@ + vstd::utf8::encode_scalar(c as u32),
{
    let v = c as u32;
    if v < 0x80 {
        out.push((v & 0x7F) as u8);
    } else if v < 0x800 {
        out.push(0xC0u8 | (((v >> 6) & 0x1F) as u8));
        out.push(0x80u8 | ((v & 0x3F) as u8));
    } else if v < 0x10000 {
        out.push(0xE0u8 | (((v >> 12) & 0x0F) as u8));
        out.push(0x80u8 | (((v >> 6) & 0x3F) as u8));
        out.push(0x80u8 | ((v & 0x3F) as u8));
    } else {
        out.push(0xF0u8 | (((v >> 18) & 0x7) as u8));
        out.push(0x80u8 | (((v >> 12) & 0x3F) as u8));
        out.push(0x80u8 | (((v >> 6) & 0x3F) as u8));
        out.push(0x80u8 | ((v & 0x3F) as u8));
    }
    assert(out@ =~= old(out)@ + vstd::utf8::encode_scalar(c as u32));
}

/// UTF-8 encoding distributes over appending one character.
proof fn lemma_encode_utf8_push(s: Seq<char>, c: char)
    ensures
        vstd::utf8::encode_utf8(s.push(c)) == vstd::utf8::encode_utf8(s)
            + vstd::utf8::encode_scalar(c as u32),
    decreases s.len(),
{
    if s.len() == 0 {
        let sc = s.push(c);
        assert(sc.len() == 1 && sc[0] == c);
        assert(sc.drop_first() =~= Seq::<char>::empty());
        assert(vstd::utf8::encode_utf8(sc) == vstd::utf8::encode_scalar(c as u32)
            + vstd::utf8::encode_utf8(Seq::<char>::empty()));
        assert(vstd::utf8::encode_utf8(Seq::<char>::empty()) =~= Seq::<u8>::empty());
        assert(s =~= Seq::<char>::empty());
        assert(vstd::utf8::encode_utf8(sc) =~= vstd::utf8::encode_scalar(c as u32)
            + vstd::utf8::encode_utf8(s));
    } else {
        lemma_encode_utf8_push(s.drop_first(), c);
        assert(s.push(c).drop_first() =~= s.drop_first().push(c));
        assert(vstd::utf8::encode_utf8(s.push(c)) =~= vstd::utf8::encode_scalar(s[0] as u32)
            + vstd::utf8::encode_utf8(s.drop_first().push(c)));
        assert(vstd::utf8::encode_utf8(s.push(c)) =~= vstd::utf8::encode_utf8(s)
            + vstd::utf8::encode_scalar(c as u32));
    }
}


// ── Composite receipt bytes, as spec functions ────────────────────────────

/// A run of `n` dash characters.
pub open spec fn dashes(n: nat) -> Seq<char> {
    Seq::new(n, |i: int| '-')
}

/// The bytes of a shop header block: centred, the name bold and double
/// size, the phone and address in normal weight, then back to left
/// alignment.
pub open spec fn shop_header_seq(
    name: Seq<char>,
    phone: Seq<char>,
    address: Seq<char>,
) -> Seq<u8> {
    commands::align_bytes(1) + commands::bold_bytes(1) + commands::size_bytes(0x30) + line_of(name)
        + commands::bold_bytes(0) + commands::size_bytes(0) + line_of(phone) + line_of(address)
        + commands::align_bytes(0)
}

/// The bytes of one line item: the name bold and truncated to two short of
/// the width, a quantity line `qty x unit price`, then either a single
/// right-aligned line total, or — when a strictly positive discount is given
/// — the original total, a discount line, and the bold discounted total;
/// one trailing blank line either way. A discount of zero or less renders
/// exactly as no discount.
pub open spec fn item_seq(
    name: Seq<char>,
    qty: int,
    unit_price: Money,
    discount: Option<Money>,
    cols: nat,
    cur: Seq<char>,
    disc_lbl: Seq<char>,
) -> Seq<u8> {
    let line_total = spec_times_int(unit_price, qty);
    let head = commands::bold_bytes(1) + line_of(spec_truncate(name, (cols - 2) as nat))
        + commands::bold_bytes(0);
    let qty_line = line_of(int_chars(qty) + " x "@ + fmt_amount_chars(unit_price, cur));
    let tail = if discount matches Some(d) && d.mantissa > 0 {
        line_of(spec_right_align(fmt_amount_chars(line_total, cur), cols)) + line_of(
            "  "@ + disc_lbl + " -"@ + fmt_amount_chars(discount->0, cur),
        ) + commands::bold_bytes(1) + line_of(
            spec_right_align(fmt_amount_chars(spec_sub(line_total, discount->0), cur), cols),
        ) + commands::bold_bytes(0)
    } else {
        line_of(spec_right_align(fmt_amount_chars(line_total, cur), cols))
    };
    head + qty_line + tail + seq![0x0Au8]
}

/// The bytes of the subtotal block: a two-column row with the subtotal
/// label, then the right-aligned excluding-tax note.
pub open spec fn subtotal_seq(
    amount: Money,
    cols: nat,
    cur: Seq<char>,
    lbl: Seq<char>,
    note: Seq<char>,
) -> Seq<u8> {
    line_of(spec_two_col(lbl, fmt_amount_chars(amount, cur), cols)) + line_of(
        spec_right_align(note, cols),
    )
}

/// The bytes of a receipt-level discount row: nothing at all when the
/// amount is zero or less, else a two-column row whose label carries the
/// coupon code when one is given and whose value is the negated amount.
pub open spec fn discount_seq(
    amount: Money,
    coupon: Option<Seq<char>>,
    cols: nat,
    cur: Seq<char>,
    lbl: Seq<char>,
) -> Seq<u8> {
    if amount.mantissa <= 0 {
        Seq::<u8>::empty()
    } else {
        let label = match coupon {
            Some(c) => lbl + " ("@ + c + ")"@,
            None => lbl,
        };
        line_of(spec_two_col(label, "-"@ + fmt_amount_chars(amount, cur), cols))
    }
}

/// The sum of the non-included tax amounts, added left to right.
pub open spec fn tax_additional(entries: Seq<TaxView>) -> Money
    decreases entries.len(),
{
    if entries.len() == 0 {
        Money { mantissa: 0, scale: 0 }
    } else {
        let rest = tax_additional(entries.drop_last());
        if entries.last().included {
            rest
        } else {
            spec_add(rest, entries.last().amount)
        }
    }
}

/// The bytes of one tax row: skipped entirely when the amount is zero or
/// less; an included tax shows the included note after its label and a
/// plain amount; a non-included tax shows a `+`-prefixed amount.
pub open spec fn tax_entry_line(e: TaxView, cols: nat, cur: Seq<char>, incl: Seq<char>) -> Seq<
    u8,
> {
    if e.amount.mantissa <= 0 {
        Seq::<u8>::empty()
    } else {
        let label = if e.included {
            "  "@ + e.label + " ("@ + incl + ")"@
        } else {
            "  "@ + e.label
        };
        let value = if e.included {
            fmt_amount_chars(e.amount, cur)
        } else {
            "+ "@ + fmt_amount_chars(e.amount, cur)
        };
        line_of(spec_two_col(label, value, cols))
    }
}

/// The tax rows of a list of entries, in order.
pub open spec fn tax_lines(entries: Seq<TaxView>, cols: nat, cur: Seq<char>, incl: Seq<char>) -> Seq<u8>
    decreases entries.len(),
{
    if entries.len() == 0 {
        Seq::<u8>::empty()
    } else {
        tax_lines(entries.drop_last(), cols, cur, incl) + tax_entry_line(
            entries.last(),
            cols,
            cur,
            incl,
        )
    }
}

/// The bytes of the whole tax block: the header, one row per positive
/// entry, and — exactly when the non-included amounts sum to something
/// positive — a separator and one synthesized additional-taxes row carrying
/// that sum.
pub open spec fn taxes_seq(entries: Seq<TaxView>, cols: nat, cur: Seq<char>, labels: LabelsView) -> Seq<u8> {
    let add = tax_additional(entries);
    line_of(labels.tax_details) + tax_lines(entries, cols, cur, labels.tax_included) + if add.mantissa
        > 0 {
        line_of("  "@ + dashes((cols - 2) as nat)) + line_of(
            spec_two_col("  "@ + labels.additional_taxes, "+ "@ + fmt_amount_chars(add, cur), cols),
        )
    } else {
        Seq::<u8>::empty()
    }
}

/// The bytes of the grand total row: bold and double height for exactly
/// this row, then both restored.
pub open spec fn total_seq(amount: Money, cols: nat, cur: Seq<char>, lbl: Seq<char>) -> Seq<u8> {
    commands::bold_bytes(1) + commands::size_bytes(0x10) + line_of(
        spec_two_col(lbl, fmt_amount_chars(amount, cur), cols),
    ) + commands::size_bytes(0) + commands::bold_bytes(0)
}

/// The bytes of an amount row that is a no-op when the amount is zero or
/// less (used for the received and change rows).
pub open spec fn amount_row_seq(amount: Money, cols: nat, cur: Seq<char>, lbl: Seq<char>) -> Seq<u8> {
    if amount.mantissa <= 0 {
        Seq::<u8>::empty()
    } else {
        line_of(spec_two_col(lbl, fmt_amount_chars(amount, cur), cols))
    }
}

/// The bytes of the thank-you footer: centred thank-you line, a see-you
/// line naming the shop, then back to left alignment.
pub open spec fn thank_you_seq(shop: Seq<char>, thanks: Seq<char>, see_you: Seq<char>) -> Seq<u8> {
    commands::align_bytes(1) + line_of(thanks) + line_of(see_you + " "@ + shop)
        + commands::align_bytes(0)
}


/// Build a string of `n` dashes.
fn dashes_str(n: usize) -> (r: String)
    ensures
        r@ == dashes(n as nat),
{
    let mut r = String::new();
    let mut i: usize = 0;
    while i < n
        invariant
            i <= n,
            r@.len() == i,
            forall|j: int| 0 <= j < i ==> r@[j] == '-',
        decreases n - i,
    {
        proof {
            reveal_strlit("-");
        }
        r.append("-");
        i = i + 1;
    }
    assert(r@ =~= dashes(n as nat));
    r
}

impl ReceiptBuilder {
    // ── High-level receipt helpers ────────────────────────────────────────

    /// Print a shop header block (name, phone, address), centred, the name
    /// bold and double size, then restore left alignment and normal weight.
    pub fn shop_header(self, name: &str, phone: &str, address: &str) -> (r: Self)
        ensures
            r@.bytes == self@.bytes + shop_header_seq(name@, phone@, address@),
            setup_eq(r@, self@),
    {
        let r = self.align_center()
            .bold(true)
            .double_size(true)
            .text_line(name)
            .bold(false)
            .normal_size()
            .text_line(phone)
            .text_line(address)
            .align_left();
        proof {
            assert(r@.bytes =~= self@.bytes + shop_header_seq(name@, phone@, address@));
        }
        r
    }

    /// Print a single line item: name, quantity, unit price, line total.
    ///
    /// The line total is the exact decimal product of the unit price and the
    /// quantity. When `discount` is present and strictly positive, the
    /// original total, the discount, and the bold price after discount are
    /// shown; a discount of zero or less renders byte-identically to no
    /// discount at all.
    #[verifier::rlimit(100)]
    #[verifier::spinoff_prover]
    pub fn item(self, name: &str, qty: i32, unit_price: Money, discount: Option<Money>) -> (r: Self)
        requires
            unit_price.valid(),
            discount matches Some(d) ==> d.valid(),
        ensures
            r@.bytes == self@.bytes + item_seq(
                name@,
                qty as int,
                unit_price,
                discount,
                cols_of(self@),
                self@.currency,
                self@.labels.item_discount,
            ),
            setup_eq(r@, self@),
    {
        let cols = self.cols();
        let line_total = unit_price.times_int(qty);

        let mut b = self.bold(true);
        let tname = encoding::truncate(name, cols - 2);
        b.push_text_line(tname.as_str());
        let mut b = b.bold(false);

        let mut qty_line = int_to_string(qty as i128);
        qty_line.append(" x ");
        let up_str = fmt_amount(&unit_price, b.currency.as_str());
        qty_line.append(up_str.as_str());
        b.push_text_line(qty_line.as_str());

        let disc_pos = match &discount {
            Some(d) => d.is_positive(),
            None => false,
        };
        if disc_pos {
            let d = match discount {
                Some(d) => d,
                None => Money::zero(),
            };
            let original = fmt_amount(&line_total, b.currency.as_str());
            let orig_line = encoding::right_align(original.as_str(), cols);
            b.push_text_line(orig_line.as_str());

            let mut disc_line = "  ".to_owned();
            let lbl = b.labels.item_discount.clone();
            disc_line.append(lbl.as_str());
            disc_line.append(" -");
            let fd = fmt_amount(&d, b.currency.as_str());
            disc_line.append(fd.as_str());
            b.push_text_line(disc_line.as_str());

            let after = line_total.minus(&d);
            let after_str = fmt_amount(&after, b.currency.as_str());
            let mut b2 = b.bold(true);
            let final_line = encoding::right_align(after_str.as_str(), cols);
            b2.push_text_line(final_line.as_str());
            let mut b3 = b2.bold(false);
            b3.push_lf();
            proof {
                assert(b3@.bytes =~= self@.bytes + item_seq(
                    name@,
                    qty as int,
                    unit_price,
                    discount,
                    cols_of(self@),
                    self@.currency,
                    self@.labels.item_discount,
                ));
            }
            b3
        } else {
            let total_str = fmt_amount(&line_total, b.currency.as_str());
            let total_line = encoding::right_align(total_str.as_str(), cols);
            b.push_text_line(total_line.as_str());
            b.push_lf();
            proof {
                assert(b@.bytes =~= self@.bytes + item_seq(
                    name@,
                    qty as int,
                    unit_price,
                    discount,
                    cols_of(self@),
                    self@.currency,
                    self@.labels.item_discount,
                ));
            }
            b
        }
    }

    /// Print the subtotal (excluding tax) block: the labelled amount row and
    /// the right-aligned excluding-tax note.
    pub fn subtotal_ht(self, amount: Money) -> (r: Self)
        requires
            amount.valid(),
        ensures
            r@.bytes == self@.bytes + subtotal_seq(
                amount,
                cols_of(self@),
                self@.currency,
                self@.labels.subtotal_ht,
                self@.labels.excl_tax_note,
            ),
            setup_eq(r@, self@),
    {
        let cols = self.cols();
        let mut b = self;
        let value = fmt_amount(&amount, b.currency.as_str());
        let lbl = b.labels.subtotal_ht.clone();
        let row = encoding::two_col(lbl.as_str(), value.as_str(), cols);
        b.push_text_line(row.as_str());
        let note = b.labels.excl_tax_note.clone();
        let note_line = encoding::right_align(note.as_str(), cols);
        b.push_text_line(note_line.as_str());
        proof {
            assert(b@.bytes =~= self@.bytes + subtotal_seq(
                amount,
                cols_of(self@),
                self@.currency,
                self@.labels.subtotal_ht,
                self@.labels.excl_tax_note,
            ));
        }
        b
    }

    /// Print a discount row, optionally naming a coupon code. An amount of
    /// zero or less is an unconditional no-op, so the call can always be
    /// made.
    pub fn discount(self, amount: Money, coupon_code: Option<&str>) -> (r: Self)
        requires
            amount.valid(),
        ensures
            r@.bytes == self@.bytes + discount_seq(
                amount,
                match coupon_code {
                    Some(c) => Some(c@),
                    None => None,
                },
                cols_of(self@),
                self@.currency,
                self@.labels.discount,
            ),
            setup_eq(r@, self@),
    {
        if !amount.is_positive() {
            return self;
        }
        let cols = self.cols();
        let mut b = self;
        let mut label = b.labels.discount.clone();
        match coupon_code {
            Some(code) => {
                label.append(" (");
                label.append(code);
                label.append(")");
            },
            None => {},
        }
        let mut value = "-".to_owned();
        let fa = fmt_amount(&amount, b.currency.as_str());
        value.append(fa.as_str());
        let row = encoding::two_col(label.as_str(), value.as_str(), cols);
        b.push_text_line(row.as_str());
        proof {
            assert(b@.bytes =~= self@.bytes + discount_seq(
                amount,
                match coupon_code {
                    Some(c) => Some(c@),
                    None => None,
                },
                cols_of(self@),
                self@.currency,
                self@.labels.discount,
            ));
        }
        b
    }

    /// Print the tax block: a header, one row per entry with a positive
    /// amount (included taxes show the included note, non-included ones a
    /// `+`-prefixed amount), and — exactly when the non-included amounts sum
    /// to something positive — a separator and one synthesized
    /// additional-taxes row with that sum.
    /// Append one tax row (or nothing, for a non-positive amount).
    fn push_tax_entry(&mut self, entry: &TaxEntry, cols: usize)
        requires
            entry.amount.valid(),
            cols == cols_of(old(self)@),
        ensures
            final(self)@.bytes == old(self)@.bytes + tax_entry_line(
                entry@,
                cols_of(old(self)@),
                old(self)@.currency,
                old(self)@.labels.tax_included,
            ),
            setup_eq(final(self)@, old(self)@),
    {
        if entry.amount.is_positive() {
            let mut label = "  ".to_owned();
            label.append(entry.label.as_str());
            if entry.included {
                label.append(" (");
                let incl = self.labels.tax_included.clone();
                label.append(incl.as_str());
                label.append(")");
            }
            let fa = fmt_amount(&entry.amount, self.currency.as_str());
            let value = if entry.included {
                fa
            } else {
                let mut v = "+ ".to_owned();
                v.append(fa.as_str());
                v
            };
            let row = encoding::two_col(label.as_str(), value.as_str(), cols);
            self.push_text_line(row.as_str());
            assert(self@.bytes =~= old(self)@.bytes + tax_entry_line(
                entry@,
                cols_of(old(self)@),
                old(self)@.currency,
                old(self)@.labels.tax_included,
            ));
        } else {
            assert(self@.bytes =~= old(self)@.bytes + tax_entry_line(
                entry@,
                cols_of(old(self)@),
                old(self)@.currency,
                old(self)@.labels.tax_included,
            ));
        }
    }

    /// Append the separator and the synthesized additional-taxes row.
    fn push_additional_taxes(&mut self, additional: &Money, cols: usize)
        requires
            additional.valid(),
            cols == cols_of(old(self)@),
            cols >= 2,
        ensures
            final(self)@.bytes == old(self)@.bytes + line_of(
                "  "@ + dashes((cols_of(old(self)@) - 2) as nat),
            ) + line_of(
                spec_two_col(
                    "  "@ + old(self)@.labels.additional_taxes,
                    "+ "@ + fmt_amount_chars(*additional, old(self)@.currency),
                    cols_of(old(self)@),
                ),
            ),
            setup_eq(final(self)@, old(self)@),
    {
        let sep = dashes_str(cols - 2);
        let mut sep_line = "  ".to_owned();
        sep_line.append(sep.as_str());
        self.push_text_line(sep_line.as_str());
        let mut label = "  ".to_owned();
        let add_lbl = self.labels.additional_taxes.clone();
        label.append(add_lbl.as_str());
        let mut value = "+ ".to_owned();
        let fa = fmt_amount(additional, self.currency.as_str());
        value.append(fa.as_str());
        let row = encoding::two_col(label.as_str(), value.as_str(), cols);
        self.push_text_line(row.as_str());
        assert(self@.bytes =~= old(self)@.bytes + line_of(
            "  "@ + dashes((cols_of(old(self)@) - 2) as nat),
        ) + line_of(
            spec_two_col(
                "  "@ + old(self)@.labels.additional_taxes,
                "+ "@ + fmt_amount_chars(*additional, old(self)@.currency),
                cols_of(old(self)@),
            ),
        ));
    }

    pub fn taxes(self, entries: &[TaxEntry]) -> (r: Self)
        requires
            forall|i: int| 0 <= i < entries@.len() ==> (#[trigger] entries@[i].amount).valid(),
        ensures
            r@.bytes == self@.bytes + taxes_seq(
                tax_views(entries@),
                cols_of(self@),
                self@.currency,
                self@.labels,
            ),
            setup_eq(r@, self@),
    {
        let cols = self.cols();
        let n = entries.len();

        let mut additional = Money::zero();
        let mut i: usize = 0;
        while i < n
            invariant
                i <= n,
                n == entries@.len(),
                forall|j: int| 0 <= j < entries@.len() ==> (#[trigger] entries@[j].amount).valid(),
                additional.valid(),
                additional == tax_additional(tax_views(entries@).take(i as int)),
            decreases n - i,
        {
            let ghost prefix = tax_views(entries@).take(i as int);
            if !entries[i].included {
                additional = additional.plus(&entries[i].amount);
            }
            i = i + 1;
            proof {
                assert(tax_views(entries@).take(i as int).drop_last() =~= prefix);
                assert(tax_views(entries@).take(i as int).last() == entries@[i - 1]@);
            }
        }
        proof {
            assert(tax_views(entries@).take(n as int) =~= tax_views(entries@));
        }

        let mut b = self;
        let hdr = b.labels.tax_details.clone();
        b.push_text_line(hdr.as_str());

        let mut i: usize = 0;
        while i < n
            invariant
                i <= n,
                n == entries@.len(),
                forall|j: int| 0 <= j < entries@.len() ==> (#[trigger] entries@[j].amount).valid(),
                b@.bytes == self@.bytes + line_of(self@.labels.tax_details) + tax_lines(
                    tax_views(entries@).take(i as int),
                    cols_of(self@),
                    self@.currency,
                    self@.labels.tax_included,
                ),
                setup_eq(b@, self@),
                cols == cols_of(self@),
            decreases n - i,
        {
            let ghost prefix = tax_views(entries@).take(i as int);
            b.push_tax_entry(&entries[i], cols);
            i = i + 1;
            proof {
                assert(tax_views(entries@).take(i as int).drop_last() =~= prefix);
                assert(tax_views(entries@).take(i as int).last() == entries@[i - 1]@);
                assert(b@.bytes =~= self@.bytes + line_of(self@.labels.tax_details) + tax_lines(
                    tax_views(entries@).take(i as int),
                    cols_of(self@),
                    self@.currency,
                    self@.labels.tax_included,
                ));
            }
        }

        if additional.is_positive() {
            b.push_additional_taxes(&additional, cols);
        }
        proof {
            assert(b@.bytes =~= self@.bytes + taxes_seq(
                tax_views(entries@),
                cols_of(self@),
                self@.currency,
                self@.labels,
            ));
        }
        b
    }

    /// Print the grand total row, bold and double height for exactly this
    /// row, both restored afterwards.
    pub fn total(self, amount: Money) -> (r: Self)
        requires
            amount.valid(),
        ensures
            r@.bytes == self@.bytes + total_seq(
                amount,
                cols_of(self@),
                self@.currency,
                self@.labels.total,
            ),
            setup_eq(r@, self@),
    {
        let cols = self.cols();
        let value = fmt_amount(&amount, self.currency.as_str());
        let lbl = self.labels.total.clone();
        let row = encoding::two_col(lbl.as_str(), value.as_str(), cols);
        let mut b = self.bold(true).double_height(true);
        b.push_text_line(row.as_str());
        let r = b.normal_size().bold(false);
        proof {
            assert(r@.bytes =~= self@.bytes + total_seq(
                amount,
                cols_of(self@),
                self@.currency,
                self@.labels.total,
            ));
        }
        r
    }

    /// Print the amount received from the customer. An amount of zero or
    /// less is an unconditional no-op.
    pub fn received(self, amount: Money) -> (r: Self)
        requires
            amount.valid(),
        ensures
            r@.bytes == self@.bytes + amount_row_seq(
                amount,
                cols_of(self@),
                self@.currency,
                self@.labels.received,
            ),
            setup_eq(r@, self@),
    {
        if !amount.is_positive() {
            return self;
        }
        let cols = self.cols();
        let mut b = self;
        let value = fmt_amount(&amount, b.currency.as_str());
        let lbl = b.labels.received.clone();
        let row = encoding::two_col(lbl.as_str(), value.as_str(), cols);
        b.push_text_line(row.as_str());
        b
    }

    /// Print the change to return to the customer. An amount of zero or
    /// less is an unconditional no-op.
    pub fn change(self, amount: Money) -> (r: Self)
        requires
            amount.valid(),
        ensures
            r@.bytes == self@.bytes + amount_row_seq(
                amount,
                cols_of(self@),
                self@.currency,
                self@.labels.change,
            ),
            setup_eq(r@, self@),
    {
        if !amount.is_positive() {
            return self;
        }
        let cols = self.cols();
        let mut b = self;
        let value = fmt_amount(&amount, b.currency.as_str());
        let lbl = b.labels.change.clone();
        let row = encoding::two_col(lbl.as_str(), value.as_str(), cols);
        b.push_text_line(row.as_str());
        b
    }

    /// Print a served-by footer line.
    pub fn served_by(self, name: &str) -> (r: Self)
        ensures
            r@.bytes == self@.bytes + line_of(self@.labels.served_by + " "@ + name@),
            setup_eq(r@, self@),
    {
        let mut b = self;
        let mut line = b.labels.served_by.clone();
        line.append(" ");
        line.append(name);
        b.push_text_line(line.as_str());
        b
    }

    /// Print a thank-you footer centred on the page, then restore left
    /// alignment.
    pub fn thank_you(self, shop_name: &str) -> (r: Self)
        ensures
            r@.bytes == self@.bytes + thank_you_seq(
                shop_name@,
                self@.labels.thank_you,
                self@.labels.see_you_at,
            ),
            setup_eq(r@, self@),
    {
        let thanks = self.labels.thank_you.clone();
        let mut line = self.labels.see_you_at.clone();
        line.append(" ");
        line.append(shop_name);
        let r = self.align_center().text_line(thanks.as_str()).text_line(line.as_str()).align_left();
        proof {
            assert(r@.bytes =~= self@.bytes + thank_you_seq(
                shop_name@,
                self@.labels.thank_you,
                self@.labels.see_you_at,
            ));
        }
        r
    }
}

} // verus!
