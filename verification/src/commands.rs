//! Raw ESC/GS command byte sequences for the printer protocol.
//!
//! Every function here is pure and total on its stated domain: it returns the
//! exact bytes of one protocol instruction, pinned down by its `ensures`
//! against a spec function of the same name.

use vstd::prelude::*;
use vstd::string::StrSliceExecFns;
use vstd::string::StringSliceAdditionalSpecFns;

verus! {

/// ESC byte (`0x1B`).
pub const ESC: u8 = 0x1B;
/// GS byte (`0x1D`).
pub const GS: u8 = 0x1D;
/// Line feed byte (`0x0A`).
pub const LF: u8 = 0x0A;
/// Form feed byte (`0x0C`) — page eject on wide-carriage printers.
pub const FF: u8 = 0x0C;

// ── Initialisation ────────────────────────────────────────────────────────

/// Bytes of `ESC @` — full printer reset.
pub open spec fn init_bytes() -> Seq<u8> {
    seq![0x1Bu8, 0x40u8]
}

/// `ESC @` — full printer reset.
pub fn init() -> (r: Vec<u8>)
    ensures
        r@ == init_bytes(),
{
    let r: Vec<u8> = vec![ESC, 0x40];
    assert(r@ =~= init_bytes());
    r
}

/// Bytes of `ESC t 19` — select code page 858 (Western European + Euro).
pub open spec fn code_page_858_bytes() -> Seq<u8> {
    seq![0x1Bu8, 0x74u8, 19u8]
}

/// Select code page 858 (Western European + Euro): `ESC t 19`.
pub fn code_page_858() -> (r: Vec<u8>)
    ensures
        r@ == code_page_858_bytes(),
{
    let r: Vec<u8> = vec![ESC, 0x74, 19];
    assert(r@ =~= code_page_858_bytes());
    r
}

// ── Alignment ─────────────────────────────────────────────────────────────

/// Bytes of `ESC a n` — alignment selector (0 left, 1 center, 2 right).
pub open spec fn align_bytes(n: u8) -> Seq<u8> {
    seq![0x1Bu8, 0x61u8, n]
}

/// `ESC a 0` — left alignment.
pub fn align_left() -> (r: Vec<u8>)
    ensures
        r@ == align_bytes(0),
{
    let r: Vec<u8> = vec![ESC, 0x61, 0];
    assert(r@ =~= align_bytes(0));
    r
}

/// `ESC a 1` — center alignment.
pub fn align_center() -> (r: Vec<u8>)
    ensures
        r@ == align_bytes(1),
{
    let r: Vec<u8> = vec![ESC, 0x61, 1];
    assert(r@ =~= align_bytes(1));
    r
}

/// `ESC a 2` — right alignment.
pub fn align_right() -> (r: Vec<u8>)
    ensures
        r@ == align_bytes(2),
{
    let r: Vec<u8> = vec![ESC, 0x61, 2];
    assert(r@ =~= align_bytes(2));
    r
}

// ── Text style ────────────────────────────────────────────────────────────

/// Bytes of `ESC E n` — bold toggle (1 on, 0 off).
pub open spec fn bold_bytes(n: u8) -> Seq<u8> {
    seq![0x1Bu8, 0x45u8, n]
}

/// `ESC E 1` — bold on.
pub fn bold_on() -> (r: Vec<u8>)
    ensures
        r@ == bold_bytes(1),
{
    let r: Vec<u8> = vec![ESC, 0x45, 1];
    assert(r@ =~= bold_bytes(1));
    r
}

/// `ESC E 0` — bold off.
pub fn bold_off() -> (r: Vec<u8>)
    ensures
        r@ == bold_bytes(0),
{
    let r: Vec<u8> = vec![ESC, 0x45, 0];
    assert(r@ =~= bold_bytes(0));
    r
}

/// Bytes of `ESC ! n` — character size selector.
pub open spec fn size_bytes(n: u8) -> Seq<u8> {
    seq![0x1Bu8, 0x21u8, n]
}

/// `ESC ! 0x10` — double height only.
pub fn double_height_on() -> (r: Vec<u8>)
    ensures
        r@ == size_bytes(0x10),
{
    let r: Vec<u8> = vec![ESC, 0x21, 0x10];
    assert(r@ =~= size_bytes(0x10));
    r
}

/// `ESC ! 0x20` — double width only.
pub fn double_width_on() -> (r: Vec<u8>)
    ensures
        r@ == size_bytes(0x20),
{
    let r: Vec<u8> = vec![ESC, 0x21, 0x20];
    assert(r@ =~= size_bytes(0x20));
    r
}

/// `ESC ! 0x30` — double height + double width.
pub fn double_size_on() -> (r: Vec<u8>)
    ensures
        r@ == size_bytes(0x30),
{
    let r: Vec<u8> = vec![ESC, 0x21, 0x30];
    assert(r@ =~= size_bytes(0x30));
    r
}

/// `ESC ! 0x00` — normal (single) size.
pub fn normal_size() -> (r: Vec<u8>)
    ensures
        r@ == size_bytes(0),
{
    let r: Vec<u8> = vec![ESC, 0x21, 0x00];
    assert(r@ =~= size_bytes(0));
    r
}

/// Bytes of `ESC - n` — underline toggle (1 on, 0 off).
pub open spec fn underline_bytes(n: u8) -> Seq<u8> {
    seq![0x1Bu8, 0x2Du8, n]
}

/// Underline off: `ESC - 0`.
pub fn underline_off() -> (r: Vec<u8>)
    ensures
        r@ == underline_bytes(0),
{
    let r: Vec<u8> = vec![ESC, 0x2D, 0];
    assert(r@ =~= underline_bytes(0));
    r
}

/// Single underline: `ESC - 1`.
pub fn underline_on() -> (r: Vec<u8>)
    ensures
        r@ == underline_bytes(1),
{
    let r: Vec<u8> = vec![ESC, 0x2D, 1];
    assert(r@ =~= underline_bytes(1));
    r
}

// ── Line feed & paper movement ────────────────────────────────────────────

/// Bytes of `ESC d n` — advance `n` lines.
pub open spec fn feed_lines_bytes(n: u8) -> Seq<u8> {
    seq![0x1Bu8, 0x64u8, n]
}

/// Advance `n` lines: `ESC d n`.
pub fn feed_lines(n: u8) -> (r: Vec<u8>)
    ensures
        r@ == feed_lines_bytes(n),
{
    let r: Vec<u8> = vec![ESC, 0x64, n];
    assert(r@ =~= feed_lines_bytes(n));
    r
}

/// Bytes of a single line feed.
pub open spec fn lf_bytes() -> Seq<u8> {
    seq![0x0Au8]
}

/// Single line feed.
pub fn lf() -> (r: Vec<u8>)
    ensures
        r@ == lf_bytes(),
{
    let r: Vec<u8> = vec![LF];
    assert(r@ =~= lf_bytes());
    r
}

/// Bytes of a form feed.
pub open spec fn form_feed_bytes() -> Seq<u8> {
    seq![0x0Cu8]
}

/// Form feed — ejects the page on wide-carriage / impact printers.
pub fn form_feed() -> (r: Vec<u8>)
    ensures
        r@ == form_feed_bytes(),
{
    let r: Vec<u8> = vec![FF];
    assert(r@ =~= form_feed_bytes());
    r
}

// ── Paper cut ─────────────────────────────────────────────────────────────

/// Bytes of `GS V 0` — full cut.
pub open spec fn cut_full_bytes() -> Seq<u8> {
    seq![0x1Du8, 0x56u8, 0u8]
}

/// Full cut with feed: `GS V 0`.
pub fn cut_full() -> (r: Vec<u8>)
    ensures
        r@ == cut_full_bytes(),
{
    let r: Vec<u8> = vec![GS, 0x56, 0];
    assert(r@ =~= cut_full_bytes());
    r
}

/// Bytes of `GS V 66 0` — partial cut.
pub open spec fn cut_partial_bytes() -> Seq<u8> {
    seq![0x1Du8, 0x56u8, 66u8, 0u8]
}

/// Partial cut with feed: `GS V 66 0`.
pub fn cut_partial() -> (r: Vec<u8>)
    ensures
        r@ == cut_partial_bytes(),
{
    let r: Vec<u8> = vec![GS, 0x56, 66, 0];
    assert(r@ =~= cut_partial_bytes());
    r
}

// ── Barcodes ──────────────────────────────────────────────────────────────

/// Bytes of `GS H pos` — HRI text position.
pub open spec fn barcode_hri_position_bytes(pos: u8) -> Seq<u8> {
    seq![0x1Du8, 0x48u8, pos]
}

/// Set HRI (human readable interpretation) position:
/// 0 = none, 1 = above, 2 = below, 3 = both.
pub fn barcode_hri_position(pos: u8) -> (r: Vec<u8>)
    ensures
        r@ == barcode_hri_position_bytes(pos),
{
    let r: Vec<u8> = vec![GS, 0x48, pos];
    assert(r@ =~= barcode_hri_position_bytes(pos));
    r
}

/// Bytes of `GS f font` — HRI font.
pub open spec fn barcode_hri_font_bytes(font: u8) -> Seq<u8> {
    seq![0x1Du8, 0x66u8, font]
}

/// Set HRI font: 0 = font A (default), 1 = font B.
pub fn barcode_hri_font(font: u8) -> (r: Vec<u8>)
    ensures
        r@ == barcode_hri_font_bytes(font),
{
    let r: Vec<u8> = vec![GS, 0x66, font];
    assert(r@ =~= barcode_hri_font_bytes(font));
    r
}

/// Bytes of `GS h dots` — barcode height.
pub open spec fn barcode_height_bytes(dots: u8) -> Seq<u8> {
    seq![0x1Du8, 0x68u8, dots]
}

/// Set barcode height in dots (default 162).
pub fn barcode_height(dots: u8) -> (r: Vec<u8>)
    ensures
        r@ == barcode_height_bytes(dots),
{
    let r: Vec<u8> = vec![GS, 0x68, dots];
    assert(r@ =~= barcode_height_bytes(dots));
    r
}

/// Bytes of `GS w width` — barcode module width.
pub open spec fn barcode_width_bytes(width: u8) -> Seq<u8> {
    seq![0x1Du8, 0x77u8, width]
}

/// Set barcode module width (1–6, default 3).
pub fn barcode_width(width: u8) -> (r: Vec<u8>)
    ensures
        r@ == barcode_width_bytes(width),
{
    let r: Vec<u8> = vec![GS, 0x77, width];
    assert(r@ =~= barcode_width_bytes(width));
    r
}

/// Bytes of `GS k 73 len data` — CODE128 barcode over the UTF-8 bytes of the
/// value, length-prefixed with a single byte (the length wraps modulo 256
/// for over-long values, which the printer rejects).
pub open spec fn barcode_code128_bytes(data: Seq<u8>) -> Seq<u8> {
    seq![0x1Du8, 0x6Bu8, 73u8, (data.len() % 256) as u8] + data
}

/// Print a CODE128 barcode (`GS k 73 len data`).
///
/// CODE128 supports full ASCII including hyphens — ideal for order numbers.
/// The one-byte length prefix limits the value to 255 bytes; keeping within
/// that limit is a documented caller precondition, not validated here.
pub fn barcode_code128(value: &str) -> (r: Vec<u8>)
    ensures
        r@ == barcode_code128_bytes(value.spec_bytes()),
{
    let bytes = value.as_bytes_vec();
    let len_byte: u8 = (bytes.len() % 256) as u8;
    let mut r: Vec<u8> = vec![GS, 0x6B, 73, len_byte];
    r.extend_from_slice(bytes.as_slice());
    assert(r@ =~= barcode_code128_bytes(value.spec_bytes()));
    r
}

/// Bytes of `GS k 2 data 0` — EAN-13 barcode, null-terminated.
pub open spec fn barcode_ean13_bytes(data: Seq<u8>) -> Seq<u8> {
    seq![0x1Du8, 0x6Bu8, 2u8] + data + seq![0u8]
}

/// Print an EAN-13 barcode. `value` must be exactly 12 ASCII digits
/// (the check digit is added by the printer); that is a documented caller
/// precondition, not validated here — the printer ignores malformed data.
pub fn barcode_ean13(value: &str) -> (r: Vec<u8>)
    ensures
        r@ == barcode_ean13_bytes(value.spec_bytes()),
{
    let mut r: Vec<u8> = vec![GS, 0x6B, 2];
    let bytes = value.as_bytes_vec();
    r.extend_from_slice(bytes.as_slice());
    r.push(0);
    assert(r@ =~= barcode_ean13_bytes(value.spec_bytes()));
    r
}

// ── QR code ───────────────────────────────────────────────────────────────

/// Bytes of the QR "store data" sub-frame: `GS ( k pL pH 49 80 48 data`,
/// with a little-endian 16-bit payload length of `data.len() + 3`.
pub open spec fn qr_store_bytes(data: Seq<u8>) -> Seq<u8> {
    seq![
        0x1Du8,
        0x28u8,
        0x6Bu8,
        ((data.len() + 3) % 256) as u8,
        (((data.len() + 3) / 256) % 256) as u8,
        49u8,
        80u8,
        48u8,
    ] + data
}

/// Bytes of the QR "module size" sub-frame: `GS ( k 3 0 49 67 size`.
pub open spec fn qr_size_bytes(size: u8) -> Seq<u8> {
    seq![0x1Du8, 0x28u8, 0x6Bu8, 3u8, 0u8, 49u8, 67u8, size]
}

/// Bytes of the QR "error correction level M" sub-frame: `GS ( k 3 0 49 69 49`.
pub open spec fn qr_ec_level_bytes() -> Seq<u8> {
    seq![0x1Du8, 0x28u8, 0x6Bu8, 3u8, 0u8, 49u8, 69u8, 49u8]
}

/// Bytes of the QR "print symbol" sub-frame: `GS ( k 3 0 49 81 48`.
pub open spec fn qr_print_bytes() -> Seq<u8> {
    seq![0x1Du8, 0x28u8, 0x6Bu8, 3u8, 0u8, 49u8, 81u8, 48u8]
}

/// Bytes of the whole QR sequence: the four sub-frames in order
/// (store data, set module size, set error correction, print).
pub open spec fn qr_code_bytes(data: Seq<u8>, size: u8) -> Seq<u8> {
    qr_store_bytes(data) + qr_size_bytes(size) + qr_ec_level_bytes() + qr_print_bytes()
}

/// Print a QR code. `size` is the module size (1–8, default 3).
/// Error correction level M (15%). Emits exactly four sub-frames, each
/// prefixed `GS ( k`. The two-byte length field limits the data to
/// 65532 bytes (longer data wraps the field, and the printer rejects it).
pub fn qr_code(data: &str, size: u8) -> (r: Vec<u8>)
    ensures
        r@ == qr_code_bytes(data.spec_bytes(), size),
{
    let bytes = data.as_bytes_vec();
    let plen: u128 = bytes.len() as u128 + 3;
    let lo: u8 = (plen % 256) as u8;
    let hi: u8 = ((plen / 256) % 256) as u8;

    // Store data in the QR symbol storage area (function 80)
    let mut r: Vec<u8> = vec![GS, 0x28, 0x6B, lo, hi, 49, 80, 48];
    r.extend_from_slice(bytes.as_slice());
    assert(r@ =~= qr_store_bytes(data.spec_bytes()));

    // Set module size (function 67)
    let size_frame: Vec<u8> = vec![GS, 0x28, 0x6B, 3, 0, 49, 67, size];
    assert(size_frame@ =~= qr_size_bytes(size));
    r.extend_from_slice(size_frame.as_slice());

    // Set error correction level M (function 69)
    let ec_frame: Vec<u8> = vec![GS, 0x28, 0x6B, 3, 0, 49, 69, 49];
    assert(ec_frame@ =~= qr_ec_level_bytes());
    r.extend_from_slice(ec_frame.as_slice());

    // Print the symbol (function 81)
    let print_frame: Vec<u8> = vec![GS, 0x28, 0x6B, 3, 0, 49, 81, 48];
    assert(print_frame@ =~= qr_print_bytes());
    r.extend_from_slice(print_frame.as_slice());

    assert(r@ =~= qr_code_bytes(data.spec_bytes(), size));
    r
}

// ── Cash drawer ───────────────────────────────────────────────────────────

/// Bytes of the dual-pin cash drawer kick: `ESC p 0 25 250 ESC p 1 25 250`.
pub open spec fn cash_drawer_kick_bytes() -> Seq<u8> {
    seq![0x1Bu8, 0x70u8, 0u8, 25u8, 250u8, 0x1Bu8, 0x70u8, 1u8, 25u8, 250u8]
}

/// Kick cash drawer pin 2 (most drawers) and pin 5 (some drawers).
pub fn cash_drawer_kick() -> (r: Vec<u8>)
    ensures
        r@ == cash_drawer_kick_bytes(),
{
    let r: Vec<u8> = vec![ESC, 0x70, 0, 25, 250, ESC, 0x70, 1, 25, 250];
    assert(r@ =~= cash_drawer_kick_bytes());
    r
}

// ── Raster image ──────────────────────────────────────────────────────────

/// Bytes of the 8-byte `GS v 0` raster header (normal density), with both
/// dimensions as little-endian 16-bit values.
pub open spec fn raster_header_bytes(bytes_per_line: u16, height_px: u16) -> Seq<u8> {
    seq![
        0x1Du8,
        0x76u8,
        0x30u8,
        0u8,
        (bytes_per_line % 256) as u8,
        ((bytes_per_line / 256) % 256) as u8,
        (height_px % 256) as u8,
        ((height_px / 256) % 256) as u8,
    ]
}

/// Bytes of a whole `GS v 0` raster command: header plus packed rows.
pub open spec fn raster_image_bytes(
    bytes_per_line: u16,
    height_px: u16,
    raster_data: Seq<u8>,
) -> Seq<u8> {
    raster_header_bytes(bytes_per_line, height_px) + raster_data
}

/// Build a `GS v 0` raster bit-image command from raw 1-bit pixel data.
///
/// `bytes_per_line` is ceil(width_px / 8); `height_px` is the number of
/// raster lines; `raster_data` holds the packed 1-bit rows, MSB first
/// (1 = print, 0 = white).
pub fn raster_image(bytes_per_line: u16, height_px: u16, raster_data: &[u8]) -> (r: Vec<u8>)
    ensures
        r@ == raster_image_bytes(bytes_per_line, height_px, raster_data@),
{
    let lo_w: u8 = (bytes_per_line % 256) as u8;
    let hi_w: u8 = ((bytes_per_line / 256) % 256) as u8;
    let lo_h: u8 = (height_px % 256) as u8;
    let hi_h: u8 = ((height_px / 256) % 256) as u8;
    let mut r: Vec<u8> = vec![GS, 0x76, 0x30, 0, lo_w, hi_w, lo_h, hi_h];
    assert(r@ =~= raster_header_bytes(bytes_per_line, height_px));
    r.extend_from_slice(raster_data);
    assert(r@ =~= raster_image_bytes(bytes_per_line, height_px, raster_data@));
    r
}

} // verus!
