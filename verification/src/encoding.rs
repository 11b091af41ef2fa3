//! CP858 text encoding and fixed-width column layout.
//!
//! All layout here counts Unicode scalar values, never bytes. The CP858
//! table covers the Western-European accented letters and the Euro sign;
//! anything else falls back to its low byte (best effort, not an error).

use vstd::prelude::*;
use vstd::string::StrSliceExecFns;
use vstd::string::StringExecFns;

verus! {

/// The CP858 byte of one Unicode scalar: the fixed accented-letter + Euro
/// table, with an unmapped scalar falling back to its low byte.
pub open spec fn cp858(c: char) -> u8 {
    match c {
        'à' => 0x85,
        'â' => 0x83,
        'ä' => 0x84,
        'é' => 0x82,
        'è' => 0x8A,
        'ê' => 0x88,
        'ë' => 0x89,
        'î' => 0x8C,
        'ï' => 0x8B,
        'ô' => 0x93,
        'ö' => 0x94,
        'ù' => 0x97,
        'û' => 0x96,
        'ü' => 0x81,
        'ç' => 0x87,
        'ñ' => 0xA4,
        'À' => 0xB7,
        'Â' => 0xB6,
        'É' => 0x90,
        'È' => 0xD4,
        'Ê' => 0xD2,
        'Î' => 0xD7,
        'Ô' => 0xE4,
        'Ù' => 0xEB,
        'Û' => 0xEA,
        'Ç' => 0x80,
        'Ñ' => 0xA5,
        '€' => 0xD5,
        _ => ((c as u32) % 256) as u8,
    }
}

/// The CP858 bytes of a whole character sequence, one byte per scalar.
pub open spec fn cp858_seq(t: Seq<char>) -> Seq<u8> {
    Seq::new(t.len(), |i: int| cp858(t[i]))
}

/// Map a single Unicode scalar to its CP858 byte.
pub fn cp858_byte(c: char) -> (r: u8)
    ensures
        r == cp858(c),
{
    match c {
        'à' => 0x85,
        'â' => 0x83,
        'ä' => 0x84,
        'é' => 0x82,
        'è' => 0x8A,
        'ê' => 0x88,
        'ë' => 0x89,
        'î' => 0x8C,
        'ï' => 0x8B,
        'ô' => 0x93,
        'ö' => 0x94,
        'ù' => 0x97,
        'û' => 0x96,
        'ü' => 0x81,
        'ç' => 0x87,
        'ñ' => 0xA4,
        'À' => 0xB7,
        'Â' => 0xB6,
        'É' => 0x90,
        'È' => 0xD4,
        'Ê' => 0xD2,
        'Î' => 0xD7,
        'Ô' => 0xE4,
        'Ù' => 0xEB,
        'Û' => 0xEA,
        'Ç' => 0x80,
        'Ñ' => 0xA5,
        '€' => 0xD5,
        _ => ((c as u32) % 256) as u8,
    }
}

/// Encode a string to CP858 bytes, one byte per Unicode scalar.
pub fn encode_cp858(text: &str) -> (r: Vec<u8>)
    ensures
        r@ == cp858_seq(text@),
{
    let len = text.unicode_len();
    let mut r: Vec<u8> = Vec::new();
    let mut i: usize = 0;
    while i < len
        invariant
            i <= len,
            len == text@.len(),
            r@.len() == i,
            forall|j: int| 0 <= j < i ==> r@[j] == cp858(text@[j]),
        decreases len - i,
    {
        let c = text.get_char(i);
        r.push(cp858_byte(c));
        i = i + 1;
    }
    assert(r@ =~= cp858_seq(text@));
    r
}

/// A run of `n` space characters.
pub open spec fn spaces(n: nat) -> Seq<char> {
    Seq::new(n, |i: int| ' ')
}

/// Build a string of `n` spaces.
fn spaces_str(n: usize) -> (r: String)
    ensures
        r@ == spaces(n as nat),
{
    let mut r = String::new();
    let mut i: usize = 0;
    while i < n
        invariant
            i <= n,
            r@.len() == i,
            forall|j: int| 0 <= j < i ==> r@[j] == ' ',
        decreases n - i,
    {
        proof {
            reveal_strlit(" ");
        }
        r.append(" ");
        i = i + 1;
    }
    assert(r@ =~= spaces(n as nat));
    r
}

/// The three-character ellipsis appended by `truncate`.
pub open spec fn ellipsis() -> Seq<char> {
    seq!['.', '.', '.']
}

/// The cut point used by `truncate`: three characters are reserved for the
/// ellipsis, saturating at zero.
pub open spec fn truncate_cut(max_chars: nat) -> nat {
    if max_chars >= 3 {
        (max_chars - 3) as nat
    } else {
        0
    }
}

/// What `truncate` returns: the input unchanged when it fits, else the first
/// `truncate_cut(max_chars)` characters followed by the ellipsis.
pub open spec fn spec_truncate(t: Seq<char>, max_chars: nat) -> Seq<char> {
    if t.len() <= max_chars {
        t
    } else {
        t.subrange(0, truncate_cut(max_chars) as int) + ellipsis()
    }
}

/// Truncate a string to `max_chars` Unicode scalar values, appending `"..."`
/// if it was cut. For `max_chars >= 3` the result never exceeds `max_chars`
/// characters and is exactly `max_chars` when the input was longer. For
/// `max_chars < 3` the cut length saturates to 0 and the output may exceed
/// `max_chars` by up to two characters — an inherited quirk, kept as is.
pub fn truncate(text: &str, max_chars: usize) -> (r: String)
    ensures
        r@ == spec_truncate(text@, max_chars as nat),
        max_chars >= 3 ==> r@.len() <= max_chars,
        max_chars >= 3 && text@.len() > max_chars ==> r@.len() == max_chars,
{
    let count = text.unicode_len();
    if count <= max_chars {
        text.to_owned()
    } else {
        let cut: usize = if max_chars >= 3 {
            max_chars - 3
        } else {
            0
        };
        let head = text.substring_char(0, cut);
        let mut r = head.to_owned();
        r.append("...");
        proof {
            reveal_strlit("...");
            assert("..."@ =~= ellipsis());
        }
        r
    }
}

/// What `center` returns: the input unchanged when it already fills the
/// width, else left-padded by half the slack. It never pads on the right —
/// printers trim trailing whitespace.
pub open spec fn spec_center(t: Seq<char>, width: nat) -> Seq<char> {
    if t.len() >= width {
        t
    } else {
        spaces(((width - t.len()) / 2) as nat) + t
    }
}

/// Centre a string within `width` columns using left space padding only.
/// If the text is as wide as `width` or wider it is returned unchanged
/// (and may exceed the width).
pub fn center(text: &str, width: usize) -> (r: String)
    ensures
        r@ == spec_center(text@, width as nat),
{
    let len = text.unicode_len();
    if len >= width {
        return text.to_owned();
    }
    let pad = (width - len) / 2;
    let mut r = spaces_str(pad);
    r.append(text);
    r
}

/// What `right_align` returns: the input unchanged when it already fills the
/// width, else left-padded to exactly `width` characters.
pub open spec fn spec_right_align(t: Seq<char>, width: nat) -> Seq<char> {
    if t.len() >= width {
        t
    } else {
        spaces((width - t.len()) as nat) + t
    }
}

/// Right-align a string within `width` columns: left-pads to exactly `width`
/// characters when the text is shorter.
pub fn right_align(text: &str, width: usize) -> (r: String)
    ensures
        r@ == spec_right_align(text@, width as nat),
        text@.len() < width ==> r@.len() == width,
{
    let len = text.unicode_len();
    if len >= width {
        return text.to_owned();
    }
    let mut r = spaces_str(width - len);
    r.append(text);
    r
}

/// The gap width of a two-column row: the slack between the two texts,
/// collapsing to exactly one space when they do not both fit.
pub open spec fn two_col_gap(l: nat, r: nat, width: nat) -> nat {
    if l + r + 1 <= width {
        (width - l - r) as nat
    } else {
        1
    }
}

/// What `two_col` returns: the left text, the gap of spaces, the right text.
pub open spec fn spec_two_col(lt: Seq<char>, rt: Seq<char>, width: nat) -> Seq<char> {
    lt + spaces(two_col_gap(lt.len(), rt.len(), width)) + rt
}

/// Build a two-column row: label flush-left, value flush-right, total length
/// `width` whenever both texts fit. The gap is never empty: when the texts
/// do not fit it collapses to exactly one space (and the row may exceed
/// `width`).
pub fn two_col(left: &str, right: &str, width: usize) -> (r: String)
    ensures
        r@ == spec_two_col(left@, right@, width as nat),
        left@.len() + right@.len() < width ==> r@.len() == width,
        r@.len() >= left@.len() + right@.len() + 1,
{
    let l = left.unicode_len();
    let rlen = right.unicode_len();
    let gap: usize = if width > l {
        let rem = width - l;
        if rem > rlen {
            rem - rlen
        } else {
            1
        }
    } else {
        1
    };
    let mut row = left.to_owned();
    let pad = spaces_str(gap);
    row.append(pad.as_str());
    row.append(right);
    row
}

} // verus!
