//! Plain data for the serial transport boundary.
//!
//! Sending bytes to a physical port is I/O and lives outside the library;
//! these are the values that cross that boundary, plus the chunking rule the
//! sender uses so a printer buffer is never overwhelmed.

use vstd::prelude::*;

verus! {

/// Information about an available serial port.
#[derive(Debug, Clone)]
pub struct PortInfo {
    /// System port name (e.g. `/dev/ttyUSB0`, `COM3`).
    pub name: String,
    /// Port type description.
    pub port_type: String,
}

/// Arguments for sending raw printer bytes to a serial port.
#[derive(Debug)]
pub struct PrintSerialArgs {
    /// Serial port path (e.g. `/dev/ttyUSB0`, `COM3`).
    pub port: String,
    /// Baud rate (default 9600).
    pub baud_rate: u32,
    /// The printer bytes to send.
    pub data: Vec<u8>,
}

/// Arguments for rendering a template document and sending the bytes to a
/// serial port.
#[derive(Debug)]
pub struct PrintTemplateArgs {
    /// Serial port path.
    pub port: String,
    /// Baud rate (default 9600).
    pub baud_rate: u32,
    /// The JSON template document.
    pub template: String,
}

/// The default baud rate.
pub fn default_baud() -> (r: u32)
    ensures
        r == 9600,
{
    9600
}

/// Split printer bytes into chunks of at most `chunk` bytes, in order, so a
/// sender can pause between writes: the chunks concatenate back to exactly
/// the input, every chunk is full except possibly the last, and none is
/// empty.
pub fn chunk_bytes(data: &Vec<u8>, chunk: usize) -> (r: Vec<Vec<u8>>)
    requires
        chunk >= 1,
    ensures
        flatten_bytes(r@) == data@,
        forall|i: int| 0 <= i < r@.len() ==> 1 <= #[trigger] r@[i]@.len() <= chunk,
        forall|i: int| 0 <= i < r@.len() - 1 ==> #[trigger] r@[i]@.len() == chunk,
{
    let n = data.len();
    let mut out: Vec<Vec<u8>> = Vec::new();
    let mut start: usize = 0;
    while start < n
        invariant
            start <= n,
            n == data@.len(),
            chunk >= 1,
            flatten_bytes(out@) == data@.take(start as int),
            start as int % (chunk as int) == 0 || start == n,
            forall|i: int| 0 <= i < out@.len() ==> 1 <= #[trigger] out@[i]@.len() <= chunk,
            forall|i: int| 0 <= i < out@.len() ==> (i < out@.len() - 1 ==> #[trigger] out@[i]@.len()
                == chunk),
            start < n ==> (forall|i: int|
                0 <= i < out@.len() ==> #[trigger] out@[i]@.len() == chunk),
        decreases n - start,
    {
        let end = if n - start < chunk {
            n
        } else {
            start + chunk
        };
        let mut piece: Vec<u8> = Vec::new();
        let mut i = start;
        while i < end
            invariant
                start <= i <= end <= n,
                n == data@.len(),
                piece@ == data@.subrange(start as int, i as int),
            decreases end - i,
        {
            piece.push(data[i]);
            proof {
                assert(data@.subrange(start as int, i as int).push(data@[i as int]) =~= data@
                    .subrange(start as int, i as int + 1));
            }
            i = i + 1;
        }
        let ghost before = out@;
        out.push(piece);
        proof {
            assert(out@.drop_last() =~= before);
            assert(flatten_bytes(out@) == flatten_bytes(before) + data@.subrange(
                start as int,
                end as int,
            ));
            assert(data@.take(start as int) + data@.subrange(start as int, end as int) =~= data@
                .take(end as int));
            if end < n {
                assert(end == start + chunk);
                vstd::arithmetic::div_mod::lemma_mod_add_multiples_vanish(
                    start as int,
                    chunk as int,
                );
            }
        }
        start = end;
    }
    proof {
        assert(data@.take(n as int) =~= data@);
    }
    out
}

/// The concatenation of a sequence of byte chunks.
pub open spec fn flatten_bytes(chunks: Seq<Vec<u8>>) -> Seq<u8>
    decreases chunks.len(),
{
    if chunks.len() == 0 {
        Seq::<u8>::empty()
    } else {
        flatten_bytes(chunks.drop_last()) + chunks.last()@
    }
}

} // verus!
