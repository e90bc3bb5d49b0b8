use vstd::prelude::*;

verus! {

/// Number of bytes in one measurement record of the scanner's stream.
pub const PACKET_SIZE: usize = 8;

/// First byte of every measurement record.
pub const HEADER_BYTE: u8 = 0x7E;

/// The integer fields of one measurement record, as they arrive on the wire:
/// the two mirror-drive readings (big endian) and the three time-of-flight
/// counters.
#[derive(PartialEq, Eq, Structural, Clone, Copy, Debug)]
pub struct RawSample {
    /// Vertical mirror reading (bytes 1 and 2, big endian).
    pub up: u16,
    /// Horizontal mirror reading (bytes 3 and 4, big endian).
    pub left: u16,
    /// Coarse time of flight (byte 5).
    pub tof: u8,
    /// Fine-tuning start counter (byte 6).
    pub tof_start: u8,
    /// Fine-tuning end counter (byte 7).
    pub tof_end: u8,
}

/// The value of two bytes read as a big-endian `u16`.
pub open spec fn be_u16(hi: u8, lo: u8) -> u16 {
    (hi as int * 256 + lo as int) as u16
}

/// What an eight-byte window decodes to: a sample when it starts with the
/// header byte, nothing otherwise.
pub open spec fn spec_decode_window(w: Seq<u8>) -> Option<RawSample> {
    if w.len() == PACKET_SIZE && w[0] == HEADER_BYTE {
        Some(
            RawSample {
                up: be_u16(w[1], w[2]),
                left: be_u16(w[3], w[4]),
                tof: w[5],
                tof_start: w[6],
                tof_end: w[7],
            },
        )
    } else {
        None
    }
}

/// Number of eight-byte windows (one starting at every offset) in a buffer.
pub open spec fn window_count(len: nat) -> nat {
    if len >= PACKET_SIZE {
        (len - PACKET_SIZE + 1) as nat
    } else {
        0
    }
}

/// The window of `bytes` that starts at `start`.
pub open spec fn window_at(bytes: Seq<u8>, start: int) -> Seq<u8> {
    bytes.subrange(start, start + PACKET_SIZE)
}

/// The samples decoded from the first `n` windows of `bytes`, in order.
pub open spec fn samples_upto(bytes: Seq<u8>, n: nat) -> Seq<RawSample>
    decreases n,
{
    if n == 0 {
        Seq::empty()
    } else {
        let prev = samples_upto(bytes, (n - 1) as nat);
        match spec_decode_window(window_at(bytes, n - 1)) {
            Some(s) => prev.push(s),
            None => prev,
        }
    }
}

/// Every sample of a datagram: one for each window, at any offset, that
/// starts with the header byte, in the order of the windows.
pub open spec fn spec_parse_packets(bytes: Seq<u8>) -> Seq<RawSample> {
    samples_upto(bytes, window_count(bytes.len()))
}

/// Whether a datagram is a stream of whole records: its length is a multiple
/// of eight and the header byte occurs exactly at the start of each record.
pub open spec fn is_record_stream(bytes: Seq<u8>) -> bool {
    &&& bytes.len() % (PACKET_SIZE as nat) == 0
    &&& forall|i: int| 0 <= i < bytes.len() ==> (#[trigger] bytes[i] == HEADER_BYTE <==> i % 8 == 0)
}

proof fn lemma_stream_prefix(bytes: Seq<u8>, n: nat)
    requires
        is_record_stream(bytes),
        n <= window_count(bytes.len()),
    ensures
        samples_upto(bytes, n).len() == (n + 7) / 8,
        forall|r: int|
            0 <= r < (n + 7) / 8 ==> Some(#[trigger] samples_upto(bytes, n)[r])
                == spec_decode_window(window_at(bytes, 8 * r)),
    decreases n,
{
    if n > 0 {
        let m = (n - 1) as nat;
        lemma_stream_prefix(bytes, m);
        let prev = samples_upto(bytes, m);
        let w = window_at(bytes, m as int);
        assert(m + PACKET_SIZE <= bytes.len());
        assert(w[0] == bytes[m as int]);
        if m % 8 == 0 {
            assert((n + 7) / 8 == (m + 7) / 8 + 1) by (nonlinear_arith)
                requires
                    m % 8 == 0,
                    n == m + 1,
            ;
            assert(m == 8 * ((m + 7) / 8)) by (nonlinear_arith)
                requires
                    m % 8 == 0,
            ;
            assert(spec_decode_window(w) is Some);
        } else {
            assert((n + 7) / 8 == (m + 7) / 8) by (nonlinear_arith)
                requires
                    m % 8 != 0,
                    n == m + 1,
            ;
            assert(spec_decode_window(w) is None);
        }
    }
}

/// A datagram made of back-to-back records, each beginning with the header
/// byte and holding no other header byte, decodes to exactly one sample per
/// record, in the order of the records.
pub proof fn lemma_record_stream_decodes_each_record(bytes: Seq<u8>)
    requires
        is_record_stream(bytes),
    ensures
        spec_parse_packets(bytes).len() == bytes.len() / (PACKET_SIZE as nat),
        forall|r: int|
            0 <= r < bytes.len() / (PACKET_SIZE as nat) ==> Some(#[trigger] spec_parse_packets(bytes)[r])
                == spec_decode_window(window_at(bytes, 8 * r)),
{
    let n = window_count(bytes.len());
    lemma_stream_prefix(bytes, n);
    assert((n + 7) / 8 == bytes.len() / 8) by (nonlinear_arith)
        requires
            bytes.len() % 8 == 0,
            bytes.len() >= 8 ==> n == bytes.len() - 7,
            bytes.len() < 8 ==> n == 0,
    ;
}

fn read_be_u16(hi: u8, lo: u8) -> (r: u16)
    ensures
        r == be_u16(hi, lo),
        r as int == hi as int * 256 + lo as int,
{
    let r: u16 = (hi as u16) * 256 + (lo as u16);
    r
}

fn decode_at(bytes: &[u8], start: usize) -> (r: Option<RawSample>)
    requires
        start + PACKET_SIZE <= bytes@.len(),
    ensures
        r == spec_decode_window(window_at(bytes@, start as int)),
{
    let ghost w = window_at(bytes@, start as int);
    assert(w.len() == PACKET_SIZE);
    if bytes[start] == HEADER_BYTE {
        assert(w[0] == bytes@[start as int]);
        let up: u16 = read_be_u16(bytes[start + 1], bytes[start + 2]);
        let left: u16 = read_be_u16(bytes[start + 3], bytes[start + 4]);
        let s = RawSample {
            up,
            left,
            tof: bytes[start + 5],
            tof_start: bytes[start + 6],
            tof_end: bytes[start + 7],
        };
        assert(w[1] == bytes@[start + 1] && w[2] == bytes@[start + 2]);
        assert(w[3] == bytes@[start + 3] && w[4] == bytes@[start + 4]);
        assert(w[5] == bytes@[start + 5] && w[6] == bytes@[start + 6] && w[7] == bytes@[start + 7]);
        Some(s)
    } else {
        assert(w[0] == bytes@[start as int]);
        None
    }
}

/// Decodes one eight-byte window of a datagram.
pub fn decode_window(window: &[u8]) -> (r: Option<RawSample>)
    requires
        window@.len() == PACKET_SIZE,
    ensures
        r == spec_decode_window(window@),
{
    assert(window_at(window@, 0) =~= window@);
    decode_at(window, 0)
}

/// Extracts the samples of a datagram: every eight-byte window, at any
/// offset, that begins with the header byte, decoded in order.
pub fn parse_packets(bytes: &[u8]) -> (r: Vec<RawSample>)
    ensures
        r@ == spec_parse_packets(bytes@),
{
    let mut out: Vec<RawSample> = Vec::new();
    if bytes.len() < PACKET_SIZE {
        return out;
    }
    let count: usize = bytes.len() - PACKET_SIZE + 1;
    let mut i: usize = 0;
    while i < count
        invariant
            count == window_count(bytes@.len()),
            count + PACKET_SIZE - 1 == bytes@.len(),
            i <= count,
            out@ == samples_upto(bytes@, i as nat),
        decreases count - i,
    {
        let d = decode_at(bytes, i);
        match d {
            Some(s) => {
                out.push(s);
            },
            None => {},
        }
        i = i + 1;
    }
    out
}

} // verus!
