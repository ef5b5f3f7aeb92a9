//! Length-prefixed UART framing for TerraLink wire frames.
//!
//! On the serial link to the LoRa coprocessor, each TerraLink frame is wrapped as
//! `| len_lo | len_hi | terra_link_frame_bytes... |`, where `len` is a little-endian
//! `u16` equal to the TerraLink frame length (header + payload + CRC) and must not
//! exceed [`MAX_UART_FRAME`].

use vstd::prelude::*;
use vstd::string::StringExecFns;

use super::RadioError;
use crate::text::{decimal, push_decimal};

verus! {

/// Maximum TerraLink frame size accepted on the UART (header 12 + payload 200 + CRC 2).
pub const MAX_UART_FRAME: usize = 12 + 200 + 2;

/// The two little-endian bytes that announce a frame of `n` bytes.
pub open spec fn length_prefix(n: nat) -> Seq<u8> {
    seq![(n % 256) as u8, (n / 256) as u8]
}

/// The UART datagram that carries `frame`: its length prefix, then the frame.
pub open spec fn uart_datagram(frame: Seq<u8>) -> Seq<u8> {
    length_prefix(frame.len()) + frame
}

/// Whether a frame of `n` bytes may travel on the UART.
pub open spec fn frame_len_ok(n: nat) -> bool {
    1 <= n <= MAX_UART_FRAME
}

/// The length announced by the first two bytes of `buf`.
pub open spec fn announced_len(buf: Seq<u8>) -> nat
    recommends
        buf.len() >= 2,
{
    buf[0] as nat + 256 * (buf[1] as nat)
}

/// Decoding of a byte stream: the complete frames found in `buf`, in order, and the
/// bytes left over for a later read. A length of zero or above the maximum makes the
/// decoder drop one byte and scan again; an announced frame that is not complete yet
/// stops the scan.
pub open spec fn scan(buf: Seq<u8>) -> (Seq<Seq<u8>>, Seq<u8>)
    decreases buf.len(),
{
    if buf.len() < 2 {
        (Seq::empty(), buf)
    } else if !frame_len_ok(announced_len(buf)) {
        scan(buf.drop_first())
    } else if buf.len() < 2 + announced_len(buf) {
        (Seq::empty(), buf)
    } else {
        let n = announced_len(buf) as int;
        let rest = scan(buf.skip(2 + n));
        (seq![buf.subrange(2, 2 + n)] + rest.0, rest.1)
    }
}

/// The byte contents of a list of frames.
pub open spec fn frames_of(frames: Seq<Vec<u8>>) -> Seq<Seq<u8>> {
    frames.map_values(|f: Vec<u8>| f@)
}

/// The text of the error for a frame of `n` bytes that is too large for the UART.
pub open spec fn oversize_message(n: nat) -> Seq<char> {
    "frame too large for UART: "@ + decimal(n) + " > "@ + decimal(MAX_UART_FRAME as nat)
}

/// The text of the error for an empty frame.
pub open spec fn empty_frame_message() -> Seq<char> {
    "empty TerraLink frame"@
}

/// Encode a TerraLink wire frame into a length-prefixed UART blob.
pub fn encode_uart_datagram(terralink_frame: &[u8]) -> (r: Result<Vec<u8>, RadioError>)
    ensures
        terralink_frame@.len() == 0 ==> (r matches Err(RadioError::Io(m)) && m@
            == empty_frame_message()),
        terralink_frame@.len() > MAX_UART_FRAME ==> (r matches Err(RadioError::Io(m)) && m@
            == oversize_message(terralink_frame@.len())),
        frame_len_ok(terralink_frame@.len()) ==> (r matches Ok(out) && out@ == uart_datagram(
            terralink_frame@,
        )),
{
    let n = terralink_frame.len();
    if n == 0 {
        return Err(RadioError::Io(String::from_str("empty TerraLink frame")));
    }
    if n > MAX_UART_FRAME {
        let mut m = String::from_str("frame too large for UART: ");
        push_decimal(&mut m, n);
        m.append(" > ");
        push_decimal(&mut m, MAX_UART_FRAME);
        assert(m@ =~= oversize_message(n as nat));
        return Err(RadioError::Io(m));
    }
    let mut out: Vec<u8> = Vec::with_capacity(2 + n);
    out.push((n % 256) as u8);
    out.push((n / 256) as u8);
    let mut i: usize = 0;
    while i < n
        invariant
            n == terralink_frame@.len(),
            i <= n,
            out@ == length_prefix(n as nat) + terralink_frame@.subrange(0, i as int),
        decreases n - i,
    {
        out.push(terralink_frame[i]);
        i = i + 1;
        assert(out@ =~= length_prefix(n as nat) + terralink_frame@.subrange(0, i as int));
    }
    assert(terralink_frame@.subrange(0, n as int) =~= terralink_frame@);
    Ok(out)
}

/// Copies `v[lo..hi]` into a fresh vector.
fn copy_range(v: &Vec<u8>, lo: usize, hi: usize) -> (r: Vec<u8>)
    requires
        lo <= hi <= v@.len(),
    ensures
        r@ == v@.subrange(lo as int, hi as int),
{
    let mut r: Vec<u8> = Vec::with_capacity(hi - lo);
    let mut i: usize = lo;
    while i < hi
        invariant
            lo <= i <= hi <= v@.len(),
            r@ == v@.subrange(lo as int, i as int),
        decreases hi - i,
    {
        r.push(v[i]);
        i = i + 1;
        assert(r@ =~= v@.subrange(lo as int, i as int));
    }
    r
}

/// Streaming decoder for length-prefixed UART datagrams.
#[derive(Debug, Default)]
pub struct UartFrameDecoder {
    buf: Vec<u8>,
}

impl View for UartFrameDecoder {
    type V = Seq<u8>;

    /// The bytes received and not yet handed out as frames.
    closed spec fn view(&self) -> Seq<u8> {
        self.buf@
    }
}

impl UartFrameDecoder {
    /// A decoder that holds no bytes.
    pub fn new() -> (d: Self)
        ensures
            d@ == Seq::<u8>::empty(),
    {
        UartFrameDecoder { buf: Vec::new() }
    }

    /// Push serial bytes; returns zero or more complete TerraLink frames.
    pub fn push(&mut self, data: &[u8]) -> (r: Result<Vec<Vec<u8>>, RadioError>)
        ensures
            r matches Ok(frames) && frames_of(frames@) == scan(old(self)@ + data@).0,
            final(self)@ == scan(old(self)@ + data@).1,
    {
        let mut k: usize = 0;
        while k < data.len()
            invariant
                k <= data@.len(),
                self.buf@ == old(self)@ + data@.subrange(0, k as int),
            decreases data@.len() - k,
        {
            self.buf.push(data[k]);
            k = k + 1;
            assert(self.buf@ =~= old(self)@ + data@.subrange(0, k as int));
        }
        assert(data@.subrange(0, data@.len() as int) =~= data@);
        let ghost all = self.buf@;
        let n = self.buf.len();
        let mut frames: Vec<Vec<u8>> = Vec::new();
        let mut pos: usize = 0;
        assert(all.skip(0) =~= all);
        loop
            invariant
                self.buf@ == all,
                n == all.len(),
                pos <= n,
                scan(all).0 == frames_of(frames@) + scan(all.skip(pos as int)).0,
                scan(all).1 == scan(all.skip(pos as int)).1,
            ensures
                pos <= n,
                scan(all).0 == frames_of(frames@),
                scan(all).1 == all.skip(pos as int),
            decreases n - pos,
        {
            let ghost s = all.skip(pos as int);
            if n - pos < 2 {
                assert(frames_of(frames@) + Seq::<Seq<u8>>::empty() =~= frames_of(frames@));
                break;
            }
            let len: usize = self.buf[pos] as usize + 256 * (self.buf[pos + 1] as usize);
            assert(len == announced_len(s));
            if len == 0 || len > MAX_UART_FRAME {
                assert(s.drop_first() =~= all.skip(pos + 1));
                pos = pos + 1;
            } else if n - pos - 2 < len {
                assert(frames_of(frames@) + Seq::<Seq<u8>>::empty() =~= frames_of(frames@));
                break;
            } else {
                let frame = copy_range(&self.buf, pos + 2, pos + 2 + len);
                let ghost before = frames_of(frames@);
                assert(frame@ =~= s.subrange(2, 2 + len as int));
                assert(s.skip(2 + len as int) =~= all.skip(pos + 2 + len));
                frames.push(frame);
                assert(frames_of(frames@) =~= before.push(frame@));
                pos = pos + 2 + len;
                assert(before + (seq![frame@] + scan(all.skip(pos as int)).0)
                    =~= frames_of(frames@) + scan(all.skip(pos as int)).0);
            }
        }
        let rest = copy_range(&self.buf, pos, n);
        assert(rest@ =~= all.skip(pos as int));
        self.buf = rest;
        Ok(frames)
    }

    /// The number of bytes held back for a later push.
    pub fn buffered_len(&self) -> (n: usize)
        ensures
            n == self@.len(),
    {
        self.buf.len()
    }
}

/// The bytes of several datagrams sent back to back.
pub open spec fn datagram_stream(frames: Seq<Seq<u8>>) -> Seq<u8>
    decreases frames.len(),
{
    if frames.len() == 0 {
        Seq::empty()
    } else {
        uart_datagram(frames[0]) + datagram_stream(frames.drop_first())
    }
}

/// A datagram announces the length of the frame it carries.
proof fn lemma_prefix_announces(frame: Seq<u8>, rest: Seq<u8>)
    requires
        frame_len_ok(frame.len()),
    ensures
        (uart_datagram(frame) + rest).len() >= 2,
        announced_len(uart_datagram(frame) + rest) == frame.len(),
{
    let n = frame.len();
    let b = uart_datagram(frame) + rest;
    assert(b[0] == (n % 256) as u8);
    assert(b[1] == (n / 256) as u8);
    assert(n / 256 < 256);
}

/// A valid frame sent as a datagram comes out of the decoder whole, ahead of
/// whatever the bytes after it decode to.
pub proof fn lemma_datagram_decodes(frame: Seq<u8>, rest: Seq<u8>)
    requires
        frame_len_ok(frame.len()),
    ensures
        scan(uart_datagram(frame) + rest) == (seq![frame] + scan(rest).0, scan(rest).1),
{
    let b = uart_datagram(frame) + rest;
    let n = frame.len() as int;
    lemma_prefix_announces(frame, rest);
    assert(b.subrange(2, 2 + n) =~= frame);
    assert(b.skip(2 + n) =~= rest);
}

/// Decoding one encoded frame gives back exactly that frame and holds no byte back.
pub proof fn lemma_round_trip(frame: Seq<u8>)
    requires
        frame_len_ok(frame.len()),
    ensures
        scan(uart_datagram(frame)) == (seq![frame], Seq::<u8>::empty()),
{
    lemma_datagram_decodes(frame, Seq::empty());
    assert(uart_datagram(frame) + Seq::<u8>::empty() =~= uart_datagram(frame));
    assert(scan(Seq::<u8>::empty()) == (Seq::<Seq<u8>>::empty(), Seq::<u8>::empty()));
    assert(seq![frame] + Seq::<Seq<u8>>::empty() =~= seq![frame]);
}

/// Valid frames sent back to back decode to the same frames, in order, with
/// nothing held back.
pub proof fn lemma_stream_round_trip(frames: Seq<Seq<u8>>)
    requires
        forall|i: int| 0 <= i < frames.len() ==> frame_len_ok(#[trigger] frames[i].len()),
    ensures
        scan(datagram_stream(frames)) == (frames, Seq::<u8>::empty()),
    decreases frames.len(),
{
    if frames.len() == 0 {
        assert(scan(Seq::<u8>::empty()) == (Seq::<Seq<u8>>::empty(), Seq::<u8>::empty()));
        assert(frames =~= Seq::<Seq<u8>>::empty());
    } else {
        let tail = frames.drop_first();
        assert forall|i: int| 0 <= i < tail.len() implies frame_len_ok(#[trigger] tail[i].len()) by {
            assert(tail[i] == frames[i + 1]);
        }
        lemma_stream_round_trip(tail);
        assert(frame_len_ok(frames[0].len()));
        lemma_datagram_decodes(frames[0], datagram_stream(tail));
        assert(seq![frames[0]] + tail =~= frames);
    }
}

/// How the bytes arrive in reads does not matter: decoding `x` and then the
/// held-back bytes followed by `y` gives the same frames, in the same order, and the
/// same held-back bytes as decoding `x + y` at once.
pub proof fn lemma_chunking_invariant(x: Seq<u8>, y: Seq<u8>)
    ensures
        scan(x + y) == (scan(x).0 + scan(scan(x).1 + y).0, scan(scan(x).1 + y).1),
    decreases x.len(),
{
    let xy = x + y;
    if x.len() < 2 {
        assert(Seq::<Seq<u8>>::empty() + scan(x + y).0 =~= scan(x + y).0);
    } else {
        assert(xy[0] == x[0] && xy[1] == x[1]);
        let n = announced_len(x);
        if !frame_len_ok(n) {
            lemma_chunking_invariant(x.drop_first(), y);
            assert(xy.drop_first() =~= x.drop_first() + y);
        } else if x.len() < 2 + n {
            assert(Seq::<Seq<u8>>::empty() + scan(x + y).0 =~= scan(x + y).0);
        } else {
            let x2 = x.skip(2 + n as int);
            lemma_chunking_invariant(x2, y);
            assert(xy.subrange(2, 2 + n as int) =~= x.subrange(2, 2 + n as int));
            assert(xy.skip(2 + n as int) =~= x2 + y);
            let f = x.subrange(2, 2 + n as int);
            assert(seq![f] + (scan(x2).0 + scan(scan(x2).1 + y).0)
                =~= (seq![f] + scan(x2).0) + scan(scan(x2).1 + y).0);
        }
    }
}

/// The bytes a decode holds back contain no complete frame.
pub proof fn lemma_held_back_is_incomplete(x: Seq<u8>)
    ensures
        scan(scan(x).1) == (Seq::<Seq<u8>>::empty(), scan(x).1),
    decreases x.len(),
{
    if x.len() >= 2 {
        let n = announced_len(x);
        if !frame_len_ok(n) {
            lemma_held_back_is_incomplete(x.drop_first());
        } else if x.len() >= 2 + n {
            lemma_held_back_is_incomplete(x.skip(2 + n as int));
        }
    }
}

/// Resynchronisation moves by exactly one byte: when the first two bytes announce
/// a length of zero or above the maximum, the stream decodes as it would without
/// its first byte.
pub proof fn lemma_resync_skips_one_byte(buf: Seq<u8>)
    requires
        buf.len() >= 2,
        buf[0] as nat + 256 * (buf[1] as nat) == 0 || buf[0] as nat + 256 * (buf[1] as nat)
            > MAX_UART_FRAME,
    ensures
        scan(buf) == scan(buf.subrange(1, buf.len() as int)),
{
    assert(buf.drop_first() =~= buf.subrange(1, buf.len() as int));
}

/// One stray byte on the line ahead of a datagram, which together with the
/// datagram's first byte announces an impossible length, does not cost the frame:
/// the frame decodes, followed by whatever the later bytes decode to.
pub proof fn lemma_stray_byte_then_datagram(junk: u8, frame: Seq<u8>, rest: Seq<u8>)
    requires
        1 <= frame.len() <= MAX_UART_FRAME,
        junk as nat + 256 * (frame.len() % 256) == 0 || junk as nat + 256 * (frame.len() % 256)
            > MAX_UART_FRAME,
    ensures
        scan(seq![junk] + length_prefix(frame.len()) + frame + rest) == (seq![frame]
            + scan(rest).0, scan(rest).1),
{
    let buf = seq![junk] + length_prefix(frame.len()) + frame + rest;
    assert(buf[0] == junk);
    assert(buf[1] == (frame.len() % 256) as u8);
    lemma_resync_skips_one_byte(buf);
    assert(buf.subrange(1, buf.len() as int) =~= uart_datagram(frame) + rest);
    lemma_datagram_decodes(frame, rest);
}

} // verus!
