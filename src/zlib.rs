//! A zlib stream codec. Compression emits stored DEFLATE blocks, so the output
//! for given bytes is always the same; decompression reads streams made of
//! stored blocks and checks the Adler-32 trailer.
use vstd::prelude::*;
use crate::bytes::{u16_le, u32_be, put_u8, put_u16, put_u32_be};

verus! {

/// The largest payload of one stored block.
pub const MAX_STORED: usize = 65535;

/// Why a byte buffer is not a stream that `decompress` can read.
#[derive(Debug, Clone, Copy, PartialEq, Eq, Structural)]
pub enum InflateError {
    /// The header, a block frame, the length or the checksum is wrong.
    CorruptStream,
    /// A well-formed block that is Huffman coded, which this codec does not read.
    UnsupportedBlock,
}

/// The two running sums of Adler-32 over `data`.
pub open spec fn adler_sums(data: Seq<u8>) -> (int, int)
    decreases data.len(),
{
    if data.len() == 0 {
        (1, 0)
    } else {
        let p = adler_sums(data.drop_last());
        let a = (p.0 + data.last() as int) % 65521;
        (a, (p.1 + a) % 65521)
    }
}

/// The Adler-32 checksum of `data`.
pub open spec fn adler32_of(data: Seq<u8>) -> u32 {
    (adler_sums(data).1 * 65536 + adler_sums(data).0) as u32
}

/// Computes the Adler-32 checksum of `data`.
pub fn adler32(data: &Vec<u8>) -> (r: u32)
    ensures
        r == adler32_of(data@),
        r as int == adler_sums(data@).1 * 65536 + adler_sums(data@).0,
{
    let mut a: u32 = 1;
    let mut b: u32 = 0;
    let mut i: usize = 0;
    while i < data.len()
        invariant
            i <= data.len(),
            a < 65521,
            b < 65521,
            (a as int, b as int) == adler_sums(data@.subrange(0, i as int)),
        decreases data.len() - i,
    {
        assert(data@.subrange(0, i + 1).drop_last() =~= data@.subrange(0, i as int));
        a = (a + data[i] as u32) % 65521;
        b = (b + a) % 65521;
        i = i + 1;
    }
    assert(data@.subrange(0, data.len() as int) =~= data@);
    b * 65536 + a
}

/// One stored block: its final flag, its length and that length's complement,
/// then the payload.
pub open spec fn stored_block(payload: Seq<u8>, last: bool) -> Seq<u8> {
    seq![if last { 1u8 } else { 0u8 }] + u16_le(payload.len() as u16) + u16_le(
        (65535 - payload.len()) as u16,
    ) + payload
}

/// `data` cut into stored blocks of at most `MAX_STORED` bytes; the last one
/// is marked final. Empty data is one empty final block.
pub open spec fn stored_blocks(data: Seq<u8>) -> Seq<u8>
    decreases data.len(),
{
    if data.len() <= 65535 {
        stored_block(data, true)
    } else {
        stored_block(data.subrange(0, 65535), false) + stored_blocks(
            data.subrange(65535, data.len() as int),
        )
    }
}

/// The zlib header: DEFLATE with a 32 KiB window, no preset dictionary.
pub open spec fn zlib_header() -> Seq<u8> {
    seq![0x78u8, 0x01u8]
}

/// The stream that `compress` makes of `data`.
pub open spec fn compressed(data: Seq<u8>) -> Seq<u8> {
    zlib_header() + stored_blocks(data) + u32_be(adler32_of(data))
}

/// Whether two bytes form a zlib header that this codec accepts.
pub open spec fn header_ok(cmf: u8, flg: u8) -> bool {
    &&& cmf % 16 == 8
    &&& cmf / 16 <= 7
    &&& (cmf as int * 256 + flg as int) % 31 == 0
    &&& (flg / 32) % 2 == 0
}

/// Reads DEFLATE blocks from the front of `s`: the bytes they hold and how
/// many bytes of `s` they take, up to and including the final block.
pub open spec fn inflate_blocks(s: Seq<u8>) -> Result<(Seq<u8>, int), InflateError>
    decreases s.len(),
{
    if s.len() < 1 {
        Err(InflateError::CorruptStream)
    } else if (s[0] / 2) % 4 == 3 {
        Err(InflateError::CorruptStream)
    } else if (s[0] / 2) % 4 != 0 {
        Err(InflateError::UnsupportedBlock)
    } else if s.len() < 5 {
        Err(InflateError::CorruptStream)
    } else {
        let len = s[1] as int + 256 * (s[2] as int);
        let nlen = s[3] as int + 256 * (s[4] as int);
        if len + nlen != 65535 || s.len() < 5 + len {
            Err(InflateError::CorruptStream)
        } else if s[0] % 2 == 1 {
            Ok((s.subrange(5, 5 + len), 5 + len))
        } else {
            match inflate_blocks(s.subrange(5 + len, s.len() as int)) {
                Ok(p) => Ok((s.subrange(5, 5 + len) + p.0, 5 + len + p.1)),
                Err(e) => Err(e),
            }
        }
    }
}

/// What `decompress` gives for the stream `s`.
pub open spec fn inflated(s: Seq<u8>) -> Result<Seq<u8>, InflateError> {
    if s.len() < 2 || !header_ok(s[0], s[1]) {
        Err(InflateError::CorruptStream)
    } else {
        match inflate_blocks(s.subrange(2, s.len() as int)) {
            Err(e) => Err(e),
            Ok(p) => if s.len() == 2 + p.1 + 4 && s.subrange(2 + p.1, s.len() as int) == u32_be(
                adler32_of(p.0),
            ) {
                Ok(p.0)
            } else {
                Err(InflateError::CorruptStream)
            },
        }
    }
}

/// Appends one stored block holding `data[start..end]`.
fn put_stored_block(out: &mut Vec<u8>, data: &Vec<u8>, start: usize, end: usize, last: bool)
    requires
        start <= end <= data.len(),
        end - start <= 65535,
    ensures
        final(out)@ == old(out)@ + stored_block(data@.subrange(start as int, end as int), last),
{
    let len = (end - start) as u16;
    put_u8(out, if last { 1u8 } else { 0u8 });
    put_u16(out, len);
    put_u16(out, 65535 - len);
    let ghost before = out@;
    let mut i: usize = start;
    while i < end
        invariant
            start <= i <= end,
            end <= data.len(),
            out@ == before + data@.subrange(start as int, i as int),
        decreases end - i,
    {
        out.push(data[i]);
        i = i + 1;
        assert(out@ =~= before + data@.subrange(start as int, i as int));
    }
    assert(out@ =~= old(out)@ + stored_block(data@.subrange(start as int, end as int), last));
}

/// Compresses `data` into a zlib stream of stored blocks.
pub fn compress(data: &Vec<u8>) -> (r: Vec<u8>)
    ensures
        r@ == compressed(data@),
{
    let mut out: Vec<u8> = Vec::new();
    out.push(0x78u8);
    out.push(0x01u8);
    let n = data.len();
    let mut pos: usize = 0;
    assert(data@.subrange(0, n as int) =~= data@);
    while n - pos > MAX_STORED
        invariant
            pos <= n,
            n == data.len(),
            out@ + stored_blocks(data@.subrange(pos as int, n as int)) == zlib_header()
                + stored_blocks(data@),
        decreases n - pos,
    {
        let ghost rest = data@.subrange(pos as int, n as int);
        let ghost prev = out@;
        put_stored_block(&mut out, data, pos, pos + MAX_STORED, false);
        assert(rest.subrange(0, 65535) =~= data@.subrange(pos as int, pos + 65535));
        assert(rest.subrange(65535, rest.len() as int) =~= data@.subrange(
            pos + 65535,
            n as int,
        ));
        pos = pos + MAX_STORED;
        assert(out@ + stored_blocks(data@.subrange(pos as int, n as int)) =~= prev
            + stored_blocks(rest));
    }
    let ghost prev = out@;
    put_stored_block(&mut out, data, pos, n, true);
    assert(out@ =~= zlib_header() + stored_blocks(data@));
    let sum = adler32(data);
    put_u32_be(&mut out, sum);
    out
}

/// `r` with `prefix` put in front of its bytes and `consumed` added to its
/// length.
pub open spec fn after_prefix(
    prefix: Seq<u8>,
    consumed: int,
    r: Result<(Seq<u8>, int), InflateError>,
) -> Result<(Seq<u8>, int), InflateError> {
    match r {
        Ok(p) => Ok((prefix + p.0, consumed + p.1)),
        Err(e) => Err(e),
    }
}

/// Whether `r` is what `decompress` owes for `s`.
pub open spec fn inflate_result(s: Seq<u8>, r: Result<Vec<u8>, InflateError>) -> bool {
    match inflated(s) {
        Ok(d) => r is Ok && r->Ok_0@ == d,
        Err(e) => r == Err::<Vec<u8>, InflateError>(e),
    }
}

/// Decompresses a zlib stream made of stored blocks.
pub fn decompress(s: &Vec<u8>) -> (r: Result<Vec<u8>, InflateError>)
    ensures
        inflate_result(s@, r),
{
    let n = s.len();
    if n < 2 {
        return Err(InflateError::CorruptStream);
    }
    let cmf = s[0];
    let flg = s[1];
    if !(cmf % 16 == 8 && cmf / 16 <= 7 && (cmf as u32 * 256 + flg as u32) % 31 == 0 && (flg / 32)
        % 2 == 0) {
        return Err(InflateError::CorruptStream);
    }
    let ghost body = s@.subrange(2, n as int);
    let mut out: Vec<u8> = Vec::new();
    let mut pos: usize = 2;
    assert(s@.subrange(2, n as int) =~= body);
    assert(out@ + seq![] =~= seq![]);
    loop
        invariant_except_break
            inflate_blocks(body) == after_prefix(
                out@,
                pos - 2,
                inflate_blocks(s@.subrange(pos as int, n as int)),
            ),
        invariant
            2 <= pos <= n,
            n == s.len(),
            body == s@.subrange(2, n as int),
            header_ok(s@[0], s@[1]),
        ensures
            inflate_blocks(body) == Ok::<(Seq<u8>, int), InflateError>((out@, pos - 2)),
        decreases n - pos,
    {
        let ghost rest = s@.subrange(pos as int, n as int);
        if n - pos < 1 {
            return Err(InflateError::CorruptStream);
        }
        let h = s[pos];
        assert(rest[0] == h);
        if (h / 2) % 4 == 3 {
            return Err(InflateError::CorruptStream);
        }
        if (h / 2) % 4 != 0 {
            return Err(InflateError::UnsupportedBlock);
        }
        if n - pos < 5 {
            return Err(InflateError::CorruptStream);
        }
        let len = s[pos + 1] as usize + 256 * (s[pos + 2] as usize);
        let nlen = s[pos + 3] as usize + 256 * (s[pos + 4] as usize);
        assert(rest[1] == s[pos + 1] && rest[2] == s[pos + 2]);
        assert(rest[3] == s[pos + 3] && rest[4] == s[pos + 4]);
        if len + nlen != 65535 || n - pos - 5 < len {
            return Err(InflateError::CorruptStream);
        }
        let ghost prev = out@;
        let mut i: usize = pos + 5;
        while i < pos + 5 + len
            invariant
                pos + 5 <= i <= pos + 5 + len,
                pos + 5 + len <= n,
                n == s.len(),
                out@ == prev + s@.subrange(pos + 5, i as int),
            decreases pos + 5 + len - i,
        {
            out.push(s[i]);
            i = i + 1;
            assert(out@ =~= prev + s@.subrange(pos + 5, i as int));
        }
        assert(rest.subrange(5, 5 + len) =~= s@.subrange(pos + 5, pos + 5 + len));
        assert(rest.subrange(5 + len, rest.len() as int) =~= s@.subrange(
            pos + 5 + len,
            n as int,
        ));
        pos = pos + 5 + len;
        if h % 2 == 1 {
            assert(inflate_blocks(body) == Ok::<(Seq<u8>, int), InflateError>(
                (out@, pos - 2),
            ));
            break;
        }
        assert(inflate_blocks(body) == after_prefix(
            out@,
            pos - 2,
            inflate_blocks(s@.subrange(pos as int, n as int)),
        )) by {
            assert(prev + rest.subrange(5, 5 + len) =~= out@);
            match inflate_blocks(s@.subrange(pos as int, n as int)) {
                Ok(p) => {
                    assert(prev + (rest.subrange(5, 5 + len) + p.0) =~= out@ + p.0);
                },
                Err(e) => {},
            }
        }
    }
    if n - pos != 4 {
        return Err(InflateError::CorruptStream);
    }
    let sum = adler32(&out);
    if s[pos] == (sum / 16777216) as u8 && s[pos + 1] == ((sum / 65536) % 256) as u8 && s[pos + 2]
        == ((sum / 256) % 256) as u8 && s[pos + 3] == (sum % 256) as u8 {
        assert(s@.subrange(pos as int, n as int) =~= u32_be(sum));
        Ok(out)
    } else {
        assert(s@.subrange(pos as int, n as int)[0] == s[pos as int]);
        assert(s@.subrange(pos as int, n as int)[1] == s[pos + 1]);
        assert(s@.subrange(pos as int, n as int)[2] == s[pos + 2]);
        assert(s@.subrange(pos as int, n as int)[3] == s[pos + 3]);
        assert(s@.subrange(pos as int, n as int) != u32_be(sum));
        Err(InflateError::CorruptStream)
    }
}

proof fn lemma_u16_le(v: u16)
    ensures
        u16_le(v).len() == 2,
        u16_le(v)[0] as int + 256 * (u16_le(v)[1] as int) == v as int,
{
}

/// The first five bytes of a stored block give its kind and its length.
proof fn lemma_block_frame(payload: Seq<u8>, last: bool, t: Seq<u8>)
    requires
        payload.len() <= 65535,
    ensures
        ({
            let s = stored_block(payload, last) + t;
            &&& s.len() == 5 + payload.len() as int + t.len()
            &&& s[0] == (if last { 1u8 } else { 0u8 })
            &&& s[1] as int + 256 * (s[2] as int) == payload.len()
            &&& s[3] as int + 256 * (s[4] as int) == 65535 - payload.len()
            &&& s.subrange(5, 5 + payload.len() as int) == payload
            &&& s.subrange(5 + payload.len() as int, s.len() as int) == t
        }),
{
    let s = stored_block(payload, last) + t;
    let a = u16_le(payload.len() as u16);
    let b = u16_le((65535 - payload.len()) as u16);
    lemma_u16_le(payload.len() as u16);
    lemma_u16_le((65535 - payload.len()) as u16);
    assert(s[1] == a[0] && s[2] == a[1]);
    assert(s[3] == b[0] && s[4] == b[1]);
    assert(s.subrange(5, 5 + payload.len() as int) =~= payload);
    assert(s.subrange(5 + payload.len() as int, s.len() as int) =~= t);
}

proof fn lemma_inflate_stored(d: Seq<u8>, t: Seq<u8>)
    ensures
        inflate_blocks(stored_blocks(d) + t) == Ok::<(Seq<u8>, int), InflateError>(
            (d, stored_blocks(d).len() as int),
        ),
    decreases d.len(),
{
    if d.len() <= 65535 {
        lemma_block_frame(d, true, t);
    } else {
        let first = d.subrange(0, 65535);
        let rest = d.subrange(65535, d.len() as int);
        lemma_inflate_stored(rest, t);
        lemma_block_frame(first, false, stored_blocks(rest) + t);
        assert(stored_blocks(d) + t =~= stored_block(first, false) + (stored_blocks(rest) + t));
        assert(first + rest =~= d);
    }
}

/// Decompressing what `compress` made of any bytes gives those bytes back.
pub proof fn lemma_round_trip(data: Seq<u8>)
    ensures
        inflated(compressed(data)) == Ok::<Seq<u8>, InflateError>(data),
{
    let s = compressed(data);
    let blocks = stored_blocks(data);
    let tail = u32_be(adler32_of(data));
    assert(s == zlib_header() + blocks + tail);
    assert(s[0] == 0x78u8 && s[1] == 0x01u8);
    assert(s.len() == 2 + blocks.len() + 4);
    assert(s.subrange(2, s.len() as int) =~= blocks + tail);
    lemma_inflate_stored(data, tail);
    assert(header_ok(s[0], s[1]));
    assert(s.subrange(2 + blocks.len() as int, s.len() as int) =~= tail);
}

/// Compresses `data` and decompresses the result: `data` comes back.
pub fn round_trip(data: &Vec<u8>) -> (r: Result<Vec<u8>, InflateError>)
    ensures
        r is Ok,
        r->Ok_0@ == data@,
{
    let c = compress(data);
    proof {
        lemma_round_trip(data@);
    }
    decompress(&c)
}

} // verus!
