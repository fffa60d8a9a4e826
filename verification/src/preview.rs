//! Writing a frame of the editor as a PNG: eight-bit truecolour, in stored
//! deflate blocks, so that no compressor is needed.

use vstd::prelude::*;

use crate::preset_file::push_u16;

verus! {

/// The longest run of bytes one stored block can carry.
pub const BLOCK: usize = 65535;

/// The modulus of an Adler checksum.
pub const ADLER: u32 = 65521;

/// Four bytes, highest first.
pub open spec fn be32(x: u32) -> Seq<u8> {
    seq![
        (x / 16777216) as u8,
        (x / 65536 % 256) as u8,
        (x / 256 % 256) as u8,
        (x % 256) as u8,
    ]
}

fn push_be32(out: &mut Vec<u8>, x: u32)
    ensures
        final(out)@ == old(out)@ + be32(x),
{
    out.push((x / 16777216) as u8);
    out.push((x / 65536 % 256) as u8);
    out.push((x / 256 % 256) as u8);
    out.push((x % 256) as u8);
    assert(out@ =~= old(out)@ + be32(x));
}

/// One more than the sum of the bytes.
pub open spec fn adler_low(data: Seq<u8>) -> nat
    decreases data.len(),
{
    if data.len() == 0 {
        1
    } else {
        (adler_low(data.drop_last()) + data.last() as nat) % (ADLER as nat)
    }
}

/// The sum of what that was after every byte.
pub open spec fn adler_high(data: Seq<u8>) -> nat
    decreases data.len(),
{
    if data.len() == 0 {
        0
    } else {
        (adler_high(data.drop_last()) + adler_low(data)) % (ADLER as nat)
    }
}

/// The Adler-32 checksum of some bytes: both sums, the second one on top.
pub fn adler32(data: &[u8]) -> (r: u32)
    ensures
        r == adler_high(data@) * 65536 + adler_low(data@),
{
    let mut a: u32 = 1;
    let mut b: u32 = 0;
    let mut i: usize = 0;
    while i < data.len()
        invariant
            i <= data@.len(),
            a == adler_low(data@.take(i as int)),
            b == adler_high(data@.take(i as int)),
            a < ADLER,
            b < ADLER,
        decreases data.len() - i,
    {
        proof {
            let upto = data@.take(i + 1);
            assert(upto.drop_last() =~= data@.take(i as int));
            assert(upto.last() == data@[i as int]);
        }
        a = (a + data[i] as u32) % ADLER;
        b = (b + a) % ADLER;
        i = i + 1;
    }
    assert(data@.take(i as int) =~= data@);
    b * 65536 + a
}

/// One step of the cyclic redundancy check, over one bit.
pub open spec fn crc_bit(crc: u32) -> u32 {
    if crc & 1 != 0 {
        (crc >> 1) ^ 0xedb8_8320
    } else {
        crc >> 1
    }
}

/// So many steps.
pub open spec fn crc_bits(crc: u32, n: nat) -> u32
    decreases n,
{
    if n == 0 {
        crc
    } else {
        crc_bit(crc_bits(crc, (n - 1) as nat))
    }
}

/// The check after some bytes, before it is turned over.
pub open spec fn crc_of(data: Seq<u8>) -> u32
    decreases data.len(),
{
    if data.len() == 0 {
        0xffff_ffff
    } else {
        crc_bits(crc_of(data.drop_last()) ^ (data.last() as u32), 8)
    }
}

/// The CRC-32 of some bytes.
pub fn crc32(data: &[u8]) -> (r: u32)
    ensures
        r == !crc_of(data@),
{
    let mut crc: u32 = 0xffff_ffff;
    let mut i: usize = 0;
    while i < data.len()
        invariant
            i <= data@.len(),
            crc == crc_of(data@.take(i as int)),
        decreases data.len() - i,
    {
        proof {
            let upto = data@.take(i + 1);
            assert(upto.drop_last() =~= data@.take(i as int));
            assert(upto.last() == data@[i as int]);
        }
        crc = crc ^ (data[i] as u32);
        let ghost start = crc;
        let mut k: usize = 0;
        while k < 8
            invariant
                k <= 8,
                crc == crc_bits(start, k as nat),
            decreases 8 - k,
        {
            crc =
            if crc & 1 != 0 {
                (crc >> 1) ^ 0xedb8_8320
            } else {
                crc >> 1
            };
            k = k + 1;
        }
        i = i + 1;
    }
    assert(data@.take(i as int) =~= data@);
    !crc
}

/// A chunk of a PNG: its length, its kind, its data, and a check of the last
/// two.
pub open spec fn chunk_bytes(kind: Seq<u8>, data: Seq<u8>) -> Seq<u8> {
    be32(data.len() as u32) + kind + data + be32(!crc_of(kind + data))
}

/// Append a chunk.
pub fn chunk(out: &mut Vec<u8>, kind: &[u8; 4], data: &[u8])
    requires
        data@.len() <= u32::MAX,
    ensures
        final(out)@ == old(out)@ + chunk_bytes(kind@, data@),
{
    push_be32(out, data.len() as u32);
    out.extend_from_slice(kind);
    out.extend_from_slice(data);
    let mut checked: Vec<u8> = Vec::new();
    checked.extend_from_slice(kind);
    checked.extend_from_slice(data);
    assert(checked@ =~= kind@ + data@);
    push_be32(out, crc32(checked.as_slice()));
    assert(out@ =~= old(out)@ + chunk_bytes(kind@, data@));
}

/// Data in stored blocks, as many as it takes, the last one marked.
pub open spec fn stored(data: Seq<u8>) -> Seq<u8>
    decreases data.len(),
{
    if data.len() == 0 {
        Seq::empty()
    } else if data.len() <= BLOCK {
        seq![1u8] + crate::preset_file::le16(data.len() as u16) + crate::preset_file::le16(
            (BLOCK - data.len()) as u16,
        ) + data
    } else {
        seq![0u8] + crate::preset_file::le16(BLOCK as u16) + crate::preset_file::le16(0)
            + data.take(BLOCK as int) + stored(data.skip(BLOCK as int))
    }
}

/// What stored blocks hold, if they are stored blocks: each carries its length
/// and the complement of it, and the last one says so.
pub open spec fn unstored(bytes: Seq<u8>) -> Option<Seq<u8>>
    decreases bytes.len(),
{
    if bytes.len() < 5 {
        None
    } else {
        let n = bytes[1] + 256 * bytes[2];
        let m = bytes[3] + 256 * bytes[4];
        if n + m != BLOCK || bytes.len() < 5 + n {
            None
        } else if bytes[0] == 1 {
            if bytes.len() == 5 + n {
                Some(bytes.skip(5))
            } else {
                None
            }
        } else if bytes[0] == 0 {
            match unstored(bytes.skip(5 + n)) {
                Some(rest) => Some(bytes.subrange(5, 5 + n) + rest),
                None => None,
            }
        } else {
            None
        }
    }
}

/// Data that was stored comes back out, whatever its length, as long as there is
/// any.
pub proof fn stored_data_comes_back(data: Seq<u8>)
    requires
        data.len() > 0,
    ensures
        unstored(stored(data)) == Some(data),
    decreases data.len(),
{
    let s = stored(data);
    if data.len() <= BLOCK {
        let n = data.len() as u16;
        let m = (BLOCK - data.len()) as u16;
        assert(s[0] == 1);
        let (low, high) = (crate::preset_file::le16(n), crate::preset_file::le16(m));
        assert(s[1] == low[0] && s[2] == low[1] && s[3] == high[0] && s[4] == high[1]);
        assert(s.skip(5) =~= data);
    } else {
        let rest = data.skip(BLOCK as int);
        stored_data_comes_back(rest);
        let first = data.take(BLOCK as int);
        let n = BLOCK as u16;
        assert(s[0] == 0);
        let (low, high) = (crate::preset_file::le16(n), crate::preset_file::le16(0));
        assert(s[1] == low[0] && s[2] == low[1] && s[3] == high[0] && s[4] == high[1]);
        assert(s.subrange(5, 5 + BLOCK) =~= first);
        assert(s.skip(5 + BLOCK) =~= stored(rest));
        assert(first + rest =~= data);
    }
}

fn push_stored(out: &mut Vec<u8>, data: &[u8])
    ensures
        final(out)@ == old(out)@ + stored(data@),
{
    let mut at: usize = 0;
    assert(data@.skip(0) =~= data@);
    while at < data.len()
        invariant
            at <= data@.len(),
            out@ + stored(data@.skip(at as int)) == old(out)@ + stored(data@),
        decreases data.len() - at,
    {
        let left: usize = data.len() - at;
        let n: usize = if left <= BLOCK {
            left
        } else {
            BLOCK
        };
        let ghost before = out@;
        let ghost rest = data@.skip(at as int);
        out.push(
            if left <= BLOCK {
                1
            } else {
                0
            },
        );
        push_u16(out, n as u16);
        push_u16(out, (BLOCK - n) as u16);
        let piece: &[u8] = vstd::slice::slice_subrange(data, at, at + n);
        out.extend_from_slice(piece);
        proof {
            let head = seq![if left <= BLOCK {
                1u8
            } else {
                0u8
            }] + crate::preset_file::le16(n as u16) + crate::preset_file::le16(
                (BLOCK - n) as u16,
            ) + piece@;
            assert(out@ =~= before + head);
            assert(data@.skip(at + n) =~= rest.skip(n as int));
            assert(piece@ =~= rest.take(n as int));
            if left <= BLOCK {
                assert(rest.take(n as int) =~= rest);
                assert(stored(data@.skip(at + n)) =~= Seq::<u8>::empty());
                assert(stored(rest) =~= head);
                assert(before + stored(rest) =~= out@ + stored(data@.skip(at + n)));
            } else {
                assert(stored(rest) =~= head + stored(rest.skip(n as int)));
                assert(before + stored(rest) =~= out@ + stored(rest.skip(n as int)));
            }
        }
        at = at + n;
    }
    assert(stored(data@.skip(at as int)) =~= Seq::<u8>::empty());
    assert(out@ + Seq::<u8>::empty() =~= out@);
}

/// The scan lines of a picture, top to bottom, each led by the filter it uses:
/// none.
pub open spec fn scan_lines(rgb: Seq<u8>, width: int, rows: int) -> Seq<u8>
    decreases rows,
{
    if rows <= 0 {
        Seq::empty()
    } else {
        scan_lines(rgb, width, rows - 1) + seq![0u8] + rgb.subrange(
            (rows - 1) * (3 * width),
            rows * (3 * width),
        )
    }
}

/// A zlib stream of stored blocks.
pub open spec fn zlib_bytes(raw: Seq<u8>) -> Seq<u8> {
    seq![0x78u8, 0x01] + stored(raw) + be32(
        (adler_high(raw) * 65536 + adler_low(raw)) as u32,
    )
}

/// How long a zlib stream of stored blocks is: two bytes before, four after, and
/// five for each block.
pub open spec fn zlib_size(n: int) -> int {
    6 + n + 5 * ((n + BLOCK - 1) / BLOCK as int)
}

proof fn lemma_stored_size(data: Seq<u8>)
    ensures
        stored(data).len() == data.len() + 5 * ((data.len() + BLOCK - 1) / BLOCK as int),
    decreases data.len(),
{
    if data.len() > BLOCK {
        lemma_stored_size(data.skip(BLOCK as int));
    }
}

proof fn lemma_scan_size(rgb: Seq<u8>, width: int, rows: int)
    requires
        0 <= width,
        0 <= rows,
        rgb.len() >= rows * (3 * width),
    ensures
        scan_lines(rgb, width, rows).len() == rows * (3 * width + 1),
    decreases rows,
{
    if rows > 0 {
        assert((rows - 1) * (3 * width) + 3 * width == rows * (3 * width)) by (nonlinear_arith);
        assert((rows - 1) * (3 * width) >= 0) by (nonlinear_arith)
            requires
                rows > 0,
                width >= 0,
        ;
        lemma_scan_size(rgb, width, rows - 1);
        assert((rows - 1) * (3 * width + 1) + 3 * width + 1 == rows * (3 * width + 1))
            by (nonlinear_arith);
    } else {
        assert(rows * (3 * width + 1) == 0) by (nonlinear_arith)
            requires
                rows == 0,
        ;
    }
}

/// A picture as a PNG.
pub open spec fn png_bytes(width: usize, height: usize, rgb: Seq<u8>) -> Seq<u8> {
    let raw = scan_lines(rgb, width as int, height as int);
    let header = be32(width as u32) + be32(height as u32) + seq![8u8, 2, 0, 0, 0];
    seq![0x89u8, 0x50, 0x4e, 0x47, 0x0d, 0x0a, 0x1a, 0x0a] + chunk_bytes(
        seq![0x49u8, 0x48, 0x44, 0x52],
        header,
    ) + chunk_bytes(seq![0x49u8, 0x44, 0x41, 0x54], zlib_bytes(raw)) + chunk_bytes(
        seq![0x49u8, 0x45, 0x4e, 0x44],
        Seq::empty(),
    )
}

/// Encode a picture as a PNG: three bytes a pixel, row by row. The bound is what
/// the length field of a chunk can count.
pub fn to_png(width: usize, height: usize, rgb: &Vec<u8>) -> (r: Vec<u8>)
    requires
        width <= u32::MAX,
        height <= u32::MAX,
        rgb@.len() == height * (3 * width),
        zlib_size(height * (3 * width + 1)) <= u32::MAX,
        3 * width <= usize::MAX,
    ensures
        r@ == png_bytes(width, height, rgb@),
{
    let stride: usize = 3 * width;
    let total: usize = rgb.len();
    let mut raw: Vec<u8> = Vec::new();
    let mut y: usize = 0;
    let mut at: usize = 0;
    assert(raw@ =~= scan_lines(rgb@, width as int, 0));
    while y < height
        invariant
            y <= height,
            stride == 3 * width,
            total == rgb@.len() == height * (3 * width),
            at == y * (3 * width),
            raw@ == scan_lines(rgb@, width as int, y as int),
        decreases height - y,
    {
        assert((y + 1) * (3 * width) == y * (3 * width) + 3 * width) by (nonlinear_arith);
        assert((y + 1) * (3 * width) <= height * (3 * width)) by (nonlinear_arith)
            requires
                y + 1 <= height,
        ;
        raw.push(0);
        let line: &[u8] = vstd::slice::slice_subrange(rgb.as_slice(), at, at + stride);
        raw.extend_from_slice(line);
        assert(raw@ =~= scan_lines(rgb@, width as int, y as int) + seq![0u8] + rgb@.subrange(
            y * (3 * width),
            (y + 1) * (3 * width),
        ));
        at = at + stride;
        y = y + 1;
    }

    proof {
        lemma_scan_size(rgb@, width as int, height as int);
        lemma_stored_size(raw@);
    }
    let mut zlib: Vec<u8> = Vec::new();
    zlib.push(0x78);
    zlib.push(0x01);
    assert(zlib@ =~= seq![0x78u8, 0x01]);
    push_stored(&mut zlib, raw.as_slice());
    push_be32(&mut zlib, adler32(raw.as_slice()));
    assert(zlib@ =~= zlib_bytes(raw@));

    let mut png: Vec<u8> = Vec::new();
    png.push(0x89);
    png.push(0x50);
    png.push(0x4e);
    png.push(0x47);
    png.push(0x0d);
    png.push(0x0a);
    png.push(0x1a);
    png.push(0x0a);
    assert(png@ =~= seq![0x89u8, 0x50, 0x4e, 0x47, 0x0d, 0x0a, 0x1a, 0x0a]);
    let mut header: Vec<u8> = Vec::new();
    push_be32(&mut header, width as u32);
    push_be32(&mut header, height as u32);
    let ghost sizes = header@;
    header.push(8);
    header.push(2);
    header.push(0);
    header.push(0);
    header.push(0);
    assert(header@ =~= sizes + seq![8u8, 2, 0, 0, 0]);
    assert(sizes =~= be32(width as u32) + be32(height as u32));
    let ihdr: [u8; 4] = [0x49, 0x48, 0x44, 0x52];
    let idat: [u8; 4] = [0x49, 0x44, 0x41, 0x54];
    let iend: [u8; 4] = [0x49, 0x45, 0x4e, 0x44];
    let nothing: Vec<u8> = Vec::new();
    assert(ihdr@ =~= seq![0x49u8, 0x48, 0x44, 0x52]);
    assert(idat@ =~= seq![0x49u8, 0x44, 0x41, 0x54]);
    assert(iend@ =~= seq![0x49u8, 0x45, 0x4e, 0x44]);
    assert(nothing@ =~= Seq::<u8>::empty());
    chunk(&mut png, &ihdr, header.as_slice());
    chunk(&mut png, &idat, zlib.as_slice());
    chunk(&mut png, &iend, nothing.as_slice());
    png
}

/// Four bytes hold a number with its highest byte first.
pub proof fn a_number_is_written_highest_byte_first(x: u32)
    ensures
        be32(x).len() == 4,
        0x100_0000 * be32(x)[0] + 0x1_0000 * be32(x)[1] + 0x100 * be32(x)[2] + be32(x)[3] == x,
{
}

/// A chunk is its length, its kind, its data, and a check over the last two.
pub proof fn a_chunk_is_laid_out_like_this(kind: Seq<u8>, data: Seq<u8>)
    requires
        kind.len() == 4,
        data.len() <= u32::MAX,
    ensures
        ({
            let c = chunk_bytes(kind, data);
            let n = data.len() as int;
            &&& c.len() == n + 12
            &&& c.take(4) == be32(n as u32)
            &&& c.subrange(4, 8) == kind
            &&& c.subrange(8, 8 + n) == data
            &&& c.skip(8 + n) == be32(!crc_of(kind + data))
        }),
{
    let c = chunk_bytes(kind, data);
    let n = data.len() as int;
    assert(c.take(4) =~= be32(n as u32));
    assert(c.subrange(4, 8) =~= kind);
    assert(c.subrange(8, 8 + n) =~= data);
    assert(c.skip(8 + n) =~= be32(!crc_of(kind + data)));
}

/// A picture opens with the signature of a PNG, and its first chunk says how wide
/// and how high it is, at eight bits a channel and three channels a pixel.
pub proof fn a_picture_says_its_size(width: usize, height: usize, rgb: Seq<u8>)
    requires
        width <= u32::MAX,
        height <= u32::MAX,
    ensures
        ({
            let png = png_bytes(width, height, rgb);
            &&& png.len() >= 33
            &&& png[0] == 0x89 && png[1] == 0x50 && png[2] == 0x4e && png[3] == 0x47
            &&& png[4] == 0x0d && png[5] == 0x0a && png[6] == 0x1a && png[7] == 0x0a
            &&& png.subrange(8, 12) == be32(13)
            &&& png[12] == 0x49 && png[13] == 0x48 && png[14] == 0x44 && png[15] == 0x52
            &&& png.subrange(16, 20) == be32(width as u32)
            &&& png.subrange(20, 24) == be32(height as u32)
            &&& png[24] == 8 && png[25] == 2
        }),
{
    let png = png_bytes(width, height, rgb);
    assert(png.subrange(8, 12) =~= be32(13));
    assert(png.subrange(16, 20) =~= be32(width as u32));
    assert(png.subrange(20, 24) =~= be32(height as u32));
}

/// The sum of some bytes.
pub open spec fn byte_sum(data: Seq<u8>) -> nat
    decreases data.len(),
{
    if data.len() == 0 {
        0
    } else {
        byte_sum(data.drop_last()) + data.last() as nat
    }
}

/// The sum of the sums of the first byte, of the first two, and so on.
pub open spec fn running_sum(data: Seq<u8>) -> nat
    decreases data.len(),
{
    if data.len() == 0 {
        0
    } else {
        running_sum(data.drop_last()) + byte_sum(data)
    }
}

/// The two halves of an Adler checksum are plain sums, modulo the largest prime
/// below 65536: one more than the sum of the bytes, and the sum of what that was
/// after each of them.
pub proof fn a_checksum_is_two_sums(data: Seq<u8>)
    ensures
        adler_low(data) == (1 + byte_sum(data)) % 65521,
        adler_high(data) == (data.len() + running_sum(data)) % 65521,
    decreases data.len(),
{
    if data.len() > 0 {
        let shorter = data.drop_last();
        a_checksum_is_two_sums(shorter);
        let last = data.last() as int;
        vstd::arithmetic::div_mod::lemma_add_mod_noop_right(
            last,
            (1 + byte_sum(shorter)) as int,
            65521,
        );
        vstd::arithmetic::div_mod::lemma_add_mod_noop(
            (shorter.len() + running_sum(shorter)) as int,
            (1 + byte_sum(data)) as int,
            65521,
        );
    }
}

/// A step of the cyclic redundancy check halves its register, and takes the
/// reversed polynomial of CRC-32 out of it when a one drops off the end; eight
/// steps take in a byte, and the register starts with all bits set.
pub proof fn a_check_divides_by_the_polynomial(crc: u32, data: Seq<u8>, byte: u8)
    ensures
        crc % 2 == 0 ==> crc_bit(crc) == crc / 2,
        crc % 2 == 1 ==> crc_bit(crc) ^ 0xedb8_8320 == crc / 2,
        crc_of(Seq::empty()) == 0xffff_ffff,
        crc_of(data.push(byte)) == crc_bits(crc_of(data) ^ (byte as u32), 8),
{
    assert(crc % 2 == 0 ==> crc & 1 == 0 && crc >> 1 == crc / 2) by (bit_vector);
    assert(crc % 2 == 1 ==> crc & 1 == 1 && ((crc >> 1) ^ 0xedb8_8320) ^ 0xedb8_8320 == crc / 2)
        by (bit_vector);
    assert(data.push(byte).drop_last() =~= data);
}

/// Each scan line of a picture is led by a zero, for no filter, and then holds the
/// bytes of its row in order.
pub proof fn a_scan_line_holds_its_row(rgb: Seq<u8>, width: int, rows: int, y: int, k: int)
    requires
        0 <= width,
        0 <= y < rows,
        rgb.len() >= rows * (3 * width),
        0 <= k < 3 * width,
    ensures
        y * (3 * width + 1) + 1 + k < scan_lines(rgb, width, rows).len(),
        scan_lines(rgb, width, rows)[y * (3 * width + 1)] == 0,
        scan_lines(rgb, width, rows)[y * (3 * width + 1) + 1 + k] == rgb[y * (3 * width) + k],
    decreases rows,
{
    let stride = 3 * width;
    let before = scan_lines(rgb, width, rows - 1);
    assert((rows - 1) * stride <= rows * stride) by (nonlinear_arith)
        requires
            stride >= 0,
    ;
    assert((rows - 1) * stride + stride == rows * stride) by (nonlinear_arith);
    lemma_scan_size(rgb, width, rows - 1);
    lemma_scan_size(rgb, width, rows);
    assert((rows - 1) * (stride + 1) + (stride + 1) == rows * (stride + 1)) by (nonlinear_arith);
    if y < rows - 1 {
        assert((y + 1) * (stride + 1) <= (rows - 1) * (stride + 1)) by (nonlinear_arith)
            requires
                y + 1 <= rows - 1,
                stride >= 0,
        ;
        assert((y + 1) * (stride + 1) == y * (stride + 1) + stride + 1) by (nonlinear_arith);
        assert(0 <= y * (stride + 1)) by (nonlinear_arith)
            requires
                y >= 0,
                stride >= 0,
        ;
        a_scan_line_holds_its_row(rgb, width, rows - 1, y, k);
        assert(scan_lines(rgb, width, rows)[y * (stride + 1)] == before[y * (stride + 1)]);
        assert(scan_lines(rgb, width, rows)[y * (stride + 1) + 1 + k] == before[y * (stride + 1) + 1
            + k]);
    } else {
        assert(before.len() == y * (stride + 1));
        let line = rgb.subrange((rows - 1) * stride, rows * stride);
        assert(line[k] == rgb[y * stride + k]);
    }
}

/// A zlib stream opens with the two bytes of its header, holds the stored blocks,
/// and closes with the checksum of what they hold.
pub proof fn a_stream_closes_with_its_checksum(raw: Seq<u8>)
    ensures
        ({
            let z = zlib_bytes(raw);
            &&& z[0] == 0x78 && z[1] == 0x01
            &&& z.subrange(2, z.len() - 4) == stored(raw)
            &&& z.skip(z.len() - 4) == be32(
                ((raw.len() + running_sum(raw)) % 65521 * 65536 + (1 + byte_sum(raw))
                    % 65521) as u32,
            )
        }),
{
    a_checksum_is_two_sums(raw);
    let z = zlib_bytes(raw);
    assert(z.subrange(2, z.len() - 4) =~= stored(raw));
    assert(z.skip(z.len() - 4) =~= be32((adler_high(raw) * 65536 + adler_low(raw)) as u32));
}

} // verus!
