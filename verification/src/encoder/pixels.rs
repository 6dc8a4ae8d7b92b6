//! Pixels as the encoder takes them: BGRA rows without anything between them.

use vstd::prelude::*;

use vstd::arithmetic::div_mod::lemma_fundamental_div_mod_converse;

use crate::capture::frame::{Frame, PixelFormat};
use crate::encoder::error::EncoderError;
use crate::text::{append_decimal, decimal};

verus! {

/// Bytes of a row of pixels.
pub open spec fn row_bytes(frame: Frame) -> nat {
    (frame.width * 4) as nat
}

/// Bytes from one row to the next in `len` bytes of data. Where the frame says
/// that there is nothing between its rows, but there is more data than that,
/// the rows are spread evenly.
pub open spec fn row_stride(frame: Frame, len: nat) -> nat {
    if frame.stride == row_bytes(frame) && len > row_bytes(frame) * frame.height && frame.height > 0
        && len % frame.height as nat == 0 {
        len / frame.height as nat
    } else {
        frame.stride as nat
    }
}

/// `height` rows of `row` bytes, taken from data in which they begin `stride`
/// bytes apart.
pub open spec fn rows(data: Seq<u8>, row: nat, height: nat, stride: nat) -> Seq<u8> {
    Seq::new(row * height, |i: int| data[(i / row as int) * stride + i % row as int])
}

/// The pixels with their first and third byte exchanged. Bytes behind the last
/// whole pixel stay as they are.
pub open spec fn exchanged(data: Seq<u8>) -> Seq<u8> {
    Seq::new(
        data.len(),
        |i: int|
            if i - i % 4 + 4 > data.len() {
                data[i]
            } else if i % 4 == 0 {
                data[i + 2]
            } else if i % 4 == 2 {
                data[i - 2]
            } else {
                data[i]
            },
    )
}

/// The pixels as BGRA.
pub open spec fn as_bgra(format: PixelFormat, data: Seq<u8>) -> Seq<u8> {
    match format {
        PixelFormat::Rgba | PixelFormat::Rgbx => exchanged(data),
        _ => data,
    }
}

/// Converts pixels to BGRA.
pub fn convert_pixel_format(format: PixelFormat, data: &[u8]) -> (pixels: Vec<u8>)
    ensures
        pixels@ == as_bgra(format, data@),
{
    let exchange: bool = format == PixelFormat::Rgba || format == PixelFormat::Rgbx;
    let mut pixels: Vec<u8> = Vec::new();
    let mut i: usize = 0;
    while i < data.len()
        invariant
            i <= data@.len(),
            pixels@ == as_bgra(format, data@).take(i as int),
            exchange == (format == PixelFormat::Rgba || format == PixelFormat::Rgbx),
        decreases data@.len() - i,
    {
        let part: usize = i % 4;
        let byte: u8 = if !exchange || data.len() - (i - part) < 4 {
            data[i]
        } else if part == 0 {
            data[i + 2]
        } else if part == 2 {
            data[i - 2]
        } else {
            data[i]
        };
        pixels.push(byte);
        i = i + 1;
        assert(pixels@ =~= as_bgra(format, data@).take(i as int));
    }
    assert(as_bgra(format, data@).take(i as int) =~= as_bgra(format, data@));
    pixels
}

/// Whether the sizes that a frame speaks of are sizes of memory.
pub open spec fn sizes_fit(frame: Frame) -> bool {
    &&& row_bytes(frame) <= usize::MAX
    &&& row_bytes(frame) * frame.height <= usize::MAX
    &&& frame.stride * frame.height <= usize::MAX
}

/// Whether every row lies within the data, also where the rows overlap.
pub open spec fn rows_fit(frame: Frame, len: nat) -> bool {
    frame.height > 0 && row_stride(frame, len) < row_bytes(frame) ==> (frame.height - 1)
        * row_stride(frame, len) + row_bytes(frame) <= len
}

/// Whether there is enough data for the rows.
pub open spec fn enough_data(frame: Frame, len: nat) -> bool {
    row_stride(frame, len) * frame.height <= len
}

/// What is said of a frame with too little data.
pub open spec fn too_small_text(frame: Frame, len: nat) -> Seq<char> {
    "frame data too small: got "@ + decimal(len) + " bytes, expected at least "@ + decimal(
        row_stride(frame, len) * frame.height as nat,
    )
}

/// Makes pixels of a captured frame ready for the encoder: BGRA rows without
/// anything between them. A frame in an unknown format, or with too little
/// data, is an error.
pub fn normalize_frame_data(frame: &Frame, data: &[u8]) -> (pixels: Result<Vec<u8>, EncoderError>)
    requires
        frame.format != PixelFormat::Unknown ==> sizes_fit(*frame),
        frame.format != PixelFormat::Unknown && enough_data(*frame, data@.len()) ==> rows_fit(
            *frame,
            data@.len(),
        ),
    ensures
        match pixels {
            Ok(pixels) => {
                &&& frame.format != PixelFormat::Unknown
                &&& enough_data(*frame, data@.len())
                &&& pixels@ == as_bgra(
                    frame.format,
                    rows(
                        data@,
                        row_bytes(*frame),
                        frame.height as nat,
                        row_stride(*frame, data@.len()),
                    ),
                )
            },
            Err(EncoderError::UnsupportedFormat(format)) => frame.format == PixelFormat::Unknown
                && format == PixelFormat::Unknown,
            Err(EncoderError::EncodingFailed(text)) => {
                &&& frame.format != PixelFormat::Unknown
                &&& !enough_data(*frame, data@.len())
                &&& text@ == too_small_text(*frame, data@.len())
            },
            Err(_) => false,
        },
{
    if frame.format == PixelFormat::Unknown {
        return Err(EncoderError::UnsupportedFormat(frame.format));
    }
    let ghost len = data@.len();
    proof {
        if frame.stride == row_bytes(*frame) && len > row_bytes(*frame) * frame.height
            && frame.height > 0 && len % frame.height as nat == 0 {
            vstd::arithmetic::div_mod::lemma_fundamental_div_mod(len as int, frame.height as int);
            assert((len / frame.height as nat) * frame.height == len) by (nonlinear_arith)
                requires
                    len as int == (frame.height as int) * ((len as int) / (frame.height as int))
                        + (len as int) % (frame.height as int),
                    len % frame.height as nat == 0,
                    frame.height > 0,
            ;
        }
    }
    let height: usize = frame.height as usize;
    let row: usize = frame.width as usize * 4;
    let packed_len: usize = row * height;
    let mut stride: usize = frame.stride as usize;
    if stride == row && data.len() > packed_len && height > 0 && data.len() % height == 0 {
        stride = data.len() / height;
    }
    assert(stride as nat == row_stride(*frame, len));
    let expected_len: usize = stride * height;
    if data.len() < expected_len {
        let mut text: String = "frame data too small: got ".to_string();
        append_decimal(&mut text, data.len() as u64);
        text.append(" bytes, expected at least ");
        append_decimal(&mut text, expected_len as u64);
        assert(text@ =~= too_small_text(*frame, len));
        return Err(EncoderError::EncodingFailed(text));
    }
    assert(height > 0 ==> (height - 1) * stride + row <= len) by {
        if height > 0 && stride >= row {
            assert((height - 1) * stride + row <= stride * height) by (nonlinear_arith)
                requires
                    height > 0,
                    stride >= row,
            ;
        }
    }
    let packed: Vec<u8> = pack_rows(data, row, height, stride);
    Ok(convert_pixel_format(frame.format, &packed))
}

/// Takes rows out of data in which they begin `stride` bytes apart.
fn pack_rows(data: &[u8], row: usize, height: usize, stride: usize) -> (packed: Vec<u8>)
    requires
        row * height <= usize::MAX,
        stride * height <= usize::MAX,
        height > 0 ==> (height - 1) * stride + row <= data@.len(),
    ensures
        packed@ == rows(data@, row as nat, height as nat, stride as nat),
{
    let ghost all = rows(data@, row as nat, height as nat, stride as nat);
    let len: usize = data.len();
    let mut packed: Vec<u8> = Vec::new();
    let mut r: usize = 0;
    assert(packed@ =~= all.take(0));
    while r < height
        invariant
            r <= height,
            row * height <= usize::MAX,
            stride * height <= usize::MAX,
            height > 0 ==> (height - 1) * stride + row <= len,
            len == data@.len(),
            all == rows(data@, row as nat, height as nat, stride as nat),
            r * row <= row * height,
            packed@ == all.take((r * row) as int),
        decreases height - r,
    {
        proof {
            assert(r * stride <= (height - 1) * stride && r * stride <= stride * height)
                by (nonlinear_arith)
                requires
                    r <= height - 1,
            ;
            assert(r * row + row == (r + 1) * row && (r + 1) * row <= row * height)
                by (nonlinear_arith)
                requires
                    r + 1 <= height,
            ;
        }
        let start: usize = r * stride;
        let mut c: usize = 0;
        while c < row
            invariant
                c <= row,
                start == r * stride,
                start + row <= len,
                len == data@.len(),
                r * row + row <= row * height,
                all == rows(data@, row as nat, height as nat, stride as nat),
                packed@ == all.take(r * row + c),
            decreases row - c,
        {
            packed.push(data[start + c]);
            proof {
                let k = r * row + c;
                lemma_fundamental_div_mod_converse(k, row as int, r as int, c as int);
                assert(all.len() == row * height);
                assert(all[k] == data@[start + c]);
            }
            c = c + 1;
            assert(packed@ =~= all.take(r * row + c));
        }
        r = r + 1;
    }
    assert(row * height == height * row) by (nonlinear_arith);
    assert(height == 0 ==> row * height == 0) by (nonlinear_arith);
    assert(all.take((r * row) as int) =~= all);
    packed
}

/// Exchanging twice gives the pixels back.
pub proof fn exchanged_twice(data: Seq<u8>)
    ensures
        exchanged(exchanged(data)) == data,
{
    assert(exchanged(exchanged(data)) =~= data);
}

/// What the encoder gets has the size that its frames have, whatever lies
/// between the rows of the captured frame.
pub proof fn normalized_size(frame: Frame, data: Seq<u8>)
    ensures
        as_bgra(
            frame.format,
            rows(data, row_bytes(frame), frame.height as nat, row_stride(frame, data.len())),
        ).len() == row_bytes(frame) * frame.height,
{
}

/// Data without anything between its rows is taken as it is.
pub proof fn packed_rows_are_kept(data: Seq<u8>, row: nat, height: nat)
    requires
        data.len() >= row * height,
    ensures
        rows(data, row, height, row) == data.take((row * height) as int),
{
    let all = rows(data, row, height, row);
    assert forall|i: int| 0 <= i < row * height implies all[i] == data[i] by {
        assert(row > 0) by (nonlinear_arith)
            requires
                0 <= i < row * height,
        ;
        vstd::arithmetic::div_mod::lemma_fundamental_div_mod(i, row as int);
        assert((i / row as int) * row == row * (i / row as int)) by (nonlinear_arith);
    }
    assert(all =~= data.take((row * height) as int));
}

/// Every row is where it was: the byte in column `c` of row `r`.
pub proof fn row_contents(data: Seq<u8>, row: nat, height: nat, stride: nat, r: nat, c: nat)
    requires
        r < height,
        c < row,
    ensures
        r * row + c < row * height,
        rows(data, row, height, stride)[(r * row + c) as int] == data[(r * stride + c) as int],
{
    assert(r * row + c < row * height) by (nonlinear_arith)
        requires
            r < height,
            c < row,
    ;
    lemma_fundamental_div_mod_converse((r * row + c) as int, row as int, r as int, c as int);
}

/// Every pixel reaches the encoder from where it was: the pixel in column `c` of
/// row `r` of the captured frame, behind the rows before it with all that lies
/// between them, comes out at the same place of the packed frame, with blue first.
/// Where the frame says that nothing lies between its rows, but its data is more
/// and can be divided into as many equal rows, that much lies between them.
pub proof fn pixels_keep_their_places(frame: Frame, data: Seq<u8>, r: nat, c: nat)
    requires
        r < frame.height,
        c < frame.width,
    ensures
        ({
            let row = 4 * frame.width as nat;
            let spread = frame.stride == row && data.len() > row * frame.height && data.len()
                % frame.height as nat == 0;
            let stride = if spread {
                data.len() / frame.height as nat
            } else {
                frame.stride as nat
            };
            let out = as_bgra(
                frame.format,
                rows(data, row_bytes(frame), frame.height as nat, row_stride(frame, data.len())),
            );
            let to = (r * row + 4 * c) as int;
            let from = (r * stride + 4 * c) as int;
            let red_first = frame.format == PixelFormat::Rgba || frame.format == PixelFormat::Rgbx;
            &&& out.len() == row * frame.height
            &&& to + 4 <= out.len()
            &&& red_first ==> out[to] == data[from + 2] && out[to + 2] == data[from]
            &&& !red_first ==> out[to] == data[from] && out[to + 2] == data[from + 2]
            &&& out[to + 1] == data[from + 1]
            &&& out[to + 3] == data[from + 3]
            &&& enough_data(frame, data.len()) <==> stride * frame.height <= data.len()
        }),
{
    let row = 4 * frame.width as nat;
    let stride = row_stride(frame, data.len());
    let packed = rows(data, row, frame.height as nat, stride);
    let to = r * row + 4 * c;
    assert(row == row_bytes(frame));
    row_contents(data, row, frame.height as nat, stride, r, 4 * c);
    row_contents(data, row, frame.height as nat, stride, r, 4 * c + 1);
    row_contents(data, row, frame.height as nat, stride, r, 4 * c + 2);
    row_contents(data, row, frame.height as nat, stride, r, 4 * c + 3);
    assert(r * row == 4 * (r * frame.width)) by (nonlinear_arith)
        requires
            row == 4 * frame.width as nat,
    ;
    assert(to % 4 == 0);
}

/// There is enough data exactly if it holds as many rows as the frame has, as far
/// apart as the frame says.
pub proof fn rows_need_data(frame: Frame, len: nat)
    ensures
        enough_data(frame, len) <==> len >= frame.stride * frame.height,
        len < frame.stride * frame.height ==> too_small_text(frame, len)
            == "frame data too small: got "@ + decimal(len) + " bytes, expected at least "@
            + decimal((frame.stride * frame.height) as nat),
{
    let stride = row_stride(frame, len);
    assert(frame.stride * frame.height == frame.stride as nat * frame.height as nat);
    if frame.height > 0 && frame.stride == row_bytes(frame) && len > row_bytes(frame) * frame.height
        && len % frame.height as nat == 0 {
        vstd::arithmetic::div_mod::lemma_fundamental_div_mod(len as int, frame.height as int);
        assert(stride * frame.height == len) by (nonlinear_arith)
            requires
                stride == len / frame.height as nat,
                len as int == (frame.height as int) * ((len as int) / (frame.height as int)) + (
                len as int) % (frame.height as int),
                len % frame.height as nat == 0,
                frame.height > 0,
        ;
    }
    if frame.height == 0 {
        assert(stride * 0 == 0);
    }
}

/// Pixels keep their order, and only red and blue change places, and only where
/// red comes first: every four bytes are those of the same pixel.
pub proof fn pixels_are_converted(format: PixelFormat, data: Seq<u8>, k: int)
    requires
        0 <= k,
        4 * k + 4 <= data.len(),
    ensures
        ({
            let out = as_bgra(format, data);
            let red_first = format == PixelFormat::Rgba || format == PixelFormat::Rgbx;
            &&& out.len() == data.len()
            &&& out[4 * k] == if red_first {
                data[4 * k + 2]
            } else {
                data[4 * k]
            }
            &&& out[4 * k + 1] == data[4 * k + 1]
            &&& out[4 * k + 2] == if red_first {
                data[4 * k]
            } else {
                data[4 * k + 2]
            }
            &&& out[4 * k + 3] == data[4 * k + 3]
        }),
        forall|i: int|
            data.len() - data.len() % 4 <= i < data.len() ==> #[trigger] as_bgra(format, data)[i]
                == data[i],
{
}

} // verus!
