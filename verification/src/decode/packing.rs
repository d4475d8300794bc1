//! Bounded packing of scaled RGBA monitor frames.
use crate::decode::geometry::{MAX_DIMENSION, MAX_FRAME_BYTES};
use crate::decode::monitor_cache::DecodedRgba;
use crate::decode::traversal::FrameStamp;
use std::sync::Arc;
use vstd::prelude::*;

verus! {

/// `count` transparent black bytes.
pub open spec fn zeros(count: int) -> Seq<u8> {
    Seq::new(if count < 0 { 0 } else { count as nat }, |i: int| 0u8)
}

/// A frame of `scaled_width` by `scaled_height` pixels in the middle of one of `output_width` by
/// `output_height`. Where the margin is odd, the extra pixel is on the right and at the bottom.
pub struct Placement {
    pub scaled_width: int,
    pub scaled_height: int,
    pub output_width: int,
    pub output_height: int,
}

impl Placement {
    /// Whether the inner frame fits.
    pub open spec fn valid(self) -> bool {
        &&& 0 <= self.scaled_width <= self.output_width
        &&& 0 <= self.scaled_height <= self.output_height
    }

    pub open spec fn x_offset(self) -> int {
        (self.output_width - self.scaled_width) / 2
    }

    pub open spec fn y_offset(self) -> int {
        (self.output_height - self.scaled_height) / 2
    }

    /// Whether an output row shows a row of the inner frame.
    pub open spec fn shows(self, row: int) -> bool {
        self.y_offset() <= row < self.y_offset() + self.scaled_height
    }

    /// One output row. Rows of the inner frame start every `stride` bytes in `data`.
    pub open spec fn row(self, data: Seq<u8>, stride: int, row: int) -> Seq<u8> {
        if self.shows(row) {
            let start = (row - self.y_offset()) * stride;
            zeros(self.x_offset() * 4) + data.subrange(start, start + self.scaled_width * 4)
                + zeros((self.output_width - self.scaled_width - self.x_offset()) * 4)
        } else {
            zeros(self.output_width * 4)
        }
    }

    /// The first `count` output rows, one after the other.
    pub open spec fn rows(self, data: Seq<u8>, stride: int, count: int) -> Seq<u8>
        decreases count,
    {
        if count <= 0 {
            Seq::empty()
        } else {
            self.rows(data, stride, count - 1) + self.row(data, stride, count - 1)
        }
    }

    /// The whole output frame.
    pub open spec fn packed(self, data: Seq<u8>, stride: int) -> Seq<u8> {
        self.rows(data, stride, self.output_height)
    }
}

/// The placement of two sizes.
pub open spec fn placement(scaled_size: (u32, u32), output_size: (u32, u32)) -> Placement {
    Placement {
        scaled_width: scaled_size.0 as int,
        scaled_height: scaled_size.1 as int,
        output_width: output_size.0 as int,
        output_height: output_size.1 as int,
    }
}

/// Why a dimension is refused.
pub open spec fn dimension_error(name: Seq<char>, dimension: u32) -> Option<Seq<char>> {
    if dimension == 0 {
        Some(name + " must be nonzero"@)
    } else if dimension > MAX_DIMENSION {
        Some(name + " exceeds the maximum dimension"@)
    } else {
        None
    }
}

/// Why a frame cannot be packed: the first of its faults.
pub open spec fn packing_error(
    data_len: int,
    stride: int,
    scaled_size: (u32, u32),
    output_size: (u32, u32),
) -> Option<Seq<char>> {
    if dimension_error("scaled width"@, scaled_size.0) is Some {
        dimension_error("scaled width"@, scaled_size.0)
    } else if dimension_error("scaled height"@, scaled_size.1) is Some {
        dimension_error("scaled height"@, scaled_size.1)
    } else if dimension_error("output width"@, output_size.0) is Some {
        dimension_error("output width"@, output_size.0)
    } else if dimension_error("output height"@, output_size.1) is Some {
        dimension_error("output height"@, output_size.1)
    } else if scaled_size.0 > output_size.0 || scaled_size.1 > output_size.1 {
        Some("scaled RGBA frame exceeds its output bounds"@)
    } else if stride < scaled_size.0 * 4 {
        Some("monitor scaler returned an RGBA stride shorter than its row"@)
    } else if stride * scaled_size.1 > usize::MAX {
        Some("scaled RGBA source length overflow"@)
    } else if data_len < stride * scaled_size.1 {
        Some("monitor scaler returned a truncated RGBA frame"@)
    } else {
        None
    }
}

/// Shares `bytes` without any of them changing. This is the conversion that the standard library
/// defines from `Vec<u8>` to `Arc<[u8]>`, which moves the items into a shared slice.
#[verifier::external_body]
fn shared_bytes(bytes: Vec<u8>) -> (shared: Arc<[u8]>)
    ensures
        shared@ == bytes@,
{
    Arc::from(bytes)
}

fn validate_dimension(name: &str, dimension: u32) -> (valid: Result<(), String>)
    ensures
        match valid {
            Ok(()) => dimension_error(name@, dimension) is None,
            Err(message) => dimension_error(name@, dimension) == Some(message@),
        },
{
    if dimension == 0 {
        let mut message = String::from_str(name);
        message.append(" must be nonzero");
        return Err(message);
    }
    if dimension > MAX_DIMENSION {
        let mut message = String::from_str(name);
        message.append(" exceeds the maximum dimension");
        return Err(message);
    }
    Ok(())
}

fn push_zeros(output: &mut Vec<u8>, count: usize)
    ensures
        final(output)@ == old(output)@ + zeros(count as int),
{
    let ghost before = output@;
    let mut i: usize = 0;
    assert(output@ =~= before + zeros(0));
    while i < count
        invariant
            i <= count,
            output@ == before + zeros(i as int),
        decreases count - i,
    {
        output.push(0);
        i += 1;
        assert(output@ =~= before + zeros(i as int));
    }
}

fn push_bytes(output: &mut Vec<u8>, data: &[u8], start: usize, end: usize)
    requires
        start <= end <= data@.len(),
    ensures
        final(output)@ == old(output)@ + data@.subrange(start as int, end as int),
{
    let ghost before = output@;
    let mut i: usize = start;
    assert(output@ =~= before + data@.subrange(start as int, start as int));
    while i < end
        invariant
            start <= i <= end <= data@.len(),
            output@ == before + data@.subrange(start as int, i as int),
        decreases end - i,
    {
        output.push(data[i]);
        i += 1;
        assert(output@ =~= before + data@.subrange(start as int, i as int));
    }
}

/// Packs the rows of `data` into the middle of an output frame.
fn pack_rows(
    data: &[u8],
    stride: usize,
    scaled_size: (u32, u32),
    output_size: (u32, u32),
) -> (output: Vec<u8>)
    requires
        placement(scaled_size, output_size).valid(),
        stride >= scaled_size.0 * 4,
        stride * scaled_size.1 <= data@.len(),
        output_size.0 * 4 <= usize::MAX,
        output_size.0 * output_size.1 * 4 <= usize::MAX,
    ensures
        output@ == placement(scaled_size, output_size).packed(data@, stride as int),
{
    let ghost place = placement(scaled_size, output_size);
    assert(0 <= output_size.0 * output_size.1) by (nonlinear_arith);
    let scaled_width: usize = scaled_size.0 as usize;
    let scaled_height: usize = scaled_size.1 as usize;
    let output_width: usize = output_size.0 as usize;
    let output_height: usize = output_size.1 as usize;
    let x_offset: usize = (output_width - scaled_width) / 2;
    let y_offset: usize = (output_height - scaled_height) / 2;
    let source_row_bytes: usize = scaled_width * 4;
    let available: usize = data.len();
    let mut output: Vec<u8> = Vec::with_capacity(output_width * output_height * 4);
    let mut row: usize = 0;
    assert(output@ =~= place.rows(data@, stride as int, 0));
    while row < output_height
        invariant
            row <= output_height,
            place == placement(scaled_size, output_size),
            place.valid(),
            scaled_width == scaled_size.0,
            scaled_height == scaled_size.1,
            output_width == output_size.0,
            output_height == output_size.1,
            x_offset == place.x_offset(),
            y_offset == place.y_offset(),
            source_row_bytes == scaled_width * 4,
            output_width * 4 <= usize::MAX,
            stride >= source_row_bytes,
            stride * scaled_size.1 <= available,
            available == data@.len(),
            output@ == place.rows(data@, stride as int, row as int),
        decreases output_height - row,
    {
        let ghost before = output@;
        if y_offset <= row && row - y_offset < scaled_height {
            let source_row: usize = row - y_offset;
            assert(source_row * stride + source_row_bytes <= stride * scaled_height && 0
                <= source_row * stride) by (nonlinear_arith)
                requires
                    0 <= source_row < scaled_height,
                    0 <= source_row_bytes <= stride,
            ;
            let start: usize = source_row * stride;
            let right: usize = output_width - scaled_width - x_offset;
            push_zeros(&mut output, x_offset * 4);
            push_bytes(&mut output, data, start, start + source_row_bytes);
            push_zeros(&mut output, right * 4);
        } else {
            push_zeros(&mut output, output_width * 4);
        }
        assert(output@ =~= before + place.row(data@, stride as int, row as int));
        row += 1;
    }
    output
}

/// Packs the rows of a scaled frame into the middle of a bounded output frame. `stride` is the
/// distance of the rows in `data`.
pub fn pack_rgba_rows(
    data: &[u8],
    stride: usize,
    scaled_size: (u32, u32),
    output_size: (u32, u32),
) -> (packed: Result<Arc<[u8]>, String>)
    ensures
        match packed {
            Ok(rgba) => {
                &&& packing_error(data@.len() as int, stride as int, scaled_size, output_size)
                    is None
                &&& rgba@ == placement(scaled_size, output_size).packed(data@, stride as int)
            },
            Err(message) => packing_error(
                data@.len() as int,
                stride as int,
                scaled_size,
                output_size,
            ) == Some(message@),
        },
{
    if let Err(message) = validate_dimension("scaled width", scaled_size.0) {
        return Err(message);
    }
    if let Err(message) = validate_dimension("scaled height", scaled_size.1) {
        return Err(message);
    }
    if let Err(message) = validate_dimension("output width", output_size.0) {
        return Err(message);
    }
    if let Err(message) = validate_dimension("output height", output_size.1) {
        return Err(message);
    }
    if scaled_size.0 > output_size.0 || scaled_size.1 > output_size.1 {
        return Err(String::from_str("scaled RGBA frame exceeds its output bounds"));
    }
    let source_row_bytes: usize = scaled_size.0 as usize * 4;
    if stride < source_row_bytes {
        return Err(
            String::from_str("monitor scaler returned an RGBA stride shorter than its row"),
        );
    }
    let source_bytes: usize = match stride.checked_mul(scaled_size.1 as usize) {
        Some(bytes) => bytes,
        None => {
            return Err(String::from_str("scaled RGBA source length overflow"));
        },
    };
    if data.len() < source_bytes {
        return Err(String::from_str("monitor scaler returned a truncated RGBA frame"));
    }
    assert(output_size.0 * output_size.1 * 4 <= MAX_FRAME_BYTES) by (nonlinear_arith)
        requires
            output_size.0 <= 4_096,
            output_size.1 <= 4_096,
            MAX_FRAME_BYTES == 67_108_864,
    ;
    Ok(shared_bytes(pack_rows(data, stride, scaled_size, output_size)))
}

/// The frame that a scaler wrote: its format, its size, the distance of its rows as the scaler
/// states it, and the bytes that its plane really has.
#[derive(Clone, Copy, Debug)]
pub struct ScaledFrame<'a> {
    pub is_rgba: bool,
    pub width: u32,
    pub height: u32,
    pub linesize: i32,
    pub data: &'a [u8],
}

/// Why a scaler's frame cannot be packed.
pub open spec fn scaler_output_error(
    frame: ScaledFrame,
    scaled_size: (u32, u32),
    output_size: (u32, u32),
) -> Option<Seq<char>> {
    if !frame.is_rgba {
        Some("monitor scaler returned a frame that is not RGBA"@)
    } else if frame.width != scaled_size.0 || frame.height != scaled_size.1 {
        Some("monitor scaler returned a frame of another size"@)
    } else if frame.linesize <= 0 {
        Some("monitor scaler returned an invalid RGBA stride"@)
    } else {
        packing_error(frame.data@.len() as int, frame.linesize as int, scaled_size, output_size)
    }
}

/// Packs a scaler's frame. Nothing of its pixels is read before its description was checked.
pub fn pack_monitor_rgba(
    frame: &ScaledFrame,
    scaled_size: (u32, u32),
    output_size: (u32, u32),
) -> (packed: Result<Arc<[u8]>, String>)
    ensures
        match packed {
            Ok(rgba) => {
                &&& scaler_output_error(*frame, scaled_size, output_size) is None
                &&& rgba@ == placement(scaled_size, output_size).packed(
                    frame.data@,
                    frame.linesize as int,
                )
            },
            Err(message) => scaler_output_error(*frame, scaled_size, output_size) == Some(message@),
        },
{
    if !frame.is_rgba {
        return Err(String::from_str("monitor scaler returned a frame that is not RGBA"));
    }
    if frame.width != scaled_size.0 || frame.height != scaled_size.1 {
        return Err(String::from_str("monitor scaler returned a frame of another size"));
    }
    if frame.linesize <= 0 {
        return Err(String::from_str("monitor scaler returned an invalid RGBA stride"));
    }
    pack_rgba_rows(frame.data, frame.linesize as usize, scaled_size, output_size)
}

/// Packs a scaler's frame with the stamp of its traversal.
pub fn pack_decoded_monitor_frame(
    frame: &ScaledFrame,
    scaled_size: (u32, u32),
    output_size: (u32, u32),
    stamp: FrameStamp,
) -> (packed: Result<DecodedRgba, String>)
    ensures
        match packed {
            Ok(rgba) => {
                &&& scaler_output_error(*frame, scaled_size, output_size) is None
                &&& rgba.request_id == stamp.request_id
                &&& rgba.target_tick == stamp.target_tick
                &&& rgba.source_tick == stamp.source_tick
                &&& rgba.width == output_size.0
                &&& rgba.height == output_size.1
                &&& rgba.rgba@ == placement(scaled_size, output_size).packed(
                    frame.data@,
                    frame.linesize as int,
                )
            },
            Err(message) => scaler_output_error(*frame, scaled_size, output_size) == Some(message@),
        },
{
    match pack_monitor_rgba(frame, scaled_size, output_size) {
        Ok(rgba) => Ok(
            DecodedRgba {
                request_id: stamp.request_id,
                target_tick: stamp.target_tick,
                source_tick: stamp.source_tick,
                width: output_size.0,
                height: output_size.1,
                rgba,
            },
        ),
        Err(message) => Err(message),
    }
}

/// Copies the rows of a scaled frame together, without the padding between them.
pub fn copy_rgba_frame(data: &[u8], stride: usize, width: u32, height: u32) -> (copied: Result<
    Vec<u8>,
    String,
>)
    requires
        width * 4 <= usize::MAX,
        width * height * 4 <= usize::MAX,
        stride * height <= usize::MAX,
    ensures
        match copied {
            Ok(rgba) => {
                &&& stride >= width * 4
                &&& data@.len() >= stride * height
                &&& rgba@ == placement((width, height), (width, height)).packed(
                    data@,
                    stride as int,
                )
            },
            Err(message) => {
                &&& stride < width * 4 || data@.len() < stride * height
                &&& message@ == "monitor scaler returned a truncated RGBA frame"@
            },
        },
{
    let row_bytes: usize = width as usize * 4;
    if stride < row_bytes || data.len() < stride * height as usize {
        return Err(String::from_str("monitor scaler returned a truncated RGBA frame"));
    }
    Ok(pack_rows(data, stride, (width, height), (width, height)))
}

/// Puts a scaled frame into the middle of an output frame.
pub fn letterbox_rgba(scaled: Vec<u8>, scaled_size: (u32, u32), output_size: (u32, u32)) -> (output:
    Vec<u8>)
    requires
        scaled_size != output_size ==> {
            &&& placement(scaled_size, output_size).valid()
            &&& scaled_size.0 * scaled_size.1 * 4 <= scaled@.len()
            &&& output_size.0 * 4 <= usize::MAX
            &&& output_size.0 * output_size.1 * 4 <= usize::MAX
        },
    ensures
        output@ == (if scaled_size == output_size {
            scaled@
        } else {
            placement(scaled_size, output_size).packed(scaled@, scaled_size.0 * 4)
        }),
{
    if scaled_size.0 == output_size.0 && scaled_size.1 == output_size.1 {
        return scaled;
    }
    assert((scaled_size.0 * 4) * scaled_size.1 == scaled_size.0 * scaled_size.1 * 4)
        by (nonlinear_arith);
    let stride: usize = scaled_size.0 as usize * 4;
    pack_rows(scaled.as_slice(), stride, scaled_size, output_size)
}

proof fn lemma_row_len(place: Placement, data: Seq<u8>, stride: int, row: int)
    requires
        place.valid(),
        stride >= place.scaled_width * 4,
        stride * place.scaled_height <= data.len(),
        0 <= row < place.output_height,
    ensures
        place.row(data, stride, row).len() == place.output_width * 4,
        place.shows(row) ==> 0 <= (row - place.y_offset()) * stride && (row - place.y_offset())
            * stride + place.scaled_width * 4 <= data.len(),
{
    if place.shows(row) {
        let source_row = row - place.y_offset();
        let height = place.scaled_height;
        let row_bytes = place.scaled_width * 4;
        assert(0 <= source_row * stride && source_row * stride + row_bytes <= stride * height)
            by (nonlinear_arith)
            requires
                0 <= source_row < height,
                0 <= row_bytes <= stride,
        ;
    }
}

/// The rows of a packed frame follow each other without a gap.
proof fn lemma_rows(place: Placement, data: Seq<u8>, stride: int, count: int, row: int, byte: int)
    requires
        place.valid(),
        stride >= place.scaled_width * 4,
        stride * place.scaled_height <= data.len(),
        0 <= row < count <= place.output_height,
        0 <= byte < place.output_width * 4,
    ensures
        place.rows(data, stride, count).len() == count * (place.output_width * 4),
        0 <= row * (place.output_width * 4) + byte < place.rows(data, stride, count).len(),
        place.rows(data, stride, count)[row * (place.output_width * 4) + byte] == place.row(
            data,
            stride,
            row,
        )[byte],
    decreases count,
{
    let width = place.output_width * 4;
    let shorter = place.rows(data, stride, count - 1);
    lemma_row_len(place, data, stride, count - 1);
    lemma_rows_len(place, data, stride, count - 1);
    assert(count * width == (count - 1) * width + width) by (nonlinear_arith);
    assert(0 <= row * width && row * width + byte < count * width) by (nonlinear_arith)
        requires
            0 <= row < count,
            0 <= byte < width,
    ;
    if row < count - 1 {
        lemma_rows(place, data, stride, count - 1, row, byte);
    } else {
        assert(row * width + byte - shorter.len() == byte);
    }
}

proof fn lemma_rows_len(place: Placement, data: Seq<u8>, stride: int, count: int)
    requires
        place.valid(),
        stride >= place.scaled_width * 4,
        stride * place.scaled_height <= data.len(),
        0 <= count <= place.output_height,
    ensures
        place.rows(data, stride, count).len() == count * (place.output_width * 4),
    decreases count,
{
    let width = place.output_width * 4;
    if count > 0 {
        lemma_rows_len(place, data, stride, count - 1);
        lemma_row_len(place, data, stride, count - 1);
        assert(count * width == (count - 1) * width + width) by (nonlinear_arith);
    } else {
        assert(count * width == 0) by (nonlinear_arith)
            requires
                count == 0,
        ;
    }
}

/// A packed frame has exactly the bytes of its output size.
pub proof fn law_packed_frame_has_its_output_size(place: Placement, data: Seq<u8>, stride: int)
    requires
        place.valid(),
        stride >= place.scaled_width * 4,
        stride * place.scaled_height <= data.len(),
    ensures
        place.packed(data, stride).len() == place.output_height * (place.output_width * 4),
{
    lemma_rows_len(place, data, stride, place.output_height);
}

/// Every pixel of the inner frame stands where its placement says, with its alpha, and everything
/// around it is transparent black.
pub proof fn law_pixels_keep_their_place(
    place: Placement,
    data: Seq<u8>,
    stride: int,
    x: int,
    y: int,
    channel: int,
)
    requires
        place.valid(),
        stride >= place.scaled_width * 4,
        stride * place.scaled_height <= data.len(),
        0 <= x < place.output_width,
        0 <= y < place.output_height,
        0 <= channel < 4,
    ensures
        place.packed(data, stride)[y * (place.output_width * 4) + (x * 4 + channel)] == (
        if place.shows(y) && place.x_offset() <= x < place.x_offset() + place.scaled_width {
            data[(y - place.y_offset()) * stride + ((x - place.x_offset()) * 4 + channel)]
        } else {
            0u8
        }),
{
    lemma_rows(place, data, stride, place.output_height, y, x * 4 + channel);
    lemma_row_len(place, data, stride, y);
}

/// Packing in one go gives the bytes that copying the rows together and letterboxing the copy
/// gives.
pub proof fn law_packing_equals_copy_then_letterbox(place: Placement, data: Seq<u8>, stride: int)
    requires
        place.valid(),
        stride >= place.scaled_width * 4,
        stride * place.scaled_height <= data.len(),
    ensures
        ({
            let native = Placement {
                output_width: place.scaled_width,
                output_height: place.scaled_height,
                ..place
            };
            let copied = native.packed(data, stride);
            &&& place.packed(copied, place.scaled_width * 4) == place.packed(data, stride)
            &&& place.scaled_width == place.output_width && place.scaled_height
                == place.output_height ==> copied == place.packed(data, stride)
        }),
{
    let native = Placement {
        output_width: place.scaled_width,
        output_height: place.scaled_height,
        ..place
    };
    let copied = native.packed(data, stride);
    let row_bytes = place.scaled_width * 4;
    lemma_rows_len(native, data, stride, native.output_height);
    assert(place.scaled_height * row_bytes == row_bytes * place.scaled_height) by (nonlinear_arith);
    lemma_equal_rows(place, native, data, stride, copied, place.output_height);
}

proof fn lemma_equal_rows(
    place: Placement,
    native: Placement,
    data: Seq<u8>,
    stride: int,
    copied: Seq<u8>,
    count: int,
)
    requires
        place.valid(),
        native == (Placement {
            output_width: place.scaled_width,
            output_height: place.scaled_height,
            ..place
        }),
        stride >= place.scaled_width * 4,
        stride * place.scaled_height <= data.len(),
        copied == native.packed(data, stride),
        place.scaled_width * 4 * place.scaled_height <= copied.len(),
        0 <= count <= place.output_height,
    ensures
        place.rows(copied, place.scaled_width * 4, count) == place.rows(data, stride, count),
    decreases count,
{
    let row_bytes = place.scaled_width * 4;
    if count > 0 {
        lemma_equal_rows(place, native, data, stride, copied, count - 1);
        let row = count - 1;
        lemma_row_len(place, data, stride, row);
        lemma_row_len(place, copied, row_bytes, row);
        if place.shows(row) {
            let source_row = row - place.y_offset();
            assert(native.y_offset() == 0 && native.x_offset() == 0);
            let from_copy = copied.subrange(
                source_row * row_bytes,
                source_row * row_bytes + row_bytes,
            );
            let from_data = data.subrange(source_row * stride, source_row * stride + row_bytes);
            assert forall|b: int| 0 <= b < row_bytes implies from_copy[b] == from_data[b] by {
                lemma_rows(native, data, stride, native.output_height, source_row, b);
                lemma_row_len(native, data, stride, source_row);
            }
            assert(from_copy =~= from_data);
        }
        assert(place.row(copied, row_bytes, row) =~= place.row(data, stride, row));
    }
}

/// The inner frame stands in the middle: the margins of an axis differ by one pixel at most, the
/// smaller one first, and its pixels are found there in their rows and columns, each channel as it
/// was.
pub proof fn law_inner_frame_is_centred(
    place: Placement,
    data: Seq<u8>,
    stride: int,
    i: int,
    j: int,
    channel: int,
)
    requires
        0 <= place.scaled_width <= place.output_width,
        0 <= place.scaled_height <= place.output_height,
        stride >= place.scaled_width * 4,
        stride * place.scaled_height <= data.len(),
        0 <= i < place.scaled_width,
        0 <= j < place.scaled_height,
        0 <= channel < 4,
    ensures
        ({
            let left = (place.output_width - place.scaled_width) / 2;
            let above = (place.output_height - place.scaled_height) / 2;
            &&& 0 <= left <= place.output_width - place.scaled_width - left <= left + 1
            &&& 0 <= above <= place.output_height - place.scaled_height - above <= above + 1
            &&& place.packed(data, stride)[(above + j) * (place.output_width * 4) + ((left + i) * 4
                + channel)] == data[j * stride + (i * 4 + channel)]
        }),
{
    let x = place.x_offset() + i;
    let y = place.y_offset() + j;
    law_pixels_keep_their_place(place, data, stride, x, y, channel);
}

/// Everything beside the inner frame is transparent black.
pub proof fn law_margins_are_transparent(
    place: Placement,
    data: Seq<u8>,
    stride: int,
    x: int,
    y: int,
    channel: int,
)
    requires
        0 <= place.scaled_width <= place.output_width,
        0 <= place.scaled_height <= place.output_height,
        stride >= place.scaled_width * 4,
        stride * place.scaled_height <= data.len(),
        0 <= x < place.output_width,
        0 <= y < place.output_height,
        0 <= channel < 4,
        ({
            let left = (place.output_width - place.scaled_width) / 2;
            let above = (place.output_height - place.scaled_height) / 2;
            x < left || x >= left + place.scaled_width || y < above || y >= above
                + place.scaled_height
        }),
    ensures
        place.packed(data, stride)[y * (place.output_width * 4) + (x * 4 + channel)] == 0,
{
    law_pixels_keep_their_place(place, data, stride, x, y, channel);
}

/// A placement is made from its two sizes, each where it belongs.
pub proof fn law_placement_holds_both_sizes(scaled: (u32, u32), output: (u32, u32))
    ensures
        placement(scaled, output).scaled_width == scaled.0,
        placement(scaled, output).scaled_height == scaled.1,
        placement(scaled, output).output_width == output.0,
        placement(scaled, output).output_height == output.1,
{
}

/// A frame is packed exactly where both sizes lie between one pixel and 4,096 to a side, the scaled
/// one fits into the output, its rows do not overlap and all of them are there.
pub proof fn law_packing_is_refused_only_for_a_fault(
    data_len: int,
    stride: int,
    scaled: (u32, u32),
    output: (u32, u32),
)
    ensures
        packing_error(data_len, stride, scaled, output) is None <==> {
            &&& 1 <= scaled.0 <= output.0 <= 4_096
            &&& 1 <= scaled.1 <= output.1 <= 4_096
            &&& scaled.0 * 4 <= stride
            &&& stride * scaled.1 <= usize::MAX
            &&& stride * scaled.1 <= data_len
        },
{
}

/// What is said of a refused frame is its first fault, sizes before bounds and bounds before rows.
pub proof fn law_packing_names_the_first_fault(
    data_len: int,
    stride: int,
    scaled: (u32, u32),
    output: (u32, u32),
)
    ensures
        ({
            let error = packing_error(data_len, stride, scaled, output);
            let sized = 1 <= scaled.0 <= 4_096 && 1 <= scaled.1 <= 4_096 && 1 <= output.0 <= 4_096
                && 1 <= output.1 <= 4_096;
            &&& scaled.0 == 0 ==> error == Some("scaled width"@ + " must be nonzero"@)
            &&& scaled.0 > 4_096 ==> error == Some(
                "scaled width"@ + " exceeds the maximum dimension"@,
            )
            &&& 1 <= scaled.0 <= 4_096 && scaled.1 == 0 ==> error == Some(
                "scaled height"@ + " must be nonzero"@,
            )
            &&& 1 <= scaled.0 <= 4_096 && scaled.1 > 4_096 ==> error == Some(
                "scaled height"@ + " exceeds the maximum dimension"@,
            )
            &&& 1 <= scaled.0 <= 4_096 && 1 <= scaled.1 <= 4_096 && output.0 == 0 ==> error == Some(
                "output width"@ + " must be nonzero"@,
            )
            &&& 1 <= scaled.0 <= 4_096 && 1 <= scaled.1 <= 4_096 && output.0 > 4_096 ==> error
                == Some("output width"@ + " exceeds the maximum dimension"@)
            &&& 1 <= scaled.0 <= 4_096 && 1 <= scaled.1 <= 4_096 && 1 <= output.0 <= 4_096
                && output.1 == 0 ==> error == Some("output height"@ + " must be nonzero"@)
            &&& 1 <= scaled.0 <= 4_096 && 1 <= scaled.1 <= 4_096 && 1 <= output.0 <= 4_096
                && output.1 > 4_096 ==> error == Some(
                "output height"@ + " exceeds the maximum dimension"@,
            )
            &&& sized && (scaled.0 > output.0 || scaled.1 > output.1) ==> error == Some(
                "scaled RGBA frame exceeds its output bounds"@,
            )
            &&& sized && scaled.0 <= output.0 && scaled.1 <= output.1 && stride < scaled.0 * 4
                ==> error == Some("monitor scaler returned an RGBA stride shorter than its row"@)
            &&& sized && scaled.0 <= output.0 && scaled.1 <= output.1 && stride >= scaled.0 * 4
                && stride * scaled.1 > usize::MAX ==> error == Some(
                "scaled RGBA source length overflow"@,
            )
            &&& sized && scaled.0 <= output.0 && scaled.1 <= output.1 && stride >= scaled.0 * 4
                && stride * scaled.1 <= usize::MAX && data_len < stride * scaled.1 ==> error
                == Some("monitor scaler returned a truncated RGBA frame"@)
        }),
{
}

/// A scaler's frame is packed exactly where it is RGBA, of the size that was asked for, its rows go
/// forward, and its bytes can be packed.
pub proof fn law_scaler_output_is_checked(
    frame: ScaledFrame,
    scaled: (u32, u32),
    output: (u32, u32),
)
    ensures
        scaler_output_error(frame, scaled, output) is None <==> {
            &&& frame.is_rgba
            &&& frame.width == scaled.0
            &&& frame.height == scaled.1
            &&& frame.linesize > 0
            &&& packing_error(frame.data@.len() as int, frame.linesize as int, scaled, output)
                is None
        },
{
}

/// Packing puts each pixel of the source where it stands in the middle of the output, and transparent
/// black around it; it succeeds exactly where the sizes and the bytes allow it.
pub proof fn law_packed_bytes_are_the_source_centred(
    data: &[u8],
    stride: usize,
    scaled: (u32, u32),
    output: (u32, u32),
    packed: Result<Arc<[u8]>, String>,
    x: int,
    y: int,
    channel: int,
)
    requires
        call_ensures(pack_rgba_rows, (data, stride, scaled, output), packed),
        0 <= x < output.0,
        0 <= y < output.1,
        0 <= channel < 4,
    ensures
        packed is Ok <==> {
            &&& 1 <= scaled.0 <= output.0 <= 4_096
            &&& 1 <= scaled.1 <= output.1 <= 4_096
            &&& scaled.0 * 4 <= stride
            &&& stride * scaled.1 <= usize::MAX
            &&& stride * scaled.1 <= data@.len()
        },
        packed matches Ok(rgba) ==> {
            let left = (output.0 - scaled.0) / 2;
            let above = (output.1 - scaled.1) / 2;
            &&& rgba@.len() == output.1 * (output.0 * 4)
            &&& rgba@[y * (output.0 * 4) + (x * 4 + channel)] == (if left <= x < left + scaled.0
                && above <= y < above + scaled.1 {
                data@[(y - above) * stride + ((x - left) * 4 + channel)]
            } else {
                0u8
            })
        },
{
    law_packing_is_refused_only_for_a_fault(data@.len() as int, stride as int, scaled, output);
    if packed is Ok {
        let place = placement(scaled, output);
        law_packed_frame_has_its_output_size(place, data@, stride as int);
        law_pixels_keep_their_place(place, data@, stride as int, x, y, channel);
    }
}

/// A packed frame carries the identity, the target and the time of its stamp, and the size of the output.
pub proof fn law_packed_frame_carries_its_stamp(
    frame: &ScaledFrame,
    scaled: (u32, u32),
    output: (u32, u32),
    stamp: FrameStamp,
    packed: Result<DecodedRgba, String>,
)
    requires
        call_ensures(pack_decoded_monitor_frame, (frame, scaled, output, stamp), packed),
    ensures
        packed matches Ok(rgba) ==> {
            &&& rgba.request_id == stamp.request_id
            &&& rgba.target_tick == stamp.target_tick
            &&& rgba.source_tick == stamp.source_tick
            &&& rgba.width == output.0
            &&& rgba.height == output.1
            &&& rgba.rgba@.len() == output.1 * (output.0 * 4)
            &&& frame.is_rgba && frame.width == scaled.0 && frame.height == scaled.1
                && frame.linesize > 0
        },
{
    if packed is Ok {
        law_packing_is_refused_only_for_a_fault(
            frame.data@.len() as int,
            frame.linesize as int,
            scaled,
            output,
        );
        law_packed_frame_has_its_output_size(
            placement(scaled, output),
            frame.data@,
            frame.linesize as int,
        );
    }
}

} // verus!
