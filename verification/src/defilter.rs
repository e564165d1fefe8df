//! Reconstruction of the raster from the inflated stream of filtered
//! scanlines.

use crate::error::DefilterError;
use crate::filter::{
    filtered_row, lemma_unfilter_inverts_filter, lemma_unfiltered_row_bytes, unfilter_row,
    unfiltered_row, FilterType, BYTES_PER_PIXEL,
};
use vstd::prelude::*;

verus! {

/// Number of bytes in one row of an image `width` pixels wide.
pub open spec fn stride_of(width: u32) -> nat {
    (width * BYTES_PER_PIXEL) as nat
}

/// Where scanline `k` begins in the inflated stream: each scanline takes
/// one filter-type byte and `stride` data bytes.
pub open spec fn row_start(stride: nat, k: nat) -> int {
    (k * (stride + 1)) as int
}

/// The filter-type byte that leads scanline `k`.
pub open spec fn filter_byte(data: Seq<u8>, stride: nat, k: nat) -> u8 {
    data[row_start(stride, k)]
}

/// The filtered bytes of scanline `k`.
pub open spec fn filtered_scanline(data: Seq<u8>, stride: nat, k: nat) -> Seq<u8> {
    data.subrange(row_start(stride, k) + 1, row_start(stride, k + 1))
}

/// What is wrong with scanline `k` taken alone: the stream ends before the
/// scanline does, or its filter-type byte selects no filter.
pub open spec fn row_fault(data: Seq<u8>, stride: nat, k: nat) -> Option<DefilterError> {
    if data.len() < row_start(stride, k + 1) {
        Some(DefilterError::TruncatedData)
    } else if filter_byte(data, stride, k) > 4 {
        Some(DefilterError::UnsupportedFilterType(filter_byte(data, stride, k)))
    } else {
        None
    }
}

/// The fault of the first faulty scanline among the first `rows`.
pub open spec fn first_fault(data: Seq<u8>, stride: nat, rows: nat) -> Option<DefilterError>
    decreases rows,
{
    if rows == 0 {
        None
    } else {
        match first_fault(data, stride, (rows - 1) as nat) {
            Some(e) => Some(e),
            None => row_fault(data, stride, (rows - 1) as nat),
        }
    }
}

/// The row above the first scanline: all zeros.
pub open spec fn zero_row(stride: nat) -> Seq<u8> {
    Seq::new(stride, |i: int| 0u8)
}

/// The reconstructed row `k` of the image.
pub open spec fn scanline(data: Seq<u8>, stride: nat, k: nat) -> Seq<u8>
    decreases k,
{
    let above = if k == 0 {
        zero_row(stride)
    } else {
        scanline(data, stride, (k - 1) as nat)
    };
    match FilterType::of(filter_byte(data, stride, k)) {
        Some(filter) => unfiltered_row(filter, filtered_scanline(data, stride, k), above),
        None => Seq::empty(),
    }
}

/// The first `rows` reconstructed rows of the image, one after the other.
pub open spec fn raster(data: Seq<u8>, stride: nat, rows: nat) -> Seq<u8>
    decreases rows,
{
    if rows == 0 {
        Seq::empty()
    } else {
        raster(data, stride, (rows - 1) as nat) + scanline(data, stride, (rows - 1) as nat)
    }
}

/// The outcome of defiltering an inflated stream for an image of the given
/// dimensions: the fault of the first faulty scanline, or the raster.
pub open spec fn defiltered(data: Seq<u8>, width: u32, height: u32) -> Result<
    Seq<u8>,
    DefilterError,
> {
    match first_fault(data, stride_of(width), height as nat) {
        Some(e) => Err(e),
        None => Ok(raster(data, stride_of(width), height as nat)),
    }
}

/// Scanlines lie one after the other.
pub proof fn lemma_row_start_step(stride: nat, k: nat)
    ensures
        row_start(stride, k + 1) == row_start(stride, k) + stride + 1,
        row_start(stride, 0) == 0,
{
    assert((k + 1) * (stride + 1) == k * (stride + 1) + stride + 1) by (nonlinear_arith);
}

/// A fault among the first rows remains the first fault however many rows
/// follow.
pub proof fn lemma_first_fault_stays(data: Seq<u8>, stride: nat, rows: nat, more: nat)
    requires
        rows <= more,
        first_fault(data, stride, rows) is Some,
    ensures
        first_fault(data, stride, more) == first_fault(data, stride, rows),
    decreases more,
{
    if rows < more {
        lemma_first_fault_stays(data, stride, rows, (more - 1) as nat);
    }
}

/// Later scanlines begin further into the stream.
pub proof fn lemma_row_start_monotonic(stride: nat, i: nat, j: nat)
    requires
        i <= j,
    ensures
        row_start(stride, i) <= row_start(stride, j),
{
    assert(i * (stride + 1) <= j * (stride + 1)) by (nonlinear_arith)
        requires
            i <= j,
    ;
}

/// The first fault is the fault of a scanline before which no scanline is
/// faulty; there is none exactly if no scanline is faulty.
pub proof fn lemma_first_fault_cases(data: Seq<u8>, stride: nat, rows: nat)
    ensures
        match first_fault(data, stride, rows) {
            None => forall|k: nat| k < rows ==> row_fault(data, stride, k) is None,
            Some(e) => exists|k: nat|
                k < rows && #[trigger] row_fault(data, stride, k) == Some(e) && forall|j: nat|
                    j < k ==> row_fault(data, stride, j) is None,
        },
    decreases rows,
{
    if rows > 0 {
        let before = (rows - 1) as nat;
        lemma_first_fault_cases(data, stride, before);
        match first_fault(data, stride, before) {
            Some(e) => {
                let k = choose|k: nat|
                    k < before && #[trigger] row_fault(data, stride, k) == Some(e) && forall|j: nat|
                        j < k ==> row_fault(data, stride, j) is None;
                assert(k < rows && row_fault(data, stride, k) == Some(e));
            },
            None => {
                if row_fault(data, stride, before) is Some {
                    assert(before < rows && row_fault(data, stride, before) == first_fault(
                        data,
                        stride,
                        rows,
                    ));
                }
            },
        }
    }
}

/// The fault of a scanline before which no scanline is faulty is the first
/// fault.
pub proof fn lemma_first_fault_at(data: Seq<u8>, stride: nat, rows: nat, k: nat)
    requires
        k < rows,
        row_fault(data, stride, k) is Some,
        forall|j: nat| j < k ==> row_fault(data, stride, j) is None,
    ensures
        first_fault(data, stride, rows) == row_fault(data, stride, k),
{
    lemma_first_fault_cases(data, stride, k);
    assert(first_fault(data, stride, k) is None);
    assert(first_fault(data, stride, k + 1) == row_fault(data, stride, k));
    lemma_first_fault_stays(data, stride, k + 1, rows);
}

/// While no scanline is faulty, each reconstructed row has `stride` bytes
/// and the raster has `rows * stride`.
pub proof fn lemma_raster_len(data: Seq<u8>, stride: nat, rows: nat)
    requires
        first_fault(data, stride, rows) is None,
    ensures
        raster(data, stride, rows).len() == rows * stride,
        rows > 0 ==> scanline(data, stride, (rows - 1) as nat).len() == stride,
    decreases rows,
{
    if rows > 0 {
        let k = (rows - 1) as nat;
        lemma_raster_len(data, stride, k);
        lemma_row_start_step(stride, k);
        let above = if k == 0 {
            zero_row(stride)
        } else {
            scanline(data, stride, (k - 1) as nat)
        };
        lemma_unfiltered_row_bytes(
            FilterType::of(filter_byte(data, stride, k)).unwrap(),
            filtered_scanline(data, stride, k),
            above,
        );
        assert(rows * stride == k * stride + stride) by (nonlinear_arith)
            requires
                rows == k + 1,
        ;
    } else {
        assert(rows * stride == 0) by (nonlinear_arith)
            requires
                rows == 0,
        ;
    }
}

/// Defiltering succeeds exactly if the stream holds all the scanlines that
/// the dimensions call for and each begins with a filter-type byte from 0
/// to 4; the raster then has `height * 3 * width` bytes.
pub proof fn lemma_defiltered_ok(data: Seq<u8>, width: u32, height: u32)
    ensures
        defiltered(data, width, height) is Ok <==> {
            &&& height > 0 ==> data.len() >= row_start(stride_of(width), height as nat)
            &&& forall|k: nat| k < height ==> filter_byte(data, stride_of(width), k) <= 4
        },
        defiltered(data, width, height) matches Ok(pixels) ==> pixels.len() == height * stride_of(
            width,
        ),
{
    let stride = stride_of(width);
    let rows = height as nat;
    lemma_first_fault_cases(data, stride, rows);
    if first_fault(data, stride, rows) is None {
        lemma_raster_len(data, stride, rows);
        if height > 0 {
            assert(row_fault(data, stride, (rows - 1) as nat) is None);
        }
        assert forall|k: nat| k < height implies filter_byte(data, stride, k) <= 4 by {
            assert(row_fault(data, stride, k) is None);
        }
    }
    if (height > 0 ==> data.len() >= row_start(stride, rows)) && (forall|k: nat|
        k < height ==> filter_byte(data, stride, k) <= 4) {
        assert forall|k: nat| k < rows implies row_fault(data, stride, k) is None by {
            lemma_row_start_monotonic(stride, k + 1, rows);
        }
    }
}

/// On a stream that holds all the scanlines, a filter-type byte above 4 at
/// any row makes defiltering fail with `UnsupportedFilterType`, and no
/// raster comes out. The error carries the byte of the first such row.
pub proof fn lemma_unsupported_filter_rejected(data: Seq<u8>, width: u32, height: u32, k: nat)
    requires
        data.len() >= row_start(stride_of(width), height as nat),
        k < height,
        filter_byte(data, stride_of(width), k) > 4,
    ensures
        defiltered(data, width, height) matches Err(DefilterError::UnsupportedFilterType(byte))
            && byte > 4,
        (forall|j: nat| j < k ==> filter_byte(data, stride_of(width), j) <= 4) ==> defiltered(
            data,
            width,
            height,
        ) == Err::<Seq<u8>, DefilterError>(
            DefilterError::UnsupportedFilterType(filter_byte(data, stride_of(width), k)),
        ),
{
    let stride = stride_of(width);
    let rows = height as nat;
    lemma_first_fault_cases(data, stride, rows);
    lemma_row_start_monotonic(stride, k + 1, rows);
    assert(row_fault(data, stride, k) is Some);
    match first_fault(data, stride, rows) {
        Some(e) => {
            let first = choose|i: nat|
                i < rows && #[trigger] row_fault(data, stride, i) == Some(e) && forall|j: nat|
                    j < i ==> row_fault(data, stride, j) is None;
            lemma_row_start_monotonic(stride, first + 1, rows);
        },
        None => {},
    }
    if forall|j: nat| j < k ==> filter_byte(data, stride, j) <= 4 {
        assert forall|j: nat| j < k implies row_fault(data, stride, j) is None by {
            lemma_row_start_monotonic(stride, j + 1, rows);
        }
        lemma_first_fault_at(data, stride, rows, k);
    }
}

/// Defiltering fails with `TruncatedData` exactly if the stream is shorter
/// than the dimensions call for and every scanline that it holds in full
/// begins with a filter-type byte from 0 to 4.
pub proof fn lemma_truncated_data(data: Seq<u8>, width: u32, height: u32)
    ensures
        defiltered(data, width, height) == Err::<Seq<u8>, DefilterError>(
            DefilterError::TruncatedData,
        ) <==> {
            &&& data.len() < row_start(stride_of(width), height as nat)
            &&& forall|k: nat|
                k < height && row_start(stride_of(width), k + 1) <= data.len() ==> filter_byte(
                    data,
                    stride_of(width),
                    k,
                ) <= 4
        },
{
    let stride = stride_of(width);
    let rows = height as nat;
    lemma_first_fault_cases(data, stride, rows);
    lemma_row_start_step(stride, 0);
    if defiltered(data, width, height) == Err::<Seq<u8>, DefilterError>(
        DefilterError::TruncatedData,
    ) {
        let first = choose|i: nat|
            i < rows && #[trigger] row_fault(data, stride, i) == Some(
                DefilterError::TruncatedData,
            ) && forall|j: nat| j < i ==> row_fault(data, stride, j) is None;
        lemma_row_start_monotonic(stride, first + 1, rows);
        assert forall|k: nat|
            k < height && row_start(stride, k + 1) <= data.len() implies filter_byte(
            data,
            stride,
            k,
        ) <= 4 by {
            if k >= first {
                lemma_row_start_monotonic(stride, first + 1, k + 1);
            } else {
                assert(row_fault(data, stride, k) is None);
            }
        }
    }
    if data.len() < row_start(stride, rows) && (forall|k: nat|
        k < height && row_start(stride, k + 1) <= data.len() ==> filter_byte(data, stride, k)
            <= 4) {
        if rows > 0 {
            assert(row_fault(data, stride, (rows - 1) as nat) is Some);
        }
        match first_fault(data, stride, rows) {
            Some(e) => {
                let first = choose|i: nat|
                    i < rows && #[trigger] row_fault(data, stride, i) == Some(e) && forall|j: nat|
                        j < i ==> row_fault(data, stride, j) is None;
            },
            None => {},
        }
    }
}

/// The filter-type byte that selects a filter.
pub open spec fn filter_code(filter: FilterType) -> u8 {
    match filter {
        FilterType::Plain => 0,
        FilterType::Sub => 1,
        FilterType::Up => 2,
        FilterType::Average => 3,
        FilterType::Paeth => 4,
    }
}

/// Row `k` of a raster.
pub open spec fn pixel_row(pixels: Seq<u8>, stride: nat, k: nat) -> Seq<u8> {
    pixels.subrange((k * stride) as int, ((k + 1) * stride) as int)
}

/// The row above row `k` of a raster: all zeros above the first row.
pub open spec fn row_above(pixels: Seq<u8>, stride: nat, k: nat) -> Seq<u8> {
    if k == 0 {
        zero_row(stride)
    } else {
        pixel_row(pixels, stride, (k - 1) as nat)
    }
}

/// The stream that an encoder stores for the first `rows` rows of a
/// raster when it filters row `k` with `filters[k]`: for each row the
/// filter-type byte and then the filtered row.
pub open spec fn filtered_stream(
    filters: Seq<FilterType>,
    pixels: Seq<u8>,
    stride: nat,
    rows: nat,
) -> Seq<u8>
    decreases rows,
{
    if rows == 0 {
        Seq::empty()
    } else {
        let k = (rows - 1) as nat;
        filtered_stream(filters, pixels, stride, k) + seq![filter_code(filters[k as int])]
            + filtered_row(
            filters[k as int],
            pixel_row(pixels, stride, k),
            row_above(pixels, stride, k),
        )
    }
}

/// Rows of a raster lie one after the other.
proof fn lemma_pixel_rows(stride: nat, k: nat, rows: nat)
    requires
        k < rows,
    ensures
        (k + 1) * stride == k * stride + stride,
        (k + 1) * stride <= rows * stride,
        0 <= k * stride,
{
    assert((k + 1) * stride == k * stride + stride) by (nonlinear_arith);
    assert((k + 1) * stride <= rows * stride) by (nonlinear_arith)
        requires
            k + 1 <= rows,
    ;
    assert(0 <= k * stride) by (nonlinear_arith);
}

/// The scanlines that a stream holds in full are the same in every
/// stream that begins with it.
proof fn lemma_scanlines_of_prefix(data: Seq<u8>, longer: Seq<u8>, stride: nat, k: nat)
    requires
        data.len() <= longer.len(),
        longer.take(data.len() as int) == data,
        row_start(stride, k + 1) <= data.len(),
    ensures
        row_fault(longer, stride, k) == row_fault(data, stride, k),
        scanline(longer, stride, k) == scanline(data, stride, k),
        first_fault(longer, stride, k + 1) == first_fault(data, stride, k + 1),
        raster(longer, stride, k + 1) == raster(data, stride, k + 1),
    decreases k,
{
    lemma_row_start_step(stride, k);
    lemma_row_start_monotonic(stride, 0, k);
    assert forall|j: int| 0 <= j < data.len() implies #[trigger] longer[j] == data[j] by {
        assert(longer[j] == longer.take(data.len() as int)[j]);
    }
    assert(filtered_scanline(longer, stride, k) =~= filtered_scanline(data, stride, k));
    if k > 0 {
        lemma_scanlines_of_prefix(data, longer, stride, (k - 1) as nat);
    } else {
        assert(first_fault(longer, stride, 0) is None && first_fault(data, stride, 0) is None);
        assert(raster(longer, stride, 0) == raster(data, stride, 0));
    }
}

/// Defiltering the stream that an encoder stores for a raster gives no
/// fault and the raster back, row by row.
proof fn lemma_filtered_stream_rows(
    filters: Seq<FilterType>,
    pixels: Seq<u8>,
    stride: nat,
    height: nat,
    rows: nat,
)
    requires
        rows <= height,
        filters.len() == height,
        pixels.len() == height * stride,
    ensures
        filtered_stream(filters, pixels, stride, rows).len() == row_start(stride, rows),
        first_fault(filtered_stream(filters, pixels, stride, rows), stride, rows) is None,
        raster(filtered_stream(filters, pixels, stride, rows), stride, rows) == pixels.take(
            (rows * stride) as int,
        ),
        rows > 0 ==> scanline(
            filtered_stream(filters, pixels, stride, rows),
            stride,
            (rows - 1) as nat,
        ) == pixel_row(pixels, stride, (rows - 1) as nat),
    decreases rows,
{
    let stream = filtered_stream(filters, pixels, stride, rows);
    if rows == 0 {
        lemma_row_start_step(stride, 0);
        assert(rows * stride == 0) by (nonlinear_arith)
            requires
                rows == 0,
        ;
        assert(raster(stream, stride, rows) =~= pixels.take((rows * stride) as int));
    } else {
        let k = (rows - 1) as nat;
        let filter = filters[k as int];
        let before = filtered_stream(filters, pixels, stride, k);
        let row = pixel_row(pixels, stride, k);
        let above = row_above(pixels, stride, k);
        let stored = filtered_row(filter, row, above);
        lemma_filtered_stream_rows(filters, pixels, stride, height, k);
        lemma_row_start_step(stride, k);
        lemma_row_start_monotonic(stride, 0, k);
        lemma_pixel_rows(stride, k, height);
        assert(row.len() == stride);
        assert(stored.len() == stride);
        assert(stream.len() == row_start(stride, rows));
        assert(stream.take(before.len() as int) =~= before);
        assert(stream[row_start(stride, k)] == filter_code(filter));
        assert(FilterType::of(filter_code(filter)) == Some(filter));
        assert(filtered_scanline(stream, stride, k) =~= stored);
        if k > 0 {
            let j = (k - 1) as nat;
            lemma_pixel_rows(stride, j, height);
            lemma_scanlines_of_prefix(before, stream, stride, j);
            assert(scanline(stream, stride, j) == above);
        }
        assert(first_fault(stream, stride, k) is None);
        assert(raster(stream, stride, k) == pixels.take((k * stride) as int));
        assert(above.len() == stride);
        lemma_unfilter_inverts_filter(filter, row, above);
        assert(scanline(stream, stride, k) == row);
        assert(row_fault(stream, stride, k) is None);
        assert(raster(stream, stride, rows) =~= pixels.take((rows * stride) as int));
    }
}

/// Defiltering undoes filtering: if an encoder filters each row of a
/// raster with one of the five filters and stores each filter-type byte
/// before its filtered row, defiltering what it stored gives the raster
/// back, whichever filters it chose.
pub proof fn lemma_defilter_inverts_filtering(
    filters: Seq<FilterType>,
    pixels: Seq<u8>,
    width: u32,
    height: u32,
)
    requires
        filters.len() == height,
        pixels.len() == height * stride_of(width),
    ensures
        defiltered(
            filtered_stream(filters, pixels, stride_of(width), height as nat),
            width,
            height,
        ) == Ok::<Seq<u8>, DefilterError>(pixels),
{
    lemma_filtered_stream_rows(filters, pixels, stride_of(width), height as nat, height as nat);
    assert(pixels.take((height * stride_of(width)) as int) =~= pixels);
}

/// Reverses the scanline filters of an inflated stream: reads `height`
/// scanlines of one filter-type byte and `3 * width` data bytes each, and
/// returns the reconstructed rows as one flat RGB raster.
///
/// Scanlines are taken in order, and the first faulty one ends the work:
/// with `TruncatedData` if the stream does not hold it in full, else with
/// `UnsupportedFilterType` and its leading byte if that byte is not 0 to
/// 4. What lies behind the last scanline is not looked at.
pub fn defilter(decompressed: &[u8], width: u32, height: u32) -> (r: Result<
    Vec<u8>,
    DefilterError,
>)
    ensures
        match r {
            Ok(pixels) => defiltered(decompressed@, width, height) == Ok::<
                Seq<u8>,
                DefilterError,
            >(pixels@),
            Err(e) => defiltered(decompressed@, width, height) == Err::<Seq<u8>, DefilterError>(e),
        },
{
    let len = decompressed.len();
    let wide_stride: u64 = width as u64 * 3;
    let ghost stride = stride_of(width);
    let mut pixels: Vec<u8> = Vec::new();
    let mut previous: Vec<u8> = Vec::new();
    let mut offset: usize = 0;
    let mut k: u32 = 0;
    proof {
        lemma_row_start_step(stride, 0);
    }
    while k < height
        invariant
            len == decompressed@.len(),
            wide_stride == stride,
            stride == stride_of(width),
            k <= height,
            offset == row_start(stride, k as nat),
            offset <= len,
            first_fault(decompressed@, stride, k as nat) is None,
            pixels@ == raster(decompressed@, stride, k as nat),
            k > 0 ==> previous@ == scanline(decompressed@, stride, (k - 1) as nat),
            k > 0 ==> previous@.len() == stride,
        decreases height - k,
    {
        proof {
            lemma_row_start_step(stride, k as nat);
        }
        if (len - offset) as u64 <= wide_stride {
            proof {
                lemma_first_fault_stays(decompressed@, stride, (k + 1) as nat, height as nat);
            }
            return Err(DefilterError::TruncatedData);
        }
        let row_len: usize = wide_stride as usize;
        if k == 0 {
            previous = vec![0u8; row_len];
            assert(previous@ =~= zero_row(stride));
        }
        let byte = decompressed[offset];
        let filter = match FilterType::from_byte(byte) {
            Some(filter) => filter,
            None => {
                proof {
                    lemma_first_fault_stays(decompressed@, stride, (k + 1) as nat, height as nat);
                }
                return Err(DefilterError::UnsupportedFilterType(byte));
            },
        };
        let filtered = &decompressed[offset + 1..offset + 1 + row_len];
        let row = unfilter_row(filter, filtered, previous.as_slice());
        proof {
            lemma_unfiltered_row_bytes(filter, filtered@, previous@);
        }
        pixels.extend_from_slice(row.as_slice());
        assert(pixels@ =~= raster(decompressed@, stride, k as nat) + row@);
        previous = row;
        offset = offset + 1 + row_len;
        k += 1;
    }
    Ok(pixels)
}

} // verus!
