//! The five PNG scanline filters and their reversal, one byte and one row
//! at a time.

use vstd::prelude::*;

verus! {

/// Number of bytes per pixel of the one supported colour model (8-bit RGB).
pub const BYTES_PER_PIXEL: usize = 3;

/// Distance between two integers.
pub open spec fn distance(x: int, y: int) -> int {
    if x <= y {
        y - x
    } else {
        x - y
    }
}

/// The Paeth predictor: of `a` (left), `b` (up) and `c` (upper left), the
/// one closest to `a + b - c`, preferring `a`, then `b`, then `c` on ties.
pub open spec fn paeth(a: u8, b: u8, c: u8) -> u8 {
    let p = a + b - c;
    let pa = distance(p, a as int);
    let pb = distance(p, b as int);
    let pc = distance(p, c as int);
    if pa <= pb && pa <= pc {
        a
    } else if pb <= pc {
        b
    } else {
        c
    }
}

/// The Paeth predictor is the neighbour nearest to `a + b - c`. Where
/// several are equally near, it is `a` if `a` is among them, else `b`; so
/// for three equal neighbours it is `a`.
pub proof fn lemma_paeth_nearest(a: u8, b: u8, c: u8)
    ensures
        ({
            let p = a + b - c;
            let r = paeth(a, b, c);
            &&& (r == a || r == b || r == c)
            &&& distance(p, r as int) <= distance(p, a as int)
            &&& distance(p, r as int) <= distance(p, b as int)
            &&& distance(p, r as int) <= distance(p, c as int)
            &&& (distance(p, a as int) == distance(p, r as int) ==> r == a)
            &&& (distance(p, b as int) == distance(p, r as int) && distance(p, a as int)
                > distance(p, r as int) ==> r == b)
        }),
        a == b && b == c ==> paeth(a, b, c) == a,
{
}

/// Computes the Paeth predictor of the left, upper and upper-left
/// neighbours of a byte.
pub fn paeth_predictor(a: u8, b: u8, c: u8) -> (r: u8)
    ensures
        r == paeth(a, b, c),
{
    let p: i32 = a as i32 + b as i32 - c as i32;
    let pa: i32 = if p >= a as i32 { p - a as i32 } else { a as i32 - p };
    let pb: i32 = if p >= b as i32 { p - b as i32 } else { b as i32 - p };
    let pc: i32 = if p >= c as i32 { p - c as i32 } else { c as i32 - p };
    if pa <= pb && pa <= pc {
        a
    } else if pb <= pc {
        b
    } else {
        c
    }
}

/// The rule by which a scanline was filtered before compression.
#[derive(Clone, Copy, Debug, PartialEq, Eq, Structural)]
pub enum FilterType {
    /// Bytes are stored as they are.
    Plain,
    /// Each byte is stored as its difference from the byte one pixel to the left.
    Sub,
    /// Each byte is stored as its difference from the byte above.
    Up,
    /// Each byte is stored as its difference from the mean of left and above.
    Average,
    /// Each byte is stored as its difference from the Paeth predictor.
    Paeth,
}

impl FilterType {
    /// The filter that a scanline's leading byte selects, if it selects one.
    pub open spec fn of(byte: u8) -> Option<FilterType> {
        if byte == 0 {
            Some(FilterType::Plain)
        } else if byte == 1 {
            Some(FilterType::Sub)
        } else if byte == 2 {
            Some(FilterType::Up)
        } else if byte == 3 {
            Some(FilterType::Average)
        } else if byte == 4 {
            Some(FilterType::Paeth)
        } else {
            None
        }
    }

    /// The value that this filter predicts for a byte from its neighbours.
    pub open spec fn prediction(self, left: u8, up: u8, upper_left: u8) -> u8 {
        match self {
            FilterType::Plain => 0,
            FilterType::Sub => left,
            FilterType::Up => up,
            FilterType::Average => ((left + up) / 2) as u8,
            FilterType::Paeth => paeth(left, up, upper_left),
        }
    }

    /// The raw byte behind a filtered one: the filtered byte plus the
    /// prediction, modulo 256.
    pub open spec fn reconstructed(self, filtered: u8, left: u8, up: u8, upper_left: u8) -> u8 {
        ((filtered + self.prediction(left, up, upper_left)) % 256) as u8
    }

    /// The filtered form of a raw byte: the byte minus the
    /// prediction, modulo 256.
    pub open spec fn filtered(self, raw: u8, left: u8, up: u8, upper_left: u8) -> u8 {
        ((raw - self.prediction(left, up, upper_left)) % 256) as u8
    }

    /// Decodes the filter-type byte that leads a scanline.
    pub fn from_byte(byte: u8) -> (r: Option<FilterType>)
        ensures
            r == FilterType::of(byte),
            r is Some <==> byte <= 4,
    {
        match byte {
            0 => Some(FilterType::Plain),
            1 => Some(FilterType::Sub),
            2 => Some(FilterType::Up),
            3 => Some(FilterType::Average),
            4 => Some(FilterType::Paeth),
            _ => None,
        }
    }

    /// Predicts a byte from its left, upper and upper-left neighbours.
    pub fn predict(self, left: u8, up: u8, upper_left: u8) -> (r: u8)
        ensures
            r == self.prediction(left, up, upper_left),
    {
        match self {
            FilterType::Plain => 0,
            FilterType::Sub => left,
            FilterType::Up => up,
            FilterType::Average => ((left as u16 + up as u16) / 2) as u8,
            FilterType::Paeth => paeth_predictor(left, up, upper_left),
        }
    }

    /// Reverses the filter on one byte, wrapping around at 256.
    pub fn reconstruct(self, filtered: u8, left: u8, up: u8, upper_left: u8) -> (r: u8)
        ensures
            r == self.reconstructed(filtered, left, up, upper_left),
    {
        filtered.wrapping_add(self.predict(left, up, upper_left))
    }
}

/// The byte one pixel to the left of position `i` in `row`, or zero where
/// the row has no such pixel.
pub open spec fn left_neighbour(row: Seq<u8>, i: int) -> u8 {
    if i >= BYTES_PER_PIXEL {
        row[i - BYTES_PER_PIXEL]
    } else {
        0
    }
}

/// The row behind a filtered scanline, given the reconstructed row above
/// it. Bytes are reconstructed from left to right, each from the filtered
/// byte, the reconstructed byte one pixel to its left, and the bytes above
/// and above-left of it.
pub open spec fn unfiltered_row(filter: FilterType, filtered: Seq<u8>, previous: Seq<u8>) -> Seq<u8>
    decreases filtered.len(),
{
    if filtered.len() == 0 {
        Seq::empty()
    } else {
        let i = filtered.len() - 1;
        let head = unfiltered_row(filter, filtered.drop_last(), previous);
        head.push(
            filter.reconstructed(
                filtered[i],
                left_neighbour(head, i),
                previous[i],
                left_neighbour(previous, i),
            ),
        )
    }
}

/// The filtered form of a row, given the raw row above it: what an
/// encoder stores for `raw` under `filter`.
pub open spec fn filtered_row(filter: FilterType, raw: Seq<u8>, previous: Seq<u8>) -> Seq<u8> {
    Seq::new(
        raw.len(),
        |i: int|
            filter.filtered(
                raw[i],
                left_neighbour(raw, i),
                previous[i],
                left_neighbour(previous, i),
            ),
    )
}

/// A reconstructed row is as long as the filtered one, and each of its
/// bytes is the filtered byte plus the prediction from its neighbours.
pub proof fn lemma_unfiltered_row_bytes(filter: FilterType, filtered: Seq<u8>, previous: Seq<u8>)
    ensures
        unfiltered_row(filter, filtered, previous).len() == filtered.len(),
        forall|i: int|
            0 <= i < filtered.len() ==> #[trigger] unfiltered_row(filter, filtered, previous)[i]
                == filter.reconstructed(
                filtered[i],
                left_neighbour(unfiltered_row(filter, filtered, previous), i),
                previous[i],
                left_neighbour(previous, i),
            ),
    decreases filtered.len(),
{
    if filtered.len() > 0 {
        lemma_unfiltered_row_bytes(filter, filtered.drop_last(), previous);
    }
}

/// Reversing a filter on one byte undoes applying it, whatever the
/// neighbours are.
pub proof fn lemma_reconstruct_inverts_filter(
    filter: FilterType,
    raw: u8,
    left: u8,
    up: u8,
    upper_left: u8,
)
    ensures
        filter.reconstructed(
            filter.filtered(raw, left, up, upper_left),
            left,
            up,
            upper_left,
        ) == raw,
{
}

/// Reversing a filter on a row undoes applying it: for each of the five
/// filters, any raw row and any row above it, reconstructing the filtered
/// row gives the raw row back. This holds for the first row, above which
/// all is zero, as for any other, and for the first pixel of a row, which
/// has no left neighbour, as for the rest.
pub proof fn lemma_unfilter_inverts_filter(filter: FilterType, raw: Seq<u8>, previous: Seq<u8>)
    ensures
        unfiltered_row(filter, filtered_row(filter, raw, previous), previous) == raw,
    decreases raw.len(),
{
    let stored = filtered_row(filter, raw, previous);
    if raw.len() > 0 {
        let i = raw.len() - 1;
        lemma_unfilter_inverts_filter(filter, raw.drop_last(), previous);
        assert(filtered_row(filter, raw.drop_last(), previous) =~= stored.drop_last());
        lemma_reconstruct_inverts_filter(
            filter,
            raw[i],
            left_neighbour(raw, i),
            previous[i],
            left_neighbour(previous, i),
        );
    }
    assert(unfiltered_row(filter, stored, previous) =~= raw);
}

/// Reverses `filter` on one scanline, given the reconstructed row above it
/// (all zeros above the first row), which must be at least as long.
pub fn unfilter_row(filter: FilterType, filtered: &[u8], previous: &[u8]) -> (row: Vec<u8>)
    requires
        previous@.len() >= filtered@.len(),
    ensures
        row@ == unfiltered_row(filter, filtered@, previous@),
{
    let n = filtered.len();
    let mut row: Vec<u8> = Vec::with_capacity(n);
    let mut i: usize = 0;
    while i < n
        invariant
            n == filtered@.len(),
            previous@.len() >= n,
            i <= n,
            row@ == unfiltered_row(filter, filtered@.take(i as int), previous@),
            row@.len() == i,
        decreases n - i,
    {
        let left = if i >= BYTES_PER_PIXEL {
            row[i - BYTES_PER_PIXEL]
        } else {
            0
        };
        let upper_left = if i >= BYTES_PER_PIXEL {
            previous[i - BYTES_PER_PIXEL]
        } else {
            0
        };
        let byte = filter.reconstruct(filtered[i], left, previous[i], upper_left);
        proof {
            let next = filtered@.take(i + 1);
            assert(next.drop_last() =~= filtered@.take(i as int));
            assert(next[i as int] == filtered@[i as int]);
        }
        row.push(byte);
        i += 1;
    }
    proof {
        assert(filtered@.take(n as int) =~= filtered@);
    }
    row
}

} // verus!
