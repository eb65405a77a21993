//! The HUB75 matrix driver: a bit-plane frame buffer of pre-shifted port
//! bytes, a pixel encoder that writes gamma-corrected bit planes into it,
//! and the binary-coded-modulation scan-out schedule that reads it back
//! one row and bit plane at a time.

use vstd::prelude::*;
use vstd::arithmetic::div_mod::lemma_fundamental_div_mod;
use vstd::arithmetic::div_mod::lemma_fundamental_div_mod_converse;
use vstd::arithmetic::div_mod::lemma_mod_bound;

use crate::color::Rgb;
use crate::gamma::gamma;
use crate::gamma::gamma_spec;

verus! {

/// Physical row pairs addressed by the four row-select lines.
pub const ROWS: usize = 16;
/// Bit planes per color channel.
pub const BITPLANES: usize = 8;
/// Port bytes shifted out per row and bit plane; each logical column
/// occupies two of them.
pub const COLUMN_BYTES: usize = 128;
/// Logical pixel columns.
pub const COLUMNS: usize = 64;
/// Total bytes in the frame buffer.
pub const BUFFER_BYTES: usize = 16384;
/// The enable-pulse timer's auto-reload value; it exceeds the widest
/// pulse (128 ticks) so every bit plane's width can be programmed.
pub const TIMER_PERIOD: u16 = 129;

/// The flat buffer offset of byte `byte` within bit plane `plane` of row
/// `row`.
pub open spec fn buffer_index(row: int, plane: int, byte: int) -> int {
    row * 1024 + plane * 128 + byte
}

/// The row that buffer offset `k` belongs to.
pub open spec fn row_of(k: int) -> int {
    k / 1024
}

/// The bit plane that buffer offset `k` belongs to.
pub open spec fn plane_of(k: int) -> int {
    (k % 1024) / 128
}

/// The byte position of buffer offset `k` within its row and bit plane.
pub open spec fn col_of(k: int) -> int {
    k % 128
}

/// `buffer_index` and the offset decomposition are inverses.
pub proof fn lemma_buffer_index_decomposition(row: int, plane: int, byte: int)
    requires
        0 <= row < 16,
        0 <= plane < 8,
        0 <= byte < 128,
    ensures
        0 <= buffer_index(row, plane, byte) < BUFFER_BYTES,
        row_of(buffer_index(row, plane, byte)) == row,
        plane_of(buffer_index(row, plane, byte)) == plane,
        col_of(buffer_index(row, plane, byte)) == byte,
{
    let k = buffer_index(row, plane, byte);
    lemma_fundamental_div_mod_converse(k, 1024, row, plane * 128 + byte);
    lemma_fundamental_div_mod_converse(plane * 128 + byte, 128, plane, byte);
    assert(k == (row * 8 + plane) * 128 + byte) by (nonlinear_arith)
        requires
            k == row * 1024 + plane * 128 + byte,
    ;
    lemma_fundamental_div_mod_converse(k, 128, row * 8 + plane, byte);
}

/// The byte a cleared buffer holds at offset `k`: dark data lines, with
/// the clock-toggle bit set at every odd offset.
pub open spec fn cleared_byte(k: int) -> u8 {
    if k % 2 == 0 {
        0
    } else {
        0x40
    }
}

/// The clock-toggle bit (bit 6) is clear at even offsets and set at odd
/// ones, so that consecutive port writes toggle the shift clock.
pub open spec fn clock_pattern_ok(s: Seq<u8>) -> bool {
    forall|k: int|
        #![trigger s[k]]
        0 <= k < s.len() ==> s[k] & 0x40 == (if k % 2 == 0 {
            0u8
        } else {
            0x40u8
        })
}

/// Bit `plane` of channel value `c`, as 0 or 1.
pub open spec fn channel_bit(c: u8, plane: u8) -> u8 {
    (c >> plane) & 1
}

/// The three data bits for one pixel in bit plane `plane`: R in bit 0,
/// G in bit 1, B in bit 2, of the gamma-corrected channel values.
pub open spec fn plane_value(r: u8, g: u8, b: u8, plane: u8) -> u8 {
    channel_bit(r, plane) | (channel_bit(g, plane) << 1) | (channel_bit(b, plane) << 2)
}

/// The even-offset port byte after a pixel write: the half-panel being
/// drawn gets the new data bits while the other half's bits survive, and
/// the clock-toggle bit is left clear.
pub open spec fn encoded_even_byte(old_byte: u8, pv: u8, top: bool) -> u8 {
    if top {
        (old_byte & 0x07) | (pv << 3)
    } else {
        (old_byte & 0x38) | pv
    }
}

/// The row that a scan-out invocation serves when the counter holds `c`.
pub open spec fn scan_row(c: u8) -> int {
    c as int / 8 % 16
}

/// The bit plane that a scan-out invocation serves when the counter
/// holds `c`.
pub open spec fn scan_plane(c: u8) -> int {
    c as int % 8
}

/// The counter value `i` invocations after it held `start`.
pub open spec fn counter_after(start: u8, i: int) -> u8 {
    ((start + i) % 256) as u8
}

/// What one scan-out invocation must drive out: the 128 pre-encoded port
/// bytes of one row and bit plane, the row-address update due before the
/// first bit plane of a row, and the compare value that makes the
/// enable-pulse timer hold the output on for `2^plane` ticks.
pub struct ScanStep {
    pub row: u8,
    pub plane: u8,
    pub port_bytes: Vec<u8>,
    pub update_row: bool,
    pub timer_compare: u16,
}

/// The HUB75 driver state: the frame buffer and the scan-out counter
/// that walks the 16 rows and 8 bit planes.
pub struct Hub75Dma {
    data: Vec<u8>,
    o_count: u8,
}

impl Hub75Dma {
    /// The frame buffer contents.
    pub closed spec fn bytes(&self) -> Seq<u8> {
        self.data@
    }

    /// The scan-out counter.
    pub closed spec fn counter(&self) -> u8 {
        self.o_count
    }

    /// Well-formedness: the buffer has its fixed size and carries the
    /// baked-in clock-toggle pattern.
    pub open spec fn wf(&self) -> bool {
        &&& self.bytes().len() == BUFFER_BYTES
        &&& clock_pattern_ok(self.bytes())
    }

    /// Creates a driver with a blank frame and the scan-out counter at
    /// the first row and bit plane.
    pub fn new() -> (d: Hub75Dma)
        ensures
            d.wf(),
            d.counter() == 0,
            forall|k: int| 0 <= k < BUFFER_BYTES ==> #[trigger] d.bytes()[k] == cleared_byte(k),
    {
        let mut data: Vec<u8> = Vec::new();
        let mut k: usize = 0;
        while k < BUFFER_BYTES
            invariant
                k <= BUFFER_BYTES,
                data@.len() == k,
                forall|i: int| 0 <= i < k ==> #[trigger] data@[i] == cleared_byte(i),
            decreases BUFFER_BYTES - k,
        {
            if k % 2 == 0 {
                data.push(0);
            } else {
                data.push(0x40);
            }
            k = k + 1;
        }
        let d = Hub75Dma { data, o_count: 0 };
        proof {
            assert(0u8 & 0x40 == 0) by (bit_vector);
            assert(0x40u8 & 0x40 == 0x40) by (bit_vector);
        }
        d
    }

    /// Resets the frame to blank: every data bit dark, the clock-toggle
    /// pattern re-established, for every row and bit plane.
    pub fn clear(&mut self)
        requires
            old(self).wf(),
        ensures
            final(self).wf(),
            final(self).counter() == old(self).counter(),
            forall|k: int|
                0 <= k < BUFFER_BYTES ==> #[trigger] final(self).bytes()[k] == cleared_byte(k),
    {
        let mut k: usize = 0;
        while k < BUFFER_BYTES
            invariant
                k <= BUFFER_BYTES,
                self.data@.len() == BUFFER_BYTES,
                self.o_count == old(self).o_count,
                forall|i: int| 0 <= i < k ==> #[trigger] self.data@[i] == cleared_byte(i),
            decreases BUFFER_BYTES - k,
        {
            if k % 2 == 0 {
                self.data.set(k, 0);
            } else {
                self.data.set(k, 0x40);
            }
            k = k + 1;
        }
        proof {
            assert(0u8 & 0x40 == 0) by (bit_vector);
            assert(0x40u8 & 0x40 == 0x40) by (bit_vector);
        }
    }

    /// The frame-buffer byte at offset `k`.
    pub fn byte_at(&self, k: usize) -> (b: u8)
        requires
            self.wf(),
            k < BUFFER_BYTES,
        ensures
            b == self.bytes()[k as int],
    {
        self.data[k]
    }

    /// The levels for the four binary-weighted row-address lines that
    /// select `row`.
    pub fn select_row(row: u8) -> (lines: (bool, bool, bool, bool))
        ensures
            lines.0 == (row & 1 != 0),
            lines.1 == (row & 2 != 0),
            lines.2 == (row & 4 != 0),
            lines.3 == (row & 8 != 0),
    {
        (row & 1 != 0, row & 2 != 0, row & 4 != 0, row & 8 != 0)
    }

    /// One scan-out invocation: picks the row and bit plane the counter
    /// points at, advances the counter, and hands back the port bytes to
    /// shift out together with the row update and the timer compare
    /// value for a `2^plane`-tick enable pulse.
    pub fn output(&mut self) -> (step: ScanStep)
        requires
            old(self).wf(),
        ensures
            final(self).wf(),
            final(self).bytes() == old(self).bytes(),
            final(self).counter() == counter_after(old(self).counter(), 1),
            step.row == scan_row(old(self).counter()),
            step.plane == scan_plane(old(self).counter()),
            step.update_row <==> step.plane == 0,
            step.timer_compare == TIMER_PERIOD - (1u16 << step.plane as u16),
            step.port_bytes@ == old(self).bytes().subrange(
                buffer_index(step.row as int, step.plane as int, 0),
                buffer_index(step.row as int, step.plane as int, 0) + 128,
            ),
    {
        let row: u8 = self.o_count / 8 % 16;
        let plane: u8 = self.o_count % 8;
        self.o_count = self.o_count.wrapping_add(1);
        let base: usize = row as usize * 1024 + plane as usize * 128;
        let mut port_bytes: Vec<u8> = Vec::new();
        let mut i: usize = 0;
        while i < COLUMN_BYTES
            invariant
                i <= COLUMN_BYTES,
                base + COLUMN_BYTES <= BUFFER_BYTES,
                self.data@.len() == BUFFER_BYTES,
                port_bytes@.len() == i,
                forall|j: int|
                    0 <= j < i ==> #[trigger] port_bytes@[j] == self.data@[base + j],
            decreases COLUMN_BYTES - i,
        {
            port_bytes.push(self.data[base + i]);
            i = i + 1;
        }
        proof {
            assert(1u16 << plane as u16 <= 128) by (bit_vector)
                requires
                    plane < 8,
            ;
            assert(port_bytes@ =~= self.data@.subrange(base as int, base as int + 128));
        }
        let compare: u16 = TIMER_PERIOD - (1u16 << plane as u16);
        ScanStep { row, plane, port_bytes, update_row: plane == 0, timer_compare: compare }
    }

    /// Draws one pixel: the color's channels run through the gamma table
    /// and are decomposed into the 8 bit planes; in each plane, the
    /// pixel's pair of port bytes is rewritten. Rows wrap every 16, and
    /// `y < 16` selects the half-panel in data bits 3..5, any other row
    /// the one in bits 0..2; the other half's bits and the clock-toggle
    /// pattern survive the write.
    pub fn draw(&mut self, x: usize, y: usize, color: Rgb)
        requires
            old(self).wf(),
            x < COLUMNS,
        ensures
            final(self).wf(),
            final(self).counter() == old(self).counter(),
            forall|k: int|
                0 <= k < BUFFER_BYTES && !(row_of(k) == y as int % 16 && (col_of(k) == 2 * x
                    || col_of(k) == 2 * x + 1)) ==> #[trigger] final(self).bytes()[k] == old(
                    self,
                ).bytes()[k],
            forall|k: int|
                0 <= k < BUFFER_BYTES && row_of(k) == y as int % 16 && col_of(k) == 2 * x
                    ==> #[trigger] final(self).bytes()[k] == encoded_even_byte(
                    old(self).bytes()[k],
                    plane_value(
                        gamma_spec(color.r),
                        gamma_spec(color.g),
                        gamma_spec(color.b),
                        plane_of(k) as u8,
                    ),
                    y < 16,
                ),
            forall|k: int|
                0 <= k < BUFFER_BYTES && row_of(k) == y as int % 16 && col_of(k) == 2 * x + 1
                    ==> #[trigger] final(self).bytes()[k] == encoded_even_byte(
                    old(self).bytes()[k - 1],
                    plane_value(
                        gamma_spec(color.r),
                        gamma_spec(color.g),
                        gamma_spec(color.b),
                        plane_of(k) as u8,
                    ),
                    y < 16,
                ) | 0x40,
    {
        let r = gamma(color.r);
        let g = gamma(color.g);
        let b = gamma(color.b);
        let row: usize = y % 16;
        let top: bool = y < 16;
        let mut plane: usize = 0;
        while plane < BITPLANES
            invariant
                plane <= BITPLANES,
                x < COLUMNS,
                row == y as int % 16,
                top == (y < 16),
                r == gamma_spec(color.r),
                g == gamma_spec(color.g),
                b == gamma_spec(color.b),
                self.o_count == old(self).o_count,
                self.data@.len() == BUFFER_BYTES,
                forall|k: int|
                    0 <= k < BUFFER_BYTES && !(row_of(k) == row && (col_of(k) == 2 * x || col_of(
                        k,
                    ) == 2 * x + 1) && plane_of(k) < plane) ==> #[trigger] self.data@[k] == old(
                        self,
                    ).bytes()[k],
                forall|k: int|
                    0 <= k < BUFFER_BYTES && row_of(k) == row && col_of(k) == 2 * x && plane_of(k)
                        < plane ==> #[trigger] self.data@[k] == encoded_even_byte(
                        old(self).bytes()[k],
                        plane_value(r, g, b, plane_of(k) as u8),
                        top,
                    ),
                forall|k: int|
                    0 <= k < BUFFER_BYTES && row_of(k) == row && col_of(k) == 2 * x + 1 && plane_of(
                        k,
                    ) < plane ==> #[trigger] self.data@[k] == encoded_even_byte(
                        old(self).bytes()[k - 1],
                        plane_value(r, g, b, plane_of(k) as u8),
                        top,
                    ) | 0x40,
            decreases BITPLANES - plane,
        {
            let pl: u8 = plane as u8;
            let pv: u8 = ((r >> pl) & 1) | (((g >> pl) & 1) << 1) | (((b >> pl) & 1) << 2);
            let e: usize = row * 1024 + plane * 128 + 2 * x;
            proof {
                lemma_buffer_index_decomposition(row as int, plane as int, 2 * x as int);
                lemma_buffer_index_decomposition(row as int, plane as int, 2 * x as int + 1);
                assert(pv == plane_value(r, g, b, pl));
            }
            let old_even = self.data[e];
            let newb: u8 = if top {
                (old_even & 0x07) | (pv << 3)
            } else {
                (old_even & 0x38) | pv
            };
            self.data.set(e, newb);
            self.data.set(e + 1, newb | 0x40);
            plane = plane + 1;
        }
        proof {
            let rr = gamma_spec(color.r);
            let gg = gamma_spec(color.g);
            let bb = gamma_spec(color.b);
            assert forall|pl: u8| #[trigger] plane_value(rr, gg, bb, pl) < 8 by {
                let pv = ((rr >> pl) & 1) | (((gg >> pl) & 1) << 1) | (((bb >> pl) & 1) << 2);
                assert(((rr >> pl) & 1) | (((gg >> pl) & 1) << 1) | (((bb >> pl) & 1) << 2)
                    < 8) by (bit_vector);
            }
            assert forall|k: int| 0 <= k < BUFFER_BYTES implies #[trigger] self.data@[k] & 0x40 == (
            if k % 2 == 0 {
                0u8
            } else {
                0x40u8
            }) by {
                let ob = old(self).bytes()[k];
                let obe = old(self).bytes()[k - 1];
                let pv = plane_value(rr, gg, bb, plane_of(k) as u8);
                if row_of(k) == row && col_of(k) == 2 * x && plane_of(k) < 8 {
                    assert(k % 2 == 0) by (nonlinear_arith)
                        requires
                            col_of(k) == 2 * x && col_of(k) == k % 128,
                    ;
                    if top {
                        assert(((ob & 0x07) | (pv << 3)) & 0x40 == 0) by (bit_vector)
                            requires
                                pv < 8,
                        ;
                    } else {
                        assert(((ob & 0x38) | pv) & 0x40 == 0) by (bit_vector)
                            requires
                                pv < 8,
                        ;
                    }
                } else if row_of(k) == row && col_of(k) == 2 * x + 1 && plane_of(k) < 8 {
                    assert(k % 2 == 1) by (nonlinear_arith)
                        requires
                            col_of(k) == 2 * x + 1 && col_of(k) == k % 128,
                    ;
                    if top {
                        assert((((obe & 0x07) | (pv << 3)) | 0x40) & 0x40 == 0x40) by (bit_vector);
                    } else {
                        assert((((obe & 0x38) | pv) | 0x40) & 0x40 == 0x40) by (bit_vector);
                    }
                } else {
                    assert(plane_of(k) < 8) by (nonlinear_arith)
                        requires
                            plane_of(k) == (k % 1024) / 128,
                            0 <= k < 16384,
                    ;
                }
            }
        }
    }
}

/// Two to the power `e`.
pub open spec fn pow2(e: nat) -> nat
    decreases e,
{
    if e == 0 {
        1
    } else {
        2 * pow2((e - 1) as nat)
    }
}

/// The brightness reconstructed by binary-coded modulation from the
/// first `planes` bit planes of channel value `c`: each asserted plane
/// contributes its positional weight `2^plane` of on-time.
pub open spec fn bcm_sum(c: u8, planes: nat) -> int
    decreases planes,
{
    if planes == 0 {
        0
    } else {
        bcm_sum(c, (planes - 1) as nat) + channel_bit(c, (planes - 1) as u8) as int * pow2(
            (planes - 1) as nat,
        ) as int
    }
}

/// Binary-coded modulation is linear: summing `2^plane` over the
/// asserted bit planes of a channel value reconstructs that value
/// exactly.
pub proof fn lemma_bcm_reconstructs(c: u8)
    ensures
        bcm_sum(c, 8) == c,
{
    assert(pow2(0) == 1);
    assert(pow2(1) == 2);
    assert(pow2(2) == 4);
    assert(pow2(3) == 8);
    assert(pow2(4) == 16);
    assert(pow2(5) == 32);
    assert(pow2(6) == 64);
    assert(pow2(7) == 128);
    assert(bcm_sum(c, 0) == 0);
    assert(bcm_sum(c, 1) == channel_bit(c, 0) as int);
    assert(bcm_sum(c, 2) == bcm_sum(c, 1) + channel_bit(c, 1) as int * 2);
    assert(bcm_sum(c, 3) == bcm_sum(c, 2) + channel_bit(c, 2) as int * 4);
    assert(bcm_sum(c, 4) == bcm_sum(c, 3) + channel_bit(c, 3) as int * 8);
    assert(bcm_sum(c, 5) == bcm_sum(c, 4) + channel_bit(c, 4) as int * 16);
    assert(bcm_sum(c, 6) == bcm_sum(c, 5) + channel_bit(c, 5) as int * 32);
    assert(bcm_sum(c, 7) == bcm_sum(c, 6) + channel_bit(c, 6) as int * 64);
    assert(bcm_sum(c, 8) == bcm_sum(c, 7) + channel_bit(c, 7) as int * 128);
    assert(((c >> 0u8) & 1) + 2 * ((c >> 1u8) & 1) + 4 * ((c >> 2u8) & 1) + 8 * ((c >> 3u8) & 1)
        + 16 * ((c >> 4u8) & 1) + 32 * ((c >> 5u8) & 1) + 64 * ((c >> 6u8) & 1) + 128 * ((c
        >> 7u8) & 1) == c) by (bit_vector);
}

/// Each stored three-bit group carries exactly bit `plane` of the three
/// channel values it was encoded from.
pub proof fn lemma_plane_value_bits(r: u8, g: u8, b: u8, plane: u8)
    ensures
        plane_value(r, g, b, plane) & 1 == channel_bit(r, plane),
        (plane_value(r, g, b, plane) >> 1) & 1 == channel_bit(g, plane),
        (plane_value(r, g, b, plane) >> 2) & 1 == channel_bit(b, plane),
{
    assert((((r >> plane) & 1) | (((g >> plane) & 1) << 1) | (((b >> plane) & 1) << 2)) & 1 == (r
        >> plane) & 1) by (bit_vector);
    assert(((((r >> plane) & 1) | (((g >> plane) & 1) << 1) | (((b >> plane) & 1) << 2)) >> 1) & 1
        == (g >> plane) & 1) by (bit_vector);
    assert(((((r >> plane) & 1) | (((g >> plane) & 1) << 1) | (((b >> plane) & 1) << 2)) >> 2) & 1
        == (b >> plane) & 1) by (bit_vector);
}

/// A pixel's three data bits always fit below the clock bit.
pub proof fn lemma_plane_value_bound(r: u8, g: u8, b: u8, plane: u8)
    ensures
        plane_value(r, g, b, plane) < 8,
{
    assert((((r >> plane) & 1) | (((g >> plane) & 1) << 1) | (((b >> plane) & 1) << 2))
        < 8) by (bit_vector);
}

/// A pixel write touches only its own half-panel: a draw into the top
/// half (`y < 16`) leaves the stored byte's low three data bits
/// untouched, and a draw into the bottom half leaves bits 3..5
/// untouched.
pub proof fn lemma_draw_preserves_other_half(old_byte: u8, r: u8, g: u8, b: u8, plane: u8)
    ensures
        encoded_even_byte(old_byte, plane_value(r, g, b, plane), true) & 0x07 == old_byte & 0x07,
        encoded_even_byte(old_byte, plane_value(r, g, b, plane), false) & 0x38 == old_byte & 0x38,
{
    lemma_plane_value_bound(r, g, b, plane);
    let pv = plane_value(r, g, b, plane);
    assert(((old_byte & 0x07) | (pv << 3)) & 0x07 == old_byte & 0x07) by (bit_vector);
    assert(((old_byte & 0x38) | pv) & 0x38 == old_byte & 0x38) by (bit_vector)
        requires
            pv < 8,
    ;
}

/// The scanned row and bit plane are determined by the counter modulo
/// 128: together they index one of the 128 (row, plane) pairs.
pub proof fn lemma_scan_pair_index(c: u8)
    ensures
        scan_row(c) * 8 + scan_plane(c) == c as int % 128,
        0 <= scan_row(c) < 16,
        0 <= scan_plane(c) < 8,
{
    assert((c / 8 % 16) * 8 + c % 8 == c % 128) by (bit_vector);
}

/// Within any window of 128 consecutive scan-out invocations, no two
/// invocations serve the same (row, bit plane) pair.
pub proof fn lemma_scan_visits_once(start: u8, i: u8, j: u8)
    requires
        i < 128,
        j < 128,
        i != j,
    ensures
        scan_row(counter_after(start, i as int)) != scan_row(counter_after(start, j as int))
            || scan_plane(counter_after(start, i as int)) != scan_plane(
            counter_after(start, j as int),
        ),
{
    let ci = counter_after(start, i as int);
    let cj = counter_after(start, j as int);
    lemma_scan_pair_index(ci);
    lemma_scan_pair_index(cj);
    assert(((start + i) % 256) % 128 != ((start + j) % 256) % 128) by (bit_vector)
        requires
            i < 128,
            j < 128,
            i != j,
    ;
}

/// Within any window of 128 consecutive scan-out invocations, every
/// (row, bit plane) pair is served by some invocation; with the previous
/// lemma, each is served exactly once.
pub proof fn lemma_scan_covers(start: u8, row: u8, plane: u8)
    requires
        row < 16,
        plane < 8,
    ensures
        exists|i: u8|
            i < 128 && #[trigger] scan_row(counter_after(start, i as int)) == row && scan_plane(
                counter_after(start, i as int),
            ) == plane,
{
    let t = row as int * 8 + plane as int;
    let s = start as int;
    lemma_fundamental_div_mod(s, 128);
    lemma_mod_bound(s, 128);
    let s128 = s % 128;
    let q = s / 128;
    assert(0 <= q <= 1);
    let w: int = if t >= s128 {
        t - s128
    } else {
        t + 128 - s128
    };
    assert(0 <= w < 128);
    let c = s + w;
    if t >= s128 {
        assert(c == q * 128 + t);
    } else {
        assert(c == (q + 1) * 128 + t);
    }
    let cv = if c < 256 {
        c
    } else {
        c - 256
    };
    if c < 256 {
        lemma_fundamental_div_mod_converse(c, 256, 0, c);
    } else {
        lemma_fundamental_div_mod_converse(c, 256, 1, c - 256);
    }
    assert(cv == c % 256);
    if cv < 128 {
        lemma_fundamental_div_mod_converse(cv, 128, 0, cv);
    } else {
        lemma_fundamental_div_mod_converse(cv, 128, 1, cv - 128);
    }
    assert(cv % 128 == t);
    lemma_fundamental_div_mod(cv, 128);
    let h = cv / 128;
    lemma_fundamental_div_mod_converse(t, 8, row as int, plane as int);
    lemma_fundamental_div_mod_converse(cv, 8, 16 * h + t / 8, t % 8);
    lemma_fundamental_div_mod_converse(16 * h + t / 8, 16, h, t / 8);
    let wu: u8 = w as u8;
    assert(counter_after(start, wu as int) as int == cv);
    assert(wu < 128 && scan_row(counter_after(start, wu as int)) == row && scan_plane(
        counter_after(start, wu as int),
    ) == plane);
}

} // verus!
