//! Cache-line geometry: how far apart the cells of a channel have to lie.
//!
//! Two cores that write to the same cache line slow each other down even
//! when they write to different words of it. Each cell of a channel is
//! therefore followed by filler cells, as many as it takes to fill the
//! rest of a line. The number depends on the line size, which is found out
//! when the program runs.

use vstd::prelude::*;
use vstd::arithmetic::div_mod::{
    lemma_div_is_ordered, lemma_div_plus_one, lemma_div_pos_is_pos, lemma_fundamental_div_mod,
    lemma_mod_add_multiples_vanish, lemma_mod_bound, lemma_mod_multiples_basic, lemma_small_mod,
};
use vstd::arithmetic::mul::lemma_mul_is_commutative;

verus! {

/// The line size assumed when the detected one cannot be used.
pub const DEFAULT_LINE_SIZE: usize = 64;

/// The largest line size taken at face value.
pub const MAX_LINE_SIZE: usize = 4096;

/// A line size can be used with a cell width when a line holds a whole
/// number of cells, at least one, and is not absurdly long.
pub open spec fn usable_line_size(line_size: int, cell_width: int) -> bool {
    &&& 0 < cell_width <= line_size <= MAX_LINE_SIZE
    &&& line_size % cell_width == 0
}

/// A line size together with the width of the cells to be laid out.
pub struct LineShape {
    /// Bytes in a cache line.
    pub line_size: int,
    /// Bytes in a cell.
    pub cell_width: int,
}

impl LineShape {
    pub open spec fn wf(self) -> bool {
        usable_line_size(self.line_size, self.cell_width)
    }

    /// Filler cells after each cell.
    pub open spec fn pad_count(self) -> int {
        self.line_size / self.cell_width - 1
    }

    /// Slots from one cell to the next: the cell and its fillers.
    pub open spec fn stride(self) -> int {
        self.pad_count() + 1
    }

    /// Slots in the buffer of a channel: two cells with their fillers,
    /// and room to move both up to the next line boundary.
    pub open spec fn slot_count(self) -> int {
        3 * self.stride() - 1
    }

    /// Bytes from the start of the buffer to the start of a slot.
    pub open spec fn offset_of(self, slot: int) -> int {
        slot * self.cell_width
    }

    /// Bytes in the buffer of a channel.
    pub open spec fn byte_len(self) -> int {
        self.offset_of(self.slot_count())
    }

    /// The number of the aligned line-sized block that an address lies
    /// in.
    pub open spec fn line_of(self, address: int) -> int {
        address / self.line_size
    }

    /// The fillers to put in front of the first cell of a buffer that
    /// starts at `base`, so that the cell starts a line. A buffer that
    /// does not even start at a multiple of the cell width cannot be
    /// helped and gets none.
    pub open spec fn lead_for(self, base: int) -> int {
        if base % self.cell_width == 0 {
            ((self.line_size - base % self.line_size) % self.line_size) / self.cell_width
        } else {
            0
        }
    }
}

/// The arrangement of a channel's two cells in its buffer, in terms of
/// slots of one cell each: fillers up to the line boundary, the forward
/// cell, its fillers, the backward cell, its fillers.
pub struct ChannelLayout {
    pub shape: LineShape,
    /// Fillers in front of the forward cell.
    pub lead: int,
}

impl ChannelLayout {
    pub open spec fn wf(self) -> bool {
        self.shape.wf() && 0 <= self.lead < self.shape.stride()
    }

    /// The slot of the forward cell.
    pub open spec fn forward_slot(self) -> int {
        self.lead
    }

    /// The slot of the backward cell.
    pub open spec fn backward_slot(self) -> int {
        self.lead + self.shape.stride()
    }

    /// Bytes from the start of the buffer to the forward cell.
    pub open spec fn forward_offset(self) -> int {
        self.shape.offset_of(self.forward_slot())
    }

    /// Bytes from the start of the buffer to the backward cell.
    pub open spec fn backward_offset(self) -> int {
        self.shape.offset_of(self.backward_slot())
    }
}

/// A cell and its fillers take up exactly one line's worth of bytes.
pub proof fn lemma_cell_region_is_one_line(shape: LineShape)
    requires
        shape.wf(),
    ensures
        shape.pad_count() >= 0,
        shape.offset_of(shape.stride()) == shape.line_size,
        shape.byte_len() == 3 * shape.line_size - shape.cell_width,
        shape.stride() <= MAX_LINE_SIZE,
{
    let l = shape.line_size;
    let w = shape.cell_width;
    lemma_fundamental_div_mod(l, w);
    lemma_div_is_ordered(w, l, w);
    assert(w / w == 1) by (nonlinear_arith)
        requires
            w > 0,
    ;
    assert((3 * (l / w) - 1) * w == 3 * ((l / w) * w) - w) by (nonlinear_arith);
    assert(l / w <= l) by (nonlinear_arith)
        requires
            w >= 1,
            l >= 0,
    ;
}

/// Slots are laid out one after the other, a cell's width apart.
pub proof fn lemma_offsets(shape: LineShape, a: int, b: int)
    requires
        shape.wf(),
    ensures
        shape.offset_of(a + b) == shape.offset_of(a) + shape.offset_of(b),
        a <= b ==> shape.offset_of(a) <= shape.offset_of(b),
{
    let w = shape.cell_width;
    assert((a + b) * w == a * w + b * w) by (nonlinear_arith);
    assert(a <= b ==> a * w <= b * w) by (nonlinear_arith)
        requires
            w > 0,
    ;
}

/// The two cells of a channel lie exactly one line apart, both within
/// the buffer.
pub proof fn lemma_cells_one_line_apart(layout: ChannelLayout)
    requires
        layout.wf(),
    ensures
        0 <= layout.forward_offset(),
        layout.backward_offset() == layout.forward_offset() + layout.shape.line_size,
        layout.backward_offset() + layout.shape.line_size <= layout.shape.byte_len(),
        0 <= layout.forward_slot() < layout.backward_slot() < layout.shape.slot_count(),
{
    let shape = layout.shape;
    lemma_cell_region_is_one_line(shape);
    lemma_offsets(shape, layout.lead, shape.stride());
    lemma_offsets(shape, 0, layout.lead);
    lemma_offsets(shape, layout.lead + shape.stride(), shape.stride());
    lemma_offsets(shape, layout.lead + 2 * shape.stride(), shape.slot_count());
}

/// Addresses a line or more apart lie in different lines.
pub proof fn lemma_a_line_apart(shape: LineShape, low: int, high: int)
    requires
        shape.wf(),
        0 <= low,
        low + shape.line_size <= high,
    ensures
        shape.line_of(low) < shape.line_of(high),
{
    let l = shape.line_size;
    lemma_div_plus_one(low, l);
    lemma_div_is_ordered(low + l, high, l);
}

/// The two cells of a channel never lie in the same line, wherever the
/// channel's buffer starts.
pub proof fn lemma_cells_on_different_lines(layout: ChannelLayout, base: int)
    requires
        layout.wf(),
        0 <= base,
    ensures
        layout.shape.line_of(base + layout.forward_offset()) != layout.shape.line_of(
            base + layout.backward_offset(),
        ),
{
    lemma_cells_one_line_apart(layout);
    lemma_a_line_apart(
        layout.shape,
        base + layout.forward_offset(),
        base + layout.backward_offset(),
    );
}

/// No cell of one channel lies in the same line as a cell of another
/// channel whose buffer starts after the first one's ends.
pub proof fn lemma_channels_on_different_lines(
    one: ChannelLayout,
    other: ChannelLayout,
    one_base: int,
    other_base: int,
)
    requires
        one.wf(),
        other.wf(),
        one.shape == other.shape,
        0 <= one_base,
        one_base + one.shape.byte_len() <= other_base,
    ensures
        one.shape.line_of(one_base + one.forward_offset()) != one.shape.line_of(
            other_base + other.forward_offset(),
        ),
        one.shape.line_of(one_base + one.forward_offset()) != one.shape.line_of(
            other_base + other.backward_offset(),
        ),
        one.shape.line_of(one_base + one.backward_offset()) != one.shape.line_of(
            other_base + other.forward_offset(),
        ),
        one.shape.line_of(one_base + one.backward_offset()) != one.shape.line_of(
            other_base + other.backward_offset(),
        ),
{
    let shape = one.shape;
    lemma_cells_one_line_apart(one);
    lemma_cells_one_line_apart(other);
    lemma_a_line_apart(shape, one_base + one.forward_offset(), other_base + other.forward_offset());
    lemma_a_line_apart(
        shape,
        one_base + one.forward_offset(),
        other_base + other.backward_offset(),
    );
    lemma_a_line_apart(
        shape,
        one_base + one.backward_offset(),
        other_base + other.forward_offset(),
    );
    lemma_a_line_apart(
        shape,
        one_base + one.backward_offset(),
        other_base + other.backward_offset(),
    );
}

/// The lead worked out for a buffer's address is less than a line's
/// worth of fillers and puts both cells on line boundaries, as long as
/// the buffer starts at a multiple of the cell width.
pub proof fn lemma_lead_aligns(shape: LineShape, base: int)
    requires
        shape.wf(),
        0 <= base,
    ensures
        0 <= shape.lead_for(base) < shape.stride(),
        base % shape.cell_width == 0 ==> (base + shape.offset_of(shape.lead_for(base)))
            % shape.line_size == 0,
{
    let l = shape.line_size;
    let w = shape.cell_width;
    let r = base % l;
    let gap = (l - r) % l;
    lemma_cell_region_is_one_line(shape);
    assert(gap == if r == 0 {
        0
    } else {
        l - r
    }) by {
        if r == 0 {
            assert(l % l == 0) by (nonlinear_arith)
                requires
                    l > 0,
            ;
        } else {
            lemma_small_mod((l - r) as nat, l as nat);
        }
    }
    lemma_div_pos_is_pos(gap, w);
    assert(gap / w < shape.stride()) by {
        lemma_fundamental_div_mod(gap, w);
        lemma_fundamental_div_mod(l, w);
        assert(gap / w < l / w) by (nonlinear_arith)
            requires
                w * (gap / w) < w * (l / w),
                w > 0,
        ;
    }
    if base % w == 0 {
        // the line size is a multiple of the cell width, so what is left
        // of the address within its line is one too
        lemma_fundamental_div_mod(base, l);
        lemma_fundamental_div_mod(l, w);
        lemma_fundamental_div_mod(base, w);
        let q = base / l;
        let k = l / w;
        assert(r == w * (base / w - k * q)) by (nonlinear_arith)
            requires
                r == w * (base / w) - (w * k) * q,
        ;
        lemma_mod_multiples_basic(base / w - k * q, w);
        assert((w * (base / w - k * q)) % w == 0) by {
            lemma_mul_is_commutative(w, base / w - k * q);
        }
        assert(gap % w == 0) by {
            if r != 0 {
                assert(gap == w * (k - (base / w - k * q))) by (nonlinear_arith)
                    requires
                        gap == l - r,
                        l == w * k,
                        r == w * (base / w - k * q),
                ;
                lemma_mod_multiples_basic(k - (base / w - k * q), w);
                lemma_mul_is_commutative(w, k - (base / w - k * q));
            }
        }
        lemma_fundamental_div_mod(gap, w);
        assert(shape.offset_of(gap / w) == gap) by {
            lemma_mul_is_commutative(w, gap / w);
        }
        assert((base + gap) % l == 0) by {
            if r == 0 {
            } else {
                assert(base + gap == l * (q + 1)) by (nonlinear_arith)
                    requires
                        base == l * q + r,
                        gap == l - r,
                ;
                lemma_mod_multiples_basic(q + 1, l);
                lemma_mul_is_commutative(l, q + 1);
            }
        }
    }
}

/// With the lead worked out for the buffer's address, both cells start a
/// line, as long as the buffer starts at a multiple of the cell width.
pub proof fn lemma_lead_starts_lines(layout: ChannelLayout, base: int)
    requires
        layout.wf(),
        0 <= base,
        base % layout.shape.cell_width == 0,
        layout.lead == layout.shape.lead_for(base),
    ensures
        (base + layout.forward_offset()) % layout.shape.line_size == 0,
        (base + layout.backward_offset()) % layout.shape.line_size == 0,
{
    lemma_lead_aligns(layout.shape, base);
    lemma_cells_one_line_apart(layout);
    lemma_mod_add_multiples_vanish(base + layout.forward_offset(), layout.shape.line_size);
}

/// A cell that starts a line has that line to itself: every address of
/// the line lies in the channel's own buffer, and the other cell does not
/// lie in it.
pub proof fn lemma_aligned_cells_own_their_lines(layout: ChannelLayout, base: int, address: int)
    requires
        layout.wf(),
        0 <= base,
        (base + layout.forward_offset()) % layout.shape.line_size == 0,
    ensures
        layout.shape.line_of(address) == layout.shape.line_of(base + layout.forward_offset())
            ==> base + layout.forward_offset() <= address < base + layout.backward_offset(),
        layout.shape.line_of(address) == layout.shape.line_of(base + layout.backward_offset())
            ==> base + layout.backward_offset() <= address < base + layout.shape.byte_len(),
{
    let l = layout.shape.line_size;
    let f = base + layout.forward_offset();
    let b = base + layout.backward_offset();
    lemma_cells_one_line_apart(layout);
    lemma_fundamental_div_mod(f, l);
    lemma_fundamental_div_mod(address, l);
    lemma_div_plus_one(f, l);
    lemma_fundamental_div_mod(b, l);
    lemma_mod_bound(address, l);
    assert(b % l == 0) by {
        assert(l * (f / l + 1) == l * (f / l) + l) by (nonlinear_arith);
    }
}

/// The line size and cell width that a channel is laid out for.
#[derive(Debug, Clone, Copy)]
pub struct CacheGeometry {
    line_size: usize,
    cell_width: usize,
}

impl View for CacheGeometry {
    type V = LineShape;

    closed spec fn view(&self) -> LineShape {
        LineShape { line_size: self.line_size as int, cell_width: self.cell_width as int }
    }
}

impl CacheGeometry {
    /// Every geometry that the library hands out has a usable line size.
    pub open spec fn wf(&self) -> bool {
        self@.wf()
    }

    /// The geometry for cells of the given width on a machine whose line
    /// size was detected as given. A detected size that cannot be used
    /// gives way to the default; if the default does not suit the cell
    /// width either, there is no geometry.
    pub fn new(detected_line_size: usize, cell_width: usize) -> (r: Option<CacheGeometry>)
        ensures
            match r {
                Some(g) => g.wf() && g@.cell_width == cell_width && g@.line_size == (
                if usable_line_size(detected_line_size as int, cell_width as int) {
                    detected_line_size
                } else {
                    DEFAULT_LINE_SIZE
                }),
                None => !usable_line_size(detected_line_size as int, cell_width as int)
                    && !usable_line_size(DEFAULT_LINE_SIZE as int, cell_width as int),
            },
    {
        if cell_width == 0 {
            None
        } else if cell_width <= detected_line_size && detected_line_size <= MAX_LINE_SIZE
            && detected_line_size % cell_width == 0 {
            Some(CacheGeometry { line_size: detected_line_size, cell_width })
        } else if cell_width <= DEFAULT_LINE_SIZE && DEFAULT_LINE_SIZE % cell_width == 0 {
            Some(CacheGeometry { line_size: DEFAULT_LINE_SIZE, cell_width })
        } else {
            None
        }
    }

    /// The geometry for cells that hold a machine word each.
    pub fn for_word_cells(detected_line_size: usize) -> (g: CacheGeometry)
        ensures
            g.wf(),
            g@.cell_width == vstd::layout::size_of::<isize>(),
            g@.line_size == (if usable_line_size(
                detected_line_size as int,
                vstd::layout::size_of::<isize>() as int,
            ) {
                detected_line_size
            } else {
                DEFAULT_LINE_SIZE
            }),
    {
        broadcast use vstd::layout::layout_of_primitives;

        let width = core::mem::size_of::<isize>();
        match CacheGeometry::new(detected_line_size, width) {
            Some(g) => g,
            None => CacheGeometry { line_size: DEFAULT_LINE_SIZE, cell_width: width },
        }
    }

    /// Bytes in a cache line.
    pub fn line_size(&self) -> (n: usize)
        ensures
            n == self@.line_size,
    {
        self.line_size
    }

    /// Bytes in a cell.
    pub fn cell_width(&self) -> (n: usize)
        ensures
            n == self@.cell_width,
    {
        self.cell_width
    }

    /// Filler cells after each cell: the line size divided by the cell
    /// width, less the cell itself.
    pub fn pad_count(&self) -> (n: usize)
        requires
            self.wf(),
        ensures
            n == self@.pad_count(),
            n == self@.line_size / self@.cell_width - 1,
    {
        proof {
            lemma_cell_region_is_one_line(self@);
        }
        self.line_size / self.cell_width - 1
    }

    /// The fillers to put in front of the first cell of a buffer that
    /// starts at the given address, so that the cell starts a line.
    pub fn lead_slots(&self, base: usize) -> (lead: usize)
        requires
            self.wf(),
        ensures
            lead == self@.lead_for(base as int),
            lead < self@.stride(),
    {
        proof {
            lemma_lead_aligns(self@, base as int);
        }
        if base % self.cell_width == 0 {
            let within = base % self.line_size;
            let gap = if within == 0 {
                0
            } else {
                self.line_size - within
            };
            assert(gap == (self.line_size - within) % (self.line_size as int)) by {
                if within == 0 {
                    assert(self.line_size % self.line_size == 0) by (nonlinear_arith)
                        requires
                            self.line_size > 0,
                    ;
                } else {
                    lemma_small_mod((self.line_size - within) as nat, self.line_size as nat);
                }
            }
            gap / self.cell_width
        } else {
            0
        }
    }
}

} // verus!
