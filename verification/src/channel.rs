//! The channel between the two threads of a core pair.
//!
//! A channel is two atomic cells, one for each direction, each followed by
//! filler cells so that the two never lie in the same cache line. Nothing
//! but the cells is shared between the two threads, and there is no lock:
//! a value stored with release ordering by the one writer of a cell is
//! seen by the acquire load of its one reader, together with everything
//! the writer did before the store.
//!
//! The line size is known only when the program runs, so the fillers are
//! not part of a type: the cells and fillers are slots of one buffer, and
//! the cells are moved up in it until the first one starts a line.

use core::sync::atomic::{AtomicIsize, Ordering};
use vstd::layout::size_of;
use vstd::prelude::*;
use crate::geometry::{
    lemma_cell_region_is_one_line, lemma_cells_one_line_apart, lemma_lead_starts_lines,
    CacheGeometry, ChannelLayout, LineShape,
};
use crate::protocol::{Direction, IDLE};

verus! {

/// Std's `Vec::as_ptr`, taken as a number: the address of the first byte
/// of the buffer. Where the buffer lies is the allocator's choice. What
/// is claimed is its alignment: a vector's buffer is aligned for its
/// items, and an atomic integer is aligned to its size, which is the size
/// of the integer it holds.
#[verifier::external_body]
fn buffer_address(slots: &Vec<AtomicIsize>) -> (address: usize)
    ensures
        address as int % (size_of::<isize>() as int) == 0,
{
    slots.as_ptr() as usize
}

/// The communication medium of one core pair. It is made fresh for each
/// pair and dropped when the pair has been measured.
pub struct Channel {
    slots: Vec<AtomicIsize>,
    geometry: CacheGeometry,
    base: usize,
    lead: usize,
}

impl Channel {
    /// The line size and cell width that the channel is laid out for.
    pub closed spec fn shape(&self) -> LineShape {
        self.geometry@
    }

    /// The address that the buffer was found at when the channel was
    /// made.
    pub closed spec fn base(&self) -> int {
        self.base as int
    }

    /// The arrangement of the cells in the buffer.
    pub closed spec fn layout(&self) -> ChannelLayout {
        ChannelLayout { shape: self.geometry@, lead: self.lead as int }
    }

    /// The number of slots in the buffer, cells and fillers together.
    pub closed spec fn slot_count(&self) -> int {
        self.slots@.len() as int
    }

    /// The atomic that stands in a slot of the buffer.
    pub closed spec fn slot_at(&self, slot: int) -> AtomicIsize {
        self.slots@[slot]
    }

    /// The buffer has exactly the slots that the shape asks for, it
    /// starts at a multiple of the size of a machine word, and the cells
    /// are moved up in it as its address asks for.
    pub open spec fn wf(&self) -> bool {
        &&& self.layout().wf()
        &&& self.layout().shape == self.shape()
        &&& 0 <= self.base()
        &&& self.base() % (size_of::<isize>() as int) == 0
        &&& self.layout().lead == self.shape().lead_for(self.base())
        &&& self.slot_count() == self.shape().slot_count()
    }

    /// Each of the two cells starts a cache line.
    pub open spec fn cells_start_lines(&self) -> bool {
        &&& (self.base() + self.layout().forward_offset()) % self.shape().line_size == 0
        &&& (self.base() + self.layout().backward_offset()) % self.shape().line_size == 0
    }

    /// In a channel whose cells are as wide as the machine words that
    /// hold them, each cell starts a cache line. By
    /// `lemma_aligned_cells_own_their_lines` it then has the line to
    /// itself.
    pub proof fn lemma_cells_start_lines(&self)
        requires
            self.wf(),
            self.shape().cell_width == size_of::<isize>(),
        ensures
            self.cells_start_lines(),
    {
        lemma_lead_starts_lines(self.layout(), self.base());
    }

    /// The slot that the layout gives to a cell.
    pub open spec fn slot_in(layout: ChannelLayout, direction: Direction) -> int {
        match direction {
            Direction::Forward => layout.forward_slot(),
            Direction::Backward => layout.backward_slot(),
        }
    }

    /// A channel laid out for the given geometry, with every cell idle.
    /// Laid out for cells as wide as a machine word, as
    /// `CacheGeometry::for_word_cells` gives them, each cell starts a
    /// cache line.
    pub fn new(geometry: &CacheGeometry) -> (c: Channel)
        requires
            geometry.wf(),
        ensures
            c.wf(),
            c.shape() == geometry@,
            geometry@.cell_width == size_of::<isize>() ==> c.cells_start_lines(),
    {
        proof {
            lemma_cell_region_is_one_line(geometry@);
        }
        let stride = geometry.pad_count() + 1;
        let count = 3 * stride - 1;
        let mut slots: Vec<AtomicIsize> = Vec::new();
        let mut k: usize = 0;
        while k < count
            invariant
                k <= count,
                slots@.len() == k,
            decreases count - k,
        {
            slots.push(AtomicIsize::new(IDLE));
            k += 1;
        }
        let base = buffer_address(&slots);
        let lead = geometry.lead_slots(base);
        let c = Channel { slots, geometry: *geometry, base, lead };
        proof {
            if geometry@.cell_width == size_of::<isize>() {
                c.lemma_cells_start_lines();
            }
        }
        c
    }

    /// The position of a cell in the buffer, counted in cells.
    pub fn slot_of(&self, direction: Direction) -> (slot: usize)
        requires
            self.wf(),
        ensures
            slot == Self::slot_in(self.layout(), direction),
            slot < self.slot_count(),
    {
        proof {
            lemma_cell_region_is_one_line(self.shape());
            lemma_cells_one_line_apart(self.layout());
        }
        match direction {
            Direction::Forward => self.lead,
            Direction::Backward => self.lead + (self.geometry.pad_count() + 1),
        }
    }

    /// The geometry that the channel was laid out for.
    pub fn geometry(&self) -> (g: CacheGeometry)
        ensures
            g@ == self.shape(),
    {
        self.geometry
    }

    /// The cell for a direction: the atomic in the slot that the layout
    /// gives to that direction.
    pub fn cell(&self, direction: Direction) -> (cell: &AtomicIsize)
        requires
            self.wf(),
        ensures
            *cell == self.slot_at(Self::slot_in(self.layout(), direction)),
    {
        let slot = self.slot_of(direction);
        &self.slots[slot]
    }

    /// Stores a round number in a cell, with release ordering.
    pub fn publish(&self, direction: Direction, value: isize)
        requires
            self.wf(),
    {
        self.cell(direction).store(value, Ordering::Release);
    }

    /// Loads the last round number stored in a cell, with acquire
    /// ordering.
    pub fn observe(&self, direction: Direction) -> (value: isize)
        requires
            self.wf(),
    {
        self.cell(direction).load(Ordering::Acquire)
    }
}

} // verus!
