//! One tape with several heads.

use vstd::prelude::*;

use std::collections::VecDeque;

use crate::types::{Direction, Symbol, TapeBoundary, TapeTheoreticalSize};

verus! {

/// One tape read and written by `HEADS` heads.
#[derive(Debug)]
pub struct MultiHeadTape<const HEADS: usize> {
    /// All symbols on the tape. The head positions are tracked separately, so
    /// this is just a flat vector of symbols. The head positions are used to
    /// determine which symbol each head is currently reading or writing.
    pub memory: VecDeque<Symbol>,

    /// Pointers to the current position of each head.
    pub head_positions: [usize; HEADS],

    /// Offset from the initial alphabet. Useful for seminfinite tapes, where we
    /// need to track how far we've moved from the initial position to know when
    /// hitting the wall.
    pub offset: isize,
}

/// The mathematical content of a [`MultiHeadTape`].
#[verifier::ext_equal]
pub struct HeadTapeView {
    pub memory: Seq<Symbol>,
    pub head_positions: Seq<usize>,
    pub offset: isize,
}

impl<const HEADS: usize> View for MultiHeadTape<HEADS> {
    type V = HeadTapeView;

    open spec fn view(&self) -> HeadTapeView {
        HeadTapeView {
            memory: self.memory@,
            head_positions: self.head_positions@,
            offset: self.offset,
        }
    }
}

impl HeadTapeView {
    /// Every head stands on a cell of the tape.
    pub open spec fn heads_in_bounds(self) -> bool {
        forall|i: int|
            0 <= i < self.head_positions.len() ==> #[trigger] self.head_positions[i]
                < self.memory.len()
    }

    /// The symbol under each head, blank for a head off the tape.
    pub open spec fn heads(self) -> Seq<Symbol> {
        Seq::new(
            self.head_positions.len(),
            |i: int|
                if self.head_positions[i] < self.memory.len() {
                    self.memory[self.head_positions[i] as int]
                } else {
                    None
                },
        )
    }

    /// The tape after heads `0..k` wrote `write`, in order; a later head
    /// overwrites an earlier one on the same cell.
    pub open spec fn written(self, write: Seq<Symbol>, k: nat) -> HeadTapeView
        decreases k,
    {
        if k == 0 {
            self
        } else {
            let w = self.written(write, (k - 1) as nat);
            HeadTapeView {
                memory: w.memory.update(self.head_positions[k - 1] as int, write[k - 1]),
                ..w
            }
        }
    }

    /// The offset after one more blank cell was put in front of the tape.
    pub open spec fn offset_after_prepend(self) -> isize {
        (self.offset - 1) as isize
    }

    /// Why head `i` may not move in `dir`: the wall of a semi-infinite
    /// tape, or a strict machine asked to stay.
    pub open spec fn move_blocked(
        self,
        i: int,
        dir: Direction,
        tape_size: TapeTheoreticalSize,
        strict: bool,
    ) -> bool {
        match dir {
            Direction::Left => self.head_positions[i] == 0 && tape_size
                == TapeTheoreticalSize::SemiInfinite(TapeBoundary::Left),
            Direction::Right => self.head_positions[i] == self.memory.len() - 1 && tape_size
                == TapeTheoreticalSize::SemiInfinite(TapeBoundary::Right),
            Direction::Stay => strict,
        }
    }

    /// The tape after head `i` moved one cell in `dir`. Moving left off the
    /// front puts a blank cell in front (every other head keeps its cell);
    /// moving right off the back appends a blank cell.
    pub open spec fn moved(self, i: int, dir: Direction) -> HeadTapeView {
        match dir {
            Direction::Left => if self.head_positions[i] == 0 {
                HeadTapeView {
                    memory: seq![None] + self.memory,
                    head_positions: Seq::new(
                        self.head_positions.len(),
                        |j: int|
                            if j == i {
                                self.head_positions[j]
                            } else {
                                (self.head_positions[j] + 1) as usize
                            },
                    ),
                    offset: self.offset_after_prepend(),
                }
            } else {
                HeadTapeView {
                    head_positions: self.head_positions.update(
                        i,
                        (self.head_positions[i] - 1) as usize,
                    ),
                    ..self
                }
            },
            Direction::Right => HeadTapeView {
                memory: if self.head_positions[i] == self.memory.len() - 1 {
                    self.memory.push(None)
                } else {
                    self.memory
                },
                head_positions: self.head_positions.update(i, (self.head_positions[i] + 1) as usize),
                offset: self.offset,
            },
            Direction::Stay => self,
        }
    }
}

/// Writing leaves the heads, the offset and the length of the tape as they
/// were, and keeps every head on the tape.
pub proof fn lemma_written_keeps_shape(t: HeadTapeView, write: Seq<Symbol>, k: nat)
    requires
        t.heads_in_bounds(),
        k <= t.head_positions.len(),
    ensures
        t.written(write, k).head_positions == t.head_positions,
        t.written(write, k).offset == t.offset,
        t.written(write, k).memory.len() == t.memory.len(),
        t.written(write, k).heads_in_bounds(),
    decreases k,
{
    if k > 0 {
        lemma_written_keeps_shape(t, write, (k - 1) as nat);
        assert(t.head_positions[k - 1] < t.memory.len());
    }
}

/// Moving one head never changes what the other heads read, and keeps every
/// head on the tape; a head that leaves the stored cells reads a blank.
pub proof fn lemma_move_keeps_other_heads(t: HeadTapeView, i: int, dir: Direction)
    requires
        t.heads_in_bounds(),
        0 <= i < t.head_positions.len(),
        t.memory.len() < usize::MAX,
    ensures
        t.moved(i, dir).heads_in_bounds(),
        t.moved(i, dir).head_positions.len() == t.head_positions.len(),
        forall|j: int|
            0 <= j < t.head_positions.len() && j != i ==> #[trigger] t.moved(i, dir).heads()[j]
                == t.heads()[j],
        dir == Direction::Left && t.head_positions[i] == 0 ==> t.moved(i, dir).heads()[i] is None,
        dir == Direction::Right && t.head_positions[i] == t.memory.len() - 1 ==> t.moved(
            i,
            dir,
        ).heads()[i] is None,
{
    let m = t.moved(i, dir);
    assert forall|j: int| 0 <= j < t.head_positions.len() && j != i implies #[trigger] m.heads()[j]
        == t.heads()[j] by {
        let p = t.head_positions[j] as int;
        assert(p < t.memory.len());
        match dir {
            Direction::Left => {
                if t.head_positions[i] == 0 {
                    assert(m.head_positions[j] == p + 1);
                    assert(m.memory[p + 1] == t.memory[p]);
                } else {
                    assert(m.head_positions[j] == p);
                }
            },
            Direction::Right => {
                assert(m.head_positions[j] == p);
                assert(m.memory[p] == t.memory[p]);
            },
            Direction::Stay => {},
        }
    }
    if dir == Direction::Right && t.head_positions[i] == t.memory.len() - 1 {
        assert(m.head_positions[i] == t.memory.len());
        assert(m.memory[t.memory.len() as int] is None);
    }
    assert forall|j: int| 0 <= j < m.head_positions.len() implies #[trigger] m.head_positions[j]
        < m.memory.len() by {
        assert(t.head_positions[j] < t.memory.len());
    }
}

/// Moving head `i` puts it on the neighbouring cell in the direction moved:
/// left of a head past the front it stands on the cell before, with the tape
/// as it was; at the front a blank cell is put before the tape and the head
/// stands on it while the other heads keep their cells; moving right it
/// stands on the next cell, and at the back a blank cell is appended for it;
/// the other heads stay where they were, and staying changes nothing.
pub proof fn lemma_moved_goes_to_neighbour(t: HeadTapeView, i: int, dir: Direction)
    requires
        t.heads_in_bounds(),
        0 <= i < t.head_positions.len(),
        t.memory.len() < usize::MAX,
    ensures
        ({
            let m = t.moved(i, dir);
            let p = t.head_positions[i] as int;
            &&& m.head_positions.len() == t.head_positions.len()
            &&& dir == Direction::Stay ==> m == t
            &&& dir == Direction::Left && p > 0 ==> {
                &&& m.memory == t.memory
                &&& m.offset == t.offset
                &&& m.head_positions[i] == p - 1
                &&& forall|j: int|
                    0 <= j < t.head_positions.len() && j != i ==> #[trigger] m.head_positions[j]
                        == t.head_positions[j]
            }
            &&& dir == Direction::Left && p == 0 ==> {
                &&& m.memory == seq![None] + t.memory
                &&& t.offset > isize::MIN ==> m.offset == t.offset - 1
                &&& m.head_positions[i] == 0
                &&& forall|j: int|
                    0 <= j < t.head_positions.len() && j != i ==> #[trigger] m.head_positions[j]
                        == t.head_positions[j] + 1
            }
            &&& dir == Direction::Right ==> {
                &&& m.head_positions[i] == p + 1
                &&& m.offset == t.offset
                &&& m.memory.len() == if p == t.memory.len() - 1 {
                    t.memory.len() + 1int
                } else {
                    t.memory.len() as int
                }
                &&& m.memory.subrange(0, t.memory.len() as int) == t.memory
                &&& m.memory[p + 1] == if p == t.memory.len() - 1 {
                    None
                } else {
                    t.memory[p + 1]
                }
                &&& forall|j: int|
                    0 <= j < t.head_positions.len() && j != i ==> #[trigger] m.head_positions[j]
                        == t.head_positions[j]
            }
        }),
{
    let m = t.moved(i, dir);
    let p = t.head_positions[i] as int;
    assert(p < t.memory.len());
    if dir == Direction::Right {
        assert(m.memory.subrange(0, t.memory.len() as int) =~= t.memory);
        assert(m.head_positions[i] == p + 1);
    }
    if dir == Direction::Left && p > 0 {
        assert(m.head_positions[i] == p - 1);
    }
    if dir == Direction::Left && p == 0 {
        assert forall|j: int|
            0 <= j < t.head_positions.len() && j != i implies #[trigger] m.head_positions[j]
            == t.head_positions[j] + 1 by {
            assert(t.head_positions[j] < t.memory.len());
        }
    }
}

/// A copy of a run of symbols held in a deque.
pub fn copy_deque(v: &VecDeque<Symbol>) -> (r: VecDeque<Symbol>)
    ensures
        r@ == v@,
{
    let mut r: VecDeque<Symbol> = VecDeque::new();
    let mut i: usize = 0;
    while i < v.len()
        invariant
            i <= v@.len(),
            r@ == v@.take(i as int),
        decreases v@.len() - i,
    {
        r.push_back(v[i]);
        i = i + 1;
        assert(r@ =~= v@.take(i as int));
    }
    assert(v@.take(v@.len() as int) =~= v@);
    r
}

impl<const HEADS: usize> Clone for MultiHeadTape<HEADS> {
    /// A copy of this tape.
    fn clone(&self) -> (r: Self)
        ensures
            r@ == self@,
    {
        MultiHeadTape {
            memory: copy_deque(&self.memory),
            head_positions: self.head_positions,
            offset: self.offset,
        }
    }
}

impl<const HEADS: usize> MultiHeadTape<HEADS> {
    /// The symbol under each head; blank for a head beyond the tape.
    pub fn read(&self) -> (r: [Symbol; HEADS])
        ensures
            r@ == self@.heads(),
    {
        let mut symbols = vstd::array::array_fill_for_copy_types::<Symbol, HEADS>(None);
        let mut i: usize = 0;
        while i < HEADS
            invariant
                i <= HEADS,
                symbols@.len() == HEADS,
                forall|j: int| 0 <= j < i ==> symbols@[j] == self@.heads()[j],
                forall|j: int| i <= j < HEADS ==> symbols@[j] is None,
            decreases HEADS - i,
        {
            let pos = self.head_positions[i];
            if pos < self.memory.len() {
                symbols[i] = self.memory[pos];
            }
            i = i + 1;
        }
        assert(symbols@ =~= self@.heads());
        symbols
    }

    /// Head `i` writes `write` on its cell.
    pub(crate) fn write_head(&mut self, i: usize, write: Symbol)
        requires
            i < HEADS,
            old(self)@.head_positions[i as int] < old(self)@.memory.len(),
        ensures
            final(self)@ == (HeadTapeView {
                memory: old(self)@.memory.update(old(self)@.head_positions[i as int] as int, write),
                ..old(self)@
            }),
    {
        let pos = self.head_positions[i];
        let ghost before = self@;
        self.memory.remove(pos);
        self.memory.insert(pos, write);
        assert(self@.memory =~= before.memory.update(pos as int, write));
    }

    /// Head `i` moves one cell in `dir`, as [`HeadTapeView::moved`] says.
    pub(crate) fn move_head(&mut self, i: usize, dir: Direction)
        requires
            i < HEADS,
            old(self)@.heads_in_bounds(),
            old(self)@.offset > isize::MIN,
        ensures
            final(self)@ == old(self)@.moved(i as int, dir),
            final(self)@.heads_in_bounds(),
    {
        let ghost before = self@;
        match dir {
            Direction::Left => {
                if self.head_positions[i] == 0 {
                    self.memory.push_front(None);
                    self.offset = self.offset - 1;
                    let mut j: usize = 0;
                    while j < HEADS
                        invariant
                            j <= HEADS,
                            i < HEADS,
                            self.memory.len() == before.memory.len() + 1,
                            before.heads_in_bounds(),
                            before.head_positions.len() == HEADS,
                            self.memory@ == seq![None] + before.memory,
                            self.offset == before.offset - 1,
                            forall|k: int|
                                0 <= k < HEADS ==> #[trigger] self.head_positions@[k] == if k < j {
                                    before.head_positions[k] + 1
                                } else {
                                    before.head_positions[k] as int
                                },
                        decreases HEADS - j,
                    {
                        assert(self.head_positions@[j as int] == before.head_positions[j as int]);
                        assert(before.head_positions[j as int] < before.memory.len());
                        self.head_positions[j] = self.head_positions[j] + 1;
                        j = j + 1;
                    }
                    self.head_positions[i] = self.head_positions[i] - 1;
                } else {
                    self.head_positions[i] = self.head_positions[i] - 1;
                }
            },
            Direction::Right => {
                if self.head_positions[i] == self.memory.len() - 1 {
                    self.memory.push_back(None);
                    assert(self@.memory == before.memory.push(None));
                }
                self.head_positions[i] = self.head_positions[i] + 1;
            },
            Direction::Stay => {},
        }
        assert(self@.head_positions =~= before.moved(i as int, dir).head_positions);
        assert(self@.memory =~= before.moved(i as int, dir).memory);
        assert(self@ =~= before.moved(i as int, dir));
    }

    /// All cells of the tape, front to back.
    pub fn to_vec(&self) -> (r: VecDeque<Symbol>)
        ensures
            r@ == self@.memory,
    {
        copy_deque(&self.memory)
    }
}

} // verus!
