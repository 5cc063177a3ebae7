//! A tape with one head, kept as two stacks around the head.

use vstd::prelude::*;

use crate::types::{Direction, Symbol, TapeBoundary, TapeTheoreticalSize};

verus! {

/// A tape with one head.
#[derive(Debug)]
pub struct SingleTape {
    /// Left of the head. The last element is the one immediately to the left of
    /// the head.
    pub left: Vec<Symbol>,

    /// The symbol under the head.
    pub head: Symbol,

    /// Right of the head. The last element is the one immediately to the right
    /// of the head.
    pub right: Vec<Symbol>,
}

/// The mathematical content of a [`SingleTape`].
#[verifier::ext_equal]
pub struct TapeView {
    pub left: Seq<Symbol>,
    pub head: Symbol,
    pub right: Seq<Symbol>,
}

impl View for SingleTape {
    type V = TapeView;

    open spec fn view(&self) -> TapeView {
        TapeView { left: self.left@, head: self.head, right: self.right@ }
    }
}

impl TapeView {
    /// Number of cells the tape holds.
    pub open spec fn size(self) -> int {
        self.left.len() + self.right.len() + 1int
    }

    /// The cells from left to right.
    pub open spec fn contents(self) -> Seq<Symbol> {
        self.left + seq![self.head] + self.right.reverse()
    }

    /// Index of the head within [`TapeView::contents`].
    pub open spec fn position(self) -> int {
        self.left.len() as int
    }

    /// The tape after `write` replaced the symbol under the head and the head
    /// moved one cell in `dir`; moving off an end brings in a blank cell.
    pub open spec fn shifted(self, write: Symbol, dir: Direction) -> TapeView {
        match dir {
            Direction::Left => TapeView {
                left: if self.left.len() == 0 { self.left } else { self.left.drop_last() },
                head: if self.left.len() == 0 { None } else { self.left.last() },
                right: self.right.push(write),
            },
            Direction::Right => TapeView {
                left: self.left.push(write),
                head: if self.right.len() == 0 { None } else { self.right.last() },
                right: if self.right.len() == 0 { self.right } else { self.right.drop_last() },
            },
            Direction::Stay => TapeView { left: self.left, head: write, right: self.right },
        }
    }

    /// Moving in `dir` would cross the wall of a semi-infinite tape.
    pub open spec fn hits_wall(self, dir: Direction, size: TapeTheoreticalSize) -> bool {
        match dir {
            Direction::Left => self.left.len() == 0 && size == TapeTheoreticalSize::SemiInfinite(
                TapeBoundary::Left,
            ),
            Direction::Right => self.right.len() == 0 && size == TapeTheoreticalSize::SemiInfinite(
                TapeBoundary::Right,
            ),
            Direction::Stay => false,
        }
    }
}

/// A copy of a run of symbols.
pub fn copy_symbols(v: &Vec<Symbol>) -> (r: Vec<Symbol>)
    ensures
        r@ == v@,
{
    let mut r: Vec<Symbol> = Vec::new();
    let mut i: usize = 0;
    while i < v.len()
        invariant
            i <= v.len(),
            r@ == v@.take(i as int),
        decreases v.len() - i,
    {
        r.push(v[i]);
        i = i + 1;
        assert(r@ =~= v@.take(i as int));
    }
    assert(v@.take(v.len() as int) =~= v@);
    r
}

impl Clone for SingleTape {
    /// A copy of this tape.
    fn clone(&self) -> (r: SingleTape)
        ensures
            r@ == self@,
    {
        SingleTape { left: copy_symbols(&self.left), head: self.head, right: copy_symbols(&self.right) }
    }
}

impl SingleTape {
    /// The symbol under the head.
    pub fn read(&self) -> (r: Symbol)
        ensures
            r == self.head,
    {
        self.head
    }

    /// The cells from left to right.
    pub fn to_vec(&self) -> (r: Vec<Symbol>)
        ensures
            r@ == self@.contents(),
    {
        let mut tape = copy_symbols(&self.left);
        tape.push(self.head);
        let ghost base: int = self.left@.len() as int + 1;
        let mut i: usize = self.right.len();
        assert(tape@ =~= self@.contents().take(base));
        while i > 0
            invariant
                i <= self.right@.len(),
                base == self.left@.len() + 1,
                tape@ == self@.contents().take(base + (self.right@.len() - i)),
            decreases i,
        {
            i = i - 1;
            tape.push(self.right[i]);
            assert(tape@ =~= self@.contents().take(base + (self.right@.len() - i)));
        }
        assert(self@.contents().take(base + self.right@.len()) =~= self@.contents());
        tape
    }

    /// Writes `write` under the head and moves the head one cell in `dir`.
    pub fn shift(&mut self, write: Symbol, dir: Direction)
        ensures
            final(self)@ == old(self)@.shifted(write, dir),
    {
        match dir {
            Direction::Left => {
                self.right.push(write);
                self.head = match self.left.pop() {
                    Some(s) => s,
                    None => None,
                };
            },
            Direction::Right => {
                self.left.push(write);
                self.head = match self.right.pop() {
                    Some(s) => s,
                    None => None,
                };
            },
            Direction::Stay => {
                self.head = write;
            },
        }
    }
}

/// A step writes the symbol under the head and moves the head by one cell:
/// the cells left to right are the old ones with the head's cell rewritten,
/// plus one blank cell where the head left the stored part of the tape.
pub proof fn lemma_shift_writes_then_moves(t: TapeView, write: Symbol, dir: Direction)
    ensures
        ({
            let s = t.shifted(write, dir);
            let written = t.contents().update(t.position(), write);
            match dir {
                Direction::Stay => s.contents() == written && s.position() == t.position(),
                Direction::Right => if t.right.len() == 0 {
                    s.contents() == written.push(None) && s.position() == t.position() + 1
                } else {
                    s.contents() == written && s.position() == t.position() + 1
                },
                Direction::Left => if t.left.len() == 0 {
                    s.contents() == seq![None] + written && s.position() == 0
                } else {
                    s.contents() == written && s.position() == t.position() - 1
                },
            }
        }),
{
    let s = t.shifted(write, dir);
    let written = t.contents().update(t.position(), write);
    match dir {
        Direction::Stay => {
            assert(s.contents() =~= written);
        },
        Direction::Right => {
            if t.right.len() == 0 {
                assert(s.contents() =~= written.push(None));
            } else {
                assert(s.contents() =~= written);
            }
        },
        Direction::Left => {
            if t.left.len() == 0 {
                assert(s.contents() =~= seq![None] + written);
            } else {
                assert(s.contents() =~= written);
            }
        },
    }
}

/// `s` is `t` after `write` replaced the cell under the head and the head
/// moved one cell in `dir`, told by the cells left to right and the head's
/// index among them: a head at an end that moves off it lands on a new
/// blank cell there.
pub open spec fn writes_then_moves(t: TapeView, s: TapeView, write: Symbol, dir: Direction) -> bool {
    let written = t.contents().update(t.position(), write);
    let last = t.contents().len() - 1;
    match dir {
        Direction::Stay => s.contents() == written && s.position() == t.position(),
        Direction::Right => s.position() == t.position() + 1 && s.contents() == if t.position()
            == last {
            written.push(None)
        } else {
            written
        },
        Direction::Left => if t.position() == 0 {
            s.contents() == seq![None] + written && s.position() == 0
        } else {
            s.contents() == written && s.position() == t.position() - 1
        },
    }
}

/// Shifting a tape writes the symbol under the head and then moves the head
/// one cell, as [`writes_then_moves`] tells it.
pub proof fn lemma_shift_is_write_then_move(t: TapeView, write: Symbol, dir: Direction)
    ensures
        writes_then_moves(t, t.shifted(write, dir), write, dir),
{
    lemma_shift_writes_then_moves(t, write, dir);
}

} // verus!
