//! Several tapes, one head on each.

use vstd::prelude::*;

use crate::{
    tape::single::{SingleTape, TapeView},
    types::{Direction, Symbol},
};

verus! {

/// `TAPES` tapes with one head each.
#[derive(Debug)]
pub struct MultiTape<const TAPES: usize>(pub [SingleTape; TAPES]);

impl<const TAPES: usize> View for MultiTape<TAPES> {
    type V = Seq<TapeView>;

    open spec fn view(&self) -> Seq<TapeView> {
        self.0@.map_values(|t: SingleTape| t@)
    }
}

/// The symbols under the heads of `tapes`, in order.
pub open spec fn heads_of(tapes: Seq<TapeView>) -> Seq<Symbol> {
    tapes.map_values(|t: TapeView| t.head)
}

/// Each tape written and moved by the matching symbol and direction.
pub open spec fn shift_all(tapes: Seq<TapeView>, write: Seq<Symbol>, dirs: Seq<Direction>) -> Seq<
    TapeView,
> {
    Seq::new(tapes.len(), |i: int| tapes[i].shifted(write[i], dirs[i]))
}

impl<const TAPES: usize> Clone for MultiTape<TAPES> {
    /// A copy of these tapes.
    fn clone(&self) -> (r: Self)
        ensures
            r@ == self@,
    {
        let r = MultiTape(self.0.clone());
        assert(r@ =~= self@) by {
            assert forall|i: int| 0 <= i < TAPES implies #[trigger] r.0@[i]@ == self.0@[i]@ by {
                assert(cloned::<SingleTape>(self.0@[i], r.0@[i]));
            }
        }
        r
    }
}

impl<const TAPES: usize> MultiTape<TAPES> {
    /// The symbols under the heads, tape by tape.
    pub fn read(&self) -> (r: [Symbol; TAPES])
        ensures
            r@ == heads_of(self@),
    {
        let mut symbols = vstd::array::array_fill_for_copy_types::<Symbol, TAPES>(None);
        let mut i: usize = 0;
        while i < TAPES
            invariant
                i <= TAPES,
                symbols@.len() == TAPES,
                forall|j: int| 0 <= j < i ==> symbols@[j] == self.0@[j].head,
            decreases TAPES - i,
        {
            symbols[i] = self.0[i].read();
            i = i + 1;
        }
        assert(symbols@ =~= heads_of(self@));
        symbols
    }

    /// The cells of each tape from left to right.
    pub fn to_vecs(&self) -> (r: Vec<Vec<Symbol>>)
        ensures
            r@.len() == TAPES,
            forall|i: int| 0 <= i < TAPES ==> (#[trigger] r@[i])@ == self@[i].contents(),
    {
        let mut r: Vec<Vec<Symbol>> = Vec::new();
        let mut i: usize = 0;
        while i < TAPES
            invariant
                i <= TAPES,
                r@.len() == i,
                forall|j: int| 0 <= j < i ==> (#[trigger] r@[j])@ == self@[j].contents(),
            decreases TAPES - i,
        {
            r.push(self.0[i].to_vec());
            i = i + 1;
        }
        r
    }
}

} // verus!
