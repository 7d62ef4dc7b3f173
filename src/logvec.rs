//! A log gathered piece by piece: lines go into the current block, and a
//! block, once collected, is stored under its index.

use crate::input::split::strings_view;
use vstd::prelude::*;

verus! {

/// Blocks of log lines, and the block being gathered.
#[derive(Debug)]
pub struct LogVec {
    storage: Vec<Vec<String>>,
    current: Vec<String>,
}

/// What a `LogVec` holds: the stored blocks and the current one.
pub struct LogVecView {
    pub storage: Seq<Seq<Seq<char>>>,
    pub current: Seq<Seq<char>>,
}

impl View for LogVec {
    type V = LogVecView;

    closed spec fn view(&self) -> LogVecView {
        LogVecView {
            storage: self.storage@.map_values(|b: Vec<String>| strings_view(b@)),
            current: strings_view(self.current@),
        }
    }
}

impl LogVec {
    /// No blocks, and an empty current block.
    pub fn new() -> (r: Self)
        ensures
            r@.storage.len() == 0,
            r@.current.len() == 0,
    {
        let r = LogVec { storage: Vec::new(), current: Vec::new() };
        assert(r@.storage =~= Seq::empty());
        assert(r@.current =~= Seq::empty());
        r
    }

    /// Adds a line to the current block.
    pub fn insert(&mut self, value: &str)
        ensures
            final(self)@.storage == old(self)@.storage,
            final(self)@.current == old(self)@.current.push(value@),
    {
        self.current.push(value.to_owned());
        assert(self@.current =~= old(self)@.current.push(value@));
        assert(self@.storage =~= old(self)@.storage);
    }

    /// Stores the current block and starts an empty one; returns the index
    /// under which the block is stored.
    pub fn collect(&mut self) -> (r: usize)
        ensures
            final(self)@.storage == old(self)@.storage.push(old(self)@.current),
            final(self)@.current.len() == 0,
            r == old(self)@.storage.len(),
    {
        let mut block: Vec<String> = Vec::new();
        block.append(&mut self.current);
        assert(block@ =~= old(self).current@);
        self.storage.push(block);
        assert(self@.storage =~= old(self)@.storage.push(old(self)@.current));
        assert(self@.current =~= Seq::empty());
        self.storage.len() - 1
    }
}

} // verus!
