//! Walking away from a starting point, one direction at a time.
//!
//! A `Walkable` hands out a `Walker` for a direction; the walker says which
//! item lies a given number of steps away, if any. `WalkerIterator` turns the
//! two into a forward-only sequence: one step, two steps, and so on, up to the
//! first step that leads nowhere.

use crate::Dir;
use std::fmt::Debug;
use vstd::prelude::*;

verus! {

/// Something that can be walked away from, in each direction.
pub trait Walkable {
    type WItem;

    type W: Walker<WItem = Self::WItem>;

    /// The walker that `walker` returns.
    spec fn walker_of(&self, dir: Dir) -> Self::W;

    fn walker(&self, dir: Dir) -> (w: Self::W)
        ensures
            w == self.walker_of(dir),
    ;
}

/// A starting point together with a direction.
pub trait Walker {
    type WItem;

    /// The item that lies `length` steps away, or `None` where there is none.
    spec fn step(&self, length: usize) -> Option<Self::WItem>;

    fn walk_one(&self) -> (item: Option<Self::WItem>)
        ensures
            item == self.step(1),
    {
        self.walk(1)
    }

    fn walk(&self, length: usize) -> (item: Option<Self::WItem>)
        ensures
            item == self.step(length),
    ;
}

/// The items that lie one step, two steps, three steps... away from a
/// starting point in one direction, handed out one at a time. The sequence ends
/// at the first step that gives no item, and stays ended.
#[derive(Debug)]
pub struct WalkerIterator<W: Walkable + Debug> {
    walkable: W,
    dir: Dir,
    ix: usize,
    done: bool,
}

impl<W: Walkable + Debug> WalkerIterator<W> {
    /// The starting point.
    pub closed spec fn origin(&self) -> W {
        self.walkable
    }

    /// The direction walked in.
    pub closed spec fn direction(&self) -> Dir {
        self.dir
    }

    /// How many steps away the next item lies, or `None` once the sequence has
    /// ended.
    pub closed spec fn pending(&self) -> Option<usize> {
        if self.done {
            None
        } else {
            Some(self.ix)
        }
    }

    /// What `next` returns in this state.
    pub open spec fn upcoming(&self) -> Option<W::WItem> {
        match self.pending() {
            Some(length) => self.origin().walker_of(self.direction()).step(length),
            None => None,
        }
    }

    /// What `pending` is after `next` has been called in this state: one step
    /// further where an item came out and a further step can be counted, and
    /// ended otherwise.
    pub open spec fn pending_after(&self) -> Option<usize> {
        match self.pending() {
            Some(length) => if self.upcoming() is Some && length < usize::MAX {
                Some((length + 1) as usize)
            } else {
                None
            },
            None => None,
        }
    }

    /// The sequence that starts one step away from `walkable`.
    pub fn new(walkable: W, dir: Dir) -> (iter: Self)
        ensures
            iter.origin() == walkable,
            iter.direction() == dir,
            iter.pending() == Some(1usize),
    {
        Self { walkable, dir, ix: 1, done: false }
    }

    /// The next item of the sequence, or `None` when the sequence has ended.
    pub fn next(&mut self) -> (item: Option<W::WItem>)
        ensures
            item == old(self).upcoming(),
            final(self).origin() == old(self).origin(),
            final(self).direction() == old(self).direction(),
            final(self).pending() == old(self).pending_after(),
    {
        if self.done {
            return None;
        }
        let item = self.walkable.walker(self.dir).walk(self.ix);
        if item.is_some() && self.ix < usize::MAX {
            self.ix += 1;
        } else {
            self.done = true;
        }
        item
    }
}

} // verus!
