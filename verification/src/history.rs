//! Browser navigation history: a back stack and a forward stack.
use vstd::prelude::*;
use crate::types::PageUrl;

verus! {

/// The most entries either stack keeps; the oldest entry falls off first.
pub const MAX_HISTORY: usize = 100;

pub struct HistoryEntry {
    pub url: PageUrl,
}

pub struct History {
    pub back_stack: Vec<PageUrl>,
    pub forward_stack: Vec<PageUrl>,
}

/// What pushing onto a bounded stack leaves behind: the new entry on top,
/// and the oldest entry dropped once the bound is passed.
pub open spec fn bounded_push(stack: Seq<PageUrl>, url: PageUrl) -> Seq<PageUrl> {
    if stack.len() + 1 > MAX_HISTORY {
        stack.push(url).drop_first()
    } else {
        stack.push(url)
    }
}

impl History {
    pub fn new() -> (r: Self)
        ensures
            r.back_stack@.len() == 0,
            r.forward_stack@.len() == 0,
    {
        History { back_stack: Vec::new(), forward_stack: Vec::new() }
    }

    /// Record a new page: clears the forward stack and pushes onto the back
    /// stack, dropping the oldest entry past the bound.
    pub fn push(&mut self, url: PageUrl)
        ensures
            final(self).forward_stack@.len() == 0,
            final(self).back_stack@ == bounded_push(old(self).back_stack@, url),
            old(self).back_stack@.len() <= MAX_HISTORY ==> final(self).back_stack@.len()
                <= MAX_HISTORY,
    {
        self.forward_stack.clear();
        self.push_back(url);
    }

    /// Push onto the back stack alone.
    pub fn push_back(&mut self, url: PageUrl)
        ensures
            final(self).forward_stack@ == old(self).forward_stack@,
            final(self).back_stack@ == bounded_push(old(self).back_stack@, url),
            old(self).back_stack@.len() <= MAX_HISTORY ==> final(self).back_stack@.len()
                <= MAX_HISTORY,
    {
        self.back_stack.push(url);
        if self.back_stack.len() > MAX_HISTORY {
            self.back_stack.remove(0);
            assert(final(self).back_stack@ =~= old(self).back_stack@.push(url).drop_first());
        }
    }

    /// Push onto the forward stack alone.
    pub fn push_forward(&mut self, url: PageUrl)
        ensures
            final(self).back_stack@ == old(self).back_stack@,
            final(self).forward_stack@ == bounded_push(old(self).forward_stack@, url),
            old(self).forward_stack@.len() <= MAX_HISTORY ==> final(self).forward_stack@.len()
                <= MAX_HISTORY,
    {
        self.forward_stack.push(url);
        if self.forward_stack.len() > MAX_HISTORY {
            self.forward_stack.remove(0);
            assert(final(self).forward_stack@ =~= old(self).forward_stack@.push(url).drop_first());
        }
    }

    pub fn pop_back(&mut self) -> (r: Option<PageUrl>)
        ensures
            final(self).forward_stack@ == old(self).forward_stack@,
            old(self).back_stack@.len() == 0 ==> r is None && final(self).back_stack@ == old(
                self,
            ).back_stack@,
            old(self).back_stack@.len() > 0 ==> (r matches Some(u) && u == old(
                self,
            ).back_stack@.last() && final(self).back_stack@ == old(self).back_stack@.drop_last()),
    {
        self.back_stack.pop()
    }

    pub fn pop_forward(&mut self) -> (r: Option<PageUrl>)
        ensures
            final(self).back_stack@ == old(self).back_stack@,
            old(self).forward_stack@.len() == 0 ==> r is None && final(self).forward_stack@ == old(
                self,
            ).forward_stack@,
            old(self).forward_stack@.len() > 0 ==> (r matches Some(u) && u == old(
                self,
            ).forward_stack@.last() && final(self).forward_stack@ == old(
                self,
            ).forward_stack@.drop_last()),
    {
        self.forward_stack.pop()
    }

    pub fn can_go_back(&self) -> (r: bool)
        ensures
            r <==> self.back_stack@.len() > 0,
    {
        self.back_stack.len() > 0
    }

    pub fn can_go_forward(&self) -> (r: bool)
        ensures
            r <==> self.forward_stack@.len() > 0,
    {
        self.forward_stack.len() > 0
    }

    pub fn back_count(&self) -> (r: usize)
        ensures
            r == self.back_stack@.len(),
    {
        self.back_stack.len()
    }

    pub fn forward_count(&self) -> (r: usize)
        ensures
            r == self.forward_stack@.len(),
    {
        self.forward_stack.len()
    }

    pub fn clear(&mut self)
        ensures
            final(self).back_stack@.len() == 0,
            final(self).forward_stack@.len() == 0,
    {
        self.back_stack.clear();
        self.forward_stack.clear();
    }
}

impl Default for History {
    fn default() -> (r: Self)
        ensures
            r.back_stack@.len() == 0,
            r.forward_stack@.len() == 0,
    {
        History::new()
    }
}

} // verus!
