//! Counting the streams that are running.
use vstd::prelude::*;

verus! {

/// The number of streams that are running. The count wraps around.
#[derive(Debug, Clone, Copy)]
pub struct StreamCounter {
    count: usize,
}

impl View for StreamCounter {
    type V = usize;

    closed spec fn view(&self) -> usize {
        self.count
    }
}

/// The count after one stream more.
pub open spec fn one_more(count: usize) -> usize {
    if count == usize::MAX {
        0
    } else {
        (count + 1) as usize
    }
}

/// The count after one stream less.
pub open spec fn one_less(count: usize) -> usize {
    if count == 0 {
        usize::MAX
    } else {
        (count - 1) as usize
    }
}

impl StreamCounter {
    pub fn new() -> (counter: StreamCounter)
        ensures
            counter@ == 0,
    {
        StreamCounter { count: 0 }
    }

    pub fn count(&self) -> (count: usize)
        ensures
            count == self@,
    {
        self.count
    }

    /// Counts a stream that starts.
    pub fn start(&mut self)
        ensures
            final(self)@ == one_more(old(self)@),
    {
        self.count = self.count.wrapping_add(1);
    }

    /// Counts a stream that ends.
    pub fn finish(&mut self)
        ensures
            final(self)@ == one_less(old(self)@),
    {
        self.count = self.count.wrapping_sub(1);
    }
}

/// A stream's place in the count, given back once.
#[derive(Debug)]
pub struct ActiveStreamLease {
    released: bool,
}

impl View for ActiveStreamLease {
    type V = bool;

    /// Whether the place is still taken.
    closed spec fn view(&self) -> bool {
        !self.released
    }
}

impl ActiveStreamLease {
    /// Takes a place.
    pub fn new(counter: &mut StreamCounter) -> (lease: ActiveStreamLease)
        ensures
            lease@,
            final(counter)@ == one_more(old(counter)@),
    {
        counter.start();
        ActiveStreamLease { released: false }
    }

    /// Gives the place back; a second time changes nothing.
    pub fn release(&mut self, counter: &mut StreamCounter)
        ensures
            !final(self)@,
            final(counter)@ == if old(self)@ {
                one_less(old(counter)@)
            } else {
                old(counter)@
            },
    {
        if !self.released {
            self.released = true;
            counter.finish();
        }
    }
}

/// A stream that starts and ends leaves the count as it was.
pub proof fn start_and_end_cancel_out(count: usize)
    ensures
        one_less(one_more(count)) == count,
        one_more(one_less(count)) == count,
{
}

/// A stream that starts is counted as one more, and one that ends as one less.
pub proof fn each_stream_counts_once(count: usize)
    ensures
        count < usize::MAX ==> one_more(count) == count + 1,
        count > 0 ==> one_less(count) == count - 1,
{
}

} // verus!
