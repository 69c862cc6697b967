//! A bounded buffer of log entries with O(1) access at both ends: new lines
//! are appended at the back, older history is prepended at the front.
use vstd::prelude::*;
use std::collections::VecDeque;
use crate::message::{LogEntry, Timestamp};
use crate::state::{trim_back, trim_front, window};

verus! {

/// Bounded buffer of log entries, oldest first.
#[derive(Debug)]
pub struct LogBuffer {
    entries: VecDeque<LogEntry>,
    capacity: usize,
}

/// The contents of a buffer and the most entries it keeps.
#[verifier::ext_equal]
pub struct LogBufferView {
    pub entries: Seq<LogEntry>,
    pub capacity: usize,
}

impl View for LogBuffer {
    type V = LogBufferView;

    closed spec fn view(&self) -> LogBufferView {
        LogBufferView { entries: self.entries@, capacity: self.capacity }
    }
}

/// Appending one entry to a trimmed sequence and trimming again keeps the
/// same entries as appending to the untrimmed one and trimming once.
pub proof fn lemma_trim_front_push(s: Seq<LogEntry>, e: LogEntry, cap: usize)
    ensures
        trim_front(trim_front(s, cap).push(e), cap) == trim_front(s.push(e), cap),
{
    let t = trim_front(s, cap);
    assert(trim_front(t.push(e), cap) =~= trim_front(s.push(e), cap));
}

impl LogBuffer {
    /// An empty buffer that keeps at most `capacity` entries.
    pub fn new(capacity: usize) -> (r: Self)
        ensures
            r@ == (LogBufferView { entries: Seq::empty(), capacity }),
    {
        LogBuffer { entries: VecDeque::with_capacity(capacity), capacity }
    }

    /// Append an entry (newest), dropping the oldest beyond capacity.
    pub fn push(&mut self, entry: LogEntry)
        ensures
            final(self)@ == (LogBufferView {
                entries: trim_front(old(self)@.entries.push(entry), old(self)@.capacity),
                capacity: old(self)@.capacity,
            }),
            final(self)@.entries.len() <= final(self)@.capacity,
    {
        let ghost full = self.entries@.push(entry);
        self.entries.push_back(entry);
        while self.entries.len() > self.capacity
            invariant
                self.capacity == old(self).capacity,
                full.len() >= self.entries@.len(),
                self.entries@.len() >= crate::state::min(full.len() as int, self.capacity as int),
                self.entries@ == full.skip(full.len() - self.entries@.len()),
            decreases self.entries@.len(),
        {
            let ghost before = self.entries@;
            let _ = self.entries.pop_front();
            assert(self.entries@ =~= full.skip(full.len() - self.entries@.len()));
        }
        assert(self.entries@ =~= trim_front(full, self.capacity)) by {
            if full.len() <= self.capacity {
                assert(full.skip(0) =~= full);
            }
        }
    }

    /// Append several entries in order.
    pub fn push_batch(&mut self, entries: Vec<LogEntry>)
        ensures
            final(self)@ == (LogBufferView {
                entries: if entries@.len() == 0 {
                    old(self)@.entries
                } else {
                    trim_front(old(self)@.entries + entries@, old(self)@.capacity)
                },
                capacity: old(self)@.capacity,
            }),
    {
        let ghost batch = entries@;
        let ghost start = self@.entries;
        for entry in it: entries
            invariant
                it.seq() == batch,
                self@.capacity == old(self)@.capacity,
                it.index() == 0 ==> self@.entries == start,
                it.index() > 0 ==> self@.entries == trim_front(
                    start + batch.take(it.index() as int),
                    self@.capacity,
                ),
        {
            let ghost k = it.index() as int;
            self.push(entry);
            proof {
                assert(batch.take(k + 1) =~= batch.take(k).push(entry));
                assert(start + batch.take(k + 1) =~= (start + batch.take(k)).push(entry));
                if k > 0 {
                    lemma_trim_front_push(start + batch.take(k), entry, self@.capacity);
                } else {
                    assert(start + batch.take(0) =~= start);
                }
            }
        }
        proof {
            assert(batch.take(batch.len() as int) =~= batch);
        }
    }

    /// Put older entries in front (given oldest first); the newest beyond
    /// capacity are dropped. Returns how many of the given entries were
    /// actually prepended, that is, are still in the buffer.
    pub fn prepend(&mut self, entries: Vec<LogEntry>) -> (r: usize)
        ensures
            r == crate::state::min(entries@.len() as int, old(self)@.capacity as int),
            final(self)@ == (LogBufferView {
                entries: trim_back(entries@ + old(self)@.entries, old(self)@.capacity),
                capacity: old(self)@.capacity,
            }),
    {
        let count: usize = entries.len();
        let ghost batch = entries@;
        let ghost old_entries = self.entries@;
        let mut rest = entries;
        while rest.len() > 0
            invariant
                self.entries@ == batch.skip(rest@.len() as int) + old_entries,
                rest@ == batch.take(rest@.len() as int),
                rest@.len() <= batch.len(),
                self.capacity == old(self).capacity,
            decreases rest@.len(),
        {
            match rest.pop() {
                Some(e) => {
                    self.entries.push_front(e);
                    assert(self.entries@ =~= batch.skip(rest@.len() as int) + old_entries);
                    assert(rest@ =~= batch.take(rest@.len() as int));
                },
                None => {},
            }
        }
        assert(batch.skip(0) =~= batch);
        let ghost full = self.entries@;
        while self.entries.len() > self.capacity
            invariant
                self.capacity == old(self).capacity,
                full.len() >= self.entries@.len(),
                self.entries@.len() >= crate::state::min(full.len() as int, self.capacity as int),
                self.entries@ == full.take(self.entries@.len() as int),
            decreases self.entries@.len(),
        {
            let _ = self.entries.pop_back();
            assert(self.entries@ =~= full.take(self.entries@.len() as int));
        }
        assert(self.entries@ =~= trim_back(full, self.capacity)) by {
            if full.len() <= self.capacity {
                assert(full.take(full.len() as int) =~= full);
            }
        }
        if count < self.capacity {
            count
        } else {
            self.capacity
        }
    }

    /// The entry at `index` (0 = oldest).
    pub fn get(&self, index: usize) -> (r: Option<&LogEntry>)
        ensures
            index < self@.entries.len() ==> r == Some(&self@.entries[index as int]),
            index >= self@.entries.len() ==> r is None,
    {
        if index < self.entries.len() {
            Some(&self.entries[index])
        } else {
            None
        }
    }

    /// At most `count` entries from position `start` on.
    pub fn get_range(&self, start: usize, count: usize) -> (r: Vec<&LogEntry>)
        ensures
            r@.unref() == window(self@.entries, start as int, count as int),
    {
        let n: usize = self.entries.len();
        let mut out: Vec<&LogEntry> = Vec::new();
        if start >= n {
            return out;
        }
        let end: usize = if count > n - start {
            n
        } else {
            start + count
        };
        let mut i: usize = start;
        while i < end
            invariant
                n == self.entries@.len(),
                start <= i <= end <= n,
                out@.len() == i - start,
                forall|j: int| 0 <= j < i - start ==> *out@[j] == self.entries@[start + j],
            decreases end - i,
        {
            out.push(&self.entries[i]);
            i += 1;
        }
        assert(out@.unref() =~= self.entries@.subrange(start as int, end as int));
        out
    }

    /// Remove every entry.
    pub fn clear(&mut self)
        ensures
            final(self)@ == (LogBufferView { entries: Seq::empty(), capacity: old(self)@.capacity }),
    {
        self.entries.clear();
    }

    pub fn len(&self) -> (r: usize)
        ensures
            r == self@.entries.len(),
    {
        self.entries.len()
    }

    pub fn is_empty(&self) -> (r: bool)
        ensures
            r == (self@.entries.len() == 0),
    {
        self.entries.len() == 0
    }

    pub fn capacity(&self) -> (r: usize)
        ensures
            r == self@.capacity,
    {
        self.capacity
    }

    /// The oldest entry.
    pub fn oldest(&self) -> (r: Option<&LogEntry>)
        ensures
            self@.entries.len() > 0 ==> r == Some(&self@.entries[0]),
            self@.entries.len() == 0 ==> r is None,
    {
        self.get(0)
    }

    /// The newest entry.
    pub fn newest(&self) -> (r: Option<&LogEntry>)
        ensures
            self@.entries.len() > 0 ==> r == Some(&self@.entries.last()),
            self@.entries.len() == 0 ==> r is None,
    {
        let n: usize = self.entries.len();
        if n == 0 {
            None
        } else {
            Some(&self.entries[n - 1])
        }
    }

    /// Timestamp of the oldest entry, for pagination.
    pub fn oldest_timestamp(&self) -> (r: Option<Timestamp>)
        ensures
            self@.entries.len() > 0 ==> r == self@.entries[0].timestamp,
            self@.entries.len() == 0 ==> r is None,
    {
        match self.oldest() {
            Some(e) => e.timestamp,
            None => None,
        }
    }

    /// All entries, oldest first.
    pub fn iter(&self) -> (r: Vec<&LogEntry>)
        ensures
            r@.unref() == self@.entries,
    {
        let n: usize = self.entries.len();
        let mut out: Vec<&LogEntry> = Vec::new();
        let mut i: usize = 0;
        while i < n
            invariant
                n == self.entries@.len(),
                i <= n,
                out@.len() == i,
                forall|j: int| 0 <= j < i ==> *out@[j] == self.entries@[j],
            decreases n - i,
        {
            out.push(&self.entries[i]);
            i += 1;
        }
        assert(out@.unref() =~= self.entries@);
        out
    }
}

impl Default for LogBuffer {
    fn default() -> (r: Self)
        ensures
            r@ == (LogBufferView { entries: Seq::empty(), capacity: 10000 }),
    {
        Self::new(10000)
    }
}

} // verus!
