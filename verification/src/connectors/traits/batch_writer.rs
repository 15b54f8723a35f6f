//! Batched writing: items wait in a buffer and leave it in batches, either as soon as a
//! batch is full or all at once when the flush timer fires. The timer, the channel that
//! feeds the buffer and the writing itself belong to the caller. Times are milliseconds.
use std::collections::VecDeque;
use vstd::prelude::*;
use crate::clock::now_millis;

verus! {

/// Settings of a batch writer.
#[derive(Debug, Clone, Copy, PartialEq, Eq, Structural)]
pub struct BatchWriterConfig {
    pub batch_size: usize,
    pub flush_interval_ms: u64,
    pub max_buffer_size: usize,
    pub write_timeout_ms: u64,
}

impl Default for BatchWriterConfig {
    fn default() -> (r: Self)
        ensures
            r == (BatchWriterConfig {
                batch_size: 100,
                flush_interval_ms: 500,
                max_buffer_size: 10000,
                write_timeout_ms: 5000,
            }),
    {
        BatchWriterConfig { batch_size: 100, flush_interval_ms: 500, max_buffer_size: 10000, write_timeout_ms: 5000 }
    }
}

/// An item waiting to be written, with the time it was queued.
#[derive(Debug, Clone)]
pub struct BatchItem<T> {
    pub data: T,
    pub timestamp: u64,
    pub retry_count: u32,
}

impl<T> BatchItem<T> {
    /// An item queued at `now`, not retried yet.
    pub fn new_at(data: T, now: u64) -> (r: Self)
        ensures
            r.data == data,
            r.timestamp == now,
            r.retry_count == 0,
    {
        BatchItem { data, timestamp: now, retry_count: 0 }
    }

    /// An item queued now, by the system clock.
    pub fn new(data: T) -> (r: Self)
        ensures
            r.data == data,
            r.retry_count == 0,
    {
        let now = now_millis();
        Self::new_at(data, now)
    }
}

/// Items waiting to be written, oldest first.
#[derive(Debug)]
pub struct BatchBuffer<T> {
    pub items: VecDeque<BatchItem<T>>,
}

impl<T> BatchBuffer<T> {
    /// An empty buffer.
    pub fn new() -> (r: Self)
        ensures
            r.items@.len() == 0,
    {
        BatchBuffer { items: VecDeque::new() }
    }

    /// Adds an item; when `batch_size` items or more wait, the oldest `batch_size` leave
    /// as a batch.
    pub fn push_item(&mut self, item: BatchItem<T>, batch_size: usize) -> (r: Option<Vec<BatchItem<T>>>)
        ensures
            ({
                let all = old(self).items@.push(item);
                if all.len() >= batch_size {
                    &&& r matches Some(b) && b@ == all.take(batch_size as int)
                    &&& final(self).items@ == all.skip(batch_size as int)
                } else {
                    &&& r is None
                    &&& final(self).items@ == all
                }
            }),
    {
        self.items.push_back(item);
        if self.items.len() >= batch_size {
            let ghost all = self.items@;
            let out = self.take_front(batch_size);
            assert(self.items@ =~= all.skip(batch_size as int));
            Some(out)
        } else {
            None
        }
    }

    /// Takes the oldest `count` items out, oldest first.
    fn take_front(&mut self, count: usize) -> (r: Vec<BatchItem<T>>)
        requires
            count <= old(self).items@.len(),
        ensures
            r@ == old(self).items@.take(count as int),
            final(self).items@ == old(self).items@.skip(count as int),
    {
        let ghost all = self.items@;
        let mut out: Vec<BatchItem<T>> = Vec::new();
        let mut i: usize = 0;
        while i < count
            invariant
                count <= all.len(),
                i <= count,
                out@ == all.take(i as int),
                self.items@ == all.skip(i as int),
            decreases count - i,
        {
            let x = self.items.pop_front().unwrap();
            out.push(x);
            proof {
                assert(out@ =~= all.take(i + 1));
                assert(self.items@ =~= all.skip(i + 1));
            }
            i = i + 1;
        }
        out
    }

    /// Takes every waiting item out, oldest first.
    pub fn drain_all(&mut self) -> (r: Vec<BatchItem<T>>)
        ensures
            r@ == old(self).items@,
            final(self).items@.len() == 0,
    {
        let n = self.items.len();
        let ghost all = self.items@;
        let out = self.take_front(n);
        assert(all.take(n as int) =~= all);
        out
    }

    /// How many items wait.
    pub fn len(&self) -> (n: usize)
        ensures
            n == self.items@.len(),
    {
        self.items.len()
    }
}

/// Writes batches as JSON lines appended to a file.
#[derive(Debug, Clone)]
pub struct FileBatchWriter {
    pub file_path: String,
    pub name: String,
}

impl FileBatchWriter {
    /// A writer to `file_path` called `name`.
    pub fn new(file_path: String, name: String) -> (r: Self)
        ensures
            r.file_path == file_path,
            r.name == name,
    {
        FileBatchWriter { file_path, name }
    }

    /// The writer's name.
    pub fn name(&self) -> (r: &str)
        ensures
            r@ == self.name@,
    {
        self.name.as_str()
    }
}

} // verus!
