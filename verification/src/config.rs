//! Tuning of a logger.

use vstd::prelude::*;

use crate::batch::{fits_in_batch, INLINE_MESSAGES};
use crate::message::LogMsg;

verus! {

/// A span of time.
#[derive(Debug, Clone, Copy)]
pub struct Interval {
    pub nanos: u128,
}

impl Interval {
    /// A span of `millis` milliseconds.
    pub fn from_millis(millis: u64) -> (r: Self)
        ensures
            r.nanos == millis * 1_000_000,
    {
        Interval { nanos: millis as u128 * 1_000_000 }
    }

    /// How much longer this span is than `other`, or none where it is shorter.
    pub open spec fn after(self, other: Interval) -> Interval {
        Interval {
            nanos: if self.nanos >= other.nanos {
                (self.nanos - other.nanos) as u128
            } else {
                0
            },
        }
    }

    /// How much longer this span is than `other`, or none where it is shorter.
    pub fn since(&self, other: &Interval) -> (r: Interval)
        ensures
            r == self.after(*other),
    {
        Interval { nanos: self.nanos.saturating_sub(other.nanos) }
    }

    /// Whether this span is at least as long as `other`.
    pub fn reaches(&self, other: &Interval) -> (r: bool)
        ensures
            r == (self.nanos >= other.nanos),
    {
        self.nanos >= other.nanos
    }
}

/// How a logger batches, buffers and flushes.
#[derive(Clone)]
pub struct LoggerConfig {
    /// Bytes that the output buffers before it is written through.
    pub buffer_size: usize,
    /// Messages that are gathered into one write at most.
    pub batch_size: usize,
    /// Bytes of the lines logged since the last flush, written or waiting, from which
    /// on the next one is due.
    pub flush_threshold: usize,
    /// Messages waiting from which on a flush is due.
    pub flush_batch_threshold: usize,
    /// Time since the last flush from which on the next one is due.
    pub flush_interval: Interval,
}

impl Default for LoggerConfig {
    /// Balanced defaults.
    fn default() -> (r: Self)
        ensures
            r == Self::balanced(),
    {
        LoggerConfig {
            buffer_size: 64 * 1024,
            batch_size: 512,
            flush_threshold: 32 * 1024,
            flush_batch_threshold: 128,
            flush_interval: Interval::from_millis(100),
        }
    }
}

impl LoggerConfig {
    /// The default tuning: 64 KiB buffered, batches of 512, a flush every 32 KiB,
    /// 128 messages or 100 ms.
    pub open spec fn balanced() -> Self {
        LoggerConfig {
            buffer_size: 65536,
            batch_size: 512,
            flush_threshold: 32768,
            flush_batch_threshold: 128,
            flush_interval: Interval { nanos: 100_000_000 },
        }
    }

    /// The tuning for throughput: 256 KiB buffered, batches of 1024, a flush
    /// every 128 KiB, 256 messages or 500 ms.
    pub open spec fn for_throughput() -> Self {
        LoggerConfig {
            buffer_size: 262144,
            batch_size: 1024,
            flush_threshold: 131072,
            flush_batch_threshold: 256,
            flush_interval: Interval { nanos: 500_000_000 },
        }
    }

    /// The tuning for latency: 16 KiB buffered, batches of 64, a flush every
    /// 8 KiB, 32 messages or 10 ms.
    pub open spec fn for_latency() -> Self {
        LoggerConfig {
            buffer_size: 16384,
            batch_size: 64,
            flush_threshold: 8192,
            flush_batch_threshold: 32,
            flush_interval: Interval { nanos: 10_000_000 },
        }
    }

    /// Larger buffers and batches, and fewer flushes.
    pub fn high_throughput() -> (r: Self)
        ensures
            r == Self::for_throughput(),
    {
        LoggerConfig {
            buffer_size: 256 * 1024,
            batch_size: 1024,
            flush_threshold: 128 * 1024,
            flush_batch_threshold: 256,
            flush_interval: Interval::from_millis(500),
        }
    }

    /// Smaller buffers and batches, and more frequent flushes.
    pub fn low_latency() -> (r: Self)
        ensures
            r == Self::for_latency(),
    {
        LoggerConfig {
            buffer_size: 16 * 1024,
            batch_size: 64,
            flush_threshold: 8 * 1024,
            flush_batch_threshold: 32,
            flush_interval: Interval::from_millis(10),
        }
    }

    /// Whether a batch of the configured size can be held in memory at all.
    pub open spec fn holdable(&self) -> bool {
        fits_in_batch(self.batch_size as nat)
    }

    /// Tells whether a batch of the configured size can be held in memory at
    /// all.
    pub fn is_holdable(&self) -> (r: bool)
        ensures
            r == self.holdable(),
    {
        let size: usize = core::mem::size_of::<LogMsg>();
        let len: usize = self.batch_size;
        proof {
            assert(len * size <= u128::MAX) by (nonlinear_arith)
                requires
                    0 <= len <= u64::MAX,
                    0 <= size <= u64::MAX,
            ;
        }
        len <= INLINE_MESSAGES || len as u128 * size as u128 <= isize::MAX as u128
    }

    /// Buffers less, batches less and flushes sooner, on every count.
    pub open spec fn prompter_than(self, other: Self) -> bool {
        &&& self.buffer_size < other.buffer_size
        &&& self.batch_size < other.batch_size
        &&& self.flush_threshold < other.flush_threshold
        &&& self.flush_batch_threshold < other.flush_batch_threshold
        &&& self.flush_interval.nanos < other.flush_interval.nanos
    }
}

/// The presets are what they are named for: `low_latency` is prompter than the
/// defaults, and these are prompter than `high_throughput`, on every count.
pub proof fn presets_are_graded()
    ensures
        LoggerConfig::for_latency().prompter_than(LoggerConfig::balanced()),
        LoggerConfig::balanced().prompter_than(LoggerConfig::for_throughput()),
{
}

/// The difference of two spans makes up for it: with the shorter one it is as long
/// as the longer one. There is none where the span is not longer.
pub proof fn differences_make_up(longer: Interval, shorter: Interval)
    ensures
        longer.nanos >= shorter.nanos ==> shorter.nanos + longer.after(shorter).nanos
            == longer.nanos,
        longer.nanos <= shorter.nanos ==> longer.after(shorter).nanos == 0,
{
}

/// Every batch that needs no allocation can be held, and of the others just those
/// whose messages take no more than `isize::MAX` bytes together.
pub proof fn batches_are_held_by_size(config: LoggerConfig)
    ensures
        config.batch_size <= 512 ==> config.holdable(),
        config.batch_size > 512 ==> config.holdable() == (config.batch_size
            * vstd::layout::size_of::<LogMsg>() <= isize::MAX),
{
}

} // verus!
