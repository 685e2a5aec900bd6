//! Throughput of the TCP link to iMotions: packets sent in the last minute and
//! bytes sent in the last second.
//!
//! Times are milliseconds on a monotonic clock.
use vstd::prelude::*;
use std::collections::VecDeque;

verus! {

/// The window of the packet count, in milliseconds.
pub const PACKET_WINDOW_MS: u64 = 60_000;

/// The window of the byte count, in milliseconds.
pub const BYTE_WINDOW_MS: u64 = 1_000;

/// A send at time `t` lies outside a window of `window` milliseconds ending at
/// `now`. A time after `now` counts as no time ago.
pub open spec fn outside_window(now: u64, t: u64, window: u64) -> bool {
    now > t && now - t > window
}

/// How many times at the front of `times` lie outside the window.
pub open spec fn stale_prefix(times: Seq<u64>, now: u64, window: u64) -> nat
    decreases times.len(),
{
    if times.len() > 0 && outside_window(now, times[0], window) {
        1 + stale_prefix(times.drop_first(), now, window)
    } else {
        0
    }
}

/// The times of the samples.
pub open spec fn sample_times(samples: Seq<(u64, usize)>) -> Seq<u64> {
    samples.map_values(|s: (u64, usize)| s.0)
}

/// The bytes of all samples.
pub open spec fn total_bytes(samples: Seq<(u64, usize)>) -> int
    decreases samples.len(),
{
    if samples.len() == 0 {
        0
    } else {
        total_bytes(samples.drop_last()) + samples.last().1
    }
}

/// The times never decrease.
pub open spec fn nondecreasing(times: Seq<u64>) -> bool {
    forall|i: int, j: int| 0 <= i <= j < times.len() ==> times[i] <= times[j]
}

/// The packets and bytes that the relay has sent recently.
pub struct PacketMetrics {
    /// The times of the packets sent in the last minute, oldest first.
    pub sent_packet_times: VecDeque<u64>,
    /// The times and sizes of the packets sent in the last second, oldest first.
    pub sent_samples: VecDeque<(u64, usize)>,
    /// The number of packets sent in the last minute.
    pub packets_last_60s: usize,
    /// The number of bytes sent in the last second.
    pub bytes_last_1s: u128,
    /// Whether the metrics are worth showing.
    pub show_metrics: bool,
}

proof fn lemma_stale_prefix_bound(times: Seq<u64>, now: u64, window: u64)
    ensures
        stale_prefix(times, now, window) <= times.len(),
    decreases times.len(),
{
    if times.len() > 0 && outside_window(now, times[0], window) {
        lemma_stale_prefix_bound(times.drop_first(), now, window);
    }
}

/// After the stale times are dropped from a nondecreasing list, every time
/// left lies inside the window.
proof fn lemma_rest_inside_window(times: Seq<u64>, now: u64, window: u64)
    requires
        nondecreasing(times),
    ensures
        forall|i: int|
            0 <= i < times.skip(stale_prefix(times, now, window) as int).len()
                ==> !outside_window(
                now,
                #[trigger] times.skip(stale_prefix(times, now, window) as int)[i],
                window,
            ),
    decreases times.len(),
{
    lemma_stale_prefix_bound(times, now, window);
    if times.len() > 0 && outside_window(now, times[0], window) {
        let rest = times.drop_first();
        assert(nondecreasing(rest)) by {
            assert forall|i: int, j: int| 0 <= i <= j < rest.len() implies rest[i] <= rest[j] by {
                assert(rest[i] == times[i + 1] && rest[j] == times[j + 1]);
            }
        }
        lemma_rest_inside_window(rest, now, window);
        assert(times.skip(stale_prefix(times, now, window) as int) == rest.skip(
            stale_prefix(rest, now, window) as int,
        ));
    } else if times.len() > 0 {
        assert(times.skip(0) == times);
        assert forall|i: int| 0 <= i < times.len() implies !outside_window(
            now,
            #[trigger] times[i],
            window,
        ) by {
            assert(times[0] <= times[i]);
        }
    }
}

impl PacketMetrics {
    /// No packets sent yet.
    pub fn new() -> (m: PacketMetrics)
        ensures
            m.sent_packet_times@ == Seq::<u64>::empty(),
            m.sent_samples@ == Seq::<(u64, usize)>::empty(),
            m.packets_last_60s == 0,
            m.bytes_last_1s == 0,
            !m.show_metrics,
    {
        PacketMetrics {
            sent_packet_times: VecDeque::new(),
            sent_samples: VecDeque::new(),
            packets_last_60s: 0,
            bytes_last_1s: 0,
            show_metrics: false,
        }
    }

    /// Records a packet of `bytes` bytes sent at `now`, and refreshes the
    /// metrics.
    pub fn on_tcp_packet_sent(&mut self, bytes: usize, now: u64)
        ensures
            final(self).sent_packet_times@ == old(self).sent_packet_times@.push(now).skip(
                stale_prefix(old(self).sent_packet_times@.push(now), now, PACKET_WINDOW_MS) as int,
            ),
            final(self).sent_samples@ == old(self).sent_samples@.push((now, bytes)).skip(
                stale_prefix(
                    sample_times(old(self).sent_samples@.push((now, bytes))),
                    now,
                    BYTE_WINDOW_MS,
                ) as int,
            ),
            final(self).packets_last_60s == final(self).sent_packet_times@.len(),
            final(self).bytes_last_1s == total_bytes(final(self).sent_samples@),
            final(self).show_metrics == (final(self).packets_last_60s > 0
                || final(self).bytes_last_1s > 0),
    {
        self.sent_packet_times.push_back(now);
        self.sent_samples.push_back((now, bytes));
        self.refresh_metrics(now);
    }

    /// Refreshes the metrics at `now`.
    pub fn refresh_metrics_now(&mut self, now: u64)
        ensures
            final(self).sent_packet_times@ == old(self).sent_packet_times@.skip(
                stale_prefix(old(self).sent_packet_times@, now, PACKET_WINDOW_MS) as int,
            ),
            final(self).sent_samples@ == old(self).sent_samples@.skip(
                stale_prefix(sample_times(old(self).sent_samples@), now, BYTE_WINDOW_MS) as int,
            ),
            final(self).packets_last_60s == final(self).sent_packet_times@.len(),
            final(self).bytes_last_1s == total_bytes(final(self).sent_samples@),
            final(self).show_metrics == (final(self).packets_last_60s > 0
                || final(self).bytes_last_1s > 0),
    {
        self.refresh_metrics(now);
    }

    /// Drops the sends that left their windows at `now` and recounts: packets
    /// of the last minute, bytes of the last second. With nondecreasing times,
    /// every send that is kept lies inside its window.
    fn refresh_metrics(&mut self, now: u64)
        ensures
            final(self).sent_packet_times@ == old(self).sent_packet_times@.skip(
                stale_prefix(old(self).sent_packet_times@, now, PACKET_WINDOW_MS) as int,
            ),
            final(self).sent_samples@ == old(self).sent_samples@.skip(
                stale_prefix(sample_times(old(self).sent_samples@), now, BYTE_WINDOW_MS) as int,
            ),
            final(self).packets_last_60s == final(self).sent_packet_times@.len(),
            final(self).bytes_last_1s == total_bytes(final(self).sent_samples@),
            final(self).show_metrics == (final(self).packets_last_60s > 0
                || final(self).bytes_last_1s > 0),
    {
        let ghost times0 = self.sent_packet_times@;
        let ghost samples_start = self.sent_samples@;
        let ghost j: int = 0;
        assert(times0.skip(0) == times0);
        while self.sent_packet_times.len() > 0 && now > self.sent_packet_times[0] && now
            - self.sent_packet_times[0] > PACKET_WINDOW_MS
            invariant
                0 <= j <= times0.len(),
                self.sent_samples@ == samples_start,
                self.sent_packet_times@ == times0.skip(j),
                stale_prefix(times0, now, PACKET_WINDOW_MS) == j + stale_prefix(
                    times0.skip(j),
                    now,
                    PACKET_WINDOW_MS,
                ),
            decreases self.sent_packet_times@.len(),
        {
            assert(times0.skip(j).drop_first() == times0.skip(j + 1));
            self.sent_packet_times.pop_front();
            proof {
                j = j + 1;
            }
        }
        proof {
            let rest = times0.skip(j);
            if rest.len() > 0 {
                assert(rest[0] == self.sent_packet_times@[0]);
            }
            assert(stale_prefix(rest, now, PACKET_WINDOW_MS) == 0);
        }
        self.packets_last_60s = self.sent_packet_times.len();
        let ghost kept = self.sent_packet_times@;
        assert(kept == times0.skip(stale_prefix(times0, now, PACKET_WINDOW_MS) as int));
        let ghost samples0 = self.sent_samples@;
        let ghost k: int = 0;
        assert(samples0.skip(0) == samples0);
        assert(sample_times(samples0).skip(0) == sample_times(samples0));
        while self.sent_samples.len() > 0 && now > self.sent_samples[0].0 && now
            - self.sent_samples[0].0 > BYTE_WINDOW_MS
            invariant
                0 <= k <= samples0.len(),
                self.sent_packet_times@ == kept,
                self.packets_last_60s == kept.len(),
                self.sent_samples@ == samples0.skip(k),
                stale_prefix(sample_times(samples0), now, BYTE_WINDOW_MS) == k + stale_prefix(
                    sample_times(samples0).skip(k),
                    now,
                    BYTE_WINDOW_MS,
                ),
            decreases self.sent_samples@.len(),
        {
            let ghost ts = sample_times(samples0).skip(k);
            assert(ts[0] == self.sent_samples@[0].0);
            assert(ts.drop_first() == sample_times(samples0).skip(k + 1));
            self.sent_samples.pop_front();
            proof {
                k = k + 1;
            }
        }
        proof {
            let ts = sample_times(samples0).skip(k);
            if self.sent_samples@.len() > 0 {
                assert(ts[0] == self.sent_samples@[0].0);
            }
            assert(stale_prefix(ts, now, BYTE_WINDOW_MS) == 0);
        }
        let n = self.sent_samples.len();
        let mut sum: u128 = 0;
        let mut i: usize = 0;
        while i < n
            invariant
                n == self.sent_samples@.len(),
                i <= n,
                sum == total_bytes(self.sent_samples@.subrange(0, i as int)),
                sum <= i * (usize::MAX as int),
            decreases n - i,
        {
            let b = self.sent_samples[i].1;
            let ghost pre = self.sent_samples@.subrange(0, i + 1);
            assert(pre.drop_last() == self.sent_samples@.subrange(0, i as int));
            assert((i + 1) * (usize::MAX as int) == i * (usize::MAX as int) + usize::MAX)
                by (nonlinear_arith);
            assert((i + 1) * (usize::MAX as int) <= (usize::MAX as int) * (usize::MAX as int))
                by (nonlinear_arith)
                requires
                    i < usize::MAX,
            ;
            assert((usize::MAX as int) * (usize::MAX as int) < u128::MAX) by (nonlinear_arith)
                requires
                    usize::MAX <= u64::MAX,
            ;
            sum = sum + b as u128;
            i = i + 1;
        }
        assert(self.sent_samples@.subrange(0, n as int) == self.sent_samples@);
        self.bytes_last_1s = sum;
        self.show_metrics = self.packets_last_60s > 0 || self.bytes_last_1s > 0;
    }
}

/// Law: once the metrics are refreshed, every packet that the count of the
/// last minute still holds was sent less than a minute ago, and every byte of
/// the count of the last second was sent less than a second ago, provided
/// that the times were recorded in order.
pub proof fn law_refresh_keeps_only_recent_sends(times: Seq<u64>, samples: Seq<(u64, usize)>, now: u64)
    requires
        nondecreasing(times),
        nondecreasing(sample_times(samples)),
    ensures
        forall|i: int|
            0 <= i < times.skip(stale_prefix(times, now, PACKET_WINDOW_MS) as int).len()
                ==> !outside_window(
                now,
                #[trigger] times.skip(stale_prefix(times, now, PACKET_WINDOW_MS) as int)[i],
                PACKET_WINDOW_MS,
            ),
        forall|i: int|
            0 <= i < samples.skip(
                stale_prefix(sample_times(samples), now, BYTE_WINDOW_MS) as int,
            ).len() ==> !outside_window(
                now,
                (#[trigger] samples.skip(
                    stale_prefix(sample_times(samples), now, BYTE_WINDOW_MS) as int,
                )[i]).0,
                BYTE_WINDOW_MS,
            ),
{
    lemma_rest_inside_window(times, now, PACKET_WINDOW_MS);
    let ts = sample_times(samples);
    let k = stale_prefix(ts, now, BYTE_WINDOW_MS) as int;
    lemma_rest_inside_window(ts, now, BYTE_WINDOW_MS);
    lemma_stale_prefix_bound(ts, now, BYTE_WINDOW_MS);
    assert forall|i: int| 0 <= i < samples.skip(k).len() implies !outside_window(
        now,
        (#[trigger] samples.skip(k)[i]).0,
        BYTE_WINDOW_MS,
    ) by {
        assert(samples.skip(k)[i].0 == ts.skip(k)[i]);
    }
}

} // verus!
