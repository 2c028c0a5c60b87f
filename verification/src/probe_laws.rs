//! What the wake probe's numbers mean.
use crate::wake_probe;
use crate::wake_probe::ProbeView;
use crate::wake_profile;
use crate::wake_profile::{BucketView, HistView, LineView, ProfileView};
use vstd::prelude::*;

verus! {

/// A time that went by is the difference of its ends; a clock that seems to have gone back counts
/// as no time at all.
pub proof fn law_time_between(now: u64, then: u64)
    ensures
        then <= now ==> wake_probe::since(now, then) + then == now,
        then > now ==> wake_probe::since(now, then) == 0,
{
}

/// A doorbell on another descriptor is not the device's: it changes nothing. On the watched one, it
/// either waits by itself or is counted behind the one that waits.
pub proof fn law_doorbells_of_others_do_not_count(p: ProbeView, fd: i32, now: u64)
    requires
        p.coalesced < u64::MAX,
    ensures
        fd != p.watched_fd ==> p.kicked(fd, now) == p,
        fd == p.watched_fd && p.kick_ns == 0 ==> p.kicked(fd, now) == (ProbeView {
            kick_ns: now,
            ..p
        }),
        fd == p.watched_fd && p.kick_ns != 0 ==> p.kicked(fd, now) == (ProbeView {
            coalesced: (p.coalesced + 1) as u64,
            ..p
        }),
{
}

/// An answered interrupt is one more in the count of its doorbell's gap, of the processors that
/// were parked if its own was and else of those that ran, with the time since it was raised. No
/// other count moves, and an answer on another descriptor is none.
pub proof fn law_answers_are_counted(p: ProbeView, fd: i32, b: usize, now: u64, i: int)
    requires
        p.wf(),
        p.irq_armed,
        p.irq_bucket == Some(b),
        p.irq_raise_ns <= now,
        0 <= i < 4,
        p.irq_running_stats[b as int].count < u64::MAX,
        p.irq_parked_stats[b as int].count < u64::MAX,
        p.irq_running_stats[b as int].sum_ns + (now - p.irq_raise_ns) <= u64::MAX,
        p.irq_parked_stats[b as int].sum_ns + (now - p.irq_raise_ns) <= u64::MAX,
    ensures
        ({
            let after = p.acked(fd, now);
            let dt = now - p.irq_raise_ns;
            let (was, is, rest, rest_is) = if p.irq_parked {
                (
                    p.irq_parked_stats,
                    after.irq_parked_stats,
                    p.irq_running_stats,
                    after.irq_running_stats,
                )
            } else {
                (
                    p.irq_running_stats,
                    after.irq_running_stats,
                    p.irq_parked_stats,
                    after.irq_parked_stats,
                )
            };
            if fd != p.watched_fd {
                after == p
            } else {
                &&& !after.irq_armed
                &&& rest_is == rest
                &&& is.len() == was.len()
                &&& i != b ==> is[i] == was[i]
                &&& is[b as int].count == was[b as int].count + 1
                &&& is[b as int].sum_ns == was[b as int].sum_ns + dt
                &&& is[b as int].max_ns >= dt
                &&& is[b as int].max_ns >= was[b as int].max_ns
                &&& is[b as int].max_ns == dt || is[b as int].max_ns == was[b as int].max_ns
                &&& after.irq_coalesced == p.irq_coalesced
            }
        }),
{
}

/// An interrupt that finds the line idle is timed from then; one that does not is counted behind
/// the one that waits, and changes nothing of it.
pub proof fn law_raises_are_timed_or_counted(p: ProbeView, bucket: usize, now: u64)
    requires
        p.irq_coalesced < u64::MAX,
    ensures
        p.irq_armed ==> p.armed(bucket, now) == (ProbeView {
            irq_coalesced: (p.irq_coalesced + 1) as u64,
            ..p
        }),
        !p.irq_armed ==> {
            let after = p.armed(bucket, now);
            &&& after.irq_armed
            &&& after.irq_bucket == Some(bucket)
            &&& after.irq_raise_ns == now
            &&& !after.irq_parked
            &&& after.irq_coalesced == p.irq_coalesced
            &&& after.irq_running_stats == p.irq_running_stats
            &&& after.irq_parked_stats == p.irq_parked_stats
        },
{
}

/// Commands are counted while they are timed, and the slowest of them is known by its type.
pub proof fn law_slowest_command_is_kept(p: ProbeView, start: u64, cmd_type: u32, now: u64)
    requires
        start <= now,
        p.cmd_count < u64::MAX,
    ensures
        ({
            let after = p.command_ended(start, cmd_type, now);
            if start == 0 {
                after == p
            } else {
                &&& after.cmd_count == p.cmd_count + 1
                &&& after.cmd_worst_ns >= now - start
                &&& after.cmd_worst_ns >= p.cmd_worst_ns
                &&& now - start > p.cmd_worst_ns ==> after.cmd_worst_ns == now - start
                    && after.cmd_worst_type == cmd_type
                &&& now - start <= p.cmd_worst_ns ==> after.cmd_worst_ns == p.cmd_worst_ns
                    && after.cmd_worst_type == p.cmd_worst_type
            }
        }),
{
}

/// The gaps that are told apart: up to a millisecond, four, sixteen, and longer.
pub proof fn law_gaps_are_told_apart(gap: u64, longer: u64)
    requires
        gap <= longer,
    ensures
        wake_profile::bucket_of(gap) <= wake_profile::bucket_of(longer) < 4,
        wake_profile::bucket_of(gap) == 0 <==> gap < 1_000_000,
        wake_profile::bucket_of(gap) <= 1 <==> gap < 4_000_000,
        wake_profile::bucket_of(gap) <= 2 <==> gap < 16_000_000,
{
}

proof fn lemma_below_update(bins: Seq<u32>, at: int, v: u32, k: int)
    requires
        0 <= at < bins.len(),
        0 <= k <= bins.len(),
    ensures
        wake_profile::below(bins.update(at, v), k) == if k <= at {
            wake_profile::below(bins, k) as int
        } else {
            wake_profile::below(bins, k) - bins[at] + v
        },
    decreases k,
{
    if k > 0 {
        lemma_below_update(bins, at, v, k - 1);
    }
}

/// A histogram has each time that was added once, and knows the longest.
pub proof fn law_every_time_is_counted(h: HistView, ns: u64)
    requires
        h.wf(),
        h.n < u64::MAX,
        h.bins[wake_profile::bin_of(ns) as int] < u32::MAX,
    ensures
        h.with(ns).n == h.n + 1,
        wake_profile::below(h.with(ns).bins, 256) == wake_profile::below(h.bins, 256) + 1,
        h.with(ns).max >= ns,
        h.with(ns).max >= h.max,
        h.with(ns).max == ns || h.with(ns).max == h.max,
        h.with(ns).bins.len() == 256,
{
    let at = wake_profile::bin_of(ns) as int;
    lemma_below_update(h.bins, at, (h.bins[at] + 1) as u32, 256);
}

/// A doorbell that was served is one wake in the bucket of the gap before it, with the time that
/// each hop of it took, and the control's beside where it ran. The other buckets stay as they are.
pub proof fn law_hops_are_timed(
    p: ProfileView,
    rang: u64,
    woke: u64,
    drained: u64,
    told: u64,
    calib: Option<u64>,
    i: int,
)
    requires
        p.buckets.len() == 4,
        rang <= woke <= drained <= told,
        p.last_kick_ns <= rang,
        0 <= i < 4,
        forall|k: int| 0 <= k < 4 ==> (#[trigger] p.buckets[k]).n < u64::MAX,
    ensures
        ({
            let after = p.doorbell(rang).served(rang, woke, drained, told, calib);
            let b = wake_profile::bucket_of((rang - p.last_kick_ns) as u64) as int;
            let was = p.buckets[b];
            let is = after.buckets[b];
            &&& after.pending_idx is None
            &&& after.last_kick_ns == rang
            &&& after.no_kick == p.no_kick
            &&& after.report_at_ns == p.report_at_ns
            &&& after.buckets.len() == 4
            &&& i != b ==> after.buckets[i] == p.buckets[i]
            &&& is.n == was.n + 1
            &&& is.kick_wake == was.kick_wake.with((woke - rang) as u64)
            &&& is.wake_drain == was.wake_drain.with((drained - woke) as u64)
            &&& is.drain_sig == was.drain_sig.with((told - drained) as u64)
            &&& calib is None ==> is.calib == was.calib
            &&& calib matches Some(ns) ==> is.calib == was.calib.with(ns)
            &&& after.served(rang, woke, drained, told, calib) == after
        }),
{
}

/// Whether the report has a line for this bucket.
pub open spec fn has_line(lines: Seq<LineView>, i: int) -> bool {
    exists|j: int| 0 <= j < lines.len() && #[trigger] lines[j].index == i
}

/// A report has a line for each gap in which a doorbell rang and for no other, in the order of the
/// gaps, each with its own wakes and its own interrupts.
pub proof fn law_report_has_what_happened(buckets: Seq<BucketView>, probe: ProbeView, k: int)
    requires
        0 <= k <= buckets.len(),
    ensures
        ({
            let lines = wake_profile::lines_of(buckets, probe, k);
            &&& forall|j: int|
                0 <= j < lines.len() ==> {
                    let i = (#[trigger] lines[j]).index as int;
                    &&& i < k
                    &&& buckets[i].n != 0
                    &&& lines[j].bucket == buckets[i]
                    &&& lines[j].running == probe.irq_running_stats[i]
                    &&& lines[j].parked == probe.irq_parked_stats[i]
                }
            &&& forall|a: int, b: int|
                0 <= a < b < lines.len() ==> (#[trigger] lines[a]).index < (
                #[trigger] lines[b]).index
            &&& forall|i: int|
                0 <= i < k && buckets[i].n != 0 ==> #[trigger] has_line(lines, i)
        }),
    decreases k,
{
    let lines = wake_profile::lines_of(buckets, probe, k);
    if k > 0 {
        law_report_has_what_happened(buckets, probe, k - 1);
        let before = wake_profile::lines_of(buckets, probe, k - 1);
        assert forall|i: int| 0 <= i < k && buckets[i].n != 0 implies #[trigger] has_line(
            lines,
            i,
        ) by {
            if i < k - 1 {
                assert(has_line(before, i));
                let j = choose|j: int| 0 <= j < before.len() && #[trigger] before[j].index == i;
                assert(lines[j].index == i);
            } else {
                assert(lines[before.len() as int].index == i);
            }
        }
    }
}

/// The interrupts of the gaps in a report are not reported again, and those of the other gaps are
/// kept for the next.
pub proof fn law_reported_interrupts_start_over(
    p: ProbeView,
    buckets: Seq<BucketView>,
    i: int,
)
    requires
        p.wf(),
        buckets.len() == 4,
        0 <= i < 4,
    ensures
        ({
            let running = wake_profile::started_over(p.irq_running_stats, buckets, 4);
            let parked = wake_profile::started_over(p.irq_parked_stats, buckets, 4);
            &&& running.len() == 4 && parked.len() == 4
            &&& buckets[i].n == 0 ==> running[i] == p.irq_running_stats[i] && parked[i]
                == p.irq_parked_stats[i]
            &&& buckets[i].n != 0 ==> running[i].count == 0 && running[i].sum_ns == 0
                && running[i].max_ns == 0 && parked[i].count == 0 && parked[i].sum_ns == 0
                && parked[i].max_ns == 0
        }),
{
}

/// The known commands by their names, the others by their numbers.
pub proof fn law_commands_have_names(t: u32)
    ensures
        wake_probe::name_of(0x0104) == "RESOURCE_FLUSH"@,
        wake_probe::name_of(0x0207) == "SUBMIT_3D"@,
        wake_probe::name_of(0x0105) == "TRANSFER_TO_HOST_2D"@,
        wake_probe::name_of(0x0205) == "TRANSFER_TO_HOST_3D"@,
        wake_probe::name_of(0x0206) == "TRANSFER_FROM_HOST_3D"@,
        t > 0x0209 ==> wake_probe::name_of(t).take(2) == "0x"@,
{
    reveal_strlit("0x");
    assert(t > 0x0209 ==> wake_probe::name_of(t).take(2) =~= "0x"@);
}

/// The control's work is the same each time: from one number, each step multiplies what is there
/// and adds its own number.
pub proof fn law_control_does_the_same_work(steps: nat)
    requires
        steps < u64::MAX,
    ensures
        wake_profile::worked(0) == 0x9e37_79b9_7f4a_7c15,
        wake_profile::worked(steps + 1) == (wake_profile::worked(steps) * 6364136223846793005 + steps)
            % 0x1_0000_0000_0000_0000,
{
    let w = wake_profile::worked(steps);
    let m = w.wrapping_mul(6364136223846793005);
    assert(m == (w * 6364136223846793005) % 0x1_0000_0000_0000_0000);
}

} // verus!
