//! Animation engine: turns sparse 1 Hz snapshots into smooth display frames.
//!
//! When a fresh target snapshot arrives, the engine discards any stale queued
//! frames and enqueues one interpolated frame per display tick for the coming
//! second.  CPU loads behave like a VU meter: they jump up to a higher target
//! at once, and fall toward a lower target by a fixed amount per frame.

use crate::message::PerfData;
use crate::queue::FramesDeque;
use vstd::prelude::*;

verus! {

/// Interpolated display frames generated per second.
pub const FRAMES_PER_SECOND: u32 = 15;

/// Delay between animation frames in milliseconds.
pub const FRAME_MS: u32 = 1000 / FRAMES_PER_SECOND;

/// How far a falling CPU load drops per frame, in load units: 70% of full
/// scale per second, spread over the frames of one second.
pub const FALL_UNITS_PER_FRAME: u32 = 467;

/// One easing step for a CPU load: jump straight up to a higher target,
/// fall toward a lower one by at most `FALL_UNITS_PER_FRAME`, never
/// undershooting it.
pub open spec fn eased_load(prev_load: u32, target_load: u32) -> u32 {
    if target_load > prev_load {
        target_load
    } else if prev_load - target_load > FALL_UNITS_PER_FRAME {
        (prev_load - FALL_UNITS_PER_FRAME) as u32
    } else {
        target_load
    }
}

/// The frame displayed one tick after `prev` on the way to `target`.  Only
/// the two CPU loads are eased; the remaining fields snap to the target.
pub open spec fn anim_step(prev: PerfData, target: PerfData) -> PerfData {
    PerfData {
        all_cores_load: eased_load(prev.all_cores_load, target.all_cores_load),
        all_cores_avg: target.all_cores_avg,
        peak_core_load: eased_load(prev.peak_core_load, target.peak_core_load),
        memory_load: target.memory_load,
        daytime: target.daytime,
    }
}

/// The `n` frames animating from `prev` toward `target`, in display order.
pub open spec fn anim_frames(prev: PerfData, target: PerfData, n: nat) -> Seq<PerfData>
    decreases n,
{
    if n == 0 {
        Seq::empty()
    } else {
        let f = anim_step(prev, target);
        seq![f] + anim_frames(f, target, (n - 1) as nat)
    }
}

/// What one state update leaves in the frame queue: a single unaltered frame
/// when there is no history, else a full second of eased frames.
pub open spec fn planned_frames(previous: Option<PerfData>, target: PerfData) -> Seq<PerfData> {
    match previous {
        None => seq![target],
        Some(prev) => anim_frames(prev, target, FRAMES_PER_SECOND as nat),
    }
}

/// The basis for the next update: the last frame this update computed.
pub open spec fn next_basis(previous: Option<PerfData>, target: PerfData) -> PerfData {
    planned_frames(previous, target).last()
}

/// One easing step for a CPU load (see `eased_load`).
pub fn update_cpu_load(prev_load: u32, target_load: u32) -> (r: u32)
    ensures
        r == eased_load(prev_load, target_load),
{
    if target_load > prev_load {
        target_load
    } else if prev_load - target_load > FALL_UNITS_PER_FRAME {
        prev_load - FALL_UNITS_PER_FRAME
    } else {
        target_load
    }
}

/// Calculates what to display from the previously stored state and the new
/// target state.
///
/// Any frames still queued from the previous cycle are discarded first, so
/// stale animation never compounds with a new target.  The returned value is
/// the last frame actually computed — the basis from which the next update
/// continues smoothly — and should be stored as the new display state.
pub fn update_state(
    previous: Option<PerfData>,
    target: PerfData,
    frames: &mut FramesDeque,
) -> (r: Option<PerfData>)
    requires
        old(frames).wf(),
    ensures
        final(frames).wf(),
        final(frames)@ == planned_frames(previous, target),
        r == Some(next_basis(previous, target)),
{
    if !frames.is_empty() {
        // Stale frames mean the consumer fell behind or the host's cadence
        // drifted; they must never compound with the new target.
        frames.clear();
    }

    match previous {
        None => {
            let pushed = frames.push_back(target);
            assert(pushed is Ok);
            Some(target)
        }
        Some(prev) => {
            let mut current = prev;
            let mut i: u32 = 0;
            while i < FRAMES_PER_SECOND
                invariant
                    i <= FRAMES_PER_SECOND,
                    frames.wf(),
                    frames@.len() == i,
                    frames@ == anim_frames(prev, target, i as nat),
                    i == 0 ==> current == prev,
                    i > 0 ==> current == frames@.last(),
                decreases FRAMES_PER_SECOND - i,
            {
                current = PerfData {
                    all_cores_load: update_cpu_load(current.all_cores_load, target.all_cores_load),
                    all_cores_avg: target.all_cores_avg,
                    peak_core_load: update_cpu_load(current.peak_core_load, target.peak_core_load),
                    memory_load: target.memory_load,
                    daytime: target.daytime,
                };
                proof {
                    lemma_anim_frames_snoc(prev, target, i as nat);
                }
                // The queue was cleared first and the whole second of frames
                // fits its capacity, so pushing cannot fail here.
                let pushed = frames.push_back(current);
                assert(pushed is Ok);
                i = i + 1;
            }
            Some(current)
        }
    }
}

/// With no history, one update plans exactly one frame equal to the target,
/// and the target itself becomes the next interpolation basis.
pub proof fn lemma_no_history_single_frame(target: PerfData)
    ensures
        planned_frames(None, target) == seq![target],
        next_basis(None, target) == target,
{
}

/// A rising peak-core load is never smoothed: the very first planned frame
/// already carries the target's peak-core load.
pub proof fn lemma_monotone_rise(prev: PerfData, target: PerfData)
    requires
        target.peak_core_load > prev.peak_core_load,
    ensures
        planned_frames(Some(prev), target)[0].peak_core_load == target.peak_core_load,
{
    assert(anim_frames(prev, target, FRAMES_PER_SECOND as nat)[0] == anim_step(prev, target));
}

/// One easing step toward a target at or below the current load stays
/// between the target and the current load, and falls by at most the fixed
/// per-frame amount.
proof fn lemma_eased_fall(prev_load: u32, target_load: u32)
    requires
        target_load <= prev_load,
    ensures
        target_load <= eased_load(prev_load, target_load) <= prev_load,
        prev_load - eased_load(prev_load, target_load) <= FALL_UNITS_PER_FRAME,
{
}

/// Holds when frame `i` of the animation `f` from `prev` toward `target`
/// keeps its peak-core load between the target and the frame before it, and
/// falls by at most the fixed per-frame amount.
pub open spec fn fall_step_ok(prev: PerfData, target: PerfData, f: Seq<PerfData>, i: int) -> bool {
    let before = if i == 0 {
        prev.peak_core_load
    } else {
        f[i - 1].peak_core_load
    };
    &&& target.peak_core_load <= f[i].peak_core_load <= before
    &&& before - f[i].peak_core_load <= FALL_UNITS_PER_FRAME
}

/// A falling peak-core load eases down: every planned frame keeps the
/// peak-core load at or above the target, never above the frame before it,
/// and each frame drops by at most the fixed per-frame amount.
pub proof fn lemma_bounded_fall(prev: PerfData, target: PerfData, n: nat)
    requires
        target.peak_core_load <= prev.peak_core_load,
    ensures
        forall|i: int|
            0 <= i < anim_frames(prev, target, n).len() ==> #[trigger] fall_step_ok(
                prev,
                target,
                anim_frames(prev, target, n),
                i,
            ),
    decreases n,
{
    if n > 0 {
        let s0 = anim_step(prev, target);
        lemma_eased_fall(prev.peak_core_load, target.peak_core_load);
        lemma_bounded_fall(s0, target, (n - 1) as nat);
        let f = anim_frames(prev, target, n);
        let a = anim_frames(s0, target, (n - 1) as nat);
        assert(f == seq![s0] + a);
        assert forall|i: int| 0 <= i < f.len() implies #[trigger] fall_step_ok(
            prev,
            target,
            f,
            i,
        ) by {
            if i > 0 {
                assert(fall_step_ok(s0, target, a, i - 1));
                assert(f[i] == a[i - 1]);
                if i > 1 {
                    assert(f[i - 1] == a[i - 2]);
                }
            }
        }
    }
}

/// One update plans a single frame when there is no history, and a full
/// second of frames otherwise; stale frames never add to that count.
pub proof fn lemma_planned_frames_len(previous: Option<PerfData>, target: PerfData)
    ensures
        planned_frames(previous, target).len() == match previous {
            None => 1nat,
            Some(_) => FRAMES_PER_SECOND as nat,
        },
{
    match previous {
        None => {},
        Some(prev) => {
            lemma_anim_frames_len(prev, target, FRAMES_PER_SECOND as nat);
        }
    }
}

/// The animation toward a target runs for exactly the requested number of
/// frames.
pub proof fn lemma_anim_frames_len(prev: PerfData, target: PerfData, n: nat)
    ensures
        anim_frames(prev, target, n).len() == n,
    decreases n,
{
    if n > 0 {
        lemma_anim_frames_len(anim_step(prev, target), target, (n - 1) as nat);
    }
}

/// Extending the animation by one frame appends one easing step taken from
/// the last frame so far (or from `prev` when none exists yet).
pub proof fn lemma_anim_frames_snoc(prev: PerfData, target: PerfData, n: nat)
    ensures
        anim_frames(prev, target, n + 1) == anim_frames(prev, target, n).push(
            anim_step(if n == 0 { prev } else { anim_frames(prev, target, n).last() }, target),
        ),
    decreases n,
{
    let s0 = anim_step(prev, target);
    if n == 0 {
        assert(anim_frames(s0, target, 0) == Seq::<PerfData>::empty());
        assert(anim_frames(prev, target, 1) == seq![s0] + anim_frames(s0, target, 0));
        assert(anim_frames(prev, target, 1) =~= anim_frames(prev, target, 0).push(s0));
    } else {
        lemma_anim_frames_snoc(s0, target, (n - 1) as nat);
        lemma_anim_frames_len(s0, target, (n - 1) as nat);
        let a = anim_frames(s0, target, (n - 1) as nat);
        let l = if n - 1 == 0 { s0 } else { a.last() };
        assert(anim_frames(s0, target, n) == a.push(anim_step(l, target)));
        assert(anim_frames(prev, target, n) == seq![s0] + a);
        assert(anim_frames(prev, target, n).last() == l);
        assert(anim_frames(prev, target, n + 1) == seq![s0] + a.push(anim_step(l, target)));
        assert(anim_frames(prev, target, n + 1) =~= anim_frames(prev, target, n).push(
            anim_step(l, target),
        ));
    }
}

} // verus!
