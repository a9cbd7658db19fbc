//! Decisions of the firmware tasks, as plain functions of their inputs.
//!
//! The surrounding task runtime binds interrupts, spawns tasks, and takes
//! the locks; each task's actual decision — what a received frame means,
//! how the display state advances, when the activity indicator lights —
//! stands here with a contract.

use crate::codec::{decode_frame, decode_frame_spec, DecodeError};
use crate::message::{perf_from_bits, perf_of_bits, FromHost, PerfData};
use crate::perf::{next_basis, planned_frames, update_state};
use crate::queue::FramesDeque;
use vstd::prelude::*;

verus! {

/// Handles one complete frame received on the link: decodes it and, for a
/// performance snapshot, stamps the time of the last good message and hands
/// the snapshot on for animation.
///
/// `ClearScreen` is accepted and otherwise inert; a decode failure changes
/// nothing and is reported to the caller to log.
pub fn handle_packet(frame: &Vec<u8>, now: u64, msg_time: &mut u64) -> (r: Result<
    Option<PerfData>,
    DecodeError,
>)
    ensures
        match decode_frame_spec(frame@) {
            Err(e) => r == Err::<Option<PerfData>, DecodeError>(e) && *final(msg_time) == *old(
                msg_time,
            ),
            Ok(m) => match m {
                FromHost::ClearScreen => r == Ok::<Option<PerfData>, DecodeError>(None)
                    && *final(msg_time) == *old(msg_time),
                FromHost::ShowPerf(b) => r == Ok::<Option<PerfData>, DecodeError>(
                    Some(perf_of_bits(b)),
                ) && *final(msg_time) == now,
            },
        },
{
    match decode_frame(frame) {
        Err(e) => Err(e),
        Ok(FromHost::ClearScreen) => Ok(None),
        Ok(FromHost::ShowPerf(b)) => {
            *msg_time = now;
            Ok(Some(perf_from_bits(&b)))
        }
    }
}

/// Advances the display state for a freshly decoded snapshot: the previous
/// state is replaced by the basis that `update_state` computes, and the
/// frame queue is refilled with the planned frames.
pub fn handle_perf(prev_perf: &mut Option<PerfData>, new_perf: PerfData, frames: &mut FramesDeque)
    requires
        old(frames).wf(),
    ensures
        final(frames).wf(),
        final(frames)@ == planned_frames(*old(prev_perf), new_perf),
        *final(prev_perf) == Some(next_basis(*old(prev_perf), new_perf)),
{
    let prev_value = prev_perf.take();
    *prev_perf = update_state(prev_value, new_perf, frames);
}

/// How long the activity indicator stays lit after data arrives, in
/// milliseconds: the delay between indicator ticks.
pub const STATUS_LED_MS: u64 = 50;

/// One tick of the activity indicator: the LED lights exactly when a pulse
/// was requested since the last tick, and the request is consumed.
pub fn pulse_step(pulse_led: &mut bool) -> (led_on: bool)
    ensures
        led_on == *old(pulse_led),
        *final(pulse_led) == false,
{
    if *pulse_led {
        *pulse_led = false;
        true
    } else {
        false
    }
}

} // verus!
