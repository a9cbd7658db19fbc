//! Decisions of the host-side daemon that samples and sends snapshots.
//!
//! The daemon's I/O — probing serial ports, reading system statistics,
//! writing to the link — stays outside; these functions decide which port
//! is the monitor hardware, what the measurements mean in load units,
//! which display mode the hour of day selects, and when the send loop must
//! stop.

use crate::message::LOAD_SCALE;
use vstd::prelude::*;

verus! {

/// USB vendor id of the monitor hardware (pid.codes).
pub const USB_VENDOR_ID: u16 = 0x1209;

/// USB product id of the monitor hardware (in-house private testing).
pub const USB_PRODUCT_ID: u16 = 0x0001;

/// Whether the send loop keeps running.
#[derive(Clone, Copy, Debug, PartialEq, Eq, Structural)]
pub enum RunMode {
    Run,
    Stop,
}

/// State shared between the send loop and the service control handler.
pub struct ServiceContext {
    pub run_mode: RunMode,
}

/// Asks the send loop to stop at its next iteration.
pub fn stop(context: &mut ServiceContext)
    ensures
        final(context).run_mode is Stop,
{
    context.run_mode = RunMode::Stop;
}

/// Whether a USB id pair belongs to the monitor hardware.
pub open spec fn is_monitor_id(id: (u16, u16)) -> bool {
    id.0 == USB_VENDOR_ID && id.1 == USB_PRODUCT_ID
}

/// Looks for the monitor hardware among the USB id pairs of the available
/// serial ports, returning the index of the first match.
pub fn detect_port(ports: &Vec<(u16, u16)>) -> (r: Option<usize>)
    ensures
        match r {
            Some(i) => i < ports@.len() && is_monitor_id(ports@[i as int]) && forall|j: int|
                0 <= j < i ==> !#[trigger] is_monitor_id(ports@[j]),
            None => forall|j: int| 0 <= j < ports@.len() ==> !#[trigger] is_monitor_id(ports@[j]),
        },
{
    let mut i: usize = 0;
    while i < ports.len()
        invariant
            i <= ports@.len(),
            forall|j: int| 0 <= j < i ==> !#[trigger] is_monitor_id(ports@[j]),
        decreases ports@.len() - i,
    {
        let (vid, pid) = ports[i];
        if vid == USB_VENDOR_ID && pid == USB_PRODUCT_ID {
            return Some(i);
        }
        i = i + 1;
    }
    None
}

/// The memory load, in load units, of a machine with `free` of `total`
/// bytes unused.
pub fn memory_load_units(free: u64, total: u64) -> (r: u32)
    requires
        total > 0,
        free <= total,
    ensures
        r == (total - free) as int * LOAD_SCALE as int / total as int,
{
    let used: u128 = (total - free) as u128;
    proof {
        vstd::arithmetic::div_mod::lemma_div_is_ordered(
            used as int * LOAD_SCALE as int,
            total as int * LOAD_SCALE as int,
            total as int,
        );
        assert(used as int * LOAD_SCALE as int <= total as int * LOAD_SCALE as int)
            by (nonlinear_arith)
            requires
                used <= total,
                LOAD_SCALE > 0,
        ;
        assert(total as int * LOAD_SCALE as int / total as int == LOAD_SCALE as int)
            by (nonlinear_arith)
            requires
                total > 0,
        ;
    }
    let scaled: u128 = used * (LOAD_SCALE as u128) / (total as u128);
    scaled as u32
}

/// Whether hour `hour` of the day counts as daytime for the display's
/// color scheme: between 6am and 6pm exclusive.
pub fn daytime_hour(hour: u8) -> (r: bool)
    ensures
        r == (6 < hour && hour < 18),
{
    6 < hour && hour < 18
}

/// Relies on time::OffsetDateTime::now_local and OffsetDateTime::hour: the
/// local hour of day is always below 24, and `None` comes exactly when the
/// local UTC offset cannot be determined.
#[verifier::external_body]
fn local_hour() -> (r: Option<u8>)
    ensures
        r matches Some(h) ==> h < 24,
{
    match time::OffsetDateTime::now_local() {
        Ok(now) => Some(now.hour()),
        Err(_) => None,
    }
}

/// Whether local time is between 6am and 6pm, selecting the daytime color
/// scheme; false when the local clock offset cannot be determined.  The
/// hour read from the clock decides as `daytime_hour` states.
pub fn daytime() -> bool {
    match local_hour() {
        Some(h) => daytime_hour(h),
        None => false,
    }
}

} // verus!
