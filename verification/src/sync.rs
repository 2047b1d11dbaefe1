//! Clock offset estimation between a client and a server from one
//! ping/pong exchange, and conversion of timestamps between the two clocks.
use vstd::prelude::*;

use crate::int_repr::{
    lemma_signed_of_unsigned, lemma_unsigned_of_signed,
    as_signed, as_unsigned, fits_i128, half_toward_zero, halve_toward_zero, to_signed,
    to_unsigned,
};

verus! {

/// The standard library's wall-clock instant, carried opaquely.
#[verifier::external_type_specification]
#[verifier::external_body]
pub struct ExSystemTime(std::time::SystemTime);

/// Reads the wall clock with `std::time::SystemTime::now()`. Nothing is claimed
/// of the instant: it is the current time.
#[verifier::external_body]
fn system_now() -> std::time::SystemTime {
    std::time::SystemTime::now()
}

/// Measures an instant against `std::time::UNIX_EPOCH` with
/// `SystemTime::duration_since`; `None` stands for the error that call reports
/// when the instant is earlier than the epoch. Nothing is claimed of the
/// duration.
#[verifier::external_body]
fn since_unix_epoch(instant: &std::time::SystemTime) -> Option<core::time::Duration> {
    match instant.duration_since(std::time::UNIX_EPOCH) {
        Ok(elapsed) => Some(elapsed),
        Err(_) => None,
    }
}

/// The whole microseconds of a duration, by `Duration::as_micros`. A duration
/// is opaque here, so nothing is claimed of the number.
#[verifier::external_body]
fn whole_micros(elapsed: &core::time::Duration) -> u128 {
    elapsed.as_micros()
}

/// Microseconds elapsed since the Unix epoch, or `None` where the wall clock
/// reads earlier than the epoch.
pub(crate) fn micros_since_epoch() -> Option<u128> {
    let instant = system_now();
    match since_unix_epoch(&instant) {
        Some(elapsed) => Some(whole_micros(&elapsed)),
        None => None,
    }
}

/// A clock reading in microseconds since the epoch, where a reading earlier
/// than the epoch (`None`) counts as 0.
pub fn micros_or_zero(reading: Option<u128>) -> (r: u128)
    ensures
        r == match reading {
            Some(t) => t,
            None => 0,
        },
{
    match reading {
        Some(t) => t,
        None => 0,
    }
}

/// The current wall-clock time in microseconds since the Unix epoch
/// (`micros_or_zero` of the clock reading). Nothing is claimed of the value:
/// it is the current time.
pub fn now_us() -> u128 {
    micros_or_zero(micros_since_epoch())
}

/// The offset `server_time - client_time` estimated from one exchange: the
/// server stamped `server_ts` half a round trip before the client received the
/// reply at `client_recv_ts`. Every value is taken as Rust's `as i128` takes it.
pub open spec fn estimated_offset(client_send_ts: u128, server_ts: u128, client_recv_ts: u128) -> int
    recommends
        client_send_ts <= client_recv_ts,
{
    let rtt = as_signed((client_recv_ts - client_send_ts) as u128);
    as_signed(server_ts) + half_toward_zero(rtt) - as_signed(client_recv_ts)
}

/// Whether the estimate of `estimated_offset` stays within `i128` at each step,
/// that is, where the arithmetic of `update` does not overflow.
pub open spec fn estimate_in_range(client_send_ts: u128, server_ts: u128, client_recv_ts: u128) -> bool {
    &&& client_send_ts <= client_recv_ts
    &&& fits_i128(
        as_signed(server_ts) + half_toward_zero(as_signed((client_recv_ts - client_send_ts) as u128)),
    )
    &&& fits_i128(estimated_offset(client_send_ts, server_ts, client_recv_ts))
}

/// Computes `estimated_offset` in machine integers.
pub(crate) fn compute_offset(client_send_ts: u128, server_ts: u128, client_recv_ts: u128) -> (r: i128)
    requires
        estimate_in_range(client_send_ts, server_ts, client_recv_ts),
    ensures
        r == estimated_offset(client_send_ts, server_ts, client_recv_ts),
{
    let rtt = to_signed(client_recv_ts - client_send_ts);
    let estimated_server_now = to_signed(server_ts) + halve_toward_zero(rtt);
    estimated_server_now - to_signed(client_recv_ts)
}

/// `time + offset` as Rust computes `(time as i128 + offset) as u128`.
pub open spec fn shifted(time: u128, offset: int) -> int {
    as_unsigned(as_signed(time) + offset)
}

/// Shifts a timestamp by a signed offset, reinterpreting as Rust's casts do.
pub(crate) fn shift_time(time: u128, offset: i128) -> (r: u128)
    requires
        fits_i128(as_signed(time) + offset),
    ensures
        r == shifted(time, offset as int),
{
    to_unsigned(to_signed(time) + offset)
}

/// Shifts a timestamp back by a signed offset: `(time as i128 - offset) as u128`.
pub(crate) fn unshift_time(time: u128, offset: i128) -> (r: u128)
    requires
        fits_i128(as_signed(time) - offset),
    ensures
        r == shifted(time, -(offset as int)),
{
    to_unsigned(to_signed(time) - offset)
}

/// Clock synchronisation from the latest ping/pong exchange.
pub struct ClockSync {
    /// The estimated `server_time - client_time`.
    pub offset: i128,
}

impl ClockSync {
    /// A clock with no offset.
    pub fn new() -> (r: Self)
        ensures
            r.offset == 0,
    {
        ClockSync { offset: 0 }
    }

    /// Takes the offset from one exchange: the ping left at `client_send_ts`,
    /// the server stamped `server_ts`, and the pong arrived at `client_recv_ts`.
    pub fn update(&mut self, client_send_ts: u128, server_ts: u128, client_recv_ts: u128)
        requires
            estimate_in_range(client_send_ts, server_ts, client_recv_ts),
        ensures
            final(self).offset == estimated_offset(client_send_ts, server_ts, client_recv_ts),
    {
        self.offset = compute_offset(client_send_ts, server_ts, client_recv_ts);
    }

    /// The server time at client time `client_time`.
    pub fn to_server_time(&self, client_time: u128) -> (r: u128)
        requires
            fits_i128(as_signed(client_time) + self.offset),
        ensures
            r == shifted(client_time, self.offset as int),
    {
        shift_time(client_time, self.offset)
    }

    /// The client time at server time `server_time`.
    pub fn to_client_time(&self, server_time: u128) -> (r: u128)
        requires
            fits_i128(as_signed(server_time) - self.offset),
        ensures
            r == shifted(server_time, -(self.offset as int)),
    {
        unshift_time(server_time, self.offset)
    }
}

/// Converting a client time to server time and back gives it unchanged
/// (where the first conversion stays within `i128`, as it must to be made).
pub proof fn lemma_server_time_round_trip(client_time: u128, offset: int)
    requires
        fits_i128(as_signed(client_time) + offset),
    ensures
        0 <= shifted(client_time, offset) <= u128::MAX,
        fits_i128(as_signed(shifted(client_time, offset) as u128) - offset),
        shifted(shifted(client_time, offset) as u128, -offset) == client_time,
{
    lemma_signed_of_unsigned(as_signed(client_time) + offset);
    lemma_unsigned_of_signed(client_time);
}

/// After an exchange, the client's receive time maps to the server's stamp
/// plus half the round trip: the server time estimated for that moment.
pub proof fn lemma_update_aligns_receive_time(client_send_ts: u128, server_ts: u128, client_recv_ts: u128)
    requires
        estimate_in_range(client_send_ts, server_ts, client_recv_ts),
    ensures
        fits_i128(as_signed(client_recv_ts) + estimated_offset(client_send_ts, server_ts, client_recv_ts)),
        shifted(client_recv_ts, estimated_offset(client_send_ts, server_ts, client_recv_ts))
            == as_unsigned(
            as_signed(server_ts) + half_toward_zero(as_signed((client_recv_ts - client_send_ts) as u128)),
        ),
{
}

} // verus!
