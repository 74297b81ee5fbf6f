//! The clock, the calendar text of a timestamp, and who counts as the same
//! participant.

use crate::chat::{Client, Room};
use vstd::prelude::*;

verus! {

/// The last millisecond of the year 9999: the calendar text of RFC 2822 has
/// four digits for the year and ends there.
pub const LAST_RFC2822_MILLI: u64 = 253_402_300_799_999;

/// The text that chrono writes for the instant `millis` milliseconds after the
/// epoch, in UTC and in the form of RFC 2822.
pub uninterp spec fn rfc2822_text(millis: u64) -> Seq<char>;

/// Milliseconds since the epoch by the system clock.
///
/// Reads `std::time::SystemTime::now` and measures it from the epoch with
/// `SystemTime::duration_since`, in whole milliseconds. It returns on every
/// reading: a clock set before the epoch reads as 0. Nothing is claimed of
/// the value: two readings may differ in either direction.
#[verifier::external_body]
pub fn now_milli_seconds() -> u64 {
    match std::time::SystemTime::now().duration_since(std::time::UNIX_EPOCH) {
        Ok(since) => since.as_millis() as u64,
        Err(_) => 0,
    }
}

/// The instant `millis` milliseconds after the epoch as calendar text.
///
/// Calls `chrono::DateTime::<Utc>::to_rfc2822` on the instant. The text is a
/// function of `millis` alone, named `rfc2822_text`; chrono refuses years past
/// 9999, which the bound leaves out.
#[verifier::external_body]
pub fn human_milli_seconds(millis: u64) -> (text: String)
    requires
        millis <= LAST_RFC2822_MILLI,
    ensures
        text@ == rfc2822_text(millis),
{
    let system_time = std::time::UNIX_EPOCH + std::time::Duration::from_millis(millis);
    let datetime: chrono::DateTime<chrono::Utc> = system_time.into();
    datetime.to_rfc2822()
}

/// The calendar text of `millis`, or `None` past the year 9999.
pub fn human_time(millis: u64) -> (text: Option<String>)
    ensures
        millis <= LAST_RFC2822_MILLI ==> text is Some && text->0@ == rfc2822_text(millis),
        millis > LAST_RFC2822_MILLI ==> text is None,
{
    if millis <= LAST_RFC2822_MILLI {
        Some(human_milli_seconds(millis))
    } else {
        None
    }
}

/// Whether two clients are the same participant: their usernames are equal.
pub fn client_equal(c1: &Client, c2: &Client) -> (same: bool)
    requires
        c1.user is Some,
        c2.user is Some,
    ensures
        same == (c1@.name() == c2@.name()),
{
    match (&c1.user, &c2.user) {
        (Some(u1), Some(u2)) => u1.name == u2.name,
        _ => false,
    }
}

/// Whether `client` is on the member list of `room`.
pub fn client_in_room(client: &Client, room: &Room) -> (found: bool)
    requires
        client.user is Some,
        room@.wf(),
    ensures
        found == room@.has_member(client@.name()->0),
{
    let mut i: usize = 0;
    while i < room.clients.len()
        invariant
            i <= room.clients.len(),
            client.user is Some,
            room@.wf(),
            forall|j: int| 0 <= j < i ==> room@.clients[j].name() != client@.name(),
        decreases room.clients.len() - i,
    {
        assert(room@.clients[i as int] == room.clients[i as int]@);
        if client_equal(&room.clients[i], client) {
            return true;
        }
        i += 1;
    }
    false
}

/// Whether `client` is on the member list of a room that is about to change.
pub fn client_in_room_w(client: &Client, room: &Room) -> (found: bool)
    requires
        client.user is Some,
        room@.wf(),
    ensures
        found == room@.has_member(client@.name()->0),
{
    client_in_room(client, room)
}

} // verus!
