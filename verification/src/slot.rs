//! The process-wide seat: one slot that is filled on first use.
use crate::error::SeatError;
use std::sync::Arc;
use vstd::prelude::*;

verus! {

/// Whether asking for the seat comes to this: the one in the slot, else a
/// newly created one, which stays in the slot.
pub open spec fn gives_seat<S, C: FnOnce() -> Result<Arc<S>, SeatError>>(
    before: Option<Arc<S>>,
    create: C,
    seat: Result<Arc<S>, SeatError>,
    after: Option<Arc<S>>,
) -> bool {
    match before {
        Some(existing) => seat == Ok::<Arc<S>, SeatError>(existing) && after == before,
        None => {
            &&& call_ensures(create, (), seat)
            &&& after == match seat {
                Ok(created) => Some(created),
                Err(_) => None,
            }
        },
    }
}

/// Whether shutting down comes to this: the seat is taken out of the slot.
pub open spec fn takes_seat<S>(
    before: Option<Arc<S>>,
    seat: Option<Arc<S>>,
    after: Option<Arc<S>>,
) -> bool {
    seat == before && after is None
}

/// The process-wide seat, created on first use.
pub fn seat<S, C: FnOnce() -> Result<Arc<S>, SeatError>>(
    slot: &mut Option<Arc<S>>,
    create: C,
) -> (seat: Result<Arc<S>, SeatError>)
    requires
        call_requires(create, ()),
    ensures
        gives_seat(*old(slot), create, seat, *final(slot)),
{
    match &*slot {
        Some(existing) => {
            return Ok(existing.clone());
        },
        None => {},
    }
    match create() {
        Ok(created) => {
            *slot = Some(created.clone());
            Ok(created)
        },
        Err(error) => Err(error),
    }
}

/// Empty the slot and hand out the seat that was in it, to be torn down. A
/// later call of [`seat`] creates a fresh one.
pub fn shutdown<S>(slot: &mut Option<Arc<S>>) -> (seat: Option<Arc<S>>)
    ensures
        takes_seat(*old(slot), seat, *final(slot)),
{
    slot.take()
}

/// Whether there is a seat, or one can be created.
pub fn available<S, C: FnOnce() -> Result<Arc<S>, SeatError>>(
    slot: &mut Option<Arc<S>>,
    create: C,
) -> (available: bool)
    requires
        call_requires(create, ()),
    ensures
        match *old(slot) {
            Some(_) => available && *final(slot) == *old(slot),
            None => exists|created: Result<Arc<S>, SeatError>| #[trigger]
                call_ensures(create, (), created) && available == (created is Ok) && *final(slot)
                    == match created {
                    Ok(seat) => Some(seat),
                    Err(_) => None,
                },
        },
{
    let seat: Result<Arc<S>, SeatError> = seat(slot, create);
    seat.is_ok()
}

} // verus!
