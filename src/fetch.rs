use vstd::prelude::*;

verus! {

pub const STATUS_OK: u16 = 200;

pub const STATUS_NOT_FOUND: u16 = 404;

/// The body `{"message":"404 Project Not Found"}` that the catalog host
/// sends, with status 404, for an artifact it lists but does not serve.
pub open spec fn not_found_body() -> Seq<u8> {
    seq![
        123u8, 34, 109, 101, 115, 115, 97, 103, 101, 34, 58, 34, 52, 48, 52, 32, 80, 114, 111,
        106, 101, 99, 116, 32, 78, 111, 116, 32, 70, 111, 117, 110, 100, 34, 125,
    ]
}

/// A 404 whose body is exactly the not-found message: read as no content.
pub open spec fn is_not_found_reply(status: u16, body: Seq<u8>) -> bool {
    status == STATUS_NOT_FOUND && body == not_found_body()
}

/// Whether a response ends the fetch: a 200, or the not-found reply.
/// Every other response is a failure, and the fetch is tried again.
pub open spec fn is_accepted_reply(status: u16, body: Seq<u8>) -> bool {
    status == STATUS_OK || is_not_found_reply(status, body)
}

/// The bytes that an accepted response stores: none for the not-found
/// reply, else the body.
pub open spec fn stored_bytes(status: u16, body: Seq<u8>) -> Seq<u8> {
    if is_not_found_reply(status, body) {
        Seq::empty()
    } else {
        body
    }
}

/// Whether `body` is exactly the not-found message.
pub fn is_not_found_body(body: &[u8]) -> (r: bool)
    ensures
        r == (body@ == not_found_body()),
{
    let expected: [u8; 35] = [
        123u8, 34, 109, 101, 115, 115, 97, 103, 101, 34, 58, 34, 52, 48, 52, 32, 80, 114, 111,
        106, 101, 99, 116, 32, 78, 111, 116, 32, 70, 111, 117, 110, 100, 34, 125,
    ];
    assert(expected@ =~= not_found_body());
    if body.len() != 35 {
        return false;
    }
    let mut i: usize = 0;
    while i < 35
        invariant
            i <= 35,
            body@.len() == 35,
            expected@ == not_found_body(),
            forall|k: int| 0 <= k < i ==> body@[k] == expected@[k],
        decreases 35 - i,
    {
        if body[i] != expected[i] {
            return false;
        }
        i = i + 1;
    }
    assert(body@ =~= not_found_body());
    true
}

/// Judges a fetch response: `Some` with the bytes to store when it ends the
/// fetch, `None` when the fetch must be tried again.
pub fn classify_response(status: u16, body: Vec<u8>) -> (r: Option<Vec<u8>>)
    ensures
        r is Some <==> is_accepted_reply(status, body@),
        r matches Some(bytes) ==> bytes@ == stored_bytes(status, body@),
{
    if status == STATUS_NOT_FOUND && is_not_found_body(body.as_slice()) {
        return Some(Vec::new());
    }
    if status != STATUS_OK {
        return None;
    }
    Some(body)
}

/// The admission state of the network: how many fetches may hold a slot at
/// once, and how many hold one now.
pub struct SlotPoolView {
    pub capacity: nat,
    pub in_flight: nat,
}

/// A counting gate shared by every channel's fetches. A fetch takes a slot
/// before its request and gives it back once the body is read, before any
/// disk work. No more than `capacity` slots are ever held.
pub struct SlotPool {
    capacity: usize,
    in_flight: usize,
}

impl View for SlotPool {
    type V = SlotPoolView;

    closed spec fn view(&self) -> SlotPoolView {
        SlotPoolView { capacity: self.capacity as nat, in_flight: self.in_flight as nat }
    }
}

impl SlotPool {
    #[verifier::type_invariant]
    spec fn held_within_capacity(&self) -> bool {
        self.in_flight <= self.capacity
    }

    pub fn new(capacity: usize) -> (r: Self)
        ensures
            r@ == (SlotPoolView { capacity: capacity as nat, in_flight: 0 }),
    {
        SlotPool { capacity, in_flight: 0 }
    }

    pub fn capacity(&self) -> (r: usize)
        ensures
            r == self@.capacity,
    {
        self.capacity
    }

    /// How many slots are held; never more than the capacity.
    pub fn in_flight(&self) -> (r: usize)
        ensures
            r == self@.in_flight,
            r <= self@.capacity,
    {
        proof {
            use_type_invariant(self);
        }
        self.in_flight
    }

    /// Takes a slot if one is free.
    pub fn try_acquire(&mut self) -> (r: bool)
        ensures
            r == (old(self)@.in_flight < old(self)@.capacity),
            final(self)@.capacity == old(self)@.capacity,
            final(self)@.in_flight == old(self)@.in_flight + if r {
                1nat
            } else {
                0nat
            },
            final(self)@.in_flight <= final(self)@.capacity,
    {
        proof {
            use_type_invariant(&*self);
        }
        if self.in_flight < self.capacity {
            self.in_flight = self.in_flight + 1;
            true
        } else {
            false
        }
    }

    /// Gives back a held slot; reports `false`, changing nothing, when none
    /// is held.
    pub fn release(&mut self) -> (r: bool)
        ensures
            r == (old(self)@.in_flight > 0),
            final(self)@.capacity == old(self)@.capacity,
            final(self)@.in_flight + if r {
                1nat
            } else {
                0nat
            } == old(self)@.in_flight,
            final(self)@.in_flight <= final(self)@.capacity,
    {
        proof {
            use_type_invariant(&*self);
        }
        if self.in_flight > 0 {
            self.in_flight = self.in_flight - 1;
            true
        } else {
            false
        }
    }
}

} // verus!
