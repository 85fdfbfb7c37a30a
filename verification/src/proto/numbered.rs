use vstd::prelude::*;
use std::rc::Rc;
use crate::message::{Message, MessageView};
use crate::wire::{be_u32, same_bytes, write_u32};

verus! {

/// The largest count that a number is made of.
pub const LAST_COUNT: u32 = 0x7FFF_FFFF;

/// The number of the request or survey that is sent when the count stands
/// at `counter`: the count with the top bit set.
pub open spec fn request_id(counter: u32) -> u32 {
    counter | 0x8000_0000
}

/// The count after `counter`: one more, and nought after the largest.
pub open spec fn next_counter(counter: u32) -> u32 {
    if counter >= LAST_COUNT {
        0
    } else {
        (counter + 1) as u32
    }
}

/// Whether `request` is what the user's message `msg` becomes with the
/// number `id` in front of its header; `None` stands for a message that
/// would be too long.
pub open spec fn framed(id: u32, msg: MessageView, request: Option<Rc<Message>>) -> bool {
    match request {
        Some(r) => r@ == (MessageView { header: be_u32(id) + msg.header, body: msg.body }),
        None => 4 + msg.payload().len() > usize::MAX,
    }
}

/// Whether a message with the bytes `payload` answers what was numbered
/// `id`: it begins with the number.
pub open spec fn replies_to(payload: Seq<u8>, id: u32) -> bool {
    payload.len() >= 4 && payload.take(4) == be_u32(id)
}

/// The number that the count gives; the count goes on.
pub fn take_number(counter: &mut u32) -> (id: u32)
    ensures
        id == request_id(*old(counter)),
        *final(counter) == next_counter(*old(counter)),
{
    let id = *counter | 0x8000_0000;
    *counter = if *counter >= LAST_COUNT {
        0
    } else {
        *counter + 1
    };
    id
}

/// The user's message with the number `id` in front of its header, or
/// nothing where the two are more than a message can hold.
pub fn frame(id: u32, msg: Message) -> (request: Option<Rc<Message>>)
    ensures
        framed(id, msg@, request),
{
    let n = msg.len();
    if n > usize::MAX - 4 {
        None
    } else {
        let (mut header, body) = msg.explode();
        let mut routing: Vec<u8> = Vec::new();
        write_u32(&mut routing, id);
        routing.append(&mut header);
        assert(routing@ =~= be_u32(id) + msg@.header);
        Some(Rc::new(Message::with_header_and_body(routing, body)))
    }
}

/// What follows the number in the bytes, if they begin with the number
/// `id`.
pub fn body_of_reply(id: u32, payload: Vec<u8>) -> (body: Option<Vec<u8>>)
    ensures
        if replies_to(payload@, id) {
            body matches Some(b) && b@ == payload@.skip(4)
        } else {
            body is None
        },
{
    if payload.len() < 4 {
        None
    } else {
        let mut number: Vec<u8> = Vec::new();
        write_u32(&mut number, id);
        let mut front = payload;
        let body = front.split_off(4);
        assert(number@ =~= be_u32(id));
        if same_bytes(front.as_slice(), number.as_slice()) {
            Some(body)
        } else {
            None
        }
    }
}

/// A number begins with a byte that has its top bit set, and two
/// numbers whose four bytes are the same are the same.
pub proof fn numbers_are_told_apart(counter: u32, other: u32)
    ensures
        be_u32(request_id(counter)).len() == 4,
        be_u32(request_id(counter))[0] >= 0x80,
        be_u32(other) == be_u32(request_id(counter)) ==> other == request_id(counter),
{
    let id = request_id(counter);
    assert((id >> 24) as u8 >= 0x80) by (bit_vector)
        requires
            id == counter | 0x8000_0000u32,
    ;
    if be_u32(other) == be_u32(id) {
        let a = be_u32(other);
        let b = be_u32(id);
        assert(a[0] == b[0] && a[1] == b[1] && a[2] == b[2] && a[3] == b[3]);
        assert(other == id) by (bit_vector)
            requires
                (other >> 24) as u8 == (id >> 24) as u8,
                (other >> 16) as u8 == (id >> 16) as u8,
                (other >> 8) as u8 == (id >> 8) as u8,
                other as u8 == id as u8,
        ;
    }
}

} // verus!
