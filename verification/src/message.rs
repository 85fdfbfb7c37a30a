use vstd::prelude::*;
use std::rc::Rc;

verus! {

/// What a message holds: the routing header that the pattern put in front,
/// and the user's bytes.
pub struct MessageView {
    pub header: Seq<u8>,
    pub body: Seq<u8>,
}

impl MessageView {
    /// The bytes that travel after the length prefix.
    pub open spec fn payload(self) -> Seq<u8> {
        self.header + self.body
    }
}

/// A message: header bytes and body bytes. Its payload always fits in `usize`.
#[derive(Debug)]
pub struct Message {
    header: Vec<u8>,
    body: Vec<u8>,
}

impl View for Message {
    type V = MessageView;

    closed spec fn view(&self) -> MessageView {
        MessageView { header: self.header@, body: self.body@ }
    }
}

impl Message {
    #[verifier::type_invariant]
    spec fn fits(self) -> bool {
        self.header@.len() + self.body@.len() <= usize::MAX
    }

    /// The empty message.
    pub fn new() -> (m: Message)
        ensures
            m@.header == Seq::<u8>::empty(),
            m@.body == Seq::<u8>::empty(),
    {
        Message { header: Vec::new(), body: Vec::new() }
    }

    pub fn with_body(body: Vec<u8>) -> (m: Message)
        ensures
            m@.header == Seq::<u8>::empty(),
            m@.body == body@,
    {
        let _fits: usize = body.len();
        Message { header: Vec::new(), body }
    }

    pub fn with_header_and_body(header: Vec<u8>, body: Vec<u8>) -> (m: Message)
        requires
            header@.len() + body@.len() <= usize::MAX,
        ensures
            m@.header == header@,
            m@.body == body@,
    {
        Message { header, body }
    }

    /// Number of payload bytes.
    pub fn len(&self) -> (n: usize)
        ensures
            n == self@.payload().len(),
            n == self@.header.len() + self@.body.len(),
    {
        proof {
            use_type_invariant(self);
        }
        self.header.len() + self.body.len()
    }

    pub fn get_header(&self) -> (h: &[u8])
        ensures
            h@ == self@.header,
    {
        self.header.as_slice()
    }

    pub fn get_body(&self) -> (b: &[u8])
        ensures
            b@ == self@.body,
    {
        self.body.as_slice()
    }

    /// The user's bytes, the header dropped.
    pub fn to_buffer(self) -> (b: Vec<u8>)
        ensures
            b@ == self@.body,
    {
        self.body
    }

    /// Header and body, in this order.
    pub fn explode(self) -> (parts: (Vec<u8>, Vec<u8>))
        ensures
            parts.0@ == self@.header,
            parts.1@ == self@.body,
    {
        (self.header, self.body)
    }
}

/// `Rc::clone`: one more handle to the same message, which itself is not
/// copied.
#[verifier::external_body]
pub(crate) fn share(msg: &Rc<Message>) -> (r: Rc<Message>)
    ensures
        r == *msg,
{
    Rc::clone(msg)
}

} // verus!
