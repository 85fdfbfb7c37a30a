use vstd::prelude::*;

verus! {

/// The messaging patterns.
#[derive(Copy, Clone, Debug, PartialEq, Eq, Structural)]
pub enum SocketType {
    Pair,
    Pub,
    Sub,
    Req,
    Rep,
    Push,
    Pull,
    Surveyor,
    Respondent,
    Bus,
}

impl SocketType {
    /// The identifier that a socket of this pattern announces in its greeting.
    pub open spec fn spec_id(self) -> u16 {
        match self {
            SocketType::Pair => 0x10,
            SocketType::Pub => 0x20,
            SocketType::Sub => 0x21,
            SocketType::Req => 0x30,
            SocketType::Rep => 0x31,
            SocketType::Push => 0x50,
            SocketType::Pull => 0x51,
            SocketType::Surveyor => 0x62,
            SocketType::Respondent => 0x63,
            SocketType::Bus => 0x70,
        }
    }

    /// The pattern that a socket of this pattern talks to.
    pub open spec fn spec_peer(self) -> SocketType {
        match self {
            SocketType::Pair => SocketType::Pair,
            SocketType::Pub => SocketType::Sub,
            SocketType::Sub => SocketType::Pub,
            SocketType::Req => SocketType::Rep,
            SocketType::Rep => SocketType::Req,
            SocketType::Push => SocketType::Pull,
            SocketType::Pull => SocketType::Push,
            SocketType::Surveyor => SocketType::Respondent,
            SocketType::Respondent => SocketType::Surveyor,
            SocketType::Bus => SocketType::Bus,
        }
    }

    pub fn id(&self) -> (id: u16)
        ensures
            id == self.spec_id(),
    {
        match self {
            SocketType::Pair => 0x10,
            SocketType::Pub => 0x20,
            SocketType::Sub => 0x21,
            SocketType::Req => 0x30,
            SocketType::Rep => 0x31,
            SocketType::Push => 0x50,
            SocketType::Pull => 0x51,
            SocketType::Surveyor => 0x62,
            SocketType::Respondent => 0x63,
            SocketType::Bus => 0x70,
        }
    }

    pub fn peer(&self) -> (p: SocketType)
        ensures
            p == self.spec_peer(),
    {
        match self {
            SocketType::Pair => SocketType::Pair,
            SocketType::Pub => SocketType::Sub,
            SocketType::Sub => SocketType::Pub,
            SocketType::Req => SocketType::Rep,
            SocketType::Rep => SocketType::Req,
            SocketType::Push => SocketType::Pull,
            SocketType::Pull => SocketType::Push,
            SocketType::Surveyor => SocketType::Respondent,
            SocketType::Respondent => SocketType::Surveyor,
            SocketType::Bus => SocketType::Bus,
        }
    }
}

} // verus!
