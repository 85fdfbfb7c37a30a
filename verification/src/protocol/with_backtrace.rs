use vstd::prelude::*;

verus! {

/// For a protocol that answers requests: it keeps the routing header of the
/// request that is being answered, to put it in front of the reply.
pub trait WithBacktrace {
    /// The routing header that is kept.
    spec fn kept(&self) -> Seq<u8>;

    fn get_backtrace(&self) -> (b: &Vec<u8>)
        ensures
            b@ == self.kept(),
    ;

    fn get_backtrace_mut(&mut self) -> (b: &mut Vec<u8>)
        ensures
            b@ == old(self).kept(),
            final(self).kept() == final(b)@,
    ;

    fn backtrace(&self) -> (b: &[u8])
        ensures
            b@ == self.kept(),
    {
        self.get_backtrace().as_slice()
    }

    fn set_backtrace(&mut self, backtrace: &[u8])
        ensures
            final(self).kept() == backtrace@,
    {
        let kept = self.get_backtrace_mut();
        kept.clear();
        kept.extend_from_slice(backtrace);
        assert(kept@ =~= backtrace@);
    }

    fn clear_backtrace(&mut self)
        ensures
            final(self).kept() == Seq::<u8>::empty(),
    {
        self.get_backtrace_mut().clear();
    }
}

/// A routing header, kept.
pub struct Backtrace {
    bytes: Vec<u8>,
}

impl Backtrace {
    pub fn new() -> (b: Backtrace)
        ensures
            b.kept() == Seq::<u8>::empty(),
    {
        Backtrace { bytes: Vec::new() }
    }
}

impl WithBacktrace for Backtrace {
    closed spec fn kept(&self) -> Seq<u8> {
        self.bytes@
    }

    fn get_backtrace(&self) -> (b: &Vec<u8>) {
        &self.bytes
    }

    fn get_backtrace_mut(&mut self) -> (b: &mut Vec<u8>) {
        &mut self.bytes
    }
}

} // verus!
