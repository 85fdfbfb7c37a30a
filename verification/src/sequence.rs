use vstd::prelude::*;

verus! {

/// A source of numbers, each greater than the one before.
pub struct Sequence {
    value: usize,
}

impl Sequence {
    /// How many numbers were handed out. They are the numbers below it.
    pub closed spec fn issued(&self) -> nat {
        self.value as nat
    }

    pub fn new() -> (seq: Sequence)
        ensures
            seq.issued() == 0,
    {
        Sequence { value: 0 }
    }

    /// The number that `next` would hand out.
    pub fn peek(&self) -> (id: usize)
        ensures
            id == self.issued(),
    {
        self.value
    }

    /// Whether no number is left to hand out.
    pub fn is_used_up(&self) -> (used_up: bool)
        ensures
            used_up == (self.issued() >= usize::MAX),
    {
        self.value == usize::MAX
    }

    /// That `after` is `before` once `next` was called, and `id` what it
    /// handed out: the smallest number that was not handed out yet, or
    /// nothing once the numbers that `usize` holds are used up.
    pub open spec fn handed_out(before: Sequence, id: Option<usize>, after: Sequence) -> bool {
        if before.issued() < usize::MAX {
            id == Some(before.issued() as usize) && after.issued() == before.issued() + 1
        } else {
            id is None && after.issued() == before.issued()
        }
    }

    /// The next number: the smallest that was not handed out yet. `None`
    /// once the numbers that `usize` holds are used up.
    pub fn next(&mut self) -> (id: Option<usize>)
        ensures
            Self::handed_out(*old(self), id, *final(self)),
    {
        if self.value < usize::MAX {
            let id = self.value;
            self.value = id + 1;
            Some(id)
        } else {
            None
        }
    }
}

/// That `later` is `earlier` after some calls of `next`, `calls` of them.
pub open spec fn called_on(earlier: Sequence, calls: nat, later: Sequence) -> bool
    decreases calls,
{
    if calls == 0 {
        later.issued() == earlier.issued()
    } else {
        exists|id: Option<usize>, between: Sequence|
            #[trigger] Sequence::handed_out(earlier, id, between) && called_on(
                between,
                (calls - 1) as nat,
                later,
            )
    }
}

/// Calls of `next` never take a number back.
pub proof fn calls_count_up(earlier: Sequence, calls: nat, later: Sequence)
    requires
        called_on(earlier, calls, later),
    ensures
        earlier.issued() <= later.issued(),
    decreases calls,
{
    if calls > 0 {
        let (id, between) = choose|id: Option<usize>, between: Sequence|
            #[trigger] Sequence::handed_out(earlier, id, between) && called_on(
                between,
                (calls - 1) as nat,
                later,
            );
        calls_count_up(between, (calls - 1) as nat, later);
    }
}

/// The numbers that a sequence hands out increase strictly: of two calls of
/// `next` that each hand out a number, the later one hands out the greater,
/// however many calls were made in between.
pub proof fn numbers_increase(
    first_call: (Sequence, usize, Sequence),
    between: nat,
    second_call: (Sequence, usize, Sequence),
)
    requires
        Sequence::handed_out(first_call.0, Some(first_call.1), first_call.2),
        called_on(first_call.2, between, second_call.0),
        Sequence::handed_out(second_call.0, Some(second_call.1), second_call.2),
    ensures
        first_call.1 < second_call.1,
{
    calls_count_up(first_call.2, between, second_call.0);
}

} // verus!
