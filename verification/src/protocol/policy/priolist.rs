use vstd::prelude::*;
use crate::transport::Token;

verus! {

/// A pipe in a priority list.
#[derive(Copy, Clone, Debug, PartialEq, Eq, Structural)]
pub struct Item {
    pub token: Token,
    /// The lower the number, the sooner the pipe is served.
    pub priority: u8,
    /// Whether the pipe has something to give, or can take something.
    pub active: bool,
    /// Whether the pipe is open.
    pub visible: bool,
}

impl Item {
    /// Whether the pipe can be chosen.
    pub open spec fn eligible(self) -> bool {
        self.active && self.visible
    }
}

/// Whether a pipe in `items` can be chosen.
pub open spec fn any_eligible(items: Seq<Item>) -> bool {
    exists|i: int| 0 <= i < items.len() && (#[trigger] items[i]).eligible()
}

/// Whether `p` is the priority of a pipe that can be chosen, and no pipe that
/// can be chosen is to be served sooner.
pub open spec fn is_best(items: Seq<Item>, p: u8) -> bool {
    &&& exists|i: int| 0 <= i < items.len() && (#[trigger] items[i]).eligible() && items[i].priority == p
    &&& forall|i: int| 0 <= i < items.len() && (#[trigger] items[i]).eligible() ==> p <= items[i].priority
}

/// The first place from `lo` up to `hi` of a pipe of priority `p` that can
/// be chosen.
pub open spec fn first_with(items: Seq<Item>, lo: int, hi: int, p: u8) -> Option<int>
    decreases hi - lo,
{
    if lo >= hi {
        None
    } else if items[lo].eligible() && items[lo].priority == p {
        Some(lo)
    } else {
        first_with(items, lo + 1, hi, p)
    }
}

/// The place of the pipe to serve after the pipe at `after`: of the pipes
/// that can be chosen and that no other is to be served sooner than, the
/// next behind `after`, or the first of all if none is behind it.
pub open spec fn next_after(items: Seq<Item>, after: int) -> Option<int> {
    if any_eligible(items) {
        let p = choose|p: u8| is_best(items, p);
        match first_with(items, after + 1, items.len() as int, p) {
            Some(i) => Some(i),
            None => first_with(items, 0, items.len() as int, p),
        }
    } else {
        None
    }
}

/// What a search with `first_with` finds.
pub proof fn first_with_finds(items: Seq<Item>, lo: int, hi: int, p: u8)
    requires
        0 <= lo,
        hi <= items.len(),
    ensures
        match first_with(items, lo, hi, p) {
            Some(i) => {
                &&& lo <= i < hi
                &&& items[i].eligible()
                &&& items[i].priority == p
                &&& forall|k: int| lo <= k < i ==> !((#[trigger] items[k]).eligible() && items[k].priority == p)
            },
            None => forall|k: int|
                lo <= k < hi ==> !((#[trigger] items[k]).eligible() && items[k].priority == p),
        },
    decreases hi - lo,
{
    if lo < hi && !(items[lo].eligible() && items[lo].priority == p) {
        first_with_finds(items, lo + 1, hi, p);
    }
}

/// There is one best priority at most.
pub proof fn best_is_unique(items: Seq<Item>, p: u8, q: u8)
    requires
        is_best(items, p),
        is_best(items, q),
    ensures
        p == q,
{
}

/// Whether the pipes are in order: none is behind one that is to be served
/// later.
pub open spec fn in_order(items: Seq<Item>) -> bool {
    forall|i: int, j: int|
        0 <= i < j < items.len() ==> (#[trigger] items[i]).priority <= (
        #[trigger] items[j]).priority
}

/// Whether the cursor stands where it should: on a pipe that can be chosen
/// and that no other is to be served sooner than, if there is one.
pub open spec fn cursor_is_right(items: Seq<Item>, cursor: Option<int>) -> bool {
    match cursor {
        Some(c) => {
            &&& 0 <= c < items.len()
            &&& items[c].eligible()
            &&& is_best(items, items[c].priority)
        },
        None => !any_eligible(items),
    }
}

/// The pipes of a socket in the order in which they are to be served: by
/// priority, and by arrival among those of one priority. A cursor stands on
/// the pipe to serve now.
pub struct PrioList {
    items: Vec<Item>,
    current: Option<usize>,
}

impl PrioList {
    /// The pipes, in order.
    pub closed spec fn items(&self) -> Seq<Item> {
        self.items@
    }

    /// The place of the pipe that the cursor stands on.
    pub closed spec fn cursor(&self) -> Option<int> {
        match self.current {
            Some(c) => Some(c as int),
            None => None,
        }
    }

    /// The order holds, and the cursor stands on a pipe that can be chosen
    /// and that no other is to be served sooner than, if there is one.
    pub open spec fn wf(&self) -> bool {
        in_order(self.items()) && cursor_is_right(self.items(), self.cursor())
    }

    pub fn new() -> (list: PrioList)
        ensures
            list.wf(),
            list.items().len() == 0,
            list.cursor() is None,
    {
        PrioList { items: Vec::new(), current: None }
    }

    pub fn len(&self) -> (n: usize)
        ensures
            n == self.items().len(),
    {
        self.items.len()
    }

    /// The pipe to serve now.
    pub fn get(&self) -> (token: Option<Token>)
        requires
            self.wf(),
        ensures
            token == (match self.cursor() {
                Some(c) => Some(self.items()[c].token),
                None => None,
            }),
    {
        match self.current {
            Some(c) => Some(self.items[c].token),
            None => None,
        }
    }

    /// The first place of a pipe known by `token`.
    pub open spec fn position(&self, token: Token) -> Option<int> {
        Self::first_of(self.items(), 0, token)
    }

    /// The first place from `lo` on of a pipe known by `token`.
    pub open spec fn first_of(items: Seq<Item>, lo: int, token: Token) -> Option<int>
        decreases items.len() - lo,
    {
        if lo >= items.len() {
            None
        } else if items[lo].token == token {
            Some(lo)
        } else {
            Self::first_of(items, lo + 1, token)
        }
    }

    fn find(&self, token: Token) -> (at: Option<usize>)
        ensures
            at.is_some() == self.position(token).is_some(),
            at matches Some(i) ==> self.position(token) == Some(i as int) && i < self.items().len()
                && self.items()[i as int].token == token,
    {
        let mut i: usize = 0;
        while i < self.items.len()
            invariant
                i <= self.items().len(),
                Self::first_of(self.items(), 0, token) == Self::first_of(
                    self.items(),
                    i as int,
                    token,
                ),
            decreases self.items.len() - i,
        {
            if self.items[i].token == token {
                return Some(i);
            }
            i = i + 1;
        }
        None
    }

    /// The best priority among the pipes that can be chosen.
    fn best(&self) -> (best: Option<u8>)
        ensures
            match best {
                Some(p) => is_best(self.items(), p),
                None => !any_eligible(self.items()),
            },
    {
        let mut best: Option<u8> = None;
        let mut i: usize = 0;
        while i < self.items.len()
            invariant
                i <= self.items().len(),
                match best {
                    Some(p) => is_best(self.items().subrange(0, i as int), p),
                    None => !any_eligible(self.items().subrange(0, i as int)),
                },
            decreases self.items.len() - i,
        {
            let item = self.items[i];
            let ghost upto = self.items().subrange(0, i as int);
            let ghost next = self.items().subrange(0, i + 1);
            proof {
                assert forall|k: int| 0 <= k < i implies next[k] == #[trigger] upto[k] by {}
                assert(next[i as int] == item);
            }
            if item.active && item.visible {
                match best {
                    Some(p) => {
                        if item.priority < p {
                            proof {
                                let w = choose|w: int|
                                    0 <= w < upto.len() && (#[trigger] upto[w]).eligible()
                                        && upto[w].priority == p;
                                assert forall|k: int|
                                    0 <= k < next.len() && (#[trigger] next[k]).eligible() implies item.priority
                                    <= next[k].priority by {
                                    if k < i {
                                        assert(upto[k].eligible());
                                    }
                                }
                                assert(next[i as int].eligible() && next[i as int].priority
                                    == item.priority);
                            }
                            best = Some(item.priority);
                        } else {
                            proof {
                                let w = choose|w: int|
                                    0 <= w < upto.len() && (#[trigger] upto[w]).eligible()
                                        && upto[w].priority == p;
                                assert(next[w].eligible() && next[w].priority == p);
                                assert forall|k: int|
                                    0 <= k < next.len() && (#[trigger] next[k]).eligible() implies p
                                    <= next[k].priority by {
                                    if k < i {
                                        assert(upto[k].eligible());
                                    }
                                }
                            }
                        }
                    },
                    None => {
                        proof {
                            assert forall|k: int|
                                0 <= k < next.len() && (#[trigger] next[k]).eligible() implies item.priority
                                <= next[k].priority by {
                                if k < i {
                                    assert(upto[k].eligible());
                                }
                            }
                            assert(next[i as int].eligible() && next[i as int].priority
                                == item.priority);
                        }
                        best = Some(item.priority);
                    },
                }
            } else {
                proof {
                    match best {
                        Some(p) => {
                            let w = choose|w: int|
                                0 <= w < upto.len() && (#[trigger] upto[w]).eligible()
                                    && upto[w].priority == p;
                            assert(next[w].eligible() && next[w].priority == p);
                            assert forall|k: int|
                                0 <= k < next.len() && (#[trigger] next[k]).eligible() implies p
                                <= next[k].priority by {
                                if k < i {
                                    assert(upto[k].eligible());
                                }
                            }
                        },
                        None => {
                            assert forall|k: int| 0 <= k < next.len() implies !(
                            #[trigger] next[k]).eligible() by {
                                if k < i {
                                    assert(!upto[k].eligible());
                                }
                            }
                        },
                    }
                }
            }
            i = i + 1;
        }
        proof {
            assert(self.items().subrange(0, i as int) =~= self.items());
        }
        best
    }

    /// The first place from `lo` up to `hi` of a pipe of priority `p` that
    /// can be chosen.
    fn scan(&self, lo: usize, hi: usize, p: u8) -> (at: Option<usize>)
        requires
            hi <= self.items().len(),
        ensures
            match at {
                Some(i) => first_with(self.items(), lo as int, hi as int, p) == Some(i as int),
                None => first_with(self.items(), lo as int, hi as int, p) is None,
            },
    {
        let mut i: usize = lo;
        while i < hi
            invariant
                lo <= i,
                hi <= self.items().len(),
                first_with(self.items(), lo as int, hi as int, p) == first_with(
                    self.items(),
                    i as int,
                    hi as int,
                    p,
                ),
            decreases hi - i,
        {
            let item = self.items[i];
            if item.active && item.visible && item.priority == p {
                return Some(i);
            }
            i = i + 1;
        }
        None
    }

    /// The place of the pipe to serve after the pipe at `after`, where
    /// `after` is `None` for the place before the first.
    fn select(&self, after: Option<usize>) -> (at: Option<usize>)
        ensures
            (match at {
                Some(i) => Some(i as int),
                None => None,
            }) == next_after(
                self.items(),
                match after {
                    Some(a) => a as int,
                    None => -1,
                },
            ),
            at matches Some(i) ==> i < self.items().len() && self.items()[i as int].eligible()
                && is_best(self.items(), self.items()[i as int].priority),
            at is None ==> !any_eligible(self.items()),
    {
        match self.best() {
            None => None,
            Some(p) => {
                let n = self.items.len();
                let from = match after {
                    Some(a) => if a < n {
                        a + 1
                    } else {
                        n
                    },
                    None => 0,
                };
                proof {
                    let chosen = choose|q: u8| is_best(self.items(), q);
                    best_is_unique(self.items(), p, chosen);
                    first_with_finds(self.items(), 0, n as int, p);
                    first_with_finds(self.items(), from as int, n as int, p);
                }
                let behind = if from < n {
                    self.scan(from, n, p)
                } else {
                    None
                };
                match behind {
                    Some(i) => Some(i),
                    None => self.scan(0, n, p),
                }
            },
        }
    }

    /// The cursor once the pipe at `i` may have become the one to serve: it
    /// goes there if it stood nowhere, or on a pipe that is to be served
    /// later.
    pub open spec fn taken_over(items: Seq<Item>, cursor: Option<int>, i: int) -> Option<int> {
        if items[i].eligible() && (match cursor {
            Some(c) => items[i].priority < items[c].priority,
            None => true,
        }) {
            Some(i)
        } else {
            cursor
        }
    }

    /// Where a new pipe of priority `p` goes: behind the pipes that are to
    /// be served sooner or as soon.
    pub open spec fn place_for(items: Seq<Item>, p: u8) -> int
        decreases items.len(),
    {
        if items.len() == 0 {
            0
        } else if items.last().priority <= p {
            items.len() as int
        } else {
            Self::place_for(items.drop_last(), p)
        }
    }

    /// Where `place_for` points, the order is kept.
    pub proof fn place_keeps_order(items: Seq<Item>, p: u8)
        requires
            forall|i: int, j: int|
                0 <= i < j < items.len() ==> (#[trigger] items[i]).priority <= (
                #[trigger] items[j]).priority,
        ensures
            0 <= Self::place_for(items, p) <= items.len(),
            forall|i: int|
                0 <= i < Self::place_for(items, p) ==> (#[trigger] items[i]).priority <= p,
            forall|i: int|
                Self::place_for(items, p) <= i < items.len() ==> (#[trigger] items[i]).priority
                    > p,
        decreases items.len(),
    {
        if items.len() > 0 {
            if items.last().priority <= p {
                assert forall|i: int| 0 <= i < items.len() implies (#[trigger] items[i]).priority
                    <= p by {
                    if i < items.len() - 1 {
                        assert(items[i].priority <= items[items.len() - 1].priority);
                    }
                }
            } else {
                let front = items.drop_last();
                assert forall|i: int, j: int| 0 <= i < j < front.len() implies (
                #[trigger] front[i]).priority <= (#[trigger] front[j]).priority by {
                    assert(items[i].priority <= items[j].priority);
                }
                Self::place_keeps_order(front, p);
                assert forall|i: int| 0 <= i < Self::place_for(items, p) implies (
                #[trigger] items[i]).priority <= p by {
                    assert(front[i].priority <= p);
                }
                assert forall|i: int| Self::place_for(items, p) <= i < items.len() implies (
                #[trigger] items[i]).priority > p by {
                    if i < front.len() {
                        assert(front[i].priority > p);
                    }
                }
            }
        }
    }

    /// That `after` is `before` with a pipe taken in.
    pub open spec fn inserted(before: PrioList, after: PrioList, token: Token, priority: u8) -> bool {
        let at = Self::place_for(before.items(), priority);
        &&& after.items() == before.items().insert(
            at,
            Item { token, priority, active: false, visible: false },
        )
        &&& after.cursor() == (match before.cursor() {
            Some(c) => if at <= c {
                Some(c + 1)
            } else {
                Some(c)
            },
            None => None,
        })
    }

    /// That `after` is `before` with the first pipe known by `token` let go.
    pub open spec fn removed(before: PrioList, after: PrioList, token: Token) -> bool {
        match before.position(token) {
            None => after == before,
            Some(i) => {
                &&& after.items() == before.items().remove(i)
                &&& after.cursor() == (match before.cursor() {
                    Some(c) => if c == i {
                        next_after(after.items(), i - 1)
                    } else if c > i {
                        Some(c - 1)
                    } else {
                        Some(c)
                    },
                    None => None,
                })
            },
        }
    }

    /// That `after` is `before` with the first pipe known by `token` made
    /// `item`, where the pipe can be chosen then if it could before.
    pub open spec fn raised(before: PrioList, after: PrioList, i: int, item: Item) -> bool {
        &&& after.items() == before.items().update(i, item)
        &&& after.cursor() == Self::taken_over(after.items(), before.cursor(), i)
    }

    /// That `after` is `before` with the first pipe known by `token` shown.
    pub open spec fn shown(before: PrioList, after: PrioList, token: Token) -> bool {
        match before.position(token) {
            None => after == before,
            Some(i) => Self::raised(before, after, i, Item { visible: true, ..before.items()[i] }),
        }
    }

    /// That `after` is `before` with the first pipe known by `token` active.
    pub open spec fn activated(before: PrioList, after: PrioList, token: Token) -> bool {
        match before.position(token) {
            None => after == before,
            Some(i) => Self::raised(before, after, i, Item { active: true, ..before.items()[i] }),
        }
    }

    /// That `after` is `before` with the first pipe known by `token` not
    /// active.
    pub open spec fn deactivated(before: PrioList, after: PrioList, token: Token) -> bool {
        match before.position(token) {
            None => after == before,
            Some(i) => {
                &&& after.items() == before.items().update(
                    i,
                    Item { active: false, ..before.items()[i] },
                )
                &&& after.cursor() == (if before.cursor() == Some(i) {
                    next_after(after.items(), i)
                } else {
                    before.cursor()
                })
            },
        }
    }

    /// That `after` is `before` with the cursor gone on.
    pub open spec fn advanced(before: PrioList, after: PrioList) -> bool {
        &&& after.items() == before.items()
        &&& after.cursor() == (match before.cursor() {
            Some(c) => next_after(before.items(), c),
            None => None,
        })
    }

    /// The place for a new pipe of priority `priority`.
    fn place(&self, priority: u8) -> (at: usize)
        ensures
            at == Self::place_for(self.items(), priority),
            at <= self.items().len(),
    {
        let ghost items = self.items();
        let mut at: usize = self.items.len();
        proof {
            assert(items.subrange(0, at as int) =~= items);
        }
        while at > 0 && self.items[at - 1].priority > priority
            invariant
                at <= items.len(),
                items == self.items(),
                Self::place_for(items, priority) == Self::place_for(
                    items.subrange(0, at as int),
                    priority,
                ),
            decreases at,
        {
            proof {
                let upto = items.subrange(0, at as int);
                assert(upto.last() == items[at - 1]);
                assert(upto.drop_last() =~= items.subrange(0, at - 1));
            }
            at = at - 1;
        }
        proof {
            let upto = items.subrange(0, at as int);
            if at > 0 {
                assert(upto.last() == items[at - 1]);
            }
        }
        at
    }

    /// Takes a pipe in: behind the pipes that are to be served sooner or as
    /// soon. It cannot be chosen before it is shown and active. The cursor
    /// stays on its pipe.
    pub fn insert(&mut self, token: Token, priority: u8)
        requires
            old(self).wf(),
        ensures
            final(self).wf(),
            Self::inserted(*old(self), *final(self), token, priority),
    {
        let at = self.place(priority);
        let item = Item { token, priority, active: false, visible: false };
        let n = self.items.len();
        self.items.insert(at, item);
        match self.current {
            Some(c) => {
                if at <= c {
                    assert(c < n);
                    self.current = Some(c + 1);
                }
            },
            None => {},
        }
        proof {
            Self::order_after_insert(old(self).items(), at as int, item);
            Self::same_choice_after_insert(old(self).items(), at as int, item);
        }
    }

    /// A pipe that is put in its place keeps the order.
    proof fn order_after_insert(before: Seq<Item>, at: int, item: Item)
        requires
            in_order(before),
            at == Self::place_for(before, item.priority),
        ensures
            in_order(before.insert(at, item)),
    {
        Self::place_keeps_order(before, item.priority);
        let after = before.insert(at, item);
        assert forall|i: int, j: int| 0 <= i < j < after.len() implies (#[trigger] after[i]).priority
            <= (#[trigger] after[j]).priority by {
            let i0 = if i < at { i } else { i - 1 };
            let j0 = if j < at { j } else { j - 1 };
            if i != at && j != at {
                assert(after[i] == before[i0]);
                assert(after[j] == before[j0]);
                assert(before[i0].priority <= before[j0].priority);
            } else if i == at {
                assert(after[j] == before[j0]);
                assert(before[j0].priority > item.priority);
            } else {
                assert(after[i] == before[i0]);
                assert(before[i0].priority <= item.priority);
            }
        }
    }

    /// A pipe that cannot be chosen changes nothing to which pipes can, but
    /// their places.
    proof fn same_choice_after_insert(before: Seq<Item>, at: int, item: Item)
        requires
            0 <= at <= before.len(),
            !item.eligible(),
        ensures
            any_eligible(before.insert(at, item)) == any_eligible(before),
            forall|p: u8| is_best(before.insert(at, item), p) == is_best(before, p),
            forall|cursor: Option<int>|
                #![trigger cursor_is_right(before, cursor)]
                cursor_is_right(before, cursor) ==> cursor_is_right(
                    before.insert(at, item),
                    match cursor {
                        Some(c) => if at <= c {
                            Some(c + 1)
                        } else {
                            Some(c)
                        },
                        None => None,
                    },
                ),
    {
        let after = before.insert(at, item);
        assert forall|k: int| 0 <= k < before.len() implies #[trigger] before[k] == after[if k
            < at {
            k
        } else {
            k + 1
        }] by {}
        assert forall|k: int| 0 <= k < after.len() && k != at implies #[trigger] after[k]
            == before[if k < at {
            k
        } else {
            k - 1
        }] by {}
        if any_eligible(before) {
            let w = choose|w: int| 0 <= w < before.len() && (#[trigger] before[w]).eligible();
            let w1 = if w < at { w } else { w + 1 };
            assert(after[w1].eligible());
        }
        if any_eligible(after) {
            let w = choose|w: int| 0 <= w < after.len() && (#[trigger] after[w]).eligible();
            let w0 = if w < at { w } else { w - 1 };
            assert(before[w0].eligible());
        }
        assert forall|p: u8| is_best(after, p) == is_best(before, p) by {
            if is_best(before, p) {
                let w = choose|w: int|
                    0 <= w < before.len() && (#[trigger] before[w]).eligible() && before[w].priority
                        == p;
                let w1 = if w < at { w } else { w + 1 };
                assert(after[w1].eligible() && after[w1].priority == p);
                assert forall|k: int| 0 <= k < after.len() && (#[trigger] after[k]).eligible() implies p
                    <= after[k].priority by {
                    let k0 = if k < at { k } else { k - 1 };
                    assert(before[k0].eligible());
                }
            }
            if is_best(after, p) {
                let w = choose|w: int|
                    0 <= w < after.len() && (#[trigger] after[w]).eligible() && after[w].priority
                        == p;
                let w0 = if w < at { w } else { w - 1 };
                assert(before[w0].eligible() && before[w0].priority == p);
                assert forall|k: int|
                    0 <= k < before.len() && (#[trigger] before[k]).eligible() implies p
                    <= before[k].priority by {
                    let k1 = if k < at { k } else { k + 1 };
                    assert(after[k1].eligible());
                }
            }
        }
    }

    /// Lets the first pipe known by `token` go. If the cursor stood on it,
    /// it goes on to the pipe to serve next.
    pub fn remove(&mut self, token: &Token)
        requires
            old(self).wf(),
        ensures
            final(self).wf(),
            Self::removed(*old(self), *final(self), *token),
    {
        match self.find(*token) {
            None => {},
            Some(i) => {
                let ghost before = self.items();
                self.items.remove(i);
                let ghost after = self.items();
                proof {
                    assert forall|a: int, b: int| 0 <= a < b < after.len() implies (
                    #[trigger] after[a]).priority <= (#[trigger] after[b]).priority by {
                        let a0 = if a < i { a } else { a + 1 };
                        let b0 = if b < i { b } else { b + 1 };
                        assert(after[a] == before[a0]);
                        assert(after[b] == before[b0]);
                        assert(before[a0].priority <= before[b0].priority);
                    }
                }
                match self.current {
                    Some(c) => {
                        if c == i {
                            let after_place = if i == 0 {
                                None
                            } else {
                                Some(i - 1)
                            };
                            self.current = self.select(after_place);
                        } else {
                            if c > i {
                                self.current = Some(c - 1);
                            }
                            proof {
                                let c1 = if c > i { c - 1 } else { c as int };
                                assert(after[c1] == before[c as int]);
                                let p = before[c as int].priority;
                                assert forall|k: int|
                                    0 <= k < after.len() && (#[trigger] after[k]).eligible() implies p
                                    <= after[k].priority by {
                                    let k0 = if k < i { k } else { k + 1 };
                                    assert(after[k] == before[k0]);
                                    assert(before[k0].eligible());
                                }
                                assert(after[c1].eligible() && after[c1].priority == p);
                            }
                        }
                    },
                    None => {
                        proof {
                            assert forall|k: int| 0 <= k < after.len() implies !(
                            #[trigger] after[k]).eligible() by {
                                let k0 = if k < i { k } else { k + 1 };
                                assert(after[k] == before[k0]);
                                assert(!before[k0].eligible());
                            }
                        }
                    },
                }
            },
        }
    }

    /// Puts `item` at `i`, and lets the cursor go there if the pipe has
    /// become the one to serve.
    fn raise(&mut self, i: usize, item: Item)
        requires
            old(self).wf(),
            i < old(self).items().len(),
            item.token == old(self).items()[i as int].token,
            item.priority == old(self).items()[i as int].priority,
            old(self).items()[i as int].active ==> item.active,
            old(self).items()[i as int].visible ==> item.visible,
        ensures
            final(self).wf(),
            Self::raised(*old(self), *final(self), i as int, item),
    {
        let ghost before = self.items();
        self.items.set(i, item);
        let ghost after = self.items();
        let takes = item.active && item.visible && match self.current {
            Some(c) => item.priority < self.items[c].priority,
            None => true,
        };
        if takes {
            self.current = Some(i);
        }
        proof {
            assert forall|a: int, b: int| 0 <= a < b < after.len() implies (
            #[trigger] after[a]).priority <= (#[trigger] after[b]).priority by {
                assert(before[a].priority <= before[b].priority);
            }
            if takes {
                assert(after[i as int].eligible() && after[i as int].priority == item.priority);
                assert forall|k: int|
                    0 <= k < after.len() && (#[trigger] after[k]).eligible() implies item.priority
                    <= after[k].priority by {
                    if k != i {
                        assert(before[k].eligible());
                    }
                }
            } else {
                match old(self).cursor() {
                    Some(c) => {
                        let p = before[c].priority;
                        assert(after[c].eligible() && after[c].priority == p);
                        assert forall|k: int|
                            0 <= k < after.len() && (#[trigger] after[k]).eligible() implies p
                            <= after[k].priority by {
                            if k != i {
                                assert(before[k].eligible());
                            }
                        }
                    },
                    None => {
                        assert forall|k: int| 0 <= k < after.len() implies !(
                        #[trigger] after[k]).eligible() by {
                            if k != i {
                                assert(!before[k].eligible());
                            }
                        }
                    },
                }
            }
        }
    }

    /// The first pipe known by `token` is open: it can be chosen once it is
    /// active.
    pub fn show(&mut self, token: Token)
        requires
            old(self).wf(),
        ensures
            final(self).wf(),
            Self::shown(*old(self), *final(self), token),
    {
        match self.find(token) {
            None => {},
            Some(i) => {
                let item = self.items[i];
                self.raise(i, Item { visible: true, ..item });
            },
        }
    }

    /// The first pipe known by `token` has something to give: it can be
    /// chosen once it is open.
    pub fn activate(&mut self, token: Token)
        requires
            old(self).wf(),
        ensures
            final(self).wf(),
            Self::activated(*old(self), *final(self), token),
    {
        match self.find(token) {
            None => {},
            Some(i) => {
                let item = self.items[i];
                self.raise(i, Item { active: true, ..item });
            },
        }
    }

    /// The first pipe known by `token` has nothing to give. If the cursor
    /// stood on it, it goes on to the pipe to serve next.
    pub fn deactivate(&mut self, token: Token)
        requires
            old(self).wf(),
        ensures
            final(self).wf(),
            Self::deactivated(*old(self), *final(self), token),
    {
        match self.find(token) {
            None => {},
            Some(i) => {
                let ghost before = self.items();
                let item = self.items[i];
                self.items.set(i, Item { active: false, ..item });
                let ghost after = self.items();
                proof {
                    assert forall|a: int, b: int| 0 <= a < b < after.len() implies (
                    #[trigger] after[a]).priority <= (#[trigger] after[b]).priority by {
                        assert(before[a].priority <= before[b].priority);
                    }
                }
                match self.current {
                    Some(c) => {
                        if c == i {
                            self.current = self.select(Some(i));
                        } else {
                            proof {
                                let p = before[c as int].priority;
                                assert(after[c as int].eligible() && after[c as int].priority == p);
                                assert forall|k: int|
                                    0 <= k < after.len() && (#[trigger] after[k]).eligible() implies p
                                    <= after[k].priority by {
                                    assert(before[k].eligible());
                                }
                            }
                        }
                    },
                    None => {
                        proof {
                            assert forall|k: int| 0 <= k < after.len() implies !(
                            #[trigger] after[k]).eligible() by {
                                if k != i {
                                    assert(!before[k].eligible());
                                }
                            }
                        }
                    },
                }
            },
        }
    }

    /// The pipe under the cursor was served: the cursor goes on to the pipe
    /// to serve next.
    pub fn advance(&mut self)
        requires
            old(self).wf(),
        ensures
            final(self).wf(),
            Self::advanced(*old(self), *final(self)),
    {
        match self.current {
            Some(c) => {
                self.current = self.select(Some(c));
            },
            None => {},
        }
    }

    /// The pipe under the cursor gave nothing in time: the cursor goes on to
    /// the pipe to serve next.
    pub fn skip(&mut self)
        requires
            old(self).wf(),
        ensures
            final(self).wf(),
            Self::advanced(*old(self), *final(self)),
    {
        self.advance()
    }
}

/// What a priority list holds: the pipes in order, and the cursor's place.
pub struct Ring {
    pub items: Seq<Item>,
    pub cursor: Option<int>,
}

impl View for PrioList {
    type V = Ring;

    open spec fn view(&self) -> Ring {
        Ring { items: self.items(), cursor: self.cursor() }
    }
}

impl Ring {
    /// The order holds, and the cursor stands on a pipe that can be chosen
    /// and that no other is to be served sooner than, if there is one.
    pub open spec fn wf(self) -> bool {
        in_order(self.items) && cursor_is_right(self.items, self.cursor)
    }

    /// The first place of a pipe known by `token`.
    pub open spec fn position(self, token: Token) -> Option<int> {
        PrioList::first_of(self.items, 0, token)
    }

    /// The ring with a pipe taken in, as `insert` takes it in.
    pub open spec fn inserted(self, token: Token, priority: u8) -> Ring {
        let at = PrioList::place_for(self.items, priority);
        Ring {
            items: self.items.insert(at, Item { token, priority, active: false, visible: false }),
            cursor: match self.cursor {
                Some(c) => if at <= c {
                    Some(c + 1)
                } else {
                    Some(c)
                },
                None => None,
            },
        }
    }

    /// The ring with the first pipe known by `token` let go, as `remove`
    /// lets it go.
    pub open spec fn removed(self, token: Token) -> Ring {
        match self.position(token) {
            None => self,
            Some(i) => {
                let items = self.items.remove(i);
                Ring {
                    items,
                    cursor: match self.cursor {
                        Some(c) => if c == i {
                            next_after(items, i - 1)
                        } else if c > i {
                            Some(c - 1)
                        } else {
                            Some(c)
                        },
                        None => None,
                    },
                }
            },
        }
    }

    /// The ring with the pipe at `i` made `item`.
    pub open spec fn raised(self, i: int, item: Item) -> Ring {
        let items = self.items.update(i, item);
        Ring { items, cursor: PrioList::taken_over(items, self.cursor, i) }
    }

    /// The ring with the first pipe known by `token` shown, as `show` shows
    /// it.
    pub open spec fn shown(self, token: Token) -> Ring {
        match self.position(token) {
            None => self,
            Some(i) => self.raised(i, Item { visible: true, ..self.items[i] }),
        }
    }

    /// The ring with the first pipe known by `token` active, as `activate`
    /// makes it.
    pub open spec fn activated(self, token: Token) -> Ring {
        match self.position(token) {
            None => self,
            Some(i) => self.raised(i, Item { active: true, ..self.items[i] }),
        }
    }

    /// The ring with the first pipe known by `token` not active, as
    /// `deactivate` makes it.
    pub open spec fn deactivated(self, token: Token) -> Ring {
        match self.position(token) {
            None => self,
            Some(i) => {
                let items = self.items.update(i, Item { active: false, ..self.items[i] });
                Ring {
                    items,
                    cursor: if self.cursor == Some(i) {
                        next_after(items, i)
                    } else {
                        self.cursor
                    },
                }
            },
        }
    }

    /// The ring once the pipe under the cursor has had its turn: it is not
    /// active until it says that it is again, so that the cursor goes on.
    pub open spec fn turn_taken(self) -> Ring {
        match self.cursor {
            Some(c) => self.deactivated(self.items[c].token),
            None => self,
        }
    }
}

/// What the relations between a list and the next say of the rings.
pub proof fn rings_follow(before: PrioList, after: PrioList, token: Token, priority: u8)
    ensures
        PrioList::inserted(before, after, token, priority) ==> after@ == before@.inserted(
            token,
            priority,
        ),
        PrioList::removed(before, after, token) ==> after@ == before@.removed(token),
        PrioList::shown(before, after, token) ==> after@ == before@.shown(token),
        PrioList::activated(before, after, token) ==> after@ == before@.activated(token),
        PrioList::deactivated(before, after, token) ==> after@ == before@.deactivated(token),
{
}

/// Whether every pipe can be chosen, and all are to be served equally soon.
pub open spec fn all_equal_and_eligible(items: Seq<Item>) -> bool {
    &&& forall|i: int| 0 <= i < items.len() ==> (#[trigger] items[i]).eligible()
    &&& forall|i: int, j: int|
        0 <= i < items.len() && 0 <= j < items.len() ==> (#[trigger] items[i]).priority == (
        #[trigger] items[j]).priority
}

/// Among pipes that can all be chosen and are to be served equally soon,
/// the pipe to serve next is the one behind, and the first one behind the
/// last: the pipes are served in turn.
pub proof fn served_in_turn(items: Seq<Item>, c: int)
    requires
        all_equal_and_eligible(items),
        0 <= c < items.len(),
    ensures
        next_after(items, c) == Some(
            if c + 1 < items.len() {
                c + 1
            } else {
                0
            },
        ),
{
    let n = items.len() as int;
    assert(items[c].eligible());
    let p0 = items[c].priority;
    assert(is_best(items, p0)) by {
        assert forall|i: int| 0 <= i < items.len() && (#[trigger] items[i]).eligible() implies p0
            <= items[i].priority by {
            assert(items[c].priority == items[i].priority);
        }
    }
    let p = choose|p: u8| is_best(items, p);
    best_is_unique(items, p, p0);
    if c + 1 < n {
        assert(items[c + 1].eligible());
        assert(items[c].priority == items[c + 1].priority);
    } else {
        assert(items[0].eligible());
        assert(items[c].priority == items[0].priority);
    }
}

/// How often the pipe at `who` is served in `deliveries` deliveries, the
/// first of which is from the pipe at `cursor`.
pub open spec fn times_served(items: Seq<Item>, cursor: int, deliveries: nat, who: int) -> nat
    decreases deliveries,
{
    if deliveries == 0 {
        0
    } else {
        (if cursor == who {
            1nat
        } else {
            0nat
        }) + (match next_after(items, cursor) {
            Some(next) => times_served(items, next, (deliveries - 1) as nat, who),
            None => 0,
        })
    }
}

/// How many deliveries come before the pipe at `who` is served, when the
/// cursor stands at `cursor` and `n` pipes are served in turn.
pub open spec fn turns_to_wait(n: int, cursor: int, who: int) -> int {
    if who >= cursor {
        who - cursor
    } else {
        who - cursor + n
    }
}

/// Among pipes that are served in turn, a pipe is served once in as many
/// deliveries as there are pipes, beginning with the delivery that it has to
/// wait for.
pub proof fn times_served_in_turn(items: Seq<Item>, cursor: int, deliveries: nat, who: int)
    requires
        all_equal_and_eligible(items),
        0 <= cursor < items.len(),
        0 <= who < items.len(),
    ensures
        times_served(items, cursor, deliveries, who) == (deliveries + items.len() - 1
            - turns_to_wait(items.len() as int, cursor, who)) / (items.len() as int),
    decreases deliveries,
{
    let n = items.len() as int;
    let d = turns_to_wait(n, cursor, who);
    if deliveries == 0 {
        assert((n - 1 - d) / n == 0) by (nonlinear_arith)
            requires
                0 <= d < n,
        ;
    } else {
        served_in_turn(items, cursor);
        let next = if cursor + 1 < n { cursor + 1 } else { 0 };
        times_served_in_turn(items, next, (deliveries - 1) as nat, who);
        let d1 = turns_to_wait(n, next, who);
        let rest = deliveries - 1;
        if cursor == who {
            assert(d == 0);
            assert(d1 == n - 1);
            assert((rest + n) / n == rest / n + 1) by (nonlinear_arith)
                requires
                    rest >= 0,
                    n > 0,
            ;
        } else {
            assert(d1 == d - 1);
        }
    }
}

/// Fairness. Among `n` pipes that can all be chosen and are to be served
/// equally soon, in any run of deliveries each pipe is served as often as
/// the deliveries divided by `n` give, rounded down or up; so no two pipes
/// differ by more than one. Over a run of `n` times `k` deliveries each pipe
/// is served `k` times.
pub proof fn fair_share(items: Seq<Item>, cursor: int, deliveries: nat, who: int)
    requires
        all_equal_and_eligible(items),
        0 <= cursor < items.len(),
        0 <= who < items.len(),
    ensures
        deliveries / items.len() <= times_served(items, cursor, deliveries, who) <= deliveries
            / items.len() + 1,
        deliveries % items.len() == 0 ==> times_served(items, cursor, deliveries, who)
            == deliveries / items.len(),
{
    let n = items.len() as int;
    let d = turns_to_wait(n, cursor, who);
    let m = deliveries as int;
    times_served_in_turn(items, cursor, deliveries, who);
    assert(m / n <= (m + n - 1 - d) / n <= m / n + 1 && (m % n == 0 ==> (m + n - 1 - d) / n == m
        / n)) by (nonlinear_arith)
        requires
            0 <= d < n,
            m >= 0,
    ;
}

/// Where a pipe known by `token` is found first depends on the tokens alone.
pub proof fn found_by_tokens(a: Seq<Item>, b: Seq<Item>, lo: int, token: Token)
    requires
        a.len() == b.len(),
        0 <= lo,
        forall|i: int| 0 <= i < a.len() ==> (#[trigger] a[i]).token == b[i].token,
    ensures
        PrioList::first_of(a, lo, token) == PrioList::first_of(b, lo, token),
    decreases a.len() - lo,
{
    if lo < a.len() {
        assert(a[lo].token == b[lo].token);
        if a[lo].token != token {
            found_by_tokens(a, b, lo + 1, token);
        }
    }
}

/// Taking turns. Among pipes that can all be chosen and are to be served
/// equally soon, when the pipe under the cursor has had its turn and then
/// says that it is active again, as a pipe does that was given work and can
/// take more, the cursor has gone on as `advance` moves it, and nothing
/// else has changed: so the pipes are given work in turn, and `fair_share`
/// says how often each.
pub proof fn busy_and_back_is_a_turn(ring: Ring, c: int)
    requires
        ring.wf(),
        all_equal_and_eligible(ring.items),
        ring.cursor == Some(c),
        ring.position(ring.items[c].token) == Some(c),
    ensures
        ring.turn_taken().activated(ring.items[c].token) == (Ring {
            items: ring.items,
            cursor: next_after(ring.items, c),
        }),
{
    let items = ring.items;
    let n = items.len() as int;
    let token = items[c].token;
    let p = items[c].priority;
    let busy = ring.turn_taken();
    let after = busy.activated(token);
    assert(busy.items == items.update(c, Item { active: false, ..items[c] }));
    found_by_tokens(busy.items, items, 0, token);
    assert(busy.position(token) == Some(c));
    assert(items[c].eligible());
    assert(after.items =~= items);
    served_in_turn(items, c);
    if n == 1 {
        assert(!any_eligible(busy.items)) by {
            if any_eligible(busy.items) {
                let i = choose|i: int| 0 <= i < busy.items.len() && (#[trigger] busy.items[i]).eligible();
                assert(i == c);
            }
        }
        assert(busy.cursor is None);
    } else {
        let next = if c + 1 < n { c + 1 } else { 0 };
        assert(busy.items[next] == items[next]);
        assert(items[next].eligible());
        assert(items[next].priority == items[c].priority);
        assert(is_best(busy.items, p)) by {
            assert(busy.items[next].eligible() && busy.items[next].priority == p);
            assert forall|i: int|
                0 <= i < busy.items.len() && (#[trigger] busy.items[i]).eligible() implies p
                <= busy.items[i].priority by {
                assert(items[i].priority == items[c].priority);
            }
        }
        assert(any_eligible(busy.items));
        let q = choose|q: u8| is_best(busy.items, q);
        best_is_unique(busy.items, p, q);
        first_with_finds(busy.items, c + 1, n, p);
        first_with_finds(busy.items, 0, n, p);
        assert(next_after(busy.items, c) == Some(next));
        assert(busy.cursor == Some(next));
    }
}

} // verus!
