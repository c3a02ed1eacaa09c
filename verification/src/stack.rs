//! The call stack.

use vstd::prelude::*;
use crate::error::CpuError;

verus! {

/// Number of return addresses the call stack can hold.
pub const STACK_CAPACITY: usize = 16;

/// A bounded last-in, first-out store of return addresses.
#[derive(Debug)]
pub struct Stack {
    slots: [u16; 16],
    len: usize,
}

/// The stack that results from pushing `address` onto `s`.
pub open spec fn pushed(s: Seq<u16>, address: u16) -> Seq<u16> {
    s.push(address)
}

/// The stack that results from popping the top of `s`.
pub open spec fn popped(s: Seq<u16>) -> Seq<u16> {
    s.drop_last()
}

/// The stack that results from pushing every element of `items` onto `s`,
/// first element first.
pub open spec fn pushed_all(s: Seq<u16>, items: Seq<u16>) -> Seq<u16>
    decreases items.len(),
{
    if items.len() == 0 {
        s
    } else {
        pushed(pushed_all(s, items.drop_last()), items.last())
    }
}

/// The addresses that `n` successive pops hand out, in the order they come.
pub open spec fn pop_order(s: Seq<u16>, n: nat) -> Seq<u16>
    decreases n,
{
    if n == 0 || s.len() == 0 {
        Seq::empty()
    } else {
        seq![s.last()] + pop_order(popped(s), (n - 1) as nat)
    }
}

/// The stack that is left after `n` successive pops.
pub open spec fn popped_n(s: Seq<u16>, n: nat) -> Seq<u16>
    decreases n,
{
    if n == 0 || s.len() == 0 {
        s
    } else {
        popped_n(popped(s), (n - 1) as nat)
    }
}

impl View for Stack {
    type V = Seq<u16>;

    /// The addresses held, oldest first.
    closed spec fn view(&self) -> Seq<u16> {
        Seq::new(
            if self.len <= 16 { self.len as nat } else { 16 },
            |i: int| self.slots@[i],
        )
    }
}

impl Stack {
    #[verifier::type_invariant]
    spec fn inv(&self) -> bool {
        self.len <= 16
    }

    /// No stack holds more than `STACK_CAPACITY` addresses.
    pub proof fn lemma_bounded(&self)
        ensures
            self@.len() <= STACK_CAPACITY,
    {
    }

    /// An empty stack.
    pub fn new() -> (s: Self)
        ensures
            s@ == Seq::<u16>::empty(),
    {
        Stack { slots: [0u16; 16], len: 0 }
    }

    /// Number of addresses held.
    pub fn len(&self) -> (n: usize)
        ensures
            n == self@.len(),
            n <= STACK_CAPACITY,
    {
        proof {
            use_type_invariant(self);
        }
        self.len
    }

    /// Whether no address is held.
    pub fn is_empty(&self) -> (b: bool)
        ensures
            b == (self@.len() == 0),
    {
        proof {
            use_type_invariant(self);
        }
        self.len == 0
    }

    /// Puts `address` on top. A full stack is left as it is and reported.
    pub fn push(&mut self, address: u16) -> (r: Result<(), CpuError>)
        ensures
            match r {
                Ok(()) => old(self)@.len() < STACK_CAPACITY && final(self)@ == pushed(
                    old(self)@,
                    address,
                ),
                Err(e) => old(self)@.len() >= STACK_CAPACITY && e == CpuError::StackOverflow
                    && final(self)@ == old(self)@,
            },
    {
        proof {
            use_type_invariant(&*self);
        }
        if self.len >= STACK_CAPACITY {
            return Err(CpuError::StackOverflow);
        }
        self.slots[self.len] = address;
        self.len += 1;
        assert(self@ =~= pushed(old(self)@, address));
        Ok(())
    }

    /// Takes the most recently pushed address off. An empty stack is reported.
    pub fn pop(&mut self) -> (r: Result<u16, CpuError>)
        ensures
            match r {
                Ok(address) => old(self)@.len() > 0 && address == old(self)@.last() && final(self)@
                    == popped(old(self)@),
                Err(e) => old(self)@.len() == 0 && e == CpuError::StackUnderflow && final(self)@
                    == old(self)@,
            },
    {
        proof {
            use_type_invariant(&*self);
        }
        if self.len == 0 {
            return Err(CpuError::StackUnderflow);
        }
        self.len -= 1;
        let address = self.slots[self.len];
        assert(self@ =~= popped(old(self)@));
        Ok(address)
    }
}

/// The length of a stack after pushing `items` onto it.
pub proof fn lemma_pushed_all_len(s: Seq<u16>, items: Seq<u16>)
    ensures
        pushed_all(s, items).len() == s.len() + items.len(),
    decreases items.len(),
{
    if items.len() > 0 {
        lemma_pushed_all_len(s, items.drop_last());
    }
}

/// Last in, first out, one step: a pop right after a push hands back the
/// pushed address and leaves the stack as it was before the push.
pub proof fn lemma_push_then_pop(s: Seq<u16>, address: u16)
    ensures
        pushed(s, address).len() == s.len() + 1,
        pushed(s, address).last() == address,
        popped(pushed(s, address)) == s,
{
    assert(pushed(s, address).drop_last() =~= s);
}

/// Last in, first out, any run: when `items` fit on top of `s`, every push of
/// the run finds room, and as many pops as there were pushes hand the
/// addresses back in reverse order and leave `s`.
pub proof fn lemma_lifo(s: Seq<u16>, items: Seq<u16>)
    requires
        s.len() + items.len() <= STACK_CAPACITY,
    ensures
        forall|k: int|
            0 <= k < items.len() ==> (#[trigger] pushed_all(s, items.take(k))).len()
                < STACK_CAPACITY,
        pop_order(pushed_all(s, items), items.len()) == items.reverse(),
        popped_n(pushed_all(s, items), items.len()) == s,
    decreases items.len(),
{
    assert forall|k: int| 0 <= k < items.len() implies (#[trigger] pushed_all(
        s,
        items.take(k),
    )).len() < STACK_CAPACITY by {
        lemma_pushed_all_len(s, items.take(k));
    }
    if items.len() == 0 {
        assert(items.reverse() =~= Seq::<u16>::empty());
    } else {
        let rest = items.drop_last();
        let full = pushed_all(s, items);
        lemma_lifo(s, rest);
        lemma_push_then_pop(pushed_all(s, rest), items.last());
        assert(popped(full) == pushed_all(s, rest));
        assert(items.reverse() =~= seq![items.last()] + rest.reverse());
    }
}

} // verus!
