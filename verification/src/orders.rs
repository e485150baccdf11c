//! Typing orders and the per-window script state they are drawn from.
//!
//! A script is parsed (by an outside collaborator) into an ordered list of
//! orders; the list is consumed from its tail, so the element at the end of
//! the vector is the next order to process.  At most one order can be held
//! back (`pending`) when it could not be acted on; it is retried before the
//! list is touched again.

use vstd::prelude::*;

verus! {

/// One unit of script instruction.
#[derive(Clone, Copy, Debug, PartialEq, Eq, Structural)]
pub enum Order {
    /// Reveal one character.
    Type { character: char },
    /// Break the current line.
    CarriageReturn,
    /// Break the page: pause typing and wait for the reader.
    PageFeed,
}

/// The script state owned by one message window: the path the script was
/// loaded from, the orders not yet consumed (absent until the collaborator
/// delivers the parsed script), and the single held-back order.
pub struct LoadedScript {
    pub path: String,
    pub order_list: Option<Vec<Order>>,
    pub pending: Option<Order>,
}

impl LoadedScript {
    /// The orders still to be processed, in processing order: the pending
    /// order first, then the list read from its tail towards its head.
    pub open spec fn remaining(self) -> Seq<Order> {
        opt_order_seq(self.pending) + rev_orders(list_seq(self.order_list))
    }
}

pub open spec fn opt_order_seq(o: Option<Order>) -> Seq<Order> {
    match o {
        Some(ord) => seq![ord],
        None => Seq::empty(),
    }
}

pub open spec fn list_seq(l: Option<Vec<Order>>) -> Seq<Order> {
    match l {
        Some(v) => v@,
        None => Seq::empty(),
    }
}

/// A sequence read back to front.
pub open spec fn rev_orders(s: Seq<Order>) -> Seq<Order>
    decreases s.len(),
{
    if s.len() == 0 {
        Seq::empty()
    } else {
        seq![s.last()] + rev_orders(s.drop_last())
    }
}

/// Fetches the next order to act on.  A forced carriage return (requested by
/// the caller after an overflowing character) takes priority and consumes
/// nothing; otherwise the pending order is returned and kept; otherwise one
/// order is popped from the list's tail; with nothing left, `None`.
pub fn get_next_order(
    pending: &Option<Order>,
    order_list: &mut Option<Vec<Order>>,
    in_cr: bool,
) -> (r: Option<Order>)
    ensures
        in_cr ==> r == Some(Order::CarriageReturn) && *final(order_list) == *old(order_list),
        !in_cr && pending.is_some() ==> r == *pending && *final(order_list) == *old(order_list),
        !in_cr && pending.is_none() ==> final(order_list).is_some() == old(order_list).is_some(),
        !in_cr && pending.is_none() ==> if list_seq(*old(order_list)).len() == 0 {
            r.is_none() && *final(order_list) == *old(order_list)
        } else {
            r == Some(list_seq(*old(order_list)).last())
                && list_seq(*final(order_list)) == list_seq(*old(order_list)).drop_last()
        },
{
    if in_cr {
        Some(Order::CarriageReturn)
    } else if pending.is_some() {
        *pending
    } else {
        match order_list {
            Some(list) => {
                if list.len() > 0 {
                    let r = list.pop();
                    proof {
                        let v = old(order_list).unwrap()@;
                        assert(list@ =~= v.drop_last());
                    }
                    r
                } else {
                    None
                }
            },
            None => None,
        }
    }
}

/// Popping the tail of a list removes the head of the reversed view:
/// the remaining stream loses exactly its first element.
pub proof fn lemma_rev_orders_pop(s: Seq<Order>)
    requires
        s.len() > 0,
    ensures
        rev_orders(s) == seq![s.last()] + rev_orders(s.drop_last()),
        rev_orders(s)[0] == s.last(),
        rev_orders(s).skip(1) == rev_orders(s.drop_last()),
{
    assert(rev_orders(s) == seq![s.last()] + rev_orders(s.drop_last()));
    assert(rev_orders(s).skip(1) =~= rev_orders(s.drop_last()));
}

} // verus!
