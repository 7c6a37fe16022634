//! The ticket lifecycle: a checked-out order with a bounded stage counter.
//! Stages run one (awaiting confirmation) through four (awaiting receipt
//! confirmation); five (completed) and six (cancelled) are terminal. Every
//! mutation is a guarded conditional step, so a stale actor is refused
//! rather than corrupting the record.

use vstd::prelude::*;
use crate::basket::{BasketStore, map_amount};

verus! {

/// A checked-out order.
#[derive(Clone, Copy, PartialEq, Eq, Structural, Debug)]
pub struct Ticket {
    pub ticket_id: i32,
    pub eater_msg_id: i32,
    pub caterer_msg_id: i32,
    pub stage: i32,
}

/// A ticket together with the two parties that may act on it.
#[derive(Clone, Copy, PartialEq, Eq, Structural, Debug)]
pub struct TicketWithOwners {
    pub caterer_id: i32,
    pub eater_id: i32,
    pub ticket: Ticket,
}

/// Whether some ticket carries the id.
pub open spec fn has_ticket(s: Seq<TicketWithOwners>, id: i32) -> bool {
    exists|i: int| 0 <= i < s.len() && (#[trigger] s[i]).ticket.ticket_id == id
}

/// The position of the ticket with the id.
pub open spec fn ticket_idx(s: Seq<TicketWithOwners>, id: i32) -> int {
    choose|i: int| 0 <= i < s.len() && (#[trigger] s[i]).ticket.ticket_id == id
}

/// The ticket with the id; meaningful only under `has_ticket`.
pub open spec fn ticket_at(s: Seq<TicketWithOwners>, id: i32) -> TicketWithOwners {
    s[ticket_idx(s, id)]
}

/// The stage of the ticket with the id, zero when there is none.
pub open spec fn spec_stage(s: Seq<TicketWithOwners>, id: i32) -> int {
    if has_ticket(s, id) {
        ticket_at(s, id).ticket.stage as int
    } else {
        0
    }
}

/// The stage an advance attempt by `actor_id` leaves a ticket in: one step
/// forward below stage five, except that the caterer may not take the last
/// step (receipt confirmation belongs to the eater); otherwise unchanged.
pub open spec fn spec_advance_stage(stage: int, caterer_id: int, actor_id: int) -> int {
    if stage < 5 && !(stage == 4 && actor_id == caterer_id) {
        stage + 1
    } else {
        stage
    }
}

/// Whether an advance attempt by `actor_id` succeeds.
pub open spec fn spec_advance_ok(stage: int, caterer_id: int, actor_id: int) -> bool {
    stage < 5 && !(stage == 4 && actor_id == caterer_id)
}

/// The stage a cancel attempt leaves a ticket in: six from any non-terminal
/// stage, unchanged from a terminal one.
pub open spec fn spec_cancel_stage(stage: int) -> int {
    if stage < 5 {
        6
    } else {
        stage
    }
}

/// All ticket ids are distinct.
pub open spec fn distinct_ids(s: Seq<TicketWithOwners>) -> bool {
    forall|i: int, j: int|
        0 <= i < j < s.len() ==> (#[trigger] s[i]).ticket.ticket_id != (
        #[trigger] s[j]).ticket.ticket_id
}

proof fn lemma_ticket_at(s: Seq<TicketWithOwners>, i: int)
    requires
        distinct_ids(s),
        0 <= i < s.len(),
    ensures
        has_ticket(s, s[i].ticket.ticket_id),
        ticket_idx(s, s[i].ticket.ticket_id) == i,
        ticket_at(s, s[i].ticket.ticket_id) == s[i],
{
    assert(has_ticket(s, s[i].ticket.ticket_id));
    let j = ticket_idx(s, s[i].ticket.ticket_id);
    assert(0 <= j < s.len() && s[j].ticket.ticket_id == s[i].ticket.ticket_id);
    if i != j {
        assert(false);
    }
}

/// A party's open orders, each under the other party's id.
pub type TicketInfo = Vec<(i32, Ticket)>;

/// The order tickets: append-only but for the stage field, keyed by a
/// serially assigned id.
pub struct TicketStore {
    pub tickets: Vec<TicketWithOwners>,
    pub next_id: i32,
}

impl TicketStore {
    /// Ids are distinct and below the next free one, and every stage lies in
    /// the lifecycle's range.
    pub open spec fn wf(self) -> bool {
        &&& distinct_ids(self.tickets@)
        &&& forall|i: int|
            0 <= i < self.tickets@.len() ==> (#[trigger] self.tickets@[i]).ticket.ticket_id
                < self.next_id
        &&& forall|i: int|
            0 <= i < self.tickets@.len() ==> 1 <= (#[trigger] self.tickets@[i]).ticket.stage <= 6
        &&& self.next_id >= 1
    }

    /// An empty store whose first ticket will get id one.
    pub fn new() -> (r: TicketStore)
        ensures
            r.wf(),
            r.tickets@ == Seq::<TicketWithOwners>::empty(),
            r.next_id == 1,
    {
        TicketStore { tickets: Vec::new(), next_id: 1 }
    }

    fn find(&self, ticket_id: i32) -> (r: Option<usize>)
        requires
            self.wf(),
        ensures
            match r {
                Some(i) => i < self.tickets@.len() && self.tickets@[i as int].ticket.ticket_id
                    == ticket_id && has_ticket(self.tickets@, ticket_id) && ticket_idx(
                    self.tickets@,
                    ticket_id,
                ) == i && ticket_at(self.tickets@, ticket_id) == self.tickets@[i as int],
                None => !has_ticket(self.tickets@, ticket_id),
            },
    {
        let n = self.tickets.len();
        let mut i: usize = 0;
        while i < n
            invariant
                i <= n,
                n == self.tickets@.len(),
                self.wf(),
                forall|j: int|
                    0 <= j < i ==> (#[trigger] self.tickets@[j]).ticket.ticket_id != ticket_id,
            decreases n - i,
        {
            if self.tickets[i].ticket.ticket_id == ticket_id {
                proof {
                    lemma_ticket_at(self.tickets@, i as int);
                }
                return Some(i);
            }
            i += 1;
        }
        None
    }

    /// The full record of one ticket, with both owner identities, for
    /// authorization checks.
    pub fn ticket_with_owners(&self, ticket_id: i32) -> (r: Option<TicketWithOwners>)
        requires
            self.wf(),
        ensures
            r is Some <==> has_ticket(self.tickets@, ticket_id),
            r is Some ==> r->0 == ticket_at(self.tickets@, ticket_id),
    {
        match self.find(ticket_id) {
            Some(i) => Some(self.tickets[i]),
            None => None,
        }
    }

    /// The stage of a ticket, zero when the id names none.
    pub fn basket_stage(&self, ticket_id: i32) -> (r: i32)
        requires
            self.wf(),
        ensures
            r as int == spec_stage(self.tickets@, ticket_id),
    {
        match self.find(ticket_id) {
            Some(i) => self.tickets[i].ticket.stage,
            None => 0,
        }
    }

    /// Checkout: clears the eater's basket lines for the caterer's
    /// restaurant and inserts one ticket at stage one, as a single step, so
    /// no state ever shows both the basket and the ticket. `caterer_rest`
    /// names the caterer's restaurant; when the caterer has none, no basket
    /// line matches and only the ticket appears. Fails, changing nothing,
    /// only when ticket ids are exhausted.
    pub fn order_to_ticket(
        &mut self,
        baskets: &mut BasketStore,
        caterer_rest: Option<i32>,
        eater_id: i32,
        caterer_id: i32,
        eater_msg_id: i32,
        caterer_msg_id: i32,
    ) -> (r: bool)
        requires
            old(self).wf(),
            old(baskets).wf(),
        ensures
            final(self).wf(),
            final(baskets).wf(),
            r <==> old(self).next_id < i32::MAX,
            r ==> final(self).tickets@ == old(self).tickets@.push(
                (TicketWithOwners {
                    caterer_id,
                    eater_id,
                    ticket: Ticket {
                        ticket_id: old(self).next_id,
                        eater_msg_id,
                        caterer_msg_id,
                        stage: 1,
                    },
                }),
            ) && final(self).next_id == old(self).next_id + 1,
            r && caterer_rest is Some ==> forall|k: (i32, i32, i32, i32)|
                (k.3 == eater_id && k.0 == caterer_rest->0) ==> #[trigger] map_amount(
                    final(baskets)@,
                    k,
                ) == 0,
            r && caterer_rest is Some ==> forall|k: (i32, i32, i32, i32)|
                !(k.3 == eater_id && k.0 == caterer_rest->0) ==> #[trigger] map_amount(
                    final(baskets)@,
                    k,
                ) == map_amount(old(baskets)@, k),
            r && caterer_rest is None ==> final(baskets)@ == old(baskets)@,
            !r ==> *final(self) == *old(self) && *final(baskets) == *old(baskets),
    {
        if self.next_id == i32::MAX {
            return false;
        }
        if let Some(rest_num) = caterer_rest {
            baskets.clear_basket_for_rest(eater_id, rest_num);
        }
        let two = TicketWithOwners {
            caterer_id,
            eater_id,
            ticket: Ticket {
                ticket_id: self.next_id,
                eater_msg_id,
                caterer_msg_id,
                stage: 1,
            },
        };
        self.tickets.push(two);
        self.next_id = self.next_id + 1;
        true
    }

    /// Sets the stage of a live ticket; the guarded write refuses a ticket
    /// already in a terminal stage, or an id that names none. Cancelling is
    /// this step with stage six.
    pub fn basket_edit_stage(&mut self, ticket_id: i32, stage: i32) -> (r: bool)
        requires
            old(self).wf(),
            1 <= stage <= 6,
        ensures
            final(self).wf(),
            r <==> has_ticket(old(self).tickets@, ticket_id) && spec_stage(
                old(self).tickets@,
                ticket_id,
            ) < 5,
            !r ==> *final(self) == *old(self),
            r ==> final(self).tickets@ == old(self).tickets@.update(
                ticket_idx(old(self).tickets@, ticket_id),
                (TicketWithOwners {
                    ticket: Ticket { stage, ..ticket_at(old(self).tickets@, ticket_id).ticket },
                    ..ticket_at(old(self).tickets@, ticket_id)
                }),
            ),
            spec_stage(final(self).tickets@, ticket_id) == if r {
                stage as int
            } else {
                spec_stage(old(self).tickets@, ticket_id)
            },
            forall|other: i32|
                other != ticket_id ==> #[trigger] spec_stage(final(self).tickets@, other)
                    == spec_stage(old(self).tickets@, other),
            final(self).next_id == old(self).next_id,
    {
        match self.find(ticket_id) {
            Some(i) => {
                let two = self.tickets[i];
                if two.ticket.stage < 5 {
                    let updated = TicketWithOwners {
                        ticket: Ticket { stage, ..two.ticket },
                        ..two
                    };
                    let ghost prev = self.tickets@;
                    self.tickets.set(i, updated);
                    proof {
                        assert(distinct_ids(self.tickets@)) by {
                            assert(forall|a: int|
                                0 <= a < self.tickets@.len()
                                    ==> (#[trigger] self.tickets@[a]).ticket.ticket_id
                                    == prev[a].ticket.ticket_id);
                        }
                        lemma_ticket_at(self.tickets@, i as int);
                        assert forall|other: i32| other != ticket_id implies #[trigger] spec_stage(
                            self.tickets@,
                            other,
                        ) == spec_stage(prev, other) by {
                            Self::lemma_update_other(prev, self.tickets@, i as int, other);
                        }
                    }
                    true
                } else {
                    false
                }
            },
            None => false,
        }
    }

    /// Two sequences equal but for position `i` agree on every ticket whose
    /// id is not the one at `i`.
    proof fn lemma_update_other(
        prev: Seq<TicketWithOwners>,
        cur: Seq<TicketWithOwners>,
        i: int,
        other: i32,
    )
        requires
            distinct_ids(prev),
            distinct_ids(cur),
            prev.len() == cur.len(),
            0 <= i < prev.len(),
            forall|j: int| 0 <= j < prev.len() && j != i ==> #[trigger] cur[j] == prev[j],
            prev[i].ticket.ticket_id == cur[i].ticket.ticket_id,
            other != prev[i].ticket.ticket_id,
        ensures
            spec_stage(cur, other) == spec_stage(prev, other),
    {
        if has_ticket(prev, other) {
            let j = ticket_idx(prev, other);
            assert(j != i);
            assert(cur[j] == prev[j]);
            lemma_ticket_at(cur, j);
        } else {
            if has_ticket(cur, other) {
                let j = ticket_idx(cur, other);
                assert(j != i);
                assert(prev[j] == cur[j]);
                assert(false);
            }
        }
    }

    /// Advances a live ticket one stage, refusing the caterer the final
    /// receipt-confirmation step (stage four to five), which only the eater
    /// may take.
    pub fn basket_next_stage(&mut self, user_id: i32, ticket_id: i32) -> (r: bool)
        requires
            old(self).wf(),
        ensures
            final(self).wf(),
            r <==> has_ticket(old(self).tickets@, ticket_id) && spec_advance_ok(
                spec_stage(old(self).tickets@, ticket_id),
                ticket_at(old(self).tickets@, ticket_id).caterer_id as int,
                user_id as int,
            ),
            !r ==> *final(self) == *old(self),
            has_ticket(old(self).tickets@, ticket_id) ==> spec_stage(
                final(self).tickets@,
                ticket_id,
            ) == spec_advance_stage(
                spec_stage(old(self).tickets@, ticket_id),
                ticket_at(old(self).tickets@, ticket_id).caterer_id as int,
                user_id as int,
            ),
            forall|other: i32|
                other != ticket_id ==> #[trigger] spec_stage(final(self).tickets@, other)
                    == spec_stage(old(self).tickets@, other),
            final(self).next_id == old(self).next_id,
    {
        match self.find(ticket_id) {
            Some(i) => {
                let two = self.tickets[i];
                if two.ticket.stage < 5 && !(two.ticket.stage == 4 && two.caterer_id == user_id) {
                    let updated = TicketWithOwners {
                        ticket: Ticket { stage: two.ticket.stage + 1, ..two.ticket },
                        ..two
                    };
                    let ghost prev = self.tickets@;
                    self.tickets.set(i, updated);
                    proof {
                        assert(distinct_ids(self.tickets@)) by {
                            assert(forall|a: int|
                                0 <= a < self.tickets@.len()
                                    ==> (#[trigger] self.tickets@[a]).ticket.ticket_id
                                    == prev[a].ticket.ticket_id);
                        }
                        lemma_ticket_at(self.tickets@, i as int);
                        assert forall|other: i32| other != ticket_id implies #[trigger] spec_stage(
                            self.tickets@,
                            other,
                        ) == spec_stage(prev, other) by {
                            Self::lemma_update_other(prev, self.tickets@, i as int, other);
                        }
                    }
                    true
                } else {
                    false
                }
            },
            None => false,
        }
    }

    /// The open orders of one eater, each with its caterer: exactly the
    /// tickets below stage five, in storage order.
    pub fn eater_ticket_info(&self, eater_id: i32) -> (r: TicketInfo)
        requires
            self.wf(),
        ensures
            r@ == open_infos(self.tickets@, eater_id, true),
    {
        let mut r: Vec<(i32, Ticket)> = Vec::new();
        let n = self.tickets.len();
        let mut i: usize = 0;
        while i < n
            invariant
                i <= n,
                n == self.tickets@.len(),
                r@ == open_infos(self.tickets@.subrange(0, i as int), eater_id, true),
            decreases n - i,
        {
            let ghost pre = self.tickets@.subrange(0, i as int);
            let two = self.tickets[i];
            if two.eater_id == eater_id && two.ticket.stage < 5 {
                r.push((two.caterer_id, two.ticket));
            }
            proof {
                let cur = self.tickets@.subrange(0, i as int + 1);
                assert(cur.drop_last() =~= pre);
                assert(cur.last() == two);
            }
            i += 1;
        }
        proof {
            assert(self.tickets@.subrange(0, n as int) =~= self.tickets@);
        }
        r
    }

    /// The open orders of one caterer, each with its eater: exactly the
    /// tickets below stage five, in storage order.
    pub fn caterer_ticket_info(&self, caterer_id: i32) -> (r: TicketInfo)
        requires
            self.wf(),
        ensures
            r@ == open_infos(self.tickets@, caterer_id, false),
    {
        let mut r: Vec<(i32, Ticket)> = Vec::new();
        let n = self.tickets.len();
        let mut i: usize = 0;
        while i < n
            invariant
                i <= n,
                n == self.tickets@.len(),
                r@ == open_infos(self.tickets@.subrange(0, i as int), caterer_id, false),
            decreases n - i,
        {
            let ghost pre = self.tickets@.subrange(0, i as int);
            let two = self.tickets[i];
            if two.caterer_id == caterer_id && two.ticket.stage < 5 {
                r.push((two.eater_id, two.ticket));
            }
            proof {
                let cur = self.tickets@.subrange(0, i as int + 1);
                assert(cur.drop_last() =~= pre);
                assert(cur.last() == two);
            }
            i += 1;
        }
        proof {
            assert(self.tickets@.subrange(0, n as int) =~= self.tickets@);
        }
        r
    }
}

/// The non-terminal tickets of one party, paired with the other party's id:
/// for an eater the caterer's, for a caterer the eater's.
pub open spec fn open_infos(s: Seq<TicketWithOwners>, party: i32, party_is_eater: bool) -> Seq<
    (i32, Ticket),
>
    decreases s.len(),
{
    if s.len() == 0 {
        Seq::empty()
    } else {
        let rest = open_infos(s.drop_last(), party, party_is_eater);
        let t = s.last();
        let mine = if party_is_eater {
            t.eater_id == party
        } else {
            t.caterer_id == party
        };
        if mine && t.ticket.stage < 5 {
            rest.push((if party_is_eater { t.caterer_id } else { t.eater_id }, t.ticket))
        } else {
            rest
        }
    }
}

/// The lifecycle laws of a single ticket: an advance never lowers the
/// stage; cancel forces stage six exactly from the non-terminal stages; and
/// from a terminal stage neither an advance nor a cancel succeeds or changes
/// anything. At stage four an advance by the caterer is refused and one by
/// anyone else completes the order.
pub proof fn lemma_stage_lifecycle(stage: int, caterer_id: int, actor_id: int)
    requires
        1 <= stage <= 6,
    ensures
        spec_advance_stage(stage, caterer_id, actor_id) >= stage,
        stage < 5 ==> spec_cancel_stage(stage) == 6,
        stage >= 5 ==> spec_cancel_stage(stage) == stage,
        stage >= 5 ==> spec_advance_stage(stage, caterer_id, actor_id) == stage && !spec_advance_ok(
            stage,
            caterer_id,
            actor_id,
        ),
        stage == 4 && actor_id == caterer_id ==> spec_advance_stage(stage, caterer_id, actor_id)
            == 4 && !spec_advance_ok(stage, caterer_id, actor_id),
        stage == 4 && actor_id != caterer_id ==> spec_advance_stage(stage, caterer_id, actor_id)
            == 5,
{
}

} // verus!
