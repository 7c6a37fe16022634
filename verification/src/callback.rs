//! The inline-button turns: payloads of a three-letter opcode followed by an
//! `A_B_C` key. These are the turns two parties can race on — basket taps,
//! checkout, and the two ticket moves — so every mutation here is a guarded
//! conditional step whose failure reports back instead of corrupting state.

use vstd::prelude::*;
use crate::basket::{map_add, map_amount, map_remove_one};
use crate::catalog::RestBy;
use crate::keys::{parse_key3_spec, parse_key_3_int};
use crate::strutil::{has_prefix, starts_with, suffix_from};
use crate::tickets::{
    has_ticket, ticket_at, spec_stage, spec_advance_ok, spec_advance_stage, spec_cancel_stage,
};
use crate::transition::World;

verus! {

/// A parsed callback payload.
#[derive(Copy, Clone, PartialEq, Eq, Structural, Debug)]
pub enum Callback {
    /// `add`: one more portion of the keyed dish.
    AddDish(i32, i32, i32),
    /// `del`: one portion fewer.
    RemoveDish(i32, i32, i32),
    /// `bas`: check the basket out to the caterer with the user id.
    Checkout(i32),
    /// `bca`: cancel the ticket.
    CancelTicket(i32),
    /// `bne`: advance the ticket one stage.
    NextStage(i32),
    /// `grc`: show the groups of (restaurant, category).
    ShowGroupsOfCategory(i32, i32),
    /// `rrg`: back to the restaurants of (restaurant, category).
    ReturnToRests(i32, i32),
    /// `rrd`: back to the dishes of (restaurant, group).
    ReturnToDishes(i32, i32),
    /// `dis`: show one dish.
    ShowDish(i32, i32, i32),
    /// `rng`: show the groups of a restaurant open now.
    ShowGroupsNow(i32),
    UnknownCommand,
}

/// What a callback payload stands for: a three-letter opcode, then a
/// three-integer key; a malformed key refuses the payload.
pub open spec fn spec_callback(s: Seq<char>) -> Callback {
    if has_prefix(s, "add"@) {
        match parse_key3_spec(s.skip(3)) {
            Some((a, b, c)) => Callback::AddDish(a as i32, b as i32, c as i32),
            None => Callback::UnknownCommand,
        }
    } else if has_prefix(s, "del"@) {
        match parse_key3_spec(s.skip(3)) {
            Some((a, b, c)) => Callback::RemoveDish(a as i32, b as i32, c as i32),
            None => Callback::UnknownCommand,
        }
    } else if has_prefix(s, "bas"@) {
        match parse_key3_spec(s.skip(3)) {
            Some((a, _, _)) => Callback::Checkout(a as i32),
            None => Callback::UnknownCommand,
        }
    } else if has_prefix(s, "bca"@) {
        match parse_key3_spec(s.skip(3)) {
            Some((a, _, _)) => Callback::CancelTicket(a as i32),
            None => Callback::UnknownCommand,
        }
    } else if has_prefix(s, "bne"@) {
        match parse_key3_spec(s.skip(3)) {
            Some((a, _, _)) => Callback::NextStage(a as i32),
            None => Callback::UnknownCommand,
        }
    } else if has_prefix(s, "grc"@) {
        match parse_key3_spec(s.skip(3)) {
            Some((a, b, _)) => Callback::ShowGroupsOfCategory(a as i32, b as i32),
            None => Callback::UnknownCommand,
        }
    } else if has_prefix(s, "rrg"@) {
        match parse_key3_spec(s.skip(3)) {
            Some((a, b, _)) => Callback::ReturnToRests(a as i32, b as i32),
            None => Callback::UnknownCommand,
        }
    } else if has_prefix(s, "rrd"@) {
        match parse_key3_spec(s.skip(3)) {
            Some((a, b, _)) => Callback::ReturnToDishes(a as i32, b as i32),
            None => Callback::UnknownCommand,
        }
    } else if has_prefix(s, "dis"@) {
        match parse_key3_spec(s.skip(3)) {
            Some((a, b, c)) => Callback::ShowDish(a as i32, b as i32, c as i32),
            None => Callback::UnknownCommand,
        }
    } else if has_prefix(s, "rng"@) {
        match parse_key3_spec(s.skip(3)) {
            Some((a, _, _)) => Callback::ShowGroupsNow(a as i32),
            None => Callback::UnknownCommand,
        }
    } else {
        Callback::UnknownCommand
    }
}

impl Callback {
    /// Parses a callback payload.
    pub fn from(data: &str) -> (r: Callback)
        ensures
            r == spec_callback(data@),
    {
        proof {
            reveal_strlit("add");
            reveal_strlit("del");
            reveal_strlit("bas");
            reveal_strlit("bca");
            reveal_strlit("bne");
            reveal_strlit("grc");
            reveal_strlit("rrg");
            reveal_strlit("rrd");
            reveal_strlit("dis");
            reveal_strlit("rng");
        }
        if starts_with(data, "add") {
            match parse_key_3_int(suffix_from(data, 3)) {
                Ok((a, b, c)) => Callback::AddDish(a, b, c),
                Err(_) => Callback::UnknownCommand,
            }
        } else if starts_with(data, "del") {
            match parse_key_3_int(suffix_from(data, 3)) {
                Ok((a, b, c)) => Callback::RemoveDish(a, b, c),
                Err(_) => Callback::UnknownCommand,
            }
        } else if starts_with(data, "bas") {
            match parse_key_3_int(suffix_from(data, 3)) {
                Ok((a, _, _)) => Callback::Checkout(a),
                Err(_) => Callback::UnknownCommand,
            }
        } else if starts_with(data, "bca") {
            match parse_key_3_int(suffix_from(data, 3)) {
                Ok((a, _, _)) => Callback::CancelTicket(a),
                Err(_) => Callback::UnknownCommand,
            }
        } else if starts_with(data, "bne") {
            match parse_key_3_int(suffix_from(data, 3)) {
                Ok((a, _, _)) => Callback::NextStage(a),
                Err(_) => Callback::UnknownCommand,
            }
        } else if starts_with(data, "grc") {
            match parse_key_3_int(suffix_from(data, 3)) {
                Ok((a, b, _)) => Callback::ShowGroupsOfCategory(a, b),
                Err(_) => Callback::UnknownCommand,
            }
        } else if starts_with(data, "rrg") {
            match parse_key_3_int(suffix_from(data, 3)) {
                Ok((a, b, _)) => Callback::ReturnToRests(a, b),
                Err(_) => Callback::UnknownCommand,
            }
        } else if starts_with(data, "rrd") {
            match parse_key_3_int(suffix_from(data, 3)) {
                Ok((a, b, _)) => Callback::ReturnToDishes(a, b),
                Err(_) => Callback::UnknownCommand,
            }
        } else if starts_with(data, "dis") {
            match parse_key_3_int(suffix_from(data, 3)) {
                Ok((a, b, c)) => Callback::ShowDish(a, b, c),
                Err(_) => Callback::UnknownCommand,
            }
        } else if starts_with(data, "rng") {
            match parse_key_3_int(suffix_from(data, 3)) {
                Ok((a, _, _)) => Callback::ShowGroupsNow(a),
                Err(_) => Callback::UnknownCommand,
            }
        } else {
            Callback::UnknownCommand
        }
    }
}

/// What a callback turn reports back to its sender.
#[derive(Copy, Clone, PartialEq, Eq, Structural, Debug)]
pub enum CallbackOutcome {
    /// A portion was added; the new count.
    Added(i32),
    /// A portion was taken away; the new count.
    Removed(i32),
    /// The count could not grow any further.
    AddFailed,
    /// The basket became a ticket.
    CheckoutDone,
    /// No ticket id was free; nothing changed.
    CheckoutFailed,
    /// The guarded stage update went through.
    StageChanged,
    /// The guarded stage update hit a ticket already terminal; reported, not
    /// retried.
    StageUnchanged,
    /// The sender is neither the eater nor the caterer of the ticket.
    PermissionDenied,
    /// The ticket no longer exists.
    TicketNotFound,
    /// A read-only browse request, handed back for rendering.
    Show(Callback),
    UnknownCallback,
}

/// The restaurant of a caterer, by owner id, enabled or not — what a
/// checkout joins the basket against.
pub open spec fn owner_rest(w: World, caterer_id: i32) -> Option<i32> {
    if w.catalog.has_owner(caterer_id) {
        Some(w.catalog.rests@[w.catalog.owner_idx(caterer_id)].rest.num)
    } else {
        None
    }
}

/// One callback turn. Basket taps are single conditional steps on the
/// ledger; checkout clears the eater's lines for the caterer's restaurant
/// and inserts the stage-one ticket as one step; the two ticket moves are
/// role-gated guarded updates, and a stale one reports failure.
pub fn handle_callback(
    world: &mut World,
    user_id: i32,
    data: &str,
    eater_msg_id: i32,
    caterer_msg_id: i32,
) -> (r: CallbackOutcome)
    requires
        old(world).wf(),
    ensures
        final(world).wf(),
        final(world).settings == old(world).settings,
        final(world).catalog.rests@ == old(world).catalog.rests@,
        final(world).users.users@ == old(world).users.users@,
        final(world).sessions.sessions@ == old(world).sessions.sessions@,
        match spec_callback(data@) {
            Callback::AddDish(a, b, c) => {
                let k = (a, b, c, user_id);
                &&& final(world).tickets.tickets@ == old(world).tickets.tickets@
                &&& if map_amount(old(world).baskets@, k) < i32::MAX {
                    r == CallbackOutcome::Added((map_amount(old(world).baskets@, k) + 1) as i32)
                        && final(world).baskets@ == map_add(old(world).baskets@, k)
                } else {
                    r == CallbackOutcome::AddFailed && final(world).baskets@ == old(world).baskets@
                }
            },
            Callback::RemoveDish(a, b, c) => {
                let k = (a, b, c, user_id);
                &&& final(world).tickets.tickets@ == old(world).tickets.tickets@
                &&& final(world).baskets@ == map_remove_one(old(world).baskets@, k)
                &&& r == CallbackOutcome::Removed(
                    (if map_amount(old(world).baskets@, k) > 1 {
                        map_amount(old(world).baskets@, k) - 1
                    } else {
                        0
                    }) as i32,
                )
            },
            Callback::Checkout(cid) => {
                if old(world).tickets.next_id < i32::MAX {
                    &&& r == CallbackOutcome::CheckoutDone
                    &&& final(world).tickets.tickets@.len() == old(world).tickets.tickets@.len()
                        + 1
                    &&& final(world).tickets.tickets@.last().eater_id == user_id
                    &&& final(world).tickets.tickets@.last().caterer_id == cid
                    &&& final(world).tickets.tickets@.last().ticket.stage == 1
                    &&& final(world).tickets.tickets@.last().ticket.ticket_id
                        == old(world).tickets.next_id
                    &&& forall|i: int|
                        0 <= i < old(world).tickets.tickets@.len()
                            ==> final(world).tickets.tickets@[i]
                            == #[trigger] old(world).tickets.tickets@[i]
                    &&& (match owner_rest(*old(world), cid) {
                        Some(rn) => (forall|k: (i32, i32, i32, i32)|
                            (k.3 == user_id && k.0 == rn) ==> #[trigger] map_amount(
                                final(world).baskets@,
                                k,
                            ) == 0) && (forall|k: (i32, i32, i32, i32)|
                            !(k.3 == user_id && k.0 == rn) ==> #[trigger] map_amount(
                                final(world).baskets@,
                                k,
                            ) == map_amount(old(world).baskets@, k)),
                        None => final(world).baskets@ == old(world).baskets@,
                    })
                } else {
                    r == CallbackOutcome::CheckoutFailed && final(world).baskets@
                        == old(world).baskets@ && final(world).tickets.tickets@
                        == old(world).tickets.tickets@
                }
            },
            Callback::CancelTicket(tid) => {
                &&& final(world).baskets@ == old(world).baskets@
                &&& if !has_ticket(old(world).tickets.tickets@, tid) {
                    r == CallbackOutcome::TicketNotFound && final(world).tickets.tickets@ == old(world).tickets.tickets@
                } else if ticket_at(old(world).tickets.tickets@, tid).eater_id != user_id
                    && ticket_at(old(world).tickets.tickets@, tid).caterer_id != user_id {
                    r == CallbackOutcome::PermissionDenied && final(world).tickets.tickets@ == old(world).tickets.tickets@
                } else {
                    &&& spec_stage(final(world).tickets.tickets@, tid) == spec_cancel_stage(
                        spec_stage(old(world).tickets.tickets@, tid),
                    )
                    &&& r == (if spec_stage(old(world).tickets.tickets@, tid) < 5 {
                        CallbackOutcome::StageChanged
                    } else {
                        CallbackOutcome::StageUnchanged
                    })
                    &&& forall|other: i32|
                        other != tid ==> #[trigger] spec_stage(final(world).tickets.tickets@, other)
                            == spec_stage(old(world).tickets.tickets@, other)
                }
            },
            Callback::NextStage(tid) => {
                &&& final(world).baskets@ == old(world).baskets@
                &&& if !has_ticket(old(world).tickets.tickets@, tid) {
                    r == CallbackOutcome::TicketNotFound && final(world).tickets.tickets@ == old(world).tickets.tickets@
                } else if ticket_at(old(world).tickets.tickets@, tid).eater_id != user_id
                    && ticket_at(old(world).tickets.tickets@, tid).caterer_id != user_id {
                    r == CallbackOutcome::PermissionDenied && final(world).tickets.tickets@ == old(world).tickets.tickets@
                } else {
                    &&& spec_stage(final(world).tickets.tickets@, tid) == spec_advance_stage(
                        spec_stage(old(world).tickets.tickets@, tid),
                        ticket_at(old(world).tickets.tickets@, tid).caterer_id as int,
                        user_id as int,
                    )
                    &&& r == (if spec_advance_ok(
                        spec_stage(old(world).tickets.tickets@, tid),
                        ticket_at(old(world).tickets.tickets@, tid).caterer_id as int,
                        user_id as int,
                    ) {
                        CallbackOutcome::StageChanged
                    } else {
                        CallbackOutcome::StageUnchanged
                    })
                    &&& forall|other: i32|
                        other != tid ==> #[trigger] spec_stage(final(world).tickets.tickets@, other)
                            == spec_stage(old(world).tickets.tickets@, other)
                }
            },
            _ => r == (match spec_callback(data@) {
                Callback::UnknownCommand => CallbackOutcome::UnknownCallback,
                cb => CallbackOutcome::Show(cb),
            }) && final(world).baskets@ == old(world).baskets@ && final(world).tickets.tickets@
                == old(world).tickets.tickets@,
        },
{
    match Callback::from(data) {
        Callback::AddDish(a, b, c) => {
            match world.baskets.add_dish_to_basket(a, b, c, user_id) {
                Ok(amount) => CallbackOutcome::Added(amount),
                Err(_) => CallbackOutcome::AddFailed,
            }
        },
        Callback::RemoveDish(a, b, c) => {
            match world.baskets.remove_dish_from_basket(a, b, c, user_id) {
                Ok(amount) => CallbackOutcome::Removed(amount),
                Err(_) => CallbackOutcome::Removed(0),
            }
        },
        Callback::Checkout(cid) => {
            let rest = match world.catalog.restaurant(RestBy::Id(cid)) {
                Some(r2) => Some(r2.num),
                None => None,
            };
            let done = world.tickets.order_to_ticket(
                &mut world.baskets,
                rest,
                user_id,
                cid,
                eater_msg_id,
                caterer_msg_id,
            );
            if done {
                CallbackOutcome::CheckoutDone
            } else {
                CallbackOutcome::CheckoutFailed
            }
        },
        Callback::CancelTicket(tid) => {
            match world.tickets.ticket_with_owners(tid) {
                None => CallbackOutcome::TicketNotFound,
                Some(two) => {
                    if two.eater_id != user_id && two.caterer_id != user_id {
                        CallbackOutcome::PermissionDenied
                    } else {
                        let ok = world.tickets.basket_edit_stage(tid, 6);
                        if ok {
                            CallbackOutcome::StageChanged
                        } else {
                            CallbackOutcome::StageUnchanged
                        }
                    }
                },
            }
        },
        Callback::NextStage(tid) => {
            match world.tickets.ticket_with_owners(tid) {
                None => CallbackOutcome::TicketNotFound,
                Some(two) => {
                    if two.eater_id != user_id && two.caterer_id != user_id {
                        CallbackOutcome::PermissionDenied
                    } else {
                        let ok = world.tickets.basket_next_stage(user_id, tid);
                        if ok {
                            CallbackOutcome::StageChanged
                        } else {
                            CallbackOutcome::StageUnchanged
                        }
                    }
                },
            }
        },
        Callback::ShowGroupsOfCategory(a, b) => CallbackOutcome::Show(
            Callback::ShowGroupsOfCategory(a, b),
        ),
        Callback::ReturnToRests(a, b) => CallbackOutcome::Show(Callback::ReturnToRests(a, b)),
        Callback::ReturnToDishes(a, b) => CallbackOutcome::Show(Callback::ReturnToDishes(a, b)),
        Callback::ShowDish(a, b, c) => CallbackOutcome::Show(Callback::ShowDish(a, b, c)),
        Callback::ShowGroupsNow(a) => CallbackOutcome::Show(Callback::ShowGroupsNow(a)),
        Callback::UnknownCommand => CallbackOutcome::UnknownCallback,
    }
}

} // verus!
