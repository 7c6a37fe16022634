//! The user records: display name, contact, delivery address, the last-seen
//! stamp and two preferences. One record per user id, created on first
//! contact and updated on every turn.

use vstd::prelude::*;
use crate::digits::{dec_int, parse_i32_spec, i32_to_string, parse_i32};
use crate::strutil::{has_prefix, starts_with, suffix_from};

verus! {

/// What the transport layer knows about the person talking to the bot.
#[derive(Clone, Debug)]
pub struct UserContact {
    pub id: i32,
    pub first_name: String,
    pub last_name: Option<String>,
    pub username: Option<String>,
    pub language_code: Option<String>,
}

/// The display name a fresh record gets: the first name, and the last name
/// after a space when there is one.
pub open spec fn display_name(u: UserContact) -> Seq<char> {
    match u.last_name {
        Some(ln) => u.first_name@ + " "@ + ln@,
        None => u.first_name@,
    }
}

/// The contact a fresh record gets: the @-handle when there is one, a dash
/// otherwise.
pub open spec fn default_contact(u: UserContact) -> Seq<char> {
    match u.username {
        Some(un) => " @"@ + un@,
        None => "-"@,
    }
}

/// One user's stored record. `last_seen` is a caller-supplied timestamp;
/// `compact` picks text links over buttons; `pickup` skips the address.
#[derive(Clone, Debug)]
pub struct UserRecord {
    pub user_id: i32,
    pub user_name: String,
    pub contact: String,
    pub address: String,
    pub last_seen: i64,
    pub compact: bool,
    pub pickup: bool,
}

/// What the basket view shows of a user.
#[derive(Clone, Debug)]
pub struct UserBasketInfo {
    pub name: String,
    pub contact: String,
    pub address: String,
    pub pickup: bool,
}

impl UserBasketInfo {
    /// The address line: a stored location reference shows as a fixed label,
    /// anything else as itself.
    pub fn address_label(&self) -> (r: String)
        ensures
            has_prefix(self.address@, "Location"@) ==> r@ == "на карте"@,
            !has_prefix(self.address@, "Location"@) ==> r@ == self.address@,
    {
        if starts_with(self.address.as_str(), "Location") {
            String::from_str("на карте")
        } else {
            self.address.clone()
        }
    }

    /// The message id of a stored location, when the address holds one.
    pub fn address_message_id(&self) -> (r: Option<i32>)
        ensures
            r is Some <==> has_prefix(self.address@, "Location"@) && parse_i32_spec(
                self.address@.skip(8),
            ) is Some,
            r is Some ==> r->0 as int == parse_i32_spec(self.address@.skip(8))->0,
    {
        proof {
            reveal_strlit("Location");
        }
        if starts_with(self.address.as_str(), "Location") {
            parse_i32(suffix_from(self.address.as_str(), 8))
        } else {
            None
        }
    }
}

/// Whether some record carries the user id.
pub open spec fn has_user(s: Seq<UserRecord>, id: i32) -> bool {
    exists|i: int| 0 <= i < s.len() && (#[trigger] s[i]).user_id == id
}

/// The position of the record with the user id.
pub open spec fn user_idx(s: Seq<UserRecord>, id: i32) -> int {
    choose|i: int| 0 <= i < s.len() && (#[trigger] s[i]).user_id == id
}

/// The record with the user id; meaningful only under `has_user`.
pub open spec fn user_at(s: Seq<UserRecord>, id: i32) -> UserRecord {
    s[user_idx(s, id)]
}

/// The user table: one record per user id.
pub struct UserStore {
    pub users: Vec<UserRecord>,
}

impl UserStore {
    /// User ids are distinct.
    pub open spec fn wf(self) -> bool {
        forall|i: int, j: int|
            0 <= i < j < self.users@.len() ==> (#[trigger] self.users@[i]).user_id != (
            #[trigger] self.users@[j]).user_id
    }

    /// An empty table.
    pub fn new() -> (r: UserStore)
        ensures
            r.wf(),
            r.users@ == Seq::<UserRecord>::empty(),
    {
        UserStore { users: Vec::new() }
    }

    fn find(&self, user_id: i32) -> (r: Option<usize>)
        requires
            self.wf(),
        ensures
            match r {
                Some(i) => i < self.users@.len() && self.users@[i as int].user_id == user_id
                    && has_user(self.users@, user_id) && user_idx(self.users@, user_id) == i,
                None => !has_user(self.users@, user_id),
            },
    {
        let n = self.users.len();
        let mut i: usize = 0;
        while i < n
            invariant
                i <= n,
                n == self.users@.len(),
                self.wf(),
                forall|j: int| 0 <= j < i ==> (#[trigger] self.users@[j]).user_id != user_id,
            decreases n - i,
        {
            if self.users[i].user_id == user_id {
                proof {
                    assert(has_user(self.users@, user_id));
                    let j = user_idx(self.users@, user_id);
                    assert(0 <= j < self.users@.len() && self.users@[j].user_id == user_id);
                    if j != i as int {
                        assert(false);
                    }
                }
                return Some(i);
            }
            i += 1;
        }
        None
    }


    /// The stored interface preference, read without stamping; buttons for
    /// anyone unknown.
    pub fn compact_of(&self, user_id: i32) -> (r: bool)
        requires
            self.wf(),
        ensures
            r == (has_user(self.users@, user_id) && user_at(self.users@, user_id).compact),
    {
        match self.find(user_id) {
            Some(i) => self.users[i].compact,
            None => false,
        }
    }

    /// Stamps the user's last visit, creating the record on first contact
    /// with defaults (no address, buttons, pickup). True exactly when the
    /// record already existed.
    pub fn user_update_last_seen(&mut self, user: Option<&UserContact>, now: i64) -> (r: bool)
        requires
            old(self).wf(),
        ensures
            final(self).wf(),
            user is None ==> !r && *final(self) == *old(self),
            user is Some ==> {
                &&& r <==> has_user(old(self).users@, user->0.id)
                &&& r ==> final(self).users@ =~= old(self).users@.update(
                    user_idx(old(self).users@, user->0.id),
                    (UserRecord {
                        last_seen: now,
                        ..user_at(old(self).users@, user->0.id)
                    }),
                )
                &&& !r ==> {
                    &&& final(self).users@.len() == old(self).users@.len() + 1
                    &&& forall|i: int|
                        0 <= i < old(self).users@.len() ==> final(self).users@[i]
                            == #[trigger] old(self).users@[i]
                    &&& final(self).users@.last() == (UserRecord {
                        user_id: user->0.id,
                        user_name: final(self).users@.last().user_name,
                        contact: final(self).users@.last().contact,
                        address: final(self).users@.last().address,
                        last_seen: now,
                        compact: false,
                        pickup: true,
                    })
                    &&& final(self).users@.last().user_name@ == display_name(*user->0)
                    &&& final(self).users@.last().contact@ == default_contact(*user->0)
                    &&& final(self).users@.last().address@ == "-"@
                }
            },
    {
        let u = match user {
            Some(u) => u,
            None => {
                return false;
            },
        };
        match self.find(u.id) {
            Some(i) => {
                let e = &mut self.users[i];
                e.last_seen = now;
                proof {
                    assert forall|a: int, b: int|
                        0 <= a < b < self.users@.len() implies (
                    #[trigger] self.users@[a]).user_id != (#[trigger] self.users@[b]).user_id by {
                        assert(self.users@[a].user_id == old(self).users@[a].user_id);
                        assert(self.users@[b].user_id == old(self).users@[b].user_id);
                    }
                }
                true
            },
            None => {
                let mut name = u.first_name.clone();
                match &u.last_name {
                    Some(ln) => {
                        name.append(" ");
                        name.append(ln.as_str());
                    },
                    None => {},
                }
                let contact = match &u.username {
                    Some(un) => {
                        let mut c = String::from_str(" @");
                        c.append(un.as_str());
                        c
                    },
                    None => String::from_str("-"),
                };
                proof {
                    reveal_strlit(" ");
                    assert(name@ =~= display_name(*u));
                }
                let record = UserRecord {
                    user_id: u.id,
                    user_name: name,
                    contact,
                    address: String::from_str("-"),
                    last_seen: now,
                    compact: false,
                    pickup: true,
                };
                self.users.push(record);
                proof {
                    assert forall|a: int, b: int|
                        0 <= a < b < self.users@.len() implies (
                    #[trigger] self.users@[a]).user_id != (#[trigger] self.users@[b]).user_id by {
                        if b < self.users@.len() - 1 {
                            assert(self.users@[a] == old(self).users@[a]);
                            assert(self.users@[b] == old(self).users@[b]);
                        } else {
                            assert(self.users@[a] == old(self).users@[a]);
                        }
                    }
                }
                false
            },
        }
    }

    /// Stamps the visit and reads the interface preference: text links when
    /// the user asked for them, buttons for anyone new or unknown.
    pub fn user_compact_interface(&mut self, user: Option<&UserContact>, now: i64) -> (r: bool)
        requires
            old(self).wf(),
        ensures
            final(self).wf(),
            user is Some && has_user(old(self).users@, user->0.id) ==> r == user_at(
                old(self).users@,
                user->0.id,
            ).compact,
            !(user is Some && has_user(old(self).users@, user->0.id)) ==> !r,
    {
        let existed = self.user_update_last_seen(user, now);
        if existed {
            if let Some(u) = user {
                match self.find(u.id) {
                    Some(i) => {
                        proof {
                            let oi = user_idx(old(self).users@, u.id);
                            assert(self.users@[user_idx(self.users@, u.id)].compact == user_at(
                                old(self).users@,
                                u.id,
                            ).compact);
                        }
                        return self.users[i].compact;
                    },
                    None => {
                        proof {
                            let oi = user_idx(old(self).users@, u.id);
                            assert((#[trigger] self.users@[oi]).user_id == u.id);
                            assert(has_user(self.users@, u.id));
                        }
                        return false;
                    },
                }
            }
        }
        false
    }

    /// Flips the user's interface preference, when the record exists.
    pub fn user_toggle_interface(&mut self, user: Option<&UserContact>)
        requires
            old(self).wf(),
        ensures
            final(self).wf(),
            user is Some && has_user(old(self).users@, user->0.id) ==> final(self).users@
                =~= old(self).users@.update(
                user_idx(old(self).users@, user->0.id),
                (UserRecord {
                    compact: !user_at(old(self).users@, user->0.id).compact,
                    ..user_at(old(self).users@, user->0.id)
                }),
            ),
            !(user is Some && has_user(old(self).users@, user->0.id)) ==> *final(self) == *old(
                self,
            ),
    {
        if let Some(u) = user {
            match self.find(u.id) {
                Some(i) => {
                    let e = &mut self.users[i];
                    e.compact = !e.compact;
                    proof {
                        assert forall|a: int, b: int|
                            0 <= a < b < self.users@.len() implies (
                        #[trigger] self.users@[a]).user_id != (
                        #[trigger] self.users@[b]).user_id by {
                            assert(self.users@[a].user_id == old(self).users@[a].user_id);
                            assert(self.users@[b].user_id == old(self).users@[b].user_id);
                        }
                    }
                },
                None => {},
            }
        }
    }

    /// What the basket view needs of one user.
    pub fn user_basket_info(&self, user_id: i32) -> (r: Option<UserBasketInfo>)
        requires
            self.wf(),
        ensures
            r is Some <==> has_user(self.users@, user_id),
            r is Some ==> {
                &&& r->0.name == user_at(self.users@, user_id).user_name
                &&& r->0.contact == user_at(self.users@, user_id).contact
                &&& r->0.address == user_at(self.users@, user_id).address
                &&& r->0.pickup == user_at(self.users@, user_id).pickup
            },
    {
        match self.find(user_id) {
            Some(i) => {
                let u = &self.users[i];
                Some(
                    UserBasketInfo {
                        name: u.user_name.clone(),
                        contact: u.contact.clone(),
                        address: u.address.clone(),
                        pickup: u.pickup,
                    },
                )
            },
            None => None,
        }
    }

    /// The user's stored name, or a stock phrase for an unknown id.
    pub fn user_name_by_id(&self, user_id: i32) -> (r: String)
        requires
            self.wf(),
        ensures
            has_user(self.users@, user_id) ==> r == user_at(self.users@, user_id).user_name,
            !has_user(self.users@, user_id) ==> r@ == "Неизвестное имя"@,
    {
        match self.find(user_id) {
            Some(i) => self.users[i].user_name.clone(),
            None => String::from_str("Неизвестное имя"),
        }
    }

    /// Renames a user. Always reported as done: a missing record is simply
    /// an update of nothing, as the unchecked store write behaved.
    pub fn basket_edit_name(&mut self, user_id: i32, s: String) -> (r: bool)
        requires
            old(self).wf(),
        ensures
            final(self).wf(),
            r,
            has_user(old(self).users@, user_id) ==> final(self).users@ =~= old(
                self,
            ).users@.update(
                user_idx(old(self).users@, user_id),
                (UserRecord { user_name: s, ..user_at(old(self).users@, user_id) }),
            ),
            !has_user(old(self).users@, user_id) ==> *final(self) == *old(self),
    {
        match self.find(user_id) {
            Some(i) => {
                let e = &mut self.users[i];
                e.user_name = s;
                proof {
                    assert forall|a: int, b: int|
                        0 <= a < b < self.users@.len() implies (
                    #[trigger] self.users@[a]).user_id != (#[trigger] self.users@[b]).user_id by {
                        assert(self.users@[a].user_id == old(self).users@[a].user_id);
                        assert(self.users@[b].user_id == old(self).users@[b].user_id);
                    }
                }
                true
            },
            None => true,
        }
    }

    /// Rewrites a user's contact line.
    pub fn basket_edit_contact(&mut self, user_id: i32, s: String) -> (r: bool)
        requires
            old(self).wf(),
        ensures
            final(self).wf(),
            r,
            has_user(old(self).users@, user_id) ==> final(self).users@ =~= old(
                self,
            ).users@.update(
                user_idx(old(self).users@, user_id),
                (UserRecord { contact: s, ..user_at(old(self).users@, user_id) }),
            ),
            !has_user(old(self).users@, user_id) ==> *final(self) == *old(self),
    {
        match self.find(user_id) {
            Some(i) => {
                let e = &mut self.users[i];
                e.contact = s;
                proof {
                    assert forall|a: int, b: int|
                        0 <= a < b < self.users@.len() implies (
                    #[trigger] self.users@[a]).user_id != (#[trigger] self.users@[b]).user_id by {
                        assert(self.users@[a].user_id == old(self).users@[a].user_id);
                        assert(self.users@[b].user_id == old(self).users@[b].user_id);
                    }
                }
                true
            },
            None => true,
        }
    }

    /// Rewrites a user's delivery address.
    pub fn basket_edit_address(&mut self, user_id: i32, s: String) -> (r: bool)
        requires
            old(self).wf(),
        ensures
            final(self).wf(),
            r,
            has_user(old(self).users@, user_id) ==> final(self).users@ =~= old(
                self,
            ).users@.update(
                user_idx(old(self).users@, user_id),
                (UserRecord { address: s, ..user_at(old(self).users@, user_id) }),
            ),
            !has_user(old(self).users@, user_id) ==> *final(self) == *old(self),
    {
        match self.find(user_id) {
            Some(i) => {
                let e = &mut self.users[i];
                e.address = s;
                proof {
                    assert forall|a: int, b: int|
                        0 <= a < b < self.users@.len() implies (
                    #[trigger] self.users@[a]).user_id != (#[trigger] self.users@[b]).user_id by {
                        assert(self.users@[a].user_id == old(self).users@[a].user_id);
                        assert(self.users@[b].user_id == old(self).users@[b].user_id);
                    }
                }
                true
            },
            None => true,
        }
    }

    /// Flips pickup against delivery.
    pub fn basket_toggle_pickup(&mut self, user_id: i32) -> (r: bool)
        requires
            old(self).wf(),
        ensures
            final(self).wf(),
            r,
            has_user(old(self).users@, user_id) ==> final(self).users@ =~= old(
                self,
            ).users@.update(
                user_idx(old(self).users@, user_id),
                (UserRecord {
                    pickup: !user_at(old(self).users@, user_id).pickup,
                    ..user_at(old(self).users@, user_id)
                }),
            ),
            !has_user(old(self).users@, user_id) ==> *final(self) == *old(self),
    {
        match self.find(user_id) {
            Some(i) => {
                let e = &mut self.users[i];
                e.pickup = !e.pickup;
                proof {
                    assert forall|a: int, b: int|
                        0 <= a < b < self.users@.len() implies (
                    #[trigger] self.users@[a]).user_id != (#[trigger] self.users@[b]).user_id by {
                        assert(self.users@[a].user_id == old(self).users@[a].user_id);
                        assert(self.users@[b].user_id == old(self).users@[b].user_id);
                    }
                }
                true
            },
            None => true,
        }
    }
}

/// The optional tail of a log line about a user: last name, handle and
/// language, each when present.
pub open spec fn optional_part_str(u: UserContact) -> Seq<char> {
    (match u.last_name {
        Some(ln) => " "@ + ln@,
        None => Seq::<char>::empty(),
    }) + (match u.username {
        Some(un) => " @"@ + un@,
        None => Seq::<char>::empty(),
    }) + (match u.language_code {
        Some(lc) => " lang="@ + lc@,
        None => Seq::<char>::empty(),
    })
}

fn user_info_optional_part(user: &UserContact) -> (r: String)
    ensures
        r@ == optional_part_str(*user),
{
    let mut s = String::new();
    proof {
        reveal_strlit(" ");
        reveal_strlit(" @");
        reveal_strlit(" lang=");
    }
    match &user.last_name {
        Some(ln) => {
            s.append(" ");
            s.append(ln.as_str());
        },
        None => {},
    }
    match &user.username {
        Some(un) => {
            s.append(" @");
            s.append(un.as_str());
        },
        None => {},
    }
    match &user.language_code {
        Some(lc) => {
            s.append(" lang=");
            s.append(lc.as_str());
        },
        None => {},
    }
    proof {
        assert(s@ =~= optional_part_str(*user));
    }
    s
}

/// The log line about a user: id and first name, and under `detail` the
/// last name, handle and language too.
pub fn user_info(user: Option<&UserContact>, detail: bool) -> (r: String)
    ensures
        user is None ==> r@ == "None user info"@,
        user is Some ==> r@ == dec_int(user->0.id as int) + ":"@ + user->0.first_name@ + if detail {
            optional_part_str(*user->0)
        } else {
            Seq::<char>::empty()
        },
{
    match user {
        Some(u) => {
            let mut s = i32_to_string(u.id);
            s.append(":");
            s.append(u.first_name.as_str());
            if detail {
                s.append(user_info_optional_part(u).as_str());
            }
            proof {
                reveal_strlit(":");
                assert(s@ =~= dec_int(u.id as int) + ":"@ + u.first_name@ + if detail {
                    optional_part_str(*u)
                } else {
                    Seq::<char>::empty()
                });
            }
            s
        },
        None => String::from_str("None user info"),
    }
}

} // verus!
