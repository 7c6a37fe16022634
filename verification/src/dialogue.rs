//! The per-user dialogue state: a tagged variant carrying context numbers,
//! one live session per user, overwritten on every turn and never deleted.
//! The compose-message flow saves the state to return to as an explicit
//! side field — a bounded one-level save, not a call stack.

use vstd::prelude::*;

verus! {

/// Where a user stands in the dialogue, with the context the state needs.
#[derive(Copy, Clone, PartialEq, Eq, Structural, Debug)]
pub enum Dialogue {
    /// Nothing has happened yet.
    Start,
    /// The eater's main menu.
    UserMode,
    /// Picking a restaurant inside a category.
    EatRestSelectionMode(i32),
    /// Picking a group: category, restaurant.
    EatRestGroupSelectionMode(i32, i32),
    /// Picking a dish: category, restaurant, group.
    EatRestGroupDishSelectionMode(i32, i32, i32),
    /// Picking a restaurant among those open now.
    EatRestNowSelectionMode,
    /// Picking a group of a restaurant open now.
    EatRestGroupNowSelectionMode(i32),
    /// The caterer's main menu, on one restaurant.
    CatererMode(i32),
    /// Typing a new restaurant title.
    CatEditRestTitle(i32),
    /// Typing a new restaurant description.
    CatEditRestInfo(i32),
    /// Sending a new restaurant picture.
    CatEditRestImage(i32),
    /// Editing one group: restaurant, group.
    CatEditGroup(i32, i32),
    /// Typing the title of a new group.
    CatAddGroup(i32),
    /// Typing a new group title.
    CatEditGroupTitle(i32, i32),
    /// Typing a new group description.
    CatEditGroupInfo(i32, i32),
    /// Picking a new group category.
    CatEditGroupCategory(i32, i32),
    /// Typing a new group working window.
    CatEditGroupTime(i32, i32),
    /// Typing the title of a new dish.
    CatAddDish(i32, i32),
    /// Editing one dish: restaurant, group, dish.
    CatEditDish(i32, i32, i32),
    /// Typing a new dish title.
    CatEditDishTitle(i32, i32, i32),
    /// Typing a new dish description.
    CatEditDishInfo(i32, i32, i32),
    /// Typing the number of the group the dish moves to.
    CatEditDishGroup(i32, i32, i32),
    /// Typing a new dish price.
    CatEditDishPrice(i32, i32, i32),
    /// Sending a new dish picture.
    CatEditDishImage(i32, i32, i32),
    /// The basket view of one user.
    BasketMode(i32),
    /// Typing the delivery name.
    BasketEditName(i32),
    /// Typing the contact line.
    BasketEditContact(i32),
    /// Typing the delivery address.
    BasketEditAddress(i32),
    /// Composing a message: author, addressee caterer.
    MessageToCaterer(i32, i32),
    /// The settings menu.
    GearMode,
}

/// The reply keyboard a response asks the transport to show, or the inline
/// buttons of a dish view carrying its callback key and current amount.
#[derive(Copy, Clone, PartialEq, Eq, Structural, Debug)]
pub enum Keyboard {
    /// The eater's main menu buttons.
    Main,
    /// The caterer's two buttons.
    CatererMain,
    /// The single cancel slash.
    Slash,
    /// Basket and home.
    EaterRest,
    /// Basket, home and one step back.
    EaterGroup,
    /// Basket, home and one step back, at dish depth.
    EaterDish,
    /// Home, refresh and clear.
    BasketBottom,
    /// Home and caterer entry.
    GearBottom,
    /// Location request and cancel.
    Address,
    /// The category names.
    Category,
    /// The plus-one and minus-one buttons of one dish, carrying the key
    /// (restaurant, group, dish) and the amount already in the basket.
    DishInline(i32, i32, i32, i32),
}

/// A dialogue state together with the keyboard to restore with it.
#[derive(Copy, Clone, PartialEq, Eq, Structural, Debug)]
pub struct DialogueState {
    pub d: Dialogue,
    pub m: Keyboard,
}

/// One user's stored session.
#[derive(Copy, Clone, PartialEq, Eq, Structural, Debug)]
pub struct Session {
    pub user_id: i32,
    pub state: Dialogue,
    pub saved: Option<DialogueState>,
}

/// What one turn answers: the text and keyboard for the sender, and at most
/// one side message to another party (addressee, text).
pub struct Response {
    pub text: String,
    pub keyboard: Keyboard,
    pub notify: Option<(i32, String)>,
}

/// Whether some session carries the user id.
pub open spec fn has_session(s: Seq<Session>, user_id: i32) -> bool {
    exists|i: int| 0 <= i < s.len() && (#[trigger] s[i]).user_id == user_id
}

/// The position of the session with the user id.
pub open spec fn session_idx(s: Seq<Session>, user_id: i32) -> int {
    choose|i: int| 0 <= i < s.len() && (#[trigger] s[i]).user_id == user_id
}

/// A user's current dialogue state; a user never seen stands at the start.
pub open spec fn session_state(s: Seq<Session>, user_id: i32) -> Dialogue {
    if has_session(s, user_id) {
        s[session_idx(s, user_id)].state
    } else {
        Dialogue::Start
    }
}

/// A user's saved return state, if a compose flow is open.
pub open spec fn session_saved(s: Seq<Session>, user_id: i32) -> Option<DialogueState> {
    if has_session(s, user_id) {
        s[session_idx(s, user_id)].saved
    } else {
        None
    }
}


/// A saved return state never holds the compose state itself: the save is
/// one level deep by construction.
pub open spec fn saved_ok(saved: Option<DialogueState>) -> bool {
    match saved {
        Some(ds) => !(ds.d matches Dialogue::MessageToCaterer(_, _)),
        None => true,
    }
}

/// The session table: one entry per user, overwritten on every transition.
pub struct SessionStore {
    pub sessions: Vec<Session>,
}

impl SessionStore {
    /// User ids are distinct, and only the compose state holds a saved
    /// return state.
    pub open spec fn wf(self) -> bool {
        &&& forall|i: int, j: int|
            0 <= i < j < self.sessions@.len() ==> (#[trigger] self.sessions@[i]).user_id != (
            #[trigger] self.sessions@[j]).user_id
        &&& forall|i: int|
            0 <= i < self.sessions@.len() ==> ((#[trigger] self.sessions@[i]).state matches Dialogue::MessageToCaterer(_, _) ==> self.sessions@[i].saved is Some)
        &&& forall|i: int|
            0 <= i < self.sessions@.len() ==> saved_ok((#[trigger] self.sessions@[i]).saved)
    }

    /// An empty table.
    pub fn new() -> (r: SessionStore)
        ensures
            r.wf(),
            r.sessions@ == Seq::<Session>::empty(),
    {
        SessionStore { sessions: Vec::new() }
    }

    fn find(&self, user_id: i32) -> (r: Option<usize>)
        requires
            self.wf(),
        ensures
            match r {
                Some(i) => i < self.sessions@.len() && self.sessions@[i as int].user_id == user_id
                    && has_session(self.sessions@, user_id) && session_idx(
                    self.sessions@,
                    user_id,
                ) == i,
                None => !has_session(self.sessions@, user_id),
            },
    {
        let n = self.sessions.len();
        let mut i: usize = 0;
        while i < n
            invariant
                i <= n,
                n == self.sessions@.len(),
                self.wf(),
                forall|j: int| 0 <= j < i ==> (#[trigger] self.sessions@[j]).user_id != user_id,
            decreases n - i,
        {
            if self.sessions[i].user_id == user_id {
                proof {
                    assert(has_session(self.sessions@, user_id));
                    let j = session_idx(self.sessions@, user_id);
                    assert(0 <= j < self.sessions@.len() && self.sessions@[j].user_id == user_id);
                    if j != i as int {
                        assert(false);
                    }
                }
                return Some(i);
            }
            i += 1;
        }
        None
    }

    /// The user's current state and saved return state; the start state for
    /// anyone never seen.
    pub fn get(&self, user_id: i32) -> (r: (Dialogue, Option<DialogueState>))
        requires
            self.wf(),
        ensures
            r.0 == session_state(self.sessions@, user_id),
            r.1 == session_saved(self.sessions@, user_id),
    {
        match self.find(user_id) {
            Some(i) => (self.sessions[i].state, self.sessions[i].saved),
            None => (Dialogue::Start, None),
        }
    }

    /// Overwrites (or creates) the user's session.
    pub fn put(&mut self, user_id: i32, state: Dialogue, saved: Option<DialogueState>)
        requires
            old(self).wf(),
            state matches Dialogue::MessageToCaterer(_, _) ==> saved is Some,
            saved_ok(saved),
        ensures
            final(self).wf(),
            session_state(final(self).sessions@, user_id) == state,
            session_saved(final(self).sessions@, user_id) == saved,
            has_session(final(self).sessions@, user_id),
            forall|u: i32|
                u != user_id ==> #[trigger] session_state(final(self).sessions@, u)
                    == session_state(old(self).sessions@, u) && session_saved(
                    final(self).sessions@,
                    u,
                ) == session_saved(old(self).sessions@, u),
    {
        let entry = Session { user_id, state, saved };
        match self.find(user_id) {
            Some(i) => {
                let ghost prev = self.sessions@;
                self.sessions.set(i, entry);
                proof {
                    assert forall|a: int, b: int|
                        0 <= a < b < self.sessions@.len() implies (
                    #[trigger] self.sessions@[a]).user_id != (
                    #[trigger] self.sessions@[b]).user_id by {
                        assert(self.sessions@[a].user_id == prev[a].user_id);
                        assert(self.sessions@[b].user_id == prev[b].user_id);
                    }
                    assert((#[trigger] self.sessions@[i as int]).user_id == user_id);
                    assert(has_session(self.sessions@, user_id));
                    let j = session_idx(self.sessions@, user_id);
                    if j != i as int {
                        assert(self.sessions@[j].user_id == prev[j].user_id);
                        assert(false);
                    }
                    assert forall|u: i32|
                        u != user_id implies #[trigger] session_state(self.sessions@, u)
                        == session_state(prev, u) && session_saved(self.sessions@, u)
                        == session_saved(prev, u) by {
                        Self::lemma_other_sessions(prev, self.sessions@, i as int, u);
                    }
                }
            },
            None => {
                let ghost prev = self.sessions@;
                self.sessions.push(entry);
                proof {
                    assert forall|a: int, b: int|
                        0 <= a < b < self.sessions@.len() implies (
                    #[trigger] self.sessions@[a]).user_id != (
                    #[trigger] self.sessions@[b]).user_id by {
                        if b < self.sessions@.len() - 1 {
                            assert(self.sessions@[a] == prev[a]);
                            assert(self.sessions@[b] == prev[b]);
                        } else {
                            assert(self.sessions@[a] == prev[a]);
                        }
                    }
                    let n = self.sessions@.len() - 1;
                    assert((#[trigger] self.sessions@[n]).user_id == user_id);
                    assert(has_session(self.sessions@, user_id));
                    let j = session_idx(self.sessions@, user_id);
                    if j != n {
                        assert(self.sessions@[j] == prev[j]);
                        assert(false);
                    }
                    assert forall|u: i32|
                        u != user_id implies #[trigger] session_state(self.sessions@, u)
                        == session_state(prev, u) && session_saved(self.sessions@, u)
                        == session_saved(prev, u) by {
                        if has_session(prev, u) {
                            let k = session_idx(prev, u);
                            assert((#[trigger] self.sessions@[k]) == prev[k]);
                            assert(has_session(self.sessions@, u));
                            let k2 = session_idx(self.sessions@, u);
                            if k2 != k {
                                if k2 == n {
                                    assert(false);
                                } else {
                                    assert(self.sessions@[k2] == prev[k2]);
                                    assert(false);
                                }
                            }
                        } else {
                            if has_session(self.sessions@, u) {
                                let k2 = session_idx(self.sessions@, u);
                                if k2 == n {
                                    assert(false);
                                } else {
                                    assert(self.sessions@[k2] == prev[k2]);
                                    assert(false);
                                }
                            }
                        }
                    }
                }
            },
        }
    }

    /// Two session tables equal but for position `i` agree on every user
    /// whose id is not the one at `i`.
    proof fn lemma_other_sessions(prev: Seq<Session>, cur: Seq<Session>, i: int, u: i32)
        requires
            prev.len() == cur.len(),
            0 <= i < prev.len(),
            forall|j: int| 0 <= j < prev.len() && j != i ==> #[trigger] cur[j] == prev[j],
            cur[i].user_id == prev[i].user_id,
            u != prev[i].user_id,
            forall|a: int, b: int|
                0 <= a < b < prev.len() ==> (#[trigger] prev[a]).user_id != (
                #[trigger] prev[b]).user_id,
            forall|a: int, b: int|
                0 <= a < b < cur.len() ==> (#[trigger] cur[a]).user_id != (
                #[trigger] cur[b]).user_id,
        ensures
            session_state(cur, u) == session_state(prev, u),
            session_saved(cur, u) == session_saved(prev, u),
    {
        if has_session(prev, u) {
            let k = session_idx(prev, u);
            assert(k != i);
            assert((#[trigger] cur[k]) == prev[k]);
            assert(has_session(cur, u));
            let k2 = session_idx(cur, u);
            if k2 != k {
                if k2 == i {
                    assert(false);
                } else {
                    assert(cur[k2] == prev[k2]);
                    assert(false);
                }
            }
        } else {
            if has_session(cur, u) {
                let k2 = session_idx(cur, u);
                if k2 == i {
                    assert(false);
                } else {
                    assert(cur[k2] == prev[k2]);
                    assert(false);
                }
            }
        }
    }
}

} // verus!
