//! The basket ledger: one quantity per (restaurant, group, dish, user) key.
//! A line exists only with a positive amount; a count that reaches zero is
//! deleted, never stored. The ledger is specified as a map from keys to
//! amounts, and every operation is an atomic step on that map.

use vstd::prelude::*;

verus! {

/// One basket entry: a user's current count of one dish.
#[derive(Clone, Copy, PartialEq, Eq, Structural, Debug)]
pub struct BasketLine {
    pub user_id: i32,
    pub rest_num: i32,
    pub group_num: i32,
    pub dish_num: i32,
    pub amount: i32,
}

/// The key of a line: restaurant, group, dish, user.
pub open spec fn line_key(l: BasketLine) -> (i32, i32, i32, i32) {
    (l.rest_num, l.group_num, l.dish_num, l.user_id)
}

/// No two lines share a key.
pub open spec fn distinct_keys(s: Seq<BasketLine>) -> bool {
    forall|i: int, j: int|
        0 <= i < j < s.len() ==> line_key(#[trigger] s[i]) != line_key(#[trigger] s[j])
}

/// The map a sequence of lines stands for.
pub open spec fn lines_map(s: Seq<BasketLine>) -> Map<(i32, i32, i32, i32), i32>
    decreases s.len(),
{
    if s.len() == 0 {
        Map::empty()
    } else {
        lines_map(s.drop_last()).insert(line_key(s.last()), s.last().amount)
    }
}

/// The amount a ledger map holds under `k`, zero when absent.
pub open spec fn map_amount(m: Map<(i32, i32, i32, i32), i32>, k: (i32, i32, i32, i32)) -> int {
    if m.contains_key(k) {
        m[k] as int
    } else {
        0
    }
}

/// A well-formed ledger map: every stored amount is at least one.
pub open spec fn map_wf(m: Map<(i32, i32, i32, i32), i32>) -> bool {
    forall|k: (i32, i32, i32, i32)| m.contains_key(k) ==> #[trigger] m[k] >= 1
}

/// The ledger after one `add` step on key `k`.
pub open spec fn map_add(m: Map<(i32, i32, i32, i32), i32>, k: (i32, i32, i32, i32)) -> Map<
    (i32, i32, i32, i32),
    i32,
> {
    m.insert(k, (map_amount(m, k) + 1) as i32)
}

/// The ledger after one `remove` step on key `k`: a count above one is
/// decremented, a count of one deletes the line, an absent key is left alone.
pub open spec fn map_remove_one(m: Map<(i32, i32, i32, i32), i32>, k: (i32, i32, i32, i32)) -> Map<
    (i32, i32, i32, i32),
    i32,
> {
    if map_amount(m, k) > 1 {
        m.insert(k, (map_amount(m, k) - 1) as i32)
    } else {
        m.remove(k)
    }
}

proof fn lemma_map_index(s: Seq<BasketLine>, i: int)
    requires
        distinct_keys(s),
        0 <= i < s.len(),
    ensures
        lines_map(s).contains_key(line_key(s[i])),
        lines_map(s)[line_key(s[i])] == s[i].amount,
    decreases s.len(),
{
    if i < s.len() - 1 {
        assert(s.drop_last()[i] == s[i]);
        lemma_map_index(s.drop_last(), i);
    }
}

proof fn lemma_map_no_key(s: Seq<BasketLine>, k: (i32, i32, i32, i32))
    requires
        forall|i: int| 0 <= i < s.len() ==> line_key(#[trigger] s[i]) != k,
    ensures
        !lines_map(s).contains_key(k),
    decreases s.len(),
{
    if s.len() > 0 {
        lemma_map_no_key(s.drop_last(), k);
    }
}

proof fn lemma_map_update(s: Seq<BasketLine>, i: int, l: BasketLine)
    requires
        distinct_keys(s),
        0 <= i < s.len(),
        line_key(l) == line_key(s[i]),
    ensures
        lines_map(s.update(i, l)) =~= lines_map(s).insert(line_key(l), l.amount),
    decreases s.len(),
{
    if i == s.len() - 1 {
        assert(s.update(i, l).drop_last() =~= s.drop_last());
        assert(s.update(i, l).last() == l);
    } else {
        assert(s.update(i, l).drop_last() =~= s.drop_last().update(i, l));
        assert(s.drop_last()[i] == s[i]);
        lemma_map_update(s.drop_last(), i, l);
        assert(s.update(i, l).last() == s.last());
        // the two inserted keys differ, so the inserts commute
        assert(line_key(s.last()) != line_key(l));
    }
}

proof fn lemma_map_push(s: Seq<BasketLine>, l: BasketLine)
    ensures
        lines_map(s.push(l)) =~= lines_map(s).insert(line_key(l), l.amount),
{
    assert(s.push(l).drop_last() =~= s);
    assert(s.push(l).last() == l);
}

proof fn lemma_map_remove_idx(s: Seq<BasketLine>, i: int)
    requires
        distinct_keys(s),
        0 <= i < s.len(),
    ensures
        lines_map(s.remove(i)) =~= lines_map(s).remove(line_key(s[i])),
    decreases s.len(),
{
    if i == s.len() - 1 {
        assert(s.remove(i) =~= s.drop_last());
        assert(forall|j: int|
            0 <= j < s.drop_last().len() ==> line_key(#[trigger] s.drop_last()[j]) != line_key(
                s[i],
            ));
        lemma_map_no_key(s.drop_last(), line_key(s[i]));
    } else {
        assert(s.remove(i).drop_last() =~= s.drop_last().remove(i));
        assert(s.drop_last()[i] == s[i]);
        lemma_map_remove_idx(s.drop_last(), i);
        assert(s.remove(i).last() == s.last());
        assert(line_key(s.last()) != line_key(s[i]));
    }
}

/// The per-user, per-dish quantity ledger.
pub struct BasketStore {
    pub lines: Vec<BasketLine>,
}

impl BasketStore {
    /// The ledger as a map from keys to amounts.
    pub open spec fn view(self) -> Map<(i32, i32, i32, i32), i32> {
        lines_map(self.lines@)
    }

    /// Lines carry distinct keys and positive amounts.
    pub open spec fn wf(self) -> bool {
        distinct_keys(self.lines@) && forall|i: int|
            0 <= i < self.lines@.len() ==> (#[trigger] self.lines@[i]).amount >= 1
    }

    /// The current amount under a key, zero when absent.
    pub open spec fn spec_amount(self, k: (i32, i32, i32, i32)) -> int {
        map_amount(self.view(), k)
    }

    /// A line with a zero count is never stored: every amount the ledger
    /// map holds is at least one, so a read amount is never negative.
    pub proof fn lemma_wf_map(self)
        requires
            self.wf(),
        ensures
            map_wf(self.view()),
    {
        assert forall|k: (i32, i32, i32, i32)| self.view().contains_key(k) implies #[trigger] self.view()[k]
            >= 1 by {
            if forall|i: int| 0 <= i < self.lines@.len() ==> line_key(#[trigger] self.lines@[i]) != k {
                lemma_map_no_key(self.lines@, k);
            } else {
                let i = choose|i: int|
                    0 <= i < self.lines@.len() && line_key(#[trigger] self.lines@[i]) == k;
                lemma_map_index(self.lines@, i);
            }
        }
    }

    /// An empty ledger.
    pub fn new() -> (r: BasketStore)
        ensures
            r.wf(),
            r@ == Map::<(i32, i32, i32, i32), i32>::empty(),
    {
        BasketStore { lines: Vec::new() }
    }

    /// The index of the line under a key, if one exists.
    fn find_line(&self, rest_num: i32, group_num: i32, dish_num: i32, user_id: i32) -> (r: Option<
        usize,
    >)
        ensures
            match r {
                Some(i) => i < self.lines@.len() && line_key(self.lines@[i as int]) == (
                    rest_num,
                    group_num,
                    dish_num,
                    user_id,
                ),
                None => forall|i: int|
                    0 <= i < self.lines@.len() ==> line_key(#[trigger] self.lines@[i]) != (
                        rest_num,
                        group_num,
                        dish_num,
                        user_id,
                    ),
            },
    {
        let n = self.lines.len();
        let mut i: usize = 0;
        while i < n
            invariant
                i <= n,
                n == self.lines@.len(),
                forall|j: int|
                    0 <= j < i ==> line_key(#[trigger] self.lines@[j]) != (
                        rest_num,
                        group_num,
                        dish_num,
                        user_id,
                    ),
            decreases n - i,
        {
            let l = &self.lines[i];
            if l.rest_num == rest_num && l.group_num == group_num && l.dish_num == dish_num
                && l.user_id == user_id {
                return Some(i);
            }
            i += 1;
        }
        None
    }

    /// The number of portions of one dish in one user's basket.
    pub fn amount_in_basket(&self, rest_num: i32, group_num: i32, dish_num: i32, user_id: i32) -> (r:
        i32)
        requires
            self.wf(),
        ensures
            r as int == self.spec_amount((rest_num, group_num, dish_num, user_id)),
            r >= 0,
    {
        let k = (rest_num, group_num, dish_num, user_id);
        match self.find_line(rest_num, group_num, dish_num, user_id) {
            Some(i) => {
                proof {
                    lemma_map_index(self.lines@, i as int);
                }
                self.lines[i].amount
            },
            None => {
                proof {
                    lemma_map_no_key(self.lines@, (rest_num, group_num, dish_num, user_id));
                }
                0
            },
        }
    }

    /// Adds one portion, inserting a fresh line at one or stepping the
    /// existing count, as a single conditional update. The only refusal is a
    /// count that can no longer be represented.
    pub fn add_dish_to_basket(
        &mut self,
        rest_num: i32,
        group_num: i32,
        dish_num: i32,
        user_id: i32,
    ) -> (r: Result<i32, ()>)
        requires
            old(self).wf(),
        ensures
            final(self).wf(),
            r is Ok <==> old(self).spec_amount((rest_num, group_num, dish_num, user_id))
                < i32::MAX,
            r is Ok ==> r->Ok_0 as int == old(self).spec_amount(
                (rest_num, group_num, dish_num, user_id),
            ) + 1,
            r is Ok ==> final(self)@ == map_add(
                old(self)@,
                (rest_num, group_num, dish_num, user_id),
            ),
            r is Err ==> final(self)@ == old(self)@ && *final(self) == *old(self),
    {
        let ghost k = (rest_num, group_num, dish_num, user_id);
        match self.find_line(rest_num, group_num, dish_num, user_id) {
            Some(i) => {
                proof {
                    lemma_map_index(self.lines@, i as int);
                }
                let l = self.lines[i];
                if l.amount == i32::MAX {
                    return Err(());
                }
                let updated = BasketLine { amount: l.amount + 1, ..l };
                proof {
                    lemma_map_update(self.lines@, i as int, updated);
                }
                self.lines.set(i, updated);
                Ok(l.amount + 1)
            },
            None => {
                proof {
                    lemma_map_no_key(self.lines@, k);
                }
                let l = BasketLine { user_id, rest_num, group_num, dish_num, amount: 1 };
                proof {
                    lemma_map_push(self.lines@, l);
                }
                self.lines.push(l);
                Ok(1)
            },
        }
    }

    /// Takes one portion away: a count above one is decremented, a count of
    /// one deletes the line, an absent key is a no-op; the new count comes
    /// back.
    pub fn remove_dish_from_basket(
        &mut self,
        rest_num: i32,
        group_num: i32,
        dish_num: i32,
        user_id: i32,
    ) -> (r: Result<i32, ()>)
        requires
            old(self).wf(),
        ensures
            final(self).wf(),
            r is Ok,
            r->Ok_0 as int == if old(self).spec_amount((rest_num, group_num, dish_num, user_id))
                > 1 {
                old(self).spec_amount((rest_num, group_num, dish_num, user_id)) - 1
            } else {
                0
            },
            final(self)@ == map_remove_one(old(self)@, (rest_num, group_num, dish_num, user_id)),
    {
        let ghost k = (rest_num, group_num, dish_num, user_id);
        match self.find_line(rest_num, group_num, dish_num, user_id) {
            Some(i) => {
                proof {
                    lemma_map_index(self.lines@, i as int);
                }
                let l = self.lines[i];
                if l.amount > 1 {
                    let updated = BasketLine { amount: l.amount - 1, ..l };
                    proof {
                        lemma_map_update(self.lines@, i as int, updated);
                    }
                    self.lines.set(i, updated);
                    Ok(l.amount - 1)
                } else {
                    proof {
                        lemma_map_remove_idx(self.lines@, i as int);
                        assert(distinct_keys(self.lines@.remove(i as int))) by {
                            assert(forall|a: int, b: int|
                                0 <= a < b < self.lines@.remove(i as int).len()
                                    ==> line_key(#[trigger] self.lines@.remove(i as int)[a])
                                    != line_key(#[trigger] self.lines@.remove(i as int)[b]));
                        }
                    }
                    self.lines.remove(i);
                    Ok(0)
                }
            },
            None => {
                proof {
                    lemma_map_no_key(self.lines@, k);
                    assert(old(self)@.remove(k) =~= old(self)@);
                }
                Ok(0)
            },
        }
    }

    /// Deletes every line that `cleared` selects; the rest keep their
    /// amounts. Shared by the whole-basket clear and the per-restaurant
    /// clear a checkout performs.
    #[verifier::rlimit(50)]
    #[verifier::spinoff_prover]
    fn clear_where(&mut self, user_id: i32, rest_num: i32, whole_basket: bool)
        requires
            old(self).wf(),
        ensures
            final(self).wf(),
            forall|k: (i32, i32, i32, i32)|
                (k.3 == user_id && (whole_basket || k.0 == rest_num)) ==> #[trigger] map_amount(
                    final(self)@,
                    k,
                ) == 0,
            forall|k: (i32, i32, i32, i32)|
                !(k.3 == user_id && (whole_basket || k.0 == rest_num)) ==> #[trigger] map_amount(
                    final(self)@,
                    k,
                ) == map_amount(old(self)@, k) && final(self)@.contains_key(k)
                    == old(self)@.contains_key(k),
    {
        let mut i: usize = 0;
        while i < self.lines.len()
            invariant
                self.wf(),
                i <= self.lines@.len(),
                forall|j: int|
                    0 <= j < i ==> !((#[trigger] self.lines@[j]).user_id == user_id && (
                    whole_basket || self.lines@[j].rest_num == rest_num)),
                forall|k: (i32, i32, i32, i32)|
                    !(k.3 == user_id && (whole_basket || k.0 == rest_num)) ==> #[trigger] map_amount(
                        self@,
                        k,
                    ) == map_amount(old(self)@, k) && self@.contains_key(k)
                        == old(self)@.contains_key(k),
            decreases self.lines@.len() - i,
        {
            let l = self.lines[i];
            if l.user_id == user_id && (whole_basket || l.rest_num == rest_num) {
                let ghost prev = self.lines@;
                let ghost prev_map = self@;
                proof {
                    lemma_map_remove_idx(prev, i as int);
                    assert(distinct_keys(prev.remove(i as int))) by {
                        assert(forall|a: int, b: int|
                            0 <= a < b < prev.remove(i as int).len() ==> line_key(
                                #[trigger] prev.remove(i as int)[a],
                            ) != line_key(#[trigger] prev.remove(i as int)[b]));
                    }
                }
                self.lines.remove(i);
                proof {
                    assert(self@ =~= prev_map.remove(line_key(l)));
                    assert forall|k: (i32, i32, i32, i32)|
                        !(k.3 == user_id && (whole_basket || k.0 == rest_num)) implies #[trigger] map_amount(
                        self@,
                        k,
                    ) == map_amount(old(self)@, k) && self@.contains_key(k)
                        == old(self)@.contains_key(k) by {
                        assert(k != line_key(l));
                        assert(map_amount(prev_map, k) == map_amount(old(self)@, k)
                            && prev_map.contains_key(k) == old(self)@.contains_key(k));
                    }
                }
            } else {
                i += 1;
            }
        }
        proof {
            assert forall|k: (i32, i32, i32, i32)|
                (k.3 == user_id && (whole_basket || k.0 == rest_num)) implies #[trigger] map_amount(
                self@,
                k,
            ) == 0 by {
                assert(forall|j: int|
                    0 <= j < self.lines@.len() ==> line_key(#[trigger] self.lines@[j]) != k);
                lemma_map_no_key(self.lines@, k);
            }
        }
    }

    /// Empties one user's whole basket.
    pub fn clear_basket(&mut self, user_id: i32) -> (r: bool)
        requires
            old(self).wf(),
        ensures
            final(self).wf(),
            r,
            forall|k: (i32, i32, i32, i32)|
                k.3 == user_id ==> #[trigger] map_amount(final(self)@, k) == 0,
            forall|k: (i32, i32, i32, i32)|
                k.3 != user_id ==> #[trigger] map_amount(final(self)@, k) == map_amount(
                    old(self)@,
                    k,
                ) && final(self)@.contains_key(k) == old(self)@.contains_key(k),
    {
        self.clear_where(user_id, 0, true);
        proof {
            assert forall|k: (i32, i32, i32, i32)| k.3 != user_id implies #[trigger] map_amount(
                self@,
                k,
            ) == map_amount(old(self)@, k) && self@.contains_key(k) == old(self)@.contains_key(
                k,
            ) by {
                assert(!(k.3 == user_id && (true || k.0 == 0i32)));
                assert(map_amount(self@, k) == map_amount(old(self)@, k));
                assert(self@.contains_key(k) == old(self)@.contains_key(k));
            }
        }
        true
    }

    /// Empties one user's basket lines for one restaurant, the step a
    /// checkout takes together with inserting the ticket.
    pub fn clear_basket_for_rest(&mut self, user_id: i32, rest_num: i32)
        requires
            old(self).wf(),
        ensures
            final(self).wf(),
            forall|k: (i32, i32, i32, i32)|
                (k.3 == user_id && k.0 == rest_num) ==> #[trigger] map_amount(final(self)@, k)
                    == 0,
            forall|k: (i32, i32, i32, i32)|
                !(k.3 == user_id && k.0 == rest_num) ==> #[trigger] map_amount(final(self)@, k)
                    == map_amount(old(self)@, k) && final(self)@.contains_key(k)
                    == old(self)@.contains_key(k),
    {
        self.clear_where(user_id, rest_num, false);
    }
}


impl BasketStore {
    /// Repairs every user's basket after a dish left the catalog: lines of
    /// the deleted dish disappear, and lines of the higher-numbered dishes of
    /// the same group slide down one number with the dishes themselves, in
    /// the same step as the catalog renumbering.
    #[verifier::rlimit(50)]
    #[verifier::spinoff_prover]
    pub fn dish_remove_from_orders(&mut self, rest_num: i32, group_num: i32, dish_num: i32)
        requires
            old(self).wf(),
        ensures
            final(self).wf(),
            forall|k: (i32, i32, i32, i32)|
                !(k.0 == rest_num && k.1 == group_num && k.2 >= dish_num) ==> #[trigger] map_amount(
                    final(self)@,
                    k,
                ) == map_amount(old(self)@, k),
            forall|k: (i32, i32, i32, i32)|
                (k.0 == rest_num && k.1 == group_num && k.2 >= dish_num && k.2 < i32::MAX)
                    ==> #[trigger] map_amount(final(self)@, k) == map_amount(
                    old(self)@,
                    (k.0, k.1, (k.2 + 1) as i32, k.3),
                ),
            forall|k: (i32, i32, i32, i32)|
                (k.0 == rest_num && k.1 == group_num && k.2 == i32::MAX) ==> #[trigger] map_amount(
                    final(self)@,
                    k,
                ) == 0,
    {
        let ghost s = self.lines@;
        let mut kept: Vec<BasketLine> = Vec::new();
        let n = self.lines.len();
        let mut i: usize = 0;
        while i < n
            invariant
                i <= n,
                n == s.len(),
                self.lines@ == s,
                self.wf(),
                distinct_keys(kept@),
                forall|j: int| 0 <= j < kept@.len() ==> (#[trigger] kept@[j]).amount >= 1,
                forall|k: (i32, i32, i32, i32)|
                    !(k.0 == rest_num && k.1 == group_num && k.2 >= dish_num)
                        ==> #[trigger] map_amount(lines_map(kept@), k) == map_amount(
                        lines_map(s.subrange(0, i as int)),
                        k,
                    ),
                forall|k: (i32, i32, i32, i32)|
                    (k.0 == rest_num && k.1 == group_num && k.2 >= dish_num && k.2 < i32::MAX)
                        ==> #[trigger] map_amount(lines_map(kept@), k) == map_amount(
                        lines_map(s.subrange(0, i as int)),
                        (k.0, k.1, (k.2 + 1) as i32, k.3),
                    ),
                forall|k: (i32, i32, i32, i32)|
                    (k.0 == rest_num && k.1 == group_num && k.2 == i32::MAX)
                        ==> #[trigger] map_amount(lines_map(kept@), k) == 0,
            decreases n - i,
        {
            let l = self.lines[i];
            let ghost pre = s.subrange(0, i as int);
            let ghost pre2 = s.subrange(0, i as int + 1);
            let ghost prev_out = kept@;
            let ghost lkey = line_key(l);
            proof {
                assert(pre2.drop_last() =~= pre);
                assert(pre2.last() == l);
                lemma_map_push(pre, l);
                assert forall|j: int| 0 <= j < pre.len() implies line_key(#[trigger] pre[j])
                    != lkey by {
                    assert(pre[j] == s[j]);
                    assert(s[i as int] == l);
                }
                lemma_map_no_key(pre, lkey);
            }
            if !(l.rest_num == rest_num && l.group_num == group_num && l.dish_num >= dish_num) {
                proof {
                    assert(map_amount(lines_map(prev_out), lkey) == map_amount(lines_map(pre), lkey));
                    assert forall|j: int|
                        0 <= j < prev_out.len() implies line_key(#[trigger] prev_out[j]) != lkey by {
                        if line_key(prev_out[j]) == lkey {
                            lemma_map_index(prev_out, j);
                        }
                    }
                }
                kept.push(l);
                proof {
                    lemma_map_push(prev_out, l);
                    assert forall|a: int, b: int|
                        0 <= a < b < kept@.len() implies line_key(#[trigger] kept@[a]) != line_key(
                        #[trigger] kept@[b],
                    ) by {
                        if b < kept@.len() - 1 {
                            assert(kept@[a] == prev_out[a] && kept@[b] == prev_out[b]);
                        } else {
                            assert(kept@[a] == prev_out[a] && kept@[b] == l);
                        }
                    }
                    assert forall|k: (i32, i32, i32, i32)|
                        !(k.0 == rest_num && k.1 == group_num && k.2 >= dish_num)
                            implies #[trigger] map_amount(lines_map(kept@), k) == map_amount(
                        lines_map(pre2),
                        k,
                    ) by {
                        assert(map_amount(lines_map(prev_out), k) == map_amount(lines_map(pre), k));
                    }
                    assert forall|k: (i32, i32, i32, i32)|
                        (k.0 == rest_num && k.1 == group_num && k.2 >= dish_num && k.2 < i32::MAX)
                            implies #[trigger] map_amount(lines_map(kept@), k) == map_amount(
                        lines_map(pre2),
                        (k.0, k.1, (k.2 + 1) as i32, k.3),
                    ) by {
                        assert(map_amount(lines_map(prev_out), k) == map_amount(
                            lines_map(pre),
                            (k.0, k.1, (k.2 + 1) as i32, k.3),
                        ));
                        assert(k != lkey);
                        assert((k.0, k.1, (k.2 + 1) as i32, k.3) != lkey);
                    }
                    assert forall|k: (i32, i32, i32, i32)|
                        (k.0 == rest_num && k.1 == group_num && k.2 == i32::MAX)
                            implies #[trigger] map_amount(lines_map(kept@), k) == 0 by {
                        assert(map_amount(lines_map(prev_out), k) == 0);
                        assert(k != lkey);
                    }
                }
            } else if l.dish_num == dish_num {
                // the deleted dish's own line: dropped
                proof {
                    assert forall|k: (i32, i32, i32, i32)|
                        !(k.0 == rest_num && k.1 == group_num && k.2 >= dish_num)
                            implies #[trigger] map_amount(lines_map(kept@), k) == map_amount(
                        lines_map(pre2),
                        k,
                    ) by {
                        assert(map_amount(lines_map(prev_out), k) == map_amount(lines_map(pre), k));
                        assert(k != lkey);
                    }
                    assert forall|k: (i32, i32, i32, i32)|
                        (k.0 == rest_num && k.1 == group_num && k.2 >= dish_num && k.2 < i32::MAX)
                            implies #[trigger] map_amount(lines_map(kept@), k) == map_amount(
                        lines_map(pre2),
                        (k.0, k.1, (k.2 + 1) as i32, k.3),
                    ) by {
                        assert(map_amount(lines_map(prev_out), k) == map_amount(
                            lines_map(pre),
                            (k.0, k.1, (k.2 + 1) as i32, k.3),
                        ));
                        assert((k.0, k.1, (k.2 + 1) as i32, k.3) != lkey);
                    }
                }
            } else {
                let moved = BasketLine { dish_num: l.dish_num - 1, ..l };
                let ghost mk = line_key(moved);
                proof {
                    assert(mk == (l.rest_num, l.group_num, (l.dish_num - 1) as i32, l.user_id));
                    assert((mk.0, mk.1, (mk.2 + 1) as i32, mk.3) == lkey);
                    assert(map_amount(lines_map(prev_out), mk) == map_amount(lines_map(pre), lkey));
                    assert forall|j: int|
                        0 <= j < prev_out.len() implies line_key(#[trigger] prev_out[j]) != mk by {
                        if line_key(prev_out[j]) == mk {
                            lemma_map_index(prev_out, j);
                        }
                    }
                }
                kept.push(moved);
                proof {
                    lemma_map_push(prev_out, moved);
                    assert forall|a: int, b: int|
                        0 <= a < b < kept@.len() implies line_key(#[trigger] kept@[a]) != line_key(
                        #[trigger] kept@[b],
                    ) by {
                        if b < kept@.len() - 1 {
                            assert(kept@[a] == prev_out[a] && kept@[b] == prev_out[b]);
                        } else {
                            assert(kept@[a] == prev_out[a] && kept@[b] == moved);
                        }
                    }
                    assert forall|k: (i32, i32, i32, i32)|
                        !(k.0 == rest_num && k.1 == group_num && k.2 >= dish_num)
                            implies #[trigger] map_amount(lines_map(kept@), k) == map_amount(
                        lines_map(pre2),
                        k,
                    ) by {
                        assert(map_amount(lines_map(prev_out), k) == map_amount(lines_map(pre), k));
                        assert(k != mk);
                        assert(k != lkey);
                    }
                    assert forall|k: (i32, i32, i32, i32)|
                        (k.0 == rest_num && k.1 == group_num && k.2 >= dish_num && k.2 < i32::MAX)
                            implies #[trigger] map_amount(lines_map(kept@), k) == map_amount(
                        lines_map(pre2),
                        (k.0, k.1, (k.2 + 1) as i32, k.3),
                    ) by {
                        if k == mk {
                            assert((k.0, k.1, (k.2 + 1) as i32, k.3) == lkey);
                        } else {
                            assert(map_amount(lines_map(prev_out), k) == map_amount(
                                lines_map(pre),
                                (k.0, k.1, (k.2 + 1) as i32, k.3),
                            ));
                            assert((k.0, k.1, (k.2 + 1) as i32, k.3) != lkey);
                        }
                    }
                    assert forall|k: (i32, i32, i32, i32)|
                        (k.0 == rest_num && k.1 == group_num && k.2 == i32::MAX)
                            implies #[trigger] map_amount(lines_map(kept@), k) == 0 by {
                        assert(map_amount(lines_map(prev_out), k) == 0);
                        assert(k != mk);
                    }
                }
            }
            i += 1;
        }
        proof {
            assert(s.subrange(0, n as int) =~= s);
        }
        self.lines = kept;
    }
}

/// What the dish-removal repair leaves of a ledger map: lines of the deleted
/// (rest, group, dish) are gone, lines of the higher-numbered dishes of the
/// same group slid down one number, everything else is kept.
pub open spec fn basket_cascade_shape(
    m0: Map<(i32, i32, i32, i32), i32>,
    m1: Map<(i32, i32, i32, i32), i32>,
    rest_num: i32,
    group_num: i32,
    dish_num: i32,
) -> bool {
    &&& forall|k: (i32, i32, i32, i32)|
        !(k.0 == rest_num && k.1 == group_num && k.2 >= dish_num) ==> #[trigger] map_amount(m1, k)
            == map_amount(m0, k)
    &&& forall|k: (i32, i32, i32, i32)|
        (k.0 == rest_num && k.1 == group_num && k.2 >= dish_num && k.2 < i32::MAX)
            ==> #[trigger] map_amount(m1, k) == map_amount(m0, (k.0, k.1, (k.2 + 1) as i32, k.3))
    &&& forall|k: (i32, i32, i32, i32)|
        (k.0 == rest_num && k.1 == group_num && k.2 == i32::MAX) ==> #[trigger] map_amount(m1, k)
            == 0
}

/// One `add` followed by one `remove` on the same key restores the ledger,
/// and with it the amount, to what they were before.
pub proof fn lemma_add_then_remove_restores(m: Map<(i32, i32, i32, i32), i32>, k: (i32, i32, i32, i32))
    requires
        map_wf(m),
        map_amount(m, k) < i32::MAX,
    ensures
        map_remove_one(map_add(m, k), k) =~= m,
        map_amount(map_remove_one(map_add(m, k), k), k) == map_amount(m, k),
{
    if m.contains_key(k) {
        assert(map_remove_one(map_add(m, k), k) =~= m);
    } else {
        assert(map_amount(map_add(m, k), k) == 1);
        assert(map_remove_one(map_add(m, k), k) =~= m.insert(k, 1).remove(k));
        assert(m.insert(k, 1).remove(k) =~= m);
    }
}

/// A `remove` on a key whose count is one deletes the line: afterwards the
/// key is gone and its amount reads zero.
pub proof fn lemma_remove_last_deletes(m: Map<(i32, i32, i32, i32), i32>, k: (i32, i32, i32, i32))
    requires
        map_wf(m),
        map_amount(m, k) == 1,
    ensures
        !map_remove_one(m, k).contains_key(k),
        map_amount(map_remove_one(m, k), k) == 0,
{
}

} // verus!
