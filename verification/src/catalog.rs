//! The catalog: restaurants, their menu groups and the groups' dishes.
//! Every child level is numbered densely from one inside its parent scope —
//! the display index the commands refer to — and deletions repair the
//! numbering, and the basket lines that reference it, in the same step.
//! Opening and closing times are minutes of the day.

use vstd::prelude::*;
use crate::digits::{dec_int, i32_to_string};
use crate::basket::{BasketStore, BasketLine, lines_map, map_amount};
use crate::texts::{time_str, str_time, active_to_str, price_unit_str};

verus! {

/// A restaurant record. `enabled` gates the caterer's access, `active` its
/// visibility to eaters; `num` is the dense display index.
#[derive(Clone, Debug)]
pub struct Restaurant {
    pub user_id: i32,
    pub title: String,
    pub info: String,
    pub active: bool,
    pub enabled: bool,
    pub num: i32,
    pub image_id: Option<String>,
    pub opening_time: u16,
    pub closing_time: u16,
}

/// A menu group of one restaurant; `num` is dense per restaurant.
#[derive(Clone, Debug)]
pub struct Group {
    pub rest_num: i32,
    pub num: i32,
    pub title: String,
    pub info: String,
    pub active: bool,
    pub cat_id: i32,
    pub opening_time: u16,
    pub closing_time: u16,
}

/// A dish; `num` is dense per (restaurant, group).
#[derive(Clone, Debug)]
pub struct Dish {
    pub rest_num: i32,
    pub num: i32,
    pub title: String,
    pub info: String,
    pub active: bool,
    pub group_num: i32,
    pub price: i32,
    pub image_id: Option<String>,
}

/// A group together with its dishes.
#[derive(Clone, Debug)]
pub struct GroupEntry {
    pub group: Group,
    pub dishes: Vec<Dish>,
}

/// A restaurant together with its groups.
#[derive(Clone, Debug)]
pub struct RestEntry {
    pub rest: Restaurant,
    pub groups: Vec<GroupEntry>,
}

/// How a single restaurant is asked for.
#[derive(Clone, Copy)]
pub enum RestBy {
    /// By the owning caterer's user id.
    Id(i32),
    /// By the display index.
    Num(i32),
}

/// Which restaurants a listing asks for.
#[derive(Clone, Copy)]
pub enum RestListBy {
    /// Every restaurant.
    All,
    /// The active ones with an active group in the category.
    Category(i32),
    /// The active ones with an active group open at the minute of the day.
    Time(u16),
}

/// Which groups of a restaurant a listing asks for.
#[derive(Clone, Copy)]
pub enum GroupListBy {
    /// Every group of the restaurant.
    All(i32),
    /// The active ones in the category.
    Category(i32, i32),
    /// The active ones open at the minute of the day.
    Time(i32, u16),
}

/// Which dishes of a group a listing asks for.
#[derive(Clone, Copy)]
pub enum DishesBy {
    /// Every dish of the (restaurant, group).
    All(i32, i32),
    /// Only the active ones.
    Active(i32, i32),
}

/// How a single dish is asked for.
#[derive(Clone, Copy)]
pub enum DishBy {
    /// By (restaurant, group, dish) numbers.
    All(i32, i32, i32),
    /// The same, but only when the dish is active.
    Active(i32, i32, i32),
}

/// Whether a window that may wrap past midnight is open at minute `t`.
pub open spec fn time_open(opening: int, closing: int, t: int) -> bool {
    (opening <= t <= closing) || (opening > closing && t > opening)
}

/// A dish in the scope (restaurant `rn`, group `gn`) at dense position `dn`.
pub open spec fn dish_wf(d: Dish, rn: int, gn: int, dn: int) -> bool {
    d.rest_num == rn && d.group_num == gn && d.num == dn
}

/// A group entry in restaurant `rn` at dense position `gn`, its dishes
/// densely numbered and its times inside a day.
pub open spec fn group_entry_wf(e: GroupEntry, rn: int, gn: int) -> bool {
    &&& e.group.rest_num == rn
    &&& e.group.num == gn
    &&& e.group.opening_time < 1440
    &&& e.group.closing_time < 1440
    &&& forall|k: int| 0 <= k < e.dishes@.len() ==> dish_wf(#[trigger] e.dishes@[k], rn, gn, k + 1)
}

/// A restaurant entry at dense position `rn`: its own record agrees with the
/// position and its groups are densely numbered.
pub open spec fn rest_entry_wf(e: RestEntry, rn: int) -> bool {
    &&& e.rest.num == rn
    &&& e.rest.opening_time < 1440
    &&& e.rest.closing_time < 1440
    &&& forall|j: int| 0 <= j < e.groups@.len() ==> group_entry_wf(#[trigger] e.groups@[j], rn, j + 1)
}

/// A list of restaurants.
pub type RestList = Vec<Restaurant>;

/// A list of groups.
pub type GroupList = Vec<Group>;

/// A list of dishes.
pub type DishList = Vec<Dish>;

/// The whole catalog.
pub struct Catalog {
    pub rests: Vec<RestEntry>,
}

impl Restaurant {
    /// A copy with the same fields.
    pub fn duplicate(&self) -> (r: Restaurant)
        ensures
            r == *self,
    {
        Restaurant {
            user_id: self.user_id,
            title: self.title.clone(),
            info: self.info.clone(),
            active: self.active,
            enabled: self.enabled,
            num: self.num,
            image_id: match &self.image_id {
                Some(s) => Some(s.clone()),
                None => None,
            },
            opening_time: self.opening_time,
            closing_time: self.closing_time,
        }
    }
}

impl Group {
    /// A copy with the same fields.
    pub fn duplicate(&self) -> (r: Group)
        ensures
            r == *self,
    {
        Group {
            rest_num: self.rest_num,
            num: self.num,
            title: self.title.clone(),
            info: self.info.clone(),
            active: self.active,
            cat_id: self.cat_id,
            opening_time: self.opening_time,
            closing_time: self.closing_time,
        }
    }

    /// The text of the group's working window, leaving out whichever bound
    /// matches the default for brevity.
    pub open spec fn work_time_str(self, def_opening: int, def_closing: int) -> Seq<char> {
        if self.opening_time != def_opening && self.closing_time != def_closing {
            " ("@ + time_str(self.opening_time as int) + "-"@ + time_str(self.closing_time as int)
                + ")"@
        } else if self.opening_time != def_opening && self.closing_time == def_closing {
            " (c "@ + time_str(self.opening_time as int) + ")"@
        } else if self.opening_time == def_opening && self.closing_time != def_closing {
            " (до "@ + time_str(self.closing_time as int) + ")"@
        } else {
            Seq::empty()
        }
    }

    /// The group's title followed by its working window.
    pub fn title_with_time(&self, def_opening_time: u16, def_closing_time: u16) -> (r: String)
        requires
            self.opening_time < 1440,
            self.closing_time < 1440,
        ensures
            r@ == self.title@ + self.work_time_str(def_opening_time as int, def_closing_time as int),
    {
        let mut r = self.title.clone();
        proof {
            reveal_strlit(" (");
            reveal_strlit("-");
            reveal_strlit(")");
            reveal_strlit(" (c ");
            reveal_strlit(" (до ");
        }
        if self.opening_time != def_opening_time && self.closing_time != def_closing_time {
            r.append(" (");
            r.append(str_time(self.opening_time).as_str());
            r.append("-");
            r.append(str_time(self.closing_time).as_str());
            r.append(")");
        } else if self.opening_time != def_opening_time && self.closing_time == def_closing_time {
            r.append(" (c ");
            r.append(str_time(self.opening_time).as_str());
            r.append(")");
        } else if self.opening_time == def_opening_time && self.closing_time != def_closing_time {
            r.append(" (до ");
            r.append(str_time(self.closing_time).as_str());
            r.append(")");
        }
        proof {
            assert(r@ =~= self.title@ + self.work_time_str(
                def_opening_time as int,
                def_closing_time as int,
            ));
        }
        r
    }
}

impl Dish {
    /// A copy with the same fields.
    pub fn duplicate(&self) -> (r: Dish)
        ensures
            r == *self,
    {
        Dish {
            rest_num: self.rest_num,
            num: self.num,
            title: self.title.clone(),
            info: self.info.clone(),
            active: self.active,
            group_num: self.group_num,
            price: self.price,
            image_id: match &self.image_id {
                Some(s) => Some(s.clone()),
                None => None,
            },
        }
    }

    /// The dish's title followed by its price in the configured unit.
    pub fn title_with_price(&self, unit: &str) -> (r: String)
        ensures
            r@ == self.title@ + " "@ + price_unit_str(self.price as int, unit@),
    {
        let mut r = self.title.clone();
        r.append(" ");
        r.append(i32_to_string(self.price).as_str());
        r.append(unit);
        proof {
            reveal_strlit(" ");
            assert(r@ =~= self.title@ + " "@ + price_unit_str(self.price as int, unit@));
        }
        r
    }

    /// The description an eater sees: an information line appears only when
    /// the text is three or more characters long.
    pub open spec fn eater_info_str(self, unit: Seq<char>) -> Seq<char> {
        let info_part = if self.info@.len() < 3 {
            Seq::<char>::empty()
        } else {
            "Информация: "@ + self.info@ + "\n"@
        };
        "Название: "@ + self.title@ + "\n"@ + info_part + "Цена: "@ + price_unit_str(
            self.price as int,
            unit,
        )
    }

    /// Describes the dish for an eater, with the configured price unit.
    pub fn info_for_eater(&self, unit: &str) -> (r: String)
        ensures
            r@ == self.eater_info_str(unit@),
    {
        let mut r = String::from_str("Название: ");
        r.append(self.title.as_str());
        r.append("\n");
        if self.info.as_str().unicode_len() >= 3 {
            r.append("Информация: ");
            r.append(self.info.as_str());
            r.append("\n");
        }
        r.append("Цена: ");
        r.append(i32_to_string(self.price).as_str());
        r.append(unit);
        proof {
            reveal_strlit("Название: ");
            reveal_strlit("Информация: ");
            reveal_strlit("Цена: ");
            reveal_strlit("\n");
            assert(r@ =~= self.eater_info_str(unit@));
        }
        r
    }

    /// The description a caterer sees: every field with the command that
    /// edits it.
    pub open spec fn caterer_info_str(self, unit: Seq<char>) -> Seq<char> {
        "Название: "@ + self.title@ + " /EditTitle\nДоп.инфо: "@ + self.info@
            + " /EditInfo\nГруппа: "@ + dec_int(self.group_num as int) + " /EditGroup\nСтатус: "@
            + (if self.active {
            "показывается"@
        } else {
            "скрыт"@
        }) + " /Toggle\nЦена: "@ + price_unit_str(self.price as int, unit)
            + " /EditPrice\nЗагрузить фото /EditImg\nУдалить блюдо /Remove\nСообщение для рекламы /Promote"@
    }

    /// Describes the dish for its caterer, with the configured price unit.
    pub fn info_for_caterer(&self, unit: &str) -> (r: String)
        ensures
            r@ == self.caterer_info_str(unit@),
    {
        let mut r = String::from_str("Название: ");
        r.append(self.title.as_str());
        r.append(" /EditTitle\nДоп.инфо: ");
        r.append(self.info.as_str());
        r.append(" /EditInfo\nГруппа: ");
        r.append(i32_to_string(self.group_num).as_str());
        r.append(" /EditGroup\nСтатус: ");
        r.append(active_to_str(self.active));
        r.append(" /Toggle\nЦена: ");
        r.append(i32_to_string(self.price).as_str());
        r.append(unit);
        r.append(" /EditPrice\nЗагрузить фото /EditImg\nУдалить блюдо /Remove\nСообщение для рекламы /Promote");
        proof {
            reveal_strlit("Название: ");
            reveal_strlit(" /EditTitle\nДоп.инфо: ");
            reveal_strlit(" /EditInfo\nГруппа: ");
            reveal_strlit(" /Toggle\nЦена: ");
            reveal_strlit(" /EditPrice\nЗагрузить фото /EditImg\nУдалить блюдо /Remove\nСообщение для рекламы /Promote");
            assert(r@ =~= self.caterer_info_str(unit@));
        }
        r
    }
}

impl Catalog {
    /// Restaurants stand in display order, each entry internally dense, and
    /// no two restaurants share an owner.
    pub open spec fn wf(self) -> bool {
        &&& forall|i: int|
            0 <= i < self.rests@.len() ==> rest_entry_wf(#[trigger] self.rests@[i], i + 1)
        &&& forall|i: int, j: int|
            0 <= i < j < self.rests@.len() ==> (#[trigger] self.rests@[i]).rest.user_id != (
            #[trigger] self.rests@[j]).rest.user_id
    }

    /// Whether a display index names a restaurant.
    pub open spec fn rest_valid(self, rest_num: i32) -> bool {
        1 <= rest_num <= self.rests@.len()
    }

    /// The groups of a restaurant.
    pub open spec fn groups_of(self, rest_num: i32) -> Seq<GroupEntry> {
        self.rests@[rest_num - 1].groups@
    }

    /// Whether (restaurant, group) indices name a group.
    pub open spec fn group_valid(self, rest_num: i32, group_num: i32) -> bool {
        self.rest_valid(rest_num) && 1 <= group_num <= self.groups_of(rest_num).len()
    }

    /// The dishes of a group.
    pub open spec fn dishes_of(self, rest_num: i32, group_num: i32) -> Seq<Dish> {
        self.groups_of(rest_num)[group_num - 1].dishes@
    }

    /// Whether (restaurant, group, dish) indices name a dish.
    pub open spec fn dish_valid(self, rest_num: i32, group_num: i32, dish_num: i32) -> bool {
        self.group_valid(rest_num, group_num) && 1 <= dish_num <= self.dishes_of(
            rest_num,
            group_num,
        ).len()
    }

    /// Whether some restaurant is owned by the user.
    pub open spec fn has_owner(self, user_id: i32) -> bool {
        exists|i: int| 0 <= i < self.rests@.len() && (#[trigger] self.rests@[i]).rest.user_id == user_id
    }

    /// The position of the user's restaurant.
    pub open spec fn owner_idx(self, user_id: i32) -> int {
        choose|i: int| 0 <= i < self.rests@.len() && (#[trigger] self.rests@[i]).rest.user_id == user_id
    }

    /// An empty catalog.
    pub fn new() -> (r: Catalog)
        ensures
            r.wf(),
            r.rests@ == Seq::<RestEntry>::empty(),
    {
        Catalog { rests: Vec::new() }
    }

    /// The position of the restaurant the user owns, if any.
    fn find_by_id(&self, user_id: i32) -> (r: Option<usize>)
        requires
            self.wf(),
        ensures
            match r {
                Some(i) => i < self.rests@.len() && self.rests@[i as int].rest.user_id == user_id
                    && self.has_owner(user_id) && self.owner_idx(user_id) == i,
                None => !self.has_owner(user_id),
            },
    {
        let n = self.rests.len();
        let mut i: usize = 0;
        while i < n
            invariant
                i <= n,
                n == self.rests@.len(),
                self.wf(),
                forall|j: int| 0 <= j < i ==> (#[trigger] self.rests@[j]).rest.user_id != user_id,
            decreases n - i,
        {
            if self.rests[i].rest.user_id == user_id {
                proof {
                    assert(self.has_owner(user_id));
                    let j = self.owner_idx(user_id);
                    assert(0 <= j < self.rests@.len() && self.rests@[j].rest.user_id == user_id);
                    if j != i as int {
                        assert(false);
                    }
                }
                return Some(i);
            }
            i += 1;
        }
        None
    }

    /// Looks one restaurant up, by owner or by display index.
    pub fn restaurant(&self, by: RestBy) -> (r: Option<Restaurant>)
        requires
            self.wf(),
        ensures
            match by {
                RestBy::Id(user_id) => {
                    &&& r is Some <==> self.has_owner(user_id)
                    &&& r is Some ==> r->0 == self.rests@[self.owner_idx(user_id)].rest
                },
                RestBy::Num(rest_num) => {
                    &&& r is Some <==> self.rest_valid(rest_num)
                    &&& r is Some ==> r->0 == self.rests@[rest_num - 1].rest
                },
            },
    {
        match by {
            RestBy::Id(user_id) => match self.find_by_id(user_id) {
                Some(i) => Some(self.rests[i].rest.duplicate()),
                None => None,
            },
            RestBy::Num(rest_num) => {
                if rest_num >= 1 && (rest_num as usize) <= self.rests.len() {
                    Some(self.rests[(rest_num as usize) - 1].rest.duplicate())
                } else {
                    None
                }
            },
        }
    }

    /// The restaurant number a caterer may edit: the one they own, provided
    /// their access is enabled.
    pub fn rest_num(&self, user: Option<i32>) -> (r: Result<i32, ()>)
        requires
            self.wf(),
        ensures
            r is Ok <==> user is Some && self.has_owner(user->0) && self.rests@[self.owner_idx(
                user->0,
            )].rest.enabled,
            r is Ok ==> r->Ok_0 == self.rests@[self.owner_idx(user->0)].rest.num,
    {
        let user_id = match user {
            Some(u) => u,
            None => {
                return Err(());
            },
        };
        match self.find_by_id(user_id) {
            Some(i) => {
                if self.rests[i].rest.enabled {
                    Ok(self.rests[i].rest.num)
                } else {
                    Err(())
                }
            },
            None => Err(()),
        }
    }

    /// Whether some group of the restaurant entry is active and in the
    /// category.
    pub open spec fn entry_has_category(e: RestEntry, cat_id: i32) -> bool {
        exists|j: int|
            0 <= j < e.groups@.len() && (#[trigger] e.groups@[j]).group.active
                && e.groups@[j].group.cat_id == cat_id
    }

    /// Whether some group of the restaurant entry is active and open at `t`.
    pub open spec fn entry_open_at(e: RestEntry, t: u16) -> bool {
        exists|j: int|
            0 <= j < e.groups@.len() && (#[trigger] e.groups@[j]).group.active && time_open(
                e.groups@[j].group.opening_time as int,
                e.groups@[j].group.closing_time as int,
                t as int,
            )
    }

    /// Whether a listing selects the restaurant entry.
    pub open spec fn rest_selected(e: RestEntry, by: RestListBy) -> bool {
        match by {
            RestListBy::All => true,
            RestListBy::Category(cat_id) => e.rest.active && Self::entry_has_category(e, cat_id),
            RestListBy::Time(t) => e.rest.active && Self::entry_open_at(e, t),
        }
    }

    /// The restaurants a listing selects, in display order.
    pub open spec fn spec_rest_list(s: Seq<RestEntry>, by: RestListBy) -> Seq<Restaurant>
        decreases s.len(),
    {
        if s.len() == 0 {
            Seq::empty()
        } else {
            let rest = Self::spec_rest_list(s.drop_last(), by);
            if Self::rest_selected(s.last(), by) {
                rest.push(s.last().rest)
            } else {
                rest
            }
        }
    }

    fn entry_matches(e: &RestEntry, by: &RestListBy) -> (r: bool)
        ensures
            r == Self::rest_selected(*e, *by),
    {
        match by {
            RestListBy::All => true,
            RestListBy::Category(cat_id) => {
                if !e.rest.active {
                    return false;
                }
                let n = e.groups.len();
                let mut j: usize = 0;
                while j < n
                    invariant
                        j <= n,
                        n == e.groups@.len(),
                        e.rest.active,
                        *by == RestListBy::Category(*cat_id),
                        forall|k: int|
                            0 <= k < j ==> !((#[trigger] e.groups@[k]).group.active
                                && e.groups@[k].group.cat_id == *cat_id),
                    decreases n - j,
                {
                    let g = &e.groups[j].group;
                    if g.active && g.cat_id == *cat_id {
                        proof {
                            assert((#[trigger] e.groups@[j as int]).group.active
                                && e.groups@[j as int].group.cat_id == *cat_id);
                        }
                        return true;
                    }
                    j += 1;
                }
                false
            },
            RestListBy::Time(t) => {
                if !e.rest.active {
                    return false;
                }
                let n = e.groups.len();
                let mut j: usize = 0;
                while j < n
                    invariant
                        j <= n,
                        n == e.groups@.len(),
                        e.rest.active,
                        *by == RestListBy::Time(*t),
                        forall|k: int|
                            0 <= k < j ==> !((#[trigger] e.groups@[k]).group.active && time_open(
                                e.groups@[k].group.opening_time as int,
                                e.groups@[k].group.closing_time as int,
                                *t as int,
                            )),
                    decreases n - j,
                {
                    let g = &e.groups[j].group;
                    if g.active && ((g.opening_time <= *t && *t <= g.closing_time) || (
                    g.opening_time > g.closing_time && *t > g.opening_time)) {
                        proof {
                            assert((#[trigger] e.groups@[j as int]).group.active && time_open(
                                e.groups@[j as int].group.opening_time as int,
                                e.groups@[j as int].group.closing_time as int,
                                *t as int,
                            ));
                        }
                        return true;
                    }
                    j += 1;
                }
                false
            },
        }
    }

    /// Lists restaurants; an empty selection comes back as nothing, as the
    /// callers expect.
    pub fn rest_list(&self, by: RestListBy) -> (r: Option<RestList>)
        requires
            self.wf(),
        ensures
            r is Some <==> Self::spec_rest_list(self.rests@, by).len() > 0,
            r is Some ==> r->0@ == Self::spec_rest_list(self.rests@, by),
    {
        let mut out: Vec<Restaurant> = Vec::new();
        let n = self.rests.len();
        let mut i: usize = 0;
        while i < n
            invariant
                i <= n,
                n == self.rests@.len(),
                self.wf(),
                out@ == Self::spec_rest_list(self.rests@.subrange(0, i as int), by),
            decreases n - i,
        {
            let ghost pre = self.rests@.subrange(0, i as int);
            if Self::entry_matches(&self.rests[i], &by) {
                out.push(self.rests[i].rest.duplicate());
            }
            proof {
                let cur = self.rests@.subrange(0, i as int + 1);
                assert(cur.drop_last() =~= pre);
                assert(cur.last() == self.rests@[i as int]);
            }
            i += 1;
        }
        proof {
            assert(self.rests@.subrange(0, n as int) =~= self.rests@);
        }
        if out.len() == 0 {
            None
        } else {
            Some(out)
        }
    }
}


/// An update kept the entry shapes: every entry but `ri` is the old one, the
/// entry at `ri` is well formed at its position and keeps its owner.
proof fn lemma_wf_after_entry_update(old_c: Seq<RestEntry>, new_c: Seq<RestEntry>, ri: int)
    requires
        forall|i: int| 0 <= i < old_c.len() ==> rest_entry_wf(#[trigger] old_c[i], i + 1),
        forall|i: int, j: int|
            0 <= i < j < old_c.len() ==> (#[trigger] old_c[i]).rest.user_id != (
            #[trigger] old_c[j]).rest.user_id,
        new_c.len() == old_c.len(),
        0 <= ri < old_c.len(),
        forall|i: int| 0 <= i < new_c.len() && i != ri ==> #[trigger] new_c[i] == old_c[i],
        rest_entry_wf(new_c[ri], ri + 1),
        new_c[ri].rest.user_id == old_c[ri].rest.user_id,
    ensures
        forall|i: int| 0 <= i < new_c.len() ==> rest_entry_wf(#[trigger] new_c[i], i + 1),
        forall|i: int, j: int|
            0 <= i < j < new_c.len() ==> (#[trigger] new_c[i]).rest.user_id != (
            #[trigger] new_c[j]).rest.user_id,
{
    assert forall|i: int, j: int|
        0 <= i < j < new_c.len() implies (#[trigger] new_c[i]).rest.user_id != (
    #[trigger] new_c[j]).rest.user_id by {
        assert(new_c[i].rest.user_id == old_c[i].rest.user_id);
        assert(new_c[j].rest.user_id == old_c[j].rest.user_id);
    }
}

impl Catalog {
    /// The restaurant a group listing concerns.
    pub open spec fn group_list_rest(by: GroupListBy) -> i32 {
        match by {
            GroupListBy::All(rn) => rn,
            GroupListBy::Category(rn, _) => rn,
            GroupListBy::Time(rn, _) => rn,
        }
    }

    /// Whether a group listing selects the group.
    pub open spec fn group_selected(g: GroupEntry, by: GroupListBy) -> bool {
        match by {
            GroupListBy::All(_) => true,
            GroupListBy::Category(_, cat_id) => g.group.active && g.group.cat_id == cat_id,
            GroupListBy::Time(_, t) => g.group.active && time_open(
                g.group.opening_time as int,
                g.group.closing_time as int,
                t as int,
            ),
        }
    }

    /// The groups a listing selects, in display order.
    pub open spec fn spec_group_list(s: Seq<GroupEntry>, by: GroupListBy) -> Seq<Group>
        decreases s.len(),
    {
        if s.len() == 0 {
            Seq::empty()
        } else {
            let rest = Self::spec_group_list(s.drop_last(), by);
            if Self::group_selected(s.last(), by) {
                rest.push(s.last().group)
            } else {
                rest
            }
        }
    }

    /// Lists the groups of one restaurant; nothing when the restaurant does
    /// not exist or the selection is empty.
    pub fn group_list(&self, by: GroupListBy) -> (r: Option<GroupList>)
        requires
            self.wf(),
        ensures
            !self.rest_valid(Self::group_list_rest(by)) ==> r is None,
            self.rest_valid(Self::group_list_rest(by)) ==> {
                &&& r is Some <==> Self::spec_group_list(
                    self.groups_of(Self::group_list_rest(by)),
                    by,
                ).len() > 0
                &&& r is Some ==> r->0@ == Self::spec_group_list(
                    self.groups_of(Self::group_list_rest(by)),
                    by,
                )
            },
    {
        let rest_num = match &by {
            GroupListBy::All(rn) => *rn,
            GroupListBy::Category(rn, _) => *rn,
            GroupListBy::Time(rn, _) => *rn,
        };
        if rest_num < 1 || rest_num as usize > self.rests.len() {
            return None;
        }
        let e = &self.rests[(rest_num as usize) - 1];
        let n = e.groups.len();
        let mut out: Vec<Group> = Vec::new();
        let mut j: usize = 0;
        while j < n
            invariant
                j <= n,
                n == e.groups@.len(),
                out@ == Self::spec_group_list(e.groups@.subrange(0, j as int), by),
            decreases n - j,
        {
            let ghost pre = e.groups@.subrange(0, j as int);
            let g = &e.groups[j];
            let selected = match &by {
                GroupListBy::All(_) => true,
                GroupListBy::Category(_, cat_id) => g.group.active && g.group.cat_id == *cat_id,
                GroupListBy::Time(_, t) => g.group.active && ((g.group.opening_time <= *t && *t
                    <= g.group.closing_time) || (g.group.opening_time > g.group.closing_time && *t
                    > g.group.opening_time)),
            };
            if selected {
                out.push(g.group.duplicate());
            }
            proof {
                let cur = e.groups@.subrange(0, j as int + 1);
                assert(cur.drop_last() =~= pre);
                assert(cur.last() == e.groups@[j as int]);
            }
            j += 1;
        }
        proof {
            assert(e.groups@.subrange(0, n as int) =~= e.groups@);
        }
        if out.len() == 0 {
            None
        } else {
            Some(out)
        }
    }

    /// One group of one restaurant.
    pub fn group(&self, rest_num: i32, group_num: i32) -> (r: Option<Group>)
        requires
            self.wf(),
        ensures
            r is Some <==> self.group_valid(rest_num, group_num),
            r is Some ==> r->0 == self.groups_of(rest_num)[group_num - 1].group,
    {
        if rest_num < 1 || rest_num as usize > self.rests.len() {
            return None;
        }
        let e = &self.rests[(rest_num as usize) - 1];
        if group_num < 1 || group_num as usize > e.groups.len() {
            return None;
        }
        Some(e.groups[(group_num as usize) - 1].group.duplicate())
    }

    /// The dishes a listing keeps: all of them, or the active ones only.
    pub open spec fn spec_dish_list(s: Seq<Dish>, active_only: bool) -> Seq<Dish>
        decreases s.len(),
    {
        if s.len() == 0 {
            Seq::empty()
        } else {
            let rest = Self::spec_dish_list(s.drop_last(), active_only);
            if s.last().active || !active_only {
                rest.push(s.last())
            } else {
                rest
            }
        }
    }

    /// Lists the dishes of one group; nothing when the scope does not exist
    /// or the selection is empty.
    pub fn dish_list(&self, by: DishesBy) -> (r: Option<DishList>)
        requires
            self.wf(),
        ensures
            ({
                let (rest_num, group_num, active_only) = match by {
                    DishesBy::All(rn, gn) => (rn, gn, false),
                    DishesBy::Active(rn, gn) => (rn, gn, true),
                };
                &&& !self.group_valid(rest_num, group_num) ==> r is None
                &&& self.group_valid(rest_num, group_num) ==> {
                    &&& r is Some <==> Self::spec_dish_list(
                        self.dishes_of(rest_num, group_num),
                        active_only,
                    ).len() > 0
                    &&& r is Some ==> r->0@ == Self::spec_dish_list(
                        self.dishes_of(rest_num, group_num),
                        active_only,
                    )
                }
            }),
    {
        let (rest_num, group_num, active_only) = match by {
            DishesBy::All(rn, gn) => (rn, gn, false),
            DishesBy::Active(rn, gn) => (rn, gn, true),
        };
        if rest_num < 1 || rest_num as usize > self.rests.len() {
            return None;
        }
        let e = &self.rests[(rest_num as usize) - 1];
        if group_num < 1 || group_num as usize > e.groups.len() {
            return None;
        }
        let ge = &e.groups[(group_num as usize) - 1];
        let n = ge.dishes.len();
        let mut out: Vec<Dish> = Vec::new();
        let mut k: usize = 0;
        while k < n
            invariant
                k <= n,
                n == ge.dishes@.len(),
                out@ == Self::spec_dish_list(ge.dishes@.subrange(0, k as int), active_only),
            decreases n - k,
        {
            let ghost pre = ge.dishes@.subrange(0, k as int);
            let d = &ge.dishes[k];
            if d.active || !active_only {
                out.push(d.duplicate());
            }
            proof {
                let cur = ge.dishes@.subrange(0, k as int + 1);
                assert(cur.drop_last() =~= pre);
                assert(cur.last() == ge.dishes@[k as int]);
            }
            k += 1;
        }
        proof {
            assert(ge.dishes@.subrange(0, n as int) =~= ge.dishes@);
        }
        if out.len() == 0 {
            None
        } else {
            Some(out)
        }
    }

    /// One dish; under `Active` only when the dish is visible.
    pub fn dish(&self, by: DishBy) -> (r: Option<Dish>)
        requires
            self.wf(),
        ensures
            ({
                let (rest_num, group_num, dish_num, active_only) = match by {
                    DishBy::All(rn, gn, dn) => (rn, gn, dn, false),
                    DishBy::Active(rn, gn, dn) => (rn, gn, dn, true),
                };
                &&& r is Some <==> self.dish_valid(rest_num, group_num, dish_num) && (!active_only
                    || self.dishes_of(rest_num, group_num)[dish_num - 1].active)
                &&& r is Some ==> r->0 == self.dishes_of(rest_num, group_num)[dish_num - 1]
            }),
    {
        let (rest_num, group_num, dish_num, active_only) = match by {
            DishBy::All(rn, gn, dn) => (rn, gn, dn, false),
            DishBy::Active(rn, gn, dn) => (rn, gn, dn, true),
        };
        if rest_num < 1 || rest_num as usize > self.rests.len() {
            return None;
        }
        let e = &self.rests[(rest_num as usize) - 1];
        if group_num < 1 || group_num as usize > e.groups.len() {
            return None;
        }
        let ge = &e.groups[(group_num as usize) - 1];
        if dish_num < 1 || dish_num as usize > ge.dishes.len() {
            return None;
        }
        let d = &ge.dishes[(dish_num as usize) - 1];
        if active_only && !d.active {
            return None;
        }
        Some(d.duplicate())
    }

    /// Renames a restaurant.
    pub fn rest_edit_title(&mut self, rest_num: i32, new_str: String) -> (r: bool)
        requires
            old(self).wf(),
        ensures
            final(self).wf(),
            r <==> old(self).rest_valid(rest_num),
            !r ==> *final(self) == *old(self),
            r ==> final(self).rests@ =~= old(self).rests@.update(
                rest_num - 1,
                (RestEntry {
                    rest: (Restaurant { title: new_str, ..old(self).rests@[rest_num - 1].rest }),
                    groups: old(self).rests@[rest_num - 1].groups,
                }),
            ),
    {
        if rest_num < 1 || rest_num as usize > self.rests.len() {
            return false;
        }
        let ri = (rest_num as usize) - 1;
        let e = &mut self.rests[ri];
        e.rest.title = new_str;
        proof {
            lemma_wf_after_entry_update(old(self).rests@, self.rests@, ri as int);
        }
        true
    }

    /// Rewrites a restaurant's description.
    pub fn rest_edit_info(&mut self, rest_num: i32, new_str: String) -> (r: bool)
        requires
            old(self).wf(),
        ensures
            final(self).wf(),
            r <==> old(self).rest_valid(rest_num),
            !r ==> *final(self) == *old(self),
            r ==> final(self).rests@ =~= old(self).rests@.update(
                rest_num - 1,
                (RestEntry {
                    rest: (Restaurant { info: new_str, ..old(self).rests@[rest_num - 1].rest }),
                    groups: old(self).rests@[rest_num - 1].groups,
                }),
            ),
    {
        if rest_num < 1 || rest_num as usize > self.rests.len() {
            return false;
        }
        let ri = (rest_num as usize) - 1;
        let e = &mut self.rests[ri];
        e.rest.info = new_str;
        proof {
            lemma_wf_after_entry_update(old(self).rests@, self.rests@, ri as int);
        }
        true
    }

    /// Flips a restaurant's visibility to eaters.
    pub fn rest_toggle(&mut self, rest_num: i32) -> (r: bool)
        requires
            old(self).wf(),
        ensures
            final(self).wf(),
            r <==> old(self).rest_valid(rest_num),
            !r ==> *final(self) == *old(self),
            r ==> final(self).rests@ =~= old(self).rests@.update(
                rest_num - 1,
                (RestEntry {
                    rest: (Restaurant {
                        active: !old(self).rests@[rest_num - 1].rest.active,
                        ..old(self).rests@[rest_num - 1].rest
                    }),
                    groups: old(self).rests@[rest_num - 1].groups,
                }),
            ),
    {
        if rest_num < 1 || rest_num as usize > self.rests.len() {
            return false;
        }
        let ri = (rest_num as usize) - 1;
        let e = &mut self.rests[ri];
        e.rest.active = !e.rest.active;
        proof {
            lemma_wf_after_entry_update(old(self).rests@, self.rests@, ri as int);
        }
        true
    }

    /// Replaces a restaurant's picture.
    pub fn rest_edit_image(&mut self, rest_num: i32, image_id: &String) -> (r: bool)
        requires
            old(self).wf(),
        ensures
            final(self).wf(),
            r <==> old(self).rest_valid(rest_num),
            !r ==> *final(self) == *old(self),
            r ==> final(self).rests@ =~= old(self).rests@.update(
                rest_num - 1,
                (RestEntry {
                    rest: (Restaurant {
                        image_id: Some(*image_id),
                        ..old(self).rests@[rest_num - 1].rest
                    }),
                    groups: old(self).rests@[rest_num - 1].groups,
                }),
            ),
    {
        if rest_num < 1 || rest_num as usize > self.rests.len() {
            return false;
        }
        let ri = (rest_num as usize) - 1;
        let e = &mut self.rests[ri];
        e.rest.image_id = Some(image_id.clone());
        proof {
            lemma_wf_after_entry_update(old(self).rests@, self.rests@, ri as int);
        }
        true
    }

    /// Hands a restaurant to a new owner. Refused when the target user
    /// already owns a restaurant: owners are unique, as the store's key
    /// constraint would enforce.
    pub fn transfer_ownership(&mut self, rest_num: i32, new_user_id: i32) -> (r: bool)
        requires
            old(self).wf(),
        ensures
            final(self).wf(),
            r <==> old(self).rest_valid(rest_num) && (!old(self).has_owner(new_user_id) || old(
                self,
            ).rests@[rest_num - 1].rest.user_id == new_user_id),
            !r ==> *final(self) == *old(self),
            r ==> final(self).rests@ =~= old(self).rests@.update(
                rest_num - 1,
                (RestEntry {
                    rest: (Restaurant {
                        user_id: new_user_id,
                        ..old(self).rests@[rest_num - 1].rest
                    }),
                    groups: old(self).rests@[rest_num - 1].groups,
                }),
            ),
    {
        if rest_num < 1 || rest_num as usize > self.rests.len() {
            return false;
        }
        let ri = (rest_num as usize) - 1;
        match self.find_by_id(new_user_id) {
            Some(i) => {
                if i != ri {
                    return false;
                }
            },
            None => {},
        }
        let e = &mut self.rests[ri];
        e.rest.user_id = new_user_id;
        proof {
            assert forall|i: int|
                0 <= i < self.rests@.len() implies rest_entry_wf(
                #[trigger] self.rests@[i],
                i + 1,
            ) by {
                assert(rest_entry_wf(old(self).rests@[i], i + 1));
                if i != ri as int {
                    assert(self.rests@[i] == old(self).rests@[i]);
                }
            }
            assert forall|i: int, j: int|
                0 <= i < j < self.rests@.len() implies (#[trigger] self.rests@[i]).rest.user_id
                != (#[trigger] self.rests@[j]).rest.user_id by {
                if i != ri as int && j != ri as int {
                    assert(self.rests@[i] == old(self).rests@[i]);
                    assert(self.rests@[j] == old(self).rests@[j]);
                }
            }
        }
        true
    }

    /// Registers a caterer: re-enables the restaurant the user already owns,
    /// or opens a fresh one with default fields. Fails only when the display
    /// indices are exhausted.
    pub fn register_caterer(&mut self, user_id: i32) -> (r: bool)
        requires
            old(self).wf(),
        ensures
            final(self).wf(),
            old(self).has_owner(user_id) ==> r && final(self).rests@ =~= old(self).rests@.update(
                old(self).owner_idx(user_id),
                (RestEntry {
                    rest: (Restaurant {
                        enabled: true,
                        ..old(self).rests@[old(self).owner_idx(user_id)].rest
                    }),
                    groups: old(self).rests@[old(self).owner_idx(user_id)].groups,
                }),
            ),
            !old(self).has_owner(user_id) && old(self).rests@.len() < i32::MAX ==> {
                &&& r
                &&& final(self).rests@.len() == old(self).rests@.len() + 1
                &&& forall|i: int|
                    0 <= i < old(self).rests@.len() ==> final(self).rests@[i] == #[trigger] old(
                        self,
                    ).rests@[i]
                &&& final(self).rests@.last().rest.user_id == user_id
                &&& final(self).rests@.last().rest.enabled
                &&& !final(self).rests@.last().rest.active
                &&& final(self).rests@.last().rest.num == old(self).rests@.len() + 1
                &&& final(self).rests@.last().rest.title@ == "Мяу"@
                &&& final(self).rests@.last().rest.info@
                    == "Наш адрес 00NDC, доставка @nick, +84123"@
                &&& final(self).rests@.last().rest.opening_time == 420
                &&& final(self).rests@.last().rest.closing_time == 1380
                &&& final(self).rests@.last().rest.image_id is None
                &&& final(self).rests@.last().groups@.len() == 0
            },
            !old(self).has_owner(user_id) && old(self).rests@.len() >= i32::MAX ==> !r && *final(self)
                == *old(self),
    {
        match self.find_by_id(user_id) {
            Some(i) => {
                let e = &mut self.rests[i];
                e.rest.enabled = true;
                proof {
                    lemma_wf_after_entry_update(old(self).rests@, self.rests@, i as int);
                }
                true
            },
            None => {
                if self.rests.len() >= (i32::MAX as usize) {
                    return false;
                }
                let num = (self.rests.len() as i32) + 1;
                let entry = RestEntry {
                    rest: Restaurant {
                        user_id,
                        title: String::from_str("Мяу"),
                        info: String::from_str("Наш адрес 00NDC, доставка @nick, +84123"),
                        active: false,
                        enabled: true,
                        num,
                        image_id: None,
                        opening_time: 420,
                        closing_time: 1380,
                    },
                    groups: Vec::new(),
                };
                self.rests.push(entry);
                proof {
                    assert forall|i: int|
                        0 <= i < self.rests@.len() implies rest_entry_wf(
                        #[trigger] self.rests@[i],
                        i + 1,
                    ) by {
                        if i < self.rests@.len() - 1 {
                            assert(self.rests@[i] == old(self).rests@[i]);
                            assert(rest_entry_wf(old(self).rests@[i], i + 1));
                        }
                    }
                    assert forall|i: int, j: int|
                        0 <= i < j < self.rests@.len() implies (
                    #[trigger] self.rests@[i]).rest.user_id != (
                    #[trigger] self.rests@[j]).rest.user_id by {
                        if j < self.rests@.len() - 1 {
                            assert(self.rests@[i] == old(self).rests@[i]);
                            assert(self.rests@[j] == old(self).rests@[j]);
                        } else {
                            assert(self.rests@[i] == old(self).rests@[i]);
                        }
                    }
                }
                true
            },
        }
    }

    /// Suspends a caterer: disables access and hides the menu. Fails when
    /// the user owns no restaurant.
    pub fn hold_caterer(&mut self, user_id: i32) -> (r: Result<(), ()>)
        requires
            old(self).wf(),
        ensures
            final(self).wf(),
            r is Ok <==> old(self).has_owner(user_id),
            r is Err ==> *final(self) == *old(self),
            r is Ok ==> final(self).rests@ =~= old(self).rests@.update(
                old(self).owner_idx(user_id),
                (RestEntry {
                    rest: (Restaurant {
                        enabled: false,
                        active: false,
                        ..old(self).rests@[old(self).owner_idx(user_id)].rest
                    }),
                    groups: old(self).rests@[old(self).owner_idx(user_id)].groups,
                }),
            ),
    {
        match self.find_by_id(user_id) {
            Some(i) => {
                let e = &mut self.rests[i];
                e.rest.enabled = false;
                e.rest.active = false;
                proof {
                    lemma_wf_after_entry_update(old(self).rests@, self.rests@, i as int);
                }
                Ok(())
            },
            None => Err(()),
        }
    }
}


/// A group-level update kept every shape: only restaurant `ri`'s group `gi`
/// changed, and it is still well formed at its position.
proof fn lemma_wf_after_group_update(old_c: Seq<RestEntry>, new_c: Seq<RestEntry>, ri: int, gi: int)
    requires
        forall|i: int| 0 <= i < old_c.len() ==> rest_entry_wf(#[trigger] old_c[i], i + 1),
        forall|i: int, j: int|
            0 <= i < j < old_c.len() ==> (#[trigger] old_c[i]).rest.user_id != (
            #[trigger] old_c[j]).rest.user_id,
        new_c.len() == old_c.len(),
        0 <= ri < old_c.len(),
        forall|i: int| 0 <= i < new_c.len() && i != ri ==> #[trigger] new_c[i] == old_c[i],
        new_c[ri].rest == old_c[ri].rest,
        new_c[ri].groups@.len() == old_c[ri].groups@.len(),
        0 <= gi < old_c[ri].groups@.len(),
        forall|j: int|
            0 <= j < new_c[ri].groups@.len() && j != gi ==> #[trigger] new_c[ri].groups@[j]
                == old_c[ri].groups@[j],
        group_entry_wf(new_c[ri].groups@[gi], ri + 1, gi + 1),
    ensures
        forall|i: int| 0 <= i < new_c.len() ==> rest_entry_wf(#[trigger] new_c[i], i + 1),
        forall|i: int, j: int|
            0 <= i < j < new_c.len() ==> (#[trigger] new_c[i]).rest.user_id != (
            #[trigger] new_c[j]).rest.user_id,
{
    assert forall|i: int| 0 <= i < new_c.len() implies rest_entry_wf(
        #[trigger] new_c[i],
        i + 1,
    ) by {
        assert(rest_entry_wf(old_c[i], i + 1));
        if i == ri {
            assert forall|j: int|
                0 <= j < new_c[i].groups@.len() implies group_entry_wf(
                #[trigger] new_c[i].groups@[j],
                i + 1,
                j + 1,
            ) by {
                if j != gi {
                    assert(new_c[i].groups@[j] == old_c[i].groups@[j]);
                    assert(group_entry_wf(old_c[i].groups@[j], i + 1, j + 1));
                }
            }
        }
    }
    assert forall|i: int, j: int|
        0 <= i < j < new_c.len() implies (#[trigger] new_c[i]).rest.user_id != (
    #[trigger] new_c[j]).rest.user_id by {
        assert(new_c[i].rest.user_id == old_c[i].rest.user_id);
        assert(new_c[j].rest.user_id == old_c[j].rest.user_id);
    }
}

impl Catalog {
    /// Renames a group.
    pub fn rest_group_edit_title(&mut self, rest_num: i32, group_num: i32, new_str: String) -> (r:
        bool)
        requires
            old(self).wf(),
        ensures
            final(self).wf(),
            r <==> old(self).group_valid(rest_num, group_num),
            !r ==> *final(self) == *old(self),
            r ==> final(self).rests@.len() == old(self).rests@.len() && (forall|i: int|
                0 <= i < old(self).rests@.len() && i != rest_num - 1 ==> final(self).rests@[i]
                    == #[trigger] old(self).rests@[i]) && final(self).rests@[rest_num - 1].rest
                == old(self).rests@[rest_num - 1].rest,
            r ==> final(self).groups_of(rest_num) =~= old(self).groups_of(rest_num).update(
                group_num - 1,
                (GroupEntry {
                    group: (Group {
                        title: new_str,
                        ..old(self).groups_of(rest_num)[group_num - 1].group
                    }),
                    dishes: old(self).groups_of(rest_num)[group_num - 1].dishes,
                }),
            ),
    {
        if rest_num < 1 || rest_num as usize > self.rests.len() {
            return false;
        }
        let ri = (rest_num as usize) - 1;
        if group_num < 1 || group_num as usize > self.rests[ri].groups.len() {
            return false;
        }
        let gi = (group_num as usize) - 1;
        let g = &mut self.rests[ri].groups[gi];
        g.group.title = new_str;
        proof {
            lemma_wf_after_group_update(old(self).rests@, self.rests@, ri as int, gi as int);
        }
        true
    }

    /// Renames a dish.
    pub fn rest_dish_edit_title(
        &mut self,
        rest_num: i32,
        group_num: i32,
        dish_num: i32,
        new_str: String,
    ) -> (r: bool)
        requires
            old(self).wf(),
        ensures
            final(self).wf(),
            r <==> old(self).dish_valid(rest_num, group_num, dish_num),
            !r ==> *final(self) == *old(self),
            r ==> {
                &&& final(self).rests@.len() == old(self).rests@.len()
                &&& forall|i: int|
                    0 <= i < old(self).rests@.len() && i != rest_num - 1 ==> final(self).rests@[i]
                        == #[trigger] old(self).rests@[i]
                &&& final(self).rests@[rest_num - 1].rest == old(self).rests@[rest_num - 1].rest
                &&& final(self).groups_of(rest_num).len() == old(self).groups_of(rest_num).len()
                &&& forall|j: int|
                    0 <= j < old(self).groups_of(rest_num).len() && j != group_num - 1 ==> final(self).groups_of(
                        rest_num,
                    )[j] == #[trigger] old(self).groups_of(rest_num)[j]
                &&& final(self).groups_of(rest_num)[group_num - 1].group == old(self).groups_of(
                    rest_num,
                )[group_num - 1].group
            },
            r ==> final(self).dishes_of(rest_num, group_num) =~= old(self).dishes_of(
                rest_num,
                group_num,
            ).update(
                dish_num - 1,
                (Dish {
                    title: new_str,
                    ..old(self).dishes_of(rest_num, group_num)[dish_num - 1]
                }),
            ),
    {
        if rest_num < 1 || rest_num as usize > self.rests.len() {
            return false;
        }
        let ri = (rest_num as usize) - 1;
        if group_num < 1 || group_num as usize > self.rests[ri].groups.len() {
            return false;
        }
        let gi = (group_num as usize) - 1;
        if dish_num < 1 || dish_num as usize > self.rests[ri].groups[gi].dishes.len() {
            return false;
        }
        let di = (dish_num as usize) - 1;
        let d = &mut self.rests[ri].groups[gi].dishes[di];
        d.title = new_str;
        proof {
            assert(group_entry_wf(self.rests@[ri as int].groups@[gi as int], ri + 1, gi + 1)) by {
                assert(group_entry_wf(
                    old(self).rests@[ri as int].groups@[gi as int],
                    ri + 1,
                    gi + 1,
                ));
                assert forall|k: int|
                    0 <= k < self.rests@[ri as int].groups@[gi as int].dishes@.len() implies dish_wf(
                    #[trigger] self.rests@[ri as int].groups@[gi as int].dishes@[k],
                    ri + 1,
                    gi + 1,
                    k + 1,
                ) by {
                    if k != di as int {
                        assert(self.rests@[ri as int].groups@[gi as int].dishes@[k] == old(
                            self,
                        ).rests@[ri as int].groups@[gi as int].dishes@[k]);
                    }
                }
            }
            lemma_wf_after_group_update(old(self).rests@, self.rests@, ri as int, gi as int);
        }
        true
    }
}


impl Catalog {
    /// Rewrites a group's description.
    pub fn rest_group_edit_info(&mut self, rest_num: i32, group_num: i32, new_str: String) -> (r: bool)
        requires
            old(self).wf(),
        ensures
            final(self).wf(),
            r <==> old(self).group_valid(rest_num, group_num),
            !r ==> *final(self) == *old(self),
            r ==> final(self).rests@.len() == old(self).rests@.len() && (forall|i: int|
                0 <= i < old(self).rests@.len() && i != rest_num - 1 ==> final(self).rests@[i]
                    == #[trigger] old(self).rests@[i]) && final(self).rests@[rest_num - 1].rest
                == old(self).rests@[rest_num - 1].rest,
            r ==> final(self).groups_of(rest_num) =~= old(self).groups_of(rest_num).update(
                group_num - 1,
                (GroupEntry {
                    group: (Group {
                        info: new_str,
                        ..old(self).groups_of(rest_num)[group_num - 1].group
                    }),
                    dishes: old(self).groups_of(rest_num)[group_num - 1].dishes,
                }),
            ),
    {
        if rest_num < 1 || rest_num as usize > self.rests.len() {
            return false;
        }
        let ri = (rest_num as usize) - 1;
        if group_num < 1 || group_num as usize > self.rests[ri].groups.len() {
            return false;
        }
        let gi = (group_num as usize) - 1;
        let g = &mut self.rests[ri].groups[gi];
        g.group.info = new_str;
        proof {
            lemma_wf_after_group_update(old(self).rests@, self.rests@, ri as int, gi as int);
        }
        true
    }

    /// Flips a group's visibility.
    pub fn rest_group_toggle(&mut self, rest_num: i32, group_num: i32) -> (r: bool)
        requires
            old(self).wf(),
        ensures
            final(self).wf(),
            r <==> old(self).group_valid(rest_num, group_num),
            !r ==> *final(self) == *old(self),
            r ==> final(self).rests@.len() == old(self).rests@.len() && (forall|i: int|
                0 <= i < old(self).rests@.len() && i != rest_num - 1 ==> final(self).rests@[i]
                    == #[trigger] old(self).rests@[i]) && final(self).rests@[rest_num - 1].rest
                == old(self).rests@[rest_num - 1].rest,
            r ==> final(self).groups_of(rest_num) =~= old(self).groups_of(rest_num).update(
                group_num - 1,
                (GroupEntry {
                    group: (Group {
                        active: !old(self).groups_of(rest_num)[group_num - 1].group.active,
                        ..old(self).groups_of(rest_num)[group_num - 1].group
                    }),
                    dishes: old(self).groups_of(rest_num)[group_num - 1].dishes,
                }),
            ),
    {
        if rest_num < 1 || rest_num as usize > self.rests.len() {
            return false;
        }
        let ri = (rest_num as usize) - 1;
        if group_num < 1 || group_num as usize > self.rests[ri].groups.len() {
            return false;
        }
        let gi = (group_num as usize) - 1;
        let g = &mut self.rests[ri].groups[gi];
        g.group.active = !g.group.active;
        proof {
            lemma_wf_after_group_update(old(self).rests@, self.rests@, ri as int, gi as int);
        }
        true
    }

    /// Moves a group to another category.
    pub fn rest_group_edit_category(&mut self, rest_num: i32, group_num: i32, new_cat: i32) -> (r: bool)
        requires
            old(self).wf(),
        ensures
            final(self).wf(),
            r <==> old(self).group_valid(rest_num, group_num),
            !r ==> *final(self) == *old(self),
            r ==> final(self).rests@.len() == old(self).rests@.len() && (forall|i: int|
                0 <= i < old(self).rests@.len() && i != rest_num - 1 ==> final(self).rests@[i]
                    == #[trigger] old(self).rests@[i]) && final(self).rests@[rest_num - 1].rest
                == old(self).rests@[rest_num - 1].rest,
            r ==> final(self).groups_of(rest_num) =~= old(self).groups_of(rest_num).update(
                group_num - 1,
                (GroupEntry {
                    group: (Group {
                        cat_id: new_cat,
                        ..old(self).groups_of(rest_num)[group_num - 1].group
                    }),
                    dishes: old(self).groups_of(rest_num)[group_num - 1].dishes,
                }),
            ),
    {
        if rest_num < 1 || rest_num as usize > self.rests.len() {
            return false;
        }
        let ri = (rest_num as usize) - 1;
        if group_num < 1 || group_num as usize > self.rests[ri].groups.len() {
            return false;
        }
        let gi = (group_num as usize) - 1;
        let g = &mut self.rests[ri].groups[gi];
        g.group.cat_id = new_cat;
        proof {
            lemma_wf_after_group_update(old(self).rests@, self.rests@, ri as int, gi as int);
        }
        true
    }

    /// Rewrites a dish's description.
    pub fn rest_dish_edit_info(
        &mut self,
        rest_num: i32,
        group_num: i32,
        dish_num: i32,
        new_str: String,
    ) -> (r: bool)
        requires
            old(self).wf(),
        ensures
            final(self).wf(),
            r <==> old(self).dish_valid(rest_num, group_num, dish_num),
            !r ==> *final(self) == *old(self),
            r ==> {
                &&& final(self).rests@.len() == old(self).rests@.len()
                &&& forall|i: int|
                    0 <= i < old(self).rests@.len() && i != rest_num - 1 ==> final(self).rests@[i]
                        == #[trigger] old(self).rests@[i]
                &&& final(self).rests@[rest_num - 1].rest == old(self).rests@[rest_num - 1].rest
                &&& final(self).groups_of(rest_num).len() == old(self).groups_of(rest_num).len()
                &&& forall|j: int|
                    0 <= j < old(self).groups_of(rest_num).len() && j != group_num - 1 ==> final(self).groups_of(
                        rest_num,
                    )[j] == #[trigger] old(self).groups_of(rest_num)[j]
                &&& final(self).groups_of(rest_num)[group_num - 1].group == old(self).groups_of(
                    rest_num,
                )[group_num - 1].group
            },
            r ==> final(self).dishes_of(rest_num, group_num) =~= old(self).dishes_of(
                rest_num,
                group_num,
            ).update(
                dish_num - 1,
                (Dish {
                    info: new_str,
                    ..old(self).dishes_of(rest_num, group_num)[dish_num - 1]
                }),
            ),
    {
        if rest_num < 1 || rest_num as usize > self.rests.len() {
            return false;
        }
        let ri = (rest_num as usize) - 1;
        if group_num < 1 || group_num as usize > self.rests[ri].groups.len() {
            return false;
        }
        let gi = (group_num as usize) - 1;
        if dish_num < 1 || dish_num as usize > self.rests[ri].groups[gi].dishes.len() {
            return false;
        }
        let di = (dish_num as usize) - 1;
        let d = &mut self.rests[ri].groups[gi].dishes[di];
        d.info = new_str;
        proof {
            assert(group_entry_wf(self.rests@[ri as int].groups@[gi as int], ri + 1, gi + 1)) by {
                assert(group_entry_wf(
                    old(self).rests@[ri as int].groups@[gi as int],
                    ri + 1,
                    gi + 1,
                ));
                assert forall|k: int|
                    0 <= k < self.rests@[ri as int].groups@[gi as int].dishes@.len() implies dish_wf(
                    #[trigger] self.rests@[ri as int].groups@[gi as int].dishes@[k],
                    ri + 1,
                    gi + 1,
                    k + 1,
                ) by {
                    if k != di as int {
                        assert(self.rests@[ri as int].groups@[gi as int].dishes@[k] == old(
                            self,
                        ).rests@[ri as int].groups@[gi as int].dishes@[k]);
                    }
                }
            }
            lemma_wf_after_group_update(old(self).rests@, self.rests@, ri as int, gi as int);
        }
        true
    }

    /// Flips a dish's visibility.
    pub fn rest_dish_toggle(
        &mut self,
        rest_num: i32,
        group_num: i32,
        dish_num: i32,
    ) -> (r: bool)
        requires
            old(self).wf(),
        ensures
            final(self).wf(),
            r <==> old(self).dish_valid(rest_num, group_num, dish_num),
            !r ==> *final(self) == *old(self),
            r ==> {
                &&& final(self).rests@.len() == old(self).rests@.len()
                &&& forall|i: int|
                    0 <= i < old(self).rests@.len() && i != rest_num - 1 ==> final(self).rests@[i]
                        == #[trigger] old(self).rests@[i]
                &&& final(self).rests@[rest_num - 1].rest == old(self).rests@[rest_num - 1].rest
                &&& final(self).groups_of(rest_num).len() == old(self).groups_of(rest_num).len()
                &&& forall|j: int|
                    0 <= j < old(self).groups_of(rest_num).len() && j != group_num - 1 ==> final(self).groups_of(
                        rest_num,
                    )[j] == #[trigger] old(self).groups_of(rest_num)[j]
                &&& final(self).groups_of(rest_num)[group_num - 1].group == old(self).groups_of(
                    rest_num,
                )[group_num - 1].group
            },
            r ==> final(self).dishes_of(rest_num, group_num) =~= old(self).dishes_of(
                rest_num,
                group_num,
            ).update(
                dish_num - 1,
                (Dish {
                    active: !old(self).dishes_of(rest_num, group_num)[dish_num - 1].active,
                    ..old(self).dishes_of(rest_num, group_num)[dish_num - 1]
                }),
            ),
    {
        if rest_num < 1 || rest_num as usize > self.rests.len() {
            return false;
        }
        let ri = (rest_num as usize) - 1;
        if group_num < 1 || group_num as usize > self.rests[ri].groups.len() {
            return false;
        }
        let gi = (group_num as usize) - 1;
        if dish_num < 1 || dish_num as usize > self.rests[ri].groups[gi].dishes.len() {
            return false;
        }
        let di = (dish_num as usize) - 1;
        let d = &mut self.rests[ri].groups[gi].dishes[di];
        d.active = !d.active;
        proof {
            assert(group_entry_wf(self.rests@[ri as int].groups@[gi as int], ri + 1, gi + 1)) by {
                assert(group_entry_wf(
                    old(self).rests@[ri as int].groups@[gi as int],
                    ri + 1,
                    gi + 1,
                ));
                assert forall|k: int|
                    0 <= k < self.rests@[ri as int].groups@[gi as int].dishes@.len() implies dish_wf(
                    #[trigger] self.rests@[ri as int].groups@[gi as int].dishes@[k],
                    ri + 1,
                    gi + 1,
                    k + 1,
                ) by {
                    if k != di as int {
                        assert(self.rests@[ri as int].groups@[gi as int].dishes@[k] == old(
                            self,
                        ).rests@[ri as int].groups@[gi as int].dishes@[k]);
                    }
                }
            }
            lemma_wf_after_group_update(old(self).rests@, self.rests@, ri as int, gi as int);
        }
        true
    }

    /// Reprices a dish.
    pub fn rest_dish_edit_price(
        &mut self,
        rest_num: i32,
        group_num: i32,
        dish_num: i32,
        price: i32,
    ) -> (r: bool)
        requires
            old(self).wf(),
        ensures
            final(self).wf(),
            r <==> old(self).dish_valid(rest_num, group_num, dish_num),
            !r ==> *final(self) == *old(self),
            r ==> {
                &&& final(self).rests@.len() == old(self).rests@.len()
                &&& forall|i: int|
                    0 <= i < old(self).rests@.len() && i != rest_num - 1 ==> final(self).rests@[i]
                        == #[trigger] old(self).rests@[i]
                &&& final(self).rests@[rest_num - 1].rest == old(self).rests@[rest_num - 1].rest
                &&& final(self).groups_of(rest_num).len() == old(self).groups_of(rest_num).len()
                &&& forall|j: int|
                    0 <= j < old(self).groups_of(rest_num).len() && j != group_num - 1 ==> final(self).groups_of(
                        rest_num,
                    )[j] == #[trigger] old(self).groups_of(rest_num)[j]
                &&& final(self).groups_of(rest_num)[group_num - 1].group == old(self).groups_of(
                    rest_num,
                )[group_num - 1].group
            },
            r ==> final(self).dishes_of(rest_num, group_num) =~= old(self).dishes_of(
                rest_num,
                group_num,
            ).update(
                dish_num - 1,
                (Dish {
                    price: price,
                    ..old(self).dishes_of(rest_num, group_num)[dish_num - 1]
                }),
            ),
    {
        if rest_num < 1 || rest_num as usize > self.rests.len() {
            return false;
        }
        let ri = (rest_num as usize) - 1;
        if group_num < 1 || group_num as usize > self.rests[ri].groups.len() {
            return false;
        }
        let gi = (group_num as usize) - 1;
        if dish_num < 1 || dish_num as usize > self.rests[ri].groups[gi].dishes.len() {
            return false;
        }
        let di = (dish_num as usize) - 1;
        let d = &mut self.rests[ri].groups[gi].dishes[di];
        d.price = price;
        proof {
            assert(group_entry_wf(self.rests@[ri as int].groups@[gi as int], ri + 1, gi + 1)) by {
                assert(group_entry_wf(
                    old(self).rests@[ri as int].groups@[gi as int],
                    ri + 1,
                    gi + 1,
                ));
                assert forall|k: int|
                    0 <= k < self.rests@[ri as int].groups@[gi as int].dishes@.len() implies dish_wf(
                    #[trigger] self.rests@[ri as int].groups@[gi as int].dishes@[k],
                    ri + 1,
                    gi + 1,
                    k + 1,
                ) by {
                    if k != di as int {
                        assert(self.rests@[ri as int].groups@[gi as int].dishes@[k] == old(
                            self,
                        ).rests@[ri as int].groups@[gi as int].dishes@[k]);
                    }
                }
            }
            lemma_wf_after_group_update(old(self).rests@, self.rests@, ri as int, gi as int);
        }
        true
    }

    /// Replaces a dish's picture.
    pub fn rest_dish_edit_image(
        &mut self,
        rest_num: i32,
        group_num: i32,
        dish_num: i32,
        image_id: &String,
    ) -> (r: bool)
        requires
            old(self).wf(),
        ensures
            final(self).wf(),
            r <==> old(self).dish_valid(rest_num, group_num, dish_num),
            !r ==> *final(self) == *old(self),
            r ==> {
                &&& final(self).rests@.len() == old(self).rests@.len()
                &&& forall|i: int|
                    0 <= i < old(self).rests@.len() && i != rest_num - 1 ==> final(self).rests@[i]
                        == #[trigger] old(self).rests@[i]
                &&& final(self).rests@[rest_num - 1].rest == old(self).rests@[rest_num - 1].rest
                &&& final(self).groups_of(rest_num).len() == old(self).groups_of(rest_num).len()
                &&& forall|j: int|
                    0 <= j < old(self).groups_of(rest_num).len() && j != group_num - 1 ==> final(self).groups_of(
                        rest_num,
                    )[j] == #[trigger] old(self).groups_of(rest_num)[j]
                &&& final(self).groups_of(rest_num)[group_num - 1].group == old(self).groups_of(
                    rest_num,
                )[group_num - 1].group
            },
            r ==> final(self).dishes_of(rest_num, group_num) =~= old(self).dishes_of(
                rest_num,
                group_num,
            ).update(
                dish_num - 1,
                (Dish {
                    image_id: Some(*image_id),
                    ..old(self).dishes_of(rest_num, group_num)[dish_num - 1]
                }),
            ),
    {
        if rest_num < 1 || rest_num as usize > self.rests.len() {
            return false;
        }
        let ri = (rest_num as usize) - 1;
        if group_num < 1 || group_num as usize > self.rests[ri].groups.len() {
            return false;
        }
        let gi = (group_num as usize) - 1;
        if dish_num < 1 || dish_num as usize > self.rests[ri].groups[gi].dishes.len() {
            return false;
        }
        let di = (dish_num as usize) - 1;
        let d = &mut self.rests[ri].groups[gi].dishes[di];
        d.image_id = Some(image_id.clone());
        proof {
            assert(group_entry_wf(self.rests@[ri as int].groups@[gi as int], ri + 1, gi + 1)) by {
                assert(group_entry_wf(
                    old(self).rests@[ri as int].groups@[gi as int],
                    ri + 1,
                    gi + 1,
                ));
                assert forall|k: int|
                    0 <= k < self.rests@[ri as int].groups@[gi as int].dishes@.len() implies dish_wf(
                    #[trigger] self.rests@[ri as int].groups@[gi as int].dishes@[k],
                    ri + 1,
                    gi + 1,
                    k + 1,
                ) by {
                    if k != di as int {
                        assert(self.rests@[ri as int].groups@[gi as int].dishes@[k] == old(
                            self,
                        ).rests@[ri as int].groups@[gi as int].dishes@[k]);
                    }
                }
            }
            lemma_wf_after_group_update(old(self).rests@, self.rests@, ri as int, gi as int);
        }
        true
    }

    /// Opens a new group at the end of a restaurant's menu, with default
    /// fields: the food category, a stock description, open seven to
    /// twenty-three.
    pub fn rest_add_group(&mut self, rest_num: i32, new_str: String) -> (r: bool)
        requires
            old(self).wf(),
        ensures
            final(self).wf(),
            r <==> old(self).rest_valid(rest_num) && old(self).groups_of(rest_num).len()
                < i32::MAX,
            !r ==> *final(self) == *old(self),
            r ==> {
                &&& final(self).rests@.len() == old(self).rests@.len()
                &&& forall|i: int|
                    0 <= i < old(self).rests@.len() && i != rest_num - 1 ==> final(self).rests@[i]
                        == #[trigger] old(self).rests@[i]
                &&& final(self).rests@[rest_num - 1].rest == old(self).rests@[rest_num - 1].rest
                &&& final(self).groups_of(rest_num).len() == old(self).groups_of(rest_num).len()
                    + 1
                &&& forall|j: int|
                    0 <= j < old(self).groups_of(rest_num).len() ==> final(self).groups_of(
                        rest_num,
                    )[j] == #[trigger] old(self).groups_of(rest_num)[j]
                &&& final(self).groups_of(rest_num).last().group.title == new_str
                &&& final(self).groups_of(rest_num).last().group.active
                &&& final(self).groups_of(rest_num).last().group.cat_id == 2
                &&& final(self).groups_of(rest_num).last().group.opening_time == 420
                &&& final(self).groups_of(rest_num).last().group.closing_time == 1380
                &&& final(self).groups_of(rest_num).last().group.info@
                    == "Блюда подаются на тарелке"@
                &&& final(self).groups_of(rest_num).last().group.num == old(self).groups_of(
                    rest_num,
                ).len() + 1
                &&& final(self).groups_of(rest_num).last().dishes@.len() == 0
            },
    {
        if rest_num < 1 || rest_num as usize > self.rests.len() {
            return false;
        }
        let ri = (rest_num as usize) - 1;
        if self.rests[ri].groups.len() >= (i32::MAX as usize) {
            return false;
        }
        let e = &mut self.rests[ri];
        let num = (e.groups.len() as i32) + 1;
        let entry = GroupEntry {
            group: Group {
                rest_num,
                num,
                title: new_str,
                info: String::from_str("Блюда подаются на тарелке"),
                active: true,
                cat_id: 2,
                opening_time: 420,
                closing_time: 1380,
            },
            dishes: Vec::new(),
        };
        e.groups.push(entry);
        proof {
            assert(rest_entry_wf(self.rests@[ri as int], ri + 1)) by {
                assert(rest_entry_wf(old(self).rests@[ri as int], ri + 1));
                assert forall|j: int|
                    0 <= j < self.rests@[ri as int].groups@.len() implies group_entry_wf(
                    #[trigger] self.rests@[ri as int].groups@[j],
                    ri + 1,
                    j + 1,
                ) by {
                    if j < self.rests@[ri as int].groups@.len() - 1 {
                        assert(self.rests@[ri as int].groups@[j] == old(self).rests@[ri as int].groups@[j]);
                    }
                }
            }
            lemma_wf_after_entry_update(old(self).rests@, self.rests@, ri as int);
        }
        true
    }

    /// Adds a new dish at the end of a group, with default fields: a stock
    /// portion note, visible, free until priced.
    pub fn rest_add_dish(&mut self, rest_num: i32, group_num: i32, new_str: String) -> (r: bool)
        requires
            old(self).wf(),
        ensures
            final(self).wf(),
            r <==> old(self).group_valid(rest_num, group_num) && old(self).dishes_of(
                rest_num,
                group_num,
            ).len() < i32::MAX,
            !r ==> *final(self) == *old(self),
            r ==> {
                &&& final(self).rests@.len() == old(self).rests@.len()
                &&& forall|i: int|
                    0 <= i < old(self).rests@.len() && i != rest_num - 1 ==> final(self).rests@[i]
                        == #[trigger] old(self).rests@[i]
                &&& final(self).rests@[rest_num - 1].rest == old(self).rests@[rest_num - 1].rest
                &&& final(self).groups_of(rest_num).len() == old(self).groups_of(rest_num).len()
                &&& forall|j: int|
                    0 <= j < old(self).groups_of(rest_num).len() && j != group_num - 1 ==> final(self).groups_of(
                        rest_num,
                    )[j] == #[trigger] old(self).groups_of(rest_num)[j]
                &&& final(self).groups_of(rest_num)[group_num - 1].group == old(self).groups_of(
                    rest_num,
                )[group_num - 1].group
                &&& final(self).dishes_of(rest_num, group_num).len() == old(self).dishes_of(
                    rest_num,
                    group_num,
                ).len() + 1
                &&& forall|k: int|
                    0 <= k < old(self).dishes_of(rest_num, group_num).len() ==> final(self).dishes_of(
                        rest_num,
                        group_num,
                    )[k] == #[trigger] old(self).dishes_of(rest_num, group_num)[k]
                &&& final(self).dishes_of(rest_num, group_num).last().title == new_str
                &&& final(self).dishes_of(rest_num, group_num).last().active
                &&& final(self).dishes_of(rest_num, group_num).last().price == 0
                &&& final(self).dishes_of(rest_num, group_num).last().info@ == "Порция 100гр."@
                &&& final(self).dishes_of(rest_num, group_num).last().image_id is None
                &&& final(self).dishes_of(rest_num, group_num).last().num == old(self).dishes_of(
                    rest_num,
                    group_num,
                ).len() + 1
            },
    {
        if rest_num < 1 || rest_num as usize > self.rests.len() {
            return false;
        }
        let ri = (rest_num as usize) - 1;
        if group_num < 1 || group_num as usize > self.rests[ri].groups.len() {
            return false;
        }
        let gi = (group_num as usize) - 1;
        if self.rests[ri].groups[gi].dishes.len() >= (i32::MAX as usize) {
            return false;
        }
        let ge = &mut self.rests[ri].groups[gi];
        let num = (ge.dishes.len() as i32) + 1;
        let entry = Dish {
            rest_num,
            num,
            title: new_str,
            info: String::from_str("Порция 100гр."),
            active: true,
            group_num,
            price: 0,
            image_id: None,
        };
        ge.dishes.push(entry);
        proof {
            assert(group_entry_wf(self.rests@[ri as int].groups@[gi as int], ri + 1, gi + 1)) by {
                assert(group_entry_wf(
                    old(self).rests@[ri as int].groups@[gi as int],
                    ri + 1,
                    gi + 1,
                ));
                assert forall|k: int|
                    0 <= k < self.rests@[ri as int].groups@[gi as int].dishes@.len() implies dish_wf(
                    #[trigger] self.rests@[ri as int].groups@[gi as int].dishes@[k],
                    ri + 1,
                    gi + 1,
                    k + 1,
                ) by {
                    if k < self.rests@[ri as int].groups@[gi as int].dishes@.len() - 1 {
                        assert(self.rests@[ri as int].groups@[gi as int].dishes@[k] == old(
                            self,
                        ).rests@[ri as int].groups@[gi as int].dishes@[k]);
                    }
                }
            }
            lemma_wf_after_group_update(old(self).rests@, self.rests@, ri as int, gi as int);
        }
        true
    }
}


/// The entry a group becomes when the group before it leaves: its own number
/// and its dishes' group numbers drop by one; everything else is kept.
pub open spec fn group_shifted(n: GroupEntry, o: GroupEntry) -> bool {
    &&& n.group == (Group { num: (o.group.num - 1) as i32, ..o.group })
    &&& n.dishes@.len() == o.dishes@.len()
    &&& forall|k: int|
        0 <= k < n.dishes@.len() ==> #[trigger] n.dishes@[k] == (Dish {
            group_num: (o.dishes@[k].group_num - 1) as i32,
            ..o.dishes@[k]
        })
}

impl Catalog {
    /// Deletes the group at position `gi` of one restaurant entry and slides
    /// every later group, and its dishes' group numbers, down by one.
    fn remove_group_at(e: &mut RestEntry, gi: usize)
        requires
            gi < old(e).groups@.len(),
            forall|j: int|
                0 <= j < old(e).groups@.len() ==> group_entry_wf(
                    #[trigger] old(e).groups@[j],
                    old(e).rest.num as int,
                    j + 1,
                ),
        ensures
            final(e).rest == old(e).rest,
            final(e).groups@.len() == old(e).groups@.len() - 1,
            forall|j: int| 0 <= j < gi ==> final(e).groups@[j] == #[trigger] old(e).groups@[j],
            forall|j: int|
                gi <= j < final(e).groups@.len() ==> group_shifted(
                    #[trigger] final(e).groups@[j],
                    old(e).groups@[j + 1],
                ),
            forall|j: int|
                0 <= j < final(e).groups@.len() ==> group_entry_wf(
                    #[trigger] final(e).groups@[j],
                    old(e).rest.num as int,
                    j + 1,
                ),
    {
        let ghost rn = e.rest.num as int;
        let ghost rest0 = e.rest;
        e.groups.remove(gi);
        let ghost gs0 = e.groups@;
        let n = e.groups.len();
        let mut j: usize = gi;
        while j < n
            invariant
                gi <= j <= n,
                n == e.groups@.len(),
                n == gs0.len(),
                e.rest == rest0,
                rn == rest0.num as int,
                forall|idx: int| 0 <= idx < gi ==> #[trigger] e.groups@[idx] == gs0[idx],
                forall|idx: int|
                    gi <= idx < j ==> group_shifted(#[trigger] e.groups@[idx], gs0[idx]),
                forall|idx: int| j <= idx < n ==> #[trigger] e.groups@[idx] == gs0[idx],
                forall|idx: int|
                    gi <= idx < n ==> group_entry_wf(#[trigger] gs0[idx], rn, idx + 2),
            decreases n - j,
        {
            let ghost before = e.groups@;
            let mut ge = e.groups.remove(j);
            proof {
                assert(ge == gs0[j as int]);
                assert(group_entry_wf(gs0[j as int], rn, j + 2));
            }
            let ghost dishes0 = ge.dishes@;
            let ghost target_group = Group { num: (ge.group.num - 1) as i32, ..ge.group };
            ge.group.num = ge.group.num - 1;
            let m = ge.dishes.len();
            let mut k: usize = 0;
            while k < m
                invariant
                    k <= m,
                    m == ge.dishes@.len(),
                    m == dishes0.len(),
                    ge.group == target_group,
                    forall|idx: int|
                        0 <= idx < k ==> #[trigger] ge.dishes@[idx] == (Dish {
                            group_num: (dishes0[idx].group_num - 1) as i32,
                            ..dishes0[idx]
                        }),
                    forall|idx: int| k <= idx < m ==> #[trigger] ge.dishes@[idx] == dishes0[idx],
                    forall|idx: int|
                        0 <= idx < m ==> (#[trigger] dishes0[idx]).group_num >= 1,
                decreases m - k,
            {
                let dd = ge.dishes[k].duplicate();
                ge.dishes.set(k, Dish { group_num: dd.group_num - 1, ..dd });
                k += 1;
            }
            e.groups.insert(j, ge);
            proof {
                assert(e.groups@ =~= before.update(j as int, ge));
                assert(group_shifted(e.groups@[j as int], gs0[j as int]));
            }
            j += 1;
        }
    }

    /// Deletes an empty group: its higher-numbered siblings are renumbered
    /// down by one and their dishes' group numbers move with them, in the
    /// same step, so no two groups of the restaurant ever share a number. A
    /// group that still has dishes is refused.
    pub fn rest_group_remove(&mut self, rest_num: i32, group_num: i32) -> (r: bool)
        requires
            old(self).wf(),
        ensures
            final(self).wf(),
            r <==> old(self).group_valid(rest_num, group_num) && old(self).dishes_of(
                rest_num,
                group_num,
            ).len() == 0,
            !r ==> *final(self) == *old(self),
            r ==> {
                &&& final(self).rests@.len() == old(self).rests@.len()
                &&& forall|i: int|
                    0 <= i < old(self).rests@.len() && i != rest_num - 1 ==> final(self).rests@[i]
                        == #[trigger] old(self).rests@[i]
                &&& final(self).rests@[rest_num - 1].rest == old(self).rests@[rest_num - 1].rest
                &&& final(self).groups_of(rest_num).len() == old(self).groups_of(rest_num).len()
                    - 1
                &&& forall|j: int|
                    0 <= j < group_num - 1 ==> final(self).groups_of(rest_num)[j] == #[trigger] old(
                        self,
                    ).groups_of(rest_num)[j]
                &&& forall|j: int|
                    group_num - 1 <= j < final(self).groups_of(rest_num).len() ==> group_shifted(
                        #[trigger] final(self).groups_of(rest_num)[j],
                        old(self).groups_of(rest_num)[j + 1],
                    )
            },
    {
        if rest_num < 1 || rest_num as usize > self.rests.len() {
            return false;
        }
        let ri = (rest_num as usize) - 1;
        if group_num < 1 || group_num as usize > self.rests[ri].groups.len() {
            return false;
        }
        let gi = (group_num as usize) - 1;
        if self.rests[ri].groups[gi].dishes.len() > 0 {
            return false;
        }
        Self::remove_group_at(&mut self.rests[ri], gi);
        proof {
            assert(rest_entry_wf(self.rests@[ri as int], ri + 1));
            lemma_wf_after_entry_update(old(self).rests@, self.rests@, ri as int);
        }
        true
    }

    /// Deletes the dish at position `di` of a group entry and slides every
    /// later dish down by one number.
    fn remove_dish_at(ge: &mut GroupEntry, di: usize)
        requires
            di < old(ge).dishes@.len(),
            forall|k: int|
                0 <= k < old(ge).dishes@.len() ==> dish_wf(
                    #[trigger] old(ge).dishes@[k],
                    old(ge).group.rest_num as int,
                    old(ge).group.num as int,
                    k + 1,
                ),
        ensures
            final(ge).group == old(ge).group,
            final(ge).dishes@.len() == old(ge).dishes@.len() - 1,
            forall|k: int| 0 <= k < di ==> final(ge).dishes@[k] == #[trigger] old(ge).dishes@[k],
            forall|k: int|
                di <= k < final(ge).dishes@.len() ==> #[trigger] final(ge).dishes@[k] == (Dish {
                    num: (old(ge).dishes@[k + 1].num - 1) as i32,
                    ..old(ge).dishes@[k + 1]
                }),
            forall|k: int|
                0 <= k < final(ge).dishes@.len() ==> dish_wf(
                    #[trigger] final(ge).dishes@[k],
                    old(ge).group.rest_num as int,
                    old(ge).group.num as int,
                    k + 1,
                ),
    {
        let ghost group0 = ge.group;
        ge.dishes.remove(di);
        let ghost ds0 = ge.dishes@;
        let n = ge.dishes.len();
        let mut k: usize = di;
        while k < n
            invariant
                di <= k <= n,
                n == ge.dishes@.len(),
                n == ds0.len(),
                ge.group == group0,
                forall|idx: int| 0 <= idx < di ==> #[trigger] ge.dishes@[idx] == ds0[idx],
                forall|idx: int|
                    di <= idx < k ==> #[trigger] ge.dishes@[idx] == (Dish {
                        num: (ds0[idx].num - 1) as i32,
                        ..ds0[idx]
                    }),
                forall|idx: int| k <= idx < n ==> #[trigger] ge.dishes@[idx] == ds0[idx],
                forall|idx: int| di <= idx < n ==> (#[trigger] ds0[idx]).num >= 1,
            decreases n - k,
        {
            let dd = ge.dishes[k].duplicate();
            ge.dishes.set(k, Dish { num: dd.num - 1, ..dd });
            k += 1;
        }
    }

    /// Deletes a dish: its higher-numbered siblings slide down one number,
    /// and every user's basket is repaired in the same step — lines of the
    /// dish disappear, lines of the shifted dishes are renumbered with them.
    pub fn rest_dish_remove(
        &mut self,
        rest_num: i32,
        group_num: i32,
        dish_num: i32,
        baskets: &mut BasketStore,
    ) -> (r: bool)
        requires
            old(self).wf(),
            old(baskets).wf(),
        ensures
            final(self).wf(),
            final(baskets).wf(),
            r <==> old(self).dish_valid(rest_num, group_num, dish_num),
            !r ==> *final(self) == *old(self) && *final(baskets) == *old(baskets),
            r ==> {
                &&& final(self).rests@.len() == old(self).rests@.len()
                &&& forall|i: int|
                    0 <= i < old(self).rests@.len() && i != rest_num - 1 ==> final(self).rests@[i]
                        == #[trigger] old(self).rests@[i]
                &&& final(self).rests@[rest_num - 1].rest == old(self).rests@[rest_num - 1].rest
                &&& final(self).groups_of(rest_num).len() == old(self).groups_of(rest_num).len()
                &&& forall|j: int|
                    0 <= j < old(self).groups_of(rest_num).len() && j != group_num - 1 ==> final(self).groups_of(
                        rest_num,
                    )[j] == #[trigger] old(self).groups_of(rest_num)[j]
                &&& final(self).groups_of(rest_num)[group_num - 1].group == old(self).groups_of(
                    rest_num,
                )[group_num - 1].group
                &&& final(self).dishes_of(rest_num, group_num).len() == old(self).dishes_of(
                    rest_num,
                    group_num,
                ).len() - 1
                &&& forall|k: int|
                    0 <= k < dish_num - 1 ==> final(self).dishes_of(rest_num, group_num)[k]
                        == #[trigger] old(self).dishes_of(rest_num, group_num)[k]
                &&& forall|k: int|
                    dish_num - 1 <= k < final(self).dishes_of(rest_num, group_num).len()
                        ==> #[trigger] final(self).dishes_of(rest_num, group_num)[k] == (Dish {
                        num: (old(self).dishes_of(rest_num, group_num)[k + 1].num - 1) as i32,
                        ..old(self).dishes_of(rest_num, group_num)[k + 1]
                    })
            },
            r ==> forall|k: (i32, i32, i32, i32)|
                !(k.0 == rest_num && k.1 == group_num && k.2 >= dish_num) ==> #[trigger] map_amount(
                    final(baskets)@,
                    k,
                ) == map_amount(old(baskets)@, k),
            r ==> forall|k: (i32, i32, i32, i32)|
                (k.0 == rest_num && k.1 == group_num && k.2 >= dish_num && k.2 < i32::MAX)
                    ==> #[trigger] map_amount(final(baskets)@, k) == map_amount(
                    old(baskets)@,
                    (k.0, k.1, (k.2 + 1) as i32, k.3),
                ),
            r ==> forall|k: (i32, i32, i32, i32)|
                (k.0 == rest_num && k.1 == group_num && k.2 == i32::MAX) ==> #[trigger] map_amount(
                    final(baskets)@,
                    k,
                ) == 0,
    {
        if rest_num < 1 || rest_num as usize > self.rests.len() {
            return false;
        }
        let ri = (rest_num as usize) - 1;
        if group_num < 1 || group_num as usize > self.rests[ri].groups.len() {
            return false;
        }
        let gi = (group_num as usize) - 1;
        if dish_num < 1 || dish_num as usize > self.rests[ri].groups[gi].dishes.len() {
            return false;
        }
        let di = (dish_num as usize) - 1;
        Self::remove_dish_at(&mut self.rests[ri].groups[gi], di);
        proof {
            assert(group_entry_wf(self.rests@[ri as int].groups@[gi as int], ri + 1, gi + 1));
            lemma_wf_after_group_update(old(self).rests@, self.rests@, ri as int, gi as int);
        }
        baskets.dish_remove_from_orders(rest_num, group_num, dish_num);
        true
    }
}


/// How many groups open at minute `t`.
pub open spec fn count_opening(s: Seq<GroupEntry>, t: u16) -> int
    decreases s.len(),
{
    if s.len() == 0 {
        0
    } else {
        count_opening(s.drop_last(), t) + if s.last().group.opening_time == t {
            1int
        } else {
            0int
        }
    }
}

/// How many groups close at minute `t`.
pub open spec fn count_closing(s: Seq<GroupEntry>, t: u16) -> int
    decreases s.len(),
{
    if s.len() == 0 {
        0
    } else {
        count_closing(s.drop_last(), t) + if s.last().group.closing_time == t {
            1int
        } else {
            0int
        }
    }
}

impl Catalog {
    fn count_opening_exec(groups: &Vec<GroupEntry>, t: u16) -> (r: usize)
        ensures
            r as int == count_opening(groups@, t),
    {
        let n = groups.len();
        let mut c: usize = 0;
        let mut i: usize = 0;
        while i < n
            invariant
                i <= n,
                n == groups@.len(),
                c <= i,
                c as int == count_opening(groups@.subrange(0, i as int), t),
            decreases n - i,
        {
            let ghost pre = groups@.subrange(0, i as int);
            if groups[i].group.opening_time == t {
                c += 1;
            }
            proof {
                let cur = groups@.subrange(0, i as int + 1);
                assert(cur.drop_last() =~= pre);
                assert(cur.last() == groups@[i as int]);
            }
            i += 1;
        }
        proof {
            assert(groups@.subrange(0, n as int) =~= groups@);
        }
        c
    }

    fn count_closing_exec(groups: &Vec<GroupEntry>, t: u16) -> (r: usize)
        ensures
            r as int == count_closing(groups@, t),
    {
        let n = groups.len();
        let mut c: usize = 0;
        let mut i: usize = 0;
        while i < n
            invariant
                i <= n,
                n == groups@.len(),
                c <= i,
                c as int == count_closing(groups@.subrange(0, i as int), t),
            decreases n - i,
        {
            let ghost pre = groups@.subrange(0, i as int);
            if groups[i].group.closing_time == t {
                c += 1;
            }
            proof {
                let cur = groups@.subrange(0, i as int + 1);
                assert(cur.drop_last() =~= pre);
                assert(cur.last() == groups@[i as int]);
            }
            i += 1;
        }
        proof {
            assert(groups@.subrange(0, n as int) =~= groups@);
        }
        c
    }

    /// A restaurant's displayed hours are the most common hours among its
    /// groups.
    pub open spec fn modal_times(e: RestEntry) -> bool {
        &&& exists|j: int|
            0 <= j < e.groups@.len() && e.rest.opening_time == (
            #[trigger] e.groups@[j]).group.opening_time
        &&& forall|j: int|
            0 <= j < e.groups@.len() ==> count_opening(e.groups@, e.rest.opening_time)
                >= count_opening(e.groups@, (#[trigger] e.groups@[j]).group.opening_time)
        &&& exists|j: int|
            0 <= j < e.groups@.len() && e.rest.closing_time == (
            #[trigger] e.groups@[j]).group.closing_time
        &&& forall|j: int|
            0 <= j < e.groups@.len() ==> count_closing(e.groups@, e.rest.closing_time)
                >= count_closing(e.groups@, (#[trigger] e.groups@[j]).group.closing_time)
    }

    /// Recomputes a restaurant's hours as the most frequent opening and
    /// closing minutes among its groups; a restaurant without groups is
    /// refused.
    #[verifier::rlimit(50)]
    #[verifier::spinoff_prover]
    pub fn rest_edit_time(&mut self, rest_num: i32) -> (r: bool)
        requires
            old(self).wf(),
        ensures
            final(self).wf(),
            r <==> old(self).rest_valid(rest_num) && old(self).groups_of(rest_num).len() > 0,
            !r ==> *final(self) == *old(self),
            r ==> {
                &&& final(self).rests@.len() == old(self).rests@.len()
                &&& forall|i: int|
                    0 <= i < old(self).rests@.len() && i != rest_num - 1 ==> final(self).rests@[i]
                        == #[trigger] old(self).rests@[i]
                &&& final(self).rests@[rest_num - 1].groups == old(self).rests@[rest_num
                    - 1].groups
                &&& final(self).rests@[rest_num - 1].rest == (Restaurant {
                    opening_time: final(self).rests@[rest_num - 1].rest.opening_time,
                    closing_time: final(self).rests@[rest_num - 1].rest.closing_time,
                    ..old(self).rests@[rest_num - 1].rest
                })
                &&& Self::modal_times(final(self).rests@[rest_num - 1])
            },
    {
        if rest_num < 1 || rest_num as usize > self.rests.len() {
            return false;
        }
        let ri = (rest_num as usize) - 1;
        let n = self.rests[ri].groups.len();
        if n == 0 {
            return false;
        }
        let ghost gs = self.rests@[ri as int].groups@;
        let mut best_o: u16 = self.rests[ri].groups[0].group.opening_time;
        let mut best_oc: usize = Self::count_opening_exec(&self.rests[ri].groups, best_o);
        let mut best_c: u16 = self.rests[ri].groups[0].group.closing_time;
        let mut best_cc: usize = Self::count_closing_exec(&self.rests[ri].groups, best_c);
        let mut j: usize = 1;
        while j < n
            invariant
                1 <= j <= n,
                n == gs.len(),
                self.rests@[ri as int].groups@ == gs,
                ri < self.rests@.len(),
                exists|jj: int|
                    0 <= jj < gs.len() && best_o == (#[trigger] gs[jj]).group.opening_time,
                best_oc as int == count_opening(gs, best_o),
                forall|jj: int|
                    0 <= jj < j ==> best_oc as int >= count_opening(
                        gs,
                        (#[trigger] gs[jj]).group.opening_time,
                    ),
                exists|jj: int|
                    0 <= jj < gs.len() && best_c == (#[trigger] gs[jj]).group.closing_time,
                best_cc as int == count_closing(gs, best_c),
                forall|jj: int|
                    0 <= jj < j ==> best_cc as int >= count_closing(
                        gs,
                        (#[trigger] gs[jj]).group.closing_time,
                    ),
            decreases n - j,
        {
            let cand_o = self.rests[ri].groups[j].group.opening_time;
            let c_o = Self::count_opening_exec(&self.rests[ri].groups, cand_o);
            if c_o > best_oc {
                best_o = cand_o;
                best_oc = c_o;
            }
            let cand_c = self.rests[ri].groups[j].group.closing_time;
            let c_c = Self::count_closing_exec(&self.rests[ri].groups, cand_c);
            if c_c > best_cc {
                best_c = cand_c;
                best_cc = c_c;
            }
            j += 1;
        }
        let e = &mut self.rests[ri];
        e.rest.opening_time = best_o;
        e.rest.closing_time = best_c;
        proof {
            let jo = choose|jj: int|
                0 <= jj < gs.len() && best_o == (#[trigger] gs[jj]).group.opening_time;
            assert(group_entry_wf(old(self).rests@[ri as int].groups@[jo], ri + 1, jo + 1));
            let jc = choose|jj: int|
                0 <= jj < gs.len() && best_c == (#[trigger] gs[jj]).group.closing_time;
            assert(group_entry_wf(old(self).rests@[ri as int].groups@[jc], ri + 1, jc + 1));
            lemma_wf_after_entry_update(old(self).rests@, self.rests@, ri as int);
            assert(self.rests@[ri as int].groups@ == gs);
            assert(self.rests@[ri as int].rest.opening_time == best_o);
            assert(self.rests@[ri as int].rest.closing_time == best_c);
            assert(Self::modal_times(self.rests@[ri as int])) by {
                assert(0 <= jo < self.rests@[ri as int].groups@.len()
                    && self.rests@[ri as int].rest.opening_time == (
                #[trigger] self.rests@[ri as int].groups@[jo]).group.opening_time);
                assert(0 <= jc < self.rests@[ri as int].groups@.len()
                    && self.rests@[ri as int].rest.closing_time == (
                #[trigger] self.rests@[ri as int].groups@[jc]).group.closing_time);
                assert forall|j: int|
                    0 <= j < self.rests@[ri as int].groups@.len() implies count_opening(
                    self.rests@[ri as int].groups@,
                    self.rests@[ri as int].rest.opening_time,
                ) >= count_opening(
                    self.rests@[ri as int].groups@,
                    (#[trigger] self.rests@[ri as int].groups@[j]).group.opening_time,
                ) by {
                    assert(best_oc as int >= count_opening(
                        gs,
                        (#[trigger] gs[j]).group.opening_time,
                    ));
                }
                assert forall|j: int|
                    0 <= j < self.rests@[ri as int].groups@.len() implies count_closing(
                    self.rests@[ri as int].groups@,
                    self.rests@[ri as int].rest.closing_time,
                ) >= count_closing(
                    self.rests@[ri as int].groups@,
                    (#[trigger] self.rests@[ri as int].groups@[j]).group.closing_time,
                ) by {
                    assert(best_cc as int >= count_closing(
                        gs,
                        (#[trigger] gs[j]).group.closing_time,
                    ));
                }
            }
        }
        true
    }

    /// Sets a group's working window and refreshes the restaurant's own
    /// displayed hours from its groups in the same step.
    pub fn rest_group_edit_time(
        &mut self,
        rest_num: i32,
        group_num: i32,
        opening_time: u16,
        closing_time: u16,
    ) -> (r: bool)
        requires
            old(self).wf(),
            opening_time < 1440,
            closing_time < 1440,
        ensures
            final(self).wf(),
            r <==> old(self).group_valid(rest_num, group_num),
            !r ==> *final(self) == *old(self),
            r ==> {
                &&& final(self).rests@.len() == old(self).rests@.len()
                &&& forall|i: int|
                    0 <= i < old(self).rests@.len() && i != rest_num - 1 ==> final(self).rests@[i]
                        == #[trigger] old(self).rests@[i]
                &&& final(self).groups_of(rest_num) =~= old(self).groups_of(rest_num).update(
                    group_num - 1,
                    (GroupEntry {
                        group: (Group {
                            opening_time,
                            closing_time,
                            ..old(self).groups_of(rest_num)[group_num - 1].group
                        }),
                        dishes: old(self).groups_of(rest_num)[group_num - 1].dishes,
                    }),
                )
                &&& final(self).rests@[rest_num - 1].rest == (Restaurant {
                    opening_time: final(self).rests@[rest_num - 1].rest.opening_time,
                    closing_time: final(self).rests@[rest_num - 1].rest.closing_time,
                    ..old(self).rests@[rest_num - 1].rest
                })
                &&& Self::modal_times(final(self).rests@[rest_num - 1])
            },
    {
        if rest_num < 1 || rest_num as usize > self.rests.len() {
            return false;
        }
        let ri = (rest_num as usize) - 1;
        if group_num < 1 || group_num as usize > self.rests[ri].groups.len() {
            return false;
        }
        let gi = (group_num as usize) - 1;
        let g = &mut self.rests[ri].groups[gi];
        g.group.opening_time = opening_time;
        g.group.closing_time = closing_time;
        proof {
            lemma_wf_after_group_update(old(self).rests@, self.rests@, ri as int, gi as int);
        }
        let ghost mid = *self;
        let updated = self.rest_edit_time(rest_num);
        proof {
            assert(updated);
            assert(self.groups_of(rest_num) == mid.groups_of(rest_num));
            assert(mid.groups_of(rest_num) =~= old(self).groups_of(rest_num).update(
                (group_num - 1) as int,
                (GroupEntry {
                    group: (Group {
                        opening_time,
                        closing_time,
                        ..old(self).groups_of(rest_num)[group_num - 1].group
                    }),
                    dishes: old(self).groups_of(rest_num)[group_num - 1].dishes,
                }),
            ));
            assert forall|i: int|
                0 <= i < old(self).rests@.len() && i != rest_num - 1 implies self.rests@[i]
                == #[trigger] old(self).rests@[i] by {
                assert(self.rests@[i] == mid.rests@[i]);
                assert(mid.rests@[i] == old(self).rests@[i]);
            }
            assert(mid.rests@[rest_num - 1].rest == old(self).rests@[rest_num - 1].rest);
        }
        true
    }
}


impl Catalog {
    /// Moves a dish to another group: the copy joins the end of the target
    /// group, the dish itself leaves its old group with the usual renumbering, and
    /// baskets are repaired for the departure. Moving within one group just
    /// sends the dish to the end. Refused when the dish or the target group
    /// does not exist, or the target is full.
    pub fn rest_dish_edit_group(
        &mut self,
        rest_num: i32,
        old_group_num: i32,
        dish_num: i32,
        new_group_num: i32,
        baskets: &mut BasketStore,
    ) -> (r: bool)
        requires
            old(self).wf(),
            old(baskets).wf(),
        ensures
            final(self).wf(),
            final(baskets).wf(),
            r <==> old(self).dish_valid(rest_num, old_group_num, dish_num) && old(self).group_valid(
                rest_num,
                new_group_num,
            ) && old(self).dishes_of(rest_num, new_group_num).len() < i32::MAX,
            !r ==> *final(self) == *old(self) && *final(baskets) == *old(baskets),
            r && new_group_num != old_group_num ==> {
                &&& final(self).rests@.len() == old(self).rests@.len()
                &&& forall|i: int|
                    0 <= i < old(self).rests@.len() && i != rest_num - 1 ==> final(self).rests@[i]
                        == #[trigger] old(self).rests@[i]
                &&& final(self).rests@[rest_num - 1].rest == old(self).rests@[rest_num - 1].rest
                &&& final(self).groups_of(rest_num).len() == old(self).groups_of(rest_num).len()
                &&& forall|j: int|
                    0 <= j < old(self).groups_of(rest_num).len() && j != old_group_num - 1 && j
                        != new_group_num - 1 ==> final(self).groups_of(rest_num)[j]
                        == #[trigger] old(self).groups_of(rest_num)[j]
                &&& final(self).groups_of(rest_num)[new_group_num - 1].group == old(
                    self,
                ).groups_of(rest_num)[new_group_num - 1].group
                &&& final(self).groups_of(rest_num)[old_group_num - 1].group == old(
                    self,
                ).groups_of(rest_num)[old_group_num - 1].group
                // the target gains the dish at its end, renumbered into place
                &&& final(self).dishes_of(rest_num, new_group_num).len() == old(self).dishes_of(
                    rest_num,
                    new_group_num,
                ).len() + 1
                &&& forall|k: int|
                    0 <= k < old(self).dishes_of(rest_num, new_group_num).len() ==> final(self).dishes_of(
                        rest_num,
                        new_group_num,
                    )[k] == #[trigger] old(self).dishes_of(rest_num, new_group_num)[k]
                &&& final(self).dishes_of(rest_num, new_group_num).last() == (Dish {
                    group_num: new_group_num,
                    num: (old(self).dishes_of(rest_num, new_group_num).len() + 1) as i32,
                    ..old(self).dishes_of(rest_num, old_group_num)[dish_num - 1]
                })
                // the source loses it with the usual renumbering
                &&& final(self).dishes_of(rest_num, old_group_num).len() == old(self).dishes_of(
                    rest_num,
                    old_group_num,
                ).len() - 1
                &&& forall|k: int|
                    0 <= k < dish_num - 1 ==> final(self).dishes_of(rest_num, old_group_num)[k]
                        == #[trigger] old(self).dishes_of(rest_num, old_group_num)[k]
                &&& forall|k: int|
                    dish_num - 1 <= k < final(self).dishes_of(rest_num, old_group_num).len()
                        ==> #[trigger] final(self).dishes_of(rest_num, old_group_num)[k] == (Dish {
                        num: (old(self).dishes_of(rest_num, old_group_num)[k + 1].num - 1) as i32,
                        ..old(self).dishes_of(rest_num, old_group_num)[k + 1]
                    })
            },
            r ==> forall|k: (i32, i32, i32, i32)|
                !(k.0 == rest_num && k.1 == old_group_num && k.2 >= dish_num)
                    ==> #[trigger] map_amount(final(baskets)@, k) == map_amount(old(baskets)@, k),
            r ==> forall|k: (i32, i32, i32, i32)|
                (k.0 == rest_num && k.1 == old_group_num && k.2 >= dish_num && k.2 < i32::MAX)
                    ==> #[trigger] map_amount(final(baskets)@, k) == map_amount(
                    old(baskets)@,
                    (k.0, k.1, (k.2 + 1) as i32, k.3),
                ),
            r ==> forall|k: (i32, i32, i32, i32)|
                (k.0 == rest_num && k.1 == old_group_num && k.2 == i32::MAX)
                    ==> #[trigger] map_amount(final(baskets)@, k) == 0,
    {
        if rest_num < 1 || rest_num as usize > self.rests.len() {
            return false;
        }
        let ri = (rest_num as usize) - 1;
        if old_group_num < 1 || old_group_num as usize > self.rests[ri].groups.len() {
            return false;
        }
        let ogi = (old_group_num as usize) - 1;
        if dish_num < 1 || dish_num as usize > self.rests[ri].groups[ogi].dishes.len() {
            return false;
        }
        let di = (dish_num as usize) - 1;
        if new_group_num < 1 || new_group_num as usize > self.rests[ri].groups.len() {
            return false;
        }
        let tgi = (new_group_num as usize) - 1;
        if self.rests[ri].groups[tgi].dishes.len() >= (i32::MAX as usize) {
            return false;
        }
        let moved = self.rests[ri].groups[ogi].dishes[di].duplicate();
        let tge = &mut self.rests[ri].groups[tgi];
        let num = (tge.dishes.len() as i32) + 1;
        tge.dishes.push(Dish { group_num: new_group_num, num, ..moved });
        proof {
            assert(group_entry_wf(self.rests@[ri as int].groups@[tgi as int], ri + 1, tgi + 1))
                by {
                assert(group_entry_wf(
                    old(self).rests@[ri as int].groups@[tgi as int],
                    ri + 1,
                    tgi + 1,
                ));
                assert forall|k: int|
                    0 <= k < self.rests@[ri as int].groups@[tgi as int].dishes@.len() implies dish_wf(
                    #[trigger] self.rests@[ri as int].groups@[tgi as int].dishes@[k],
                    ri + 1,
                    tgi + 1,
                    k + 1,
                ) by {
                    if k < self.rests@[ri as int].groups@[tgi as int].dishes@.len() - 1 {
                        assert(self.rests@[ri as int].groups@[tgi as int].dishes@[k] == old(
                            self,
                        ).rests@[ri as int].groups@[tgi as int].dishes@[k]);
                    }
                }
            }
            lemma_wf_after_group_update(old(self).rests@, self.rests@, ri as int, tgi as int);
        }
        let ghost mid = *self;
        Self::remove_dish_at(&mut self.rests[ri].groups[ogi], di);
        proof {
            assert(group_entry_wf(self.rests@[ri as int].groups@[ogi as int], ri + 1, ogi + 1));
            assert forall|i: int|
                0 <= i < mid.rests@.len() implies rest_entry_wf(#[trigger] mid.rests@[i], i + 1)
                by {}
            lemma_wf_after_group_update(mid.rests@, self.rests@, ri as int, ogi as int);
        }
        baskets.dish_remove_from_orders(rest_num, old_group_num, dish_num);
        true
    }
}


impl Catalog {
    /// How many dishes a group holds, or nothing when the group does not
    /// exist.
    pub fn dishes_count(&self, rest_num: i32, group_num: i32) -> (r: Option<usize>)
        requires
            self.wf(),
        ensures
            r is Some <==> self.group_valid(rest_num, group_num),
            r is Some ==> r->0 == self.dishes_of(rest_num, group_num).len(),
    {
        if rest_num < 1 || rest_num as usize > self.rests.len() {
            return None;
        }
        let ri = (rest_num as usize) - 1;
        if group_num < 1 || group_num as usize > self.rests[ri].groups.len() {
            return None;
        }
        Some(self.rests[ri].groups[(group_num as usize) - 1].dishes.len())
    }
}


/// Adding with saturation at the i64 bounds.
pub open spec fn sat_add_spec(a: int, b: int) -> int {
    if a + b > i64::MAX {
        i64::MAX as int
    } else if a + b < i64::MIN {
        i64::MIN as int
    } else {
        a + b
    }
}

/// One rendered basket line: the dish, the price arithmetic with the
/// configured unit on the line total, and — unless commands are suppressed —
/// the delete command for the key.
pub open spec fn basket_row_str(
    d: Dish,
    amount: int,
    rest_num: i32,
    group_num: i32,
    dish_num: i32,
    no_commands: bool,
    unit: Seq<char>,
) -> Seq<char> {
    let core = d.title@ + ": "@ + dec_int(d.price as int) + " x "@ + dec_int(amount)
        + " шт. = "@ + price_unit_str(d.price as int * amount, unit);
    if no_commands {
        core
    } else {
        core + " /del"@ + crate::keys::key3_str(rest_num as int, group_num as int, dish_num as int)
    }
}

/// One user's basket: the caption of the restaurant, the rendered lines and
/// the order total for that restaurant.
pub struct Basket {
    pub rest_id: i32,
    pub restaurant: String,
    pub dishes: Vec<String>,
    pub total: i64,
}

impl Catalog {
    /// How many dishes group `g` of the restaurant holds; zero outside the
    /// catalog.
    pub open spec fn spec_dish_count(self, rest_num: i32, g: int) -> int {
        if self.rest_valid(rest_num) && 1 <= g <= self.groups_of(rest_num).len() {
            self.dishes_of(rest_num, g as i32).len() as int
        } else {
            0
        }
    }

    /// The rendered basket rows of one user for one restaurant, walking the
    /// catalog's dishes in (group, dish) order — the order the store sorts
    /// the view in — through every pair before dish position `d_upto` of
    /// group `g` inclusive. A line whose dish has left the catalog is never
    /// reached, as the store's join would drop it.
    pub open spec fn rows_upto(
        self,
        m: Map<(i32, i32, i32, i32), i32>,
        user_id: i32,
        rest_num: i32,
        g: int,
        d_upto: int,
        no_commands: bool,
        unit: Seq<char>,
    ) -> Seq<Seq<char>>
        decreases g, d_upto,
    {
        if g <= 0 {
            Seq::empty()
        } else if d_upto <= 0 {
            self.rows_upto(
                m,
                user_id,
                rest_num,
                g - 1,
                self.spec_dish_count(rest_num, g - 1),
                no_commands,
                unit,
            )
        } else {
            let rest = self.rows_upto(m, user_id, rest_num, g, d_upto - 1, no_commands, unit);
            let amt = map_amount(m, (rest_num, g as i32, d_upto as i32, user_id));
            if amt > 0 {
                rest.push(
                    basket_row_str(
                        self.dishes_of(rest_num, g as i32)[d_upto - 1],
                        amt,
                        rest_num,
                        g as i32,
                        d_upto as i32,
                        no_commands,
                        unit,
                    ),
                )
            } else {
                rest
            }
        }
    }

    /// The saturating order total over the same (group, dish) walk.
    pub open spec fn total_upto(
        self,
        m: Map<(i32, i32, i32, i32), i32>,
        user_id: i32,
        rest_num: i32,
        g: int,
        d_upto: int,
    ) -> int
        decreases g, d_upto,
    {
        if g <= 0 {
            0
        } else if d_upto <= 0 {
            self.total_upto(m, user_id, rest_num, g - 1, self.spec_dish_count(rest_num, g - 1))
        } else {
            let rest = self.total_upto(m, user_id, rest_num, g, d_upto - 1);
            let amt = map_amount(m, (rest_num, g as i32, d_upto as i32, user_id));
            if amt > 0 {
                sat_add_spec(rest, self.dishes_of(rest_num, g as i32)[d_upto - 1].price as int * amt)
            } else {
                rest
            }
        }
    }

    /// The rendered rows of one user's basket for one restaurant, ordered by
    /// (group, dish).
    pub open spec fn spec_basket_rows(
        self,
        lines: Seq<BasketLine>,
        user_id: i32,
        rest_num: i32,
        no_commands: bool,
        unit: Seq<char>,
    ) -> Seq<Seq<char>> {
        let g = if self.rest_valid(rest_num) {
            self.groups_of(rest_num).len() as int
        } else {
            0
        };
        self.rows_upto(
            lines_map(lines),
            user_id,
            rest_num,
            g,
            self.spec_dish_count(rest_num, g),
            no_commands,
            unit,
        )
    }

    /// The order total of those rows, saturating at the i64 bounds.
    pub open spec fn spec_basket_total(
        self,
        lines: Seq<BasketLine>,
        user_id: i32,
        rest_num: i32,
    ) -> int {
        let g = if self.rest_valid(rest_num) {
            self.groups_of(rest_num).len() as int
        } else {
            0
        };
        self.total_upto(lines_map(lines), user_id, rest_num, g, self.spec_dish_count(rest_num, g))
    }

    /// One user's basket for one restaurant: caption, rendered lines in
    /// (group, dish) order, and the order total in the configured unit.
    pub fn basket_content(
        &self,
        baskets: &BasketStore,
        user_id: i32,
        rest_num: i32,
        rest_id: i32,
        rest_title: &String,
        rest_info: &String,
        no_commands: bool,
        unit: &str,
    ) -> (r: Basket)
        requires
            self.wf(),
            baskets.wf(),
        ensures
            r.rest_id == rest_id,
            r.restaurant@ == dec_int(rest_num as int) + ". "@ + rest_title@ + ". "@ + rest_info@
                + "\n"@,
            r.dishes@.len() == self.spec_basket_rows(
                baskets.lines@,
                user_id,
                rest_num,
                no_commands,
                unit@,
            ).len(),
            forall|i: int|
                0 <= i < r.dishes@.len() ==> (#[trigger] r.dishes@[i])@ == self.spec_basket_rows(
                    baskets.lines@,
                    user_id,
                    rest_num,
                    no_commands,
                    unit@,
                )[i],
            r.total as int == self.spec_basket_total(baskets.lines@, user_id, rest_num),
    {
        let mut caption = i32_to_string(rest_num);
        caption.append(". ");
        caption.append(rest_title.as_str());
        caption.append(". ");
        caption.append(rest_info.as_str());
        caption.append("\n");
        proof {
            reveal_strlit(". ");
            reveal_strlit("\n");
            assert(caption@ =~= dec_int(rest_num as int) + ". "@ + rest_title@ + ". "@ + rest_info@
                + "\n"@);
        }
        let mut rows: Vec<String> = Vec::new();
        let mut total: i64 = 0;
        let ghost m = lines_map(baskets.lines@);
        if rest_num >= 1 && (rest_num as usize) <= self.rests.len() {
            let ri = (rest_num as usize) - 1;
            let gcount = self.rests[ri].groups.len();
            let mut gi: usize = 0;
            while gi < gcount
                invariant
                    gi <= gcount,
                    self.wf(),
                    baskets.wf(),
                    m == lines_map(baskets.lines@),
                    1 <= rest_num,
                    rest_num as int <= self.rests@.len(),
                    ri == rest_num - 1,
                    gcount == self.groups_of(rest_num).len(),
                    rows@.len() == self.rows_upto(
                        m,
                        user_id,
                        rest_num,
                        gi as int,
                        self.spec_dish_count(rest_num, gi as int),
                        no_commands,
                        unit@,
                    ).len(),
                    forall|j: int|
                        0 <= j < rows@.len() ==> (#[trigger] rows@[j])@ == self.rows_upto(
                            m,
                            user_id,
                            rest_num,
                            gi as int,
                            self.spec_dish_count(rest_num, gi as int),
                            no_commands,
                            unit@,
                        )[j],
                    total as int == self.total_upto(
                        m,
                        user_id,
                        rest_num,
                        gi as int,
                        self.spec_dish_count(rest_num, gi as int),
                    ),
                decreases gcount - gi,
            {
                proof {
                    assert(group_entry_wf(
                        self.rests@[ri as int].groups@[gi as int],
                        ri + 1,
                        gi + 1,
                    ));
                    assert(self.rests@[ri as int].groups@[gi as int].group.num == gi + 1);
                }
                let gnum = (gi as i32) + 1;
                let dcount = self.rests[ri].groups[gi].dishes.len();
                let mut di: usize = 0;
                while di < dcount
                    invariant
                        di <= dcount,
                        gi < gcount,
                        self.wf(),
                        baskets.wf(),
                        m == lines_map(baskets.lines@),
                        1 <= rest_num,
                        rest_num as int <= self.rests@.len(),
                        ri == rest_num - 1,
                        gcount == self.groups_of(rest_num).len(),
                        gnum == gi + 1,
                        dcount == self.spec_dish_count(rest_num, gi as int + 1),
                        rows@.len() == self.rows_upto(
                            m,
                            user_id,
                            rest_num,
                            gi as int + 1,
                            di as int,
                            no_commands,
                            unit@,
                        ).len(),
                        forall|j: int|
                            0 <= j < rows@.len() ==> (#[trigger] rows@[j])@ == self.rows_upto(
                                m,
                                user_id,
                                rest_num,
                                gi as int + 1,
                                di as int,
                                no_commands,
                                unit@,
                            )[j],
                        total as int == self.total_upto(
                            m,
                            user_id,
                            rest_num,
                            gi as int + 1,
                            di as int,
                        ),
                    decreases dcount - di,
                {
                    proof {
                        assert(dish_wf(
                            self.rests@[ri as int].groups@[gi as int].dishes@[di as int],
                            ri + 1,
                            gi + 1,
                            di + 1,
                        ));
                        assert(self.rests@[ri as int].groups@[gi as int].dishes@[di as int].num
                            == di + 1);
                    }
                    let dnum = (di as i32) + 1;
                    let amt = baskets.amount_in_basket(rest_num, gnum, dnum, user_id);
                    if amt > 0 {
                        let d = &self.rests[ri].groups[gi].dishes[di];
                        proof {
                            assert((d.price as int) * (amt as int) <= 0x4000_0000_0000_0000int
                                && (d.price as int) * (amt as int)
                                >= -0x4000_0000_0000_0000int) by (nonlinear_arith)
                                requires
                                    -0x8000_0000 <= d.price as int <= 0x7fff_ffff,
                                    -0x8000_0000 <= amt as int <= 0x7fff_ffff,
                            ;
                        }
                        let line_total: i64 = (d.price as i64) * (amt as i64);
                        let mut row = d.title.clone();
                        row.append(": ");
                        row.append(i32_to_string(d.price).as_str());
                        row.append(" x ");
                        row.append(i32_to_string(amt).as_str());
                        row.append(" шт. = ");
                        row.append(crate::digits::i64_to_string(line_total).as_str());
                        row.append(unit);
                        if !no_commands {
                            row.append(" /del");
                            row.append(crate::keys::make_key_3_int(rest_num, gnum, dnum).as_str());
                        }
                        proof {
                            reveal_strlit(": ");
                            reveal_strlit(" x ");
                            reveal_strlit(" шт. = ");
                            reveal_strlit(" /del");
                            assert(row@ =~= basket_row_str(
                                self.dishes_of(rest_num, gnum)[dnum - 1],
                                amt as int,
                                rest_num,
                                gnum,
                                dnum,
                                no_commands,
                                unit@,
                            ));
                        }
                        rows.push(row);
                        let new_total = match total.checked_add(line_total) {
                            Some(v) => v,
                            None => if line_total >= 0 {
                                i64::MAX
                            } else {
                                i64::MIN
                            },
                        };
                        total = new_total;
                    }
                    di += 1;
                }
                gi += 1;
            }
            proof {
                assert(self.spec_basket_rows(baskets.lines@, user_id, rest_num, no_commands, unit@)
                    == self.rows_upto(
                    m,
                    user_id,
                    rest_num,
                    gcount as int,
                    self.spec_dish_count(rest_num, gcount as int),
                    no_commands,
                    unit@,
                ));
            }
        } else {
            proof {
                assert(!self.rest_valid(rest_num));
            }
        }
        Basket { rest_id, restaurant: caption, dishes: rows, total }
    }

    /// Whether the user has a basket line for the restaurant.
    pub open spec fn has_line_for(lines: Seq<BasketLine>, user_id: i32, rest_num: i32) -> bool {
        exists|j: int|
            0 <= j < lines.len() && (#[trigger] lines[j]).user_id == user_id
                && lines[j].rest_num == rest_num
    }

    /// The display indices of the restaurants among the first `upto` for
    /// which the user holds a line, ascending.
    pub open spec fn spec_rests_with_lines(
        lines: Seq<BasketLine>,
        user_id: i32,
        upto: int,
    ) -> Seq<i32>
        decreases upto,
    {
        if upto <= 0 {
            Seq::empty()
        } else {
            let rest = Self::spec_rests_with_lines(lines, user_id, upto - 1);
            if Self::has_line_for(lines, user_id, upto as i32) {
                rest.push(upto as i32)
            } else {
                rest
            }
        }
    }

    /// The grand total over those restaurants, saturating.
    pub open spec fn spec_grand_total(
        self,
        lines: Seq<BasketLine>,
        user_id: i32,
        upto: int,
    ) -> int
        decreases upto,
    {
        if upto <= 0 {
            0
        } else {
            let rest = self.spec_grand_total(lines, user_id, upto - 1);
            if Self::has_line_for(lines, user_id, upto as i32) {
                sat_add_spec(rest, self.spec_basket_total(lines, user_id, upto as i32))
            } else {
                rest
            }
        }
    }

    fn user_has_line(baskets: &BasketStore, user_id: i32, rest_num: i32) -> (r: bool)
        ensures
            r == Self::has_line_for(baskets.lines@, user_id, rest_num),
    {
        let n = baskets.lines.len();
        let mut j: usize = 0;
        while j < n
            invariant
                j <= n,
                n == baskets.lines@.len(),
                forall|k: int|
                    0 <= k < j ==> !((#[trigger] baskets.lines@[k]).user_id == user_id
                        && baskets.lines@[k].rest_num == rest_num),
            decreases n - j,
        {
            let l = &baskets.lines[j];
            if l.user_id == user_id && l.rest_num == rest_num {
                proof {
                    assert((#[trigger] baskets.lines@[j as int]).user_id == user_id
                        && baskets.lines@[j as int].rest_num == rest_num);
                }
                return true;
            }
            j += 1;
        }
        false
    }

    /// One user's whole basket: a basket per restaurant holding lines, in
    /// display order, and the grand total.
    pub fn basket_contents(&self, baskets: &BasketStore, user_id: i32, unit: &str) -> (r: (
        Vec<Basket>,
        i64,
    ))
        requires
            self.wf(),
            baskets.wf(),
        ensures
            ({
                let list = Self::spec_rests_with_lines(
                    baskets.lines@,
                    user_id,
                    self.rests@.len() as int,
                );
                &&& r.0@.len() == list.len()
                &&& forall|i: int|
                    0 <= i < list.len() ==> {
                        let rn = #[trigger] list[i];
                        &&& r.0@[i].rest_id == self.rests@[rn - 1].rest.user_id
                        &&& r.0@[i].total as int == self.spec_basket_total(
                            baskets.lines@,
                            user_id,
                            rn,
                        )
                        &&& r.0@[i].dishes@.len() == self.spec_basket_rows(
                            baskets.lines@,
                            user_id,
                            rn,
                            false,
                            unit@,
                        ).len()
                    }
                &&& r.1 as int == self.spec_grand_total(
                    baskets.lines@,
                    user_id,
                    self.rests@.len() as int,
                )
            }),
    {
        let mut out: Vec<Basket> = Vec::new();
        let mut grand: i64 = 0;
        let n = self.rests.len();
        let mut rn: usize = 0;
        while rn < n
            invariant
                rn <= n,
                n == self.rests@.len(),
                self.wf(),
                baskets.wf(),
                out@.len() == Self::spec_rests_with_lines(
                    baskets.lines@,
                    user_id,
                    rn as int,
                ).len(),
                forall|i: int|
                    0 <= i < out@.len() ==> {
                        let r2 = #[trigger] Self::spec_rests_with_lines(
                            baskets.lines@,
                            user_id,
                            rn as int,
                        )[i];
                        &&& out@[i].rest_id == self.rests@[r2 - 1].rest.user_id
                        &&& out@[i].total as int == self.spec_basket_total(
                            baskets.lines@,
                            user_id,
                            r2,
                        )
                        &&& out@[i].dishes@.len() == self.spec_basket_rows(
                            baskets.lines@,
                            user_id,
                            r2,
                            false,
                            unit@,
                        ).len()
                    },
                grand as int == self.spec_grand_total(baskets.lines@, user_id, rn as int),
            decreases n - rn,
        {
            let num = (rn as i32) + 1;
            if Self::user_has_line(baskets, user_id, num) {
                let e = &self.rests[rn];
                let b = self.basket_content(
                    baskets,
                    user_id,
                    num,
                    e.rest.user_id,
                    &e.rest.title,
                    &e.rest.info,
                    false,
                    unit,
                );
                let new_grand = match grand.checked_add(b.total) {
                    Some(v) => v,
                    None => if b.total >= 0 {
                        i64::MAX
                    } else {
                        i64::MIN
                    },
                };
                out.push(b);
                grand = new_grand;
            }
            rn += 1;
        }
        (out, grand)
    }
}


/// The catalogs agree on every restaurant entry but position `i`.
pub open spec fn same_rests_except(a: Seq<RestEntry>, b: Seq<RestEntry>, i: int) -> bool {
    a.len() == b.len() && forall|j: int| 0 <= j < a.len() && j != i ==> a[j] == #[trigger] b[j]
}

/// Only the restaurant record at `rn` may differ; its groups are kept.
pub open spec fn only_rest_record_changed(c0: Catalog, c1: Catalog, rn: i32) -> bool {
    &&& same_rests_except(c0.rests@, c1.rests@, rn - 1)
    &&& c1.rests@[rn - 1].groups == c0.rests@[rn - 1].groups
}

/// Only the group record at (`rn`, `gn`) may differ; the restaurant record,
/// the other groups and the group's dishes are kept.
pub open spec fn only_group_record_changed(c0: Catalog, c1: Catalog, rn: i32, gn: i32) -> bool {
    &&& same_rests_except(c0.rests@, c1.rests@, rn - 1)
    &&& c1.rests@[rn - 1].rest == c0.rests@[rn - 1].rest
    &&& c1.groups_of(rn).len() == c0.groups_of(rn).len()
    &&& forall|j: int|
        0 <= j < c0.groups_of(rn).len() && j != gn - 1 ==> c1.groups_of(rn)[j]
            == #[trigger] c0.groups_of(rn)[j]
    &&& c1.groups_of(rn)[gn - 1].dishes == c0.groups_of(rn)[gn - 1].dishes
}

/// Only the dish at (`rn`, `gn`, `dn`) may differ; everything around it is
/// kept.
pub open spec fn only_dish_changed(c0: Catalog, c1: Catalog, rn: i32, gn: i32, dn: i32) -> bool {
    &&& same_rests_except(c0.rests@, c1.rests@, rn - 1)
    &&& c1.rests@[rn - 1].rest == c0.rests@[rn - 1].rest
    &&& c1.groups_of(rn).len() == c0.groups_of(rn).len()
    &&& forall|j: int|
        0 <= j < c0.groups_of(rn).len() && j != gn - 1 ==> c1.groups_of(rn)[j]
            == #[trigger] c0.groups_of(rn)[j]
    &&& c1.groups_of(rn)[gn - 1].group == c0.groups_of(rn)[gn - 1].group
    &&& c1.dishes_of(rn, gn).len() == c0.dishes_of(rn, gn).len()
    &&& forall|k: int|
        0 <= k < c0.dishes_of(rn, gn).len() && k != dn - 1 ==> c1.dishes_of(rn, gn)[k]
            == #[trigger] c0.dishes_of(rn, gn)[k]
}

/// What deleting group `gn` of restaurant `rn` leaves: one group fewer, the
/// earlier groups kept, every later group and its dishes shifted down one.
pub open spec fn removed_group_shape(c0: Catalog, c1: Catalog, rn: i32, gn: i32) -> bool {
    &&& same_rests_except(c0.rests@, c1.rests@, rn - 1)
    &&& c1.rests@[rn - 1].rest == c0.rests@[rn - 1].rest
    &&& c1.groups_of(rn).len() == c0.groups_of(rn).len() - 1
    &&& forall|j: int| 0 <= j < gn - 1 ==> c1.groups_of(rn)[j] == #[trigger] c0.groups_of(rn)[j]
    &&& forall|j: int|
        gn - 1 <= j < c1.groups_of(rn).len() ==> group_shifted(
            #[trigger] c1.groups_of(rn)[j],
            c0.groups_of(rn)[j + 1],
        )
}

/// What deleting dish `dn` of (`rn`, `gn`) leaves: one dish fewer, the
/// earlier dishes kept, every later dish renumbered down one.
pub open spec fn removed_dish_shape(c0: Catalog, c1: Catalog, rn: i32, gn: i32, dn: i32) -> bool {
    &&& same_rests_except(c0.rests@, c1.rests@, rn - 1)
    &&& c1.rests@[rn - 1].rest == c0.rests@[rn - 1].rest
    &&& c1.groups_of(rn).len() == c0.groups_of(rn).len()
    &&& forall|j: int|
        0 <= j < c0.groups_of(rn).len() && j != gn - 1 ==> c1.groups_of(rn)[j]
            == #[trigger] c0.groups_of(rn)[j]
    &&& c1.groups_of(rn)[gn - 1].group == c0.groups_of(rn)[gn - 1].group
    &&& c1.dishes_of(rn, gn).len() == c0.dishes_of(rn, gn).len() - 1
    &&& forall|k: int| 0 <= k < dn - 1 ==> c1.dishes_of(rn, gn)[k] == #[trigger] c0.dishes_of(rn, gn)[k]
    &&& forall|k: int|
        dn - 1 <= k < c1.dishes_of(rn, gn).len() ==> #[trigger] c1.dishes_of(rn, gn)[k] == (Dish {
            num: (c0.dishes_of(rn, gn)[k + 1].num - 1) as i32,
            ..c0.dishes_of(rn, gn)[k + 1]
        })
}

/// What moving dish `dn` from group `gn` to a different group `target`
/// leaves: the copy joins the end of the target, renumbered into place, and
/// the source loses it with the usual renumbering.
pub open spec fn moved_dish_shape(c0: Catalog, c1: Catalog, rn: i32, gn: i32, dn: i32, target: i32) -> bool {
    &&& same_rests_except(c0.rests@, c1.rests@, rn - 1)
    &&& c1.rests@[rn - 1].rest == c0.rests@[rn - 1].rest
    &&& c1.groups_of(rn).len() == c0.groups_of(rn).len()
    &&& forall|j: int|
        0 <= j < c0.groups_of(rn).len() && j != gn - 1 && j != target - 1 ==> c1.groups_of(rn)[j]
            == #[trigger] c0.groups_of(rn)[j]
    &&& c1.groups_of(rn)[target - 1].group == c0.groups_of(rn)[target - 1].group
    &&& c1.groups_of(rn)[gn - 1].group == c0.groups_of(rn)[gn - 1].group
    &&& c1.dishes_of(rn, target).len() == c0.dishes_of(rn, target).len() + 1
    &&& forall|k: int|
        0 <= k < c0.dishes_of(rn, target).len() ==> c1.dishes_of(rn, target)[k]
            == #[trigger] c0.dishes_of(rn, target)[k]
    &&& c1.dishes_of(rn, target).last() == (Dish {
        group_num: target,
        num: (c0.dishes_of(rn, target).len() + 1) as i32,
        ..c0.dishes_of(rn, gn)[dn - 1]
    })
    &&& c1.dishes_of(rn, gn).len() == c0.dishes_of(rn, gn).len() - 1
    &&& forall|k: int| 0 <= k < dn - 1 ==> c1.dishes_of(rn, gn)[k] == #[trigger] c0.dishes_of(rn, gn)[k]
    &&& forall|k: int|
        dn - 1 <= k < c1.dishes_of(rn, gn).len() ==> #[trigger] c1.dishes_of(rn, gn)[k] == (Dish {
            num: (c0.dishes_of(rn, gn)[k + 1].num - 1) as i32,
            ..c0.dishes_of(rn, gn)[k + 1]
        })
}

/// What registering caterer `user_id` leaves: their restaurant re-enabled,
/// or a fresh default restaurant appended; nothing, only when the display
/// indices are exhausted.
pub open spec fn registered_shape(c0: Catalog, c1: Catalog, user_id: i32) -> bool {
    &&& c0.has_owner(user_id) ==> c1.rests@ == c0.rests@.update(
        c0.owner_idx(user_id),
        (RestEntry {
            rest: (Restaurant { enabled: true, ..c0.rests@[c0.owner_idx(user_id)].rest }),
            groups: c0.rests@[c0.owner_idx(user_id)].groups,
        }),
    )
    &&& !c0.has_owner(user_id) && c0.rests@.len() < i32::MAX ==> {
        &&& c1.rests@.len() == c0.rests@.len() + 1
        &&& forall|i: int| 0 <= i < c0.rests@.len() ==> c1.rests@[i] == #[trigger] c0.rests@[i]
        &&& c1.rests@.last().rest.user_id == user_id
        &&& c1.rests@.last().rest.enabled
        &&& !c1.rests@.last().rest.active
        &&& c1.rests@.last().groups@.len() == 0
    }
    &&& !c0.has_owner(user_id) && c0.rests@.len() >= i32::MAX ==> c1.rests@ == c0.rests@
}

/// What suspending caterer `user_id` leaves: their restaurant disabled and
/// hidden; nothing, when they own none.
pub open spec fn held_shape(c0: Catalog, c1: Catalog, user_id: i32) -> bool {
    if c0.has_owner(user_id) {
        c1.rests@ == c0.rests@.update(
            c0.owner_idx(user_id),
            (RestEntry {
                rest: (Restaurant {
                    enabled: false,
                    active: false,
                    ..c0.rests@[c0.owner_idx(user_id)].rest
                }),
                groups: c0.rests@[c0.owner_idx(user_id)].groups,
            }),
        )
    } else {
        c1.rests@ == c0.rests@
    }
}

/// What adding a group titled `t` to restaurant `rn` leaves: a fresh default
/// group at the end, or nothing when the restaurant does not exist or its
/// numbering is exhausted.
pub open spec fn added_group_shape(c0: Catalog, c1: Catalog, rn: i32, t: Seq<char>) -> bool {
    if c0.rest_valid(rn) && c0.groups_of(rn).len() < i32::MAX {
        &&& same_rests_except(c0.rests@, c1.rests@, rn - 1)
        &&& c1.rests@[rn - 1].rest == c0.rests@[rn - 1].rest
        &&& c1.groups_of(rn).len() == c0.groups_of(rn).len() + 1
        &&& forall|j: int| 0 <= j < c0.groups_of(rn).len() ==> c1.groups_of(rn)[j] == #[trigger] c0.groups_of(rn)[j]
        &&& c1.groups_of(rn).last().group.title@ == t
        &&& c1.groups_of(rn).last().group.active
        &&& c1.groups_of(rn).last().group.cat_id == 2
        &&& c1.groups_of(rn).last().group.opening_time == 420
        &&& c1.groups_of(rn).last().group.closing_time == 1380
        &&& c1.groups_of(rn).last().dishes@.len() == 0
    } else {
        c1.rests@ == c0.rests@
    }
}

/// What adding a dish titled `t` to (`rn`, `gn`) leaves: a fresh default
/// dish at the end, or nothing when the group does not exist or its
/// numbering is exhausted.
pub open spec fn added_dish_shape(c0: Catalog, c1: Catalog, rn: i32, gn: i32, t: Seq<char>) -> bool {
    if c0.group_valid(rn, gn) && c0.dishes_of(rn, gn).len() < i32::MAX {
        &&& same_rests_except(c0.rests@, c1.rests@, rn - 1)
        &&& c1.rests@[rn - 1].rest == c0.rests@[rn - 1].rest
        &&& c1.groups_of(rn).len() == c0.groups_of(rn).len()
        &&& forall|j: int|
            0 <= j < c0.groups_of(rn).len() && j != gn - 1 ==> c1.groups_of(rn)[j]
                == #[trigger] c0.groups_of(rn)[j]
        &&& c1.groups_of(rn)[gn - 1].group == c0.groups_of(rn)[gn - 1].group
        &&& c1.dishes_of(rn, gn).len() == c0.dishes_of(rn, gn).len() + 1
        &&& forall|k: int|
            0 <= k < c0.dishes_of(rn, gn).len() ==> c1.dishes_of(rn, gn)[k]
                == #[trigger] c0.dishes_of(rn, gn)[k]
        &&& c1.dishes_of(rn, gn).last().title@ == t
        &&& c1.dishes_of(rn, gn).last().active
        &&& c1.dishes_of(rn, gn).last().price == 0
        &&& c1.dishes_of(rn, gn).last().image_id is None
    } else {
        c1.rests@ == c0.rests@
    }
}

/// What setting group (`rn`, `gn`)'s working window to (`o`, `c`) leaves:
/// the window written and the restaurant's own hours refreshed to the most
/// frequent group hours; nothing, when the group does not exist.
pub open spec fn group_time_shape(c0: Catalog, c1: Catalog, rn: i32, gn: i32, o: u16, c: u16) -> bool {
    if c0.group_valid(rn, gn) {
        &&& same_rests_except(c0.rests@, c1.rests@, rn - 1)
        &&& c1.groups_of(rn) == c0.groups_of(rn).update(
            gn - 1,
            (GroupEntry {
                group: (Group {
                    opening_time: o,
                    closing_time: c,
                    ..c0.groups_of(rn)[gn - 1].group
                }),
                dishes: c0.groups_of(rn)[gn - 1].dishes,
            }),
        )
        &&& c1.rests@[rn - 1].rest == (Restaurant {
            opening_time: c1.rests@[rn - 1].rest.opening_time,
            closing_time: c1.rests@[rn - 1].rest.closing_time,
            ..c0.rests@[rn - 1].rest
        })
        &&& Catalog::modal_times(c1.rests@[rn - 1])
    } else {
        c1.rests@ == c0.rests@
    }
}

} // verus!
