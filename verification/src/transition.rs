//! The state transition engine: one inbound turn takes the sender's stored
//! session, parses the text under that state's grammar, mutates the stores,
//! and answers with the next state and a response descriptor. The machine is
//! total — every state accepts every input, unknown commands redisplay the
//! state with a note — and the next state, keyboard and saved return state
//! are pinned by one specification function.

use vstd::prelude::*;
use crate::basket::{BasketStore, map_amount, map_remove_one};
use crate::catalog::{Catalog, Dish, Group, Restaurant, RestBy, RestListBy, DishBy};
use crate::commands::{
    Common, User, Caterer, CatGroup, CatDish, EaterRest, EaterGroup, EaterDish, Basket, Gear,
    spec_common, spec_user, spec_caterer, spec_cat_group, spec_cat_dish, spec_eater_rest,
    spec_eater_group, spec_eater_dish, spec_basket, spec_gear, remove_slash,
};
use crate::dialogue::{
    Dialogue, DialogueState, Keyboard, Response, SessionStore, session_state, session_saved,
};
use crate::digits::{i32_to_string, parse_i32_or_zero, parse_i32_spec, parse_or_zero_spec};
use crate::keys::find_char;
use crate::settings::Settings;
use crate::strutil::has_prefix;
use crate::texts::{interface_mode, is_success};
use crate::tickets::TicketStore;
use crate::users::{UserContact, UserStore, has_user, user_at};

verus! {

/// Everything the bot owns, handed in explicitly instead of sitting in
/// globals.
pub struct World {
    pub settings: Settings,
    pub catalog: Catalog,
    pub baskets: BasketStore,
    pub tickets: TicketStore,
    pub users: UserStore,
    pub sessions: SessionStore,
}

impl World {
    /// Every store is well formed.
    pub open spec fn wf(self) -> bool {
        &&& self.catalog.wf()
        &&& self.baskets.wf()
        &&& self.tickets.wf()
        &&& self.users.wf()
        &&& self.sessions.wf()
    }

    /// A fresh world with empty stores.
    pub fn new(settings: Settings) -> (r: World)
        ensures
            r.wf(),
            r.settings == settings,
    {
        World {
            settings,
            catalog: Catalog::new(),
            baskets: BasketStore::new(),
            tickets: TicketStore::new(),
            users: UserStore::new(),
            sessions: SessionStore::new(),
        }
    }
}

/// The user's stored interface preference; buttons for anyone unknown.
pub open spec fn user_compact(w: World, user_id: i32) -> bool {
    has_user(w.users.users@, user_id) && user_at(w.users.users@, user_id).compact
}

/// The restaurant number a caterer may edit, when access is enabled.
pub open spec fn caterer_rest(w: World, user_id: i32) -> Option<i32> {
    if w.catalog.has_owner(user_id) && w.catalog.rests@[w.catalog.owner_idx(user_id)].rest.enabled {
        Some(w.catalog.rests@[w.catalog.owner_idx(user_id)].rest.num)
    } else {
        None
    }
}

/// Whether a dish move is accepted: the dish and the target group exist and
/// the target still has a free number.
pub open spec fn move_ok(w: World, r: i32, g: i32, d: i32, target: i32) -> bool {
    w.catalog.dish_valid(r, g, d) && w.catalog.group_valid(r, target) && w.catalog.dishes_of(
        r,
        target,
    ).len() < i32::MAX
}

/// Whether a text cancels a field edit: absent, empty, or an accidental
/// command beginning with a slash.
pub open spec fn text_cancels(text: Option<Seq<char>>) -> bool {
    match text {
        None => true,
        Some(s) => s.len() == 0 || has_prefix(s, "/"@),
    }
}

/// The turn the commands every state shares make, from a state that stays
/// put otherwise: a restart, a jump to a dish view, or entering the compose
/// flow with `origin` saved to return to.
pub open spec fn common_fallback(
    user_id: i32,
    s: Seq<char>,
    stay: (Dialogue, Keyboard),
    origin: DialogueState,
    saved: Option<DialogueState>,
) -> (Dialogue, Keyboard, Option<DialogueState>) {
    match spec_common(s) {
        Common::Start => (Dialogue::UserMode, Keyboard::Main, saved),
        Common::StartArgs(f, snd, _) => (
            Dialogue::EatRestGroupDishSelectionMode(0, f, snd),
            Keyboard::EaterGroup,
            saved,
        ),
        Common::Goto(f, snd, _) => (
            Dialogue::EatRestGroupDishSelectionMode(0, f, snd),
            Keyboard::EaterGroup,
            saved,
        ),
        Common::SendMessage(c) => (
            Dialogue::MessageToCaterer(user_id, c),
            Keyboard::Slash,
            Some(origin),
        ),
        Common::UnknownCommand => (stay.0, stay.1, saved),
    }
}

/// The turn the main menu makes.
pub open spec fn user_mode_turn(
    w: World,
    user_id: i32,
    text: Option<Seq<char>>,
    saved: Option<DialogueState>,
) -> (Dialogue, Keyboard, Option<DialogueState>) {
    match text {
        None => (Dialogue::UserMode, Keyboard::Main, saved),
        Some(s) => match spec_user(s) {
            User::Category(cat) => if user_compact(w, user_id) {
                (Dialogue::EatRestSelectionMode(cat), Keyboard::EaterRest, saved)
            } else {
                (Dialogue::UserMode, Keyboard::Main, saved)
            },
            User::OpenedNow => if user_compact(w, user_id) {
                (Dialogue::EatRestNowSelectionMode, Keyboard::EaterRest, saved)
            } else {
                (Dialogue::UserMode, Keyboard::Main, saved)
            },
            User::Basket => (Dialogue::BasketMode(user_id), Keyboard::BasketBottom, saved),
            User::Gear => (Dialogue::GearMode, Keyboard::GearBottom, saved),
            User::ChatId => (Dialogue::UserMode, Keyboard::Main, saved),
            User::UnknownCommand => common_fallback(
                user_id,
                s,
                (Dialogue::UserMode, Keyboard::Main),
                DialogueState { d: Dialogue::UserMode, m: Keyboard::Main },
                saved,
            ),
        },
    }
}

/// The turn the settings menu makes.
pub open spec fn gear_turn(
    w: World,
    user_id: i32,
    text: Option<Seq<char>>,
    saved: Option<DialogueState>,
) -> (Dialogue, Keyboard, Option<DialogueState>) {
    match text {
        None => (Dialogue::GearMode, Keyboard::GearBottom, saved),
        Some(s) => match spec_gear(s) {
            Gear::Main => (Dialogue::UserMode, Keyboard::Main, saved),
            Gear::ToggleInterface => (Dialogue::GearMode, Keyboard::GearBottom, saved),
            Gear::CatererMode => if w.settings.spec_is_admin(user_id) {
                (Dialogue::GearMode, Keyboard::GearBottom, saved)
            } else {
                match caterer_rest(w, user_id) {
                    Some(num) => (Dialogue::CatererMode(num), Keyboard::CatererMain, saved),
                    None => (Dialogue::GearMode, Keyboard::GearBottom, saved),
                }
            },
            Gear::RegisterCaterer(_) => (Dialogue::GearMode, Keyboard::GearBottom, saved),
            Gear::HoldCaterer(_) => (Dialogue::GearMode, Keyboard::GearBottom, saved),
            Gear::Sudo(rn) => if w.settings.spec_is_admin(user_id) {
                (Dialogue::CatererMode(rn), Keyboard::CatererMain, saved)
            } else {
                (Dialogue::GearMode, Keyboard::GearBottom, saved)
            },
            Gear::List => if w.settings.spec_is_admin(user_id) {
                (Dialogue::GearMode, Keyboard::Main, saved)
            } else {
                (Dialogue::GearMode, Keyboard::GearBottom, saved)
            },
            Gear::UnknownCommand => common_fallback(
                user_id,
                s,
                (Dialogue::GearMode, Keyboard::GearBottom),
                DialogueState { d: Dialogue::UserMode, m: Keyboard::GearBottom },
                saved,
            ),
        },
    }
}

/// What one inbound turn does to the session: the next state, the keyboard
/// of the reply, and the saved return state. Total: defined for every state
/// and every input.
pub open spec fn spec_turn(
    w: World,
    user_id: i32,
    state: Dialogue,
    saved: Option<DialogueState>,
    text: Option<Seq<char>>,
    has_photo: bool,
) -> (Dialogue, Keyboard, Option<DialogueState>) {
    match state {
        Dialogue::Start => match text {
            Some(s) => if !(spec_user(s) is UnknownCommand) || !(spec_common(s)
                is UnknownCommand) {
                user_mode_turn(w, user_id, Some(s), saved)
            } else {
                (Dialogue::UserMode, Keyboard::Main, saved)
            },
            None => (Dialogue::UserMode, Keyboard::Main, saved),
        },
        Dialogue::UserMode => user_mode_turn(w, user_id, text, saved),
        Dialogue::EatRestSelectionMode(cat) => match text {
            None => (state, Keyboard::EaterRest, saved),
            Some(s) => match spec_eater_rest(s) {
                EaterRest::Basket => (Dialogue::BasketMode(user_id), Keyboard::BasketBottom, saved),
                EaterRest::Main => (Dialogue::UserMode, Keyboard::Main, saved),
                EaterRest::Restaurant(r) => (
                    Dialogue::EatRestGroupSelectionMode(cat, r),
                    Keyboard::EaterGroup,
                    saved,
                ),
                EaterRest::UnknownCommand => (state, Keyboard::EaterRest, saved),
            },
        },
        Dialogue::EatRestGroupSelectionMode(cat, rest) => match text {
            None => (state, Keyboard::EaterGroup, saved),
            Some(s) => match spec_eater_group(s) {
                EaterGroup::Basket => (
                    Dialogue::BasketMode(user_id),
                    Keyboard::BasketBottom,
                    saved,
                ),
                EaterGroup::Main => (Dialogue::UserMode, Keyboard::Main, saved),
                EaterGroup::Return => (
                    Dialogue::EatRestSelectionMode(cat),
                    Keyboard::EaterRest,
                    saved,
                ),
                EaterGroup::Group(g) => (
                    Dialogue::EatRestGroupDishSelectionMode(cat, rest, g),
                    Keyboard::EaterGroup,
                    saved,
                ),
                EaterGroup::UnknownCommand => (state, Keyboard::EaterGroup, saved),
            },
        },
        Dialogue::EatRestGroupDishSelectionMode(cat, rest, group) => match text {
            None => (state, Keyboard::EaterDish, saved),
            Some(s) => match spec_eater_dish(s) {
                EaterDish::Basket => (Dialogue::BasketMode(user_id), Keyboard::BasketBottom, saved),
                EaterDish::Main => (Dialogue::UserMode, Keyboard::Main, saved),
                EaterDish::Return => if cat > 0 {
                    (Dialogue::EatRestGroupSelectionMode(cat, rest), Keyboard::EaterGroup, saved)
                } else {
                    (Dialogue::EatRestGroupNowSelectionMode(rest), Keyboard::EaterGroup, saved)
                },
                EaterDish::Dish(d) => (
                    state,
                    Keyboard::DishInline(
                        rest,
                        group,
                        d,
                        map_amount(w.baskets.view(), (rest, group, d, user_id)) as i32,
                    ),
                    saved,
                ),
                EaterDish::UnknownCommand => (state, Keyboard::EaterDish, saved),
            },
        },
        Dialogue::EatRestNowSelectionMode => match text {
            None => (state, Keyboard::EaterRest, saved),
            Some(s) => match spec_eater_rest(s) {
                EaterRest::Basket => (Dialogue::BasketMode(user_id), Keyboard::BasketBottom, saved),
                EaterRest::Main => (Dialogue::UserMode, Keyboard::Main, saved),
                EaterRest::Restaurant(r) => (
                    Dialogue::EatRestGroupNowSelectionMode(r),
                    Keyboard::EaterGroup,
                    saved,
                ),
                EaterRest::UnknownCommand => common_fallback(
                    user_id,
                    s,
                    (state, Keyboard::EaterRest),
                    DialogueState { d: Dialogue::EatRestNowSelectionMode, m: Keyboard::EaterRest },
                    saved,
                ),
            },
        },
        Dialogue::EatRestGroupNowSelectionMode(rest) => match text {
            None => (state, Keyboard::EaterGroup, saved),
            Some(s) => match spec_eater_group(s) {
                EaterGroup::Basket => (
                    Dialogue::BasketMode(user_id),
                    Keyboard::BasketBottom,
                    saved,
                ),
                EaterGroup::Main => (Dialogue::UserMode, Keyboard::Main, saved),
                EaterGroup::Return => (Dialogue::EatRestNowSelectionMode, Keyboard::EaterRest, saved),
                EaterGroup::Group(g) => (
                    Dialogue::EatRestGroupDishSelectionMode(0, rest, g),
                    Keyboard::EaterGroup,
                    saved,
                ),
                EaterGroup::UnknownCommand => (state, Keyboard::EaterGroup, saved),
            },
        },
        Dialogue::CatererMode(rid) => match text {
            None => (state, Keyboard::CatererMain, saved),
            Some(s) => match spec_caterer(rid, s) {
                Caterer::Main(r) => (Dialogue::CatererMode(r), Keyboard::CatererMain, saved),
                Caterer::Exit => (Dialogue::UserMode, Keyboard::Main, saved),
                Caterer::EditTitle(r) => (Dialogue::CatEditRestTitle(r), Keyboard::Slash, saved),
                Caterer::EditInfo(r) => (Dialogue::CatEditRestInfo(r), Keyboard::Slash, saved),
                Caterer::TogglePause(r) => (Dialogue::CatererMode(r), Keyboard::CatererMain, saved),
                Caterer::EditImage(r) => (
                    Dialogue::CatEditRestImage(r),
                    Keyboard::CatererMain,
                    saved,
                ),
                Caterer::AddGroup(r) => (Dialogue::CatAddGroup(r), Keyboard::Slash, saved),
                Caterer::EditGroup(r, g) => (
                    Dialogue::CatEditGroup(r, g),
                    Keyboard::CatererMain,
                    saved,
                ),
                Caterer::TransferOwnership(_, _) => (state, Keyboard::CatererMain, saved),
                Caterer::Promote(_) => (state, Keyboard::CatererMain, saved),
                Caterer::UnknownCommand => (state, Keyboard::CatererMain, saved),
            },
        },
        Dialogue::CatEditRestTitle(r) => (Dialogue::CatererMode(r), Keyboard::CatererMain, saved),
        Dialogue::CatEditRestInfo(r) => (Dialogue::CatererMode(r), Keyboard::CatererMain, saved),
        Dialogue::CatEditRestImage(r) => (Dialogue::CatererMode(r), Keyboard::CatererMain, saved),
        Dialogue::CatAddGroup(r) => (Dialogue::CatererMode(r), Keyboard::CatererMain, saved),
        Dialogue::CatEditGroup(r, g) => match text {
            None => (state, Keyboard::CatererMain, saved),
            Some(s) => match spec_cat_group(r, g, s) {
                CatGroup::Main(r2) => (Dialogue::CatererMode(r2), Keyboard::CatererMain, saved),
                CatGroup::Exit => (Dialogue::UserMode, Keyboard::Main, saved),
                CatGroup::EditTitle(r2, g2) => (
                    Dialogue::CatEditGroupTitle(r2, g2),
                    Keyboard::Slash,
                    saved,
                ),
                CatGroup::EditInfo(r2, g2) => (
                    Dialogue::CatEditGroupInfo(r2, g2),
                    Keyboard::Slash,
                    saved,
                ),
                CatGroup::TogglePause(_, _) => (state, Keyboard::CatererMain, saved),
                CatGroup::EditCategory(r2, g2) => (
                    Dialogue::CatEditGroupCategory(r2, g2),
                    Keyboard::Category,
                    saved,
                ),
                CatGroup::EditTime(r2, g2) => (
                    Dialogue::CatEditGroupTime(r2, g2),
                    Keyboard::Slash,
                    saved,
                ),
                CatGroup::RemoveGroup(r2, g2) => if w.catalog.group_valid(r2, g2)
                    && w.catalog.dishes_of(r2, g2).len() == 0 {
                    (Dialogue::CatererMode(r2), Keyboard::CatererMain, saved)
                } else {
                    (state, Keyboard::CatererMain, saved)
                },
                CatGroup::AddDish(r2, g2) => (Dialogue::CatAddDish(r2, g2), Keyboard::Slash, saved),
                CatGroup::EditDish(r2, g2, d2) => (
                    Dialogue::CatEditDish(r2, g2, d2),
                    Keyboard::CatererMain,
                    saved,
                ),
                CatGroup::Promote(_, _) => (state, Keyboard::CatererMain, saved),
                CatGroup::UnknownCommand => (state, Keyboard::CatererMain, saved),
            },
        },
        Dialogue::CatEditGroupTitle(r, g) => (
            Dialogue::CatEditGroup(r, g),
            Keyboard::CatererMain,
            saved,
        ),
        Dialogue::CatEditGroupInfo(r, g) => (
            Dialogue::CatEditGroup(r, g),
            Keyboard::CatererMain,
            saved,
        ),
        Dialogue::CatEditGroupCategory(r, g) => (
            Dialogue::CatEditGroup(r, g),
            Keyboard::CatererMain,
            saved,
        ),
        Dialogue::CatEditGroupTime(r, g) => (
            Dialogue::CatEditGroup(r, g),
            Keyboard::CatererMain,
            saved,
        ),
        Dialogue::CatAddDish(r, g) => (Dialogue::CatEditGroup(r, g), Keyboard::CatererMain, saved),
        Dialogue::CatEditDish(r, g, d) => match text {
            None => (state, Keyboard::CatererMain, saved),
            Some(s) => match spec_cat_dish(r, g, d, s) {
                CatDish::Main(r2) => (Dialogue::CatererMode(r2), Keyboard::CatererMain, saved),
                CatDish::Exit => (Dialogue::UserMode, Keyboard::Main, saved),
                CatDish::EditTitle(r2, g2, d2) => (
                    Dialogue::CatEditDishTitle(r2, g2, d2),
                    Keyboard::Slash,
                    saved,
                ),
                CatDish::EditInfo(r2, g2, d2) => (
                    Dialogue::CatEditDishInfo(r2, g2, d2),
                    Keyboard::Slash,
                    saved,
                ),
                CatDish::TogglePause(_, _, _) => (state, Keyboard::CatererMain, saved),
                CatDish::EditGroup(r2, g2, d2) => (
                    Dialogue::CatEditDishGroup(r2, g2, d2),
                    Keyboard::CatererMain,
                    saved,
                ),
                CatDish::EditPrice(r2, g2, d2) => (
                    Dialogue::CatEditDishPrice(r2, g2, d2),
                    Keyboard::CatererMain,
                    saved,
                ),
                CatDish::EditImage(r2, g2, d2) => (
                    Dialogue::CatEditDishImage(r2, g2, d2),
                    Keyboard::CatererMain,
                    saved,
                ),
                CatDish::Remove(r2, g2, _) => (
                    Dialogue::CatEditGroup(r2, g2),
                    Keyboard::CatererMain,
                    saved,
                ),
                CatDish::Promote(_, _, _) => (state, Keyboard::CatererMain, saved),
                CatDish::UnknownCommand => (state, Keyboard::CatererMain, saved),
            },
        },
        Dialogue::CatEditDishTitle(r, g, d) => (
            Dialogue::CatEditDish(r, g, d),
            Keyboard::CatererMain,
            saved,
        ),
        Dialogue::CatEditDishInfo(r, g, d) => (
            Dialogue::CatEditDish(r, g, d),
            Keyboard::CatererMain,
            saved,
        ),
        Dialogue::CatEditDishGroup(r, g, d) => match text {
            None => (Dialogue::CatEditDish(r, g, d), Keyboard::CatererMain, saved),
            Some(s) => {
                let target = parse_or_zero_spec(s);
                if target <= 0 {
                    (Dialogue::CatEditDish(r, g, d), Keyboard::CatererMain, saved)
                } else if move_ok(w, r, g, d, target as i32) {
                    (
                        Dialogue::CatEditDish(
                            r,
                            target as i32,
                            (w.catalog.dishes_of(r, target as i32).len() + 1) as i32,
                        ),
                        Keyboard::CatererMain,
                        saved,
                    )
                } else {
                    (Dialogue::CatEditDish(r, g, d), Keyboard::CatererMain, saved)
                }
            },
        },
        Dialogue::CatEditDishPrice(r, g, d) => (
            Dialogue::CatEditDish(r, g, d),
            Keyboard::CatererMain,
            saved,
        ),
        Dialogue::CatEditDishImage(r, g, d) => (
            Dialogue::CatEditDish(r, g, d),
            Keyboard::CatererMain,
            saved,
        ),
        Dialogue::BasketMode(u) => match text {
            None => (state, Keyboard::BasketBottom, saved),
            Some(s) => match spec_basket(s) {
                Basket::Main => (Dialogue::UserMode, Keyboard::Main, saved),
                Basket::Refresh => (state, Keyboard::BasketBottom, saved),
                Basket::Clear => (state, Keyboard::BasketBottom, saved),
                Basket::Delete(_, _, _) => (state, Keyboard::BasketBottom, saved),
                Basket::TogglePickup => (state, Keyboard::BasketBottom, saved),
                Basket::EditName => (Dialogue::BasketEditName(u), Keyboard::Slash, saved),
                Basket::EditContact => (Dialogue::BasketEditContact(u), Keyboard::Slash, saved),
                Basket::EditAddress => (Dialogue::BasketEditAddress(u), Keyboard::Address, saved),
                Basket::UnknownCommand => common_fallback(
                    user_id,
                    s,
                    (state, Keyboard::BasketBottom),
                    DialogueState { d: state, m: Keyboard::BasketBottom },
                    saved,
                ),
            },
        },
        Dialogue::BasketEditName(u) => (Dialogue::BasketMode(u), Keyboard::BasketBottom, saved),
        Dialogue::BasketEditContact(u) => (Dialogue::BasketMode(u), Keyboard::BasketBottom, saved),
        Dialogue::BasketEditAddress(u) => (Dialogue::BasketMode(u), Keyboard::BasketBottom, saved),
        Dialogue::MessageToCaterer(_, _) => match saved {
            Some(ds) => (ds.d, ds.m, None),
            None => (Dialogue::UserMode, Keyboard::Main, None),
        },
        Dialogue::GearMode => gear_turn(w, user_id, text, saved),
    }
}


/// The text lines of one user's basket, with line totals, delete commands
/// and the grand total.
fn basket_view_text(catalog: &Catalog, baskets: &BasketStore, user_id: i32, unit: &str) -> (r:
    String)
    requires
        catalog.wf(),
        baskets.wf(),
{
    let mut text = String::from_str("Ваша корзина:\n");
    let (list, grand) = catalog.basket_contents(baskets, user_id, unit);
    let n = list.len();
    let mut i: usize = 0;
    while i < n
        invariant
            i <= n,
            n == list@.len(),
        decreases n - i,
    {
        let b = &list[i];
        text.append(b.restaurant.as_str());
        let m = b.dishes.len();
        let mut j: usize = 0;
        while j < m
            invariant
                j <= m,
                m == b.dishes@.len(),
            decreases m - j,
        {
            text.append(b.dishes[j].as_str());
            text.append("\n");
            j += 1;
        }
        text.append("Итог: ");
        text.append(crate::digits::i64_to_string(b.total).as_str());
        text.append(unit);
        text.append("\n");
        i += 1;
    }
    text.append("Всего: ");
    text.append(crate::digits::i64_to_string(grand).as_str());
    text.append(unit);
    text
}

/// The caterer's view of one restaurant: the editable fields with their
/// commands, and the group list.
fn rest_view_text(catalog: &Catalog, rest_num: i32) -> (r: String)
    requires
        catalog.wf(),
{
    match catalog.restaurant(RestBy::Num(rest_num)) {
        Some(rest) => {
            let mut text = String::from_str("Название: ");
            text.append(rest.title.as_str());
            text.append(" /EditTitle\nОписание: ");
            text.append(rest.info.as_str());
            text.append(" /EditInfo\nСтатус: ");
            text.append(crate::texts::active_to_str(rest.active));
            text.append(
                " /Toggle\nЗагрузить фото /EditImg\nДобавить группу /AddGroup\nГруппы:\n",
            );
            match catalog.group_list(crate::catalog::GroupListBy::All(rest_num)) {
                Some(groups) => {
                    let m = groups.len();
                    let mut j: usize = 0;
                    while j < m
                        invariant
                            j <= m,
                            m == groups@.len(),
                        decreases m - j,
                    {
                        text.append("   ");
                        text.append(groups[j].title.as_str());
                        text.append(" /EdGr");
                        text.append(i32_to_string(groups[j].num).as_str());
                        text.append("\n");
                        j += 1;
                    }
                },
                None => {
                    text.append("   пусто :(\n");
                },
            }
            text
        },
        None => String::from_str("Заведение не найдено"),
    }
}

/// The caterer's view of one group: its fields and its dish list.
fn group_view_text(catalog: &Catalog, rest_num: i32, group_num: i32, unit: &str) -> (r:
    String)
    requires
        catalog.wf(),
{
    match catalog.group(rest_num, group_num) {
        Some(group) => {
            let mut text = String::from_str("Название: ");
            text.append(group.title.as_str());
            text.append(" /EditTitle\nДоп.инфо: ");
            text.append(group.info.as_str());
            text.append(" /EditInfo\nКатегория: ");
            text.append(crate::texts::id_to_category(group.cat_id));
            text.append(" /EditCat\nСтатус: ");
            text.append(crate::texts::active_to_str(group.active));
            text.append(" /Toggle\nВремя: ");
            text.append(crate::texts::str_time(group.opening_time).as_str());
            text.append("-");
            text.append(crate::texts::str_time(group.closing_time).as_str());
            text.append(
                " /EditTime\nУдалить группу /Remove\nДобавить блюдо /AddDish\nБлюда:\n",
            );
            match catalog.dish_list(crate::catalog::DishesBy::All(rest_num, group_num)) {
                Some(dishes) => {
                    let m = dishes.len();
                    let mut j: usize = 0;
                    while j < m
                        invariant
                            j <= m,
                            m == dishes@.len(),
                        decreases m - j,
                    {
                        text.append("   ");
                        text.append(dishes[j].title_with_price(unit).as_str());
                        text.append(" /EdDi");
                        text.append(i32_to_string(dishes[j].num).as_str());
                        text.append("\n");
                        j += 1;
                    }
                },
                None => {
                    text.append("   пусто :(\n");
                },
            }
            text
        },
        None => String::from_str("Группа не найдена"),
    }
}

/// The caterer's view of one dish.
fn dish_view_text(
    catalog: &Catalog,
    rest_num: i32,
    group_num: i32,
    dish_num: i32,
    unit: &str,
) -> (r: String)
    requires
        catalog.wf(),
{
    match catalog.dish(DishBy::All(rest_num, group_num, dish_num)) {
        Some(d) => d.info_for_caterer(unit),
        None => String::from_str("Блюдо не найдено"),
    }
}

/// The restaurants whose menus fit a category, as command lines.
fn category_rest_list_text(catalog: &Catalog, cat_id: i32) -> (r: String)
    requires
        catalog.wf(),
{
    let mut text = String::from_str("Рестораны с подходящим меню:\n");
    match catalog.rest_list(RestListBy::Category(cat_id)) {
        Some(rests) => {
            let m = rests.len();
            let mut j: usize = 0;
            while j < m
                invariant
                    j <= m,
                    m == rests@.len(),
                decreases m - j,
            {
                text.append("   ");
                text.append(rests[j].title.as_str());
                text.append(" /rest");
                text.append(i32_to_string(rests[j].num).as_str());
                text.append("\n");
                j += 1;
            }
        },
        None => {
            text.append("   пусто :(");
        },
    }
    text
}

/// The restaurants open at the given minute, as command lines.
fn open_now_list_text(catalog: &Catalog, now: u16) -> (r: String)
    requires
        catalog.wf(),
{
    let mut text = String::from_str("Рестораны, открытые сейчас (");
    text.append(crate::texts::str_time(if now < 1440 { now } else { 0 }).as_str());
    text.append("):\n");
    match catalog.rest_list(RestListBy::Time(now)) {
        Some(rests) => {
            let m = rests.len();
            let mut j: usize = 0;
            while j < m
                invariant
                    j <= m,
                    m == rests@.len(),
                decreases m - j,
            {
                text.append("   ");
                text.append(rests[j].title.as_str());
                text.append(" /rest");
                text.append(i32_to_string(rests[j].num).as_str());
                text.append("\n");
                j += 1;
            }
        },
        None => {
            text.append("   пусто :(");
        },
    }
    text
}

/// The active dishes of one group, as command lines for an eater.
fn dishes_list_text(catalog: &Catalog, rest_num: i32, group_num: i32, unit: &str) -> (r:
    String)
    requires
        catalog.wf(),
{
    match catalog.dish_list(crate::catalog::DishesBy::Active(rest_num, group_num)) {
        Some(dishes) => {
            let mut text = String::new();
            let m = dishes.len();
            let mut j: usize = 0;
            while j < m
                invariant
                    j <= m,
                    m == dishes@.len(),
                decreases m - j,
            {
                text.append("   ");
                text.append(dishes[j].title_with_price(unit).as_str());
                text.append(" /dish");
                text.append(i32_to_string(dishes[j].num).as_str());
                text.append("\n");
                j += 1;
            }
            text
        },
        None => String::from_str("Подходящие блюда исчезли"),
    }
}

/// The sudo and status lines of every restaurant, for the administrator.
fn admin_rest_list_text(catalog: &Catalog, with_sudo: bool) -> (r: String)
    requires
        catalog.wf(),
{
    match catalog.rest_list(RestListBy::All) {
        Some(rests) => {
            let mut text = String::new();
            let m = rests.len();
            let mut j: usize = 0;
            while j < m
                invariant
                    j <= m,
                    m == rests@.len(),
                decreases m - j,
            {
                if with_sudo {
                    text.append(i32_to_string(rests[j].user_id).as_str());
                    text.append(" '");
                    text.append(rests[j].title.as_str());
                    text.append("' /sudo");
                    text.append(i32_to_string(rests[j].num).as_str());
                } else {
                    text.append(i32_to_string(rests[j].num).as_str());
                    text.append(" '");
                    text.append(rests[j].title.as_str());
                    text.append("', ");
                    text.append(crate::texts::enabled_to_str(rests[j].enabled));
                    text.append(" ");
                    text.append(crate::texts::enabled_to_cmd(rests[j].enabled));
                    text.append(i32_to_string(rests[j].user_id).as_str());
                }
                text.append("\n");
                j += 1;
            }
            text
        },
        None => String::from_str("   пусто :("),
    }
}



/// The catalog and basket effects of one message turn, keyed on the state
/// and the parsed command: every caterer edit commits exactly as the
/// catalog's own operation says, a cancelled or refused edit changes
/// nothing, the settings menu mutates the catalog only for an
/// administrator, and no other turn touches it. `c1` is the catalog after
/// the turn and `b1` the basket ledger after it (constrained here only where
/// a catalog operation repairs baskets).
pub open spec fn catalog_turn_ok(
    w0: World,
    c1: Catalog,
    b1: Map<(i32, i32, i32, i32), i32>,
    user_id: i32,
    state: Dialogue,
    text: Option<Seq<char>>,
    photo: Option<Seq<char>>,
) -> bool {
    let c0 = w0.catalog;
    let m0 = w0.baskets.view();
    match state {
        Dialogue::GearMode => match text {
            None => c1.rests@ == c0.rests@,
            Some(s) => match spec_gear(s) {
                Gear::RegisterCaterer(u2) => if w0.settings.spec_is_admin(user_id) {
                    crate::catalog::registered_shape(c0, c1, u2)
                } else {
                    c1.rests@ == c0.rests@
                },
                Gear::HoldCaterer(u2) => if w0.settings.spec_is_admin(user_id) {
                    crate::catalog::held_shape(c0, c1, u2)
                } else {
                    c1.rests@ == c0.rests@
                },
                _ => c1.rests@ == c0.rests@,
            },
        },
        Dialogue::CatererMode(rid) => match text {
            None => c1.rests@ == c0.rests@,
            Some(s) => match spec_caterer(rid, s) {
                Caterer::TogglePause(r2) => if c0.rest_valid(r2) {
                    crate::catalog::only_rest_record_changed(c0, c1, r2) && c1.rests@[r2
                        - 1].rest == (Restaurant {
                        active: !c0.rests@[r2 - 1].rest.active,
                        ..c0.rests@[r2 - 1].rest
                    })
                } else {
                    c1.rests@ == c0.rests@
                },
                Caterer::TransferOwnership(r2, u2) => if c0.rest_valid(r2) && (!c0.has_owner(u2)
                    || c0.rests@[r2 - 1].rest.user_id == u2) {
                    crate::catalog::only_rest_record_changed(c0, c1, r2) && c1.rests@[r2
                        - 1].rest == (Restaurant { user_id: u2, ..c0.rests@[r2 - 1].rest })
                } else {
                    c1.rests@ == c0.rests@
                },
                _ => c1.rests@ == c0.rests@,
            },
        },
        Dialogue::CatEditRestTitle(r2) => if text_cancels(text) {
            c1.rests@ == c0.rests@
        } else if c0.rest_valid(r2) {
            crate::catalog::only_rest_record_changed(c0, c1, r2) && c1.rests@[r2 - 1].rest == (
            Restaurant { title: c1.rests@[r2 - 1].rest.title, ..c0.rests@[r2 - 1].rest }) && c1.rests@[r2
                - 1].rest.title@ == text->0
        } else {
            c1.rests@ == c0.rests@
        },
        Dialogue::CatEditRestInfo(r2) => if text_cancels(text) {
            c1.rests@ == c0.rests@
        } else if c0.rest_valid(r2) {
            crate::catalog::only_rest_record_changed(c0, c1, r2) && c1.rests@[r2 - 1].rest == (
            Restaurant { info: c1.rests@[r2 - 1].rest.info, ..c0.rests@[r2 - 1].rest }) && c1.rests@[r2
                - 1].rest.info@ == text->0
        } else {
            c1.rests@ == c0.rests@
        },
        Dialogue::CatEditRestImage(r2) => match photo {
            Some(p) => if c0.rest_valid(r2) {
                crate::catalog::only_rest_record_changed(c0, c1, r2) && c1.rests@[r2 - 1].rest == (
                Restaurant {
                    image_id: c1.rests@[r2 - 1].rest.image_id,
                    ..c0.rests@[r2 - 1].rest
                }) && (c1.rests@[r2 - 1].rest.image_id matches Some(im) && im@ == p)
            } else {
                c1.rests@ == c0.rests@
            },
            None => c1.rests@ == c0.rests@,
        },
        Dialogue::CatAddGroup(r2) => if text_cancels(text) {
            c1.rests@ == c0.rests@
        } else {
            crate::catalog::added_group_shape(c0, c1, r2, text->0)
        },
        Dialogue::CatEditGroup(gr, gg) => match text {
            None => c1.rests@ == c0.rests@,
            Some(s) => match spec_cat_group(gr, gg, s) {
                CatGroup::TogglePause(r2, g2) => if c0.group_valid(r2, g2) {
                    crate::catalog::only_group_record_changed(c0, c1, r2, g2) && c1.groups_of(
                        r2,
                    )[g2 - 1].group == (Group {
                        active: !c0.groups_of(r2)[g2 - 1].group.active,
                        ..c0.groups_of(r2)[g2 - 1].group
                    })
                } else {
                    c1.rests@ == c0.rests@
                },
                CatGroup::RemoveGroup(r2, g2) => if c0.group_valid(r2, g2) && c0.dishes_of(
                    r2,
                    g2,
                ).len() == 0 {
                    crate::catalog::removed_group_shape(c0, c1, r2, g2)
                } else {
                    c1.rests@ == c0.rests@
                },
                _ => c1.rests@ == c0.rests@,
            },
        },
        Dialogue::CatEditGroupTitle(r2, g2) => if text_cancels(text) {
            c1.rests@ == c0.rests@
        } else if c0.group_valid(r2, g2) {
            crate::catalog::only_group_record_changed(c0, c1, r2, g2) && c1.groups_of(r2)[g2
                - 1].group == (Group {
                title: c1.groups_of(r2)[g2 - 1].group.title,
                ..c0.groups_of(r2)[g2 - 1].group
            }) && c1.groups_of(r2)[g2 - 1].group.title@ == text->0
        } else {
            c1.rests@ == c0.rests@
        },
        Dialogue::CatEditGroupInfo(r2, g2) => if text_cancels(text) {
            c1.rests@ == c0.rests@
        } else if c0.group_valid(r2, g2) {
            crate::catalog::only_group_record_changed(c0, c1, r2, g2) && c1.groups_of(r2)[g2
                - 1].group == (Group {
                info: c1.groups_of(r2)[g2 - 1].group.info,
                ..c0.groups_of(r2)[g2 - 1].group
            }) && c1.groups_of(r2)[g2 - 1].group.info@ == text->0
        } else {
            c1.rests@ == c0.rests@
        },
        Dialogue::CatEditGroupCategory(r2, g2) => match text {
            None => c1.rests@ == c0.rests@,
            Some(s) => if crate::texts::spec_category_id(s) > 0 {
                if c0.group_valid(r2, g2) {
                    crate::catalog::only_group_record_changed(c0, c1, r2, g2) && c1.groups_of(
                        r2,
                    )[g2 - 1].group == (Group {
                        cat_id: crate::texts::spec_category_id(s) as i32,
                        ..c0.groups_of(r2)[g2 - 1].group
                    })
                } else {
                    c1.rests@ == c0.rests@
                }
            } else {
                c1.rests@ == c0.rests@
            },
        },
        Dialogue::CatEditGroupTime(r2, g2) => match text {
            None => c1.rests@ == c0.rests@,
            Some(s) => match spec_time_window(s) {
                Some((o, c)) => crate::catalog::group_time_shape(
                    c0,
                    c1,
                    r2,
                    g2,
                    o as u16,
                    c as u16,
                ),
                None => c1.rests@ == c0.rests@,
            },
        },
        Dialogue::CatAddDish(r2, g2) => if text_cancels(text) {
            c1.rests@ == c0.rests@
        } else {
            crate::catalog::added_dish_shape(c0, c1, r2, g2, text->0)
        },
        Dialogue::CatEditDish(dr, dg, dd) => match text {
            None => c1.rests@ == c0.rests@ && b1 == m0,
            Some(s) => match spec_cat_dish(dr, dg, dd, s) {
                CatDish::TogglePause(r2, g2, d2) => b1 == m0 && if c0.dish_valid(r2, g2, d2) {
                    crate::catalog::only_dish_changed(c0, c1, r2, g2, d2) && c1.dishes_of(r2, g2)[d2
                        - 1] == (Dish {
                        active: !c0.dishes_of(r2, g2)[d2 - 1].active,
                        ..c0.dishes_of(r2, g2)[d2 - 1]
                    })
                } else {
                    c1.rests@ == c0.rests@
                },
                CatDish::Remove(r2, g2, d2) => if c0.dish_valid(r2, g2, d2) {
                    crate::catalog::removed_dish_shape(c0, c1, r2, g2, d2)
                        && crate::basket::basket_cascade_shape(m0, b1, r2, g2, d2)
                } else {
                    c1.rests@ == c0.rests@ && b1 == m0
                },
                _ => c1.rests@ == c0.rests@ && b1 == m0,
            },
        },
        Dialogue::CatEditDishTitle(r2, g2, d2) => if text_cancels(text) {
            c1.rests@ == c0.rests@
        } else if c0.dish_valid(r2, g2, d2) {
            crate::catalog::only_dish_changed(c0, c1, r2, g2, d2) && c1.dishes_of(r2, g2)[d2 - 1]
                == (Dish {
                title: c1.dishes_of(r2, g2)[d2 - 1].title,
                ..c0.dishes_of(r2, g2)[d2 - 1]
            }) && c1.dishes_of(r2, g2)[d2 - 1].title@ == text->0
        } else {
            c1.rests@ == c0.rests@
        },
        Dialogue::CatEditDishInfo(r2, g2, d2) => if text_cancels(text) {
            c1.rests@ == c0.rests@
        } else if c0.dish_valid(r2, g2, d2) {
            crate::catalog::only_dish_changed(c0, c1, r2, g2, d2) && c1.dishes_of(r2, g2)[d2 - 1]
                == (Dish {
                info: c1.dishes_of(r2, g2)[d2 - 1].info,
                ..c0.dishes_of(r2, g2)[d2 - 1]
            }) && c1.dishes_of(r2, g2)[d2 - 1].info@ == text->0
        } else {
            c1.rests@ == c0.rests@
        },
        Dialogue::CatEditDishPrice(r2, g2, d2) => match text {
            None => c1.rests@ == c0.rests@,
            Some(s) => if c0.dish_valid(r2, g2, d2) {
                crate::catalog::only_dish_changed(c0, c1, r2, g2, d2) && c1.dishes_of(r2, g2)[d2
                    - 1] == (Dish {
                    price: parse_or_zero_spec(s) as i32,
                    ..c0.dishes_of(r2, g2)[d2 - 1]
                })
            } else {
                c1.rests@ == c0.rests@
            },
        },
        Dialogue::CatEditDishImage(r2, g2, d2) => match photo {
            Some(p) => if c0.dish_valid(r2, g2, d2) {
                crate::catalog::only_dish_changed(c0, c1, r2, g2, d2) && (c1.dishes_of(r2, g2)[d2
                    - 1] == (Dish {
                    image_id: c1.dishes_of(r2, g2)[d2 - 1].image_id,
                    ..c0.dishes_of(r2, g2)[d2 - 1]
                })) && (c1.dishes_of(r2, g2)[d2 - 1].image_id matches Some(im) && im@ == p)
            } else {
                c1.rests@ == c0.rests@
            },
            None => c1.rests@ == c0.rests@,
        },
        Dialogue::CatEditDishGroup(r2, g2, d2) => match text {
            None => c1.rests@ == c0.rests@ && b1 == m0,
            Some(s) => {
                let target = parse_or_zero_spec(s);
                if target <= 0 {
                    c1.rests@ == c0.rests@ && b1 == m0
                } else if move_ok(w0, r2, g2, d2, target as i32) {
                    &&& target as i32 != g2 ==> crate::catalog::moved_dish_shape(
                        c0,
                        c1,
                        r2,
                        g2,
                        d2,
                        target as i32,
                    )
                    &&& crate::basket::basket_cascade_shape(m0, b1, r2, g2, d2)
                } else {
                    c1.rests@ == c0.rests@ && b1 == m0
                }
            },
        },
        _ => c1.rests@ == c0.rests@,
    }
}

/// States whose turns never touch the catalog: everything on the eater's
/// side of the bot.
pub open spec fn eater_side(d: Dialogue) -> bool {
    match d {
        Dialogue::Start => true,
        Dialogue::UserMode => true,
        Dialogue::EatRestSelectionMode(_) => true,
        Dialogue::EatRestGroupSelectionMode(_, _) => true,
        Dialogue::EatRestGroupDishSelectionMode(_, _, _) => true,
        Dialogue::EatRestNowSelectionMode => true,
        Dialogue::EatRestGroupNowSelectionMode(_) => true,
        Dialogue::BasketMode(_) => true,
        Dialogue::BasketEditName(_) => true,
        Dialogue::BasketEditContact(_) => true,
        Dialogue::BasketEditAddress(_) => true,
        Dialogue::MessageToCaterer(_, _) => true,
        _ => false,
    }
}

/// States whose turns never touch the baskets.
pub open spec fn basket_neutral(d: Dialogue) -> bool {
    match d {
        Dialogue::BasketMode(_) => false,
        Dialogue::CatEditDish(_, _, _) => false,
        Dialogue::CatEditDishGroup(_, _, _) => false,
        _ => true,
    }
}

/// The minute of the day a clock field `HH:MM` names: hour and minute parsed
/// as integers around the first colon, both inside one day.
pub open spec fn spec_clock(s: Seq<char>) -> Option<int> {
    match find_char(s, ':', 0) {
        None => None,
        Some(i) => match (
            parse_i32_spec(s.subrange(0, i)),
            parse_i32_spec(s.subrange(i + 1, s.len() as int)),
        ) {
            (Some(h), Some(m)) => if 0 <= h < 24 && 0 <= m < 60 {
                Some(h * 60 + m)
            } else {
                None
            },
            _ => None,
        },
    }
}

/// The working window `HH:MM-HH:MM` names: two clock fields around the first
/// dash.
pub open spec fn spec_time_window(s: Seq<char>) -> Option<(int, int)> {
    match find_char(s, '-', 0) {
        None => None,
        Some(i) => match (spec_clock(s.subrange(0, i)), spec_clock(
            s.subrange(i + 1, s.len() as int),
        )) {
            (Some(o), Some(c)) => Some((o, c)),
            _ => None,
        },
    }
}

/// Reads one clock field `HH:MM` as a minute of the day.
fn parse_clock(s: &str) -> (r: Option<u16>)
    ensures
        r is Some <==> spec_clock(s@) is Some,
        r is Some ==> r->0 as int == spec_clock(s@)->0 && r->0 < 1440,
{
    let n = s.unicode_len();
    let colon = match crate::keys::find_char_position(s, ':', 0) {
        None => {
            return None;
        },
        Some(i) => i,
    };
    let h = match crate::digits::parse_i32(s.substring_char(0, colon)) {
        Some(v) => v,
        None => {
            return None;
        },
    };
    let m = match crate::digits::parse_i32(s.substring_char(colon + 1, n)) {
        Some(v) => v,
        None => {
            return None;
        },
    };
    if 0 <= h && h < 24 && 0 <= m && m < 60 {
        Some((h * 60 + m) as u16)
    } else {
        None
    }
}

/// Reads a working window written `HH:MM-HH:MM` (one-digit fields are
/// accepted); both bounds come back as minutes of the day.
fn parse_time_window(s: &str) -> (r: Option<(u16, u16)>)
    ensures
        r is Some <==> spec_time_window(s@) is Some,
        r is Some ==> ({
            let (a, b) = r->0;
            let (o, c) = spec_time_window(s@)->0;
            a as int == o && b as int == c && a < 1440 && b < 1440
        }),
{
    let n = s.unicode_len();
    let dash = match crate::keys::find_char_position(s, '-', 0) {
        None => {
            return None;
        },
        Some(i) => i,
    };
    let first = parse_clock(s.substring_char(0, dash));
    let second = parse_clock(s.substring_char(dash + 1, n));
    match (first, second) {
        (Some(a), Some(b)) => Some((a, b)),
        _ => None,
    }
}

/// The welcome line of the main menu, with the administrator's variant.
fn welcome_text(world: &World, user_id: i32) -> (r: String) {
    if world.settings.is_admin(user_id) {
        String::from_str("Начат новый сеанс. Список команд администратора в описании.")
    } else {
        String::from_str(
            "Пожалуйста, выберите в основном меню снизу какие заведения показать.",
        )
    }
}

/// The groups of one restaurant as command lines for an eater.
fn groups_list_text(catalog: &Catalog, by: crate::catalog::GroupListBy) -> (r: String)
    requires
        catalog.wf(),
{
    match catalog.group_list(by) {
        Some(groups) => {
            let mut text = String::from_str("Разделы меню:\n");
            let m = groups.len();
            let mut j: usize = 0;
            while j < m
                invariant
                    j <= m,
                    m == groups@.len(),
                decreases m - j,
            {
                text.append("   ");
                text.append(groups[j].title.as_str());
                text.append(" /grou");
                text.append(i32_to_string(groups[j].num).as_str());
                text.append("\n");
                j += 1;
            }
            text
        },
        None => String::from_str("   пусто :("),
    }
}

/// Handles the commands every state shares, from a state that otherwise
/// stays put with `stay_text`.
fn common_step(
    world: &mut World,
    user: &UserContact,
    text: &String,
    stay_d: Dialogue,
    stay_kb: Keyboard,
    origin: DialogueState,
    saved0: Option<DialogueState>,
    stamp: i64,
    stay_text: String,
) -> (r: (Dialogue, Keyboard, Option<DialogueState>, String))
    requires
        old(world).wf(),
    ensures
        final(world).wf(),
        (r.0, r.1, r.2) == common_fallback(user.id, text@, (stay_d, stay_kb), origin, saved0),
        final(world).catalog.rests@ == old(world).catalog.rests@,
        final(world).baskets.lines@ == old(world).baskets.lines@,
        final(world).tickets.tickets@ == old(world).tickets.tickets@,
        final(world).tickets.next_id == old(world).tickets.next_id,
        final(world).sessions.sessions@ == old(world).sessions.sessions@,
        final(world).settings == old(world).settings,
    {
    match Common::from(text.as_str()) {
        Common::Start => {
            world.users.user_compact_interface(Some(user), stamp);
            let txt = welcome_text(world, user.id);
            (Dialogue::UserMode, Keyboard::Main, saved0, txt)
        },
        Common::StartArgs(f, snd, _) => {
            let txt = dishes_list_text(&world.catalog, f, snd, world.settings.price_unit.as_str());
            (
                Dialogue::EatRestGroupDishSelectionMode(0, f, snd),
                Keyboard::EaterGroup,
                saved0,
                txt,
            )
        },
        Common::Goto(f, snd, _) => {
            let txt = dishes_list_text(&world.catalog, f, snd, world.settings.price_unit.as_str());
            (
                Dialogue::EatRestGroupDishSelectionMode(0, f, snd),
                Keyboard::EaterGroup,
                saved0,
                txt,
            )
        },
        Common::SendMessage(c) => (
            Dialogue::MessageToCaterer(user.id, c),
            Keyboard::Slash,
            Some(origin),
            String::from_str("Введите сообщение (/ для отмены)"),
        ),
        Common::UnknownCommand => (stay_d, stay_kb, saved0, stay_text),
    }
}

/// Handles one main-menu command.
fn user_mode_step(
    world: &mut World,
    user: &UserContact,
    text: &String,
    saved0: Option<DialogueState>,
    stamp: i64,
    now: u16,
) -> (r: (Dialogue, Keyboard, Option<DialogueState>, String))
    requires
        old(world).wf(),
        now < 1440,
    ensures
        final(world).wf(),
        (r.0, r.1, r.2) == user_mode_turn(*old(world), user.id, Some(text@), saved0),
        final(world).catalog.rests@ == old(world).catalog.rests@,
        final(world).baskets.lines@ == old(world).baskets.lines@,
        final(world).tickets.tickets@ == old(world).tickets.tickets@,
        final(world).tickets.next_id == old(world).tickets.next_id,
        final(world).sessions.sessions@ == old(world).sessions.sessions@,
        final(world).settings == old(world).settings,
    {
    match User::from(text.as_str()) {
        User::Category(cat) => {
            let compact = world.users.compact_of(user.id);
            let txt = category_rest_list_text(&world.catalog, cat);
            if compact {
                (Dialogue::EatRestSelectionMode(cat), Keyboard::EaterRest, saved0, txt)
            } else {
                (Dialogue::UserMode, Keyboard::Main, saved0, txt)
            }
        },
        User::OpenedNow => {
            let compact = world.users.compact_of(user.id);
            let txt = open_now_list_text(&world.catalog, now);
            if compact {
                (Dialogue::EatRestNowSelectionMode, Keyboard::EaterRest, saved0, txt)
            } else {
                (Dialogue::UserMode, Keyboard::Main, saved0, txt)
            }
        },
        User::Basket => {
            let txt = basket_view_text(
                &world.catalog,
                &world.baskets,
                user.id,
                world.settings.price_unit.as_str(),
            );
            (Dialogue::BasketMode(user.id), Keyboard::BasketBottom, saved0, txt)
        },
        User::Gear => {
            let compact = world.users.compact_of(user.id);
            world.users.user_compact_interface(Some(user), stamp);
            let mut txt = String::from_str("Режим интерфейса: ");
            txt.append(interface_mode(compact).as_str());
            txt.append(" /toggle");
            (Dialogue::GearMode, Keyboard::GearBottom, saved0, txt)
        },
        User::ChatId => {
            let mut txt = String::from_str("Chat id=");
            txt.append(i32_to_string(user.id).as_str());
            (Dialogue::UserMode, Keyboard::Main, saved0, txt)
        },
        User::UnknownCommand => {
            let mut note = String::from_str("Вы в главном меню: неизвестная команда ");
            note.append(text.as_str());
            common_step(
                world,
                user,
                text,
                Dialogue::UserMode,
                Keyboard::Main,
                DialogueState { d: Dialogue::UserMode, m: Keyboard::Main },
                saved0,
                stamp,
                note,
            )
        },
    }
}


/// One inbound turn: looks the sender's session up, parses the text under
/// that state's grammar, applies the effects to the stores, persists the new
/// session and answers with a response descriptor. Total over every state
/// and input; the next state, keyboard and saved return state follow
/// `spec_turn` exactly, turns never touch the tickets, eater-side turns
/// never touch the catalog, and only the basket view and dish removal touch
/// the baskets — a basket delete and a basket clear are pinned exactly.
pub fn handle_message(
    world: &mut World,
    user: &UserContact,
    text: Option<&String>,
    photo_id: Option<&String>,
    now: u16,
    stamp: i64,
) -> (r: Response)
    requires
        old(world).wf(),
        now < 1440,
    ensures
        final(world).wf(),
        final(world).settings == old(world).settings,
        final(world).tickets.tickets@ == old(world).tickets.tickets@,
        final(world).tickets.next_id == old(world).tickets.next_id,
        ({
            let state0 = session_state(old(world).sessions.sessions@, user.id);
            let saved0 = session_saved(old(world).sessions.sessions@, user.id);
            let tv = match text {
                Some(t) => Some(t@),
                None => None::<Seq<char>>,
            };
            let (d2, kb2, sv2) = spec_turn(*old(world), user.id, state0, saved0, tv, photo_id is Some);
            &&& session_state(final(world).sessions.sessions@, user.id) == d2
            &&& session_saved(final(world).sessions.sessions@, user.id) == sv2
            &&& r.keyboard == kb2
        }),
        forall|u: i32|
            u != user.id ==> #[trigger] session_state(final(world).sessions.sessions@, u)
                == session_state(old(world).sessions.sessions@, u) && session_saved(
                final(world).sessions.sessions@,
                u,
            ) == session_saved(old(world).sessions.sessions@, u),
        eater_side(session_state(old(world).sessions.sessions@, user.id))
            ==> final(world).catalog.rests@ == old(world).catalog.rests@,
        catalog_turn_ok(
            *old(world),
            final(world).catalog,
            final(world).baskets@,
            user.id,
            session_state(old(world).sessions.sessions@, user.id),
            match text {
                Some(t) => Some(t@),
                None => None::<Seq<char>>,
            },
            match photo_id {
                Some(p) => Some(p@),
                None => None::<Seq<char>>,
            },
        ),
        ({
            let state0 = session_state(old(world).sessions.sessions@, user.id);
            state0 == Dialogue::GearMode && !old(world).settings.spec_is_admin(user.id)
                ==> match text {
                Some(t) => match spec_gear(t@) {
                    Gear::RegisterCaterer(_) => r.text@ == "Недостаточно прав"@,
                    Gear::HoldCaterer(_) => r.text@ == "Недостаточно прав"@,
                    Gear::Sudo(_) => r.text@ == "Недостаточно прав"@,
                    Gear::List => r.text@ == "Недостаточно прав"@,
                    _ => true,
                },
                None => true,
            }
        }),
        basket_neutral(session_state(old(world).sessions.sessions@, user.id))
            ==> final(world).baskets.lines@ == old(world).baskets.lines@,
        ({
            let state0 = session_state(old(world).sessions.sessions@, user.id);
            state0 matches Dialogue::BasketMode(u) ==> match text {
                Some(t) => match spec_basket(t@) {
                    Basket::Delete(a, b, c) => final(world).baskets@ == map_remove_one(
                        old(world).baskets@,
                        (a, b, c, u),
                    ),
                    Basket::Clear => (forall|k: (i32, i32, i32, i32)|
                        k.3 == u ==> #[trigger] map_amount(final(world).baskets@, k) == 0)
                        && (forall|k: (i32, i32, i32, i32)|
                        k.3 != u ==> #[trigger] map_amount(final(world).baskets@, k) == map_amount(
                            old(world).baskets@,
                            k,
                        )),
                    _ => final(world).baskets.lines@ == old(world).baskets.lines@,
                },
                None => final(world).baskets.lines@ == old(world).baskets.lines@,
            }
        }),
        ({
            let state0 = session_state(old(world).sessions.sessions@, user.id);
            let saved0 = session_saved(old(world).sessions.sessions@, user.id);
            &&& (r.notify is Some <==> ((state0 matches Dialogue::MessageToCaterer(_, _))
                && !text_cancels(
                match text {
                    Some(t) => Some(t@),
                    None => None::<Seq<char>>,
                },
            )))
            &&& (match state0 {
                Dialogue::MessageToCaterer(_f, c) => r.notify is Some ==> ({
                    let (target, _msg) = r.notify->0;
                    target == c
                }),
                _ => true,
            })
        }),
{
    let user_id = user.id;
    let (state0, saved0) = world.sessions.get(user_id);
    proof {
        // a stored saved state is never the compose state itself
        if crate::dialogue::has_session(world.sessions.sessions@, user_id) {
            let i = crate::dialogue::session_idx(world.sessions.sessions@, user_id);
            assert(crate::dialogue::saved_ok(
                (#[trigger] world.sessions.sessions@[i]).saved,
            ));
        }
        assert(crate::dialogue::saved_ok(saved0));
    }
    let mut notify: Option<(i32, String)> = None;
    let (d2, kb2, sv2, rtext): (Dialogue, Keyboard, Option<DialogueState>, String) = match state0 {
        Dialogue::Start => {
            match text {
                Some(t) => {
                    let u_cmd = User::from(t.as_str());
                    let c_cmd = Common::from(t.as_str());
                    let known = !(matches!(u_cmd, User::UnknownCommand) && matches!(
                        c_cmd,
                        Common::UnknownCommand,
                    ));
                    if known {
                        user_mode_step(world, user, t, saved0, stamp, now)
                    } else {
                        world.users.user_compact_interface(Some(user), stamp);
                        let txt = welcome_text(world, user_id);
                        (Dialogue::UserMode, Keyboard::Main, saved0, txt)
                    }
                },
                None => {
                    world.users.user_compact_interface(Some(user), stamp);
                    let txt = welcome_text(world, user_id);
                    (Dialogue::UserMode, Keyboard::Main, saved0, txt)
                },
            }
        },
        Dialogue::UserMode => {
            match text {
                Some(t) => user_mode_step(world, user, t, saved0, stamp, now),
                None => {
                    let txt = match photo_id {
                        Some(p) => {
                            let mut m = String::from_str("Вы прислали картинку с id\n");
                            m.append(p.as_str());
                            m
                        },
                        None => String::from_str("Текстовое сообщение, пожалуйста!"),
                    };
                    (Dialogue::UserMode, Keyboard::Main, saved0, txt)
                },
            }
        },
        Dialogue::EatRestSelectionMode(cat) => {
            match text {
                None => (
                    state0,
                    Keyboard::EaterRest,
                    saved0,
                    String::from_str("Текстовое сообщение, пожалуйста!"),
                ),
                Some(t) => match EaterRest::from(t.as_str()) {
                    EaterRest::Basket => {
                        let txt = basket_view_text(
                            &world.catalog,
                            &world.baskets,
                            user_id,
                            world.settings.price_unit.as_str(),
                        );
                        (Dialogue::BasketMode(user_id), Keyboard::BasketBottom, saved0, txt)
                    },
                    EaterRest::Main => {
                        world.users.user_compact_interface(Some(user), stamp);
                        let txt = welcome_text(world, user_id);
                        (Dialogue::UserMode, Keyboard::Main, saved0, txt)
                    },
                    EaterRest::Restaurant(rn) => {
                        let txt = groups_list_text(
                            &world.catalog,
                            crate::catalog::GroupListBy::Category(rn, cat),
                        );
                        (
                            Dialogue::EatRestGroupSelectionMode(cat, rn),
                            Keyboard::EaterGroup,
                            saved0,
                            txt,
                        )
                    },
                    EaterRest::UnknownCommand => (
                        state0,
                        Keyboard::EaterRest,
                        saved0,
                        String::from_str(
                            "Вы в меню выбора ресторана: неизвестная команда",
                        ),
                    ),
                },
            }
        },
        Dialogue::EatRestGroupSelectionMode(cat, rest) => {
            match text {
                None => (
                    state0,
                    Keyboard::EaterGroup,
                    saved0,
                    String::from_str("Текстовое сообщение, пожалуйста!"),
                ),
                Some(t) => match EaterGroup::from(t.as_str()) {
                    EaterGroup::Basket => {
                        let txt = basket_view_text(
                            &world.catalog,
                            &world.baskets,
                            user_id,
                            world.settings.price_unit.as_str(),
                        );
                        (Dialogue::BasketMode(user_id), Keyboard::BasketBottom, saved0, txt)
                    },
                    EaterGroup::Main => {
                        world.users.user_compact_interface(Some(user), stamp);
                        let txt = welcome_text(world, user_id);
                        (Dialogue::UserMode, Keyboard::Main, saved0, txt)
                    },
                    EaterGroup::Return => {
                        let txt = category_rest_list_text(&world.catalog, cat);
                        (Dialogue::EatRestSelectionMode(cat), Keyboard::EaterRest, saved0, txt)
                    },
                    EaterGroup::Group(g) => {
                        let txt = dishes_list_text(&world.catalog, rest, g, world.settings.price_unit.as_str());
                        (
                            Dialogue::EatRestGroupDishSelectionMode(cat, rest, g),
                            Keyboard::EaterGroup,
                            saved0,
                            txt,
                        )
                    },
                    EaterGroup::UnknownCommand => (
                        state0,
                        Keyboard::EaterGroup,
                        saved0,
                        String::from_str("Вы в меню выбора группы: неизвестная команда"),
                    ),
                },
            }
        },
        Dialogue::EatRestGroupDishSelectionMode(cat, rest, group) => {
            match text {
                None => (
                    state0,
                    Keyboard::EaterDish,
                    saved0,
                    String::from_str("Текстовое сообщение, пожалуйста!"),
                ),
                Some(t) => match EaterDish::from(t.as_str()) {
                    EaterDish::Basket => {
                        let txt = basket_view_text(
                            &world.catalog,
                            &world.baskets,
                            user_id,
                            world.settings.price_unit.as_str(),
                        );
                        (Dialogue::BasketMode(user_id), Keyboard::BasketBottom, saved0, txt)
                    },
                    EaterDish::Main => {
                        world.users.user_compact_interface(Some(user), stamp);
                        let txt = welcome_text(world, user_id);
                        (Dialogue::UserMode, Keyboard::Main, saved0, txt)
                    },
                    EaterDish::Return => {
                        if cat > 0 {
                            let txt = groups_list_text(
                                &world.catalog,
                                crate::catalog::GroupListBy::Category(rest, cat),
                            );
                            (
                                Dialogue::EatRestGroupSelectionMode(cat, rest),
                                Keyboard::EaterGroup,
                                saved0,
                                txt,
                            )
                        } else {
                            let txt = groups_list_text(
                                &world.catalog,
                                crate::catalog::GroupListBy::Time(rest, now),
                            );
                            (
                                Dialogue::EatRestGroupNowSelectionMode(rest),
                                Keyboard::EaterGroup,
                                saved0,
                                txt,
                            )
                        }
                    },
                    EaterDish::Dish(d) => {
                        let amount = world.baskets.amount_in_basket(rest, group, d, user_id);
                        let txt = match world.catalog.dish(DishBy::Active(rest, group, d)) {
                            Some(dd) => dd.info_for_eater(world.settings.price_unit.as_str()),
                            None => String::from_str("Блюдо больше недоступно"),
                        };
                        (state0, Keyboard::DishInline(rest, group, d, amount), saved0, txt)
                    },
                    EaterDish::UnknownCommand => (
                        state0,
                        Keyboard::EaterDish,
                        saved0,
                        String::from_str("Вы в меню выбора блюда: неизвестная команда"),
                    ),
                },
            }
        },
        Dialogue::EatRestNowSelectionMode => {
            match text {
                None => (
                    state0,
                    Keyboard::EaterRest,
                    saved0,
                    String::from_str("Текстовое сообщение, пожалуйста!"),
                ),
                Some(t) => match EaterRest::from(t.as_str()) {
                    EaterRest::Basket => {
                        let txt = basket_view_text(
                            &world.catalog,
                            &world.baskets,
                            user_id,
                            world.settings.price_unit.as_str(),
                        );
                        (Dialogue::BasketMode(user_id), Keyboard::BasketBottom, saved0, txt)
                    },
                    EaterRest::Main => {
                        world.users.user_compact_interface(Some(user), stamp);
                        let txt = welcome_text(world, user_id);
                        (Dialogue::UserMode, Keyboard::Main, saved0, txt)
                    },
                    EaterRest::Restaurant(rn) => {
                        let txt = groups_list_text(
                            &world.catalog,
                            crate::catalog::GroupListBy::Time(rn, now),
                        );
                        (
                            Dialogue::EatRestGroupNowSelectionMode(rn),
                            Keyboard::EaterGroup,
                            saved0,
                            txt,
                        )
                    },
                    EaterRest::UnknownCommand => {
                        let mut note = String::from_str(
                            "Вы в меню выбора ресторана: неизвестная команда '",
                        );
                        note.append(t.as_str());
                        note.append("'");
                        common_step(
                            world,
                            user,
                            t,
                            state0,
                            Keyboard::EaterRest,
                            DialogueState {
                                d: Dialogue::EatRestNowSelectionMode,
                                m: Keyboard::EaterRest,
                            },
                            saved0,
                            stamp,
                            note,
                        )
                    },
                },
            }
        },
        Dialogue::EatRestGroupNowSelectionMode(rest) => {
            match text {
                None => (
                    state0,
                    Keyboard::EaterGroup,
                    saved0,
                    String::from_str("Текстовое сообщение, пожалуйста!"),
                ),
                Some(t) => match EaterGroup::from(t.as_str()) {
                    EaterGroup::Basket => {
                        let txt = basket_view_text(
                            &world.catalog,
                            &world.baskets,
                            user_id,
                            world.settings.price_unit.as_str(),
                        );
                        (Dialogue::BasketMode(user_id), Keyboard::BasketBottom, saved0, txt)
                    },
                    EaterGroup::Main => {
                        world.users.user_compact_interface(Some(user), stamp);
                        let txt = welcome_text(world, user_id);
                        (Dialogue::UserMode, Keyboard::Main, saved0, txt)
                    },
                    EaterGroup::Return => {
                        let txt = open_now_list_text(&world.catalog, now);
                        (Dialogue::EatRestNowSelectionMode, Keyboard::EaterRest, saved0, txt)
                    },
                    EaterGroup::Group(g) => {
                        let txt = dishes_list_text(&world.catalog, rest, g, world.settings.price_unit.as_str());
                        (
                            Dialogue::EatRestGroupDishSelectionMode(0, rest, g),
                            Keyboard::EaterGroup,
                            saved0,
                            txt,
                        )
                    },
                    EaterGroup::UnknownCommand => (
                        state0,
                        Keyboard::EaterGroup,
                        saved0,
                        String::from_str("Вы в меню выбора группы: неизвестная команда"),
                    ),
                },
            }
        },
        Dialogue::CatererMode(rid) => {
            match text {
                None => (
                    state0,
                    Keyboard::CatererMain,
                    saved0,
                    String::from_str("Текстовое сообщение, пожалуйста!"),
                ),
                Some(t) => match Caterer::from(rid, t.as_str()) {
                    Caterer::Main(r2) => {
                        let txt = rest_view_text(&world.catalog, r2);
                        (Dialogue::CatererMode(r2), Keyboard::CatererMain, saved0, txt)
                    },
                    Caterer::Exit => {
                        world.users.user_compact_interface(Some(user), stamp);
                        let txt = welcome_text(world, user_id);
                        (Dialogue::UserMode, Keyboard::Main, saved0, txt)
                    },
                    Caterer::EditTitle(r2) => (
                        Dialogue::CatEditRestTitle(r2),
                        Keyboard::Slash,
                        saved0,
                        String::from_str("Введите название (/ для отмены)"),
                    ),
                    Caterer::EditInfo(r2) => (
                        Dialogue::CatEditRestInfo(r2),
                        Keyboard::Slash,
                        saved0,
                        String::from_str("Введите описание (адрес, контакты)"),
                    ),
                    Caterer::TogglePause(r2) => {
                        world.catalog.rest_toggle(r2);
                        let txt = rest_view_text(&world.catalog, r2);
                        (Dialogue::CatererMode(r2), Keyboard::CatererMain, saved0, txt)
                    },
                    Caterer::EditImage(r2) => (
                        Dialogue::CatEditRestImage(r2),
                        Keyboard::CatererMain,
                        saved0,
                        String::from_str("Загрузите картинку"),
                    ),
                    Caterer::AddGroup(r2) => (
                        Dialogue::CatAddGroup(r2),
                        Keyboard::Slash,
                        saved0,
                        String::from_str("Введите название (/ для отмены)"),
                    ),
                    Caterer::EditGroup(r2, g2) => {
                        let txt = group_view_text(&world.catalog, r2, g2, world.settings.price_unit.as_str());
                        (Dialogue::CatEditGroup(r2, g2), Keyboard::CatererMain, saved0, txt)
                    },
                    Caterer::TransferOwnership(r2, u2) => {
                        let ok = world.catalog.transfer_ownership(r2, u2);
                        let mut txt = String::from_str("Передача владения: ");
                        txt.append(is_success(ok));
                        (state0, Keyboard::CatererMain, saved0, txt)
                    },
                    Caterer::Promote(_) => (
                        state0,
                        Keyboard::CatererMain,
                        saved0,
                        String::from_str("Команда в разработке"),
                    ),
                    Caterer::UnknownCommand => (
                        state0,
                        Keyboard::CatererMain,
                        saved0,
                        String::from_str("Вы в главном меню: неизвестная команда"),
                    ),
                },
            }
        },
        Dialogue::CatEditRestTitle(r2) => {
            let txt = match text {
                Some(t) => {
                    let s = remove_slash(t.as_str());
                    if s.as_str().unicode_len() == 0 {
                        String::from_str("Отмена")
                    } else {
                        let ok = world.catalog.rest_edit_title(r2, s);
                        if ok {
                            rest_view_text(&world.catalog, r2)
                        } else {
                            String::from_str("Ошибка")
                        }
                    }
                },
                None => String::from_str("Отмена"),
            };
            (Dialogue::CatererMode(r2), Keyboard::CatererMain, saved0, txt)
        },
        Dialogue::CatEditRestInfo(r2) => {
            let txt = match text {
                Some(t) => {
                    let s = remove_slash(t.as_str());
                    if s.as_str().unicode_len() == 0 {
                        String::from_str("Отмена")
                    } else {
                        let ok = world.catalog.rest_edit_info(r2, s);
                        if ok {
                            rest_view_text(&world.catalog, r2)
                        } else {
                            String::from_str("Ошибка")
                        }
                    }
                },
                None => String::from_str("Отмена"),
            };
            (Dialogue::CatererMode(r2), Keyboard::CatererMain, saved0, txt)
        },
        Dialogue::CatEditRestImage(r2) => {
            let txt = match photo_id {
                Some(p) => {
                    world.catalog.rest_edit_image(r2, p);
                    rest_view_text(&world.catalog, r2)
                },
                None => String::from_str("Отмена"),
            };
            (Dialogue::CatererMode(r2), Keyboard::CatererMain, saved0, txt)
        },
        Dialogue::CatAddGroup(r2) => {
            let txt = match text {
                Some(t) => {
                    let s = remove_slash(t.as_str());
                    if s.as_str().unicode_len() == 0 {
                        String::from_str("Отмена")
                    } else {
                        let ok = world.catalog.rest_add_group(r2, s);
                        if ok {
                            rest_view_text(&world.catalog, r2)
                        } else {
                            String::from_str("Ошибка")
                        }
                    }
                },
                None => String::from_str("Отмена"),
            };
            (Dialogue::CatererMode(r2), Keyboard::CatererMain, saved0, txt)
        },
        Dialogue::CatEditGroup(gr, gg) => {
            match text {
                None => (
                    state0,
                    Keyboard::CatererMain,
                    saved0,
                    String::from_str("Текстовое сообщение, пожалуйста!"),
                ),
                Some(t) => match CatGroup::from(gr, gg, t.as_str()) {
                    CatGroup::Main(r2) => {
                        let txt = rest_view_text(&world.catalog, r2);
                        (Dialogue::CatererMode(r2), Keyboard::CatererMain, saved0, txt)
                    },
                    CatGroup::Exit => {
                        world.users.user_compact_interface(Some(user), stamp);
                        let txt = welcome_text(world, user_id);
                        (Dialogue::UserMode, Keyboard::Main, saved0, txt)
                    },
                    CatGroup::EditTitle(r2, g2) => (
                        Dialogue::CatEditGroupTitle(r2, g2),
                        Keyboard::Slash,
                        saved0,
                        String::from_str("Введите название (/ для отмены)"),
                    ),
                    CatGroup::EditInfo(r2, g2) => (
                        Dialogue::CatEditGroupInfo(r2, g2),
                        Keyboard::Slash,
                        saved0,
                        String::from_str("Введите описание (/ для отмены)"),
                    ),
                    CatGroup::TogglePause(r2, g2) => {
                        world.catalog.rest_group_toggle(r2, g2);
                        let txt = group_view_text(&world.catalog, r2, g2, world.settings.price_unit.as_str());
                        (state0, Keyboard::CatererMain, saved0, txt)
                    },
                    CatGroup::EditCategory(r2, g2) => (
                        Dialogue::CatEditGroupCategory(r2, g2),
                        Keyboard::Category,
                        saved0,
                        String::from_str("Выберите категорию"),
                    ),
                    CatGroup::EditTime(r2, g2) => (
                        Dialogue::CatEditGroupTime(r2, g2),
                        Keyboard::Slash,
                        saved0,
                        String::from_str(
                            "Введите время работы (ЧЧ:ММ-ЧЧ:ММ, / для отмены)",
                        ),
                    ),
                    CatGroup::RemoveGroup(r2, g2) => {
                        let ok = world.catalog.rest_group_remove(r2, g2);
                        if ok {
                            let txt = rest_view_text(&world.catalog, r2);
                            (Dialogue::CatererMode(r2), Keyboard::CatererMain, saved0, txt)
                        } else {
                            (
                                state0,
                                Keyboard::CatererMain,
                                saved0,
                                String::from_str(
                                    "Ошибка: в группе не должно быть блюд",
                                ),
                            )
                        }
                    },
                    CatGroup::AddDish(r2, g2) => (
                        Dialogue::CatAddDish(r2, g2),
                        Keyboard::Slash,
                        saved0,
                        String::from_str("Введите название (/ для отмены)"),
                    ),
                    CatGroup::EditDish(r2, g2, d2) => {
                        let txt = dish_view_text(
                            &world.catalog,
                            r2,
                            g2,
                            d2,
                            world.settings.price_unit.as_str(),
                        );
                        (Dialogue::CatEditDish(r2, g2, d2), Keyboard::CatererMain, saved0, txt)
                    },
                    CatGroup::Promote(_, _) => (
                        state0,
                        Keyboard::CatererMain,
                        saved0,
                        String::from_str("Команда в разработке"),
                    ),
                    CatGroup::UnknownCommand => (
                        state0,
                        Keyboard::CatererMain,
                        saved0,
                        String::from_str("Вы в меню группы: неизвестная команда"),
                    ),
                },
            }
        },
        Dialogue::CatEditGroupTitle(r2, g2) => {
            let txt = match text {
                Some(t) => {
                    let s = remove_slash(t.as_str());
                    if s.as_str().unicode_len() == 0 {
                        String::from_str("Отмена")
                    } else {
                        let ok = world.catalog.rest_group_edit_title(r2, g2, s);
                        if ok {
                            group_view_text(&world.catalog, r2, g2, world.settings.price_unit.as_str())
                        } else {
                            String::from_str("Ошибка")
                        }
                    }
                },
                None => String::from_str("Отмена"),
            };
            (Dialogue::CatEditGroup(r2, g2), Keyboard::CatererMain, saved0, txt)
        },
        Dialogue::CatEditGroupInfo(r2, g2) => {
            let txt = match text {
                Some(t) => {
                    let s = remove_slash(t.as_str());
                    if s.as_str().unicode_len() == 0 {
                        String::from_str("Отмена")
                    } else {
                        let ok = world.catalog.rest_group_edit_info(r2, g2, s);
                        if ok {
                            group_view_text(&world.catalog, r2, g2, world.settings.price_unit.as_str())
                        } else {
                            String::from_str("Ошибка")
                        }
                    }
                },
                None => String::from_str("Отмена"),
            };
            (Dialogue::CatEditGroup(r2, g2), Keyboard::CatererMain, saved0, txt)
        },
        Dialogue::CatEditGroupCategory(r2, g2) => {
            let txt = match text {
                Some(t) => {
                    let cat = crate::texts::category_to_id(t.as_str());
                    if cat > 0 {
                        world.catalog.rest_group_edit_category(r2, g2, cat);
                        group_view_text(&world.catalog, r2, g2, world.settings.price_unit.as_str())
                    } else {
                        String::from_str("Отмена")
                    }
                },
                None => String::from_str("Отмена"),
            };
            (Dialogue::CatEditGroup(r2, g2), Keyboard::CatererMain, saved0, txt)
        },
        Dialogue::CatEditGroupTime(r2, g2) => {
            let txt = match text {
                Some(t) => match parse_time_window(t.as_str()) {
                    Some((o, c)) => {
                        world.catalog.rest_group_edit_time(r2, g2, o, c);
                        group_view_text(&world.catalog, r2, g2, world.settings.price_unit.as_str())
                    },
                    None => String::from_str("Отмена"),
                },
                None => String::from_str("Отмена"),
            };
            (Dialogue::CatEditGroup(r2, g2), Keyboard::CatererMain, saved0, txt)
        },
        Dialogue::CatAddDish(r2, g2) => {
            let txt = match text {
                Some(t) => {
                    let s = remove_slash(t.as_str());
                    if s.as_str().unicode_len() == 0 {
                        String::from_str("Отмена")
                    } else {
                        let ok = world.catalog.rest_add_dish(r2, g2, s);
                        if ok {
                            group_view_text(&world.catalog, r2, g2, world.settings.price_unit.as_str())
                        } else {
                            String::from_str("Ошибка")
                        }
                    }
                },
                None => String::from_str("Отмена"),
            };
            (Dialogue::CatEditGroup(r2, g2), Keyboard::CatererMain, saved0, txt)
        },
        Dialogue::CatEditDish(dr, dg, dd) => {
            match text {
                None => (
                    state0,
                    Keyboard::CatererMain,
                    saved0,
                    String::from_str("Текстовое сообщение, пожалуйста!"),
                ),
                Some(t) => match CatDish::from(dr, dg, dd, t.as_str()) {
                    CatDish::Main(r2) => {
                        let txt = rest_view_text(&world.catalog, r2);
                        (Dialogue::CatererMode(r2), Keyboard::CatererMain, saved0, txt)
                    },
                    CatDish::Exit => {
                        world.users.user_compact_interface(Some(user), stamp);
                        let txt = welcome_text(world, user_id);
                        (Dialogue::UserMode, Keyboard::Main, saved0, txt)
                    },
                    CatDish::EditTitle(r2, g2, d2) => (
                        Dialogue::CatEditDishTitle(r2, g2, d2),
                        Keyboard::Slash,
                        saved0,
                        String::from_str("Введите название (/ для отмены)"),
                    ),
                    CatDish::EditInfo(r2, g2, d2) => (
                        Dialogue::CatEditDishInfo(r2, g2, d2),
                        Keyboard::Slash,
                        saved0,
                        String::from_str("Введите пояснения для блюда"),
                    ),
                    CatDish::TogglePause(r2, g2, d2) => {
                        world.catalog.rest_dish_toggle(r2, g2, d2);
                        let txt = dish_view_text(
                            &world.catalog,
                            r2,
                            g2,
                            d2,
                            world.settings.price_unit.as_str(),
                        );
                        (state0, Keyboard::CatererMain, saved0, txt)
                    },
                    CatDish::EditGroup(r2, g2, d2) => (
                        Dialogue::CatEditDishGroup(r2, g2, d2),
                        Keyboard::CatererMain,
                        saved0,
                        String::from_str("Введите номер группы"),
                    ),
                    CatDish::EditPrice(r2, g2, d2) => (
                        Dialogue::CatEditDishPrice(r2, g2, d2),
                        Keyboard::CatererMain,
                        saved0,
                        String::from_str("Введите сумму"),
                    ),
                    CatDish::EditImage(r2, g2, d2) => (
                        Dialogue::CatEditDishImage(r2, g2, d2),
                        Keyboard::CatererMain,
                        saved0,
                        String::from_str("Загрузите картинку"),
                    ),
                    CatDish::Remove(r2, g2, d2) => {
                        world.catalog.rest_dish_remove(r2, g2, d2, &mut world.baskets);
                        let txt = group_view_text(&world.catalog, r2, g2, world.settings.price_unit.as_str());
                        (Dialogue::CatEditGroup(r2, g2), Keyboard::CatererMain, saved0, txt)
                    },
                    CatDish::Promote(_, _, _) => (
                        state0,
                        Keyboard::CatererMain,
                        saved0,
                        String::from_str("Команда в разработке"),
                    ),
                    CatDish::UnknownCommand => (
                        state0,
                        Keyboard::CatererMain,
                        saved0,
                        String::from_str("Вы в меню блюда: неизвестная команда"),
                    ),
                },
            }
        },
        Dialogue::CatEditDishTitle(r2, g2, d2) => {
            let txt = match text {
                Some(t) => {
                    let s = remove_slash(t.as_str());
                    if s.as_str().unicode_len() == 0 {
                        String::from_str("Отмена")
                    } else {
                        world.catalog.rest_dish_edit_title(r2, g2, d2, s);
                        dish_view_text(
                            &world.catalog,
                            r2,
                            g2,
                            d2,
                            world.settings.price_unit.as_str(),
                        )
                    }
                },
                None => String::from_str("Отмена"),
            };
            (Dialogue::CatEditDish(r2, g2, d2), Keyboard::CatererMain, saved0, txt)
        },
        Dialogue::CatEditDishInfo(r2, g2, d2) => {
            let txt = match text {
                Some(t) => {
                    let s = remove_slash(t.as_str());
                    if s.as_str().unicode_len() == 0 {
                        String::from_str("Отмена")
                    } else {
                        world.catalog.rest_dish_edit_info(r2, g2, d2, s);
                        dish_view_text(
                            &world.catalog,
                            r2,
                            g2,
                            d2,
                            world.settings.price_unit.as_str(),
                        )
                    }
                },
                None => String::from_str("Отмена"),
            };
            (Dialogue::CatEditDish(r2, g2, d2), Keyboard::CatererMain, saved0, txt)
        },
        Dialogue::CatEditDishGroup(r2, g2, d2) => {
            match text {
                None => (
                    Dialogue::CatEditDish(r2, g2, d2),
                    Keyboard::CatererMain,
                    saved0,
                    String::from_str("Ошибка, отмена"),
                ),
                Some(t) => {
                    let target = parse_i32_or_zero(t.as_str());
                    if target <= 0 {
                        (
                            Dialogue::CatEditDish(r2, g2, d2),
                            Keyboard::CatererMain,
                            saved0,
                            String::from_str(
                                "Должно быть число 1 или больше, отмена",
                            ),
                        )
                    } else {
                        match world.catalog.dishes_count(r2, target) {
                            Some(cnt) if cnt < (i32::MAX as usize) => {
                                let moved = world.catalog.rest_dish_edit_group(
                                    r2,
                                    g2,
                                    d2,
                                    target,
                                    &mut world.baskets,
                                );
                                if moved {
                                    let new_num = (cnt as i32) + 1;
                                    let txt = dish_view_text(
                                        &world.catalog,
                                        r2,
                                        target,
                                        new_num,
                                        world.settings.price_unit.as_str(),
                                    );
                                    (
                                        Dialogue::CatEditDish(r2, target, new_num),
                                        Keyboard::CatererMain,
                                        saved0,
                                        txt,
                                    )
                                } else {
                                    (
                                        Dialogue::CatEditDish(r2, g2, d2),
                                        Keyboard::CatererMain,
                                        saved0,
                                        String::from_str(
                                            "Группы с таким кодом нет, отмена",
                                        ),
                                    )
                                }
                            },
                            _ => (
                                Dialogue::CatEditDish(r2, g2, d2),
                                Keyboard::CatererMain,
                                saved0,
                                String::from_str("Группы с таким кодом нет, отмена"),
                            ),
                        }
                    }
                },
            }
        },
        Dialogue::CatEditDishPrice(r2, g2, d2) => {
            let txt = match text {
                Some(t) => {
                    let price = parse_i32_or_zero(t.as_str());
                    world.catalog.rest_dish_edit_price(r2, g2, d2, price);
                    dish_view_text(
                            &world.catalog,
                            r2,
                            g2,
                            d2,
                            world.settings.price_unit.as_str(),
                        )
                },
                None => dish_view_text(
                            &world.catalog,
                            r2,
                            g2,
                            d2,
                            world.settings.price_unit.as_str(),
                        ),
            };
            (Dialogue::CatEditDish(r2, g2, d2), Keyboard::CatererMain, saved0, txt)
        },
        Dialogue::CatEditDishImage(r2, g2, d2) => {
            let txt = match photo_id {
                Some(p) => {
                    world.catalog.rest_dish_edit_image(r2, g2, d2, p);
                    dish_view_text(
                            &world.catalog,
                            r2,
                            g2,
                            d2,
                            world.settings.price_unit.as_str(),
                        )
                },
                None => dish_view_text(
                            &world.catalog,
                            r2,
                            g2,
                            d2,
                            world.settings.price_unit.as_str(),
                        ),
            };
            (Dialogue::CatEditDish(r2, g2, d2), Keyboard::CatererMain, saved0, txt)
        },
        Dialogue::BasketMode(bu) => {
            match text {
                None => (
                    state0,
                    Keyboard::BasketBottom,
                    saved0,
                    String::from_str("Текстовое сообщение, пожалуйста!"),
                ),
                Some(t) => match Basket::from(t.as_str()) {
                    Basket::Main => {
                        world.users.user_compact_interface(Some(user), stamp);
                        let txt = welcome_text(world, user_id);
                        (Dialogue::UserMode, Keyboard::Main, saved0, txt)
                    },
                    Basket::Refresh => {
                        let txt = basket_view_text(
                            &world.catalog,
                            &world.baskets,
                            bu,
                            world.settings.price_unit.as_str(),
                        );
                        (state0, Keyboard::BasketBottom, saved0, txt)
                    },
                    Basket::Clear => {
                        world.baskets.clear_basket(bu);
                        let txt = basket_view_text(
                            &world.catalog,
                            &world.baskets,
                            bu,
                            world.settings.price_unit.as_str(),
                        );
                        (state0, Keyboard::BasketBottom, saved0, txt)
                    },
                    Basket::Delete(a, b, c) => {
                        let res = world.baskets.remove_dish_from_basket(a, b, c, bu);
                        proof {
                            assert(res is Ok);
                        }
                        let txt = basket_view_text(
                            &world.catalog,
                            &world.baskets,
                            bu,
                            world.settings.price_unit.as_str(),
                        );
                        (state0, Keyboard::BasketBottom, saved0, txt)
                    },
                    Basket::TogglePickup => {
                        world.users.basket_toggle_pickup(bu);
                        let txt = basket_view_text(
                            &world.catalog,
                            &world.baskets,
                            bu,
                            world.settings.price_unit.as_str(),
                        );
                        (state0, Keyboard::BasketBottom, saved0, txt)
                    },
                    Basket::EditName => (
                        Dialogue::BasketEditName(bu),
                        Keyboard::Slash,
                        saved0,
                        String::from_str("Введите имя (/ для отмены)"),
                    ),
                    Basket::EditContact => (
                        Dialogue::BasketEditContact(bu),
                        Keyboard::Slash,
                        saved0,
                        String::from_str("Введите контакт (/ для отмены)"),
                    ),
                    Basket::EditAddress => (
                        Dialogue::BasketEditAddress(bu),
                        Keyboard::Address,
                        saved0,
                        String::from_str("Введите адрес (/ для отмены)"),
                    ),
                    Basket::UnknownCommand => {
                        let mut note = String::from_str(
                            "Вы в корзине: неизвестная команда ",
                        );
                        note.append(t.as_str());
                        common_step(
                            world,
                            user,
                            t,
                            state0,
                            Keyboard::BasketBottom,
                            DialogueState { d: state0, m: Keyboard::BasketBottom },
                            saved0,
                            stamp,
                            note,
                        )
                    },
                },
            }
        },
        Dialogue::BasketEditName(bu) => {
            let txt = match text {
                Some(t) => {
                    let s = remove_slash(t.as_str());
                    if s.as_str().unicode_len() == 0 {
                        String::from_str("Отмена")
                    } else {
                        world.users.basket_edit_name(bu, s);
                        basket_view_text(
                            &world.catalog,
                            &world.baskets,
                            bu,
                            world.settings.price_unit.as_str(),
                        )
                    }
                },
                None => String::from_str("Отмена"),
            };
            (Dialogue::BasketMode(bu), Keyboard::BasketBottom, saved0, txt)
        },
        Dialogue::BasketEditContact(bu) => {
            let txt = match text {
                Some(t) => {
                    let s = remove_slash(t.as_str());
                    if s.as_str().unicode_len() == 0 {
                        String::from_str("Отмена")
                    } else {
                        world.users.basket_edit_contact(bu, s);
                        basket_view_text(
                            &world.catalog,
                            &world.baskets,
                            bu,
                            world.settings.price_unit.as_str(),
                        )
                    }
                },
                None => String::from_str("Отмена"),
            };
            (Dialogue::BasketMode(bu), Keyboard::BasketBottom, saved0, txt)
        },
        Dialogue::BasketEditAddress(bu) => {
            let txt = match text {
                Some(t) => {
                    let s = remove_slash(t.as_str());
                    if s.as_str().unicode_len() == 0 {
                        String::from_str("Отмена")
                    } else {
                        world.users.basket_edit_address(bu, s);
                        basket_view_text(
                            &world.catalog,
                            &world.baskets,
                            bu,
                            world.settings.price_unit.as_str(),
                        )
                    }
                },
                None => String::from_str("Отмена"),
            };
            (Dialogue::BasketMode(bu), Keyboard::BasketBottom, saved0, txt)
        },
        Dialogue::MessageToCaterer(from_id, cat_id) => {
            let txt = match text {
                Some(t) => {
                    let s = remove_slash(t.as_str());
                    if s.as_str().unicode_len() > 0 {
                        let mut msg = String::from_str("Сообщение от ");
                        msg.append(user.first_name.as_str());
                        msg.append("\n");
                        msg.append(s.as_str());
                        msg.append("\n Для ответа нажмите ссылку /snd");
                        msg.append(i32_to_string(from_id).as_str());
                        notify = Some((cat_id, msg));
                        String::from_str("Сообщение отправлено")
                    } else {
                        String::from_str("Отмена отправки сообщения")
                    }
                },
                None => String::from_str("Отмена отправки сообщения"),
            };
            let (rd, rm): (Dialogue, Keyboard) = match saved0 {
                Some(ds) => (ds.d, ds.m),
                None => (Dialogue::UserMode, Keyboard::Main),
            };
            (rd, rm, None, txt)
        },
        Dialogue::GearMode => {
            match text {
                None => (
                    state0,
                    Keyboard::GearBottom,
                    saved0,
                    String::from_str("Текстовое сообщение, пожалуйста!"),
                ),
                Some(t) => match Gear::from(t.as_str()) {
                    Gear::Main => {
                        world.users.user_compact_interface(Some(user), stamp);
                        let txt = welcome_text(world, user_id);
                        (Dialogue::UserMode, Keyboard::Main, saved0, txt)
                    },
                    Gear::ToggleInterface => {
                        world.users.user_toggle_interface(Some(user));
                        let compact = world.users.compact_of(user_id);
                        let mut txt = String::from_str(
                            "Режим интерфейса изменён на '",
                        );
                        txt.append(interface_mode(compact).as_str());
                        txt.append("'");
                        (state0, Keyboard::GearBottom, saved0, txt)
                    },
                    Gear::CatererMode => {
                        if world.settings.is_admin(user_id) {
                            let mut txt = String::from_str(
                                "Выберите ресторан для входа\n",
                            );
                            txt.append(admin_rest_list_text(&world.catalog, true).as_str());
                            (state0, Keyboard::GearBottom, saved0, txt)
                        } else {
                            match world.catalog.rest_num(Some(user_id)) {
                                Ok(num) => {
                                    let txt = rest_view_text(&world.catalog, num);
                                    (
                                        Dialogue::CatererMode(num),
                                        Keyboard::CatererMain,
                                        saved0,
                                        txt,
                                    )
                                },
                                Err(_) => {
                                    let mut txt = String::from_str(
                                        "Для доступа в режим рестораторов обратитесь к ",
                                    );
                                    txt.append(world.settings.admin_contact_info().as_str());
                                    txt.append(" и сообщите свой Id=");
                                    txt.append(i32_to_string(user_id).as_str());
                                    (state0, Keyboard::GearBottom, saved0, txt)
                                },
                            }
                        }
                    },
                    Gear::RegisterCaterer(u2) => {
                        let txt = if world.settings.is_admin(user_id) {
                            let ok = world.catalog.register_caterer(u2);
                            let mut m = String::from_str(
                                "Регистрация или разблокировка ресторатора ",
                            );
                            m.append(i32_to_string(u2).as_str());
                            m.append(": ");
                            m.append(is_success(ok));
                            m
                        } else {
                            String::from_str("Недостаточно прав")
                        };
                        (state0, Keyboard::GearBottom, saved0, txt)
                    },
                    Gear::HoldCaterer(u2) => {
                        let txt = if world.settings.is_admin(user_id) {
                            let res = world.catalog.hold_caterer(u2);
                            let ok = match res {
                                Ok(_) => true,
                                Err(_) => false,
                            };
                            let mut m = String::from_str("Блокировка ресторатора ");
                            m.append(i32_to_string(u2).as_str());
                            m.append(": ");
                            m.append(is_success(ok));
                            m
                        } else {
                            String::from_str("Недостаточно прав")
                        };
                        (state0, Keyboard::GearBottom, saved0, txt)
                    },
                    Gear::Sudo(rn) => {
                        if world.settings.is_admin(user_id) {
                            let txt = rest_view_text(&world.catalog, rn);
                            (Dialogue::CatererMode(rn), Keyboard::CatererMain, saved0, txt)
                        } else {
                            (
                                state0,
                                Keyboard::GearBottom,
                                saved0,
                                String::from_str("Недостаточно прав"),
                            )
                        }
                    },
                    Gear::List => {
                        if world.settings.is_admin(user_id) {
                            let txt = admin_rest_list_text(&world.catalog, false);
                            (state0, Keyboard::Main, saved0, txt)
                        } else {
                            (
                                state0,
                                Keyboard::GearBottom,
                                saved0,
                                String::from_str("Недостаточно прав"),
                            )
                        }
                    },
                    Gear::UnknownCommand => {
                        let mut note = String::from_str(
                            "Вы в меню настроек: неизвестная команда '",
                        );
                        note.append(t.as_str());
                        note.append("'");
                        common_step(
                            world,
                            user,
                            t,
                            state0,
                            Keyboard::GearBottom,
                            DialogueState { d: Dialogue::UserMode, m: Keyboard::GearBottom },
                            saved0,
                            stamp,
                            note,
                        )
                    },
                },
            }
        },
    };
    world.sessions.put(user_id, d2, sv2);
    Response { text: rtext, keyboard: kb2, notify }
}

} // verus!
