//! The command grammar: each dialogue state owns a closed set of literal
//! commands and fixed-prefix commands with integer arguments. Unrecognized
//! text parses to the state's unknown-command value, never to an error, and
//! a numeric argument that fails to parse defaults to zero, which callers
//! treat as absent.

use vstd::prelude::*;
use crate::digits::{parse_or_zero_spec, parse_i32_or_zero};
use crate::keys::{parse_key3_spec, parse_key_3_int};
use crate::strutil::{has_prefix, str_eq, starts_with, suffix_from};

verus! {

/// The commands every state understands.
#[derive(Copy, Clone, PartialEq, Eq, Structural, Debug)]
pub enum Common {
    /// A fresh start.
    Start,
    /// A start landing directly on a dish or group key.
    StartArgs(i32, i32, i32),
    /// Compose a message to the caterer with the id.
    SendMessage(i32),
    /// Jump to a dish or group key.
    Goto(i32, i32, i32),
    UnknownCommand,
}

/// What `Common` makes of raw input.
pub open spec fn spec_common(s: Seq<char>) -> Common {
    if s == "/start"@ {
        Common::Start
    } else if has_prefix(s, "/snd"@) {
        Common::SendMessage(parse_or_zero_spec(s.skip(4)) as i32)
    } else if has_prefix(s, "/start "@) {
        match parse_key3_spec(s.skip(7)) {
            Some((a, b, c)) => Common::StartArgs(a as i32, b as i32, c as i32),
            None => Common::UnknownCommand,
        }
    } else if has_prefix(s, "/goto"@) {
        match parse_key3_spec(s.skip(5)) {
            Some((a, b, c)) => Common::Goto(a as i32, b as i32, c as i32),
            None => Common::UnknownCommand,
        }
    } else {
        Common::UnknownCommand
    }
}

impl Common {
    /// Parses input in any state.
    pub fn from(input: &str) -> (r: Common)
        ensures
            r == spec_common(input@),
    {
        proof {
            reveal_strlit("/snd");
            reveal_strlit("/start ");
            reveal_strlit("/goto");
        }
        if str_eq(input, "/start") {
            Common::Start
        } else if starts_with(input, "/snd") {
            Common::SendMessage(parse_i32_or_zero(suffix_from(input, 4)))
        } else if starts_with(input, "/start ") {
            match parse_key_3_int(suffix_from(input, 7)) {
                Ok((a, b, c)) => Common::StartArgs(a, b, c),
                Err(_) => Common::UnknownCommand,
            }
        } else if starts_with(input, "/goto") {
            match parse_key_3_int(suffix_from(input, 5)) {
                Ok((a, b, c)) => Common::Goto(a, b, c),
                Err(_) => Common::UnknownCommand,
            }
        } else {
            Common::UnknownCommand
        }
    }
}

/// The main-menu commands of an eater.
#[derive(Copy, Clone, PartialEq, Eq, Structural, Debug)]
pub enum User {
    /// Browse one category.
    Category(i32),
    /// Browse what is open now.
    OpenedNow,
    /// Open the basket.
    Basket,
    UnknownCommand,
    /// Show the chat id.
    ChatId,
    /// Open the settings menu.
    Gear,
}

/// What the main menu makes of raw input.
pub open spec fn spec_user(s: Seq<char>) -> User {
    if s == "Соки воды"@ {
        User::Category(1)
    } else if s == "Еда"@ {
        User::Category(2)
    } else if s == "Напитки"@ {
        User::Category(3)
    } else if s == "Развлечения"@ {
        User::Category(4)
    } else if s == "Сейчас"@ {
        User::OpenedNow
    } else if s == "🛒Корзина"@ {
        User::Basket
    } else if s == "⚙"@ {
        User::Gear
    } else if has_prefix(s, "/chat"@) {
        User::ChatId
    } else {
        User::UnknownCommand
    }
}

impl User {
    /// Parses main-menu input.
    pub fn from(input: &str) -> (r: User)
        ensures
            r == spec_user(input@),
    {
        if str_eq(input, "Соки воды") {
            User::Category(1)
        } else if str_eq(input, "Еда") {
            User::Category(2)
        } else if str_eq(input, "Напитки") {
            User::Category(3)
        } else if str_eq(input, "Развлечения") {
            User::Category(4)
        } else if str_eq(input, "Сейчас") {
            User::OpenedNow
        } else if str_eq(input, "🛒Корзина") {
            User::Basket
        } else if str_eq(input, "⚙") {
            User::Gear
        } else if starts_with(input, "/chat") {
            User::ChatId
        } else {
            User::UnknownCommand
        }
    }
}

/// The caterer's main-menu commands.
#[derive(Copy, Clone, PartialEq, Eq, Structural, Debug)]
pub enum Caterer {
    /// Show the restaurant view.
    Main(i32),
    /// Leave caterer mode.
    Exit,
    UnknownCommand,
    /// Edit the restaurant title.
    EditTitle(i32),
    /// Edit the restaurant description.
    EditInfo(i32),
    /// Flip visibility.
    TogglePause(i32),
    /// Replace the picture.
    EditImage(i32),
    /// Edit one group.
    EditGroup(i32, i32),
    /// Add a group.
    AddGroup(i32),
    /// Hand the restaurant to another owner.
    TransferOwnership(i32, i32),
    /// Ask for a promotion message.
    Promote(i32),
}

/// What the caterer menu makes of raw input.
pub open spec fn spec_caterer(rest_id: i32, s: Seq<char>) -> Caterer {
    if s == "Главная"@ {
        Caterer::Main(rest_id)
    } else if s == "Выход"@ {
        Caterer::Exit
    } else if s == "/EditTitle"@ {
        Caterer::EditTitle(rest_id)
    } else if s == "/EditInfo"@ {
        Caterer::EditInfo(rest_id)
    } else if s == "/Toggle"@ {
        Caterer::TogglePause(rest_id)
    } else if s == "/EditImg"@ {
        Caterer::EditImage(rest_id)
    } else if s == "/AddGroup"@ {
        Caterer::AddGroup(rest_id)
    } else if s == "/Promote"@ {
        Caterer::Promote(rest_id)
    } else if has_prefix(s, "/EdGr"@) {
        Caterer::EditGroup(rest_id, parse_or_zero_spec(s.skip(5)) as i32)
    } else if has_prefix(s, "/move"@) {
        Caterer::TransferOwnership(rest_id, parse_or_zero_spec(s.skip(5)) as i32)
    } else {
        Caterer::UnknownCommand
    }
}

impl Caterer {
    /// Parses caterer-menu input.
    pub fn from(rest_id: i32, input: &str) -> (r: Caterer)
        ensures
            r == spec_caterer(rest_id, input@),
    {
        proof {
            reveal_strlit("/EdGr");
            reveal_strlit("/move");
        }
        if str_eq(input, "Главная") {
            Caterer::Main(rest_id)
        } else if str_eq(input, "Выход") {
            Caterer::Exit
        } else if str_eq(input, "/EditTitle") {
            Caterer::EditTitle(rest_id)
        } else if str_eq(input, "/EditInfo") {
            Caterer::EditInfo(rest_id)
        } else if str_eq(input, "/Toggle") {
            Caterer::TogglePause(rest_id)
        } else if str_eq(input, "/EditImg") {
            Caterer::EditImage(rest_id)
        } else if str_eq(input, "/AddGroup") {
            Caterer::AddGroup(rest_id)
        } else if str_eq(input, "/Promote") {
            Caterer::Promote(rest_id)
        } else if starts_with(input, "/EdGr") {
            Caterer::EditGroup(rest_id, parse_i32_or_zero(suffix_from(input, 5)))
        } else if starts_with(input, "/move") {
            Caterer::TransferOwnership(rest_id, parse_i32_or_zero(suffix_from(input, 5)))
        } else {
            Caterer::UnknownCommand
        }
    }
}

/// The group-editing commands.
#[derive(Copy, Clone, PartialEq, Eq, Structural, Debug)]
pub enum CatGroup {
    /// Back to the restaurant view.
    Main(i32),
    /// Leave caterer mode.
    Exit,
    UnknownCommand,
    /// Edit the group title.
    EditTitle(i32, i32),
    /// Edit the group description.
    EditInfo(i32, i32),
    /// Flip visibility.
    TogglePause(i32, i32),
    /// Move the group to another category.
    EditCategory(i32, i32),
    /// Edit the working window.
    EditTime(i32, i32),
    /// Delete the group.
    RemoveGroup(i32, i32),
    /// Add a dish.
    AddDish(i32, i32),
    /// Edit one dish.
    EditDish(i32, i32, i32),
    /// Ask for a promotion message.
    Promote(i32, i32),
}

/// What the group-editing menu makes of raw input.
pub open spec fn spec_cat_group(rest_id: i32, group_id: i32, s: Seq<char>) -> CatGroup {
    if s == "Главная"@ {
        CatGroup::Main(rest_id)
    } else if s == "Выход"@ {
        CatGroup::Exit
    } else if s == "/EditTitle"@ {
        CatGroup::EditTitle(rest_id, group_id)
    } else if s == "/EditInfo"@ {
        CatGroup::EditInfo(rest_id, group_id)
    } else if s == "/Toggle"@ {
        CatGroup::TogglePause(rest_id, group_id)
    } else if s == "/EditCat"@ {
        CatGroup::EditCategory(rest_id, group_id)
    } else if s == "/EditTime"@ {
        CatGroup::EditTime(rest_id, group_id)
    } else if s == "/Remove"@ {
        CatGroup::RemoveGroup(rest_id, group_id)
    } else if s == "/AddDish"@ {
        CatGroup::AddDish(rest_id, group_id)
    } else if s == "/Promote"@ {
        CatGroup::Promote(rest_id, group_id)
    } else if has_prefix(s, "/EdDi"@) {
        CatGroup::EditDish(rest_id, group_id, parse_or_zero_spec(s.skip(5)) as i32)
    } else {
        CatGroup::UnknownCommand
    }
}

impl CatGroup {
    /// Parses group-editing input.
    pub fn from(rest_id: i32, group_id: i32, input: &str) -> (r: CatGroup)
        ensures
            r == spec_cat_group(rest_id, group_id, input@),
    {
        proof {
            reveal_strlit("/EdDi");
        }
        if str_eq(input, "Главная") {
            CatGroup::Main(rest_id)
        } else if str_eq(input, "Выход") {
            CatGroup::Exit
        } else if str_eq(input, "/EditTitle") {
            CatGroup::EditTitle(rest_id, group_id)
        } else if str_eq(input, "/EditInfo") {
            CatGroup::EditInfo(rest_id, group_id)
        } else if str_eq(input, "/Toggle") {
            CatGroup::TogglePause(rest_id, group_id)
        } else if str_eq(input, "/EditCat") {
            CatGroup::EditCategory(rest_id, group_id)
        } else if str_eq(input, "/EditTime") {
            CatGroup::EditTime(rest_id, group_id)
        } else if str_eq(input, "/Remove") {
            CatGroup::RemoveGroup(rest_id, group_id)
        } else if str_eq(input, "/AddDish") {
            CatGroup::AddDish(rest_id, group_id)
        } else if str_eq(input, "/Promote") {
            CatGroup::Promote(rest_id, group_id)
        } else if starts_with(input, "/EdDi") {
            CatGroup::EditDish(rest_id, group_id, parse_i32_or_zero(suffix_from(input, 5)))
        } else {
            CatGroup::UnknownCommand
        }
    }
}

/// The dish-editing commands.
#[derive(Copy, Clone, PartialEq, Eq, Structural, Debug)]
pub enum CatDish {
    /// Back to the restaurant view.
    Main(i32),
    /// Leave caterer mode.
    Exit,
    UnknownCommand,
    /// Edit the dish title.
    EditTitle(i32, i32, i32),
    /// Edit the dish description.
    EditInfo(i32, i32, i32),
    /// Flip visibility.
    TogglePause(i32, i32, i32),
    /// Move the dish to another group.
    EditGroup(i32, i32, i32),
    /// Reprice the dish.
    EditPrice(i32, i32, i32),
    /// Replace the picture.
    EditImage(i32, i32, i32),
    /// Delete the dish.
    Remove(i32, i32, i32),
    /// Ask for a promotion message.
    Promote(i32, i32, i32),
}

/// What the dish-editing menu makes of raw input.
pub open spec fn spec_cat_dish(rest_id: i32, group_id: i32, dish_id: i32, s: Seq<char>) -> CatDish {
    if s == "Главная"@ {
        CatDish::Main(rest_id)
    } else if s == "Выход"@ {
        CatDish::Exit
    } else if s == "/EditTitle"@ {
        CatDish::EditTitle(rest_id, group_id, dish_id)
    } else if s == "/EditInfo"@ {
        CatDish::EditInfo(rest_id, group_id, dish_id)
    } else if s == "/Toggle"@ {
        CatDish::TogglePause(rest_id, group_id, dish_id)
    } else if s == "/EditGroup"@ {
        CatDish::EditGroup(rest_id, group_id, dish_id)
    } else if s == "/EditPrice"@ {
        CatDish::EditPrice(rest_id, group_id, dish_id)
    } else if s == "/EditImg"@ {
        CatDish::EditImage(rest_id, group_id, dish_id)
    } else if s == "/Remove"@ {
        CatDish::Remove(rest_id, group_id, dish_id)
    } else if s == "/Promote"@ {
        CatDish::Promote(rest_id, group_id, dish_id)
    } else {
        CatDish::UnknownCommand
    }
}

impl CatDish {
    /// Parses dish-editing input.
    pub fn from(rest_id: i32, group_id: i32, dish_id: i32, input: &str) -> (r: CatDish)
        ensures
            r == spec_cat_dish(rest_id, group_id, dish_id, input@),
    {
        if str_eq(input, "Главная") {
            CatDish::Main(rest_id)
        } else if str_eq(input, "Выход") {
            CatDish::Exit
        } else if str_eq(input, "/EditTitle") {
            CatDish::EditTitle(rest_id, group_id, dish_id)
        } else if str_eq(input, "/EditInfo") {
            CatDish::EditInfo(rest_id, group_id, dish_id)
        } else if str_eq(input, "/Toggle") {
            CatDish::TogglePause(rest_id, group_id, dish_id)
        } else if str_eq(input, "/EditGroup") {
            CatDish::EditGroup(rest_id, group_id, dish_id)
        } else if str_eq(input, "/EditPrice") {
            CatDish::EditPrice(rest_id, group_id, dish_id)
        } else if str_eq(input, "/EditImg") {
            CatDish::EditImage(rest_id, group_id, dish_id)
        } else if str_eq(input, "/Remove") {
            CatDish::Remove(rest_id, group_id, dish_id)
        } else if str_eq(input, "/Promote") {
            CatDish::Promote(rest_id, group_id, dish_id)
        } else {
            CatDish::UnknownCommand
        }
    }
}

/// The restaurant-selection commands of a browsing eater.
#[derive(Copy, Clone, PartialEq, Eq, Structural, Debug)]
pub enum EaterRest {
    /// Open the basket.
    Basket,
    /// Back to the main menu.
    Main,
    UnknownCommand,
    /// Open one restaurant.
    Restaurant(i32),
}

/// What the restaurant-selection menu makes of raw input.
pub open spec fn spec_eater_rest(s: Seq<char>) -> EaterRest {
    if s == "🛒"@ {
        EaterRest::Basket
    } else if s == "В начало"@ {
        EaterRest::Main
    } else if has_prefix(s, "/rest"@) {
        EaterRest::Restaurant(parse_or_zero_spec(s.skip(5)) as i32)
    } else {
        EaterRest::UnknownCommand
    }
}

impl EaterRest {
    /// Parses restaurant-selection input.
    pub fn from(input: &str) -> (r: EaterRest)
        ensures
            r == spec_eater_rest(input@),
    {
        proof {
            reveal_strlit("/rest");
        }
        if str_eq(input, "🛒") {
            EaterRest::Basket
        } else if str_eq(input, "В начало") {
            EaterRest::Main
        } else if starts_with(input, "/rest") {
            EaterRest::Restaurant(parse_i32_or_zero(suffix_from(input, 5)))
        } else {
            EaterRest::UnknownCommand
        }
    }
}

/// The group-selection commands of a browsing eater.
#[derive(Copy, Clone, PartialEq, Eq, Structural, Debug)]
pub enum EaterGroup {
    /// Open the basket.
    Basket,
    /// Back to the main menu.
    Main,
    /// Back one level.
    Return,
    UnknownCommand,
    /// Open one group.
    Group(i32),
}

/// What the group-selection menu makes of raw input.
pub open spec fn spec_eater_group(s: Seq<char>) -> EaterGroup {
    if s == "🛒"@ {
        EaterGroup::Basket
    } else if s == "В начало"@ {
        EaterGroup::Main
    } else if s == "⏪⏪Назад"@ {
        EaterGroup::Return
    } else if has_prefix(s, "/grou"@) {
        EaterGroup::Group(parse_or_zero_spec(s.skip(5)) as i32)
    } else {
        EaterGroup::UnknownCommand
    }
}

impl EaterGroup {
    /// Parses group-selection input.
    pub fn from(input: &str) -> (r: EaterGroup)
        ensures
            r == spec_eater_group(input@),
    {
        proof {
            reveal_strlit("/grou");
        }
        if str_eq(input, "🛒") {
            EaterGroup::Basket
        } else if str_eq(input, "В начало") {
            EaterGroup::Main
        } else if str_eq(input, "⏪⏪Назад") {
            EaterGroup::Return
        } else if starts_with(input, "/grou") {
            EaterGroup::Group(parse_i32_or_zero(suffix_from(input, 5)))
        } else {
            EaterGroup::UnknownCommand
        }
    }
}

/// The dish-selection commands of a browsing eater.
#[derive(Copy, Clone, PartialEq, Eq, Structural, Debug)]
pub enum EaterDish {
    /// Open the basket.
    Basket,
    /// Back to the main menu.
    Main,
    /// Back one level.
    Return,
    UnknownCommand,
    /// Show one dish.
    Dish(i32),
}

/// What the dish-selection menu makes of raw input.
pub open spec fn spec_eater_dish(s: Seq<char>) -> EaterDish {
    if s == "🛒"@ {
        EaterDish::Basket
    } else if s == "В начало"@ {
        EaterDish::Main
    } else if s == "⏪Назад"@ {
        EaterDish::Return
    } else if has_prefix(s, "/dish"@) {
        EaterDish::Dish(parse_or_zero_spec(s.skip(5)) as i32)
    } else {
        EaterDish::UnknownCommand
    }
}

impl EaterDish {
    /// Parses dish-selection input.
    pub fn from(input: &str) -> (r: EaterDish)
        ensures
            r == spec_eater_dish(input@),
    {
        proof {
            reveal_strlit("/dish");
        }
        if str_eq(input, "🛒") {
            EaterDish::Basket
        } else if str_eq(input, "В начало") {
            EaterDish::Main
        } else if str_eq(input, "⏪Назад") {
            EaterDish::Return
        } else if starts_with(input, "/dish") {
            EaterDish::Dish(parse_i32_or_zero(suffix_from(input, 5)))
        } else {
            EaterDish::UnknownCommand
        }
    }
}

/// The basket commands.
#[derive(Copy, Clone, PartialEq, Eq, Structural, Debug)]
pub enum Basket {
    /// Back to the main menu.
    Main,
    /// Redisplay the basket.
    Refresh,
    /// Empty the basket.
    Clear,
    /// Take one portion of the keyed dish away.
    Delete(i32, i32, i32),
    UnknownCommand,
    /// Edit the delivery name.
    EditName,
    /// Edit the contact line.
    EditContact,
    /// Edit the address.
    EditAddress,
    /// Flip pickup against delivery.
    TogglePickup,
}

/// What the basket menu makes of raw input.
pub open spec fn spec_basket(s: Seq<char>) -> Basket {
    if s == "В начало"@ {
        Basket::Main
    } else if s == "⟳ Обновить"@ {
        Basket::Refresh
    } else if s == "Очистить"@ {
        Basket::Clear
    } else if s == "/edit_name"@ {
        Basket::EditName
    } else if s == "/edit_contact"@ {
        Basket::EditContact
    } else if s == "/edit_address"@ {
        Basket::EditAddress
    } else if s == "/toggle"@ {
        Basket::TogglePickup
    } else if has_prefix(s, "/del"@) {
        match parse_key3_spec(s.skip(4)) {
            Some((a, b, c)) => Basket::Delete(a as i32, b as i32, c as i32),
            None => Basket::UnknownCommand,
        }
    } else {
        Basket::UnknownCommand
    }
}

impl Basket {
    /// Parses basket input.
    pub fn from(input: &str) -> (r: Basket)
        ensures
            r == spec_basket(input@),
    {
        proof {
            reveal_strlit("/del");
        }
        if str_eq(input, "В начало") {
            Basket::Main
        } else if str_eq(input, "⟳ Обновить") {
            Basket::Refresh
        } else if str_eq(input, "Очистить") {
            Basket::Clear
        } else if str_eq(input, "/edit_name") {
            Basket::EditName
        } else if str_eq(input, "/edit_contact") {
            Basket::EditContact
        } else if str_eq(input, "/edit_address") {
            Basket::EditAddress
        } else if str_eq(input, "/toggle") {
            Basket::TogglePickup
        } else if starts_with(input, "/del") {
            match parse_key_3_int(suffix_from(input, 4)) {
                Ok((a, b, c)) => Basket::Delete(a, b, c),
                Err(_) => Basket::UnknownCommand,
            }
        } else {
            Basket::UnknownCommand
        }
    }
}

/// The settings-menu commands, including the administrator's.
#[derive(Copy, Clone, PartialEq, Eq, Structural, Debug)]
pub enum Gear {
    /// Back to the main menu.
    Main,
    UnknownCommand,
    /// Enter caterer mode.
    CatererMode,
    /// Flip links against buttons.
    ToggleInterface,
    /// Register or unblock the caterer with the user id.
    RegisterCaterer(i32),
    /// Suspend the caterer with the user id.
    HoldCaterer(i32),
    /// Act as the caterer of the numbered restaurant.
    Sudo(i32),
    /// List every restaurant.
    List,
}

/// What the settings menu makes of raw input.
pub open spec fn spec_gear(s: Seq<char>) -> Gear {
    if s == "В начало"@ {
        Gear::Main
    } else if s == "Добавить меню"@ {
        Gear::CatererMode
    } else if s == "/toggle"@ {
        Gear::ToggleInterface
    } else if s == "/list"@ {
        Gear::List
    } else if has_prefix(s, "/regi"@) {
        Gear::RegisterCaterer(parse_or_zero_spec(s.skip(5)) as i32)
    } else if has_prefix(s, "/hold"@) {
        Gear::HoldCaterer(parse_or_zero_spec(s.skip(5)) as i32)
    } else if has_prefix(s, "/sudo"@) {
        Gear::Sudo(parse_or_zero_spec(s.skip(5)) as i32)
    } else {
        Gear::UnknownCommand
    }
}

impl Gear {
    /// Parses settings-menu input.
    pub fn from(input: &str) -> (r: Gear)
        ensures
            r == spec_gear(input@),
    {
        proof {
            reveal_strlit("/regi");
            reveal_strlit("/hold");
            reveal_strlit("/sudo");
        }
        if str_eq(input, "В начало") {
            Gear::Main
        } else if str_eq(input, "Добавить меню") {
            Gear::CatererMode
        } else if str_eq(input, "/toggle") {
            Gear::ToggleInterface
        } else if str_eq(input, "/list") {
            Gear::List
        } else if starts_with(input, "/regi") {
            Gear::RegisterCaterer(parse_i32_or_zero(suffix_from(input, 5)))
        } else if starts_with(input, "/hold") {
            Gear::HoldCaterer(parse_i32_or_zero(suffix_from(input, 5)))
        } else if starts_with(input, "/sudo") {
            Gear::Sudo(parse_i32_or_zero(suffix_from(input, 5)))
        } else {
            Gear::UnknownCommand
        }
    }
}

/// A free-text payload beginning with a slash is an accidental command, not
/// data: it is normalized to empty, which callers treat as a cancel.
pub fn remove_slash(s: &str) -> (r: String)
    ensures
        has_prefix(s@, "/"@) ==> r@ == Seq::<char>::empty(),
        !has_prefix(s@, "/"@) ==> r@ == s@,
{
    if starts_with(s, "/") {
        String::new()
    } else {
        String::from_str(s)
    }
}

} // verus!
