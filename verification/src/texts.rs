//! Status labels, category names and time formatting for the bot's replies.

use vstd::prelude::*;
use crate::digits::{dec_digits, dec_int, digit_char, i32_to_string, u32_to_string};
use crate::strutil::str_eq;

verus! {

/// A value in 0..100 printed with two digits, as a clock field.
pub open spec fn two_digits(n: int) -> Seq<char> {
    if n < 10 {
        seq!['0', digit_char(n)]
    } else {
        dec_digits(n)
    }
}

/// The text of a minute-of-day: the zero-padded hour alone when the minute
/// is zero, else `HH:MM`.
pub open spec fn time_str(time: int) -> Seq<char> {
    if time % 60 == 0 {
        two_digits(time / 60)
    } else {
        two_digits(time / 60) + seq![':'] + two_digits(time % 60)
    }
}

fn two_digit_string(n: u16) -> (r: String)
    requires
        n < 100,
    ensures
        r@ == two_digits(n as int),
{
    if n < 10 {
        let r = String::from_str("0").concat(u32_to_string(n as u32).as_str());
        proof {
            reveal_strlit("0");
            assert(dec_digits(n as int) =~= seq![digit_char(n as int)]);
            assert(r@ =~= two_digits(n as int));
        }
        r
    } else {
        u32_to_string(n as u32)
    }
}

/// Formats a minute-of-day, leaving the minutes out when they are zero.
pub fn str_time(time: u16) -> (r: String)
    requires
        time < 1440,
    ensures
        r@ == time_str(time as int),
{
    let h = time / 60;
    let m = time % 60;
    if m == 0 {
        two_digit_string(h)
    } else {
        let mut r = two_digit_string(h);
        r.append(":");
        r.append(two_digit_string(m).as_str());
        proof {
            reveal_strlit(":");
            assert(r@ =~= time_str(time as int));
        }
        r
    }
}


/// A price followed by the deployment's configured unit text; the unit
/// carries its own separator, and an empty unit leaves the bare number.
pub open spec fn price_unit_str(price: int, unit: Seq<char>) -> Seq<char> {
    dec_int(price) + unit
}

/// Renders a price with the configured unit.
pub fn price_with_unit(price: i32, unit: &str) -> (r: String)
    ensures
        r@ == price_unit_str(price as int, unit@),
{
    i32_to_string(price).concat(unit)
}

/// The visibility label of an `active` flag.
pub fn active_to_str(active: bool) -> (r: &'static str)
    ensures
        active ==> r@ == "показывается"@,
        !active ==> r@ == "скрыт"@,
{
    if active {
        "показывается"
    } else {
        "скрыт"
    }
}

/// The access label of an `enabled` flag.
pub fn enabled_to_str(enabled: bool) -> (r: &'static str)
    ensures
        enabled ==> r@ == "доступен"@,
        !enabled ==> r@ == "в бане"@,
{
    if enabled {
        "доступен"
    } else {
        "в бане"
    }
}

/// The administrator command that would flip an `enabled` flag.
pub fn enabled_to_cmd(enabled: bool) -> (r: &'static str)
    ensures
        enabled ==> r@ == "/hold"@,
        !enabled ==> r@ == "/regi"@,
{
    if enabled {
        "/hold"
    } else {
        "/regi"
    }
}

/// The label of an operation's outcome.
pub fn is_success(flag: bool) -> (r: &'static str)
    ensures
        flag ==> r@ == "успешно"@,
        !flag ==> r@ == "ошибка"@,
{
    if flag {
        "успешно"
    } else {
        "ошибка"
    }
}

/// The display name of a menu category.
pub fn id_to_category(cat_id: i32) -> (r: &'static str)
    ensures
        cat_id == 1 ==> r@ == "Соки воды"@,
        cat_id == 2 ==> r@ == "Еда"@,
        cat_id == 3 ==> r@ == "Напитки"@,
        cat_id == 4 ==> r@ == "Развлечения"@,
        !(1 <= cat_id <= 4) ==> r@ == "Неизвестная категория"@,
{
    match cat_id {
        1 => "Соки воды",
        2 => "Еда",
        3 => "Напитки",
        4 => "Развлечения",
        _ => "Неизвестная категория",
    }
}

/// The category id a display name stands for, zero for any other text.
pub open spec fn spec_category_id(s: Seq<char>) -> int {
    if s == "Соки воды"@ {
        1
    } else if s == "Еда"@ {
        2
    } else if s == "Напитки"@ {
        3
    } else if s == "Развлечения"@ {
        4
    } else {
        0
    }
}

/// The category id a display name stands for, zero for any other text.
pub fn category_to_id(category: &str) -> (r: i32)
    ensures
        r as int == spec_category_id(category@),
{
    if str_eq(category, "Соки воды") {
        1
    } else if str_eq(category, "Еда") {
        2
    } else if str_eq(category, "Напитки") {
        3
    } else if str_eq(category, "Развлечения") {
        4
    } else {
        0
    }
}

/// The label of the interface preference: text links or inline buttons.
pub fn interface_mode(is_compact: bool) -> (r: String)
    ensures
        is_compact ==> r@ == "со ссылками"@,
        !is_compact ==> r@ == "с кнопками"@,
{
    if is_compact {
        String::from_str("со ссылками")
    } else {
        String::from_str("с кнопками")
    }
}

/// The display name of a ticket lifecycle stage.
pub open spec fn stage_str(stage: int) -> Seq<char> {
    if stage == 1 {
        "Ожидание подтверждения"@
    } else if stage == 2 {
        "В процессе приготовления"@
    } else if stage == 3 {
        "Готово, идёт доставка"@
    } else if stage == 4 {
        "Подтвердить получение и закрыть заказ"@
    } else if stage == 5 {
        "Завершено"@
    } else if stage == 6 {
        "Отменено"@
    } else {
        "Ошибка"@
    }
}

/// Names a ticket lifecycle stage.
pub fn stage_to_str(stage: i32) -> (r: String)
    ensures
        r@ == stage_str(stage as int),
{
    let res = match stage {
        1 => "Ожидание подтверждения",
        2 => "В процессе приготовления",
        3 => "Готово, идёт доставка",
        4 => "Подтвердить получение и закрыть заказ",
        5 => "Завершено",
        6 => "Отменено",
        _ => "Ошибка",
    };
    String::from_str(res)
}

} // verus!
