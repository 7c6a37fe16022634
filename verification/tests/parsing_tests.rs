use vzmuinebot::digits::{parse_i32, parse_i32_or_zero, i32_to_string, u32_to_string, i64_to_string};
use vzmuinebot::keys::{make_key_3_int, parse_key_3_int};
use vzmuinebot::texts::{
    str_time, active_to_str, enabled_to_str, enabled_to_cmd, is_success, id_to_category,
    category_to_id, interface_mode, stage_to_str,
};

#[test]
fn parse_i32_accepts_plain_numbers() {
    assert_eq!(parse_i32("0"), Some(0));
    assert_eq!(parse_i32("42"), Some(42));
    assert_eq!(parse_i32("-17"), Some(-17));
    assert_eq!(parse_i32("+8"), Some(8));
    assert_eq!(parse_i32("2147483647"), Some(i32::MAX));
    assert_eq!(parse_i32("-2147483648"), Some(i32::MIN));
}

#[test]
fn parse_i32_rejects_malformed_and_overflowing_text() {
    assert_eq!(parse_i32(""), None);
    assert_eq!(parse_i32("-"), None);
    assert_eq!(parse_i32("+"), None);
    assert_eq!(parse_i32("12a"), None);
    assert_eq!(parse_i32("a12"), None);
    assert_eq!(parse_i32("1 2"), None);
    assert_eq!(parse_i32("2147483648"), None);
    assert_eq!(parse_i32("-2147483649"), None);
    assert_eq!(parse_i32("99999999999999999999"), None);
}

#[test]
fn parse_failures_default_to_zero() {
    assert_eq!(parse_i32_or_zero("77"), 77);
    assert_eq!(parse_i32_or_zero("abc"), 0);
    assert_eq!(parse_i32_or_zero(""), 0);
    assert_eq!(parse_i32_or_zero("2147483648"), 0);
}

#[test]
fn decimal_printing_is_exact() {
    assert_eq!(u32_to_string(0).as_str(), "0");
    assert_eq!(u32_to_string(907).as_str(), "907");
    assert_eq!(i32_to_string(-45).as_str(), "-45");
    assert_eq!(i32_to_string(i32::MIN).as_str(), "-2147483648");
    assert_eq!(i64_to_string(-9000000000).as_str(), "-9000000000");
}

#[test]
fn key_codec_round_trips() {
    assert_eq!(make_key_3_int(5, 2, 1).as_str(), "5_2_1");
    assert_eq!(make_key_3_int(-3, 0, 12).as_str(), "-3_0_12");
    assert_eq!(parse_key_3_int("5_2_1"), Ok((5, 2, 1)));
    assert_eq!(parse_key_3_int("-3_0_12"), Ok((-3, 0, 12)));
    let k = make_key_3_int(1371, 7, 0);
    assert_eq!(parse_key_3_int(k.as_str()), Ok((1371, 7, 0)));
}

#[test]
fn key_codec_rejects_malformed_keys() {
    assert!(parse_key_3_int("a_b_c").is_err());
    assert!(parse_key_3_int("1_2").is_err());
    assert!(parse_key_3_int("").is_err());
    assert!(parse_key_3_int("1_2_3_4").is_err());
    assert!(parse_key_3_int("_2_3").is_err());
}

#[test]
fn time_formatting_drops_zero_minutes() {
    assert_eq!(str_time(420).as_str(), "07");
    assert_eq!(str_time(450).as_str(), "07:30");
    assert_eq!(str_time(0).as_str(), "00");
    assert_eq!(str_time(1439).as_str(), "23:59");
}

#[test]
fn status_labels_match() {
    assert_eq!(active_to_str(true), "показывается");
    assert_eq!(active_to_str(false), "скрыт");
    assert_eq!(enabled_to_str(true), "доступен");
    assert_eq!(enabled_to_str(false), "в бане");
    assert_eq!(enabled_to_cmd(true), "/hold");
    assert_eq!(enabled_to_cmd(false), "/regi");
    assert_eq!(is_success(true), "успешно");
    assert_eq!(is_success(false), "ошибка");
    assert_eq!(interface_mode(true).as_str(), "со ссылками");
    assert_eq!(interface_mode(false).as_str(), "с кнопками");
}

#[test]
fn categories_map_both_ways() {
    assert_eq!(id_to_category(2), "Еда");
    assert_eq!(id_to_category(9), "Неизвестная категория");
    assert_eq!(category_to_id("Напитки"), 3);
    assert_eq!(category_to_id("Еда"), 2);
    assert_eq!(category_to_id("что-то"), 0);
}

#[test]
fn stage_names_cover_the_lifecycle() {
    assert_eq!(stage_to_str(1).as_str(), "Ожидание подтверждения");
    assert_eq!(stage_to_str(4).as_str(), "Подтвердить получение и закрыть заказ");
    assert_eq!(stage_to_str(5).as_str(), "Завершено");
    assert_eq!(stage_to_str(6).as_str(), "Отменено");
    assert_eq!(stage_to_str(0).as_str(), "Ошибка");
}
