use vzmuinebot::basket::BasketStore;
use vzmuinebot::catalog::{Catalog, RestBy, DishBy, DishesBy, GroupListBy, RestListBy};
use vzmuinebot::tickets::TicketStore;
use vzmuinebot::users::{UserContact, UserStore, UserBasketInfo};

fn contact(id: i32, name: &str) -> UserContact {
    UserContact {
        id,
        first_name: name.to_string(),
        last_name: None,
        username: None,
        language_code: None,
    }
}

/// A catalog with one registered caterer (id 500), one restaurant (num 1),
/// one group and two priced dishes.
fn small_catalog() -> Catalog {
    let mut c = Catalog::new();
    assert!(c.register_caterer(500));
    assert!(c.rest_add_group(1, "Супы".to_string()));
    assert!(c.rest_add_dish(1, 1, "Борщ".to_string()));
    assert!(c.rest_add_dish(1, 1, "Уха".to_string()));
    assert!(c.rest_dish_edit_price(1, 1, 1, 100));
    assert!(c.rest_dish_edit_price(1, 1, 2, 200));
    c
}

#[test]
fn basket_add_then_remove_returns_to_prior_amount() {
    let mut b = BasketStore::new();
    assert_eq!(b.add_dish_to_basket(3, 2, 1, 9), Ok(1));
    assert_eq!(b.add_dish_to_basket(3, 2, 1, 9), Ok(2));
    assert_eq!(b.remove_dish_from_basket(3, 2, 1, 9), Ok(1));
    assert_eq!(b.amount_in_basket(3, 2, 1, 9), 1);
    assert_eq!(b.lines.len(), 1);
}

#[test]
fn basket_remove_from_one_deletes_the_line() {
    let mut b = BasketStore::new();
    assert_eq!(b.add_dish_to_basket(1, 1, 1, 9), Ok(1));
    assert_eq!(b.remove_dish_from_basket(1, 1, 1, 9), Ok(0));
    assert_eq!(b.amount_in_basket(1, 1, 1, 9), 0);
    assert_eq!(b.lines.len(), 0);
    // removing an absent line is a no-op that reports zero
    assert_eq!(b.remove_dish_from_basket(1, 1, 1, 9), Ok(0));
}

#[test]
fn basket_clear_empties_only_that_user() {
    let mut b = BasketStore::new();
    b.add_dish_to_basket(1, 1, 1, 9).unwrap();
    b.add_dish_to_basket(1, 1, 2, 9).unwrap();
    b.add_dish_to_basket(1, 1, 1, 10).unwrap();
    assert!(b.clear_basket(9));
    assert_eq!(b.amount_in_basket(1, 1, 1, 9), 0);
    assert_eq!(b.amount_in_basket(1, 1, 2, 9), 0);
    assert_eq!(b.amount_in_basket(1, 1, 1, 10), 1);
}

#[test]
fn group_removal_renumbers_groups_and_their_dishes() {
    let mut c = Catalog::new();
    assert!(c.register_caterer(500));
    assert!(c.rest_add_group(1, "Первая".to_string()));
    assert!(c.rest_add_group(1, "Вторая".to_string()));
    assert!(c.rest_add_group(1, "Третья".to_string()));
    assert!(c.rest_add_dish(1, 1, "Борщ".to_string()));
    assert!(c.rest_add_dish(1, 3, "Чай".to_string()));
    // the middle group is empty and may leave
    assert!(c.rest_group_remove(1, 2));
    let groups = &c.rests[0].groups;
    assert_eq!(groups.len(), 2);
    assert_eq!(groups[0].group.num, 1);
    assert_eq!(groups[0].group.title.as_str(), "Первая");
    assert_eq!(groups[1].group.num, 2);
    assert_eq!(groups[1].group.title.as_str(), "Третья");
    // the dish that sat under the third group moved down with it
    assert_eq!(groups[1].dishes[0].group_num, 2);
    assert_eq!(groups[1].dishes[0].title.as_str(), "Чай");
    // no two groups of the restaurant share a number
    assert_ne!(groups[0].group.num, groups[1].group.num);
    // a group that still has dishes is refused
    assert!(!c.rest_group_remove(1, 1));
}

#[test]
fn dish_removal_renumbers_and_repairs_baskets() {
    let mut c = small_catalog();
    let mut b = BasketStore::new();
    b.add_dish_to_basket(1, 1, 1, 9).unwrap();
    b.add_dish_to_basket(1, 1, 2, 9).unwrap();
    b.add_dish_to_basket(1, 1, 2, 9).unwrap();
    assert!(c.rest_dish_remove(1, 1, 1, &mut b));
    // the second dish slid into the first slot, in the catalog and the basket
    let dishes = &c.rests[0].groups[0].dishes;
    assert_eq!(dishes.len(), 1);
    assert_eq!(dishes[0].num, 1);
    assert_eq!(dishes[0].title.as_str(), "Уха");
    assert_eq!(b.amount_in_basket(1, 1, 1, 9), 2);
    assert_eq!(b.amount_in_basket(1, 1, 2, 9), 0);
}

#[test]
fn dish_move_appends_to_target_group() {
    let mut c = small_catalog();
    assert!(c.rest_add_group(1, "Напитки".to_string()));
    let mut b = BasketStore::new();
    assert!(c.rest_dish_edit_group(1, 1, 1, 2, &mut b));
    assert_eq!(c.rests[0].groups[0].dishes.len(), 1);
    assert_eq!(c.rests[0].groups[1].dishes.len(), 1);
    let moved = &c.rests[0].groups[1].dishes[0];
    assert_eq!(moved.title.as_str(), "Борщ");
    assert_eq!(moved.group_num, 2);
    assert_eq!(moved.num, 1);
    // a move to a group that does not exist is refused
    assert!(!c.rest_dish_edit_group(1, 1, 1, 9, &mut b));
}

#[test]
fn catalog_lookups_and_listings() {
    let c = small_catalog();
    let r = c.restaurant(RestBy::Id(500)).unwrap();
    assert_eq!(r.num, 1);
    assert!(r.enabled);
    assert!(!r.active);
    assert!(c.restaurant(RestBy::Num(2)).is_none());
    assert_eq!(c.rest_num(Some(500)), Ok(1));
    assert!(c.rest_num(Some(77)).is_err());
    let d = c.dish(DishBy::All(1, 1, 2)).unwrap();
    assert_eq!(d.title.as_str(), "Уха");
    assert_eq!(d.price, 200);
    assert_eq!(c.dish_list(DishesBy::All(1, 1)).unwrap().len(), 2);
    assert!(c.group_list(GroupListBy::All(2)).is_none());
    // the fresh restaurant is not active, so eater listings skip it
    assert!(c.rest_list(RestListBy::Category(2)).is_none());
    assert_eq!(c.rest_list(RestListBy::All).unwrap().len(), 1);
}

#[test]
fn rest_edit_time_takes_the_most_common_group_hours() {
    let mut c = Catalog::new();
    assert!(c.register_caterer(500));
    assert!(c.rest_add_group(1, "А".to_string()));
    assert!(c.rest_add_group(1, "Б".to_string()));
    assert!(c.rest_add_group(1, "В".to_string()));
    assert!(c.rest_group_edit_time(1, 1, 480, 1200));
    assert!(c.rest_group_edit_time(1, 2, 480, 1200));
    assert!(c.rest_group_edit_time(1, 3, 540, 1300));
    let r = c.restaurant(RestBy::Num(1)).unwrap();
    assert_eq!(r.opening_time, 480);
    assert_eq!(r.closing_time, 1200);
}

#[test]
fn ticket_lifecycle_is_monotonic_and_role_gated() {
    let mut t = TicketStore::new();
    let mut b = BasketStore::new();
    assert!(t.order_to_ticket(&mut b, None, 9, 500, 0, 0));
    assert_eq!(t.basket_stage(1), 1);
    // the caterer may advance through the kitchen stages
    assert!(t.basket_next_stage(500, 1));
    assert!(t.basket_next_stage(500, 1));
    assert!(t.basket_next_stage(500, 1));
    assert_eq!(t.basket_stage(1), 4);
    // the final receipt confirmation is the eater's alone
    assert!(!t.basket_next_stage(500, 1));
    assert_eq!(t.basket_stage(1), 4);
    assert!(t.basket_next_stage(9, 1));
    assert_eq!(t.basket_stage(1), 5);
    // a completed ticket is frozen
    assert!(!t.basket_next_stage(9, 1));
    assert!(!t.basket_edit_stage(1, 6));
    assert_eq!(t.basket_stage(1), 5);
}

#[test]
fn cancel_forces_stage_six_from_any_live_stage() {
    let mut t = TicketStore::new();
    let mut b = BasketStore::new();
    assert!(t.order_to_ticket(&mut b, None, 9, 500, 0, 0));
    assert!(t.basket_next_stage(500, 1));
    assert_eq!(t.basket_stage(1), 2);
    assert!(t.basket_edit_stage(1, 6));
    assert_eq!(t.basket_stage(1), 6);
    // a cancelled ticket is frozen too
    assert!(!t.basket_edit_stage(1, 6));
    assert!(!t.basket_next_stage(9, 1));
    assert_eq!(t.basket_stage(1), 6);
}

#[test]
fn ticket_listings_show_only_open_orders() {
    let mut t = TicketStore::new();
    let mut b = BasketStore::new();
    assert!(t.order_to_ticket(&mut b, None, 9, 500, 0, 0));
    assert!(t.order_to_ticket(&mut b, None, 9, 501, 0, 0));
    assert!(t.basket_edit_stage(1, 6));
    let open = t.eater_ticket_info(9);
    assert_eq!(open.len(), 1);
    assert_eq!(open[0].0, 501);
    assert_eq!(open[0].1.stage, 1);
    let caterer_side = t.caterer_ticket_info(501);
    assert_eq!(caterer_side.len(), 1);
    assert_eq!(caterer_side[0].0, 9);
    let full = t.ticket_with_owners(1).unwrap();
    assert_eq!(full.eater_id, 9);
    assert_eq!(full.caterer_id, 500);
    assert_eq!(full.ticket.stage, 6);
    assert!(t.ticket_with_owners(3).is_none());
}

#[test]
fn user_records_upsert_and_toggle() {
    let mut u = UserStore::new();
    let ann = contact(9, "Ann");
    // first contact creates the record
    assert!(!u.user_update_last_seen(Some(&ann), 1000));
    assert!(u.user_update_last_seen(Some(&ann), 2000));
    assert!(!u.user_compact_interface(Some(&ann), 3000));
    u.user_toggle_interface(Some(&ann));
    assert!(u.user_compact_interface(Some(&ann), 4000));
    assert_eq!(u.user_name_by_id(9).as_str(), "Ann");
    assert_eq!(u.user_name_by_id(10).as_str(), "Неизвестное имя");
    assert!(u.basket_edit_name(9, "Анна".to_string()));
    assert!(u.basket_edit_address(9, "Location77".to_string()));
    let info = u.user_basket_info(9).unwrap();
    assert_eq!(info.name.as_str(), "Анна");
    assert_eq!(info.address_label().as_str(), "на карте");
    assert_eq!(info.address_message_id(), Some(77));
    assert!(u.user_basket_info(10).is_none());
}

#[test]
fn address_labels_without_location() {
    let info = UserBasketInfo {
        name: "Боб".to_string(),
        contact: "-".to_string(),
        address: "ул. Ленина 1".to_string(),
        pickup: false,
    };
    assert_eq!(info.address_label().as_str(), "ул. Ленина 1");
    assert_eq!(info.address_message_id(), None);
}

#[test]
fn basket_contents_joins_and_totals() {
    let c = small_catalog();
    let mut b = BasketStore::new();
    b.add_dish_to_basket(1, 1, 1, 9).unwrap();
    b.add_dish_to_basket(1, 1, 2, 9).unwrap();
    b.add_dish_to_basket(1, 1, 2, 9).unwrap();
    let (list, grand) = c.basket_contents(&b, 9, "");
    assert_eq!(list.len(), 1);
    assert_eq!(list[0].rest_id, 500);
    assert_eq!(list[0].dishes.len(), 2);
    assert_eq!(list[0].total, 100 + 2 * 200);
    assert_eq!(grand, 500);
    assert_eq!(list[0].dishes[0].as_str(), "Борщ: 100 x 1 шт. = 100 /del1_1_1");
    let (none_list, none_total) = c.basket_contents(&b, 10, "");
    assert_eq!(none_list.len(), 0);
    assert_eq!(none_total, 0);
}

#[test]
fn dish_texts_are_exact() {
    let c = small_catalog();
    let d = c.dish(DishBy::All(1, 1, 1)).unwrap();
    assert_eq!(d.title_with_price("").as_str(), "Борщ 100");
    assert_eq!(d.title_with_price(" тыс. донгов").as_str(), "Борщ 100 тыс. донгов");
    assert_eq!(
        d.info_for_eater("").as_str(),
        "Название: Борщ\nИнформация: Порция 100гр.\nЦена: 100"
    );
    assert_eq!(
        d.info_for_eater(" ₫").as_str(),
        "Название: Борщ\nИнформация: Порция 100гр.\nЦена: 100 ₫"
    );
    assert!(d.info_for_caterer("").as_str().contains("/EditTitle"));
}

#[test]
fn basket_rows_follow_group_and_dish_order() {
    let mut c = small_catalog();
    assert!(c.rest_add_group(1, "Напитки".to_string()));
    assert!(c.rest_add_dish(1, 2, "Чай".to_string()));
    assert!(c.rest_dish_edit_price(1, 2, 1, 30));
    let mut b = BasketStore::new();
    // taps arrive out of menu order: second group first, dish two before one
    b.add_dish_to_basket(1, 2, 1, 9).unwrap();
    b.add_dish_to_basket(1, 1, 2, 9).unwrap();
    b.add_dish_to_basket(1, 1, 1, 9).unwrap();
    let (list, grand) = c.basket_contents(&b, 9, "");
    assert_eq!(list.len(), 1);
    // the view sorts by (group, dish), whatever the tap order was
    assert_eq!(list[0].dishes[0].as_str(), "Борщ: 100 x 1 шт. = 100 /del1_1_1");
    assert_eq!(list[0].dishes[1].as_str(), "Уха: 200 x 1 шт. = 200 /del1_1_2");
    assert_eq!(list[0].dishes[2].as_str(), "Чай: 30 x 1 шт. = 30 /del1_2_1");
    assert_eq!(grand, 330);
}

#[test]
fn basket_rows_carry_the_configured_unit() {
    let c = small_catalog();
    let mut b = BasketStore::new();
    b.add_dish_to_basket(1, 1, 1, 9).unwrap();
    let (list, _) = c.basket_contents(&b, 9, " ₫");
    assert_eq!(list[0].dishes[0].as_str(), "Борщ: 100 x 1 шт. = 100 ₫ /del1_1_1");
}
