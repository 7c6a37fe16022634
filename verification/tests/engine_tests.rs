use vzmuinebot::callback::{handle_callback, CallbackOutcome};
use vzmuinebot::dialogue::{Dialogue, Keyboard};
use vzmuinebot::settings::{Settings, current_minute_of_day};
use vzmuinebot::transition::{handle_message, World};
use vzmuinebot::language::{t, Res};
use vzmuinebot::users::{user_info, UserContact};

fn settings() -> Settings {
    Settings {
        admin_id1: 1,
        admin_id2: 0,
        admin_id3: 0,
        contact_info: "@admin".to_string(),
        price_unit: "".to_string(),
        time_zone_hours: 7,
    }
}

fn contact(id: i32, name: &str) -> UserContact {
    UserContact {
        id,
        first_name: name.to_string(),
        last_name: None,
        username: None,
        language_code: None,
    }
}

fn msg(world: &mut World, user: &UserContact, text: &str) -> vzmuinebot::dialogue::Response {
    let t = text.to_string();
    handle_message(world, user, Some(&t), None, 600, 0)
}

/// A world with one registered caterer (id 500) owning restaurant one with
/// one group and two priced dishes.
fn shop_world() -> World {
    let mut w = World::new(settings());
    assert!(w.catalog.register_caterer(500));
    assert!(w.catalog.rest_add_group(1, "Супы".to_string()));
    assert!(w.catalog.rest_add_dish(1, 1, "Борщ".to_string()));
    assert!(w.catalog.rest_add_dish(1, 1, "Уха".to_string()));
    assert!(w.catalog.rest_dish_edit_price(1, 1, 1, 100));
    assert!(w.catalog.rest_dish_edit_price(1, 1, 2, 200));
    w
}

#[test]
fn start_command_lands_in_the_main_menu() {
    let mut w = World::new(settings());
    let ann = contact(100, "Ann");
    let r = msg(&mut w, &ann, "/start");
    assert_eq!(r.keyboard, Keyboard::Main);
    let (state, saved) = w.sessions.get(100);
    assert_eq!(state, Dialogue::UserMode);
    assert_eq!(saved, None);
}

#[test]
fn garbage_input_never_gets_stuck() {
    let mut w = shop_world();
    let ann = contact(100, "Ann");
    // every state answers every input, including empty and garbage
    for input in ["", "мусор", "/unknown42", "\u{1F4A5}", "_"] {
        let r = msg(&mut w, &ann, input);
        assert_eq!(r.keyboard, Keyboard::Main);
        let (state, _) = w.sessions.get(100);
        assert_eq!(state, Dialogue::UserMode);
    }
    // a turn with no text at all is answered too
    let r = handle_message(&mut w, &ann, None, None, 600, 0);
    assert_eq!(r.keyboard, Keyboard::Main);
}

#[test]
fn basket_taps_count_up_and_down() {
    let mut w = shop_world();
    assert_eq!(handle_callback(&mut w, 9, "add3_2_1", 0, 0), CallbackOutcome::Added(1));
    assert_eq!(handle_callback(&mut w, 9, "add3_2_1", 0, 0), CallbackOutcome::Added(2));
    assert_eq!(handle_callback(&mut w, 9, "del3_2_1", 0, 0), CallbackOutcome::Removed(1));
    assert_eq!(w.baskets.amount_in_basket(3, 2, 1, 9), 1);
    assert_eq!(w.baskets.lines.len(), 1);
}

#[test]
fn checkout_moves_the_basket_into_a_ticket() {
    let mut w = shop_world();
    assert_eq!(handle_callback(&mut w, 9, "add1_1_1", 0, 0), CallbackOutcome::Added(1));
    assert_eq!(handle_callback(&mut w, 9, "add1_1_2", 0, 0), CallbackOutcome::Added(1));
    assert_eq!(
        handle_callback(&mut w, 9, "bas500_0_0", 11, 12),
        CallbackOutcome::CheckoutDone
    );
    assert_eq!(w.tickets.tickets.len(), 1);
    let two = &w.tickets.tickets[0];
    assert_eq!(two.eater_id, 9);
    assert_eq!(two.caterer_id, 500);
    assert_eq!(two.ticket.stage, 1);
    // the eater's lines for that caterer's restaurant are gone, atomically
    assert_eq!(w.baskets.amount_in_basket(1, 1, 1, 9), 0);
    assert_eq!(w.baskets.amount_in_basket(1, 1, 2, 9), 0);
    assert_eq!(w.baskets.lines.len(), 0);
}

#[test]
fn ticket_moves_are_role_gated_and_guarded() {
    let mut w = shop_world();
    handle_callback(&mut w, 9, "add1_1_1", 0, 0);
    handle_callback(&mut w, 9, "bas500_0_0", 0, 0);
    // a stranger may not act on the ticket
    assert_eq!(
        handle_callback(&mut w, 777, "bne1_0_0", 0, 0),
        CallbackOutcome::PermissionDenied
    );
    // the caterer advances to awaiting receipt confirmation
    assert_eq!(handle_callback(&mut w, 500, "bne1_0_0", 0, 0), CallbackOutcome::StageChanged);
    assert_eq!(handle_callback(&mut w, 500, "bne1_0_0", 0, 0), CallbackOutcome::StageChanged);
    assert_eq!(handle_callback(&mut w, 500, "bne1_0_0", 0, 0), CallbackOutcome::StageChanged);
    assert_eq!(w.tickets.basket_stage(1), 4);
    // the caterer may not confirm receipt for the eater
    assert_eq!(
        handle_callback(&mut w, 500, "bne1_0_0", 0, 0),
        CallbackOutcome::StageUnchanged
    );
    assert_eq!(w.tickets.basket_stage(1), 4);
    // the eater may
    assert_eq!(handle_callback(&mut w, 9, "bne1_0_0", 0, 0), CallbackOutcome::StageChanged);
    assert_eq!(w.tickets.basket_stage(1), 5);
    // the completed ticket is frozen, even against cancel
    assert_eq!(handle_callback(&mut w, 9, "bca1_0_0", 0, 0), CallbackOutcome::StageUnchanged);
    assert_eq!(w.tickets.basket_stage(1), 5);
    // an unknown ticket reports as gone
    assert_eq!(handle_callback(&mut w, 9, "bca9_0_0", 0, 0), CallbackOutcome::TicketNotFound);
}

#[test]
fn cancel_callback_works_from_a_live_stage() {
    let mut w = shop_world();
    handle_callback(&mut w, 9, "add1_1_1", 0, 0);
    handle_callback(&mut w, 9, "bas500_0_0", 0, 0);
    assert_eq!(handle_callback(&mut w, 500, "bne1_0_0", 0, 0), CallbackOutcome::StageChanged);
    assert_eq!(handle_callback(&mut w, 9, "bca1_0_0", 0, 0), CallbackOutcome::StageChanged);
    assert_eq!(w.tickets.basket_stage(1), 6);
}

#[test]
fn caterer_edits_commit_through_the_dialogue() {
    let mut w = shop_world();
    let boss = contact(500, "Шеф");
    // entering caterer mode from the settings menu
    msg(&mut w, &boss, "/start");
    msg(&mut w, &boss, "⚙");
    let r = msg(&mut w, &boss, "Добавить меню");
    assert_eq!(r.keyboard, Keyboard::CatererMain);
    assert_eq!(w.sessions.get(500).0, Dialogue::CatererMode(1));
    // renaming the restaurant through the edit sub-state
    msg(&mut w, &boss, "/EditTitle");
    assert_eq!(w.sessions.get(500).0, Dialogue::CatEditRestTitle(1));
    msg(&mut w, &boss, "Студень у Шефа");
    assert_eq!(w.sessions.get(500).0, Dialogue::CatererMode(1));
    let rest = w.catalog.restaurant(vzmuinebot::catalog::RestBy::Num(1)).unwrap();
    assert_eq!(rest.title.as_str(), "Студень у Шефа");
    // a slash cancels a field edit without committing
    msg(&mut w, &boss, "/EditInfo");
    let r = msg(&mut w, &boss, "/");
    assert_eq!(r.text.as_str(), "Отмена");
    let rest = w.catalog.restaurant(vzmuinebot::catalog::RestBy::Num(1)).unwrap();
    assert_eq!(rest.info.as_str(), "Наш адрес 00NDC, доставка @nick, +84123");
}

#[test]
fn admin_rights_gate_the_gear_commands() {
    let mut w = shop_world();
    let admin = contact(1, "Админ");
    let nobody = contact(42, "Никто");
    msg(&mut w, &admin, "/start");
    msg(&mut w, &admin, "⚙");
    let r = msg(&mut w, &admin, "/sudo1");
    assert_eq!(r.keyboard, Keyboard::CatererMain);
    assert_eq!(w.sessions.get(1).0, Dialogue::CatererMode(1));
    msg(&mut w, &nobody, "/start");
    msg(&mut w, &nobody, "⚙");
    let r = msg(&mut w, &nobody, "/sudo1");
    assert_eq!(r.text.as_str(), "Недостаточно прав");
    assert_eq!(w.sessions.get(42).0, Dialogue::GearMode);
    let r = msg(&mut w, &nobody, "/regi77");
    assert_eq!(r.text.as_str(), "Недостаточно прав");
}

#[test]
fn compose_flow_saves_and_restores_the_state() {
    let mut w = shop_world();
    let ann = contact(100, "Ann");
    msg(&mut w, &ann, "/start");
    let r = msg(&mut w, &ann, "/snd500");
    assert_eq!(r.keyboard, Keyboard::Slash);
    assert_eq!(w.sessions.get(100).0, Dialogue::MessageToCaterer(100, 500));
    let r = msg(&mut w, &ann, "Есть ли борщ без сметаны?");
    assert_eq!(r.text.as_str(), "Сообщение отправлено");
    let (target, body) = r.notify.expect("the caterer gets the message");
    assert_eq!(target, 500);
    assert!(body.as_str().contains("Есть ли борщ без сметаны?"));
    assert!(body.as_str().contains("/snd100"));
    // back where the flow started
    assert_eq!(w.sessions.get(100).0, Dialogue::UserMode);
    assert_eq!(w.sessions.get(100).1, None);
}

#[test]
fn compose_flow_cancels_on_slash() {
    let mut w = shop_world();
    let ann = contact(100, "Ann");
    msg(&mut w, &ann, "/start");
    msg(&mut w, &ann, "/snd500");
    let r = msg(&mut w, &ann, "/");
    assert_eq!(r.text.as_str(), "Отмена отправки сообщения");
    assert!(r.notify.is_none());
    assert_eq!(w.sessions.get(100).0, Dialogue::UserMode);
}

#[test]
fn basket_dialogue_clears_and_deletes() {
    let mut w = shop_world();
    let ann = contact(9, "Ann");
    handle_callback(&mut w, 9, "add1_1_1", 0, 0);
    handle_callback(&mut w, 9, "add1_1_2", 0, 0);
    msg(&mut w, &ann, "/start");
    msg(&mut w, &ann, "🛒Корзина");
    assert_eq!(w.sessions.get(9).0, Dialogue::BasketMode(9));
    msg(&mut w, &ann, "/del1_1_1");
    assert_eq!(w.baskets.amount_in_basket(1, 1, 1, 9), 0);
    assert_eq!(w.baskets.amount_in_basket(1, 1, 2, 9), 1);
    msg(&mut w, &ann, "Очистить");
    assert_eq!(w.baskets.lines.len(), 0);
}

#[test]
fn the_clock_stays_inside_one_day() {
    assert!(current_minute_of_day(7) < 1440);
    assert!(current_minute_of_day(0) < 1440);
    assert!(current_minute_of_day(-11) < 1440);
    // an out-of-range zone is clamped, never echoed back
    assert!(current_minute_of_day(2000) < 1440);
}

#[test]
fn a_full_counter_refuses_one_more_portion() {
    let mut w = shop_world();
    w.baskets.lines.push(vzmuinebot::basket::BasketLine {
        user_id: 9,
        rest_num: 1,
        group_num: 1,
        dish_num: 1,
        amount: i32::MAX,
    });
    assert_eq!(handle_callback(&mut w, 9, "add1_1_1", 0, 0), CallbackOutcome::AddFailed);
    assert_eq!(w.baskets.amount_in_basket(1, 1, 1, 9), i32::MAX);
}

#[test]
fn exhausted_ticket_ids_refuse_a_checkout() {
    let mut w = shop_world();
    handle_callback(&mut w, 9, "add1_1_1", 0, 0);
    w.tickets.next_id = i32::MAX;
    assert_eq!(
        handle_callback(&mut w, 9, "bas500_0_0", 0, 0),
        CallbackOutcome::CheckoutFailed
    );
    // the basket survives the refused checkout
    assert_eq!(w.baskets.amount_in_basket(1, 1, 1, 9), 1);
}

#[test]
fn malformed_callbacks_are_refused_whole() {
    let mut w = shop_world();
    assert_eq!(handle_callback(&mut w, 9, "addx_y_z", 0, 0), CallbackOutcome::UnknownCallback);
    assert_eq!(handle_callback(&mut w, 9, "zzz1_2_3", 0, 0), CallbackOutcome::UnknownCallback);
    assert_eq!(w.baskets.lines.len(), 0);
}

#[test]
fn localization_placeholders_resolve() {
    assert_eq!(t("ru", Res::EatRestEmpty).as_str(), "   пусто :(");
    assert_eq!(t("en", Res::CatGroupsEmpty).as_str(), "   пусто :(");
}

#[test]
fn user_info_lines_are_exact() {
    let full = UserContact {
        id: 12,
        first_name: "Анна".to_string(),
        last_name: Some("Петрова".to_string()),
        username: Some("ann".to_string()),
        language_code: Some("ru".to_string()),
    };
    assert_eq!(user_info(Some(&full), true).as_str(), "12:Анна Петрова @ann lang=ru");
    assert_eq!(user_info(Some(&full), false).as_str(), "12:Анна");
    assert_eq!(user_info(None, true).as_str(), "None user info");
}

#[test]
fn group_time_edit_commits_through_the_dialogue() {
    let mut w = shop_world();
    let boss = contact(500, "Шеф");
    msg(&mut w, &boss, "/start");
    msg(&mut w, &boss, "⚙");
    msg(&mut w, &boss, "Добавить меню");
    msg(&mut w, &boss, "/EdGr1");
    assert_eq!(w.sessions.get(500).0, Dialogue::CatEditGroup(1, 1));
    msg(&mut w, &boss, "/EditTime");
    assert_eq!(w.sessions.get(500).0, Dialogue::CatEditGroupTime(1, 1));
    msg(&mut w, &boss, "08:00-20:30");
    assert_eq!(w.sessions.get(500).0, Dialogue::CatEditGroup(1, 1));
    let g = w.catalog.group(1, 1).unwrap();
    assert_eq!(g.opening_time, 8 * 60);
    assert_eq!(g.closing_time, 20 * 60 + 30);
    // the restaurant's displayed hours follow its only group
    let rest = w.catalog.restaurant(vzmuinebot::catalog::RestBy::Num(1)).unwrap();
    assert_eq!(rest.opening_time, 8 * 60);
    assert_eq!(rest.closing_time, 20 * 60 + 30);
    // a malformed window cancels without committing
    msg(&mut w, &boss, "/EditTime");
    let r = msg(&mut w, &boss, "25:99");
    assert_eq!(r.text.as_str(), "Отмена");
    let g = w.catalog.group(1, 1).unwrap();
    assert_eq!(g.opening_time, 8 * 60);
}

#[test]
fn non_admin_settings_turns_leave_the_catalog_alone() {
    let mut w = shop_world();
    let nobody = contact(42, "Никто");
    msg(&mut w, &nobody, "/start");
    msg(&mut w, &nobody, "⚙");
    let before = w.catalog.rests.len();
    let r = msg(&mut w, &nobody, "/regi77");
    assert_eq!(r.text.as_str(), "Недостаточно прав");
    let r = msg(&mut w, &nobody, "/hold500");
    assert_eq!(r.text.as_str(), "Недостаточно прав");
    assert_eq!(w.catalog.rests.len(), before);
    // the caterer is still registered and enabled
    assert_eq!(w.catalog.rest_num(Some(500)), Ok(1));
}
