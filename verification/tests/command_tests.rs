use vzmuinebot::commands::{
    Common, User, Caterer, CatGroup, CatDish, EaterRest, EaterGroup, EaterDish, Basket, Gear,
    remove_slash,
};

#[test]
fn common_grammar() {
    assert_eq!(Common::from("/start"), Common::Start);
    assert_eq!(Common::from("/start 3_2_0"), Common::StartArgs(3, 2, 0));
    assert_eq!(Common::from("/start nonsense"), Common::UnknownCommand);
    assert_eq!(Common::from("/snd1371"), Common::SendMessage(1371));
    assert_eq!(Common::from("/sndxx"), Common::SendMessage(0));
    assert_eq!(Common::from("/goto5_1_2"), Common::Goto(5, 1, 2));
    assert_eq!(Common::from("/gotoxyz"), Common::UnknownCommand);
    assert_eq!(Common::from(""), Common::UnknownCommand);
    assert_eq!(Common::from("привет"), Common::UnknownCommand);
}

#[test]
fn user_grammar() {
    assert_eq!(User::from("Еда"), User::Category(2));
    assert_eq!(User::from("Напитки"), User::Category(3));
    assert_eq!(User::from("Сейчас"), User::OpenedNow);
    assert_eq!(User::from("🛒Корзина"), User::Basket);
    assert_eq!(User::from("⚙"), User::Gear);
    assert_eq!(User::from("/chatbotname"), User::ChatId);
    assert_eq!(User::from("ерунда"), User::UnknownCommand);
}

#[test]
fn caterer_grammar() {
    assert_eq!(Caterer::from(7, "Главная"), Caterer::Main(7));
    assert_eq!(Caterer::from(7, "Выход"), Caterer::Exit);
    assert_eq!(Caterer::from(7, "/EditTitle"), Caterer::EditTitle(7));
    assert_eq!(Caterer::from(7, "/Toggle"), Caterer::TogglePause(7));
    assert_eq!(Caterer::from(7, "/EdGr3"), Caterer::EditGroup(7, 3));
    assert_eq!(Caterer::from(7, "/EdGrX"), Caterer::EditGroup(7, 0));
    assert_eq!(Caterer::from(7, "/move42"), Caterer::TransferOwnership(7, 42));
    assert_eq!(Caterer::from(7, "мяу"), Caterer::UnknownCommand);
}

#[test]
fn cat_group_grammar() {
    assert_eq!(CatGroup::from(1, 2, "/EditCat"), CatGroup::EditCategory(1, 2));
    assert_eq!(CatGroup::from(1, 2, "/Remove"), CatGroup::RemoveGroup(1, 2));
    assert_eq!(CatGroup::from(1, 2, "/AddDish"), CatGroup::AddDish(1, 2));
    assert_eq!(CatGroup::from(1, 2, "/EdDi4"), CatGroup::EditDish(1, 2, 4));
    assert_eq!(CatGroup::from(1, 2, "???"), CatGroup::UnknownCommand);
}

#[test]
fn cat_dish_grammar() {
    assert_eq!(CatDish::from(1, 2, 3, "/EditPrice"), CatDish::EditPrice(1, 2, 3));
    assert_eq!(CatDish::from(1, 2, 3, "/EditGroup"), CatDish::EditGroup(1, 2, 3));
    assert_eq!(CatDish::from(1, 2, 3, "/Remove"), CatDish::Remove(1, 2, 3));
    assert_eq!(CatDish::from(1, 2, 3, "nope"), CatDish::UnknownCommand);
}

#[test]
fn eater_grammars() {
    assert_eq!(EaterRest::from("🛒"), EaterRest::Basket);
    assert_eq!(EaterRest::from("В начало"), EaterRest::Main);
    assert_eq!(EaterRest::from("/rest12"), EaterRest::Restaurant(12));
    assert_eq!(EaterRest::from("/restab"), EaterRest::Restaurant(0));
    assert_eq!(EaterGroup::from("⏪⏪Назад"), EaterGroup::Return);
    assert_eq!(EaterGroup::from("/grou2"), EaterGroup::Group(2));
    assert_eq!(EaterDish::from("⏪Назад"), EaterDish::Return);
    assert_eq!(EaterDish::from("/dish5"), EaterDish::Dish(5));
    assert_eq!(EaterDish::from("еще"), EaterDish::UnknownCommand);
}

#[test]
fn basket_grammar() {
    assert_eq!(Basket::from("В начало"), Basket::Main);
    assert_eq!(Basket::from("⟳ Обновить"), Basket::Refresh);
    assert_eq!(Basket::from("Очистить"), Basket::Clear);
    assert_eq!(Basket::from("/edit_name"), Basket::EditName);
    assert_eq!(Basket::from("/toggle"), Basket::TogglePickup);
    assert_eq!(Basket::from("/del3_2_1"), Basket::Delete(3, 2, 1));
    assert_eq!(Basket::from("/delmess"), Basket::UnknownCommand);
    assert_eq!(Basket::from("???"), Basket::UnknownCommand);
}

#[test]
fn gear_grammar() {
    assert_eq!(Gear::from("Добавить меню"), Gear::CatererMode);
    assert_eq!(Gear::from("/toggle"), Gear::ToggleInterface);
    assert_eq!(Gear::from("/list"), Gear::List);
    assert_eq!(Gear::from("/regi55"), Gear::RegisterCaterer(55));
    assert_eq!(Gear::from("/hold55"), Gear::HoldCaterer(55));
    assert_eq!(Gear::from("/sudo2"), Gear::Sudo(2));
    assert_eq!(Gear::from("/sudo"), Gear::Sudo(0));
    assert_eq!(Gear::from("nothing"), Gear::UnknownCommand);
}

#[test]
fn slash_texts_are_normalized_to_empty() {
    assert_eq!(remove_slash("/oops").as_str(), "");
    assert_eq!(remove_slash("Пельмени").as_str(), "Пельмени");
    assert_eq!(remove_slash("").as_str(), "");
}
