use cassino::commands::{
    find_duplicate_command_ids, help_topic, is_clear_confirmed, missing_command_indices,
    select_help_topic, HelpTopic,
};
use cassino::model::{BusinessModel, UserModel};
use cassino::ranking::{is_business_mode, is_business_mode_name, rank_users};
use cassino::shop::{buy_or_upgrade_business, navigate_shop, shop_view, PurchaseOutcome};

fn player(id: &str, coins: i64, businesses: Vec<BusinessModel>) -> UserModel {
    UserModel {
        _id: id.to_string(),
        coins,
        last_reward: 0,
        businesses,
        highlow_streak: 0,
        bets: Vec::new(),
        total_won: 0,
        total_lost: 0,
        wins: 0,
        losses: 0,
    }
}

fn business(name: &str, level: i64, reward: i64, price: i64) -> BusinessModel {
    BusinessModel { name: name.to_string(), level, reward, price }
}

#[test]
fn shop_navigation_cycles() {
    assert_eq!(navigate_shop(0, "empresas_prev"), 2);
    assert_eq!(navigate_shop(2, "empresas_prev"), 1);
    assert_eq!(navigate_shop(2, "empresas_next"), 0);
    assert_eq!(navigate_shop(1, "empresas_next"), 2);
    assert_eq!(navigate_shop(1, "empresas_buy"), 1);
    for i in 0..3 {
        assert_eq!(navigate_shop(navigate_shop(i, "empresas_prev"), "empresas_next"), i);
        assert_eq!(navigate_shop(navigate_shop(i, "empresas_next"), "empresas_prev"), i);
    }
}

#[test]
fn shop_view_for_owned_and_unowned() {
    let user = player("1", 500, vec![business("Padaria", 2, 2, 1400)]);
    let owned = shop_view(&user, 1);
    assert_eq!(owned.name, "Padaria");
    assert!(owned.owned);
    assert_eq!(owned.action_label, "Aumentar level");
    assert_eq!(owned.action_price, 2800);
    assert_eq!(owned.level, 2);
    let other = shop_view(&user, 2);
    assert_eq!(other.name, "Farmacia");
    assert_eq!(other.reward, 4);
    assert!(!other.owned);
    assert_eq!(other.action_label, "Comprar");
    assert_eq!(other.action_price, 3200);
    assert_eq!(other.level, 0);
}

#[test]
fn buying_a_business() {
    let mut user = player("1", 150, Vec::new());
    assert_eq!(buy_or_upgrade_business(&mut user, 0), PurchaseOutcome::Purchased { price: 100 });
    assert_eq!(user.coins, 50);
    assert_eq!(user.businesses.len(), 1);
    assert_eq!(user.businesses[0].name, "Mercado");
    assert_eq!((user.businesses[0].level, user.businesses[0].reward, user.businesses[0].price), (1, 1, 100));
    assert_eq!(
        buy_or_upgrade_business(&mut user, 1),
        PurchaseOutcome::PurchaseUnaffordable { price: 700 }
    );
    assert_eq!(user.coins, 50);
    assert_eq!(user.businesses.len(), 1);
}

#[test]
fn upgrading_a_business_doubles_its_price() {
    let mut user = player("1", 450, vec![business("Loja", 9, 9, 9), business("Mercado", 1, 1, 100)]);
    assert_eq!(buy_or_upgrade_business(&mut user, 0), PurchaseOutcome::Upgraded { level: 2, price: 200 });
    assert_eq!(user.coins, 250);
    assert_eq!((user.businesses[1].level, user.businesses[1].price), (2, 200));
    assert_eq!(user.businesses[0].name, "Loja");
    assert_eq!(buy_or_upgrade_business(&mut user, 0), PurchaseOutcome::UpgradeUnaffordable { price: 400 });
    assert_eq!(user.coins, 250);
    assert_eq!(user.businesses.len(), 2);
}

#[test]
fn shop_never_duplicates_a_business() {
    let mut user = player("1", 1_000_000, Vec::new());
    for round in 0..12 {
        buy_or_upgrade_business(&mut user, round % 3);
    }
    let mut names: Vec<&str> = user.businesses.iter().map(|b| b.name.as_str()).collect();
    names.sort();
    names.dedup();
    assert_eq!(names.len(), user.businesses.len());
    assert_eq!(user.businesses.len(), 3);
}

#[test]
fn business_mode_is_read_loosely() {
    assert!(is_business_mode(Some("empresas")));
    assert!(is_business_mode(Some("  EMPRESAS ")));
    assert!(!is_business_mode(Some("coins")));
    assert!(!is_business_mode(None));
}

#[test]
fn coin_ranking_is_stable() {
    let users = vec![
        player("a", 10, Vec::new()),
        player("b", 30, Vec::new()),
        player("c", 10, Vec::new()),
        player("d", 20, Vec::new()),
    ];
    assert_eq!(rank_users(&users, false), vec![1, 3, 0, 2]);
}

#[test]
fn business_ranking_orders_by_level_then_count_then_coins() {
    let users = vec![
        player("a", 5, vec![business("Mercado", 3, 1, 100)]),
        player("b", 1, vec![business("Mercado", 1, 1, 100), business("Padaria", 2, 2, 700)]),
        player("c", 9, vec![business("Farmacia", 3, 4, 3200)]),
        player("d", 0, Vec::new()),
        player("e", 7, vec![business("Mercado", 3, 1, 100)]),
    ];
    assert_eq!(rank_users(&users, true), vec![1, 2, 4, 0, 3]);
}

#[test]
fn duplicate_commands_are_found_after_their_first_copy() {
    let names = vec!["rec".to_string(), "help".to_string(), "rec".to_string(), "rec".to_string(), "poi".to_string()];
    let ids = vec![10, 11, 12, 13, 14];
    assert_eq!(find_duplicate_command_ids(&names, &ids), vec![12, 13]);
    assert_eq!(find_duplicate_command_ids(&Vec::new(), &Vec::new()), Vec::<u64>::new());
}

#[test]
fn missing_commands_are_those_not_registered() {
    let existing = vec!["rec".to_string(), "help".to_string()];
    let ours = vec!["profile".to_string(), "rec".to_string(), "poi".to_string(), "help".to_string()];
    assert_eq!(missing_command_indices(&existing, &ours), vec![0, 2]);
}

#[test]
fn help_topics() {
    assert_eq!(help_topic(None), HelpTopic::Overview);
    assert_eq!(help_topic(Some("  NIQUEL ")), HelpTopic::SlotMachine);
    assert_eq!(help_topic(Some("Caça-Níquel")), HelpTopic::SlotMachine);
    assert_eq!(help_topic(Some("hl")), HelpTopic::HighLow);
    assert_eq!(help_topic(Some("Par ou Ímpar")), HelpTopic::EvenOdd);
    assert_eq!(help_topic(Some("impar")), HelpTopic::EvenOdd);
    assert_eq!(help_topic(Some("cassino")), HelpTopic::Overview);
    assert_eq!(select_help_topic("poi"), HelpTopic::EvenOdd);
    assert_eq!(select_help_topic(" poi"), HelpTopic::Overview);
}

#[test]
fn clearing_needs_the_exact_word() {
    assert!(is_clear_confirmed("CONFIRMAR"));
    assert!(!is_clear_confirmed("confirmar"));
    assert!(!is_clear_confirmed("CONFIRMAR "));
}

#[test]
fn business_mode_name_is_exact() {
    assert!(is_business_mode_name("empresas"));
    assert!(!is_business_mode_name(" empresas"));
    assert!(!is_business_mode_name("EMPRESAS"));
}
