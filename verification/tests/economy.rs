use cassino::clock::get_current_timestamp;
use cassino::model::{businesses, BusinessModel, UserModel};
use cassino::records::{calculate_bet_stats, new_bet_record, new_user, STARTING_COINS};
use cassino::rewards::{
    calculate_pending_reward, get_max_reward_per_collection, get_reward_interval_seconds,
    get_reward_per_interval, plan_reward_collection, seconds_until_next_reward,
};

fn business(name: &str, level: i64, reward: i64, price: i64) -> BusinessModel {
    BusinessModel { name: name.to_string(), level, reward, price }
}

fn user_with(coins: i64, last_reward: i64, businesses: Vec<BusinessModel>) -> UserModel {
    UserModel {
        _id: "42".to_string(),
        coins,
        last_reward,
        businesses,
        highlow_streak: 0,
        bets: Vec::new(),
        total_won: 0,
        total_lost: 0,
        wins: 0,
        losses: 0,
    }
}

#[test]
fn catalog_lists_the_three_businesses() {
    let catalog = businesses();
    assert_eq!(catalog.len(), 3);
    assert_eq!(catalog[0].name, "Mercado");
    assert_eq!((catalog[0].reward, catalog[0].price), (1, 100));
    assert_eq!(catalog[1].name, "Padaria");
    assert_eq!((catalog[1].reward, catalog[1].price), (2, 700));
    assert_eq!(catalog[2].name, "Farmacia");
    assert_eq!((catalog[2].reward, catalog[2].price), (4, 3200));
}

#[test]
fn reward_interval_is_two_seconds() {
    assert_eq!(get_reward_interval_seconds(), 2);
}

#[test]
fn cap_grows_by_five_hundred_per_level() {
    let none = user_with(0, 0, Vec::new());
    assert_eq!(get_max_reward_per_collection(&none), 1000);
    let some = user_with(0, 0, vec![business("Mercado", 2, 1, 100), business("Padaria", 3, 2, 700)]);
    assert_eq!(get_max_reward_per_collection(&some), 3500);
}

#[test]
fn reward_rate_uses_catalog_reward_when_the_name_is_known() {
    let user = user_with(
        0,
        0,
        vec![
            business("Mercado", 2, 99, 100),
            business("Farmacia", 1, 0, 3200),
            business("Loja", 2, 7, 10),
        ],
    );
    // 1 base + 1*2 (Mercado) + 4*1 (Farmacia) + 7*2 (stored reward of an unknown name)
    assert_eq!(get_reward_per_interval(&user), 21);
    assert_eq!(get_reward_per_interval(&user_with(0, 0, Vec::new())), 1);
}

#[test]
fn pending_reward_counts_whole_intervals() {
    let user = user_with(0, 100, vec![business("Padaria", 1, 2, 700)]);
    // 11 seconds -> 5 intervals at 3 coins each
    assert_eq!(calculate_pending_reward(&user, 111), (15, 5, false));
    assert_eq!(calculate_pending_reward(&user, 101), (0, 0, false));
    // a clock behind the last collection counts as no time at all
    assert_eq!(calculate_pending_reward(&user, 50), (0, 0, false));
}

#[test]
fn pending_reward_is_cut_to_the_cap() {
    let user = user_with(0, 0, Vec::new());
    // 3000 intervals of 1 coin, cap 1000
    assert_eq!(calculate_pending_reward(&user, 6000), (1000, 3000, true));
    assert_eq!(calculate_pending_reward(&user, 2000), (1000, 1000, false));
}

#[test]
fn collection_consumes_every_completed_interval() {
    let user = user_with(10, 0, Vec::new());
    let plan = plan_reward_collection(&user, 6001);
    assert_eq!(plan.reward_amount, 1000);
    assert!(plan.was_capped);
    assert_eq!(plan.consumed_seconds, 6000);
    let nothing = plan_reward_collection(&user_with(10, 0, Vec::new()), 1);
    assert_eq!(nothing.reward_amount, 0);
    assert_eq!(nothing.consumed_seconds, 0);
}

#[test]
fn second_collection_at_the_same_moment_pays_nothing() {
    let mut user = user_with(10, 0, vec![business("Mercado", 1, 1, 100)]);
    let now = 21;
    let plan = plan_reward_collection(&user, now);
    assert_eq!(plan.reward_amount, 20);
    user.coins += plan.reward_amount;
    user.last_reward += plan.consumed_seconds;
    assert_eq!(user.coins, 30);
    assert!(now - user.last_reward < get_reward_interval_seconds());
    let again = plan_reward_collection(&user, now);
    assert_eq!(again.reward_amount, 0);
    assert_eq!(again.consumed_seconds, 0);
}

#[test]
fn waiting_never_lowers_the_reward() {
    let user = user_with(0, 0, vec![business("Padaria", 2, 2, 700)]);
    let mut previous = 0;
    for now in 0..400 {
        let (amount, _, _) = calculate_pending_reward(&user, now);
        assert!(amount >= previous);
        previous = amount;
    }
}

#[test]
fn seconds_until_next_reward_is_within_one_interval() {
    let user = user_with(0, 100, Vec::new());
    assert_eq!(seconds_until_next_reward(&user, 100), 2);
    assert_eq!(seconds_until_next_reward(&user, 101), 1);
    assert_eq!(seconds_until_next_reward(&user, 104), 2);
    assert_eq!(seconds_until_next_reward(&user, 90), 2);
}

#[test]
fn current_timestamp_reads_the_clock() {
    let now = match get_current_timestamp() {
        Ok(t) => t,
        Err(_) => panic!("clock before the epoch"),
    };
    // after 2020-01-01
    assert!(now > 1_577_836_800);
}

#[test]
fn new_player_starts_with_one_hundred_coins() {
    let user = new_user("1234", 555);
    assert_eq!(user._id, "1234");
    assert_eq!(user.coins, 100);
    assert_eq!(STARTING_COINS, 100);
    assert_eq!(user.last_reward, 555);
    assert!(user.businesses.is_empty());
    assert!(user.bets.is_empty());
    assert_eq!(
        (user.highlow_streak, user.total_won, user.total_lost, user.wins, user.losses),
        (0, 0, 0, 0, 0)
    );
}

#[test]
fn bet_records_say_vitoria_or_derrota() {
    let won = new_bet_record("highlow", 30, true, 77);
    assert_eq!(won.minigame, "highlow");
    assert_eq!(won.value, 30);
    assert_eq!(won.result, "vitoria");
    assert_eq!(won.datetime, 77);
    let lost = new_bet_record("par_ou_impar", 5, false, 78);
    assert_eq!(lost.result, "derrota");
}

#[test]
fn bet_stats_summarise_the_profile() {
    let mut user = user_with(0, 0, Vec::new());
    user.total_won = 500;
    user.total_lost = 800;
    user.wins = 3;
    user.losses = 4;
    assert_eq!(calculate_bet_stats(&user), (500, 800, 3, 4, 7, -300));
}

#[test]
fn income_adds_up_and_ignores_order() {
    let a = vec![business("Mercado", 2, 1, 100), business("Loja", 3, 5, 10)];
    let b = vec![business("Farmacia", 1, 4, 3200)];
    let mut both = a.clone();
    both.extend(b.clone());
    let ua = user_with(0, 0, a);
    let ub = user_with(0, 0, b);
    let uab = user_with(0, 0, both.clone());
    assert_eq!(
        get_reward_per_interval(&uab),
        get_reward_per_interval(&ua) + get_reward_per_interval(&ub) - 1
    );
    both.reverse();
    assert_eq!(get_reward_per_interval(&user_with(0, 0, both)), get_reward_per_interval(&uab));
}

#[test]
fn collection_that_pays_nothing_changes_nothing() {
    let user = user_with(10, 100, Vec::new());
    let plan = plan_reward_collection(&user, 101);
    assert_eq!((plan.reward_amount, plan.consumed_seconds), (0, 0));
    let again = plan_reward_collection(&user, 101);
    assert_eq!((again.reward_amount, again.consumed_seconds), (0, 0));
}
