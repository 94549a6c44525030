use vstd::prelude::*;
use vstd::string::*;
use crate::model::{
    businesses, catalog_len, catalog_name, catalog_price, catalog_reward, is_catalog_entry,
    BusinessModel, UserModel,
};
use crate::text::str_eq;

verus! {

/// Custom id of the button that shows the previous business.
pub open spec fn previous_button_id() -> Seq<char> {
    "empresas_prev"@
}

/// Custom id of the button that shows the next business.
pub open spec fn next_button_id() -> Seq<char> {
    "empresas_next"@
}

/// The catalog index shown after pressing `id` while `current` is shown:
/// the previous and next buttons cycle through the catalog, any other
/// button keeps the index.
pub open spec fn navigated_index(current: int, id: Seq<char>) -> int {
    if id == previous_button_id() {
        if current == 0 {
            catalog_len() - 1
        } else {
            current - 1
        }
    } else if id == next_button_id() {
        (current + 1) % (catalog_len() as int)
    } else {
        current
    }
}

/// The catalog index shown after the button `custom_id` is pressed.
pub fn navigate_shop(current_index: usize, custom_id: &str) -> (index: usize)
    requires
        current_index < catalog_len(),
    ensures
        index == navigated_index(current_index as int, custom_id@),
        index < catalog_len(),
{
    let len = businesses().len();
    if str_eq(custom_id, "empresas_prev") {
        if current_index == 0 {
            len - 1
        } else {
            current_index - 1
        }
    } else if str_eq(custom_id, "empresas_next") {
        (current_index + 1) % len
    } else {
        current_index
    }
}

/// Pressing "next" after "previous", or "previous" after "next", shows the
/// business shown before, and navigation never leaves the catalog.
pub proof fn lemma_navigation_round_trip(i: int)
    requires
        0 <= i < catalog_len(),
    ensures
        navigated_index(navigated_index(i, previous_button_id()), next_button_id()) == i,
        navigated_index(navigated_index(i, next_button_id()), previous_button_id()) == i,
        0 <= navigated_index(i, previous_button_id()) < catalog_len(),
        0 <= navigated_index(i, next_button_id()) < catalog_len(),
{
    assert(previous_button_id() != next_button_id()) by {
        reveal_strlit("empresas_prev");
        reveal_strlit("empresas_next");
        assert(previous_button_id()[9] != next_button_id()[9]);
    }
}

/// Index of the first business in `bs`, from `start` on, named `name`, or -1.
pub open spec fn first_named_from(bs: Seq<BusinessModel>, name: Seq<char>, start: int) -> int
    decreases bs.len() - start,
{
    if start < 0 || start >= bs.len() {
        -1
    } else if bs[start].name@ == name {
        start
    } else {
        first_named_from(bs, name, start + 1)
    }
}

/// Index of the first business in `bs` named `name`, or -1 if none is.
pub open spec fn first_named(bs: Seq<BusinessModel>, name: Seq<char>) -> int {
    first_named_from(bs, name, 0)
}

proof fn lemma_first_named_from_range(bs: Seq<BusinessModel>, name: Seq<char>, start: int)
    requires
        0 <= start <= bs.len(),
    ensures
        first_named_from(bs, name, start) == -1 || (start <= first_named_from(bs, name, start)
            < bs.len() && bs[first_named_from(bs, name, start)].name@ == name),
        first_named_from(bs, name, start) == -1 ==> forall|j: int|
            start <= j < bs.len() ==> (#[trigger] bs[j]).name@ != name,
    decreases bs.len() - start,
{
    if 0 <= start < bs.len() && bs[start].name@ != name {
        lemma_first_named_from_range(bs, name, start + 1);
    }
}

/// Finds the first business named `name`.
fn find_business(bs: &Vec<BusinessModel>, name: &str) -> (position: Option<usize>)
    ensures
        match position {
            Some(i) => i == first_named(bs@, name@) && i < bs@.len(),
            None => first_named(bs@, name@) == -1,
        },
{
    let mut i: usize = 0;
    while i < bs.len()
        invariant
            i <= bs@.len(),
            first_named_from(bs@, name@, 0) == first_named_from(bs@, name@, i as int),
        decreases bs@.len() - i,
    {
        if str_eq(bs[i].name.as_str(), name) {
            return Some(i);
        }
        i = i + 1;
    }
    None
}

/// What the shop page of one catalog entry shows a player.
pub struct ShopView {
    /// The catalog entry.
    pub name: &'static str,
    pub reward: i64,
    /// Whether the player owns it.
    pub owned: bool,
    /// "Aumentar level" for an owned business, "Comprar" otherwise.
    pub action_label: &'static str,
    /// Twice the price last paid for an owned business, the catalog price
    /// otherwise.
    pub action_price: i64,
    /// The level owned, 0 when not owned.
    pub level: i64,
}

/// What the shop shows for catalog entry `index` to `user`.
pub fn shop_view(user: &UserModel, index: usize) -> (view: ShopView)
    requires
        index < catalog_len(),
        first_named(user.businesses@, catalog_name(index as int)) >= 0 ==> 2 * user.businesses@[first_named(
            user.businesses@,
            catalog_name(index as int),
        )].price <= i64::MAX && 2 * user.businesses@[first_named(
            user.businesses@,
            catalog_name(index as int),
        )].price >= i64::MIN,
    ensures
        view.name@ == catalog_name(index as int),
        view.reward == catalog_reward(index as int),
        ({
            let k = first_named(user.businesses@, catalog_name(index as int));
            if k >= 0 {
                &&& view.owned
                &&& view.action_label@ == "Aumentar level"@
                &&& view.action_price == 2 * user.businesses@[k].price
                &&& view.level == user.businesses@[k].level
            } else {
                &&& !view.owned
                &&& view.action_label@ == "Comprar"@
                &&& view.action_price == catalog_price(index as int)
                &&& view.level == 0
            }
        }),
{
    let catalog = businesses();
    let entry = catalog[index];
    assert(is_catalog_entry(catalog@[index as int], index as int));
    match find_business(&user.businesses, entry.name) {
        Some(k) => {
            let owned = &user.businesses[k];
            ShopView {
                name: entry.name,
                reward: entry.reward,
                owned: true,
                action_label: "Aumentar level",
                action_price: owned.price * 2,
                level: owned.level,
            }
        },
        None => ShopView {
            name: entry.name,
            reward: entry.reward,
            owned: false,
            action_label: "Comprar",
            action_price: entry.price,
            level: 0,
        },
    }
}

/// The result of pressing the buy button on a catalog entry.
#[derive(PartialEq, Eq, Structural, Clone, Copy, Debug)]
pub enum PurchaseOutcome {
    /// The business is owned and the player cannot pay `price` to raise it.
    UpgradeUnaffordable { price: i64 },
    /// The business was raised to `level` for `price`.
    Upgraded { level: i64, price: i64 },
    /// The business is not owned and the player cannot pay `price` for it.
    PurchaseUnaffordable { price: i64 },
    /// The business was bought for `price`.
    Purchased { price: i64 },
}

/// Everything of the record but its coins and businesses is the same.
pub open spec fn same_except_holdings(a: UserModel, b: UserModel) -> bool {
    &&& a._id@ == b._id@
    &&& a.last_reward == b.last_reward
    &&& a.highlow_streak == b.highlow_streak
    &&& a.bets@ == b.bets@
    &&& a.total_won == b.total_won
    &&& a.total_lost == b.total_lost
    &&& a.wins == b.wins
    &&& a.losses == b.losses
}

/// What buying or upgrading catalog entry `index` can be computed without
/// overflow: doubling the price of an owned business, paying, and raising
/// its level; or paying the catalog price.
pub open spec fn purchase_computable(user: UserModel, index: int) -> bool {
    let k = first_named(user.businesses@, catalog_name(index));
    if k >= 0 {
        let b = user.businesses@[k];
        &&& i64::MIN <= 2 * b.price <= i64::MAX
        &&& user.coins >= 2 * b.price ==> i64::MIN <= user.coins - 2 * b.price <= i64::MAX
            && b.level < i64::MAX
    } else {
        user.coins >= catalog_price(index) ==> user.coins - catalog_price(index) >= i64::MIN
    }
}

/// Buys catalog entry `index` for `user`, or raises its level when it is
/// already owned.  Raising costs twice the price last paid, adds one level
/// and records the new price; buying costs the catalog price and adds the
/// business at level 1 with the catalog's reward and price.  A player who
/// cannot pay keeps everything as it was.
pub fn buy_or_upgrade_business(user: &mut UserModel, index: usize) -> (outcome: PurchaseOutcome)
    requires
        index < catalog_len(),
        purchase_computable(*old(user), index as int),
    ensures
        same_except_holdings(*old(user), *final(user)),
        final(user).coins < old(user).coins ==> final(user).coins >= 0,
        ({
            let bs = old(user).businesses@;
            let k = first_named(bs, catalog_name(index as int));
            if k >= 0 {
                let price = 2 * bs[k].price;
                if old(user).coins < price {
                    &&& outcome == PurchaseOutcome::UpgradeUnaffordable { price: price as i64 }
                    &&& final(user).coins == old(user).coins
                    &&& final(user).businesses@ == bs
                } else {
                    &&& outcome == PurchaseOutcome::Upgraded {
                        level: (bs[k].level + 1) as i64,
                        price: price as i64,
                    }
                    &&& final(user).coins == old(user).coins - price
                    &&& final(user).businesses@.len() == bs.len()
                    &&& final(user).businesses@[k].name@ == bs[k].name@
                    &&& final(user).businesses@[k].level == bs[k].level + 1
                    &&& final(user).businesses@[k].price == price
                    &&& final(user).businesses@[k].reward == bs[k].reward
                    &&& forall|j: int|
                        0 <= j < bs.len() && j != k ==> #[trigger] final(user).businesses@[j]
                            == bs[j]
                }
            } else {
                let price = catalog_price(index as int);
                if old(user).coins < price {
                    &&& outcome == PurchaseOutcome::PurchaseUnaffordable { price }
                    &&& final(user).coins == old(user).coins
                    &&& final(user).businesses@ == bs
                } else {
                    &&& outcome == PurchaseOutcome::Purchased { price }
                    &&& final(user).coins == old(user).coins - price
                    &&& final(user).businesses@.len() == bs.len() + 1
                    &&& final(user).businesses@.drop_last() == bs
                    &&& final(user).businesses@.last().name@ == catalog_name(index as int)
                    &&& final(user).businesses@.last().level == 1
                    &&& final(user).businesses@.last().reward == catalog_reward(index as int)
                    &&& final(user).businesses@.last().price == price
                }
            }
        }),
{
    let catalog = businesses();
    let entry = catalog[index];
    assert(is_catalog_entry(catalog@[index as int], index as int));
    let ghost bs = user.businesses@;
    match find_business(&user.businesses, entry.name) {
        Some(k) => {
            let upgrade_price = user.businesses[k].price * 2;
            if user.coins < upgrade_price {
                return PurchaseOutcome::UpgradeUnaffordable { price: upgrade_price };
            }
            user.coins = user.coins - upgrade_price;
            let mut raised = BusinessModel {
                name: String::new(),
                level: 0,
                reward: 0,
                price: 0,
            };
            std::mem::swap(&mut raised, &mut user.businesses[k]);
            raised.level = raised.level + 1;
            raised.price = upgrade_price;
            let new_level = raised.level;
            user.businesses.set(k, raised);
            PurchaseOutcome::Upgraded { level: new_level, price: upgrade_price }
        },
        None => {
            if user.coins < entry.price {
                return PurchaseOutcome::PurchaseUnaffordable { price: entry.price };
            }
            user.coins = user.coins - entry.price;
            user.businesses.push(
                BusinessModel {
                    name: String::from_str(entry.name),
                    level: 1,
                    reward: entry.reward,
                    price: entry.price,
                },
            );
            assert(user.businesses@.drop_last() =~= bs);
            PurchaseOutcome::Purchased { price: entry.price }
        },
    }
}

/// No two businesses of `bs` share a name.
pub open spec fn distinct_names(bs: Seq<BusinessModel>) -> bool {
    forall|i: int, j: int|
        0 <= i < bs.len() && 0 <= j < bs.len() && i != j ==> (#[trigger] bs[i]).name@ != (
        #[trigger] bs[j]).name@
}

/// The shop never gives a player two businesses of the same name: a buy
/// adds a business only when none of that name is owned, and an upgrade
/// keeps every name.
pub proof fn lemma_purchase_keeps_names_distinct(
    bs: Seq<BusinessModel>,
    after: Seq<BusinessModel>,
    index: int,
)
    requires
        0 <= index < catalog_len(),
        distinct_names(bs),
        ({
            let k = first_named(bs, catalog_name(index));
            if k >= 0 {
                &&& after.len() == bs.len()
                &&& after[k].name@ == bs[k].name@
                &&& forall|j: int| 0 <= j < bs.len() && j != k ==> #[trigger] after[j] == bs[j]
            } else {
                &&& after.len() == bs.len() + 1
                &&& after.drop_last() == bs
                &&& after.last().name@ == catalog_name(index)
            }
        }),
    ensures
        distinct_names(after),
{
    let k = first_named(bs, catalog_name(index));
    lemma_first_named_from_range(bs, catalog_name(index), 0);
    if k >= 0 {
        assert forall|i: int, j: int|
            0 <= i < after.len() && 0 <= j < after.len() && i != j implies (#[trigger] after[i]).name@
            != (#[trigger] after[j]).name@ by {
            assert(after[i].name@ == bs[i].name@);
            assert(after[j].name@ == bs[j].name@);
        }
    } else {
        assert forall|i: int, j: int|
            0 <= i < after.len() && 0 <= j < after.len() && i != j implies (#[trigger] after[i]).name@
            != (#[trigger] after[j]).name@ by {
            if i < bs.len() && j < bs.len() {
                assert(after[i] == after.drop_last()[i]);
                assert(after[j] == after.drop_last()[j]);
            } else if i < bs.len() {
                assert(after[i] == bs[i]);
            } else {
                assert(after[j] == bs[j]);
            }
        }
    }
}

/// Whether the shop page of catalog entry `index` can be computed without
/// overflow: doubling the price of an owned business fits in `i64`.
pub fn shop_view_fits(user: &UserModel, index: usize) -> (fit: bool)
    requires
        index < catalog_len(),
    ensures
        fit == (first_named(user.businesses@, catalog_name(index as int)) >= 0 ==> 2
            * user.businesses@[first_named(user.businesses@, catalog_name(index as int))].price
            <= i64::MAX && 2 * user.businesses@[first_named(
            user.businesses@,
            catalog_name(index as int),
        )].price >= i64::MIN),
{
    let catalog = businesses();
    let entry = catalog[index];
    assert(is_catalog_entry(catalog@[index as int], index as int));
    match find_business(&user.businesses, entry.name) {
        Some(k) => user.businesses[k].price.checked_mul(2).is_some(),
        None => true,
    }
}

/// Whether buying or upgrading catalog entry `index` can be computed without
/// overflow.
pub fn purchase_fits(user: &UserModel, index: usize) -> (fit: bool)
    requires
        index < catalog_len(),
    ensures
        fit == purchase_computable(*user, index as int),
{
    let catalog = businesses();
    let entry = catalog[index];
    assert(is_catalog_entry(catalog@[index as int], index as int));
    match find_business(&user.businesses, entry.name) {
        Some(k) => {
            let owned = &user.businesses[k];
            match owned.price.checked_mul(2) {
                None => false,
                Some(price) => {
                    if user.coins >= price {
                        user.coins.checked_sub(price).is_some() && owned.level < i64::MAX
                    } else {
                        true
                    }
                },
            }
        },
        None => {
            if user.coins >= entry.price {
                user.coins.checked_sub(entry.price).is_some()
            } else {
                true
            }
        },
    }
}

} // verus!
