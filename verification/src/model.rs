use vstd::prelude::*;

verus! {

/// A business owned by a player: its catalog name, the level it has been
/// raised to, the reward it was bought with and the price last paid for it.
#[derive(Clone, Debug)]
pub struct BusinessModel {
    pub name: String,
    pub level: i64,
    pub reward: i64,
    pub price: i64,
}

/// An entry of the fixed business catalog offered in the shop.
#[derive(Clone, Copy, Debug)]
pub struct BusinessCatalogModel {
    pub name: &'static str,
    pub reward: i64,
    pub price: i64,
}

/// One recorded bet of a player.
#[derive(Clone, Debug)]
pub struct BetHistoryModel {
    pub minigame: String,
    pub value: i64,
    pub result: String,
    pub datetime: i64,
}

/// A player's stored record.
#[derive(Clone, Debug)]
pub struct UserModel {
    pub _id: String,
    pub coins: i64,
    pub last_reward: i64,
    pub businesses: Vec<BusinessModel>,
    pub highlow_streak: i64,
    pub bets: Vec<BetHistoryModel>,
    pub total_won: i64,
    pub total_lost: i64,
    pub wins: i64,
    pub losses: i64,
}

/// Number of entries in the business catalog.
pub open spec fn catalog_len() -> nat {
    3
}

/// Reward per interval of the catalog entry at `i`.
pub open spec fn catalog_reward(i: int) -> i64 {
    if i == 0 {
        1
    } else if i == 1 {
        2
    } else {
        4
    }
}

/// Purchase price of the catalog entry at `i`.
pub open spec fn catalog_price(i: int) -> i64 {
    if i == 0 {
        100
    } else if i == 1 {
        700
    } else {
        3200
    }
}

/// Name of the catalog entry at `i`.
pub open spec fn catalog_name(i: int) -> Seq<char> {
    if i == 0 {
        seq!['M', 'e', 'r', 'c', 'a', 'd', 'o']
    } else if i == 1 {
        seq!['P', 'a', 'd', 'a', 'r', 'i', 'a']
    } else {
        seq!['F', 'a', 'r', 'm', 'a', 'c', 'i', 'a']
    }
}

/// Whether `entry` is the catalog entry at index `i`.
pub open spec fn is_catalog_entry(entry: BusinessCatalogModel, i: int) -> bool {
    &&& entry.name@ == catalog_name(i)
    &&& entry.reward == catalog_reward(i)
    &&& entry.price == catalog_price(i)
}

/// The business catalog, in shop order: Mercado, Padaria, Farmacia.
pub fn businesses() -> (catalog: Vec<BusinessCatalogModel>)
    ensures
        catalog@.len() == catalog_len(),
        forall|i: int| 0 <= i < catalog_len() ==> is_catalog_entry(#[trigger] catalog@[i], i),
{
    let mercado = "Mercado";
    let padaria = "Padaria";
    let farmacia = "Farmacia";
    proof {
        reveal_strlit("Mercado");
        reveal_strlit("Padaria");
        reveal_strlit("Farmacia");
    }
    let mut catalog: Vec<BusinessCatalogModel> = Vec::new();
    catalog.push(BusinessCatalogModel { name: mercado, reward: 1, price: 100 });
    catalog.push(BusinessCatalogModel { name: padaria, reward: 2, price: 700 });
    catalog.push(BusinessCatalogModel { name: farmacia, reward: 4, price: 3200 });
    assert(catalog@[0].name@ =~= catalog_name(0));
    assert(catalog@[1].name@ =~= catalog_name(1));
    assert(catalog@[2].name@ =~= catalog_name(2));
    catalog
}

} // verus!
