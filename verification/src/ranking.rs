use vstd::prelude::*;
use crate::model::UserModel;
use crate::rewards::{level_sums_fit, sum_levels, total_levels};
use crate::text::{lowercase, lowercase_of, option_text_view, str_eq, trim_of, trimmed};

verus! {

/// Whether the ranking mode typed, trimmed and lowercased, is `empresas`.
pub open spec fn is_business_mode_of(modo: Option<Seq<char>>) -> bool {
    match modo {
        Some(m) => lowercase_of(trim_of(m)) == "empresas"@,
        None => false,
    }
}

/// Whether the ranking asked for is the business ranking.
pub fn is_business_mode(modo: Option<&str>) -> (business: bool)
    ensures
        business == is_business_mode_of(option_text_view(modo)),
{
    match modo {
        None => false,
        Some(m) => {
            let lowered = lowercase(trimmed(m));
            is_business_mode_name(lowered.as_str())
        },
    }
}

/// Whether a ranking mode already trimmed and lowercased names the business
/// ranking.
pub fn is_business_mode_name(normalized: &str) -> (business: bool)
    ensures
        business == (normalized@ == "empresas"@),
{
    str_eq(normalized, "empresas")
}

/// The key a player is ranked by, compared first to last: in the business
/// ranking the total level of their businesses, then how many they own,
/// then their coins; otherwise their coins alone.
pub open spec fn rank_key(u: UserModel, business_mode: bool) -> (int, int, int) {
    if business_mode {
        (total_levels(u.businesses@), u.businesses@.len() as int, u.coins as int)
    } else {
        (u.coins as int, 0, 0)
    }
}

/// Whether player `a` is listed before player `b`: a larger key first, and
/// on equal keys the one that came first in the input (a stable order).
pub open spec fn ranks_before(users: Seq<UserModel>, business_mode: bool, a: int, b: int) -> bool {
    let ka = rank_key(users[a], business_mode);
    let kb = rank_key(users[b], business_mode);
    ||| ka.0 > kb.0
    ||| ka.0 == kb.0 && ka.1 > kb.1
    ||| ka.0 == kb.0 && ka.1 == kb.1 && ka.2 > kb.2
    ||| ka.0 == kb.0 && ka.1 == kb.1 && ka.2 == kb.2 && a < b
}

proof fn lemma_ranks_before_total(users: Seq<UserModel>, business_mode: bool, a: int, b: int)
    requires
        a != b,
    ensures
        ranks_before(users, business_mode, a, b) || ranks_before(users, business_mode, b, a),
        !(ranks_before(users, business_mode, a, b) && ranks_before(users, business_mode, b, a)),
{
}

proof fn lemma_ranks_before_transitive(
    users: Seq<UserModel>,
    business_mode: bool,
    a: int,
    b: int,
    c: int,
)
    requires
        ranks_before(users, business_mode, a, b),
        ranks_before(users, business_mode, b, c),
    ensures
        ranks_before(users, business_mode, a, c),
{
}

/// The order in which `users` are listed: a permutation of their indices
/// sorted by `ranks_before`.
pub open spec fn is_ranking(users: Seq<UserModel>, business_mode: bool, order: Seq<usize>) -> bool {
    &&& order.len() == users.len()
    &&& order.no_duplicates()
    &&& forall|k: int| 0 <= k < order.len() ==> #[trigger] order[k] < users.len()
    &&& forall|k1: int, k2: int|
        0 <= k1 < k2 < order.len() ==> ranks_before(
            users,
            business_mode,
            #[trigger] order[k1] as int,
            #[trigger] order[k2] as int,
        )
}

/// Whether player `a` is listed before player `b`, computed from the keys.
fn listed_before(
    users: &Vec<UserModel>,
    levels: &Vec<i64>,
    business_mode: bool,
    a: usize,
    b: usize,
) -> (before: bool)
    requires
        a < users@.len(),
        b < users@.len(),
        levels@.len() == users@.len(),
        business_mode ==> forall|k: int|
            0 <= k < users@.len() ==> #[trigger] levels@[k] == total_levels(users@[k].businesses@),
    ensures
        before == ranks_before(users@, business_mode, a as int, b as int),
{
    let ua = &users[a];
    let ub = &users[b];
    if business_mode {
        let la = levels[a];
        let lb = levels[b];
        let na = ua.businesses.len();
        let nb = ub.businesses.len();
        la > lb || (la == lb && na > nb) || (la == lb && na == nb && ua.coins > ub.coins) || (la
            == lb && na == nb && ua.coins == ub.coins && a < b)
    } else {
        ua.coins > ub.coins || (ua.coins == ub.coins && a < b)
    }
}

/// Lists the players for the ranking: in the business ranking by total
/// business level, then number of businesses, then coins; otherwise by
/// coins; larger first, and players with equal keys in their input order.
/// The result holds indices into `users`.
pub fn rank_users(users: &Vec<UserModel>, business_mode: bool) -> (order: Vec<usize>)
    requires
        business_mode ==> forall|k: int|
            0 <= k < users@.len() ==> level_sums_fit(#[trigger] users@[k].businesses@),
    ensures
        is_ranking(users@, business_mode, order@),
        business_mode ==> forall|k1: int, k2: int|
            0 <= k1 < k2 < order@.len() ==> total_levels(users@[#[trigger] order@[k1] as int].businesses@)
                >= total_levels(users@[#[trigger] order@[k2] as int].businesses@),
        !business_mode ==> forall|k1: int, k2: int|
            0 <= k1 < k2 < order@.len() ==> users@[#[trigger] order@[k1] as int].coins
                >= users@[#[trigger] order@[k2] as int].coins,
{
    let n = users.len();
    let mut levels: Vec<i64> = Vec::new();
    let mut k: usize = 0;
    while k < n
        invariant
            n == users@.len(),
            k <= n,
            levels@.len() == k,
            business_mode ==> forall|j: int|
                0 <= j < users@.len() ==> level_sums_fit(#[trigger] users@[j].businesses@),
            business_mode ==> forall|j: int|
                0 <= j < k ==> #[trigger] levels@[j] == total_levels(users@[j].businesses@),
        decreases n - k,
    {
        if business_mode {
            levels.push(sum_levels(&users[k]));
        } else {
            levels.push(0);
        }
        k = k + 1;
    }
    let ghost us = users@;
    let mut order: Vec<usize> = Vec::new();
    let mut i: usize = 0;
    while i < n
        invariant
            us == users@,
            n == us.len(),
            levels@.len() == n,
            business_mode ==> forall|j: int|
                0 <= j < n ==> #[trigger] levels@[j] == total_levels(us[j].businesses@),
            i <= n,
            order@.len() == i,
            order@.no_duplicates(),
            forall|m: int| 0 <= m < order@.len() ==> #[trigger] order@[m] < i,
            forall|k1: int, k2: int|
                0 <= k1 < k2 < order@.len() ==> ranks_before(
                    us,
                    business_mode,
                    #[trigger] order@[k1] as int,
                    #[trigger] order@[k2] as int,
                ),
        decreases n - i,
    {
        let mut p: usize = 0;
        while p < order.len() && !listed_before(users, &levels, business_mode, i, order[p])
            invariant
                us == users@,
                n == us.len(),
                i < n,
                levels@.len() == n,
                business_mode ==> forall|j: int|
                    0 <= j < n ==> #[trigger] levels@[j] == total_levels(us[j].businesses@),
                order@.len() == i,
                forall|m: int| 0 <= m < order@.len() ==> #[trigger] order@[m] < i,
                p <= order@.len(),
                forall|m: int|
                    0 <= m < p ==> !ranks_before(
                        us,
                        business_mode,
                        i as int,
                        #[trigger] order@[m] as int,
                    ),
            decreases order@.len() - p,
        {
            p = p + 1;
        }
        let ghost old_order = order@;
        proof {
            old_order.insert_ensures(p as int, i);
        }
        order.insert(p, i);
        proof {
            let new_order = order@;
            assert forall|m: int| 0 <= m < new_order.len() implies #[trigger] new_order[m] < i + 1 by {
                if m > p {
                    assert(new_order[m] == old_order[m - 1]);
                }
            }
            assert forall|a: int, b: int|
                0 <= a < new_order.len() && 0 <= b < new_order.len() && a != b implies new_order[a]
                != new_order[b] by {
                if a != p && b != p {
                    let oa = if a < p {
                        a
                    } else {
                        a - 1
                    };
                    let ob = if b < p {
                        b
                    } else {
                        b - 1
                    };
                    assert(new_order[a] == old_order[oa]);
                    assert(new_order[b] == old_order[ob]);
                } else if a == p {
                    let ob = if b < p {
                        b
                    } else {
                        b - 1
                    };
                    assert(new_order[b] == old_order[ob]);
                    assert(old_order[ob] < i);
                } else {
                    let oa = if a < p {
                        a
                    } else {
                        a - 1
                    };
                    assert(new_order[a] == old_order[oa]);
                    assert(old_order[oa] < i);
                }
            }
            assert forall|k1: int, k2: int|
                0 <= k1 < k2 < new_order.len() implies ranks_before(
                us,
                business_mode,
                #[trigger] new_order[k1] as int,
                #[trigger] new_order[k2] as int,
            ) by {
                if k2 < p {
                    assert(new_order[k1] == old_order[k1]);
                    assert(new_order[k2] == old_order[k2]);
                } else if k2 == p {
                    assert(new_order[k1] == old_order[k1]);
                    assert(!ranks_before(us, business_mode, i as int, old_order[k1] as int));
                    assert(old_order[k1] < i);
                    lemma_ranks_before_total(us, business_mode, i as int, old_order[k1] as int);
                } else if k1 == p {
                    assert(new_order[k2] == old_order[k2 - 1]);
                    assert(ranks_before(us, business_mode, i as int, old_order[p as int] as int));
                    if k2 - 1 > p {
                        lemma_ranks_before_transitive(
                            us,
                            business_mode,
                            i as int,
                            old_order[p as int] as int,
                            old_order[k2 - 1] as int,
                        );
                    }
                } else if k1 < p {
                    assert(new_order[k1] == old_order[k1]);
                    assert(new_order[k2] == old_order[k2 - 1]);
                } else {
                    assert(new_order[k1] == old_order[k1 - 1]);
                    assert(new_order[k2] == old_order[k2 - 1]);
                }
            }
        }
        i = i + 1;
    }
    proof {
        lemma_ranking_puts_higher_keys_first(users@, business_mode, order@);
    }
    order
}

/// In a ranking, whoever is listed first has the larger key. In the business
/// ranking a larger total business level always comes first; on equal total
/// levels, more businesses; on equal levels and counts, more coins; and on
/// all three equal, the player who came first in the input. In the coin
/// ranking more coins come first, and equal coins keep the input order.
pub proof fn lemma_ranking_puts_higher_keys_first(
    users: Seq<UserModel>,
    business_mode: bool,
    order: Seq<usize>,
)
    requires
        is_ranking(users, business_mode, order),
    ensures
        business_mode ==> forall|k1: int, k2: int|
            0 <= k1 < k2 < order.len() ==> {
                let a = users[#[trigger] order[k1] as int];
                let b = users[#[trigger] order[k2] as int];
                &&& total_levels(a.businesses@) >= total_levels(b.businesses@)
                &&& total_levels(a.businesses@) == total_levels(b.businesses@)
                    ==> a.businesses@.len() >= b.businesses@.len()
                &&& (total_levels(a.businesses@) == total_levels(b.businesses@)
                    && a.businesses@.len() == b.businesses@.len()) ==> a.coins >= b.coins
                &&& (total_levels(a.businesses@) == total_levels(b.businesses@)
                    && a.businesses@.len() == b.businesses@.len() && a.coins == b.coins)
                    ==> order[k1] < order[k2]
            },
        !business_mode ==> forall|k1: int, k2: int|
            0 <= k1 < k2 < order.len() ==> {
                let a = users[#[trigger] order[k1] as int];
                let b = users[#[trigger] order[k2] as int];
                &&& a.coins >= b.coins
                &&& a.coins == b.coins ==> order[k1] < order[k2]
            },
{
    assert forall|k1: int, k2: int| 0 <= k1 < k2 < order.len() implies ranks_before(
        users,
        business_mode,
        #[trigger] order[k1] as int,
        #[trigger] order[k2] as int,
    ) by {}
}

} // verus!
