use vstd::prelude::*;
use crate::model::{businesses, catalog_len, catalog_name, catalog_reward, is_catalog_entry, BusinessModel, UserModel};
use crate::text::str_eq;
use vstd::seq_lib::group_to_multiset_ensures;

verus! {

/// Seconds that make one reward interval.
pub const REWARD_INTERVAL_SECONDS: i64 = 2;

/// Coins every player earns per interval before business income.
pub const BASE_REWARD_PER_INTERVAL: i64 = 1;

/// Largest reward one collection pays before business levels raise it.
pub const MAX_REWARD_PER_COLLECTION: i64 = 1000;

/// How much each business level raises the cap of one collection.
pub const CAP_BONUS_PER_BUSINESS_LEVEL: i64 = 500;

/// Whether `x` is a value of `i64`.
pub open spec fn fits_i64(x: int) -> bool {
    i64::MIN <= x <= i64::MAX
}

/// Sum of the levels of `bs`.
pub open spec fn total_levels(bs: Seq<BusinessModel>) -> int
    decreases bs.len(),
{
    if bs.len() == 0 {
        0
    } else {
        total_levels(bs.drop_last()) + bs.last().level
    }
}

/// Every running sum of levels, in order, is an `i64`.
pub open spec fn level_sums_fit(bs: Seq<BusinessModel>) -> bool {
    forall|k: int| 0 <= k <= bs.len() ==> fits_i64(#[trigger] total_levels(bs.take(k)))
}

/// The cap of one reward collection for `user`.
pub open spec fn reward_cap(user: UserModel) -> int {
    MAX_REWARD_PER_COLLECTION + total_levels(user.businesses@) * CAP_BONUS_PER_BUSINESS_LEVEL
}

/// The cap of `user` can be computed in `i64` without overflow.
pub open spec fn reward_cap_computable(user: UserModel) -> bool {
    &&& level_sums_fit(user.businesses@)
    &&& fits_i64(total_levels(user.businesses@) * CAP_BONUS_PER_BUSINESS_LEVEL)
    &&& fits_i64(reward_cap(user))
}

/// Index of the catalog entry named `name`, if any.
pub open spec fn catalog_index_of(name: Seq<char>) -> Option<int> {
    if name == catalog_name(0) {
        Some(0)
    } else if name == catalog_name(1) {
        Some(1)
    } else if name == catalog_name(2) {
        Some(2)
    } else {
        None
    }
}

/// The reward per level that business `b` earns: the catalog's reward for
/// its name, or the reward stored with it when the name is not in the catalog.
pub open spec fn effective_reward(b: BusinessModel) -> int {
    match catalog_index_of(b.name@) {
        Some(i) => catalog_reward(i) as int,
        None => b.reward as int,
    }
}

/// Income per interval of the businesses `bs`.
pub open spec fn business_income(bs: Seq<BusinessModel>) -> int
    decreases bs.len(),
{
    if bs.len() == 0 {
        0
    } else {
        business_income(bs.drop_last()) + effective_reward(bs.last()) * bs.last().level
    }
}

/// The income of `bs` can be computed in `i64`: each business's income and
/// every running sum of them fit.
pub open spec fn income_computable(bs: Seq<BusinessModel>) -> bool {
    &&& forall|k: int| 0 <= k < bs.len() ==> fits_i64(effective_reward(#[trigger] bs[k]) * bs[k].level)
    &&& forall|k: int| 0 <= k <= bs.len() ==> fits_i64(#[trigger] business_income(bs.take(k)))
}

/// Coins `user` earns per interval.
pub open spec fn reward_per_interval(user: UserModel) -> int {
    BASE_REWARD_PER_INTERVAL + business_income(user.businesses@)
}

/// The reward rate of `user` can be computed in `i64`.
pub open spec fn reward_rate_computable(user: UserModel) -> bool {
    &&& income_computable(user.businesses@)
    &&& fits_i64(reward_per_interval(user))
}

/// Seconds since the last collection, never negative.
pub open spec fn elapsed_seconds(user: UserModel, now: int) -> int {
    let d = now - user.last_reward;
    if d > 0 {
        d
    } else {
        0
    }
}

/// Whole intervals completed since the last collection.
pub open spec fn completed_intervals(user: UserModel, now: int) -> int {
    elapsed_seconds(user, now) / REWARD_INTERVAL_SECONDS as int
}

/// Reward before the cap is applied.
pub open spec fn raw_reward(user: UserModel, now: int) -> int {
    completed_intervals(user, now) * reward_per_interval(user)
}

/// The pending reward of `user` at time `now`: the capped amount, the
/// completed intervals, and whether the cap cut the amount.
pub open spec fn pending_reward(user: UserModel, now: int) -> (int, int, bool) {
    let raw = raw_reward(user, now);
    let cap = reward_cap(user);
    (
        if raw < cap {
            raw
        } else {
            cap
        },
        completed_intervals(user, now),
        raw > cap,
    )
}

/// The pending reward of `user` at `now` can be computed in `i64`.
pub open spec fn pending_reward_computable(user: UserModel, now: int) -> bool {
    &&& fits_i64(now - user.last_reward)
    &&& reward_cap_computable(user)
    &&& reward_rate_computable(user)
    &&& fits_i64(raw_reward(user, now))
}

/// The reward interval in seconds.
pub fn get_reward_interval_seconds() -> (seconds: i64)
    ensures
        seconds == REWARD_INTERVAL_SECONDS,
{
    REWARD_INTERVAL_SECONDS
}

proof fn lemma_take_step<T>(s: Seq<T>, i: int)
    requires
        0 <= i < s.len(),
    ensures
        s.take(i + 1).drop_last() == s.take(i),
        s.take(i + 1).last() == s[i],
{
    assert(s.take(i + 1).drop_last() =~= s.take(i));
}

/// Sum of the levels of the businesses of `user`.
pub fn sum_levels(user: &UserModel) -> (total: i64)
    requires
        level_sums_fit(user.businesses@),
    ensures
        total == total_levels(user.businesses@),
{
    let ghost bs = user.businesses@;
    let n = user.businesses.len();
    let mut total: i64 = 0;
    let mut i: usize = 0;
    assert(bs.take(0) =~= Seq::<BusinessModel>::empty());
    while i < n
        invariant
            bs == user.businesses@,
            n == bs.len(),
            i <= n,
            level_sums_fit(bs),
            total == total_levels(bs.take(i as int)),
        decreases n - i,
    {
        proof {
            lemma_take_step(bs, i as int);
            assert(fits_i64(total_levels(bs.take(i + 1))));
        }
        total = total + user.businesses[i].level;
        i = i + 1;
    }
    assert(bs.take(n as int) =~= bs);
    total
}

/// The cap of one reward collection: the base cap plus a bonus per
/// business level owned.
pub fn get_max_reward_per_collection(user: &UserModel) -> (cap: i64)
    requires
        reward_cap_computable(*user),
    ensures
        cap == reward_cap(*user),
{
    let total = sum_levels(user);
    MAX_REWARD_PER_COLLECTION + total * CAP_BONUS_PER_BUSINESS_LEVEL
}

/// The reward per level of the business named `name`: the catalog's reward
/// when the catalog has that name, else `stored_reward`.
fn catalog_reward_for(name: &str, stored_reward: i64) -> (reward: i64)
    ensures
        reward == match catalog_index_of(name@) {
            Some(i) => catalog_reward(i),
            None => stored_reward,
        },
{
    let catalog = businesses();
    let mut i: usize = 0;
    while i < catalog.len()
        invariant
            catalog@.len() == catalog_len(),
            forall|k: int| 0 <= k < catalog_len() ==> is_catalog_entry(#[trigger] catalog@[k], k),
            i <= catalog.len(),
            forall|k: int| 0 <= k < i ==> catalog_name(k) != name@,
        decreases catalog.len() - i,
    {
        let entry = catalog[i];
        assert(is_catalog_entry(catalog@[i as int], i as int));
        if str_eq(entry.name, name) {
            return entry.reward;
        }
        i = i + 1;
    }
    stored_reward
}

/// Coins earned per interval: the base reward plus, for each business, its
/// level times its reward per level.
pub fn get_reward_per_interval(user: &UserModel) -> (rate: i64)
    requires
        reward_rate_computable(*user),
    ensures
        rate == reward_per_interval(*user),
{
    let ghost bs = user.businesses@;
    let n = user.businesses.len();
    let mut income: i64 = 0;
    let mut i: usize = 0;
    assert(bs.take(0) =~= Seq::<BusinessModel>::empty());
    while i < n
        invariant
            bs == user.businesses@,
            n == bs.len(),
            i <= n,
            income_computable(bs),
            income == business_income(bs.take(i as int)),
        decreases n - i,
    {
        let business = &user.businesses[i];
        let reward = catalog_reward_for(business.name.as_str(), business.reward);
        proof {
            lemma_take_step(bs, i as int);
            assert(fits_i64(effective_reward(bs[i as int]) * bs[i as int].level));
            assert(fits_i64(business_income(bs.take(i + 1))));
        }
        income = income + reward * business.level;
        i = i + 1;
    }
    assert(bs.take(n as int) =~= bs);
    BASE_REWARD_PER_INTERVAL + income
}

/// The reward pending for `user` at time `now`: `(amount, intervals,
/// capped)`, where `amount` is the completed intervals times the reward
/// rate, cut down to the collection cap, and `capped` says whether the cut
/// happened.
pub fn calculate_pending_reward(user: &UserModel, now: i64) -> (pending: (i64, i64, bool))
    requires
        pending_reward_computable(*user, now as int),
    ensures
        pending.0 == pending_reward(*user, now as int).0,
        pending.1 == pending_reward(*user, now as int).1,
        pending.2 == pending_reward(*user, now as int).2,
{
    let difference = now - user.last_reward;
    let elapsed = if difference > 0 {
        difference
    } else {
        0
    };
    let intervals = elapsed / REWARD_INTERVAL_SECONDS;
    let cap = get_max_reward_per_collection(user);
    let rate = get_reward_per_interval(user);
    let raw = intervals * rate;
    let was_capped = raw > cap;
    let amount = if raw < cap {
        raw
    } else {
        cap
    };
    (amount, intervals, was_capped)
}

/// What collecting the pending reward at `now` changes: the coins paid and
/// the seconds by which the last-collection time advances (every completed
/// interval, also those whose reward the cap cut off).  Nothing changes
/// when the amount is not positive.
pub struct RewardCollection {
    pub reward_amount: i64,
    pub consumed_seconds: i64,
    pub was_capped: bool,
}

/// Seconds that a collection at `now` moves the last-collection time forward.
pub open spec fn consumed_seconds(user: UserModel, now: int) -> int {
    if pending_reward(user, now).0 > 0 {
        completed_intervals(user, now) * REWARD_INTERVAL_SECONDS
    } else {
        0
    }
}

/// The stored record of `user` after a collection at `now`.
pub open spec fn after_collection(user: UserModel, now: int) -> UserModel {
    if pending_reward(user, now).0 > 0 {
        UserModel {
            coins: (user.coins + pending_reward(user, now).0) as i64,
            last_reward: (user.last_reward + consumed_seconds(user, now)) as i64,
            ..user
        }
    } else {
        user
    }
}

/// The decision of a reward collection at `now`: the pending amount is paid
/// and the last-collection time advances by the completed intervals, both
/// only when the amount is positive.
pub fn plan_reward_collection(user: &UserModel, now: i64) -> (plan: RewardCollection)
    requires
        pending_reward_computable(*user, now as int),
    ensures
        plan.reward_amount == pending_reward(*user, now as int).0,
        plan.was_capped == pending_reward(*user, now as int).2,
        plan.consumed_seconds == consumed_seconds(*user, now as int),
{
    let (amount, intervals, was_capped) = calculate_pending_reward(user, now);
    let consumed = if amount > 0 {
        intervals * REWARD_INTERVAL_SECONDS
    } else {
        0
    };
    RewardCollection { reward_amount: amount, consumed_seconds: consumed, was_capped }
}

/// Seconds left until the next interval completes, counted from the last
/// collection: always between 1 and a whole interval.
pub fn seconds_until_next_reward(user: &UserModel, now: i64) -> (seconds: i64)
    requires
        fits_i64(now - user.last_reward),
    ensures
        seconds == REWARD_INTERVAL_SECONDS - elapsed_seconds(*user, now as int) % (
        REWARD_INTERVAL_SECONDS as int),
        1 <= seconds <= REWARD_INTERVAL_SECONDS,
{
    let difference = now - user.last_reward;
    let elapsed = if difference > 0 {
        difference
    } else {
        0
    };
    REWARD_INTERVAL_SECONDS - elapsed % REWARD_INTERVAL_SECONDS
}

/// A collection never pays more than the cap, pays exactly the uncapped
/// reward when that is within the cap, and reports a cut exactly when the
/// uncapped reward is above the cap.
pub proof fn lemma_reward_respects_cap(user: UserModel, now: int)
    ensures
        pending_reward(user, now).0 <= reward_cap(user),
        pending_reward(user, now).2 <==> raw_reward(user, now) > reward_cap(user),
        pending_reward(user, now).2 ==> pending_reward(user, now).0 == reward_cap(user),
        !pending_reward(user, now).2 ==> pending_reward(user, now).0 == raw_reward(user, now),
{
}

/// Waiting never lowers the pending reward when the reward rate is not
/// negative.
pub proof fn lemma_pending_reward_grows_with_time(user: UserModel, earlier: int, later: int)
    requires
        earlier <= later,
        reward_per_interval(user) >= 0,
    ensures
        pending_reward(user, earlier).0 <= pending_reward(user, later).0,
        pending_reward(user, earlier).1 <= pending_reward(user, later).1,
{
    let e1 = elapsed_seconds(user, earlier);
    let e2 = elapsed_seconds(user, later);
    assert(e1 <= e2);
    assert(e1 / 2 <= e2 / 2) by (nonlinear_arith)
        requires
            0 <= e1 <= e2,
    ;
    let i1 = completed_intervals(user, earlier);
    let i2 = completed_intervals(user, later);
    let rate = reward_per_interval(user);
    assert(i1 * rate <= i2 * rate) by (nonlinear_arith)
        requires
            0 <= i1 <= i2,
            rate >= 0,
    ;
}

/// A collection that pays something leaves less than one interval of the
/// elapsed time unconsumed, never moves the last-collection time past
/// `now`, and a second collection at the same moment pays nothing.
pub proof fn lemma_collection_consumes_whole_intervals(user: UserModel, now: int)
    requires
        now >= user.last_reward,
        pending_reward(user, now).0 > 0,
        fits_i64(user.coins + pending_reward(user, now).0),
        fits_i64(user.last_reward + consumed_seconds(user, now)),
    ensures
        0 <= now - after_collection(user, now).last_reward < REWARD_INTERVAL_SECONDS,
        after_collection(user, now).coins == user.coins + pending_reward(user, now).0,
        pending_reward(after_collection(user, now), now).0 == 0,
        consumed_seconds(after_collection(user, now), now) == 0,
{
    let after = after_collection(user, now);
    let e = elapsed_seconds(user, now);
    assert(e == now - user.last_reward);
    assert(0 <= e - (e / 2) * 2 < 2);
    assert(after.businesses == user.businesses);
    assert(completed_intervals(after, now) == 0);
    assert(raw_reward(after, now) == 0);
}

/// Whether every running sum of the levels of `user`'s businesses is an `i64`.
pub fn level_sums_fit_check(user: &UserModel) -> (fit: bool)
    ensures
        fit == level_sums_fit(user.businesses@),
{
    let ghost bs = user.businesses@;
    let n = user.businesses.len();
    let mut total: i64 = 0;
    let mut i: usize = 0;
    assert(bs.take(0) =~= Seq::<BusinessModel>::empty());
    while i < n
        invariant
            bs == user.businesses@,
            n == bs.len(),
            i <= n,
            total == total_levels(bs.take(i as int)),
            forall|k: int| 0 <= k <= i ==> fits_i64(#[trigger] total_levels(bs.take(k))),
        decreases n - i,
    {
        proof {
            lemma_take_step(bs, i as int);
        }
        match total.checked_add(user.businesses[i].level) {
            Some(next) => {
                total = next;
            },
            None => {
                assert(!fits_i64(total_levels(bs.take(i + 1))));
                return false;
            },
        }
        i = i + 1;
    }
    assert(bs.take(n as int) =~= bs);
    true
}

/// Whether the collection cap of `user` can be computed without overflow.
pub fn reward_cap_fits(user: &UserModel) -> (fit: bool)
    ensures
        fit == reward_cap_computable(*user),
{
    if !level_sums_fit_check(user) {
        return false;
    }
    let total = sum_levels(user);
    match total.checked_mul(CAP_BONUS_PER_BUSINESS_LEVEL) {
        None => false,
        Some(bonus) => MAX_REWARD_PER_COLLECTION.checked_add(bonus).is_some(),
    }
}

/// Whether the reward rate of `user` can be computed without overflow.
pub fn reward_rate_fits(user: &UserModel) -> (fit: bool)
    ensures
        fit == reward_rate_computable(*user),
{
    let ghost bs = user.businesses@;
    let n = user.businesses.len();
    let mut income: i64 = 0;
    let mut i: usize = 0;
    assert(bs.take(0) =~= Seq::<BusinessModel>::empty());
    while i < n
        invariant
            bs == user.businesses@,
            n == bs.len(),
            i <= n,
            income == business_income(bs.take(i as int)),
            forall|k: int| 0 <= k < i ==> fits_i64(effective_reward(#[trigger] bs[k]) * bs[k].level),
            forall|k: int| 0 <= k <= i ==> fits_i64(#[trigger] business_income(bs.take(k))),
        decreases n - i,
    {
        let business = &user.businesses[i];
        let reward = catalog_reward_for(business.name.as_str(), business.reward);
        proof {
            lemma_take_step(bs, i as int);
        }
        let earned = match reward.checked_mul(business.level) {
            Some(e) => e,
            None => {
                assert(!fits_i64(effective_reward(bs[i as int]) * bs[i as int].level));
                return false;
            },
        };
        match income.checked_add(earned) {
            Some(next) => {
                income = next;
            },
            None => {
                assert(!fits_i64(business_income(bs.take(i + 1))));
                return false;
            },
        }
        i = i + 1;
    }
    assert(bs.take(n as int) =~= bs);
    BASE_REWARD_PER_INTERVAL.checked_add(income).is_some()
}

/// Whether the pending reward of `user` at `now` can be computed without
/// overflow.
pub fn pending_reward_fits(user: &UserModel, now: i64) -> (fit: bool)
    ensures
        fit == pending_reward_computable(*user, now as int),
{
    let difference = match now.checked_sub(user.last_reward) {
        None => {
            return false;
        },
        Some(d) => d,
    };
    if !reward_cap_fits(user) || !reward_rate_fits(user) {
        return false;
    }
    let elapsed = if difference > 0 {
        difference
    } else {
        0
    };
    let intervals = elapsed / REWARD_INTERVAL_SECONDS;
    let rate = get_reward_per_interval(user);
    intervals.checked_mul(rate).is_some()
}

/// A collection never leaves anything for a second collection at the same
/// moment: the second one pays nothing positive and consumes no time, so it
/// writes nothing.  When the first paid, the second pays exactly 0; when the
/// first paid nothing, it changed nothing and the second finds the same
/// amount.
pub proof fn lemma_second_collection_writes_nothing(user: UserModel, now: int)
    requires
        fits_i64(user.coins + pending_reward(user, now).0),
        fits_i64(user.last_reward + consumed_seconds(user, now)),
    ensures
        pending_reward(after_collection(user, now), now).0 <= 0,
        consumed_seconds(after_collection(user, now), now) == 0,
        pending_reward(user, now).0 > 0 ==> pending_reward(after_collection(user, now), now).0
            == 0,
        pending_reward(user, now).0 <= 0 ==> after_collection(user, now) == user,
{
    let p = pending_reward(user, now);
    if p.0 > 0 {
        let after = after_collection(user, now);
        let e = elapsed_seconds(user, now);
        assert(e > 0) by {
            if e == 0 {
                assert(completed_intervals(user, now) == 0);
                assert(raw_reward(user, now) == 0);
            }
        }
        assert(e == now - user.last_reward);
        assert(0 <= e - (e / 2) * 2 < 2);
        assert(after.businesses == user.businesses);
        assert(completed_intervals(after, now) == 0);
        assert(raw_reward(after, now) == 0);
        assert(reward_cap(after) == reward_cap(user));
        assert(reward_cap(user) > 0);
    }
}

/// The income of two lists of businesses put together is the sum of their
/// incomes.
pub proof fn lemma_income_adds_up(a: Seq<BusinessModel>, b: Seq<BusinessModel>)
    ensures
        business_income(a + b) == business_income(a) + business_income(b),
    decreases b.len(),
{
    if b.len() == 0 {
        assert(a + b =~= a);
    } else {
        lemma_income_adds_up(a, b.drop_last());
        assert((a + b).drop_last() =~= a + b.drop_last());
        assert((a + b).last() == b.last());
    }
}

/// The income of a list of businesses does not depend on their order.
pub proof fn lemma_income_ignores_order(a: Seq<BusinessModel>, b: Seq<BusinessModel>)
    requires
        a.to_multiset() == b.to_multiset(),
    ensures
        business_income(a) == business_income(b),
    decreases a.len(),
{
    broadcast use group_to_multiset_ensures;

    if a.len() == 0 {
        assert(b.to_multiset().len() == 0);
        assert(b =~= Seq::<BusinessModel>::empty());
    } else {
        let x = a.last();
        let rest = a.drop_last();
        assert(rest.push(x) =~= a);
        assert(a.to_multiset().count(x) > 0);
        assert(b.contains(x));
        let i = choose|i: int| 0 <= i < b.len() && b[i] == x;
        let b2 = b.remove(i);
        assert(rest.to_multiset() =~= a.to_multiset().remove(x));
        assert(b2.to_multiset() =~= b.to_multiset().remove(x));
        lemma_income_ignores_order(rest, b2);
        let front = b.subrange(0, i);
        let back = b.subrange(i + 1, b.len() as int);
        assert(b2 =~= front + back);
        assert(b =~= front + (seq![x] + back));
        lemma_income_adds_up(front, back);
        lemma_income_adds_up(seq![x], back);
        lemma_income_adds_up(front, seq![x] + back);
        let single = seq![x];
        assert(single.len() == 1);
        assert(single.last() == x);
        assert(single.drop_last() =~= Seq::<BusinessModel>::empty());
        assert(business_income(Seq::<BusinessModel>::empty()) == 0);
        assert(business_income(single) == effective_reward(x) * x.level);
    }
}

/// Business income adds up: a player owning the businesses of two others
/// earns per interval what they earn together, the base reward counted
/// once; and the order of the businesses makes no difference.
pub proof fn lemma_reward_rate_adds_up(ua: UserModel, ub: UserModel, uab: UserModel)
    requires
        uab.businesses@.to_multiset() == (ua.businesses@ + ub.businesses@).to_multiset(),
    ensures
        reward_per_interval(uab) == reward_per_interval(ua) + reward_per_interval(ub)
            - BASE_REWARD_PER_INTERVAL,
{
    lemma_income_ignores_order(uab.businesses@, ua.businesses@ + ub.businesses@);
    lemma_income_adds_up(ua.businesses@, ub.businesses@);
}

} // verus!
