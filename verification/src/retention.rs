//! How many archives of a session the two ways of pruning leave.
use vstd::prelude::*;
use crate::backup::{
    belongs_to, kept_before, older_than, rank, rank_among, tier_of, Archive, BackupSlot, Game,
    Tier,
};
use crate::counting::{count_below, distinct, lemma_pigeonhole};

verus! {

/// How many of the first `n` archives stay under slotted retention.
pub open spec fn kept_count(game: Game, backups: Seq<BackupSlot>, session: Seq<char>, n: int) -> nat
    decreases n,
{
    if n <= 0 {
        0
    } else {
        kept_count(game, backups, session, n - 1) + if game.keeps(backups, session, n - 1) {
            1nat
        } else {
            0nat
        }
    }
}

/// For each archive of the session in the tier, its place in the tier.
pub open spec fn tier_ranks(backups: Seq<BackupSlot>, session: Seq<char>, tier: Tier) -> Seq<
    Option<int>,
> {
    Seq::new(
        backups.len(),
        |i: int|
            if belongs_to(backups[i].name@, session) && tier_of(backups[i].elapsed_time) == tier {
                Some(rank(backups, session, i) as int)
            } else {
                None
            },
    )
}

proof fn lemma_rank_grows(backups: Seq<BackupSlot>, session: Seq<char>, i: int, j: int, n: int)
    requires
        0 <= i < backups.len(),
        0 <= j < backups.len(),
        0 <= n <= backups.len(),
        kept_before(backups, session, j, i),
    ensures
        rank_among(backups, session, i, n) >= rank_among(backups, session, j, n) + if n > j {
            1int
        } else {
            0int
        },
    decreases n,
{
    if n > 0 {
        lemma_rank_grows(backups, session, i, j, n - 1);
    }
}

proof fn lemma_ranks_distinct(backups: Seq<BackupSlot>, session: Seq<char>, tier: Tier)
    ensures
        distinct(tier_ranks(backups, session, tier)),
{
    let keys = tier_ranks(backups, session, tier);
    assert forall|i: int, j: int| 0 <= i < j < keys.len() && keys[i] is Some implies #[trigger] keys[i]
        != #[trigger] keys[j] by {
        if keys[j] is Some {
            if backups[i].elapsed_time <= backups[j].elapsed_time {
                lemma_rank_grows(backups, session, j, i, backups.len() as int);
            } else {
                lemma_rank_grows(backups, session, i, j, backups.len() as int);
            }
        }
    }
}

proof fn lemma_kept_by_tier(game: Game, backups: Seq<BackupSlot>, session: Seq<char>, n: int)
    requires
        0 <= n <= backups.len(),
    ensures
        kept_count(game, backups, session, n) == count_below(
            tier_ranks(backups, session, Tier::Hourly),
            game.slots(Tier::Hourly) as int,
            n,
        ) + count_below(
            tier_ranks(backups, session, Tier::Daily),
            game.slots(Tier::Daily) as int,
            n,
        ) + count_below(
            tier_ranks(backups, session, Tier::Weekly),
            game.slots(Tier::Weekly) as int,
            n,
        ) + count_below(
            tier_ranks(backups, session, Tier::Monthly),
            game.slots(Tier::Monthly) as int,
            n,
        ),
    decreases n,
{
    if n > 0 {
        lemma_kept_by_tier(game, backups, session, n - 1);
    }
}

/// After slotted retention no more archives of a session stay than the four
/// tiers have slots together.
pub proof fn lemma_slotted_bound(game: Game, backups: Seq<BackupSlot>, session: Seq<char>)
    ensures
        kept_count(game, backups, session, backups.len() as int) <= game.slots(Tier::Hourly)
            + game.slots(Tier::Daily) + game.slots(Tier::Weekly) + game.slots(Tier::Monthly),
{
    let n = backups.len() as int;
    lemma_kept_by_tier(game, backups, session, n);
    lemma_ranks_distinct(backups, session, Tier::Hourly);
    lemma_ranks_distinct(backups, session, Tier::Daily);
    lemma_ranks_distinct(backups, session, Tier::Weekly);
    lemma_ranks_distinct(backups, session, Tier::Monthly);
    lemma_pigeonhole(tier_ranks(backups, session, Tier::Hourly), game.slots(Tier::Hourly) as int);
    lemma_pigeonhole(tier_ranks(backups, session, Tier::Daily), game.slots(Tier::Daily) as int);
    lemma_pigeonhole(tier_ranks(backups, session, Tier::Weekly), game.slots(Tier::Weekly) as int);
    lemma_pigeonhole(
        tier_ranks(backups, session, Tier::Monthly),
        game.slots(Tier::Monthly) as int,
    );
}

/// Whether the file at `i` is an archive of the session that the removal of
/// what is older than `time` seconds leaves.
pub open spec fn stays(listing: Seq<Archive>, session: Seq<char>, time: u64, i: int) -> bool {
    belongs_to(listing[i].name@, session) && !(listing[i].age is Some && listing[i].age->0 > time)
}

/// How many of the first `n` files are archives of the session that the
/// removal of what is older than `time` seconds leaves.
pub open spec fn remaining(listing: Seq<Archive>, session: Seq<char>, time: u64, n: int) -> nat
    decreases n,
{
    if n <= 0 {
        0
    } else {
        remaining(listing, session, time, n - 1) + if stays(listing, session, time, n - 1) {
            1nat
        } else {
            0nat
        }
    }
}

/// Whether the archives of the session were made by a schedule with this
/// interval, looked at in the moment of a backup: the age of each is known
/// and a multiple of the interval, and no two are of one age.
pub open spec fn made_on_schedule(listing: Seq<Archive>, session: Seq<char>, interval: u64) -> bool {
    &&& forall|i: int|
        0 <= i < listing.len() && belongs_to(#[trigger] listing[i].name@, session)
            ==> listing[i].age is Some && listing[i].age->0 % interval == 0
    &&& forall|i: int, j: int|
        0 <= i < j < listing.len() && belongs_to(#[trigger] listing[i].name@, session)
            && belongs_to(#[trigger] listing[j].name@, session) ==> listing[i].age
            != listing[j].age
}

/// For each archive of the session, how many intervals it is old.
pub open spec fn interval_ages(listing: Seq<Archive>, session: Seq<char>, interval: u64) -> Seq<
    Option<int>,
> {
    Seq::new(
        listing.len(),
        |i: int|
            if belongs_to(listing[i].name@, session) && listing[i].age is Some {
                Some(listing[i].age->0 as int / interval as int)
            } else {
                None
            },
    )
}

proof fn lemma_multiple_within(age: int, keep: int, interval: int)
    requires
        interval > 0,
        age >= 0,
        keep >= 0,
        age % interval == 0,
    ensures
        age <= keep <==> age / interval < keep / interval + 1,
{
    vstd::arithmetic::div_mod::lemma_fundamental_div_mod(age, interval);
    vstd::arithmetic::div_mod::lemma_fundamental_div_mod(keep, interval);
    vstd::arithmetic::div_mod::lemma_mod_bound(keep, interval);
    let a = age / interval;
    let k = keep / interval;
    if a <= k {
        assert(interval * a <= interval * k) by (nonlinear_arith)
            requires
                a <= k,
                interval > 0,
        ;
    } else {
        assert(interval * a >= interval * (k + 1)) by (nonlinear_arith)
            requires
                a >= k + 1,
                interval > 0,
        ;
        assert(interval * (k + 1) == interval * k + interval) by (nonlinear_arith);
    }
}

proof fn lemma_same_quotient(a: int, b: int, interval: int)
    requires
        interval > 0,
        a % interval == 0,
        b % interval == 0,
        a / interval == b / interval,
    ensures
        a == b,
{
    vstd::arithmetic::div_mod::lemma_fundamental_div_mod(a, interval);
    vstd::arithmetic::div_mod::lemma_fundamental_div_mod(b, interval);
}

proof fn lemma_remaining_by_age(
    listing: Seq<Archive>,
    session: Seq<char>,
    interval: u64,
    keep: u64,
    n: int,
)
    requires
        interval > 0,
        made_on_schedule(listing, session, interval),
        0 <= n <= listing.len(),
    ensures
        remaining(listing, session, keep, n) == count_below(
            interval_ages(listing, session, interval),
            keep as int / interval as int + 1,
            n,
        ),
    decreases n,
{
    if n > 0 {
        lemma_remaining_by_age(listing, session, interval, keep, n - 1);
        if belongs_to(listing[n - 1].name@, session) {
            lemma_multiple_within(listing[n - 1].age->0 as int, keep as int, interval as int);
        }
    }
}

/// With an interval and a keeping time, the removal that follows a backup
/// leaves at most one archive for each interval that fits into the keeping
/// time, and one more: the keeping time divided by the interval, rounded up,
/// plus one.
pub proof fn lemma_interval_bound(
    listing: Seq<Archive>,
    session: Seq<char>,
    interval: u64,
    keep: u64,
)
    requires
        interval > 0,
        made_on_schedule(listing, session, interval),
    ensures
        remaining(listing, session, keep, listing.len() as int) <= keep / interval + 1,
        remaining(listing, session, keep, listing.len() as int) <= (keep + interval - 1)
            / interval as int + 1,
{
    let keys = interval_ages(listing, session, interval);
    lemma_remaining_by_age(listing, session, interval, keep, listing.len() as int);
    assert forall|i: int, j: int| 0 <= i < j < keys.len() && keys[i] is Some implies #[trigger] keys[i]
        != #[trigger] keys[j] by {
        if keys[j] is Some && keys[i] == keys[j] {
            lemma_same_quotient(
                listing[i].age->0 as int,
                listing[j].age->0 as int,
                interval as int,
            );
        }
    }
    assert forall|i: int| 0 <= i < keys.len() && keys[i] is Some implies keys[i]->0 >= 0 by {
        vstd::arithmetic::div_mod::lemma_div_pos_is_pos(listing[i].age->0 as int, interval as int);
    }
    lemma_pigeonhole(keys, keep as int / interval as int + 1);
    vstd::arithmetic::div_mod::lemma_div_is_ordered(
        keep as int,
        keep + interval - 1,
        interval as int,
    );
}

/// How many of the first `n` files are archives of the session.
pub open spec fn owned_slots(backups: Seq<BackupSlot>, session: Seq<char>, n: int) -> nat
    decreases n,
{
    if n <= 0 {
        0
    } else {
        owned_slots(backups, session, n - 1) + if belongs_to(backups[n - 1].name@, session) {
            1nat
        } else {
            0nat
        }
    }
}

/// Slotted retention decides on every archive of the session: each stays or
/// is named for removal, and none is both.
pub proof fn lemma_slotted_partition(
    game: Game,
    backups: Seq<BackupSlot>,
    session: Seq<char>,
    n: int,
)
    requires
        0 <= n <= backups.len(),
    ensures
        owned_slots(backups, session, n) == kept_count(game, backups, session, n) + game.overflow(
            backups,
            session,
            n,
        ).len(),
    decreases n,
{
    if n > 0 {
        lemma_slotted_partition(game, backups, session, n - 1);
    }
}

/// How many of the files are archives of the session.
pub open spec fn owned_archives(listing: Seq<Archive>, session: Seq<char>) -> nat
    decreases listing.len(),
{
    if listing.len() == 0 {
        0
    } else {
        owned_archives(listing.drop_last(), session) + if belongs_to(
            listing.last().name@,
            session,
        ) {
            1nat
        } else {
            0nat
        }
    }
}

/// The removal of what is older than `time` decides on every archive of the
/// session: each stays or is named for removal, and none is both.
pub proof fn lemma_interval_partition(listing: Seq<Archive>, session: Seq<char>, time: u64)
    ensures
        owned_archives(listing, session) == remaining(
            listing,
            session,
            time,
            listing.len() as int,
        ) + older_than(listing, session, time).len(),
    decreases listing.len(),
{
    if listing.len() > 0 {
        let before = listing.drop_last();
        lemma_interval_partition(before, session, time);
        lemma_remaining_prefix(listing, before, session, time, before.len() as int);
    }
}

proof fn lemma_remaining_prefix(
    listing: Seq<Archive>,
    before: Seq<Archive>,
    session: Seq<char>,
    time: u64,
    n: int,
)
    requires
        0 <= n <= before.len() <= listing.len(),
        forall|i: int| 0 <= i < before.len() ==> before[i] == listing[i],
    ensures
        remaining(listing, session, time, n) == remaining(before, session, time, n),
    decreases n,
{
    if n > 0 {
        lemma_remaining_prefix(listing, before, session, time, n - 1);
    }
}

} // verus!
