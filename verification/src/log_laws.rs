//! What holds of the log store's queries and of its retention, whatever
//! the entries are.

use crate::log_repo::{
    app_count, cleaned, excess_ids, expired_ids, front_is_excess, in_order, is_expired, later_than, lemma_filter_ordered,
    lemma_trimmed_members, lemma_trimmed_ordered, newest, of_app, ordered, trimmed, unexpired,
    MAX_LOGS_PER_APP,
};
use crate::model::AppLogView;
use crate::seqs::{lemma_filter_is_subsequence, lemma_filter_keeps};
use vstd::prelude::*;

verus! {

/// A query by time returns the entries of the application that are
/// strictly later than the time, all of them and no others, from the
/// oldest to the newest.
pub proof fn law_since_is_strict_and_ascending(logs: Seq<AppLogView>, app_id: u128, since: i64)
    requires
        ordered(logs),
    ensures
        forall|k: int|
            0 <= k < later_than(logs, app_id, since).len() ==> (#[trigger] later_than(
                logs,
                app_id,
                since,
            )[k]).app_id == app_id && later_than(logs, app_id, since)[k].created_at > since
                && logs.contains(later_than(logs, app_id, since)[k]),
        forall|i: int|
            0 <= i < logs.len() && (#[trigger] logs[i]).app_id == app_id && logs[i].created_at
                > since ==> later_than(logs, app_id, since).contains(logs[i]),
        ordered(later_than(logs, app_id, since)),
{
    let wanted = |l: AppLogView| l.app_id == app_id && l.created_at > since;
    lemma_filter_is_subsequence(logs, wanted);
    lemma_filter_ordered(logs, wanted);
    let found = later_than(logs, app_id, since);
    let at = crate::seqs::kept_positions(logs, wanted);
    assert forall|k: int| 0 <= k < found.len() implies (#[trigger] found[k]).app_id == app_id
        && found[k].created_at > since && logs.contains(found[k]) by {
        assert(found[k] == logs[at[k]]);
        assert(wanted(found[k]));
    }
    assert forall|i: int|
        0 <= i < logs.len() && (#[trigger] logs[i]).app_id == app_id && logs[i].created_at
            > since implies later_than(logs, app_id, since).contains(logs[i]) by {
        lemma_filter_keeps(logs, wanted, i);
    }
}

/// A query by number returns at most that many entries, all of the
/// application, from the oldest to the newest; they are the newest: the
/// entries of the application that are left out all stand before them.
pub proof fn law_limit_returns_newest(logs: Seq<AppLogView>, app_id: u128, limit: int)
    requires
        ordered(logs),
        limit >= 0,
    ensures
        newest(logs, app_id, limit).len() <= limit,
        newest(logs, app_id, limit).len() == if of_app(logs, app_id).len() <= limit {
            of_app(logs, app_id).len() as int
        } else {
            limit
        },
        ordered(newest(logs, app_id, limit)),
        forall|k: int|
            0 <= k < newest(logs, app_id, limit).len() ==> (#[trigger] newest(
                logs,
                app_id,
                limit,
            )[k]).app_id == app_id,
        ({
            let own = of_app(logs, app_id);
            let found = newest(logs, app_id, limit);
            let left_out = own.len() - found.len();
            &&& own == own.take(left_out) + found
            &&& forall|i: int, k: int|
                0 <= i < left_out && 0 <= k < found.len() ==> in_order(
                    #[trigger] own[i],
                    #[trigger] found[k],
                )
        }),
{
    let mine = |l: AppLogView| l.app_id == app_id;
    lemma_filter_is_subsequence(logs, mine);
    lemma_filter_ordered(logs, mine);
    let own = of_app(logs, app_id);
    let found = newest(logs, app_id, limit);
    let left_out = own.len() - found.len();
    assert(own =~= own.take(left_out) + found);
    assert forall|k: int| 0 <= k < found.len() implies (#[trigger] found[k]).app_id == app_id by {
        assert(found[k] == own[left_out + k]);
    }
    assert forall|i: int, k: int| 0 <= i < left_out && 0 <= k < found.len() implies in_order(
        #[trigger] own[i],
        #[trigger] found[k],
    ) by {
        assert(found[k] == own[left_out + k]);
    }
    assert forall|a: int, b: int| 0 <= a < b < found.len() implies in_order(
        #[trigger] found[a],
        #[trigger] found[b],
    ) by {
        assert(found[a] == own[left_out + a]);
        assert(found[b] == own[left_out + b]);
    }
}

/// Trimming never adds to what an application has.
pub proof fn lemma_trimmed_count(logs: Seq<AppLogView>, app_id: u128)
    ensures
        app_count(trimmed(logs), app_id) <= app_count(logs, app_id),
        app_count(trimmed(logs), app_id) <= MAX_LOGS_PER_APP,
    decreases logs.len(),
{
    if logs.len() > 0 {
        let rest = logs.drop_first();
        lemma_trimmed_count(rest, app_id);
        if !front_is_excess(logs) {
            let all = trimmed(logs);
            assert(all[0] == logs[0]);
            assert(all.drop_first() =~= trimmed(rest));
        }
    }
}

/// An application with no more entries than the bound loses none.
pub proof fn lemma_trimmed_keeps_small(logs: Seq<AppLogView>)
    requires
        forall|app_id: u128| app_count(logs, app_id) <= MAX_LOGS_PER_APP,
    ensures
        trimmed(logs) == logs,
    decreases logs.len(),
{
    if logs.len() > 0 {
        let rest = logs.drop_first();
        assert forall|app_id: u128| app_count(rest, app_id) <= MAX_LOGS_PER_APP by {
            assert(app_count(logs, app_id) <= MAX_LOGS_PER_APP);
        }
        lemma_trimmed_keeps_small(rest);
        assert(app_count(logs, logs[0].app_id) <= MAX_LOGS_PER_APP);
        assert(!front_is_excess(logs));
        assert(seq![logs[0]] + rest =~= logs);
    } else {
        assert(trimmed(logs) =~= logs);
    }
}

/// After a retention cycle no application has more than 1000 entries, no
/// entry is older than 7 days, every entry that is left was there before,
/// and the entries still stand from the oldest to the newest.
pub proof fn law_retention_bounds(logs: Seq<AppLogView>, now: i64, app_id: u128)
    requires
        ordered(logs),
    ensures
        app_count(cleaned(logs, now), app_id) <= 1000,
        forall|k: int|
            0 <= k < cleaned(logs, now).len() ==> !is_expired(#[trigger] cleaned(logs, now)[k], now)
                && logs.contains(cleaned(logs, now)[k]),
        ordered(cleaned(logs, now)),
{
    let fresh = |l: AppLogView| !is_expired(l, now);
    let kept = unexpired(logs, now);
    lemma_filter_is_subsequence(logs, fresh);
    lemma_filter_ordered(logs, fresh);
    lemma_trimmed_count(kept, app_id);
    lemma_trimmed_members(kept);
    lemma_trimmed_ordered(kept);
    assert forall|k: int| 0 <= k < cleaned(logs, now).len() implies !is_expired(
        #[trigger] cleaned(logs, now)[k],
        now,
    ) && logs.contains(cleaned(logs, now)[k]) by {
        let entry = cleaned(logs, now)[k];
        let j = choose|j: int| 0 <= j < kept.len() && kept[j] == entry;
        assert(kept[j] == logs[crate::seqs::kept_positions(logs, fresh)[j]]);
    }
}

/// A retention cycle takes nothing that it need not take: where no entry
/// is older than 7 days and no application has more than 1000 entries,
/// nothing changes.
pub proof fn law_retention_spares(logs: Seq<AppLogView>, now: i64)
    requires
        forall|i: int| 0 <= i < logs.len() ==> !is_expired(#[trigger] logs[i], now),
        forall|app_id: u128| app_count(logs, app_id) <= MAX_LOGS_PER_APP,
    ensures
        cleaned(logs, now) == logs,
{
    let fresh = |l: AppLogView| !is_expired(l, now);
    lemma_filter_all(logs, fresh);
    lemma_trimmed_keeps_small(logs);
}

/// A filter that every entry passes keeps all of them.
pub proof fn lemma_filter_all(logs: Seq<AppLogView>, keep: spec_fn(AppLogView) -> bool)
    requires
        forall|i: int| 0 <= i < logs.len() ==> keep(#[trigger] logs[i]),
    ensures
        logs.filter(keep) == logs,
    decreases logs.len(),
{
    reveal(Seq::filter);
    if logs.len() > 0 {
        let front = logs.drop_last();
        assert forall|i: int| 0 <= i < front.len() implies keep(#[trigger] front[i]) by {
            assert(front[i] == logs[i]);
        }
        lemma_filter_all(front, keep);
        assert(front.push(logs.last()) =~= logs);
    } else {
        assert(logs.filter(keep) =~= logs);
    }
}

/// No two entries share an id.
pub open spec fn distinct_ids(logs: Seq<AppLogView>) -> bool {
    forall|i: int, j: int|
        0 <= i < logs.len() && 0 <= j < logs.len() && i != j ==> (#[trigger] logs[i]).id != (
            #[trigger] logs[j]
        ).id
}

/// Some entry has the id.
pub open spec fn has_log_id(logs: Seq<AppLogView>, id: i64) -> bool {
    exists|i: int| 0 <= i < logs.len() && (#[trigger] logs[i]).id == id
}

/// The entries without those whose id is among `ids`: what is left when
/// the entries with these ids are deleted.
pub open spec fn without_ids(logs: Seq<AppLogView>, ids: Seq<i64>) -> Seq<AppLogView> {
    logs.filter(|l: AppLogView| !ids.contains(l.id))
}

/// The ids that a retention cycle removes at the time `now`.
pub open spec fn removed_ids(logs: Seq<AppLogView>, now: i64) -> Seq<i64> {
    expired_ids(logs, now) + excess_ids(unexpired(logs, now))
}

/// Two filters that agree on every entry keep the same entries.
pub proof fn lemma_filters_agree(
    logs: Seq<AppLogView>,
    p: spec_fn(AppLogView) -> bool,
    q: spec_fn(AppLogView) -> bool,
)
    requires
        forall|i: int| 0 <= i < logs.len() ==> p(#[trigger] logs[i]) == q(logs[i]),
    ensures
        logs.filter(p) == logs.filter(q),
    decreases logs.len(),
{
    reveal(Seq::filter);
    if logs.len() > 0 {
        let front = logs.drop_last();
        assert forall|i: int| 0 <= i < front.len() implies p(#[trigger] front[i]) == q(
            front[i],
        ) by {
            assert(front[i] == logs[i]);
        }
        lemma_filters_agree(front, p, q);
        assert(p(logs.last()) == q(logs[logs.len() - 1]));
    }
}

/// Every id in excess is the id of an entry.
pub proof fn lemma_excess_ids_are_ids(logs: Seq<AppLogView>)
    ensures
        forall|k: int|
            0 <= k < excess_ids(logs).len() ==> has_log_id(logs, #[trigger] excess_ids(logs)[k]),
    decreases logs.len(),
{
    if logs.len() > 0 {
        let rest = logs.drop_first();
        lemma_excess_ids_are_ids(rest);
        assert forall|k: int| 0 <= k < excess_ids(logs).len() implies has_log_id(
            logs,
            #[trigger] excess_ids(logs)[k],
        ) by {
            let id = excess_ids(logs)[k];
            if front_is_excess(logs) && k == 0 {
                assert(logs[0].id == id);
            } else {
                let m = if front_is_excess(logs) {
                    k - 1
                } else {
                    k
                };
                assert(excess_ids(rest)[m] == id);
                let i = choose|i: int| 0 <= i < rest.len() && (#[trigger] rest[i]).id == id;
                assert(logs[i + 1].id == id);
            }
        }
    }
}

/// Some expired entry has the id.
pub open spec fn expired_has_id(logs: Seq<AppLogView>, now: i64, id: i64) -> bool {
    exists|i: int| 0 <= i < logs.len() && is_expired(#[trigger] logs[i], now) && logs[i].id == id
}

/// An id is among the expired ones exactly when an expired entry has it.
pub proof fn lemma_expired_ids(logs: Seq<AppLogView>, now: i64)
    ensures
        forall|i: int|
            0 <= i < logs.len() && is_expired(#[trigger] logs[i], now) ==> expired_ids(
                logs,
                now,
            ).contains(logs[i].id),
        forall|k: int|
            0 <= k < expired_ids(logs, now).len() ==> expired_has_id(
                logs,
                now,
                #[trigger] expired_ids(logs, now)[k],
            ),
{
    let stale = |l: AppLogView| is_expired(l, now);
    let kept = logs.filter(stale);
    let ids = expired_ids(logs, now);
    lemma_filter_is_subsequence(logs, stale);
    let at = crate::seqs::kept_positions(logs, stale);
    assert forall|i: int| 0 <= i < logs.len() && is_expired(#[trigger] logs[i], now) implies ids.contains(
        logs[i].id,
    ) by {
        lemma_filter_keeps(logs, stale, i);
        let k = choose|k: int| 0 <= k < kept.len() && kept[k] == logs[i];
        assert(ids[k] == logs[i].id);
    }
    assert forall|k: int| 0 <= k < ids.len() implies expired_has_id(logs, now, #[trigger] ids[k]) by {
        assert(kept[k] == logs[at[k]]);
        assert(stale(kept[k]));
        assert(is_expired(logs[at[k]], now) && logs[at[k]].id == ids[k]);
    }
}

/// What a filter keeps of entries with ids of their own has ids of its
/// own, and every id of it is an id of the entries.
pub proof fn lemma_filter_distinct(logs: Seq<AppLogView>, keep: spec_fn(AppLogView) -> bool)
    requires
        distinct_ids(logs),
    ensures
        distinct_ids(logs.filter(keep)),
        forall|k: int|
            0 <= k < logs.filter(keep).len() ==> has_log_id(logs, (#[trigger] logs.filter(keep)[k]).id),
{
    lemma_filter_is_subsequence(logs, keep);
    let kept = logs.filter(keep);
    let at = crate::seqs::kept_positions(logs, keep);
    assert forall|i: int, j: int|
        0 <= i < kept.len() && 0 <= j < kept.len() && i != j implies (#[trigger] kept[i]).id != (
        #[trigger] kept[j]
    ).id by {
        assert(kept[i] == logs[at[i]]);
        assert(kept[j] == logs[at[j]]);
        if i < j {
            assert(at[i] < at[j]);
        } else {
            assert(at[j] < at[i]);
        }
    }
    assert forall|k: int| 0 <= k < kept.len() implies has_log_id(logs, (#[trigger] kept[k]).id) by {
        assert(kept[k] == logs[at[k]]);
    }
}

/// Deleting the expired entries by their ids leaves the entries that are
/// not expired.
pub proof fn lemma_expired_by_id(logs: Seq<AppLogView>, now: i64)
    requires
        distinct_ids(logs),
    ensures
        without_ids(logs, expired_ids(logs, now)) == unexpired(logs, now),
{
    let ids = expired_ids(logs, now);
    let p = |l: AppLogView| !ids.contains(l.id);
    let fresh = |l: AppLogView| !is_expired(l, now);
    lemma_expired_ids(logs, now);
    assert forall|i: int| 0 <= i < logs.len() implies p(#[trigger] logs[i]) == fresh(logs[i]) by {
        if !is_expired(logs[i], now) && ids.contains(logs[i].id) {
            let k = choose|k: int| 0 <= k < ids.len() && ids[k] == logs[i].id;
            assert(expired_has_id(logs, now, ids[k]));
            let j = choose|j: int|
                0 <= j < logs.len() && is_expired(#[trigger] logs[j], now) && logs[j].id == ids[k];
            assert(j != i);
        }
    }
    lemma_filters_agree(logs, p, fresh);
}

/// Deleting the entries in excess by their ids leaves the trimmed
/// entries.
pub proof fn lemma_excess_by_id(logs: Seq<AppLogView>)
    requires
        distinct_ids(logs),
    ensures
        without_ids(logs, excess_ids(logs)) == trimmed(logs),
    decreases logs.len(),
{
    reveal(Seq::filter);
    let ids = excess_ids(logs);
    let p = |l: AppLogView| !ids.contains(l.id);
    if logs.len() == 0 {
        assert(logs.filter(p) =~= Seq::<AppLogView>::empty());
    } else {
        let rest = logs.drop_first();
        let rest_ids = excess_ids(rest);
        let q = |l: AppLogView| !rest_ids.contains(l.id);
        let first = seq![logs[0]];
        assert(distinct_ids(rest)) by {
            assert forall|i: int, j: int|
                0 <= i < rest.len() && 0 <= j < rest.len() && i != j implies (#[trigger] rest[i]).id
                != (#[trigger] rest[j]).id by {
                assert(rest[i] == logs[i + 1] && rest[j] == logs[j + 1]);
            }
        }
        lemma_excess_by_id(rest);
        lemma_excess_ids_are_ids(rest);
        assert(!rest_ids.contains(logs[0].id)) by {
            if rest_ids.contains(logs[0].id) {
                let k = choose|k: int| 0 <= k < rest_ids.len() && rest_ids[k] == logs[0].id;
                let i = choose|i: int| 0 <= i < rest.len() && (#[trigger] rest[i]).id == rest_ids[k];
                assert(logs[i + 1].id == logs[0].id);
            }
        }
        assert forall|i: int| 0 <= i < rest.len() implies p(#[trigger] rest[i]) == q(rest[i]) by {
            assert(rest[i] == logs[i + 1]);
            assert(rest[i].id != logs[0].id);
            if front_is_excess(logs) {
                assert(ids == seq![logs[0].id] + rest_ids);
                if rest_ids.contains(rest[i].id) {
                    let k = choose|k: int| 0 <= k < rest_ids.len() && rest_ids[k] == rest[i].id;
                    assert(ids[k + 1] == rest[i].id);
                }
                if ids.contains(rest[i].id) {
                    let k = choose|k: int| 0 <= k < ids.len() && ids[k] == rest[i].id;
                    assert(k > 0);
                    assert(rest_ids[k - 1] == rest[i].id);
                }
            }
        }
        lemma_filters_agree(rest, p, q);
        assert(first + rest =~= logs);
        Seq::filter_distributes_over_add(first, rest, p);
        assert(first.drop_last() =~= Seq::<AppLogView>::empty());
        assert(first.drop_last().filter(p) =~= Seq::<AppLogView>::empty());
        if front_is_excess(logs) {
            assert(ids[0] == logs[0].id);
            assert(first.filter(p) =~= Seq::<AppLogView>::empty());
            assert(Seq::<AppLogView>::empty() + trimmed(rest) =~= trimmed(rest));
        } else {
            assert(first.filter(p) =~= first);
        }
    }
}

/// A retention cycle may delete by id. Let the cycle work out the ids of
/// the entries to remove from the entries that it found, and let further
/// entries arrive, under ids of their own, before the deletion is made.
/// Then the deletion leaves, of the entries found, exactly those that are
/// not older than 7 days, trimmed to the newest 1000 of each application,
/// and it leaves every entry that arrived later.
pub proof fn law_retention_by_id(logs: Seq<AppLogView>, later: Seq<AppLogView>, now: i64)
    requires
        distinct_ids(logs),
        forall|k: int| 0 <= k < later.len() ==> !has_log_id(logs, (#[trigger] later[k]).id),
    ensures
        without_ids(logs + later, removed_ids(logs, now)) == cleaned(logs, now) + later,
{
    let fresh = |l: AppLogView| !is_expired(l, now);
    let kept = unexpired(logs, now);
    let a = expired_ids(logs, now);
    let b = excess_ids(kept);
    let ids = removed_ids(logs, now);
    let p = |l: AppLogView| !ids.contains(l.id);
    let pa = |l: AppLogView| !a.contains(l.id);
    let pb = |l: AppLogView| !b.contains(l.id);
    lemma_expired_ids(logs, now);
    lemma_expired_by_id(logs, now);
    lemma_filter_distinct(logs, fresh);
    lemma_excess_by_id(kept);
    lemma_excess_ids_are_ids(kept);
    lemma_filter_is_subsequence(logs, fresh);
    // Every id to remove is the id of an entry that was found.
    assert forall|k: int| 0 <= k < ids.len() implies has_log_id(logs, #[trigger] ids[k]) by {
        if k < a.len() {
            assert(ids[k] == a[k]);
            assert(expired_has_id(logs, now, a[k]));
        } else {
            assert(ids[k] == b[k - a.len()]);
            let m = choose|m: int| 0 <= m < kept.len() && (#[trigger] kept[m]).id == b[k - a.len()];
            assert(has_log_id(logs, kept[m].id));
        }
    }
    // So the entries that arrived later all stay.
    assert forall|k: int| 0 <= k < later.len() implies p(#[trigger] later[k]) by {
        if ids.contains(later[k].id) {
            let m = choose|m: int| 0 <= m < ids.len() && ids[m] == later[k].id;
            assert(has_log_id(logs, ids[m]));
        }
    }
    lemma_filter_all(later, p);
    Seq::filter_distributes_over_add(logs, later, p);
    // Of the entries found, those stay that are neither expired nor in excess.
    let both = |l: AppLogView| pa(l) && pb(l);
    assert forall|i: int| 0 <= i < logs.len() implies p(#[trigger] logs[i]) == both(logs[i]) by {
        let id = logs[i].id;
        if a.contains(id) {
            let m = choose|m: int| 0 <= m < a.len() && a[m] == id;
            assert(ids[m] == id);
        }
        if b.contains(id) {
            let m = choose|m: int| 0 <= m < b.len() && b[m] == id;
            assert(ids[a.len() + m] == id);
        }
        if ids.contains(id) {
            let m = choose|m: int| 0 <= m < ids.len() && ids[m] == id;
            if m < a.len() {
                assert(a[m] == id);
            } else {
                assert(b[m - a.len()] == id);
            }
        }
    }
    lemma_filters_agree(logs, p, both);
    lemma_filter_twice(logs, pa, pb);
}

/// Filtering twice keeps what passes both filters.
pub proof fn lemma_filter_twice(
    logs: Seq<AppLogView>,
    p: spec_fn(AppLogView) -> bool,
    q: spec_fn(AppLogView) -> bool,
)
    ensures
        logs.filter(p).filter(q) == logs.filter(|l: AppLogView| p(l) && q(l)),
    decreases logs.len(),
{
    reveal(Seq::filter);
    let both = |l: AppLogView| p(l) && q(l);
    if logs.len() == 0 {
        assert(logs.filter(p).filter(q) =~= logs.filter(both));
    } else {
        let front = logs.drop_last();
        lemma_filter_twice(front, p, q);
        if p(logs.last()) {
            let kept = front.filter(p).push(logs.last());
            assert(kept.drop_last() =~= front.filter(p));
        }
    }
}

} // verus!
