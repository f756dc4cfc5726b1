//! The log store of the registry: one entry per line of output, kept from
//! the oldest to the newest.
//!
//! Entries are ordered by their time and, within one time, by their id. A
//! [`LogStore`] holds its entries in that order at all times, so that a
//! query returns what it selects from the oldest to the newest, and the
//! newest entries of an application are the last ones.

use crate::app_repo::StoreError;
use crate::model::{AppLog, AppLogView, NewAppLog, NewAppLogView};
use crate::seqs::{lemma_filter_empty, lemma_filter_is_subsequence, lemma_filter_step, kept_positions};
use crate::wire::log_views;
use vstd::prelude::*;

verus! {

/// How long an entry is kept: 7 days, in microseconds.
pub const RETENTION_MICROS: i64 = 604_800_000_000;

/// How many entries of one application are kept at most.
pub const MAX_LOGS_PER_APP: usize = 1000;

/// `a` stands before `b`, or may stand there: it is older, or as old with
/// an id that is not greater.
pub open spec fn in_order(a: AppLogView, b: AppLogView) -> bool {
    a.created_at < b.created_at || (a.created_at == b.created_at && a.id <= b.id)
}

/// The entries stand from the oldest to the newest.
pub open spec fn ordered(logs: Seq<AppLogView>) -> bool {
    forall|i: int, j: int| 0 <= i < j < logs.len() ==> in_order(#[trigger] logs[i], #[trigger] logs[j])
}

/// The place of a new entry: behind the last entry that it may follow.
pub open spec fn slot_for(logs: Seq<AppLogView>, entry: AppLogView) -> int
    decreases logs.len(),
{
    if logs.len() == 0 {
        0
    } else if in_order(logs.last(), entry) {
        logs.len() as int
    } else {
        slot_for(logs.drop_last(), entry)
    }
}

/// The entries with `entry` at its place.
pub open spec fn with_entry(logs: Seq<AppLogView>, entry: AppLogView) -> Seq<AppLogView> {
    logs.insert(slot_for(logs, entry), entry)
}

/// The entries of the application, in the order of the store.
pub open spec fn of_app(logs: Seq<AppLogView>, app_id: u128) -> Seq<AppLogView> {
    logs.filter(|l: AppLogView| l.app_id == app_id)
}

/// The entries of the application that are later than `since`, in the
/// order of the store.
pub open spec fn later_than(logs: Seq<AppLogView>, app_id: u128, since: i64) -> Seq<AppLogView> {
    logs.filter(|l: AppLogView| l.app_id == app_id && l.created_at > since)
}

/// The last `limit` entries of the application, or all of them where it
/// has fewer, in the order of the store.
pub open spec fn newest(logs: Seq<AppLogView>, app_id: u128, limit: int) -> Seq<AppLogView> {
    let own = of_app(logs, app_id);
    if limit >= own.len() {
        own
    } else if limit <= 0 {
        Seq::empty()
    } else {
        own.skip(own.len() - limit)
    }
}

/// The entry is older than the retention allows at the time `now`.
pub open spec fn is_expired(entry: AppLogView, now: i64) -> bool {
    entry.created_at < now - RETENTION_MICROS
}

/// The entries that are not older than the retention allows.
pub open spec fn unexpired(logs: Seq<AppLogView>, now: i64) -> Seq<AppLogView> {
    logs.filter(|l: AppLogView| !is_expired(l, now))
}

/// The ids of the entries that are older than the retention allows.
pub open spec fn expired_ids(logs: Seq<AppLogView>, now: i64) -> Seq<i64> {
    logs.filter(|l: AppLogView| is_expired(l, now)).map_values(|l: AppLogView| l.id)
}

/// How many entries the application has.
pub open spec fn app_count(logs: Seq<AppLogView>, app_id: u128) -> nat
    decreases logs.len(),
{
    if logs.len() == 0 {
        0
    } else {
        app_count(logs.drop_first(), app_id) + if logs[0].app_id == app_id {
            1nat
        } else {
            0nat
        }
    }
}

/// The entry at the front is in excess: its application has the full
/// number of entries behind it.
pub open spec fn front_is_excess(logs: Seq<AppLogView>) -> bool {
    logs.len() > 0 && app_count(logs.drop_first(), logs[0].app_id) >= MAX_LOGS_PER_APP
}

/// The entries without those in excess: of each application the last
/// entries stay, up to the full number.
pub open spec fn trimmed(logs: Seq<AppLogView>) -> Seq<AppLogView>
    decreases logs.len(),
{
    if logs.len() == 0 {
        Seq::empty()
    } else if front_is_excess(logs) {
        trimmed(logs.drop_first())
    } else {
        seq![logs[0]] + trimmed(logs.drop_first())
    }
}

/// The ids of the entries in excess.
pub open spec fn excess_ids(logs: Seq<AppLogView>) -> Seq<i64>
    decreases logs.len(),
{
    if logs.len() == 0 {
        Seq::empty()
    } else if front_is_excess(logs) {
        seq![logs[0].id] + excess_ids(logs.drop_first())
    } else {
        excess_ids(logs.drop_first())
    }
}

/// The log store of the registry.
#[derive(Debug)]
pub struct LogStore {
    rows: Vec<AppLog>,
    next_id: i64,
}

impl View for LogStore {
    type V = Seq<AppLogView>;

    closed spec fn view(&self) -> Seq<AppLogView> {
        log_views(self.rows@)
    }
}

/// The entry that a reported line becomes in the store.
pub open spec fn entry_of(log: NewAppLogView, id: i64, now: i64) -> AppLogView {
    AppLogView {
        id,
        app_id: log.app_id,
        stream: log.stream,
        message: log.message,
        created_at: now,
    }
}

/// With a new entry at its place, entries that stood in order still do.
pub proof fn lemma_with_entry_ordered(logs: Seq<AppLogView>, entry: AppLogView)
    requires
        ordered(logs),
    ensures
        ordered(with_entry(logs, entry)),
        0 <= slot_for(logs, entry) <= logs.len(),
{
    lemma_slot(logs, entry);
    let at = slot_for(logs, entry);
    let longer = with_entry(logs, entry);
    assert forall|i: int, j: int| 0 <= i < j < longer.len() implies in_order(
        #[trigger] longer[i],
        #[trigger] longer[j],
    ) by {
        if j < at {
            assert(longer[i] == logs[i] && longer[j] == logs[j]);
        } else if j == at {
            assert(longer[i] == logs[i]);
            if i < at - 1 {
                assert(in_order(logs[i], logs[at - 1]));
            }
        } else if i < at {
            assert(longer[i] == logs[i] && longer[j] == logs[j - 1]);
        } else if i == at {
            assert(longer[j] == logs[j - 1]);
        } else {
            assert(longer[i] == logs[i - 1] && longer[j] == logs[j - 1]);
        }
    }
}

/// The place of a new entry lies in the store; the entry before it may be
/// followed by the new one, and no entry from the place on may.
pub proof fn lemma_slot(logs: Seq<AppLogView>, entry: AppLogView)
    ensures
        0 <= slot_for(logs, entry) <= logs.len(),
        slot_for(logs, entry) > 0 ==> in_order(logs[slot_for(logs, entry) - 1], entry),
        forall|j: int| slot_for(logs, entry) <= j < logs.len() ==> !in_order(#[trigger] logs[j], entry),
    decreases logs.len(),
{
    if logs.len() > 0 && !in_order(logs.last(), entry) {
        lemma_slot(logs.drop_last(), entry);
        let front = logs.drop_last();
        assert forall|j: int| slot_for(logs, entry) <= j < logs.len() implies !in_order(
            #[trigger] logs[j],
            entry,
        ) by {
            if j < front.len() {
                assert(front[j] == logs[j]);
            }
        }
        if slot_for(logs, entry) > 0 {
            assert(front[slot_for(logs, entry) - 1] == logs[slot_for(logs, entry) - 1]);
        }
    }
}

/// What a filter keeps of entries that stand in order stands in order.
pub proof fn lemma_filter_ordered(logs: Seq<AppLogView>, keep: spec_fn(AppLogView) -> bool)
    requires
        ordered(logs),
    ensures
        ordered(logs.filter(keep)),
{
    lemma_filter_is_subsequence(logs, keep);
    let kept = logs.filter(keep);
    let at = kept_positions(logs, keep);
    assert forall|i: int, j: int| 0 <= i < j < kept.len() implies in_order(
        #[trigger] kept[i],
        #[trigger] kept[j],
    ) by {
        assert(kept[i] == logs[at[i]]);
        assert(kept[j] == logs[at[j]]);
        assert(at[i] < at[j]);
    }
}

impl LogStore {
    /// The entries stand from the oldest to the newest.
    #[verifier::type_invariant]
    spec fn stands_in_order(self) -> bool {
        ordered(log_views(self.rows@))
    }

    /// The id that the next entry gets.
    pub closed spec fn next_id(&self) -> i64 {
        self.next_id
    }

    /// The store without an entry; ids start at 1.
    pub fn new() -> (store: LogStore)
        ensures
            store@ == Seq::<AppLogView>::empty(),
            store.next_id() == 1,
    {
        let store = LogStore { rows: Vec::new(), next_id: 1 };
        assert(store@ =~= Seq::<AppLogView>::empty());
        store
    }

    /// How many entries the store holds.
    pub fn len(&self) -> (count: usize)
        ensures
            count == self@.len(),
    {
        self.rows.len()
    }
}

/// The entries in the order of the store: each one placed in turn.
pub open spec fn arranged(logs: Seq<AppLogView>) -> Seq<AppLogView>
    decreases logs.len(),
{
    if logs.len() == 0 {
        Seq::empty()
    } else {
        with_entry(arranged(logs.drop_last()), logs.last())
    }
}

/// The id after `id`; the greatest id is followed by itself.
pub open spec fn id_after(id: i64) -> i64 {
    if id < i64::MAX {
        (id + 1) as i64
    } else {
        id
    }
}

/// The id that the next entry gets in a store that was filled with the
/// given entries: 1 in an empty store, else the id after the greatest.
pub open spec fn fresh_id(logs: Seq<AppLogView>) -> i64
    decreases logs.len(),
{
    if logs.len() == 0 {
        1
    } else {
        let before = fresh_id(logs.drop_last());
        if logs.last().id >= before {
            id_after(logs.last().id)
        } else {
            before
        }
    }
}

/// Whether `a` may stand before `b`.
fn stands_before(a: &AppLog, b: &AppLog) -> (before: bool)
    ensures
        before == in_order(a@, b@),
{
    a.created_at < b.created_at || (a.created_at == b.created_at && a.id <= b.id)
}

/// Puts the entry at its place.
fn place(rows: &mut Vec<AppLog>, entry: AppLog)
    requires
        ordered(log_views(old(rows)@)),
    ensures
        log_views(final(rows)@) == with_entry(log_views(old(rows)@), entry@),
        ordered(log_views(final(rows)@)),
{
    let ghost logs = log_views(rows@);
    let mut at: usize = rows.len();
    assert(logs.take(at as int) == logs);
    while at > 0 && !stands_before(&rows[at - 1], &entry)
        invariant
            at <= rows.len(),
            rows@ == old(rows)@,
            logs == log_views(rows@),
            slot_for(logs, entry@) == slot_for(logs.take(at as int), entry@),
        decreases at,
    {
        assert(logs.take(at as int).last() == rows@[at - 1]@);
        assert(logs.take(at as int).drop_last() == logs.take(at - 1));
        at -= 1;
    }
    proof {
        if at > 0 {
            assert(logs.take(at as int).last() == rows@[at - 1]@);
        }
        lemma_with_entry_ordered(logs, entry@);
    }
    rows.insert(at, entry);
    assert(log_views(rows@) =~= with_entry(logs, entry@));
}

/// How many entries of the application stand at or behind position
/// `from`, counted up to `cap` at most.
fn count_behind(rows: &Vec<AppLog>, from: usize, app_id: u128, cap: usize) -> (count: usize)
    requires
        from <= rows.len(),
    ensures
        count <= cap,
        count < cap ==> count == app_count(log_views(rows@).skip(from as int), app_id),
        count == cap ==> app_count(log_views(rows@).skip(from as int), app_id) >= cap,
{
    let ghost logs = log_views(rows@);
    let mut count: usize = 0;
    let mut at: usize = rows.len();
    assert(logs.skip(at as int) =~= Seq::<AppLogView>::empty());
    if cap == 0 {
        return 0;
    }
    while at > from
        invariant
            from <= at <= rows.len(),
            logs == log_views(rows@),
            count < cap,
            count == app_count(logs.skip(at as int), app_id),
        decreases at,
    {
        at -= 1;
        proof {
            assert(logs.skip(at as int)[0] == rows@[at as int]@);
            assert(logs.skip(at as int).drop_first() == logs.skip(at + 1));
        }
        if rows[at].app_id == app_id {
            count += 1;
            if count == cap {
                proof {
                    lemma_count_grows(logs, from as int, at as int, app_id);
                }
                return count;
            }
        }
    }
    count
}

/// An application has at least as many entries behind an earlier position
/// as behind a later one.
pub proof fn lemma_count_grows(logs: Seq<AppLogView>, from: int, to: int, app_id: u128)
    requires
        0 <= from <= to <= logs.len(),
    ensures
        app_count(logs.skip(from), app_id) >= app_count(logs.skip(to), app_id),
    decreases to - from,
{
    if from < to {
        lemma_count_grows(logs, from + 1, to, app_id);
        assert(logs.skip(from).drop_first() == logs.skip(from + 1));
    }
}

impl LogStore {
    /// The store that holds the given entries, arranged in its order.
    pub fn from_rows(rows: Vec<AppLog>) -> (store: LogStore)
        ensures
            store@ == arranged(log_views(rows@)),
            store.next_id() == fresh_id(log_views(rows@)),
            ordered(store@),
    {
        let ghost logs = log_views(rows@);
        let mut sorted: Vec<AppLog> = Vec::new();
        let mut next_id: i64 = 1;
        let mut i: usize = 0;
        assert(logs.take(0) =~= Seq::<AppLogView>::empty());
        assert(log_views(sorted@) =~= Seq::<AppLogView>::empty());
        while i < rows.len()
            invariant
                i <= rows.len(),
                logs == log_views(rows@),
                log_views(sorted@) == arranged(logs.take(i as int)),
                ordered(log_views(sorted@)),
                next_id == fresh_id(logs.take(i as int)),
            decreases rows.len() - i,
        {
            proof {
                assert(logs.take(i + 1).drop_last() == logs.take(i as int));
                assert(logs.take(i + 1).last() == rows@[i as int]@);
            }
            let id = rows[i].id;
            if id >= next_id {
                next_id = if id < i64::MAX {
                    id + 1
                } else {
                    id
                };
            }
            place(&mut sorted, rows[i].clone());
            i += 1;
        }
        assert(logs.take(rows.len() as int) == logs);
        LogStore { rows: sorted, next_id }
    }

    /// A copy of every entry, from the oldest to the newest.
    pub fn entries(&self) -> (all: Vec<AppLog>)
        ensures
            log_views(all@) == self@,
            ordered(self@),
    {
        proof {
            use_type_invariant(self);
        }
        let mut all: Vec<AppLog> = Vec::new();
        let mut i: usize = 0;
        while i < self.rows.len()
            invariant
                i <= self.rows.len(),
                all.len() == i,
                forall|j: int| 0 <= j < i ==> (#[trigger] all@[j])@ == self.rows@[j]@,
            decreases self.rows.len() - i,
        {
            all.push(self.rows[i].clone());
            i += 1;
        }
        assert(log_views(all@) =~= self@);
        all
    }
}

/// Stores a reported line as the entry of the time `now`, under the next
/// id, and returns that id. The entry is placed behind every entry that is
/// not later; nothing else changes.
pub fn insert_log(store: &mut LogStore, log: &NewAppLog, now: i64) -> (id: i64)
    ensures
        id == old(store).next_id(),
        final(store)@ == with_entry(old(store)@, entry_of(log@, id, now)),
        final(store).next_id() == id_after(id),
        ordered(final(store)@),
{
    proof {
        use_type_invariant(&*store);
    }
    let id = store.next_id;
    let entry = AppLog {
        id,
        app_id: log.app_id,
        stream: log.stream.clone(),
        message: log.message.clone(),
        created_at: now,
    };
    let mut rows: Vec<AppLog> = Vec::new();
    assert(log_views(rows@) =~= Seq::<AppLogView>::empty());
    core::mem::swap(&mut rows, &mut store.rows);
    place(&mut rows, entry);
    store.rows = rows;
    store.next_id = if id < i64::MAX {
        id + 1
    } else {
        id
    };
    id
}

/// The newest `limit` entries of the application, from the oldest to the
/// newest. A negative limit is refused.
pub fn get_logs(store: &LogStore, app_id: u128, limit: i64) -> (found: Result<
    Vec<AppLog>,
    StoreError,
>)
    ensures
        match found {
            Ok(logs) => limit >= 0 && log_views(logs@) == newest(store@, app_id, limit as int)
                && logs.len() <= limit && ordered(log_views(logs@)),
            Err(e) => limit < 0 && e == StoreError::NegativeLimit,
        },
{
    if limit < 0 {
        return Err(StoreError::NegativeLimit);
    }
    proof {
        use_type_invariant(store);
    }
    let ghost own_all = |l: AppLogView| l.app_id == app_id;
    let mut own: Vec<usize> = Vec::new();
    let mut i: usize = 0;
    proof {
        assert(store@.take(0) =~= Seq::<AppLogView>::empty());
        lemma_filter_empty(own_all);
    }
    while i < store.rows.len()
        invariant
            i <= store.rows.len(),
            own_all == |l: AppLogView| l.app_id == app_id,
            own.len() == store@.take(i as int).filter(own_all).len(),
            forall|k: int|
                0 <= k < own.len() ==> (#[trigger] own@[k]) < i && store@[own@[k] as int]
                    == store@.take(i as int).filter(own_all)[k],
        decreases store.rows.len() - i,
    {
        proof {
            lemma_filter_step(store@, i as int, own_all);
        }
        if store.rows[i].app_id == app_id {
            own.push(i);
        }
        i += 1;
    }
    assert(store@.take(store.rows.len() as int) == store@);
    let ghost mine = of_app(store@, app_id);
    let skip: usize = if (own.len() as u64) > (limit as u64) {
        own.len() - (limit as usize)
    } else {
        0
    };
    let mut logs: Vec<AppLog> = Vec::new();
    let mut k: usize = skip;
    while k < own.len()
        invariant
            skip <= k <= own.len(),
            own.len() == mine.len(),
            forall|m: int|
                0 <= m < own.len() ==> (#[trigger] own@[m]) < store.rows.len() && store@[own@[m] as int]
                    == mine[m],
            logs.len() == k - skip,
            forall|m: int| 0 <= m < logs.len() ==> (#[trigger] logs@[m])@ == mine[skip + m],
        decreases own.len() - k,
    {
        logs.push(store.rows[own[k]].clone());
        k += 1;
    }
    proof {
        assert(log_views(logs@) =~= mine.skip(skip as int));
        if limit >= mine.len() {
            assert(mine.skip(0) == mine);
        }
        lemma_filter_ordered(store@, own_all);
        assert(ordered(mine.skip(skip as int))) by {
            assert forall|a: int, b: int| 0 <= a < b < mine.skip(skip as int).len() implies in_order(
                #[trigger] mine.skip(skip as int)[a],
                #[trigger] mine.skip(skip as int)[b],
            ) by {
                assert(mine.skip(skip as int)[a] == mine[skip + a]);
                assert(mine.skip(skip as int)[b] == mine[skip + b]);
            }
        }
    }
    Ok(logs)
}

/// The entries of the application that are later than `since`, from the
/// oldest to the newest.
pub fn get_logs_since(store: &LogStore, app_id: u128, since: i64) -> (logs: Vec<AppLog>)
    ensures
        log_views(logs@) == later_than(store@, app_id, since),
        ordered(log_views(logs@)),
{
    proof {
        use_type_invariant(store);
    }
    let ghost wanted = |l: AppLogView| l.app_id == app_id && l.created_at > since;
    let mut logs: Vec<AppLog> = Vec::new();
    let mut i: usize = 0;
    proof {
        assert(store@.take(0) =~= Seq::<AppLogView>::empty());
        lemma_filter_empty(wanted);
        assert(log_views(logs@) =~= Seq::<AppLogView>::empty());
    }
    while i < store.rows.len()
        invariant
            i <= store.rows.len(),
            wanted == |l: AppLogView| l.app_id == app_id && l.created_at > since,
            log_views(logs@) == store@.take(i as int).filter(wanted),
        decreases store.rows.len() - i,
    {
        proof {
            lemma_filter_step(store@, i as int, wanted);
        }
        if store.rows[i].app_id == app_id && store.rows[i].created_at > since {
            let ghost before = log_views(logs@);
            logs.push(store.rows[i].clone());
            assert(log_views(logs@) =~= before.push(store@[i as int]));
        }
        i += 1;
    }
    proof {
        assert(store@.take(store.rows.len() as int) == store@);
        lemma_filter_ordered(store@, wanted);
    }
    logs
}

/// Whether the entry is older than the retention allows at the time `now`.
fn has_expired(entry: &AppLog, now: i64) -> (expired: bool)
    ensures
        expired == is_expired(entry@, now),
{
    (entry.created_at as i128) < (now as i128) - (RETENTION_MICROS as i128)
}

/// Removes the entries that are older than 7 days at the time `now`, and
/// returns their ids, in the order of the store.
pub fn delete_old_logs(store: &mut LogStore, now: i64) -> (removed: Vec<i64>)
    ensures
        final(store)@ == unexpired(old(store)@, now),
        removed@ == expired_ids(old(store)@, now),
        final(store).next_id() == old(store).next_id(),
        ordered(final(store)@),
{
    proof {
        use_type_invariant(&*store);
    }
    let ghost logs = store@;
    let ghost fresh = |l: AppLogView| !is_expired(l, now);
    let ghost stale = |l: AppLogView| is_expired(l, now);
    let ghost ids = |l: AppLogView| l.id;
    let mut kept: Vec<AppLog> = Vec::new();
    let mut removed: Vec<i64> = Vec::new();
    let mut i: usize = 0;
    proof {
        assert(logs.take(0) =~= Seq::<AppLogView>::empty());
        lemma_filter_empty(fresh);
        lemma_filter_empty(stale);
        assert(log_views(kept@) =~= Seq::<AppLogView>::empty());
        assert(removed@ =~= Seq::<AppLogView>::empty().map_values(ids));
    }
    while i < store.rows.len()
        invariant
            i <= store.rows.len(),
            store@ == logs,
            store.next_id() == old(store).next_id(),
            fresh == |l: AppLogView| !is_expired(l, now),
            stale == |l: AppLogView| is_expired(l, now),
            ids == |l: AppLogView| l.id,
            log_views(kept@) == logs.take(i as int).filter(fresh),
            removed@ == logs.take(i as int).filter(stale).map_values(ids),
        decreases store.rows.len() - i,
    {
        proof {
            lemma_filter_step(logs, i as int, fresh);
            lemma_filter_step(logs, i as int, stale);
        }
        if has_expired(&store.rows[i], now) {
            let ghost before = removed@;
            removed.push(store.rows[i].id);
            assert(removed@ =~= logs.take(i + 1).filter(stale).map_values(ids));
        } else {
            let ghost before = log_views(kept@);
            kept.push(store.rows[i].clone());
            assert(log_views(kept@) =~= before.push(logs[i as int]));
        }
        i += 1;
    }
    proof {
        assert(logs.take(store.rows.len() as int) == logs);
        lemma_filter_ordered(logs, fresh);
    }
    store.rows = kept;
    removed
}

/// What is left after trimming is made of entries of the store.
pub proof fn lemma_trimmed_members(logs: Seq<AppLogView>)
    ensures
        forall|k: int| 0 <= k < trimmed(logs).len() ==> logs.contains(#[trigger] trimmed(logs)[k]),
    decreases logs.len(),
{
    if logs.len() > 0 {
        let rest = logs.drop_first();
        lemma_trimmed_members(rest);
        assert forall|k: int| 0 <= k < trimmed(logs).len() implies logs.contains(
            #[trigger] trimmed(logs)[k],
        ) by {
            let entry = trimmed(logs)[k];
            if !front_is_excess(logs) && k == 0 {
                assert(logs[0] == entry);
            } else {
                let m = if front_is_excess(logs) {
                    k
                } else {
                    k - 1
                };
                assert(trimmed(rest)[m] == entry);
                let j = choose|j: int| 0 <= j < rest.len() && rest[j] == entry;
                assert(logs[j + 1] == entry);
            }
        }
    }
}

/// What is left after trimming entries that stand in order stands in
/// order.
pub proof fn lemma_trimmed_ordered(logs: Seq<AppLogView>)
    requires
        ordered(logs),
    ensures
        ordered(trimmed(logs)),
    decreases logs.len(),
{
    if logs.len() > 0 {
        let rest = logs.drop_first();
        assert(ordered(rest)) by {
            assert forall|i: int, j: int| 0 <= i < j < rest.len() implies in_order(
                #[trigger] rest[i],
                #[trigger] rest[j],
            ) by {
                assert(rest[i] == logs[i + 1] && rest[j] == logs[j + 1]);
            }
        }
        lemma_trimmed_ordered(rest);
        lemma_trimmed_members(rest);
        if !front_is_excess(logs) {
            let all = trimmed(logs);
            assert forall|i: int, j: int| 0 <= i < j < all.len() implies in_order(
                #[trigger] all[i],
                #[trigger] all[j],
            ) by {
                assert(all[j] == trimmed(rest)[j - 1]);
                if i == 0 {
                    let m = choose|m: int| 0 <= m < rest.len() && rest[m] == trimmed(rest)[j - 1];
                    assert(logs[m + 1] == all[j]);
                    assert(in_order(logs[0], logs[m + 1]));
                } else {
                    assert(all[i] == trimmed(rest)[i - 1]);
                }
            }
        }
    }
}

/// Removes the entries in excess, so that each application keeps its
/// newest 1000 entries at most, and returns the ids of the entries removed,
/// in the order of the store.
pub fn trim_logs_per_app(store: &mut LogStore) -> (removed: Vec<i64>)
    ensures
        final(store)@ == trimmed(old(store)@),
        removed@ == excess_ids(old(store)@),
        final(store).next_id() == old(store).next_id(),
        ordered(final(store)@),
{
    proof {
        use_type_invariant(&*store);
    }
    let ghost logs = store@;
    let mut kept: Vec<AppLog> = Vec::new();
    let mut removed: Vec<i64> = Vec::new();
    let mut i: usize = 0;
    proof {
        assert(logs.skip(0) == logs);
        assert(log_views(kept@) =~= Seq::<AppLogView>::empty());
        assert(log_views(kept@) + trimmed(logs) == trimmed(logs));
        assert(removed@ + excess_ids(logs) == excess_ids(logs));
    }
    while i < store.rows.len()
        invariant
            i <= store.rows.len(),
            store@ == logs,
            logs == log_views(store.rows@),
            store.next_id() == old(store).next_id(),
            trimmed(logs) == log_views(kept@) + trimmed(logs.skip(i as int)),
            excess_ids(logs) == removed@ + excess_ids(logs.skip(i as int)),
        decreases store.rows.len() - i,
    {
        let ghost rest = logs.skip(i as int);
        proof {
            assert(rest[0] == logs[i as int]);
            assert(rest.drop_first() == logs.skip(i + 1));
        }
        let behind = count_behind(&store.rows, i + 1, store.rows[i].app_id, MAX_LOGS_PER_APP);
        if behind >= MAX_LOGS_PER_APP {
            let ghost before = removed@;
            removed.push(store.rows[i].id);
            assert(removed@ + excess_ids(logs.skip(i + 1)) =~= before + excess_ids(rest));
        } else {
            let ghost before = log_views(kept@);
            kept.push(store.rows[i].clone());
            assert(log_views(kept@) =~= before.push(logs[i as int]));
            assert(log_views(kept@) + trimmed(logs.skip(i + 1)) =~= before + trimmed(rest));
        }
        i += 1;
    }
    proof {
        assert(logs.skip(store.rows.len() as int) =~= Seq::<AppLogView>::empty());
        assert(log_views(kept@) + Seq::<AppLogView>::empty() == log_views(kept@));
        assert(removed@ + Seq::<i64>::empty() == removed@);
        lemma_trimmed_ordered(logs);
    }
    store.rows = kept;
    removed
}

/// What a retention cycle removed.
#[derive(Debug)]
pub struct Cleanup {
    /// The ids of the entries that were older than 7 days.
    pub expired: Vec<i64>,
    /// The ids of the entries that were in excess among the others.
    pub excess: Vec<i64>,
}

/// The entries after a retention cycle at the time `now`: those not older
/// than 7 days, trimmed to the newest 1000 of each application.
pub open spec fn cleaned(logs: Seq<AppLogView>, now: i64) -> Seq<AppLogView> {
    trimmed(unexpired(logs, now))
}

/// Runs a retention cycle at the time `now`: removes the entries older
/// than 7 days, then those in excess, and tells which entries it removed.
pub fn cleanup_logs(store: &mut LogStore, now: i64) -> (removed: Cleanup)
    ensures
        final(store)@ == cleaned(old(store)@, now),
        removed.expired@ == expired_ids(old(store)@, now),
        removed.excess@ == excess_ids(unexpired(old(store)@, now)),
        final(store).next_id() == old(store).next_id(),
        ordered(final(store)@),
{
    let expired = delete_old_logs(store, now);
    let excess = trim_logs_per_app(store);
    Cleanup { expired, excess }
}

} // verus!
