//! The application records of the registry.
//!
//! An [`AppStore`] holds the records in the order in which they were
//! stored. Its view is the sequence of their views; every operation is
//! stated over that sequence.

use crate::model::{AppStatus, Application, ApplicationView, PatchApplication, PatchView};
use crate::seqs::{
    kept_positions, lemma_filter_empty, lemma_filter_is_subsequence, lemma_filter_step,
};
use crate::text::{decimal_text, push_decimal, push_text};
use crate::wire::app_views;
use vstd::prelude::*;

verus! {

/// Why the store refused a request.
#[derive(Clone, Copy, Debug, PartialEq, Eq, Structural)]
pub enum StoreError {
    /// No record has the identifier asked for.
    RowNotFound,
    /// A record with the identifier is stored already.
    DuplicateId,
    /// A query asked for a negative number of rows.
    NegativeLimit,
}

/// The application records of the registry.
#[derive(Debug)]
pub struct AppStore {
    rows: Vec<Application>,
}

impl View for AppStore {
    type V = Seq<ApplicationView>;

    closed spec fn view(&self) -> Seq<ApplicationView> {
        app_views(self.rows@)
    }
}

/// Some record that is not stopped has the port.
pub open spec fn port_held(apps: Seq<ApplicationView>, port: i32) -> bool {
    exists|i: int| 0 <= i < apps.len() && (#[trigger] apps[i]).holds(port)
}

/// Some record has the identifier.
pub open spec fn has_id(apps: Seq<ApplicationView>, id: u128) -> bool {
    exists|i: int| 0 <= i < apps.len() && (#[trigger] apps[i]).id == Some(id)
}

/// The first record with the identifier, if there is one.
pub open spec fn record_of(apps: Seq<ApplicationView>, id: u128) -> Option<ApplicationView>
    decreases apps.len(),
{
    if apps.len() == 0 {
        None
    } else if apps[0].id == Some(id) {
        Some(apps[0])
    } else {
        record_of(apps.drop_first(), id)
    }
}

/// Every record has an identifier and no two records share one.
pub open spec fn well_formed(apps: Seq<ApplicationView>) -> bool {
    &&& forall|i: int| 0 <= i < apps.len() ==> (#[trigger] apps[i]).id is Some
    &&& forall|i: int, j: int|
        0 <= i < j < apps.len() ==> (#[trigger] apps[i]).id != (#[trigger] apps[j]).id
}

/// The record as it is stored under `id`: with that identifier and without
/// a process id.
pub open spec fn stored_form(app: ApplicationView, id: u128) -> ApplicationView {
    ApplicationView { id: Some(id), pid: None, ..app }
}

/// The records after the patch was merged into each record with the
/// identifier.
pub open spec fn patched(apps: Seq<ApplicationView>, id: u128, patch: PatchView) -> Seq<
    ApplicationView,
> {
    apps.map_values(
        |a: ApplicationView|
            if a.id == Some(id) {
                patch.applied_to(a)
            } else {
                a
            },
    )
}

/// The records after the process id was taken from each record with the
/// identifier.
pub open spec fn pid_cleared(apps: Seq<ApplicationView>, id: u128) -> Seq<ApplicationView> {
    apps.map_values(
        |a: ApplicationView|
            if a.id == Some(id) {
                ApplicationView { pid: None, ..a }
            } else {
                a
            },
    )
}

/// The records without those that have the identifier, in the same order.
pub open spec fn without(apps: Seq<ApplicationView>, id: u128) -> Seq<ApplicationView> {
    apps.filter(|a: ApplicationView| a.id != Some(id))
}

/// The records with every status set to `STOPPED`.
pub open spec fn all_stopped(apps: Seq<ApplicationView>) -> Seq<ApplicationView> {
    apps.map_values(|a: ApplicationView| ApplicationView { status: AppStatus::STOPPED, ..a })
}

/// How many records are not stopped.
pub open spec fn live_count(apps: Seq<ApplicationView>) -> nat {
    apps.filter(|a: ApplicationView| a.status != AppStatus::STOPPED).len()
}

/// What [`record_of`] finds has the identifier and is a record of the
/// store; it finds one exactly when some record has the identifier.
pub proof fn lemma_record_of(apps: Seq<ApplicationView>, id: u128)
    ensures
        record_of(apps, id) is Some <==> has_id(apps, id),
        record_of(apps, id) matches Some(found) ==> found.id == Some(id) && apps.contains(found),
    decreases apps.len(),
{
    if apps.len() > 0 {
        if apps[0].id == Some(id) {
            assert(apps.contains(apps[0]));
        } else {
            let rest = apps.drop_first();
            lemma_record_of(rest, id);
            if has_id(apps, id) {
                let i = choose|i: int| 0 <= i < apps.len() && (#[trigger] apps[i]).id == Some(id);
                assert(rest[i - 1] == apps[i]);
            }
            if has_id(rest, id) {
                let i = choose|i: int| 0 <= i < rest.len() && (#[trigger] rest[i]).id == Some(id);
                assert(apps[i + 1] == rest[i]);
            }
            if let Some(found) = record_of(rest, id) {
                let i = choose|i: int| 0 <= i < rest.len() && rest[i] == found;
                assert(apps[i + 1] == found);
            }
        }
    }
}

impl AppStore {
    /// The store without a record.
    pub fn new() -> (store: AppStore)
        ensures
            store@ == Seq::<ApplicationView>::empty(),
    {
        let store = AppStore { rows: Vec::new() };
        assert(store@ =~= Seq::<ApplicationView>::empty());
        store
    }

    /// The store that holds the given records, in their order.
    pub fn from_rows(rows: Vec<Application>) -> (store: AppStore)
        ensures
            store@ == app_views(rows@),
    {
        AppStore { rows }
    }

    /// How many records the store holds.
    pub fn len(&self) -> (count: usize)
        ensures
            count == self@.len(),
    {
        self.rows.len()
    }

    /// The position of the first record with the identifier.
    fn position(&self, id: u128) -> (found: Option<usize>)
        ensures
            match found {
                Some(at) => at < self@.len() && record_of(self@, id) == Some(self@[at as int])
                    && self@[at as int].id == Some(id),
                None => record_of(self@, id) is None,
            },
    {
        let mut i: usize = 0;
        assert(self@.skip(0) == self@);
        while i < self.rows.len()
            invariant
                i <= self.rows.len(),
                record_of(self@, id) == record_of(self@.skip(i as int), id),
            decreases self.rows.len() - i,
        {
            assert(self@.skip(i as int)[0] == self@[i as int]);
            assert(self@.skip(i as int).drop_first() == self@.skip(i + 1));
            if self.rows[i].id == Some(id) {
                return Some(i);
            }
            i += 1;
        }
        None
    }
}

/// Whether some application that is not stopped holds the port.
pub fn is_port_in_use(store: &AppStore, port: i32) -> (held: bool)
    ensures
        held == port_held(store@, port),
{
    let mut i: usize = 0;
    while i < store.rows.len()
        invariant
            i <= store.rows.len(),
            forall|j: int| 0 <= j < i ==> !(#[trigger] store@[j]).holds(port),
        decreases store.rows.len() - i,
    {
        if store.rows[i].port == port && store.rows[i].status.is_holding_port() {
            assert(store@[i as int].holds(port));
            return true;
        }
        i += 1;
    }
    false
}

/// Stores the record under `id`, without a process id, behind the records
/// stored before. A record with that identifier must not be stored yet.
pub fn insert_application(store: &mut AppStore, app: &Application, id: u128) -> (stored: Result<
    u128,
    StoreError,
>)
    ensures
        has_id(old(store)@, id) ==> stored == Err::<u128, StoreError>(StoreError::DuplicateId)
            && final(store)@ == old(store)@,
        !has_id(old(store)@, id) ==> stored == Ok::<u128, StoreError>(id) && final(store)@ == old(
            store,
        )@.push(stored_form(app@, id)),
{
    proof {
        lemma_record_of(store@, id);
    }
    if store.position(id).is_some() {
        return Err(StoreError::DuplicateId);
    }
    let mut record = app.clone();
    record.id = Some(id);
    record.pid = None;
    store.rows.push(record);
    assert(store@ =~= old(store)@.push(stored_form(app@, id)));
    Ok(id)
}

/// A copy of every record, in the order of the store.
pub fn get_applications(store: &AppStore) -> (apps: Vec<Application>)
    ensures
        app_views(apps@) == store@,
{
    let mut apps: Vec<Application> = Vec::new();
    let mut i: usize = 0;
    while i < store.rows.len()
        invariant
            i <= store.rows.len(),
            apps.len() == i,
            forall|j: int| 0 <= j < i ==> (#[trigger] apps@[j])@ == store@[j],
        decreases store.rows.len() - i,
    {
        apps.push(store.rows[i].clone());
        i += 1;
    }
    assert(app_views(apps@) =~= store@);
    apps
}

/// A copy of the record with the identifier.
pub fn get_application(store: &AppStore, id: u128) -> (found: Result<Application, StoreError>)
    ensures
        match found {
            Ok(app) => record_of(store@, id) == Some(app@),
            Err(e) => e == StoreError::RowNotFound && record_of(store@, id) is None,
        },
{
    match store.position(id) {
        Some(at) => Ok(store.rows[at].clone()),
        None => Err(StoreError::RowNotFound),
    }
}

/// Takes the process id from the record with the identifier.
pub fn clear_pid(store: &mut AppStore, id: u128)
    ensures
        final(store)@ == pid_cleared(old(store)@, id),
{
    let mut i: usize = 0;
    while i < store.rows.len()
        invariant
            i <= store.rows.len(),
            store@.len() == old(store)@.len(),
            forall|j: int| 0 <= j < i ==> #[trigger] store@[j] == pid_cleared(old(store)@, id)[j],
            forall|j: int| i <= j < store@.len() ==> #[trigger] store@[j] == old(store)@[j],
        decreases store.rows.len() - i,
    {
        let ghost before = store@;
        assert(before[i as int] == store.rows@[i as int]@);
        assert(before[i as int] == old(store)@[i as int]);
        if store.rows[i].id == Some(id) {
            let mut record = store.rows[i].clone();
            record.pid = None;
            store.rows.set(i, record);
            assert(store@ =~= before.update(i as int, record@));
        }
        i += 1;
    }
    assert(store@ =~= pid_cleared(old(store)@, id));
}

/// Merges the patch into the record with the identifier: each field that
/// the patch supplies replaces the record's, every other field stays.
/// Where no record has the identifier nothing changes.
pub fn patch_application(store: &mut AppStore, id: u128, patch: &PatchApplication)
    ensures
        final(store)@ == patched(old(store)@, id, patch@),
{
    let mut i: usize = 0;
    while i < store.rows.len()
        invariant
            i <= store.rows.len(),
            store@.len() == old(store)@.len(),
            forall|j: int|
                0 <= j < i ==> #[trigger] store@[j] == patched(old(store)@, id, patch@)[j],
            forall|j: int| i <= j < store@.len() ==> #[trigger] store@[j] == old(store)@[j],
        decreases store.rows.len() - i,
    {
        let ghost before = store@;
        assert(before[i as int] == store.rows@[i as int]@);
        assert(before[i as int] == old(store)@[i as int]);
        if store.rows[i].id == Some(id) {
            let mut record = store.rows[i].clone();
            patch.apply(&mut record);
            store.rows.set(i, record);
            assert(store@ =~= before.update(i as int, record@));
        }
        i += 1;
    }
    assert(store@ =~= patched(old(store)@, id, patch@));
}

/// Removes the record with the identifier.
pub fn delete_application(store: &mut AppStore, id: u128)
    ensures
        final(store)@ == without(old(store)@, id),
{
    let mut kept: Vec<Application> = Vec::new();
    let mut i: usize = 0;
    let ghost keep = |a: ApplicationView| a.id != Some(id);
    assert(store@.take(0).filter(keep) =~= Seq::<ApplicationView>::empty()) by {
        assert(store@.take(0) =~= Seq::<ApplicationView>::empty());
        lemma_filter_empty(keep);
    }
    assert(app_views(kept@) =~= Seq::<ApplicationView>::empty());
    while i < store.rows.len()
        invariant
            i <= store.rows.len(),
            store@ == old(store)@,
            keep == |a: ApplicationView| a.id != Some(id),
            app_views(kept@) == store@.take(i as int).filter(keep),
        decreases store.rows.len() - i,
    {
        proof {
            lemma_filter_step(store@, i as int, keep);
        }
        if store.rows[i].id != Some(id) {
            let ghost before = app_views(kept@);
            kept.push(store.rows[i].clone());
            assert(app_views(kept@) =~= before.push(store@[i as int]));
        }
        i += 1;
    }
    assert(store@.take(store@.len() as int) == store@);
    store.rows = kept;
}

/// Marks every application that is not stopped as stopped, and tells how
/// many it marked. The registry does so when it starts: it knows nothing
/// of the processes that an earlier run of it tracked.
pub fn mark_stale_apps_stopped(store: &mut AppStore) -> (marked: u64)
    ensures
        final(store)@ == all_stopped(old(store)@),
        marked == live_count(old(store)@),
{
    let mut marked: u64 = 0;
    let mut i: usize = 0;
    let ghost live = |a: ApplicationView| a.status != AppStatus::STOPPED;
    proof {
        assert(old(store)@.take(0) =~= Seq::<ApplicationView>::empty());
        lemma_filter_empty(live);
    }
    while i < store.rows.len()
        invariant
            i <= store.rows.len(),
            store@.len() == old(store)@.len(),
            live == |a: ApplicationView| a.status != AppStatus::STOPPED,
            forall|j: int| 0 <= j < i ==> #[trigger] store@[j] == all_stopped(old(store)@)[j],
            forall|j: int| i <= j < store@.len() ==> #[trigger] store@[j] == old(store)@[j],
            marked == old(store)@.take(i as int).filter(live).len(),
            marked <= i,
        decreases store.rows.len() - i,
    {
        let ghost before = store@;
        assert(before[i as int] == store.rows@[i as int]@);
        assert(before[i as int] == old(store)@[i as int]);
        proof {
            lemma_filter_step(old(store)@, i as int, live);
        }
        if !matches!(store.rows[i].status, AppStatus::STOPPED) {
            let mut record = store.rows[i].clone();
            record.status = AppStatus::STOPPED;
            store.rows.set(i, record);
            assert(store@ =~= before.update(i as int, record@));
            marked += 1;
        }
        i += 1;
    }
    assert(old(store)@.take(old(store)@.len() as int) == old(store)@);
    assert(store@ =~= all_stopped(old(store)@));
    marked
}

/// The names of the columns that a patch supplies, in the order in which
/// an update statement sets them.
pub open spec fn supplied_columns(patch: PatchView) -> Seq<Seq<char>> {
    (if patch.name is Some { seq!["name"@] } else { seq![] })
        + (if patch.command is Some { seq!["command"@] } else { seq![] })
        + (if patch.status is Some { seq!["status"@] } else { seq![] })
        + (if patch.port is Some { seq!["port"@] } else { seq![] })
        + (if patch.working_dir is Some { seq!["working_dir"@] } else { seq![] })
        + (if patch.pid is Some { seq!["pid"@] } else { seq![] })
        + (if patch.env_vars is Some { seq!["env_vars"@] } else { seq![] })
}

/// The assignments of an update statement: `column = $k` for the `k`-th
/// column, counted from 1, with `, ` between two of them.
pub open spec fn assignments(columns: Seq<Seq<char>>) -> Seq<char>
    decreases columns.len(),
{
    if columns.len() == 0 {
        Seq::empty()
    } else {
        assignments(columns.drop_last()) + (if columns.len() > 1 { ", "@ } else { Seq::empty() })
            + columns.last() + " = $"@ + decimal_text(columns.len())
    }
}

/// The statement that writes a patch to the table of applications: it sets
/// the columns that the patch supplies, each from the parameter of its
/// position, and takes the identifier as the parameter after them. A patch
/// that supplies nothing needs no statement.
pub open spec fn update_statement(patch: PatchView) -> Option<Seq<char>> {
    let columns = supplied_columns(patch);
    if columns.len() == 0 {
        None
    } else {
        Some(
            "UPDATE apps SET "@ + assignments(columns) + " WHERE id =$"@ + decimal_text(
                columns.len() + 1,
            ),
        )
    }
}

/// Writes the statement that sets the given columns.
fn statement_for(columns: &Vec<&'static str>) -> (text: String)
    requires
        0 < columns.len() <= 7,
    ensures
        text@ == "UPDATE apps SET "@ + assignments(column_names(columns@)) + " WHERE id =$"@
            + decimal_text(columns.len() as nat + 1),
{
    let ghost names = column_names(columns@);
    let mut text = String::new();
    push_text(&mut text, "UPDATE apps SET ");
    let mut i: usize = 0;
    assert(names.take(0) =~= Seq::<Seq<char>>::empty());
    assert(text@ =~= "UPDATE apps SET "@ + assignments(names.take(0)));
    while i < columns.len()
        invariant
            i <= columns.len() <= 7,
            names == column_names(columns@),
            text@ == "UPDATE apps SET "@ + assignments(names.take(i as int)),
        decreases columns.len() - i,
    {
        let ghost before = text@;
        if i > 0 {
            push_text(&mut text, ", ");
        }
        push_text(&mut text, columns[i]);
        push_text(&mut text, " = $");
        push_decimal(&mut text, (i + 1) as u64);
        proof {
            let longer = names.take(i + 1);
            assert(longer.drop_last() == names.take(i as int));
            assert(longer.last() == columns@[i as int]@);
            assert(text@ =~= "UPDATE apps SET "@ + assignments(longer));
        }
        i += 1;
    }
    assert(names.take(columns.len() as int) == names);
    push_text(&mut text, " WHERE id =$");
    push_decimal(&mut text, (columns.len() + 1) as u64);
    text
}

/// The names held in a list of columns.
pub open spec fn column_names(columns: Seq<&'static str>) -> Seq<Seq<char>> {
    columns.map_values(|c: &'static str| c@)
}

/// Adds the column to the list if the patch supplies it.
fn note_column(columns: &mut Vec<&'static str>, supplied: bool, name: &'static str)
    ensures
        column_names(final(columns)@) == column_names(old(columns)@) + if supplied {
            seq![name@]
        } else {
            seq![]
        },
{
    if supplied {
        columns.push(name);
    }
    assert(column_names(columns@) =~= column_names(old(columns)@) + if supplied {
        seq![name@]
    } else {
        seq![]
    });
}

/// The statement that writes the patch to the table of applications, if
/// the patch supplies anything.
pub fn patch_statement(patch: &PatchApplication) -> (statement: Option<String>)
    ensures
        crate::model::text_view(statement) == update_statement(patch@),
{
    let mut columns: Vec<&'static str> = Vec::new();
    note_column(&mut columns, patch.name.is_some(), "name");
    assert(column_names(columns@) =~= if patch@.name is Some {
        seq!["name"@]
    } else {
        seq![]
    });
    note_column(&mut columns, patch.command.is_some(), "command");
    note_column(&mut columns, patch.status.is_some(), "status");
    note_column(&mut columns, patch.port.is_some(), "port");
    note_column(&mut columns, patch.working_dir.is_some(), "working_dir");
    note_column(&mut columns, patch.pid.is_some(), "pid");
    note_column(&mut columns, patch.env_vars.is_some(), "env_vars");
    assert(column_names(columns@) == supplied_columns(patch@));
    if columns.len() == 0 {
        None
    } else {
        assert(columns.len() <= 7) by {
            assert(supplied_columns(patch@).len() <= 7);
        }
        Some(statement_for(&columns))
    }
}

/// Every operation of the store keeps it well formed: a store in which
/// every record has an identifier of its own stays so when a record is
/// stored under a new identifier, when a patch is merged, when a process id
/// is taken away, when a record goes, and when all are marked as stopped.
pub proof fn law_store_stays_well_formed(
    apps: Seq<ApplicationView>,
    app: ApplicationView,
    id: u128,
    patch: PatchView,
)
    requires
        well_formed(apps),
    ensures
        !has_id(apps, id) ==> well_formed(apps.push(stored_form(app, id))),
        well_formed(patched(apps, id, patch)),
        well_formed(pid_cleared(apps, id)),
        well_formed(without(apps, id)),
        well_formed(all_stopped(apps)),
{
    let kept = without(apps, id);
    let keep = |a: ApplicationView| a.id != Some(id);
    assert(well_formed(kept)) by {
        lemma_filter_is_subsequence(apps, keep);
        let at = kept_positions(apps, keep);
        assert forall|i: int| 0 <= i < kept.len() implies (#[trigger] kept[i]).id is Some by {
            assert(kept[i] == apps[at[i]]);
        }
        assert forall|i: int, j: int| 0 <= i < j < kept.len() implies (#[trigger] kept[i]).id != (
            #[trigger] kept[j]
        ).id by {
            assert(kept[i] == apps[at[i]]);
            assert(kept[j] == apps[at[j]]);
            assert(at[i] < at[j]);
        }
    }
}

} // verus!
