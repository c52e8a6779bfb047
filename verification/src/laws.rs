//! What holds of the operations taken together, proved of the table as a
//! mathematical value. Each statement speaks of the functions that the
//! contracts of the operations are written in.
use vstd::prelude::*;
use std::path::PathBuf;
use crate::cali_error::{CalendarExistsError, CaliError};
use crate::calendar::{created, CalendarView};
use crate::database::found;
use crate::event::{EventView, Recurring};
use crate::filters::{
    lemma_filter_implied, lemma_filter_keeps_elements, lemma_filter_none, lemma_filters_commute,
};
use crate::identifier::parsed_uuid;
use crate::row::RowView;
use crate::table::{
    default_name, event_of, has_calendar, has_flagged, is_default, lemma_default_name_sole,
    not_calendar, not_event, row_of, selected, selector, selects, with_default, with_renamed,
    with_replaced, without_calendar, without_event,
};
use crate::text::{folded, occurs_at};

verus! {

/// A name is taken once an event is stored under it: after a calendar was
/// created and an event added to it, creating a calendar of that name
/// fails with `CalendarExists`. (Creating stores no row; until an event is
/// added the name is still free.)
pub proof fn law_name_is_taken_once_used(
    rows: Seq<RowView>,
    name: Seq<char>,
    path: PathBuf,
    event: EventView,
)
    requires
        created(rows, name, path) is Ok,
    ensures
        created(rows.push(row_of(created(rows, name, path)->Ok_0, event)), name, path) == Err::<
            CalendarView,
            CaliError,
        >(CaliError::CalendarExists(CalendarExistsError)),
{
    let calendar = created(rows, name, path)->Ok_0;
    let after = rows.push(row_of(calendar, event));
    assert(after[rows.len() as int].calendar_name == name);
}

/// A name stays taken as long as a row belongs to it, whatever else the
/// table holds.
pub proof fn law_taken_name_is_refused(rows: Seq<RowView>, name: Seq<char>, path: PathBuf)
    requires
        has_calendar(rows, name),
    ensures
        created(rows, name, path) == Err::<CalendarView, CaliError>(
            CaliError::CalendarExists(CalendarExistsError),
        ),
{
}

/// On an empty table the calendar that is created is the default.
pub proof fn law_first_calendar_is_default(name: Seq<char>, path: PathBuf)
    ensures
        created(Seq::<RowView>::empty(), name, path) == Ok::<CalendarView, CaliError>(
            CalendarView { name, default: true, path },
        ),
{
}

/// A calendar that is created while some calendar is the default is not
/// the default.
pub proof fn law_later_calendar_is_not_default(rows: Seq<RowView>, name: Seq<char>, path: PathBuf)
    requires
        default_name(rows) matches Ok(Some(_)),
        created(rows, name, path) is Ok,
    ensures
        created(rows, name, path) == Ok::<CalendarView, CaliError>(
            CalendarView { name, default: false, path },
        ),
{
}

/// From an empty table: the first calendar is the default, and once it
/// holds an event, every calendar of another name that is created is not.
pub proof fn law_single_default_on_creation(
    first: Seq<char>,
    second: Seq<char>,
    path: PathBuf,
    event: EventView,
)
    requires
        first != second,
    ensures
        ({
            let calendar = created(Seq::<RowView>::empty(), first, path)->Ok_0;
            let rows = Seq::<RowView>::empty().push(row_of(calendar, event));
            &&& calendar.default
            &&& default_name(rows) == Ok::<Option<Seq<char>>, CaliError>(Some(first))
            &&& created(rows, second, path) == Ok::<CalendarView, CaliError>(
                CalendarView { name: second, default: false, path },
            )
        }),
{
    let calendar = created(Seq::<RowView>::empty(), first, path)->Ok_0;
    let rows = Seq::<RowView>::empty().push(row_of(calendar, event));
    assert(rows[0].is_default && rows[0].calendar_name == first);
    lemma_default_name_sole(rows, 0);
}

/// After a calendar that exists was made the default, it is the default,
/// and no other calendar is flagged.
pub proof fn law_default_transfer(rows: Seq<RowView>, name: Seq<char>)
    requires
        has_calendar(rows, name),
    ensures
        default_name(with_default(rows, name)) == Ok::<Option<Seq<char>>, CaliError>(Some(name)),
        is_default(with_default(rows, name), name),
        forall|other: Seq<char>| other != name ==> !is_default(with_default(rows, name), other),
{
    let after = with_default(rows, name);
    let k = choose|k: int| 0 <= k < rows.len() && (#[trigger] rows[k]).calendar_name == name;
    assert(after[k].is_default && after[k].calendar_name == name);
    lemma_default_name_sole(after, k);
}

/// After a name that no row belongs to was made the default, no calendar
/// is the default.
pub proof fn law_default_of_missing_calendar(rows: Seq<RowView>, name: Seq<char>)
    requires
        !has_calendar(rows, name),
    ensures
        default_name(with_default(rows, name)) == Ok::<Option<Seq<char>>, CaliError>(None),
        forall|other: Seq<char>| !is_default(with_default(rows, name), other),
{
    let after = with_default(rows, name);
    assert forall|i: int| 0 <= i < after.len() implies !(#[trigger] after[i]).is_default by {
        assert(rows[i].calendar_name != name);
    }
}

/// Making a calendar the default changes nothing but the flags, so the
/// same calendars exist afterwards.
pub proof fn law_default_keeps_calendars(rows: Seq<RowView>, name: Seq<char>, other: Seq<char>)
    ensures
        has_calendar(with_default(rows, name), other) == has_calendar(rows, other),
{
    let after = with_default(rows, name);
    if has_calendar(rows, other) {
        let k = choose|k: int| 0 <= k < rows.len() && (#[trigger] rows[k]).calendar_name == other;
        assert(after[k].calendar_name == other);
    }
    if has_calendar(after, other) {
        let k = choose|k: int| 0 <= k < after.len() && (#[trigger] after[k]).calendar_name == other;
        assert(rows[k].calendar_name == other);
    }
}

/// On a table without rows no calendar is the default, whatever its name.
pub proof fn law_empty_table_has_no_default(name: Seq<char>)
    ensures
        default_name(Seq::<RowView>::empty()) == Ok::<Option<Seq<char>>, CaliError>(None),
        !is_default(Seq::<RowView>::empty(), name),
        !has_calendar(Seq::<RowView>::empty(), name),
{
}

/// The row of an event reads back as the event.
pub proof fn law_stored_event_reads_back(calendar: CalendarView, event: EventView)
    requires
        event.storable(),
    ensures
        event_of(row_of(calendar, event)) == Ok::<EventView, CaliError>(event),
{
    event.recurring.lemma_decode_text();
}

/// Reading a row fails only on its identifier: whatever the text of the
/// recurrence, the row reads as an event where the identifier is well
/// formed, and a text that is not the text of a recurring tag reads as
/// `No`.
pub proof fn law_unknown_recurrence_reads_as_no(row: RowView)
    ensures
        event_of(row) is Ok <==> parsed_uuid(row.event_id) is Some,
        row.event_recurring != Recurring::Daily.text() && row.event_recurring
            != Recurring::Weekly.text() && row.event_recurring != Recurring::Monthly.text()
            && row.event_recurring != Recurring::Yearly.text() ==> Recurring::decode(
            row.event_recurring,
        ) == Recurring::No,
{
}

/// An update is read back: where an event was stored and then rewritten
/// with changed fields under the same identifier, the row stands where it
/// stood, is found by a search for the very name in its calendar, and
/// reads as the changed event.
pub proof fn law_update_round_trip(
    rows: Seq<RowView>,
    calendar: CalendarView,
    event: EventView,
    changed: EventView,
)
    requires
        event.storable(),
        changed.id == event.id,
    ensures
        ({
            let stored = rows.push(row_of(calendar, event));
            let after = with_replaced(stored, row_of(calendar, changed));
            &&& after.len() == stored.len()
            &&& after.last() == row_of(calendar, changed)
            &&& selects(calendar.name, changed.name, true, after.last())
            &&& event_of(after.last()) == Ok::<EventView, CaliError>(changed)
        }),
{
    law_stored_event_reads_back(calendar, changed);
}

/// An update is read back exactly: where the table held no row with the
/// identifier of the event and the calendar none with the name that the
/// changed event has, the search for that very name gives the changed
/// event and nothing else.
pub proof fn law_update_then_exact_search(
    rows: Seq<RowView>,
    calendar: CalendarView,
    event: EventView,
    changed: EventView,
)
    requires
        event.storable(),
        changed.id == event.id,
        forall|i: int| 0 <= i < rows.len() ==> (#[trigger] rows[i]).event_id != row_of(
            calendar,
            event,
        ).event_id,
        forall|i: int|
            0 <= i < rows.len() ==> !selects(calendar.name, changed.name, true, #[trigger] rows[i]),
    ensures
        found(
            Some(with_replaced(rows.push(row_of(calendar, event)), row_of(calendar, changed))),
            calendar.name,
            changed.name,
            true,
        ) == Ok::<Seq<EventView>, CaliError>(seq![changed]),
{
    let keep = selector(calendar.name, changed.name, true);
    let row = row_of(calendar, changed);
    let stored = rows.push(row_of(calendar, event));
    let after = with_replaced(stored, row);
    law_stored_event_reads_back(calendar, changed);
    assert(after =~= rows.push(row));
    lemma_filter_none(rows, keep);
    reveal(Seq::filter);
    assert(rows.push(row).drop_last() =~= rows);
    let hits = after.filter(keep);
    assert(hits =~= seq![row]);
    assert(hits.map_values(|row: RowView| event_of(row)->Ok_0) =~= seq![changed]);
}

/// Removing an event takes its rows out of every search and nothing else:
/// a search after the removal gives what it gave before, without the rows
/// of that calendar and identifier.
pub proof fn law_search_after_removal(
    rows: Seq<RowView>,
    calendar_name: Seq<char>,
    event_id: Seq<char>,
    searched: Seq<char>,
    query: Seq<char>,
    exact: bool,
)
    ensures
        selected(without_event(rows, calendar_name, event_id), searched, query, exact)
            == selected(rows, searched, query, exact).filter(not_event(calendar_name, event_id)),
{
    lemma_filters_commute(
        rows,
        not_event(calendar_name, event_id),
        selector(searched, query, exact),
    );
}

/// Removing one of two events leaves the other: where a search in a
/// calendar gave two events with different identifiers, the same search
/// after the second was removed gives the first and nothing else. The
/// same holds for the first, by the same proof.
pub proof fn law_removal_leaves_the_other(
    rows: Seq<RowView>,
    calendar: CalendarView,
    kept: EventView,
    removed: EventView,
    query: Seq<char>,
    exact: bool,
)
    requires
        kept.storable(),
        removed.storable(),
        kept.id != removed.id,
        selected(rows, calendar.name, query, exact) == seq![
            row_of(calendar, kept),
            row_of(calendar, removed),
        ],
    ensures
        found(
            Some(without_event(rows, calendar.name, row_of(calendar, removed).event_id)),
            calendar.name,
            query,
            exact,
        ) == Ok::<Seq<EventView>, CaliError>(seq![kept]),
{
    let first = row_of(calendar, kept);
    let second = row_of(calendar, removed);
    let stays = not_event(calendar.name, second.event_id);
    law_search_after_removal(rows, calendar.name, second.event_id, calendar.name, query, exact);
    law_stored_event_reads_back(calendar, kept);
    assert(first.event_id != second.event_id);
    let both = seq![first, second];
    reveal_with_fuel(Seq::filter, 3);
    assert(both.drop_last() =~= seq![first]);
    assert(seq![first].drop_last() =~= Seq::<RowView>::empty());
    assert(both.filter(stays) =~= seq![first]);
    assert(seq![first].map_values(|row: RowView| event_of(row)->Ok_0) =~= seq![kept]);
}

/// A search for a very name selects what the search for the text as a
/// part of the name selects and that carries the very name: every exact
/// hit is a hit of the other search, in the same order.
pub proof fn law_exact_hits_are_among_the_others(
    rows: Seq<RowView>,
    calendar_name: Seq<char>,
    query: Seq<char>,
)
    ensures
        selected(rows, calendar_name, query, true) == selected(
            rows,
            calendar_name,
            query,
            false,
        ).filter(selector(calendar_name, query, true)),
        forall|row: RowView|
            #[trigger] selects(calendar_name, query, true, row) ==> selects(
                calendar_name,
                query,
                false,
                row,
            ),
{
    let exact = selector(calendar_name, query, true);
    let part = selector(calendar_name, query, false);
    assert forall|row: RowView| #[trigger]
        selects(calendar_name, query, true, row) implies selects(
        calendar_name,
        query,
        false,
        row,
    ) by {
        assert(folded(query).subrange(0, query.len() as int) =~= folded(query));
        assert(occurs_at(folded(query), folded(row.event_name), 0));
    }
    assert forall|row: RowView| #[trigger] exact(row) implies part(row) by {
        assert(selects(calendar_name, query, true, row));
    }
    lemma_filter_implied(rows, exact, part);
    lemma_filters_commute(rows, exact, part);
}

/// Making a calendar the default leaves the default unambiguous, whatever
/// the table held before.
pub proof fn law_default_is_unambiguous_once_set(rows: Seq<RowView>, name: Seq<char>)
    ensures
        default_name(with_default(rows, name)) is Ok,
{
    if has_calendar(rows, name) {
        law_default_transfer(rows, name);
    } else {
        law_default_of_missing_calendar(rows, name);
    }
}

/// Creating a calendar and adding an event to it keeps the default
/// unambiguous: where there was none, the new calendar is the default;
/// where there was one, it stays.
pub proof fn law_creation_keeps_the_default(
    rows: Seq<RowView>,
    name: Seq<char>,
    path: PathBuf,
    event: EventView,
)
    requires
        created(rows, name, path) is Ok,
    ensures
        default_name(rows.push(row_of(created(rows, name, path)->Ok_0, event))) == (
        match default_name(rows) {
            Ok(Some(existing)) => Ok::<Option<Seq<char>>, CaliError>(Some(existing)),
            _ => Ok::<Option<Seq<char>>, CaliError>(Some(name)),
        }),
{
    let calendar = created(rows, name, path)->Ok_0;
    let after = rows.push(row_of(calendar, event));
    match default_name(rows) {
        Ok(Some(existing)) => {
            let k = choose|k: int| 0 <= k < rows.len() && (#[trigger] rows[k]).is_default;
            assert(after[k] == rows[k]);
            assert forall|i: int| 0 <= i < after.len() && (#[trigger] after[i]).is_default implies after[i].calendar_name
                == existing by {
                if i < rows.len() {
                    assert(after[i] == rows[i]);
                }
            }
            lemma_default_name_sole(after, k);
        },
        _ => {
            let last = rows.len() as int;
            assert(after[last].is_default && after[last].calendar_name == name);
            assert forall|i: int| 0 <= i < after.len() && (#[trigger] after[i]).is_default implies after[i].calendar_name
                == name by {
                if i < rows.len() {
                    assert(after[i] == rows[i]);
                }
            }
            lemma_default_name_sole(after, last);
        },
    }
}

/// Taking rows out of a table keeps the default unambiguous: what is left
/// has the same default or, where all flagged rows went, none.
pub proof fn lemma_filter_keeps_the_default(rows: Seq<RowView>, keep: spec_fn(RowView) -> bool)
    requires
        default_name(rows) is Ok,
    ensures
        default_name(rows.filter(keep)) == default_name(rows) || default_name(rows.filter(keep))
            == Ok::<Option<Seq<char>>, CaliError>(None),
{
    let left = rows.filter(keep);
    if has_flagged(left) {
        let k = choose|k: int| 0 <= k < left.len() && (#[trigger] left[k]).is_default;
        lemma_filter_keeps_elements(rows, keep, k);
        let j = choose|j: int| 0 <= j < rows.len() && rows[j] == left[k];
        assert(rows[j].is_default);
        let existing = default_name(rows)->Ok_0->Some_0;
        assert(rows[j].calendar_name == existing);
        assert forall|i: int| 0 <= i < left.len() && (#[trigger] left[i]).is_default implies left[i].calendar_name
            == existing by {
            lemma_filter_keeps_elements(rows, keep, i);
            let m = choose|m: int| 0 <= m < rows.len() && rows[m] == left[i];
            assert(rows[m].is_default);
        }
        lemma_default_name_sole(left, k);
    }
}

/// Removing an event or a calendar keeps the default unambiguous: the
/// default is as it was or, where all flagged rows were removed, there is
/// none.
pub proof fn law_removal_keeps_the_default(
    rows: Seq<RowView>,
    calendar_name: Seq<char>,
    event_id: Seq<char>,
)
    requires
        default_name(rows) is Ok,
    ensures
        default_name(without_event(rows, calendar_name, event_id)) == default_name(rows)
            || default_name(without_event(rows, calendar_name, event_id)) == Ok::<
            Option<Seq<char>>,
            CaliError,
        >(None),
        default_name(without_calendar(rows, calendar_name)) == default_name(rows) || default_name(
            without_calendar(rows, calendar_name),
        ) == Ok::<Option<Seq<char>>, CaliError>(None),
{
    lemma_filter_keeps_the_default(rows, not_event(calendar_name, event_id));
    lemma_filter_keeps_the_default(rows, not_calendar(calendar_name));
}

/// Renaming moves a calendar: afterwards no calendar has the old name, one
/// has the new name exactly if the renamed calendar existed, and every
/// other calendar exists as before.
pub proof fn law_rename_moves_the_calendar(
    rows: Seq<RowView>,
    from: Seq<char>,
    to: Seq<char>,
    other: Seq<char>,
)
    requires
        from != to,
        !has_calendar(rows, to),
        other != from,
        other != to,
    ensures
        !has_calendar(with_renamed(rows, from, to), from),
        has_calendar(with_renamed(rows, from, to), to) == has_calendar(rows, from),
        has_calendar(with_renamed(rows, from, to), other) == has_calendar(rows, other),
        is_default(with_renamed(rows, from, to), to) == is_default(rows, from),
{
    let after = with_renamed(rows, from, to);
    if has_calendar(rows, from) {
        let k = choose|k: int| 0 <= k < rows.len() && (#[trigger] rows[k]).calendar_name == from;
        assert(after[k].calendar_name == to);
    }
    if has_calendar(after, to) {
        let k = choose|k: int| 0 <= k < after.len() && (#[trigger] after[k]).calendar_name == to;
        assert(rows[k].calendar_name == from);
    }
    if has_calendar(rows, other) {
        let k = choose|k: int| 0 <= k < rows.len() && (#[trigger] rows[k]).calendar_name == other;
        assert(after[k].calendar_name == other);
    }
    if has_calendar(after, other) {
        let k = choose|k: int| 0 <= k < after.len() && (#[trigger] after[k]).calendar_name == other;
        assert(rows[k].calendar_name == other);
    }
    if is_default(rows, from) {
        let k = choose|k: int|
            0 <= k < rows.len() && (#[trigger] rows[k]).calendar_name == from && rows[k].is_default;
        assert(after[k].calendar_name == to && after[k].is_default);
    }
    if is_default(after, to) {
        let k = choose|k: int|
            0 <= k < after.len() && (#[trigger] after[k]).calendar_name == to && after[k].is_default;
        assert(rows[k].calendar_name == from && rows[k].is_default);
    }
    assert forall|i: int| 0 <= i < after.len() implies (#[trigger] after[i]).calendar_name != from by {
        assert(rows[i].calendar_name == from || rows[i].calendar_name == after[i].calendar_name);
    }
}

} // verus!
