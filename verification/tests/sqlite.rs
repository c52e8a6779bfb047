// The operations of the store written as SQL statements and run by SQLite
// in memory. On the same rows the library answers as SQLite does.
use cali::calendar::Calendar;
use cali::database::{
    check_calendar, check_default, get_default, get_event, insert_event, remove_calendar,
    remove_event, rename_calendar, update_default, update_event, Store,
};
use cali::event::{Event, Recurring};
use cali::row::Row;
use rusqlite::Connection;
use std::path::PathBuf;

const ID_1: &str = "00000000-0000-0000-0000-000000000001";
const ID_2: &str = "00000000-0000-0000-0000-000000000002";
const ID_3: &str = "00000000-0000-0000-0000-000000000003";
const ID_4: &str = "00000000-0000-0000-0000-000000000004";

fn place() -> PathBuf {
    PathBuf::from("calendar.db")
}

fn row(id: &str, calendar: &str, event: &str, default: bool) -> Row {
    Row::new(id, calendar, event, "start_time", "end_time", "No", default)
}

fn sample_tables() -> Vec<Vec<Row>> {
    vec![
        vec![],
        vec![row(ID_1, "work", "standup", false)],
        vec![row(ID_1, "work", "standup", true)],
        vec![
            row(ID_1, "work", "Test Event 1", true),
            row(ID_2, "home", "test event 2", false),
            row(ID_3, "work", "a TEST event", true),
            row(ID_4, "Work", "test", false),
        ],
        vec![
            row(ID_1, "a", "x", false),
            row(ID_2, "b", "xy", true),
            row(ID_1, "b", "Xyz", true),
            row(ID_3, "c", "", false),
            row(ID_2, "a", "y x", false),
        ],
    ]
}

fn sample_names() -> Vec<&'static str> {
    vec!["work", "Work", "home", "a", "b", "c", "none", ""]
}

fn sql_table(rows: &[Row]) -> Connection {
    let conn = Connection::open_in_memory().unwrap();
    conn.execute(
        "CREATE TABLE IF NOT EXISTS calendars (
            event_id TEXT NOT NULL,
            calendar_name TEXT NOT NULL,
            event_name TEXT NOT NULL,
            event_start TEXT NOT NULL,
            event_end TEXT NOT NULL,
            event_recurring TEXT NOT NULL,
            is_default INTEGER NOT NULL
        )",
        (),
    )
    .unwrap();
    for row in rows {
        sql_insert(&conn, row);
    }
    conn
}

fn sql_insert(conn: &Connection, row: &Row) {
    conn.execute(
        "INSERT INTO calendars (calendar_name, event_id, event_name, event_start, event_end, event_recurring, is_default)
        VALUES (?1, ?2, ?3, ?4, ?5, ?6, ?7)",
        (
            &row.calendar_name,
            &row.event_id,
            &row.event_name,
            &row.event_start,
            &row.event_end,
            &row.event_recurring,
            row.is_default,
        ),
    )
    .unwrap();
}

fn sql_select(conn: &Connection, tail: &str, args: &[&str]) -> Vec<Row> {
    let sql = format!(
        "SELECT event_id, calendar_name, event_name, event_start, event_end, event_recurring, is_default
        FROM calendars {tail}"
    );
    let mut stmt = conn.prepare(&sql).unwrap();
    let found = stmt
        .query_map(rusqlite::params_from_iter(args), |row| {
            Ok(Row {
                event_id: row.get(0)?,
                calendar_name: row.get(1)?,
                event_name: row.get(2)?,
                event_start: row.get(3)?,
                event_end: row.get(4)?,
                event_recurring: row.get(5)?,
                is_default: row.get(6)?,
            })
        })
        .unwrap();
    found.map(|row| row.unwrap()).collect()
}

fn sql_rows(conn: &Connection) -> Vec<Row> {
    sql_select(conn, "ORDER BY rowid", &[])
}

fn stored(store: &Store) -> Vec<Row> {
    store.rows().unwrap().clone()
}

fn event_of(row: &Row) -> (String, String, String, String, String) {
    (
        row.event_id.clone(),
        row.event_name.clone(),
        row.event_start.clone(),
        row.event_end.clone(),
        row.event_recurring.clone(),
    )
}

fn event_as_stored(event: &Event) -> (String, String, String, String, String) {
    (
        event.get_id_text().to_string(),
        event.get_name().to_string(),
        event.get_start().to_string(),
        event.get_end().to_string(),
        event.get_recurring().to_string(),
    )
}

#[test]
fn sqlite_and_library_hold_the_same_rows() {
    for rows in sample_tables() {
        let conn = sql_table(&rows);
        let store = Store::from_rows(&place(), rows.clone());
        assert_eq!(sql_rows(&conn), rows);
        assert_eq!(stored(&store), rows);
    }
}

#[test]
fn check_calendar_answers_as_sqlite() {
    for rows in sample_tables() {
        let conn = sql_table(&rows);
        let store = Store::from_rows(&place(), rows);
        for name in sample_names() {
            let found = sql_select(&conn, "WHERE calendar_name = ?1", &[name]);
            assert_eq!(check_calendar(&store, name), Ok(!found.is_empty()), "{name:?}");
        }
    }
}

#[test]
fn check_default_answers_as_sqlite() {
    for rows in sample_tables() {
        let conn = sql_table(&rows);
        let store = Store::from_rows(&place(), rows);
        for name in sample_names() {
            let found = sql_select(&conn, "WHERE calendar_name = ?1 AND is_default = 1", &[name]);
            assert_eq!(check_default(&store, name), Ok(!found.is_empty()), "{name:?}");
        }
    }
}

#[test]
fn get_default_answers_as_sqlite_where_the_default_is_unambiguous() {
    for rows in sample_tables() {
        let conn = sql_table(&rows);
        let store = Store::from_rows(&place(), rows);
        let flagged = sql_select(&conn, "WHERE is_default = 1", &[]);
        let mut names: Vec<String> = flagged.into_iter().map(|row| row.calendar_name).collect();
        names.dedup();
        if names.len() <= 1 {
            assert_eq!(get_default(&store), Ok(names.pop()));
        } else {
            assert!(get_default(&store).is_err());
        }
    }
}

#[test]
fn update_default_changes_the_rows_as_sqlite() {
    for rows in sample_tables() {
        for name in sample_names() {
            let conn = sql_table(&rows);
            let mut store = Store::from_rows(&place(), rows.clone());
            conn.execute("UPDATE calendars SET is_default = 0 WHERE is_default <> 0", ()).unwrap();
            conn.execute("UPDATE calendars SET is_default = 1 WHERE calendar_name = ?1", [name])
                .unwrap();
            assert_eq!(update_default(&mut store, name), Ok(()));
            assert_eq!(stored(&store), sql_rows(&conn), "{name:?}");
        }
    }
}

#[test]
fn insert_event_stores_the_row_as_sqlite() {
    for rows in sample_tables() {
        let conn = sql_table(&rows);
        let mut store = Store::from_rows(&place(), rows);
        let calendar = Calendar::from("work", &mut store).unwrap();
        let event = Event::new("review", "10:00", "11:00", Recurring::Monthly);
        conn.execute(
            "INSERT INTO calendars (calendar_name, event_id, event_name, event_start, event_end, event_recurring, is_default)
            VALUES (?1, ?2, ?3, ?4, ?5, ?6, ?7)",
            (
                calendar.get_name(),
                uuid::Uuid::from_u128(event.get_id()).to_string(),
                event.get_name(),
                event.get_start(),
                event.get_end(),
                event.get_recurring().to_string(),
                calendar.get_default(),
            ),
        )
        .unwrap();
        assert_eq!(insert_event(&mut store, &calendar, &event), Ok(()));
        assert_eq!(stored(&store), sql_rows(&conn));
    }
}

#[test]
fn exact_search_selects_as_sqlite() {
    let queries = ["standup", "Standup", "test", "TEST", "Test Event 1", "x", "xy", "", "a TEST event"];
    for rows in sample_tables() {
        let conn = sql_table(&rows);
        let mut store = Store::from_rows(&place(), rows);
        for name in sample_names() {
            let calendar = Calendar::from(name, &mut store).unwrap();
            for query in queries {
                let found = sql_select(
                    &conn,
                    "WHERE calendar_name = ?1 AND event_name = ?2 ORDER BY rowid",
                    &[name, query],
                );
                let events = get_event(&store, &calendar, query, true).unwrap();
                assert_eq!(
                    events.iter().map(event_as_stored).collect::<Vec<_>>(),
                    found.iter().map(event_of).collect::<Vec<_>>(),
                    "{name:?} {query:?}"
                );
            }
        }
    }
}

#[test]
fn fuzzy_search_selects_as_sqlite() {
    let queries = [
        "", "stand", "STAND", "test", "TEST", "Test Event", "t e", "event 1", "x", "X", "xy", "XYZ",
        "y x", "z", " ", "missing", "\u{e9}",
    ];
    for rows in sample_tables() {
        let conn = sql_table(&rows);
        let mut store = Store::from_rows(&place(), rows);
        for name in sample_names() {
            let calendar = Calendar::from(name, &mut store).unwrap();
            for query in queries {
                let pattern = format!("%{}%", query);
                let found = sql_select(
                    &conn,
                    "WHERE calendar_name = ?1 AND event_name LIKE ?2 ORDER BY rowid",
                    &[name, &pattern],
                );
                let events = get_event(&store, &calendar, query, false).unwrap();
                assert_eq!(
                    events.iter().map(event_as_stored).collect::<Vec<_>>(),
                    found.iter().map(event_of).collect::<Vec<_>>(),
                    "{name:?} {query:?}"
                );
            }
        }
    }
}

#[test]
fn fuzzy_search_sets_case_aside_as_sqlite() {
    let names = ["R\u{c9}UNION", "r\u{e9}union", "Stra\u{df}e", "STRASSE", "@home", "`HOME", "[x]", "{X}"];
    let rows: Vec<Row> = names
        .iter()
        .enumerate()
        .map(|(i, name)| {
            let id = uuid::Uuid::from_u128(i as u128).to_string();
            row(&id, "work", name, false)
        })
        .collect();
    let conn = sql_table(&rows);
    let mut store = Store::from_rows(&place(), rows);
    let calendar = Calendar::from("work", &mut store).unwrap();
    for query in ["r\u{e9}u", "R\u{c9}U", "union", "stra", "SS", "\u{df}", "@h", "`h", "home", "[X", "{x", "x"] {
        let pattern = format!("%{}%", query);
        let found = sql_select(
            &conn,
            "WHERE calendar_name = ?1 AND event_name LIKE ?2 ORDER BY rowid",
            &["work", &pattern],
        );
        let events = get_event(&store, &calendar, query, false).unwrap();
        assert_eq!(
            events.iter().map(|event| event.get_name().to_string()).collect::<Vec<_>>(),
            found.iter().map(|row| row.event_name.clone()).collect::<Vec<_>>(),
            "{query:?}"
        );
    }
}

#[test]
fn update_event_changes_the_rows_as_sqlite() {
    for rows in sample_tables() {
        for (id, name) in [(1u128, "work"), (2, "b"), (3, "none"), (9, "work")] {
            let conn = sql_table(&rows);
            let mut store = Store::from_rows(&place(), rows.clone());
            let calendar = Calendar::from(name, &mut store).unwrap();
            let event = Event::with_id(id, "changed", "new_start", "new_end", Recurring::Yearly);
            conn.execute(
                "UPDATE calendars
                    SET calendar_name = ?1,
                    event_id = ?2,
                    event_name = ?3,
                    event_start = ?4,
                    event_end = ?5,
                    event_recurring = ?6,
                    is_default = ?7
                WHERE event_id = ?2",
                (
                    calendar.get_name(),
                    uuid::Uuid::from_u128(id).to_string(),
                    event.get_name(),
                    event.get_start(),
                    event.get_end(),
                    event.get_recurring().to_string(),
                    calendar.get_default(),
                ),
            )
            .unwrap();
            assert_eq!(update_event(&mut store, &calendar, &event), Ok(()));
            assert_eq!(stored(&store), sql_rows(&conn), "{id} {name:?}");
        }
    }
}

#[test]
fn remove_event_changes_the_rows_as_sqlite() {
    for rows in sample_tables() {
        for (id, name) in [(1u128, "work"), (1, "b"), (2, "a"), (3, "none"), (9, "work")] {
            let conn = sql_table(&rows);
            let mut store = Store::from_rows(&place(), rows.clone());
            let calendar = Calendar::from(name, &mut store).unwrap();
            let event = Event::with_id(id, "whatever", "s", "e", Recurring::No);
            conn.execute(
                "DELETE FROM calendars WHERE calendar_name = ?1 AND event_id = ?2",
                (calendar.get_name(), uuid::Uuid::from_u128(id).to_string()),
            )
            .unwrap();
            assert_eq!(remove_event(&mut store, &calendar, &event), Ok(()));
            assert_eq!(stored(&store), sql_rows(&conn), "{id} {name:?}");
        }
    }
}

#[test]
fn remove_calendar_changes_the_rows_as_sqlite() {
    for rows in sample_tables() {
        for name in sample_names() {
            let conn = sql_table(&rows);
            let mut store = Store::from_rows(&place(), rows.clone());
            let calendar = Calendar::from(name, &mut store).unwrap();
            conn.execute("DELETE FROM calendars WHERE calendar_name = ?1", [name]).unwrap();
            assert_eq!(remove_calendar(&mut store, &calendar), Ok(()));
            assert_eq!(stored(&store), sql_rows(&conn), "{name:?}");
        }
    }
}

#[test]
fn rename_calendar_changes_the_rows_as_sqlite() {
    for rows in sample_tables() {
        for (from, to) in [("work", "job"), ("a", "d"), ("none", "other"), ("work", "work")] {
            let conn = sql_table(&rows);
            let mut store = Store::from_rows(&place(), rows.clone());
            conn.execute(
                "UPDATE calendars SET calendar_name = ?2 WHERE calendar_name = ?1",
                [from, to],
            )
            .unwrap();
            assert_eq!(rename_calendar(&mut store, from, to), Ok(()));
            assert_eq!(stored(&store), sql_rows(&conn), "{from:?} {to:?}");
        }
    }
}

// A small generator of numbers, the same on every run.
struct Numbers(u64);

impl Numbers {
    fn next(&mut self, below: usize) -> usize {
        self.0 ^= self.0 << 13;
        self.0 ^= self.0 >> 7;
        self.0 ^= self.0 << 17;
        (self.0 % below as u64) as usize
    }

    fn pick<'a>(&mut self, from: &[&'a str]) -> &'a str {
        from[self.next(from.len())]
    }
}

fn assert_same_answers(conn: &Connection, store: &mut Store, numbers: &mut Numbers) {
    let calendars = ["work", "Work", "home", "job", ""];
    let queries = ["", "a", "A", "ab", "B", "meet", "MEET", "ing", "x y", "zz"];
    assert_eq!(stored(store), sql_rows(conn));
    let name = numbers.pick(&calendars);
    let query = numbers.pick(&queries);
    let of_name = sql_select(conn, "WHERE calendar_name = ?1", &[name]);
    assert_eq!(check_calendar(store, name), Ok(!of_name.is_empty()));
    let flagged = sql_select(conn, "WHERE calendar_name = ?1 AND is_default = 1", &[name]);
    assert_eq!(check_default(store, name), Ok(!flagged.is_empty()));
    let Ok(calendar) = Calendar::from(name, store) else {
        return;
    };
    let exact = sql_select(
        conn,
        "WHERE calendar_name = ?1 AND event_name = ?2 ORDER BY rowid",
        &[name, query],
    );
    assert_eq!(
        get_event(store, &calendar, query, true).unwrap().iter().map(event_as_stored).collect::<Vec<_>>(),
        exact.iter().map(event_of).collect::<Vec<_>>()
    );
    let pattern = format!("%{}%", query);
    let fuzzy = sql_select(
        conn,
        "WHERE calendar_name = ?1 AND event_name LIKE ?2 ORDER BY rowid",
        &[name, &pattern],
    );
    assert_eq!(
        get_event(store, &calendar, query, false).unwrap().iter().map(event_as_stored).collect::<Vec<_>>(),
        fuzzy.iter().map(event_of).collect::<Vec<_>>()
    );
}

#[test]
fn runs_of_operations_leave_the_same_rows_as_sqlite() {
    let calendars = ["work", "Work", "home", "job", ""];
    let events = ["meeting", "Meeting", "MEET", "a", "ab", "x y", "", "abab"];
    let mut numbers = Numbers(0x9e37_79b9_7f4a_7c15);
    for _ in 0..40 {
        let conn = sql_table(&[]);
        let mut store = Store::from_rows(&place(), Vec::new());
        for _ in 0..40 {
            let name = numbers.pick(&calendars);
            let id = numbers.next(6) as u128;
            let id_text = uuid::Uuid::from_u128(id).to_string();
            match numbers.next(7) {
                0 => {
                    let default = numbers.next(4) == 0;
                    let added = row(&id_text, name, numbers.pick(&events), default);
                    sql_insert(&conn, &added);
                    store.insert_row(added).unwrap();
                }
                1 => {
                    if let Ok(calendar) = Calendar::from(name, &mut store) {
                        let event = Event::with_id(id, numbers.pick(&events), "s", "e", Recurring::Daily);
                        sql_insert(
                            &conn,
                            &Row::new(
                                &id_text,
                                name,
                                event.get_name(),
                                "s",
                                "e",
                                "Daily",
                                *calendar.get_default(),
                            ),
                        );
                        insert_event(&mut store, &calendar, &event).unwrap();
                    }
                }
                2 => {
                    conn.execute("UPDATE calendars SET is_default = 0 WHERE is_default <> 0", ())
                        .unwrap();
                    conn.execute("UPDATE calendars SET is_default = 1 WHERE calendar_name = ?1", [name])
                        .unwrap();
                    update_default(&mut store, name).unwrap();
                }
                3 => {
                    if let Ok(calendar) = Calendar::from(name, &mut store) {
                        let event = Event::with_id(id, numbers.pick(&events), "s2", "e2", Recurring::No);
                        conn.execute(
                            "UPDATE calendars
                                SET calendar_name = ?1,
                                event_id = ?2,
                                event_name = ?3,
                                event_start = ?4,
                                event_end = ?5,
                                event_recurring = ?6,
                                is_default = ?7
                            WHERE event_id = ?2",
                            (name, &id_text, event.get_name(), "s2", "e2", "No", calendar.get_default()),
                        )
                        .unwrap();
                        update_event(&mut store, &calendar, &event).unwrap();
                    }
                }
                4 => {
                    if let Ok(calendar) = Calendar::from(name, &mut store) {
                        let event = Event::with_id(id, "", "", "", Recurring::No);
                        conn.execute(
                            "DELETE FROM calendars WHERE calendar_name = ?1 AND event_id = ?2",
                            (name, &id_text),
                        )
                        .unwrap();
                        remove_event(&mut store, &calendar, &event).unwrap();
                    }
                }
                5 => {
                    if numbers.next(4) == 0 {
                        if let Ok(calendar) = Calendar::from(name, &mut store) {
                            conn.execute("DELETE FROM calendars WHERE calendar_name = ?1", [name])
                                .unwrap();
                            remove_calendar(&mut store, &calendar).unwrap();
                        }
                    }
                }
                _ => {
                    let to = numbers.pick(&calendars);
                    if rename_calendar(&mut store, name, to).is_ok() {
                        conn.execute(
                            "UPDATE calendars SET calendar_name = ?2 WHERE calendar_name = ?1",
                            [name, to],
                        )
                        .unwrap();
                    }
                }
            }
            assert_same_answers(&conn, &mut store, &mut numbers);
        }
    }
}
