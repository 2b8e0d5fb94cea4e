use fae_agent::memory::SessionMeta;
use fae_agent::record::{Record, RecordItem};
use fae_agent::session_store::{
    memory_metadata, session_page, sort_newest_first, user_memory_info, MemoryStore, SessionLog,
};

fn s(t: &str) -> String {
    t.to_string()
}

fn record(id: &str, text: &str) -> Record {
    Record { id: s(id), item: RecordItem::ModelOutput(s(text)) }
}

fn ids(v: &[Record]) -> Vec<String> {
    v.iter().map(|r| r.id.clone()).collect()
}

#[test]
fn a_session_keeps_its_latest_hundred_records() {
    let mut log = SessionLog::new();
    for i in 0..120 {
        log.push(record(&format!("r{i}"), "x"));
    }
    assert_eq!(log.items().len(), 100);
    assert_eq!(log.items()[0].id, "r20");
    assert_eq!(log.items()[99].id, "r119");
}

#[test]
fn fifty_waiting_records_ask_for_a_write() {
    let mut log = SessionLog::new();
    for i in 0..49 {
        assert!(!log.push(record(&format!("r{i}"), "x")));
    }
    assert!(log.push(record("r49", "x")));
    let written = log.take_unflushed();
    assert_eq!(written.len(), 50);
    assert_eq!(log.flushed(), 50);
    assert!(log.take_unflushed().is_empty());
    assert!(!log.push(record("r50", "x")));
}

#[test]
fn written_records_cannot_change() {
    let mut log = SessionLog::new();
    log.push(record("a", "1"));
    log.take_unflushed();
    log.push(record("b", "2"));
    assert_eq!(
        log.update(record("a", "changed")),
        Err(s("Cannot update an item that has already been flushed to file"))
    );
    assert_eq!(log.delete("a"), Err(s("Cannot delete an item that has already been flushed to file")));
    assert_eq!(log.update(record("b", "changed")), Ok(Some(false)));
    assert_eq!(log.items()[1].item, RecordItem::ModelOutput(s("changed")));
    assert_eq!(log.update(record("zz", "none")), Ok(None));
    assert_eq!(log.delete("b"), Ok(false));
    assert_eq!(ids(log.items()), vec![s("a")]);
    assert_eq!(log.delete("missing"), Ok(false));
}

#[test]
fn load_returns_a_window() {
    let mut log = SessionLog::new();
    for i in 0..5 {
        log.push(record(&format!("r{i}"), "x"));
    }
    assert_eq!(ids(&log.load(1, 2)), vec![s("r1"), s("r2")]);
    assert_eq!(ids(&log.load(4, 10)), vec![s("r4")]);
    assert!(log.load(9, 3).is_empty());
}

#[test]
fn a_file_read_back_keeps_its_latest_records_as_written() {
    let items: Vec<Record> = (0..103).map(|i| record(&format!("r{i}"), "x")).collect();
    let log = SessionLog::from_file(items);
    assert_eq!(log.items().len(), 100);
    assert_eq!(log.items()[0].id, "r3");
    assert_eq!(log.flushed(), 100);
}

#[test]
fn sessions_are_kept_apart() {
    let mut store = MemoryStore::new();
    assert!(!store.push("u", "s1", record("a", "1")));
    store.push("u", "s2", record("b", "2"));
    store.push("v", "s1", record("c", "3"));
    assert_eq!(ids(&store.load("u", "s1", 0, 10)), vec![s("a")]);
    assert_eq!(ids(&store.load("u", "s2", 0, 10)), vec![s("b")]);
    assert_eq!(ids(&store.load("v", "s1", 0, 10)), vec![s("c")]);
    store.reset("u", "s1");
    assert!(store.load("u", "s1", 0, 10).is_empty());
    assert_eq!(ids(&store.load("u", "s2", 0, 10)), vec![s("b")]);
    assert_eq!(store.sessions().len(), 2);
}

#[test]
fn an_update_finds_the_session_that_holds_the_record() {
    let mut store = MemoryStore::new();
    store.push("u", "s1", record("a", "1"));
    store.push("u", "s2", record("b", "2"));
    assert_eq!(store.update("u", record("b", "new")), Ok(Some((s("s2"), false))));
    assert_eq!(store.load("u", "s2", 0, 1)[0].item, RecordItem::ModelOutput(s("new")));
    assert_eq!(store.update("u", record("zz", "x")), Ok(None));
    assert_eq!(store.update("other", record("a", "x")), Ok(None));
    store.take_unflushed("u", "s1");
    assert_eq!(
        store.update("u", record("a", "x")),
        Err(s("Cannot update an item that has already been flushed to file"))
    );
    assert_eq!(store.delete("u", "s2", "b"), Ok(false));
    assert!(store.load("u", "s2", 0, 10).is_empty());
}

#[test]
fn memory_texts() {
    assert_eq!(
        user_memory_info("/m/u/user.txt", "likes tea"),
        "\n---\n## About user memory:  - You must update your memory once you have a clear understanding of some user attributes or preferences.\nStorage file path: `/m/u/user.txt`.\nRecorded content: \nlikes tea"
    );
    assert_eq!(
        memory_metadata("/m", "u", "s"),
        "\n## Your memory Metadata:\n - This dialogue identifier $SESSION_ID: `s`\n - session description file path: /m/u/s.desc"
    );
}

fn meta(id: &str, updated_at: u64) -> SessionMeta {
    SessionMeta { id: s(id), title: format!("Session {id}"), created_at: updated_at, updated_at }
}

#[test]
fn session_list_is_newest_first() {
    let sorted = sort_newest_first(vec![meta("a", 100), meta("b", 300), meta("c", 200), meta("d", 300)]);
    let order: Vec<String> = sorted.iter().map(|m| m.id.clone()).collect();
    assert_eq!(order, vec![s("b"), s("d"), s("c"), s("a")]);

    let page = session_page(vec![meta("sess_1", 100), meta("sess_2", 200)], 0, 10);
    assert_eq!(page.len(), 2);
    assert_eq!(page[0].id, "sess_2");
    let page = session_page(vec![meta("sess_1", 300), meta("sess_2", 200)], 1, 10);
    assert_eq!(page.len(), 1);
    assert_eq!(page[0].id, "sess_2");
    assert!(session_page(vec![meta("x", 1)], 5, 10).is_empty());
}
