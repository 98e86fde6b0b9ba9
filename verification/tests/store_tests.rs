use immaterium::{Block, BlockState, Session, SessionStore};
use immaterium::records::{
    block_from_record, block_to_record, millis_to_rfc3339, parse_rfc3339_millis,
    session_to_record, state_name, state_of_name,
};

fn sample_block(command: &str, output: &str, exit_code: i32) -> Block {
    let mut b = Block::new(command.to_string(), "/work".to_string());
    b.start_execution();
    b.append_output(output.to_string());
    b.complete_execution(exit_code);
    b
}

#[test]
fn test_state_name_round_trip() {
    let states = vec![
        BlockState::Editing,
        BlockState::PendingApproval,
        BlockState::Running,
        BlockState::Completed,
        BlockState::Failed,
        BlockState::Cancelled,
    ];
    for s in states {
        assert_eq!(state_of_name(state_name(s)), s);
    }
    assert_eq!(state_name(BlockState::Completed), "Completed");
    // An unknown persisted name degrades to the safe terminal default.
    assert_eq!(state_of_name("Exploded"), BlockState::Completed);
}

#[test]
fn test_block_record_round_trip() {
    let mut b = sample_block("cargo build", "Compiling...\n", 0);
    b.metadata.environment = vec![("PATH".to_string(), "/usr/bin".to_string())];
    let rec = block_to_record(&b, 7, 3);
    assert_eq!(rec.session_id, 7);
    assert_eq!(rec.block_order, 3);
    assert_eq!(rec.state, "Completed");
    assert_eq!(rec.environment, "{\"PATH\":\"/usr/bin\"}");

    let b2 = block_from_record(&rec);
    assert_eq!(b2.id, b.id);
    assert_eq!(b2.command, b.command);
    assert_eq!(b2.output, b.output);
    assert_eq!(b2.exit_code, b.exit_code);
    assert_eq!(b2.state, b.state);
    assert_eq!(b2.timestamp, b.timestamp);
    assert_eq!(b2.metadata.started_at, b.metadata.started_at);
    assert_eq!(b2.metadata.completed_at, b.metadata.completed_at);
    assert_eq!(b2.metadata.duration, b.metadata.duration);
    assert_eq!(
        b2.metadata.environment,
        vec![("PATH".to_string(), "/usr/bin".to_string())]
    );
}

#[test]
fn test_store_round_trip_preserves_order() {
    let mut store = SessionStore::new();
    let session = Session::new("work".to_string(), "/work".to_string());
    let sid = session.id;
    store.create_session(session_to_record(&session, false)).unwrap();

    let blocks = vec![
        sample_block("echo first", "first\n", 0),
        sample_block("false", "", 1),
        sample_block("echo third", "third\n", 0),
    ];
    store.save_blocks(sid, &blocks);

    let loaded = store.load_blocks(sid);
    assert_eq!(loaded.len(), 3);
    for (i, b) in blocks.iter().enumerate() {
        assert_eq!(loaded[i].id, b.id);
        assert_eq!(loaded[i].command, b.command);
        assert_eq!(loaded[i].output, b.output);
        assert_eq!(loaded[i].exit_code, b.exit_code);
        assert_eq!(loaded[i].state, b.state);
    }
}

#[test]
fn test_save_block_is_idempotent_upsert() {
    let mut store = SessionStore::new();
    let session = Session::new("s".to_string(), "/".to_string());
    let sid = session.id;
    store.create_session(session_to_record(&session, false)).unwrap();

    let mut b = sample_block("echo hi", "hi\n", 0);
    store.save_block(sid, &b, 0);
    store.save_block(sid, &b, 0);
    assert_eq!(store.load_blocks(sid).len(), 1);

    // Saving the same block with more output replaces the row.
    b.output.push_str("more\n");
    store.save_block(sid, &b, 0);
    let loaded = store.load_blocks(sid);
    assert_eq!(loaded.len(), 1);
    assert_eq!(loaded[0].output, "hi\nmore\n");
}

#[test]
fn test_order_column_drives_load_order() {
    let mut store = SessionStore::new();
    let session = Session::new("s".to_string(), "/".to_string());
    let sid = session.id;
    store.create_session(session_to_record(&session, false)).unwrap();

    let early = sample_block("echo early", "", 0);
    let late = sample_block("echo late", "", 0);
    // Saved late-first; the order column, not save time, decides.
    store.save_block(sid, &late, 1);
    store.save_block(sid, &early, 0);

    let loaded = store.load_blocks(sid);
    assert_eq!(loaded.len(), 2);
    assert_eq!(loaded[0].command, "echo early");
    assert_eq!(loaded[1].command, "echo late");
}

#[test]
fn test_single_active_session() {
    let mut store = SessionStore::new();
    let s1 = Session::new("one".to_string(), "/".to_string());
    let s2 = Session::new("two".to_string(), "/".to_string());
    let id1 = s1.id;
    let id2 = s2.id;
    store.create_session(session_to_record(&s1, false)).unwrap();
    store.create_session(session_to_record(&s2, false)).unwrap();

    // A created session is not active until the separate activation call.
    assert!(store.get_active_session().is_none());

    store.set_active_session(id1);
    assert_eq!(store.get_active_session().unwrap().id, id1);

    store.set_active_session(id2);
    assert_eq!(store.get_active_session().unwrap().id, id2);

    // Exactly one row is active after activation.
    let infos = store.list_sessions();
    let active: Vec<u128> = infos.iter().filter(|i| i.is_active).map(|i| i.id).collect();
    assert_eq!(active, vec![id2]);
}

#[test]
fn test_duplicate_session_is_refused() {
    let mut store = SessionStore::new();
    let s = Session::new("dup".to_string(), "/".to_string());
    store.create_session(session_to_record(&s, false)).unwrap();
    let second = store.create_session(session_to_record(&s, false));
    assert!(second.is_err());
    assert_eq!(store.list_sessions().len(), 1);
}

#[test]
fn test_delete_session_cascades_to_blocks() {
    let mut store = SessionStore::new();
    let keep = Session::new("keep".to_string(), "/".to_string());
    let drop_me = Session::new("drop".to_string(), "/".to_string());
    let keep_id = keep.id;
    let drop_id = drop_me.id;
    store.create_session(session_to_record(&keep, false)).unwrap();
    store.create_session(session_to_record(&drop_me, false)).unwrap();
    store.save_block(keep_id, &sample_block("echo keep", "", 0), 0);
    store.save_block(drop_id, &sample_block("echo drop", "", 0), 0);

    store.delete_session(drop_id);
    assert!(store.load_session(drop_id).is_none());
    assert_eq!(store.load_blocks(drop_id).len(), 0);
    assert_eq!(store.load_blocks(keep_id).len(), 1);
}

#[test]
fn test_load_session_rebuilds_blocks() {
    let mut store = SessionStore::new();
    let session = Session::new("proj".to_string(), "/proj".to_string());
    let sid = session.id;
    store.create_session(session_to_record(&session, false)).unwrap();
    let blocks = vec![sample_block("pwd", "/proj\n", 0)];
    store.save_blocks(sid, &blocks);

    let loaded = store.load_session(sid).unwrap();
    assert_eq!(loaded.id, sid);
    assert_eq!(loaded.name, "proj");
    assert_eq!(loaded.working_directory, "/proj");
    assert_eq!(loaded.blocks.len(), 1);
    assert_eq!(loaded.blocks[0].command, "pwd");
}

#[test]
fn test_missing_session_loads_none() {
    let store = SessionStore::new();
    assert!(store.load_session(42).is_none());
    assert!(store.get_active_session().is_none());
}

#[test]
fn test_list_sessions_most_recent_first() {
    let mut store = SessionStore::new();
    let a = Session::new("a".to_string(), "/".to_string());
    let b = Session::new("b".to_string(), "/".to_string());
    let a_id = a.id;
    let mut rec_a = session_to_record(&a, false);
    let mut rec_b = session_to_record(&b, false);
    rec_a.updated_at = 1_000;
    rec_b.updated_at = 2_000;
    store.create_session(rec_a).unwrap();
    store.create_session(rec_b).unwrap();

    let infos = store.list_sessions();
    assert_eq!(infos.len(), 2);
    assert_eq!(infos[0].name, "b");
    assert_eq!(infos[1].name, "a");

    // Touching bumps a session to the top.
    store.touch_session(a_id, 5_000);
    let infos = store.list_sessions();
    assert_eq!(infos[0].name, "a");
    // A clock reading behind the stored value never lowers it.
    store.touch_session(a_id, 100);
    let infos = store.list_sessions();
    assert_eq!(infos[0].name, "a");
    assert_eq!(infos[0].updated_at, 5_000);
}

#[test]
fn test_timestamp_text_codec() {
    assert_eq!(millis_to_rfc3339(0), "1970-01-01T00:00:00+00:00");
    assert_eq!(parse_rfc3339_millis("1970-01-01T00:00:00+00:00"), Some(0));
    assert_eq!(parse_rfc3339_millis(&millis_to_rfc3339(1_234_567)), Some(1_234_567));
    assert_eq!(parse_rfc3339_millis("not a date"), None);
    assert_eq!(
        immaterium::clock::format_timestamp(0, "%H:%M:%S"),
        "00:00:00"
    );
    assert_eq!(
        immaterium::clock::format_timestamp(0, "%Y-%m-%d %H:%M:%S"),
        "1970-01-01 00:00:00"
    );
}
