use sneaker_core::progress::{
    import_failed_message, new_progress_state, phase_message_of, phase_name_of, progress_api_json,
    poll_import, progress_json, progress_to_event, state_phase_name_of, ImportPhase, ImportState,
    ProgressReading,
};

#[test]
fn progress_line_for_each_phase() {
    assert_eq!(
        progress_json("decoding", 10, 100),
        r#"{"phase":"decoding","processed":10,"total":100,"message":"Decoding entries..."}"#
    );
    assert_eq!(
        progress_json("importing", 0, 0),
        r#"{"phase":"importing","processed":0,"total":0,"message":"Importing entries..."}"#
    );
    assert_eq!(
        progress_json("done", 18446744073709551615, 7),
        r#"{"phase":"done","processed":18446744073709551615,"total":7,"message":"Import complete"}"#
    );
    assert_eq!(
        progress_json("idle", 1, 2),
        r#"{"phase":"idle","processed":1,"total":2,"message":""}"#
    );
}

#[test]
fn phase_names_and_messages() {
    assert_eq!(phase_name_of(ImportPhase::Idle), "idle");
    assert_eq!(phase_name_of(ImportPhase::Decoding), "decoding");
    assert_eq!(phase_name_of(ImportPhase::Importing), "importing");
    assert_eq!(phase_name_of(ImportPhase::Done), "done");
    assert_eq!(phase_name_of(ImportPhase::Unknown), "unknown");
    assert_eq!(phase_message_of("Done"), "");
    assert_eq!(phase_message_of("unknown"), "");
}

#[test]
fn progress_state_keeps_only_progress_lines() {
    let mut st = new_progress_state();
    assert_eq!(st.current(), r#"{"phase":"idle","processed":0,"total":0,"message":""}"#);
    st.observe_line("starting import");
    assert_eq!(st.current(), r#"{"phase":"idle","processed":0,"total":0,"message":""}"#);
    let line = r#"{"phase":"decoding","processed":1,"total":9,"message":"Decoding entries..."}"#;
    st.observe_line(line);
    assert_eq!(st.current(), line);
    st.observe_line(r#" {"phase":"done"}"#);
    assert_eq!(st.current(), line);
    st.observe_line(r#"{"phase":"done"}"#);
    assert_eq!(st.current(), r#"{"phase":"done"}"#);
    assert!(st.current().starts_with("{\"phase\":"));
}

#[test]
fn event_from_reading() {
    let reading = ProgressReading {
        phase: ImportPhase::Importing,
        phase_code: 2,
        processed_bytes: 5,
        total_bytes: 50,
        processed_entries: 3,
    };
    let ev = progress_to_event(&reading);
    assert_eq!(ev.phase, "importing");
    assert_eq!(ev.message, "Importing entries...");
    assert_eq!((ev.processed, ev.total, ev.processed_entries), (5, 50, 3));
    assert!(!ev.is_done());
    let done = progress_to_event(&ProgressReading { phase: ImportPhase::Done, ..reading });
    assert!(done.is_done());
    assert_eq!(done.message, "Import complete");
}

#[test]
fn import_state_lifecycle() {
    let mut st = ImportState::new();
    assert_eq!(
        progress_api_json(&st),
        r#"{"is_importing":false,"phase":"idle","processed_bytes":0,"total_bytes":0,"processed_entries":0}"#
    );
    st.begin_import();
    assert!(st.is_importing);
    assert_eq!(st.phase, 1);
    let r = ProgressReading {
        phase: ImportPhase::Importing,
        phase_code: 2,
        processed_bytes: 10,
        total_bytes: 100,
        processed_entries: 4,
    };
    st.record_progress(&r);
    assert_eq!(st.total_bytes, 100);
    st.record_progress(&ProgressReading { total_bytes: 0, processed_bytes: 20, ..r });
    assert_eq!(st.total_bytes, 100, "a known total is never cleared");
    assert_eq!(st.processed_bytes, 20);
    st.finish_import(false);
    assert_eq!(
        progress_api_json(&st),
        r#"{"is_importing":true,"phase":"error","processed_bytes":20,"total_bytes":100,"processed_entries":4}"#
    );
    st.finish_import(true);
    assert_eq!(st.phase, 3);
}

#[test]
fn state_phase_names() {
    let names: Vec<&str> = (0..7).map(state_phase_name_of).collect();
    assert_eq!(names, ["idle", "decoding", "importing", "done", "error", "unknown", "unknown"]);
}

#[test]
fn failure_message() {
    assert_eq!(import_failed_message("bad file"), "Import failed: bad file");
}

#[test]
fn poller_stops_exactly_on_the_done_event() {
    let mut st = ImportState::new();
    st.begin_import();
    let phases = [
        (ImportPhase::Idle, 0u32),
        (ImportPhase::Decoding, 1),
        (ImportPhase::Importing, 2),
        (ImportPhase::Unknown, 9),
        (ImportPhase::Done, 3),
    ];
    let mut events = Vec::new();
    for (i, (phase, code)) in phases.iter().enumerate() {
        let total = if i == 2 { 500 } else { 0 };
        let reading = ProgressReading {
            phase: *phase,
            phase_code: *code,
            processed_bytes: 10 * i as u64,
            total_bytes: total,
            processed_entries: i as u64,
        };
        let out = poll_import(&mut st, &reading);
        assert_eq!(st.phase, *code);
        assert_eq!(st.processed_bytes, 10 * i as u64);
        events.push(out.event.phase.clone());
        if out.stop {
            break;
        }
    }
    assert_eq!(events, vec!["idle", "decoding", "importing", "unknown", "done"]);
    assert_eq!(st.total_bytes, 500);
    assert!(st.is_importing);
}
