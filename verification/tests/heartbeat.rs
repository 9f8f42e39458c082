use workers_connect::heartbeat::{Heartbeat, HeartbeatResponse, HeartbeatState};

fn run(notes: &[&str]) -> Vec<HeartbeatResponse> {
    let incoming: Vec<Result<String, String>> =
        notes.iter().map(|n| Ok((*n).to_owned())).collect();
    Heartbeat
        .heartbeat(incoming)
        .into_iter()
        .collect::<Result<Vec<_>, _>>()
        .unwrap()
}

#[test]
fn heartbeat_emits_open_then_echoes_then_close() {
    let out = run(&["a", "b"]);
    let pairs: Vec<(u32, String)> = out.into_iter().map(|r| (r.sequence, r.note)).collect();
    assert_eq!(
        pairs,
        vec![
            (0, "open".into()),
            (1, "a".into()),
            (2, "b".into()),
            (3, "close".into()),
        ]
    );
}

#[test]
fn heartbeat_emits_open_then_close_when_no_inputs() {
    let out = run(&[]);
    let pairs: Vec<(u32, String)> = out.into_iter().map(|r| (r.sequence, r.note)).collect();
    assert_eq!(pairs, vec![(0, "open".into()), (1, "close".into())]);
}

#[test]
fn heartbeat_error_ends_the_stream_without_close() {
    let incoming: Vec<Result<String, String>> =
        vec![Ok("a".into()), Err("broken".into()), Ok("b".into())];
    let out = Heartbeat.heartbeat(incoming);
    assert_eq!(out.len(), 3);
    let first = out[0].as_ref().unwrap();
    assert_eq!((first.sequence, first.note.as_str()), (0, "open"));
    let second = out[1].as_ref().unwrap();
    assert_eq!((second.sequence, second.note.as_str()), (1, "a"));
    assert_eq!(out[2].as_ref().err().map(|e| e.as_str()), Some("broken"));
}

#[test]
fn heartbeat_states_read_only_while_echoing() {
    let start = Heartbeat.start();
    assert_eq!(start, HeartbeatState::EmitInitial);
    assert!(!start.reads_request());
    let (open, next) = Heartbeat.step::<String>(start, None).unwrap();
    assert_eq!(open.unwrap().note, "open");
    assert_eq!(next, HeartbeatState::Echoing { sequence: 1 });
    assert!(next.reads_request());
    let (close, done) = Heartbeat.step::<String>(next, None).unwrap();
    assert_eq!(close.unwrap().sequence, 1);
    assert_eq!(done, HeartbeatState::Done);
    assert!(!done.reads_request());
    assert!(Heartbeat.step::<String>(done, None).is_none());
}
