use workers_connect::echo::{EchoResponse, Echoer};

fn run(texts: &[&str]) -> Vec<EchoResponse> {
    let incoming: Vec<Result<String, String>> =
        texts.iter().map(|t| Ok((*t).to_owned())).collect();
    Echoer
        .echo(incoming)
        .into_iter()
        .collect::<Result<Vec<_>, _>>()
        .unwrap()
}

#[test]
fn echo_pairs_each_input_with_a_sequenced_response() {
    let out = run(&["hello", "world", "!"]);
    let pairs: Vec<(String, u32)> = out.into_iter().map(|r| (r.text, r.sequence)).collect();
    assert_eq!(
        pairs,
        vec![("hello".into(), 0), ("world".into(), 1), ("!".into(), 2),]
    );
}

#[test]
fn echo_emits_nothing_when_client_sends_nothing() {
    assert!(run(&[]).is_empty());
}

#[test]
fn echo_passes_errors_through_without_using_a_sequence_number() {
    let incoming: Vec<Result<String, String>> = vec![
        Ok("a".into()),
        Err("broken".into()),
        Ok("b".into()),
    ];
    let out = Echoer.echo(incoming);
    assert_eq!(out.len(), 3);
    match &out[0] {
        Ok(r) => assert_eq!((r.text.as_str(), r.sequence), ("a", 0)),
        Err(_) => panic!("first item is a text"),
    }
    assert_eq!(out[1].as_ref().err().map(|e| e.as_str()), Some("broken"));
    match &out[2] {
        Ok(r) => assert_eq!((r.text.as_str(), r.sequence), ("b", 1)),
        Err(_) => panic!("third item is a text"),
    }
}

#[test]
fn echo_step_ends_with_the_client_stream() {
    assert!(Echoer.step::<String>(7, None).is_none());
    let (answer, next) = Echoer.step::<String>(7, Some(Ok("x".into()))).unwrap();
    let answer = answer.unwrap();
    assert_eq!((answer.text.as_str(), answer.sequence, next), ("x", 7, 8));
}
