//! The demultiplexer: token allocation, frame routing, batch decoding,
//! buffer recycling and reset invalidation, driven with scripted frames.
use reql_driver::connection::{
    expect_single_atom, iter_batch_outcome, Connection, ConnectionId, Step,
};
use reql_driver::errors::ErrorKind;
use reql_driver::errors::ServerErrorKind;
use reql_driver::query::{db, db_list};
use reql_driver::response::{extract_from_response, split_items, Complete};
use reql_driver::wire::{frame, GlobalOptions, Token};

fn fresh() -> Connection {
    Connection::new(ConnectionId::new(1), GlobalOptions::default())
}

#[test]
fn tokens_start_at_one_and_increase() {
    let mut conn = fresh();
    let (c1, _) = conn.run_cursor(db_list()).unwrap();
    let (c2, _) = conn.run_cursor(db_list()).unwrap();
    let (c3, _) = conn.run_cursor(db_list()).unwrap();
    assert_eq!(c1.token().0, 1);
    assert_eq!(c2.token().0, 2);
    assert_eq!(c3.token().0, 3);
    assert!(c1.token().0 < c2.token().0 && c2.token().0 < c3.token().0);
}

#[test]
fn start_request_frames_the_body() {
    let mut conn = fresh();
    let (_, bytes) = conn.run_cursor(db_list()).unwrap();
    let body = b"[1,[59,[]],{}]".to_vec();
    assert_eq!(bytes, frame(1, &body));
}

#[test]
fn continue_request_uses_the_cursor_token() {
    let mut conn = fresh();
    let (c, _) = conn.run_cursor(db_list()).unwrap();
    assert_eq!(
        conn.continue_request(&c),
        vec![0, 0, 0, 0, 0, 0, 0, 1, 3, 0, 0, 0, b'[', b'2', b']']
    );
}

#[test]
fn single_atom_run() {
    let mut conn = fresh();
    let (mut c, _) = conn.run_cursor(db_list()).unwrap();
    assert!(matches!(conn.next_batch_step(&mut c), Ok(Step::NeedFrame)));
    let routed = conn.accept_frame(&mut c, Token(1), br#"{"t":1,"r":[["default"]]}"#);
    assert!(routed);
    let step = conn.next_batch_step(&mut c).unwrap();
    let (payload, complete) = match step {
        Step::Batch(p, co) => (p, co),
        Step::NeedFrame => panic!("expected a batch"),
    };
    assert_eq!(payload, b"[\"default\"]".to_vec());
    assert_eq!(complete, Complete::Yes);
    assert!(c.exhausted());
    let result = expect_single_atom(Some((payload, complete)), c.exhausted()).unwrap();
    assert_eq!(result, b"[\"default\"]".to_vec());
}

#[test]
fn demultiplexes_out_of_order_tokens() {
    let mut conn = fresh();
    let (mut c1, _) = conn.run_cursor(db_list()).unwrap();
    let (mut c2, _) = conn.run_cursor(db_list()).unwrap();
    // The server answers token 2 first, then token 1 in three bodies.
    assert!(!conn.accept_frame(&mut c1, Token(2), br#"{"t":1,"r":[["x"]]}"#));
    assert!(conn.accept_frame(&mut c1, Token(1), br#"{"t":3,"r":[{"a":1}]}"#));
    assert!(conn.accept_frame(&mut c1, Token(1), br#"{"t":3,"r":[{"a":2}]}"#));
    assert!(conn.accept_frame(&mut c1, Token(1), br#"{"t":2,"r":[{"a":3}]}"#));
    // Token 1 sees its three bodies in order.
    match conn.next_batch_step(&mut c1).unwrap() {
        Step::Batch(p, co) => {
            assert_eq!(p, b"[{\"a\":1}]".to_vec());
            assert_eq!(co, Complete::No);
        },
        Step::NeedFrame => panic!("expected first partial"),
    }
    match conn.next_batch_step(&mut c1).unwrap() {
        Step::Batch(p, co) => {
            assert_eq!(p, b"[{\"a\":2}]".to_vec());
            assert_eq!(co, Complete::No);
        },
        Step::NeedFrame => panic!("expected second partial"),
    }
    match conn.next_batch_step(&mut c1).unwrap() {
        Step::Batch(p, co) => {
            assert_eq!(p, b"[{\"a\":3}]".to_vec());
            assert_eq!(co, Complete::Yes);
        },
        Step::NeedFrame => panic!("expected the final batch"),
    }
    assert!(c1.exhausted());
    // Token 2's body was stashed and is delivered when its cursor advances.
    match conn.next_batch_step(&mut c2).unwrap() {
        Step::Batch(p, co) => {
            assert_eq!(p, b"[\"x\"]".to_vec());
            assert_eq!(co, Complete::Yes);
        },
        Step::NeedFrame => panic!("expected the stashed atom"),
    }
}

#[test]
fn free_list_stays_bounded() {
    let mut conn = fresh();
    for _ in 0..100 {
        let (mut c, _) = conn.run_cursor(db_list()).unwrap();
        let token = c.token();
        conn.accept_frame(&mut c, token, br#"{"t":1,"r":[["d"]]}"#);
        match conn.next_batch_step(&mut c).unwrap() {
            Step::Batch(_, co) => assert_eq!(co, Complete::Yes),
            Step::NeedFrame => panic!("expected a batch"),
        }
        assert!(conn.free_buffers() <= 32);
    }
    assert!(conn.free_buffers() <= 32);
}

#[test]
fn reset_invalidates_outstanding_cursors() {
    let mut conn = fresh();
    let (mut c, _) = conn.run_cursor(db_list()).unwrap();
    let generation = conn.generation();
    conn.invalidate();
    assert_eq!(conn.generation(), generation + 1);
    let err = conn.next_batch_step(&mut c).unwrap_err();
    assert!(matches!(err.kind(), ErrorKind::ReadFromClosedCursor));
    // Even with a frame already routed, the stale cursor stays dead.
    let (mut c2, _) = conn.run_cursor(db_list()).unwrap();
    let token = c2.token();
    conn.accept_frame(&mut c2, token, br#"{"t":1,"r":[["d"]]}"#);
    conn.invalidate();
    let err = conn.next_batch_step(&mut c2).unwrap_err();
    assert!(matches!(err.kind(), ErrorKind::ReadFromClosedCursor));
}

#[test]
fn malformed_record_resets_the_connection() {
    let mut conn = fresh();
    let (mut c1, _) = conn.run_cursor(db_list()).unwrap();
    let (mut c2, _) = conn.run_cursor(db_list()).unwrap();
    let generation = conn.generation();
    assert!(conn.accept_frame(&mut c1, Token(1), b"garbage"));
    let err = conn.next_batch_step(&mut c1).unwrap_err();
    assert!(matches!(err.kind(), ErrorKind::Connection(_)));
    assert_eq!(conn.generation(), generation + 1);
    let err = conn.next_batch_step(&mut c2).unwrap_err();
    assert!(matches!(err.kind(), ErrorKind::ReadFromClosedCursor));
}

#[test]
fn timeout_leaves_the_cursor_usable() {
    let mut conn = fresh();
    let (mut c, _) = conn.run_cursor(db_list()).unwrap();
    // Nothing buffered: the caller would wait; a timeout surfaces as no
    // frame, and the cursor stays valid.
    assert!(matches!(conn.next_batch_step(&mut c), Ok(Step::NeedFrame)));
    let timed_out = expect_single_atom(None, c.exhausted());
    assert!(matches!(timed_out.unwrap_err().kind(), ErrorKind::IteratorTimeout));
    assert!(!c.exhausted());
    let token = c.token();
    conn.accept_frame(&mut c, token, br#"{"t":1,"r":[["late"]]}"#);
    match conn.next_batch_step(&mut c).unwrap() {
        Step::Batch(p, _) => assert_eq!(p, b"[\"late\"]".to_vec()),
        Step::NeedFrame => panic!("expected the late batch"),
    }
}

#[test]
fn sequence_of_wrong_shape_is_unexpected() {
    // An atom whose payload holds two documents has the wrong shape.
    let err = extract_from_response(br#"{"t":1,"r":["a","b"]}"#).unwrap_err();
    assert!(matches!(err.kind(), ErrorKind::UnexpectedResponse));
    let err = extract_from_response(br#"{"t":1,"r":[]}"#).unwrap_err();
    assert!(matches!(err.kind(), ErrorKind::UnexpectedResponse));
    // The single-atom convenience also rejects a sequence result.
    let r = expect_single_atom(Some((b"[]".to_vec(), Complete::No)), false);
    assert!(matches!(r.unwrap_err().kind(), ErrorKind::UnexpectedResponse));
}

#[test]
fn runtime_error_report() {
    let err = extract_from_response(br#"{"t":18,"e":3000000,"b":[],"r":["foo"]}"#).unwrap_err();
    match err.kind() {
        ErrorKind::Server { kind, code, span, message } => {
            assert_eq!(*kind, ServerErrorKind::Runtime);
            assert_eq!(*code, 3000000);
            assert!(span.is_empty());
            assert_eq!(message.as_str(), "foo");
        },
        other => panic!("expected a server error, got {:?}", other),
    }
}

#[test]
fn error_kinds_codes_and_spans() {
    let err = extract_from_response(br#"{"t":17,"e":5,"b":[1,2],"r":["a\nb"]}"#).unwrap_err();
    match err.kind() {
        ErrorKind::Server { kind, code, span, message } => {
            assert_eq!(*kind, ServerErrorKind::Compile);
            assert_eq!(*code, 5);
            assert_eq!(span.as_slice(), &[1, 2]);
            assert_eq!(message.as_str(), "a\nb");
        },
        other => panic!("expected a compile error, got {:?}", other),
    }
    let err = extract_from_response(br#"{"t":16,"b":[],"r":["oops"]}"#).unwrap_err();
    match err.kind() {
        ErrorKind::Server { kind, code, .. } => {
            assert_eq!(*kind, ServerErrorKind::Client);
            assert_eq!(*code, -1);
        },
        other => panic!("expected a client error, got {:?}", other),
    }
}

#[test]
fn error_messages_are_unescaped() {
    let err =
        extract_from_response(br#"{"t":16,"b":[],"r":["q\"b\\s\u00e9\ud83d\ude00"]}"#)
            .unwrap_err();
    match err.kind() {
        ErrorKind::Server { message, .. } => {
            assert_eq!(message.as_str(), "q\"b\\sé\u{1F600}");
        },
        other => panic!("expected a server error, got {:?}", other),
    }
}

#[test]
fn unknown_response_types_are_rejected() {
    let err = extract_from_response(br#"{"t":4,"r":[]}"#).unwrap_err();
    assert!(matches!(err.kind(), ErrorKind::Connection(_)));
    let err = extract_from_response(br#"{"t":5,"r":[]}"#).unwrap_err();
    assert!(matches!(err.kind(), ErrorKind::Connection(_)));
    let err = extract_from_response(b"not json").unwrap_err();
    assert!(matches!(err.kind(), ErrorKind::Connection(_)));
    let err = extract_from_response(br#"{"t":9"#).unwrap_err();
    assert!(matches!(err.kind(), ErrorKind::Connection(_)));
}

#[test]
fn server_error_exhausts_the_cursor_without_reset() {
    let mut conn = fresh();
    let (mut c, _) = conn.run_cursor(db_list()).unwrap();
    let generation = conn.generation();
    conn.accept_frame(&mut c, Token(1), br#"{"t":18,"e":1,"b":[],"r":["bad"]}"#);
    let err = conn.next_batch_step(&mut c).unwrap_err();
    assert!(matches!(err.kind(), ErrorKind::Server { .. }));
    assert!(c.exhausted());
    assert_eq!(conn.generation(), generation);
}

#[test]
fn iterator_fetch_decisions() {
    let batch = (b"[1]".to_vec(), Complete::No);
    match iter_batch_outcome(Some(batch), false).unwrap() {
        Some((p, c)) => {
            assert_eq!(p, b"[1]".to_vec());
            assert_eq!(c, Complete::No);
        },
        None => panic!("expected the batch"),
    }
    assert!(iter_batch_outcome(None, true).unwrap().is_none());
    let err = iter_batch_outcome(None, false).unwrap_err();
    assert!(matches!(err.kind(), ErrorKind::IteratorTimeout));
}

#[test]
fn batches_split_into_items() {
    assert_eq!(split_items(b"[]").unwrap(), Vec::<Vec<u8>>::new());
    assert_eq!(
        split_items(br#"[1,"a",[2,3],{"k":"v"}]"#).unwrap(),
        vec![
            b"1".to_vec(),
            b"\"a\"".to_vec(),
            b"[2,3]".to_vec(),
            b"{\"k\":\"v\"}".to_vec(),
        ]
    );
    assert_eq!(
        split_items(br#"["a,b","c]d"]"#).unwrap(),
        vec![b"\"a,b\"".to_vec(), b"\"c]d\"".to_vec()]
    );
    assert!(split_items(b"").is_none());
    assert!(split_items(b"[1,").is_none());
    assert!(split_items(b"1,2").is_none());
}

#[test]
fn partial_then_final_batches_stream_in_order() {
    // The wire exchange behind a ranged, limited read: one partial batch,
    // then the terminal batch; the iterator sees the items and stops.
    let mut conn = fresh();
    let q = db("d")
        .table("c")
        .between(reql_driver::query::MinVal, "B")
        .in_index("a")
        .with_right_bound("open")
        .limit(1u64);
    let (mut c, bytes) = conn.run_cursor(q).unwrap();
    let body = b"[1,[71,[[182,[[15,[[14,[\"d\"]],\"c\"]],[180],\"B\"],{\"index\":\"a\",\"right_bound\":\"open\"}],1]],{}]".to_vec();
    assert_eq!(bytes, frame(1, &body));
    let token = c.token();
    conn.accept_frame(&mut c, token, br#"{"t":3,"r":[{"id":"A1"}]}"#);
    let mut items: Vec<Vec<u8>> = Vec::new();
    match conn.next_batch_step(&mut c).unwrap() {
        Step::Batch(p, co) => {
            assert_eq!(co, Complete::No);
            items.extend(split_items(&p).unwrap());
        },
        Step::NeedFrame => panic!("expected the partial batch"),
    }
    // The cursor is live, so the driver sends CONTINUE and waits again.
    assert!(!c.exhausted());
    assert!(matches!(conn.next_batch_step(&mut c), Ok(Step::NeedFrame)));
    let _continue_bytes = conn.continue_request(&c);
    conn.accept_frame(&mut c, token, br#"{"t":2,"r":[]}"#);
    match conn.next_batch_step(&mut c).unwrap() {
        Step::Batch(p, co) => {
            assert_eq!(co, Complete::Yes);
            items.extend(split_items(&p).unwrap());
        },
        Step::NeedFrame => panic!("expected the final batch"),
    }
    assert!(c.exhausted());
    assert_eq!(items, vec![b"{\"id\":\"A1\"}".to_vec()]);
}
