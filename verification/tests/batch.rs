use ws_net::batch::{
    push_ws_message, try_merge_ws_binary, ws_message_size, WriteBatch, WsMessage,
    WS_DATA_FRAME_MAX_PAYLOAD, WS_WRITE_BATCH_MAX_BYTES, WS_WRITE_BATCH_MAX_MESSAGES,
};
use ws_net::message::{decode_data_frame, encode_data_frame};

#[test]
fn writer_batch_merges_same_stream_payloads() {
    let first = WsMessage::Binary(encode_data_frame(21, b"left"));
    let mut bytes = ws_message_size(&first);
    let mut batch = vec![first];

    assert!(matches!(
        push_ws_message(
            &mut batch,
            &mut bytes,
            WsMessage::Binary(encode_data_frame(21, b"right")),
        ),
        Ok(false)
    ));
    assert_eq!(batch.len(), 1);
    let WsMessage::Binary(frame) = &batch[0] else {
        panic!("expected binary frame");
    };
    assert_eq!(decode_data_frame(frame), Some((21, b"leftright".to_vec())));
}

#[test]
fn writer_batch_does_not_merge_different_streams() {
    let first = WsMessage::Binary(encode_data_frame(21, b"left"));
    let mut bytes = ws_message_size(&first);
    let mut batch = vec![first];

    assert!(matches!(
        push_ws_message(
            &mut batch,
            &mut bytes,
            WsMessage::Binary(encode_data_frame(22, b"right")),
        ),
        Ok(false)
    ));
    assert_eq!(batch.len(), 2);
}

#[test]
fn writer_batch_merges_same_stream_and_preserves_payload_order() {
    let first = WsMessage::Binary(encode_data_frame(11, b"abc"));
    let mut bytes = ws_message_size(&first);
    let mut batch = vec![first];

    assert_eq!(
        push_ws_message(
            &mut batch,
            &mut bytes,
            WsMessage::Binary(encode_data_frame(11, b"def")),
        ),
        Ok(false)
    );
    assert_eq!(batch.len(), 1);
    let WsMessage::Binary(frame) = &batch[0] else {
        panic!("expected binary frame");
    };
    assert_eq!(decode_data_frame(frame), Some((11, b"abcdef".to_vec())));
}

#[test]
fn writer_batch_keeps_different_streams_separate_and_ordered() {
    let first = WsMessage::Binary(encode_data_frame(11, b"first"));
    let mut bytes = ws_message_size(&first);
    let mut batch = vec![first];

    assert_eq!(
        push_ws_message(
            &mut batch,
            &mut bytes,
            WsMessage::Binary(encode_data_frame(12, b"second")),
        ),
        Ok(false)
    );
    assert_eq!(batch.len(), 2);
    let ids = batch
        .iter()
        .map(|message| match message {
            WsMessage::Binary(frame) => decode_data_frame(frame).unwrap().0,
            _ => panic!("expected binary frame"),
        })
        .collect::<Vec<_>>();
    assert_eq!(ids, vec![11, 12]);
}

#[test]
fn writer_batch_flushes_after_a_control_message() {
    let first = WsMessage::Binary(encode_data_frame(11, b"payload"));
    let mut bytes = ws_message_size(&first);
    let mut batch = vec![first];

    assert_eq!(
        push_ws_message(&mut batch, &mut bytes, WsMessage::Ping(vec![1, 2, 3])),
        Ok(true)
    );
    assert!(matches!(batch[1], WsMessage::Ping(_)));
}

#[test]
fn writer_batch_defers_a_message_that_would_exceed_the_batch_limit() {
    let first = WsMessage::Binary(vec![0; WS_WRITE_BATCH_MAX_BYTES]);
    let mut bytes = ws_message_size(&first);
    let mut batch = vec![first];
    let next = WsMessage::Binary(encode_data_frame(12, b"next"));

    let deferred = push_ws_message(&mut batch, &mut bytes, next).unwrap_err();
    assert_eq!(batch.len(), 1);
    assert!(matches!(deferred, WsMessage::Binary(_)));
}

#[test]
fn sizes_are_those_of_the_bytes() {
    assert_eq!(ws_message_size(&WsMessage::Text("héé".to_string())), 5);
    assert_eq!(ws_message_size(&WsMessage::Binary(vec![0; 9])), 9);
    assert_eq!(ws_message_size(&WsMessage::Ping(vec![0; 3])), 3);
    assert_eq!(ws_message_size(&WsMessage::Pong(vec![0; 4])), 4);
    assert_eq!(ws_message_size(&WsMessage::Close), 0);
    assert_eq!(ws_message_size(&WsMessage::Frame), 0);
}

#[test]
fn batch_bytes_follow_the_messages() {
    let first = WsMessage::Binary(encode_data_frame(1, b"abc"));
    let mut bytes = ws_message_size(&first);
    let mut batch = vec![first];
    let steps = [
        (WsMessage::Binary(encode_data_frame(1, b"de")), 13),
        (WsMessage::Binary(encode_data_frame(2, b"f")), 22),
        (WsMessage::Text("xyz".to_string()), 25),
    ];
    for (message, expected) in steps {
        push_ws_message(&mut batch, &mut bytes, message).unwrap();
        assert_eq!(bytes, expected);
        assert_eq!(batch.iter().map(ws_message_size).sum::<usize>(), expected);
    }
}

#[test]
fn a_batch_may_be_filled_exactly() {
    let first = WsMessage::Binary(vec![0; WS_WRITE_BATCH_MAX_BYTES - 9]);
    let mut bytes = ws_message_size(&first);
    let mut batch = vec![first];
    let next = WsMessage::Binary(encode_data_frame(12, b"n"));
    assert_eq!(push_ws_message(&mut batch, &mut bytes, next), Ok(false));
    assert_eq!(bytes, WS_WRITE_BATCH_MAX_BYTES);
}

#[test]
fn merging_stops_at_the_payload_limit() {
    let full = vec![7; WS_DATA_FRAME_MAX_PAYLOAD];
    let mut current = WsMessage::Binary(encode_data_frame(3, &full[1..]));
    assert!(try_merge_ws_binary(&mut current, &WsMessage::Binary(encode_data_frame(3, b"x"))));
    let before = current.clone();
    assert!(!try_merge_ws_binary(&mut current, &WsMessage::Binary(encode_data_frame(3, b"y"))));
    assert_eq!(current, before);
    assert!(!try_merge_ws_binary(&mut current, &WsMessage::Text("t".to_string())));
    assert!(!try_merge_ws_binary(&mut WsMessage::Close, &before));
}

#[test]
fn a_batch_is_written_whole_and_in_order() {
    let mut batch = WriteBatch::begin(WsMessage::Binary(encode_data_frame(1, b"a")));
    assert!(batch.wants_more());
    batch.offer(WsMessage::Binary(encode_data_frame(1, b"b")));
    batch.offer(WsMessage::Binary(encode_data_frame(2, b"c")));
    assert!(batch.wants_more());
    batch.offer(WsMessage::Text("end".to_string()));
    assert!(!batch.wants_more());
    let (messages, deferred) = batch.finish();
    assert_eq!(
        messages,
        vec![
            WsMessage::Binary(encode_data_frame(1, b"ab")),
            WsMessage::Binary(encode_data_frame(2, b"c")),
            WsMessage::Text("end".to_string()),
        ]
    );
    assert_eq!(deferred, None);
}

#[test]
fn a_batch_that_begins_with_a_control_message_is_sent_alone() {
    let batch = WriteBatch::begin(WsMessage::Text("control".to_string()));
    assert!(!batch.wants_more());
    assert_eq!(batch.finish(), (vec![WsMessage::Text("control".to_string())], None));
}

#[test]
fn a_message_that_does_not_fit_begins_the_next_batch() {
    let large = WsMessage::Binary(vec![0; WS_WRITE_BATCH_MAX_BYTES]);
    let mut batch = WriteBatch::begin(large.clone());
    let next = WsMessage::Binary(encode_data_frame(12, b"next"));
    batch.offer(next.clone());
    assert!(!batch.wants_more());
    assert_eq!(batch.finish(), (vec![large], Some(next)));
}

#[test]
fn a_batch_holds_a_limited_number_of_messages() {
    let mut batch = WriteBatch::begin(WsMessage::Binary(encode_data_frame(0, b"x")));
    let mut stream_id = 1;
    while batch.wants_more() {
        batch.offer(WsMessage::Binary(encode_data_frame(stream_id, b"x")));
        stream_id += 1;
    }
    assert_eq!(batch.finish().0.len(), WS_WRITE_BATCH_MAX_MESSAGES);
}

#[test]
fn payloads_keep_their_order_over_several_batches() {
    let parts: Vec<Vec<u8>> = (0..10_u8).map(|i| vec![i; 60 * 1024]).collect();
    let mut queue: Vec<WsMessage> =
        parts.iter().map(|part| WsMessage::Binary(encode_data_frame(1, part))).collect();
    queue.reverse();
    let mut written = Vec::new();
    let mut batches = 0;
    let mut pending = queue.pop();
    while let Some(first) = pending.take() {
        let mut batch = WriteBatch::begin(first);
        while batch.wants_more() {
            match queue.pop() {
                Some(message) => batch.offer(message),
                None => break,
            }
        }
        let (messages, deferred) = batch.finish();
        batches += 1;
        for message in messages {
            let WsMessage::Binary(frame) = message else {
                panic!("expected binary frame");
            };
            written.extend(decode_data_frame(&frame).unwrap().1);
        }
        pending = deferred.or_else(|| queue.pop());
    }
    assert_eq!(batches, 3);
    assert_eq!(written, parts.concat());
}
