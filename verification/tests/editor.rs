use ginger_code::editor::rpc::{
    decode_message, encode_notification, encode_request, encode_response, RpcClient, RpcError,
    RpcMessage, RpcValue,
};
use ginger_code::editor::{bundled_binary_path, choose_binary, EditorError};

#[test]
fn encoded_messages_decode_back() {
    match decode_message(encode_request(7, "nvim_get_mode", vec![RpcValue::Boolean(true)])) {
        Ok(RpcMessage::Request { msgid, method, params }) => {
            assert_eq!((msgid, method.as_str(), params.len()), (7, "nvim_get_mode", 1));
        }
        other => panic!("{other:?}"),
    }
    match decode_message(encode_notification("redraw", vec![])) {
        Ok(RpcMessage::Notification { method, params }) => {
            assert_eq!(method, "redraw");
            assert!(params.is_empty());
        }
        other => panic!("{other:?}"),
    }
    match decode_message(encode_response(3, RpcValue::Integer(42), RpcValue::Nil)) {
        Ok(RpcMessage::Response { msgid, result: RpcValue::Integer(42), error: RpcValue::Nil }) => assert_eq!(msgid, 3),
        other => panic!("{other:?}"),
    }
}

fn decode_error(v: RpcValue) -> String {
    match decode_message(v) {
        Err(RpcError::Decode(m)) => m,
        other => panic!("{other:?}"),
    }
}

#[test]
fn malformed_messages_are_refused() {
    assert_eq!(decode_error(RpcValue::Nil), "not an array");
    assert_eq!(decode_error(RpcValue::Array(vec![])), "empty message");
    assert_eq!(decode_error(RpcValue::Array(vec![RpcValue::Str("x".to_string())])), "invalid msgtype");
    assert_eq!(decode_error(RpcValue::Array(vec![RpcValue::Integer(0), RpcValue::Integer(1)])), "request too short");
    assert_eq!(decode_error(RpcValue::Array(vec![RpcValue::Integer(1)])), "response too short");
    assert_eq!(decode_error(RpcValue::Array(vec![RpcValue::Integer(2)])), "notification too short");
    assert_eq!(decode_error(RpcValue::Array(vec![RpcValue::Integer(-4)])), "unknown msgtype: -4");
    assert_eq!(RpcError::Decode("x".to_string()).to_text(), "rpc decode error: x");
    assert_eq!(RpcError::Timeout.to_text(), "rpc timeout");
}

#[test]
fn loose_fields_take_defaults() {
    let v = RpcValue::Array(vec![
        RpcValue::Integer(0),
        RpcValue::Integer(-1),
        RpcValue::Binary(vec![1]),
        RpcValue::Nil,
    ]);
    match decode_message(v) {
        Ok(RpcMessage::Request { msgid, method, params }) => {
            assert_eq!(msgid, 0);
            assert_eq!(method, "");
            assert!(params.is_empty());
        }
        other => panic!("{other:?}"),
    }
}

#[test]
fn message_ids_count_up() {
    let mut c = RpcClient::new();
    assert_eq!(c.next_msgid(), 1);
    assert_eq!(c.next_msgid(), 2);
}

#[test]
fn bundled_neovim_is_preferred() {
    assert_eq!(bundled_binary_path("/rt"), "/rt/bin/nvim");
    assert_eq!(choose_binary("/rt", true, Some("/usr/bin/nvim".to_string())).unwrap(), "/rt/bin/nvim");
    assert_eq!(choose_binary("/rt", false, Some("/usr/bin/nvim".to_string())).unwrap(), "/usr/bin/nvim");
    match choose_binary("/rt", false, None) {
        Err(EditorError::BinaryNotFound(m)) => assert_eq!(m, "nvim not found in bundled runtime or PATH"),
        other => panic!("{other:?}"),
    }
    assert_eq!(EditorError::StartFailed("x".to_string()).to_text(), "failed to start neovim: x");
}
