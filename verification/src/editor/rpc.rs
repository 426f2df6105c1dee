//! Msgpack-RPC messages exchanged with `nvim --embed`: requests
//! `[0, msgid, method, params]`, responses `[1, msgid, error, result]` and
//! notifications `[2, method, params]`.

use crate::text::{concat, decimal, i64_to_decimal, owned};
use vstd::prelude::*;

verus! {

/// A msgpack value. Floating-point numbers are carried as their IEEE bits;
/// a string that is not valid UTF-8 keeps its bytes.
#[derive(Debug)]
pub enum RpcValue {
    Nil,
    Boolean(bool),
    Integer(i128),
    F32Bits(u32),
    F64Bits(u64),
    Str(String),
    InvalidStr(Vec<u8>),
    Binary(Vec<u8>),
    Array(Vec<RpcValue>),
    Pairs(Vec<(RpcValue, RpcValue)>),
    Ext(i8, Vec<u8>),
}

#[derive(Debug, Clone)]
pub enum RpcError {
    Read(String),
    Write(String),
    Decode(String),
    Timeout,
}

/// The message of an error, as `Display` writes it.
pub open spec fn rpc_error_text(e: RpcError) -> Seq<char> {
    match e {
        RpcError::Read(s) => "rpc read error: "@ + s@,
        RpcError::Write(s) => "rpc write error: "@ + s@,
        RpcError::Decode(s) => "rpc decode error: "@ + s@,
        RpcError::Timeout => "rpc timeout"@,
    }
}

impl RpcError {
    /// The error's message.
    pub fn to_text(&self) -> (r: String)
        ensures
            r@ == rpc_error_text(*self),
    {
        match self {
            RpcError::Read(s) => concat("rpc read error: ", s.as_str()),
            RpcError::Write(s) => concat("rpc write error: ", s.as_str()),
            RpcError::Decode(s) => concat("rpc decode error: ", s.as_str()),
            RpcError::Timeout => owned("rpc timeout"),
        }
    }
}

/// A decoded msgpack-RPC message.
#[derive(Debug)]
pub enum RpcMessage {
    Request { msgid: u64, method: String, params: Vec<RpcValue> },
    Response { msgid: u64, result: RpcValue, error: RpcValue },
    Notification { method: String, params: Vec<RpcValue> },
}

pub enum RpcMessageView {
    Request { msgid: u64, method: Seq<char>, params: Seq<RpcValue> },
    Response { msgid: u64, result: RpcValue, error: RpcValue },
    Notification { method: Seq<char>, params: Seq<RpcValue> },
}

impl View for RpcMessage {
    type V = RpcMessageView;

    open spec fn view(&self) -> RpcMessageView {
        match *self {
            RpcMessage::Request { msgid, method, params } => RpcMessageView::Request {
                msgid,
                method: method@,
                params: params@,
            },
            RpcMessage::Response { msgid, result, error } => RpcMessageView::Response {
                msgid,
                result,
                error,
            },
            RpcMessage::Notification { method, params } => RpcMessageView::Notification {
                method: method@,
                params: params@,
            },
        }
    }
}

/// The value as a signed 64-bit integer, when it is an integer in range.
pub open spec fn as_i64(v: RpcValue) -> Option<i64> {
    match v {
        RpcValue::Integer(n) => if i64::MIN <= n <= i64::MAX {
            Some(n as i64)
        } else {
            None
        },
        _ => None,
    }
}

/// The value as an unsigned 64-bit integer, or 0 when it is none.
pub open spec fn u64_or_zero(v: RpcValue) -> u64 {
    match v {
        RpcValue::Integer(n) => if 0 <= n <= u64::MAX {
            n as u64
        } else {
            0
        },
        _ => 0,
    }
}

/// The value's text when it is a valid string, or the empty text.
pub open spec fn str_or_empty(v: RpcValue) -> Seq<char> {
    match v {
        RpcValue::Str(s) => s@,
        _ => seq![],
    }
}

/// The value's elements when it is an array, or none.
pub open spec fn array_or_empty(v: RpcValue) -> Seq<RpcValue> {
    match v {
        RpcValue::Array(a) => a@,
        _ => seq![],
    }
}

/// The message a value decodes to, or the reason it does not.
pub open spec fn decoded(v: RpcValue) -> Result<RpcMessageView, Seq<char>> {
    match v {
        RpcValue::Array(arr) => {
            let a = arr@;
            if a.len() == 0 {
                Err("empty message"@)
            } else {
                match as_i64(a[0]) {
                    None => Err("invalid msgtype"@),
                    Some(t) => if t == 0 {
                        if a.len() < 4 {
                            Err("request too short"@)
                        } else {
                            Ok(
                                RpcMessageView::Request {
                                    msgid: u64_or_zero(a[1]),
                                    method: str_or_empty(a[2]),
                                    params: array_or_empty(a[3]),
                                },
                            )
                        }
                    } else if t == 1 {
                        if a.len() < 4 {
                            Err("response too short"@)
                        } else {
                            Ok(
                                RpcMessageView::Response {
                                    msgid: u64_or_zero(a[1]),
                                    result: a[3],
                                    error: a[2],
                                },
                            )
                        }
                    } else if t == 2 {
                        if a.len() < 3 {
                            Err("notification too short"@)
                        } else {
                            Ok(
                                RpcMessageView::Notification {
                                    method: str_or_empty(a[1]),
                                    params: array_or_empty(a[2]),
                                },
                            )
                        }
                    } else {
                        Err("unknown msgtype: "@ + decimal(t as int))
                    },
                }
            }
        },
        _ => Err("not an array"@),
    }
}

fn as_i64_exec(v: &RpcValue) -> (r: Option<i64>)
    ensures
        r == as_i64(*v),
{
    match v {
        RpcValue::Integer(n) => if -9223372036854775808i128 <= *n && *n <= 9223372036854775807i128 {
            Some(*n as i64)
        } else {
            None
        },
        _ => None,
    }
}

fn u64_or_zero_exec(v: &RpcValue) -> (r: u64)
    ensures
        r == u64_or_zero(*v),
{
    match v {
        RpcValue::Integer(n) => if 0 <= *n && *n <= 18446744073709551615i128 {
            *n as u64
        } else {
            0
        },
        _ => 0,
    }
}

fn into_text(v: RpcValue) -> (r: String)
    ensures
        r@ == str_or_empty(v),
{
    match v {
        RpcValue::Str(s) => s,
        _ => String::new(),
    }
}

fn into_elements(v: RpcValue) -> (r: Vec<RpcValue>)
    ensures
        r@ == array_or_empty(v),
{
    match v {
        RpcValue::Array(a) => a,
        _ => Vec::new(),
    }
}

/// Decodes a msgpack-RPC message from the value it was read as.
pub fn decode_message(val: RpcValue) -> (r: Result<RpcMessage, RpcError>)
    ensures
        match decoded(val) {
            Ok(m) => r matches Ok(x) && x@ == m,
            Err(e) => r matches Err(RpcError::Decode(s)) && s@ == e,
        },
{
    let mut arr = match val {
        RpcValue::Array(a) => a,
        _ => {
            return Err(RpcError::Decode(owned("not an array")));
        },
    };
    let ghost a = arr@;
    if arr.len() == 0 {
        return Err(RpcError::Decode(owned("empty message")));
    }
    let msgtype = match as_i64_exec(&arr[0]) {
        Some(t) => t,
        None => {
            return Err(RpcError::Decode(owned("invalid msgtype")));
        },
    };
    if msgtype == 0 {
        if arr.len() < 4 {
            return Err(RpcError::Decode(owned("request too short")));
        }
        let msgid = u64_or_zero_exec(&arr[1]);
        let params = arr.remove(3);
        let method = arr.remove(2);
        assert(params == a[3] && method == a[2]);
        Ok(RpcMessage::Request { msgid, method: into_text(method), params: into_elements(params) })
    } else if msgtype == 1 {
        if arr.len() < 4 {
            return Err(RpcError::Decode(owned("response too short")));
        }
        let msgid = u64_or_zero_exec(&arr[1]);
        let result = arr.remove(3);
        let error = arr.remove(2);
        assert(result == a[3] && error == a[2]);
        Ok(RpcMessage::Response { msgid, result, error })
    } else if msgtype == 2 {
        if arr.len() < 3 {
            return Err(RpcError::Decode(owned("notification too short")));
        }
        let params = arr.remove(2);
        let method = arr.remove(1);
        assert(params == a[2] && method == a[1]);
        Ok(RpcMessage::Notification { method: into_text(method), params: into_elements(params) })
    } else {
        let n = i64_to_decimal(msgtype);
        Err(RpcError::Decode(concat("unknown msgtype: ", n.as_str())))
    }
}

/// The value is the request `[0, msgid, method, params]`.
pub open spec fn is_request(v: RpcValue, msgid: u64, method: Seq<char>, params: Seq<RpcValue>) -> bool {
    v matches RpcValue::Array(a) && a@.len() == 4 && a@[0] == RpcValue::Integer(0)
        && a@[1] == RpcValue::Integer(msgid as i128) && (a@[2] matches RpcValue::Str(s) && s@
        == method) && (a@[3] matches RpcValue::Array(p) && p@ == params)
}

/// The value is the notification `[2, method, params]`.
pub open spec fn is_notification(v: RpcValue, method: Seq<char>, params: Seq<RpcValue>) -> bool {
    v matches RpcValue::Array(a) && a@.len() == 3 && a@[0] == RpcValue::Integer(2) && (a@[1] matches RpcValue::Str(
        s,
    ) && s@ == method) && (a@[2] matches RpcValue::Array(p) && p@ == params)
}

/// The value is the response `[1, msgid, error, result]`.
pub open spec fn is_response(v: RpcValue, msgid: u64, result: RpcValue, error: RpcValue) -> bool {
    v matches RpcValue::Array(a) && a@.len() == 4 && a@[0] == RpcValue::Integer(1)
        && a@[1] == RpcValue::Integer(msgid as i128) && a@[2] == error && a@[3] == result
}

/// The request `[0, msgid, method, params]`.
pub fn encode_request(msgid: u64, method: &str, params: Vec<RpcValue>) -> (r: RpcValue)
    ensures
        is_request(r, msgid, method@, params@),
{
    let ghost p = params@;
    let items = vec![
        RpcValue::Integer(0),
        RpcValue::Integer(msgid as i128),
        RpcValue::Str(owned(method)),
        RpcValue::Array(params),
    ];
    RpcValue::Array(items)
}

/// The notification `[2, method, params]`.
pub fn encode_notification(method: &str, params: Vec<RpcValue>) -> (r: RpcValue)
    ensures
        is_notification(r, method@, params@),
{
    let items = vec![RpcValue::Integer(2), RpcValue::Str(owned(method)), RpcValue::Array(params)];
    RpcValue::Array(items)
}

/// The response `[1, msgid, error, result]`.
pub fn encode_response(msgid: u64, result: RpcValue, error: RpcValue) -> (r: RpcValue)
    ensures
        is_response(r, msgid, result, error),
{
    let items = vec![RpcValue::Integer(1), RpcValue::Integer(msgid as i128), error, result];
    RpcValue::Array(items)
}

/// A request decodes to the request that was encoded.
pub proof fn request_roundtrip(v: RpcValue, msgid: u64, method: Seq<char>, params: Seq<RpcValue>)
    requires
        is_request(v, msgid, method, params),
    ensures
        decoded(v) == Ok::<RpcMessageView, Seq<char>>(RpcMessageView::Request { msgid, method, params }),
{
}

/// A notification decodes to the notification that was encoded.
pub proof fn notification_roundtrip(v: RpcValue, method: Seq<char>, params: Seq<RpcValue>)
    requires
        is_notification(v, method, params),
    ensures
        decoded(v) == Ok::<RpcMessageView, Seq<char>>(RpcMessageView::Notification { method, params }),
{
}

/// A response decodes to the response that was encoded.
pub proof fn response_roundtrip(v: RpcValue, msgid: u64, result: RpcValue, error: RpcValue)
    requires
        is_response(v, msgid, result, error),
    ensures
        decoded(v) == Ok::<RpcMessageView, Seq<char>>(RpcMessageView::Response { msgid, result, error }),
{
}

/// Hands out message ids: 1, 2, 3, and so on.
pub struct RpcClient {
    next_msgid: u64,
}

impl RpcClient {
    pub closed spec fn upcoming(self) -> u64 {
        self.next_msgid
    }

    /// A client whose first message id is 1.
    pub fn new() -> (r: Self)
        ensures
            r.upcoming() == 1,
    {
        RpcClient { next_msgid: 1 }
    }

    /// The next message id; ids are handed out in increasing order.
    pub fn next_msgid(&mut self) -> (r: u64)
        requires
            old(self).upcoming() < u64::MAX,
        ensures
            r == old(self).upcoming(),
            final(self).upcoming() == old(self).upcoming() + 1,
    {
        let current = self.next_msgid;
        self.next_msgid = current + 1;
        current
    }
}

} // verus!
