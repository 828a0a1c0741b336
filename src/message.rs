//! Hub protocol messages and their decoding from one frame of JSON text.
//! JSON payloads (arguments, results) are carried as raw JSON text.
use vstd::prelude::*;
use crate::json::{
    elements_of, nullable_string_of, object_members, string_of, unsigned_of, parse_elements,
    parse_nullable_string, parse_object, parse_string, parse_unsigned, quote, quoted,
};
use crate::text::{join, joined, same_text};

verus! {

/// Wire code of an invocation message.
pub const INVOCATION_TYPE: u64 = 1;

/// Wire code of a completion message.
pub const COMPLETION_TYPE: u64 = 3;

/// Wire code of a ping message.
pub const PING_TYPE: u64 = 6;

/// A request to run a named method with positional arguments.
#[derive(Debug, Clone, PartialEq, Eq)]
pub struct InvocationMessage {
    pub invocation_id: Option<String>,
    pub target: String,
    pub arguments: Vec<String>,
}

/// The answer to an invocation: a result or an error, for one invocation ID.
#[derive(Debug, Clone, PartialEq, Eq)]
pub struct CompletionMessage {
    pub invocation_id: String,
    pub result: Option<String>,
    pub error: Option<String>,
}

/// A decoded hub message.
#[derive(Debug, Clone, PartialEq, Eq)]
pub enum SignalRMessage {
    Ping,
    Invocation(InvocationMessage),
    Completion(CompletionMessage),
}

/// Why a frame could not be decoded.
#[derive(PartialEq, Eq, Structural, Clone, Copy, Debug)]
pub enum ProtocolError {
    /// The frame has no unsigned integer `type` member.
    MissingTag,
    /// The frame's `type` is not one of the message kinds handled here.
    UnsupportedType(u64),
    /// The frame is not a JSON object, or lacks a member its kind needs.
    MalformedMessage,
}

/// The mathematical content of a message.
pub enum MessageModel {
    Ping,
    Invocation {
        invocation_id: Option<Seq<char>>,
        target: Seq<char>,
        arguments: Seq<Seq<char>>,
    },
    Completion { invocation_id: Seq<char>, result: Option<Seq<char>>, error: Option<Seq<char>> },
}

pub open spec fn opt_view(o: Option<String>) -> Option<Seq<char>> {
    match o {
        Some(s) => Some(s@),
        None => None,
    }
}

impl InvocationMessage {
    pub open spec fn model(&self) -> MessageModel {
        MessageModel::Invocation {
            invocation_id: opt_view(self.invocation_id),
            target: self.target@,
            arguments: self.arguments@.map_values(|t: String| t@),
        }
    }

    pub fn new(invocation_id: String, target: String, arguments: Vec<String>) -> (r: Self)
        ensures
            r.invocation_id == Some(invocation_id),
            r.target == target,
            r.arguments == arguments,
    {
        InvocationMessage { invocation_id: Some(invocation_id), target, arguments }
    }
}

impl CompletionMessage {
    pub open spec fn model(&self) -> MessageModel {
        MessageModel::Completion {
            invocation_id: self.invocation_id@,
            result: opt_view(self.result),
            error: opt_view(self.error),
        }
    }

    pub fn new(invocation_id: String, result: Option<String>, error: Option<String>) -> (r: Self)
        ensures
            r.invocation_id == invocation_id,
            r.result == result,
            r.error == error,
    {
        CompletionMessage { invocation_id, result, error }
    }
}

impl SignalRMessage {
    pub open spec fn model(&self) -> MessageModel {
        match self {
            SignalRMessage::Ping => MessageModel::Ping,
            SignalRMessage::Invocation(m) => m.model(),
            SignalRMessage::Completion(m) => m.model(),
        }
    }
}

/// The raw text of the first member of `ms` named `key`.
pub open spec fn member(ms: Seq<(Seq<char>, Seq<char>)>, key: Seq<char>) -> Option<Seq<char>>
    decreases ms.len(),
{
    if ms.len() == 0 {
        None
    } else if ms[0].0 == key {
        Some(ms[0].1)
    } else {
        member(ms.drop_first(), key)
    }
}

/// An optional member that is a string or `null`: `Some(None)` where it is
/// absent or `null`, `None` where it holds anything else.
pub open spec fn optional_string(ms: Seq<(Seq<char>, Seq<char>)>, key: Seq<char>) -> Option<
    Option<Seq<char>>,
> {
    match member(ms, key) {
        None => Some(None),
        Some(t) => nullable_string_of(t),
    }
}

pub open spec fn decode_invocation(ms: Seq<(Seq<char>, Seq<char>)>) -> Result<
    MessageModel,
    ProtocolError,
> {
    let target = match member(ms, "target"@) {
        Some(t) => string_of(t),
        None => None,
    };
    let arguments = match member(ms, "arguments"@) {
        Some(t) => elements_of(t),
        None => None,
    };
    let id = optional_string(ms, "invocationId"@);
    if target is Some && arguments is Some && id is Some {
        Ok(
            MessageModel::Invocation {
                invocation_id: id->0,
                target: target->0,
                arguments: arguments->0,
            },
        )
    } else {
        Err(ProtocolError::MalformedMessage)
    }
}

pub open spec fn decode_completion(ms: Seq<(Seq<char>, Seq<char>)>) -> Result<
    MessageModel,
    ProtocolError,
> {
    let id = match member(ms, "invocationId"@) {
        Some(t) => string_of(t),
        None => None,
    };
    let error = optional_string(ms, "error"@);
    if id is Some && error is Some {
        Ok(
            MessageModel::Completion {
                invocation_id: id->0,
                result: member(ms, "result"@),
                error: error->0,
            },
        )
    } else {
        Err(ProtocolError::MalformedMessage)
    }
}

/// What one frame of text decodes to: the `type` member is read first, then
/// the members that the message kind it names requires.
pub open spec fn decode_spec(s: Seq<char>) -> Result<MessageModel, ProtocolError> {
    match object_members(s) {
        None => Err(ProtocolError::MalformedMessage),
        Some(ms) => match member(ms, "type"@) {
            None => Err(ProtocolError::MissingTag),
            Some(t) => match unsigned_of(t) {
                None => Err(ProtocolError::MissingTag),
                Some(code) => if code == INVOCATION_TYPE {
                    decode_invocation(ms)
                } else if code == COMPLETION_TYPE {
                    decode_completion(ms)
                } else if code == PING_TYPE {
                    Ok(MessageModel::Ping)
                } else {
                    Err(ProtocolError::UnsupportedType(code))
                },
            },
        },
    }
}

/// Finds the first member named `key`.
fn find_member<'a>(ms: &'a Vec<(String, String)>, key: &str) -> (r: Option<&'a String>)
    ensures
        r is Some == member(ms@.map_values(|p: (String, String)| (p.0@, p.1@)), key@) is Some,
        r is Some ==> r->0@ == member(ms@.map_values(|p: (String, String)| (p.0@, p.1@)), key@)->0,
{
    let ghost all = ms@.map_values(|p: (String, String)| (p.0@, p.1@));
    let mut i: usize = 0;
    assert(all.subrange(0, all.len() as int) == all);
    while i < ms.len()
        invariant
            i <= ms@.len(),
            all == ms@.map_values(|p: (String, String)| (p.0@, p.1@)),
            member(all, key@) == member(all.subrange(i as int, all.len() as int), key@),
        decreases ms.len() - i,
    {
        let ghost rest = all.subrange(i as int, all.len() as int);
        assert(rest.drop_first() == all.subrange(i + 1, all.len() as int));
        if same_text(ms[i].0.as_str(), key) {
            return Some(&ms[i].1);
        }
        i = i + 1;
    }
    None
}

/// Reads an optional string-or-null member, as `optional_string` says.
pub(crate) fn read_optional_string(ms: &Vec<(String, String)>, key: &str) -> (r: Option<Option<String>>)
    ensures
        r is Some == optional_string(ms@.map_values(|p: (String, String)| (p.0@, p.1@)), key@) is Some,
        r is Some ==> opt_view(r->0) == optional_string(
            ms@.map_values(|p: (String, String)| (p.0@, p.1@)),
            key@,
        )->0,
{
    match find_member(ms, key) {
        None => Some(None),
        Some(t) => parse_nullable_string(t.as_str()),
    }
}

/// Reads a required string member.
fn read_string(ms: &Vec<(String, String)>, key: &str) -> (r: Option<String>)
    ensures
        r is Some == (member(ms@.map_values(|p: (String, String)| (p.0@, p.1@)), key@) is Some
            && string_of(member(ms@.map_values(|p: (String, String)| (p.0@, p.1@)), key@)->0) is Some),
        r is Some ==> r->0@ == string_of(
            member(ms@.map_values(|p: (String, String)| (p.0@, p.1@)), key@)->0,
        )->0,
{
    match find_member(ms, key) {
        None => None,
        Some(t) => parse_string(t.as_str()),
    }
}

/// Decodes one frame of text into a message.
pub fn decode_message(frame: &str) -> (r: Result<SignalRMessage, ProtocolError>)
    ensures
        match r {
            Ok(m) => decode_spec(frame@) == Ok::<MessageModel, ProtocolError>(m.model()),
            Err(e) => decode_spec(frame@) == Err::<MessageModel, ProtocolError>(e),
        },
{
    let ms = match parse_object(frame) {
        None => return Err(ProtocolError::MalformedMessage),
        Some(ms) => ms,
    };
    let ghost all = ms@.map_values(|p: (String, String)| (p.0@, p.1@));
    assert(object_members(frame@) == Some(all)) by {
        assert(all =~= object_members(frame@)->0);
    }
    let code = match find_member(&ms, "type") {
        None => return Err(ProtocolError::MissingTag),
        Some(t) => match parse_unsigned(t.as_str()) {
            None => return Err(ProtocolError::MissingTag),
            Some(code) => code,
        },
    };
    if code == INVOCATION_TYPE {
        let target = read_string(&ms, "target");
        let arguments = match find_member(&ms, "arguments") {
            Some(t) => parse_elements(t.as_str()),
            None => None,
        };
        let id = read_optional_string(&ms, "invocationId");
        match (target, arguments, id) {
            (Some(target), Some(arguments), Some(invocation_id)) => {
                let m = InvocationMessage { invocation_id, target, arguments };
                assert(m.arguments@.map_values(|t: String| t@) =~= elements_of(
                    member(all, "arguments"@)->0,
                )->0);
                Ok(SignalRMessage::Invocation(m))
            },
            _ => Err(ProtocolError::MalformedMessage),
        }
    } else if code == COMPLETION_TYPE {
        let id = read_string(&ms, "invocationId");
        let error = read_optional_string(&ms, "error");
        let result = match find_member(&ms, "result") {
            Some(t) => Some(t.clone()),
            None => None,
        };
        match (id, error) {
            (Some(invocation_id), Some(error)) => {
                Ok(SignalRMessage::Completion(CompletionMessage { invocation_id, result, error }))
            },
            _ => Err(ProtocolError::MalformedMessage),
        }
    } else if code == PING_TYPE {
        Ok(SignalRMessage::Ping)
    } else {
        Err(ProtocolError::UnsupportedType(code))
    }
}

/// The frame that carries an invocation of `target` with the given
/// JSON-encoded arguments under `invocation_id`.
pub open spec fn invocation_frame(
    invocation_id: Seq<char>,
    target: Seq<char>,
    arguments: Seq<Seq<char>>,
) -> Seq<char> {
    "{\"type\":1,\"invocationId\":"@ + quoted(invocation_id) + ",\"target\":"@ + quoted(target)
        + ",\"arguments\":["@ + joined(arguments) + "]}\x1E"@
}

/// Writes the frame of an invocation; see `invocation_frame`.
pub fn write_invocation(invocation_id: &str, target: &str, arguments: &Vec<String>) -> (r: String)
    ensures
        r@ == invocation_frame(invocation_id@, target@, arguments@.map_values(|t: String| t@)),
{
    let mut out = String::from_str("{\"type\":1,\"invocationId\":");
    out.append(quote(invocation_id).as_str());
    out.append(",\"target\":");
    out.append(quote(target).as_str());
    out.append(",\"arguments\":[");
    out.append(join(arguments).as_str());
    out.append("]}\x1E");
    out
}

} // verus!
