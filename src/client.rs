//! A chat client on top of the connection engine: it sends chat messages as
//! `SendMessage` invocations and receives them as `ReceiveMessage`
//! invocations with two string arguments, user and text.
use vstd::prelude::*;
use crate::connection::{Invocation, InvokeError, SignalRConnection};
use crate::dispatch::target_index;
use crate::handshake::StateModel;
use crate::json::{parse_string, quote, quoted, string_of};
use crate::frame::texts;

verus! {

/// Why the arguments of a server invocation do not fit its handler.
#[derive(PartialEq, Eq, Structural, Clone, Copy, Debug)]
pub enum ArgumentError {
    /// Fewer arguments than the handler takes.
    Missing,
    /// The argument at this position is not of the type the handler takes.
    Undecodable(usize),
}

/// The first position below `arity` whose argument is not a JSON string.
pub open spec fn first_non_string(arguments: Seq<Seq<char>>, arity: int) -> Option<int>
    decreases arity,
{
    if arity <= 0 {
        None
    } else {
        match first_non_string(arguments, arity - 1) {
            Some(i) => Some(i),
            None => if string_of(arguments[arity - 1]) is None {
                Some(arity - 1)
            } else {
                None
            },
        }
    }
}

/// Reads the first `arity` arguments, in order, as strings: what a handler
/// of that many string parameters is called with. Further arguments are
/// ignored.
pub fn string_arguments(arguments: &Vec<String>, arity: usize) -> (r: Result<
    Vec<String>,
    ArgumentError,
>)
    ensures
        arity > arguments@.len() ==> r == Err::<Vec<String>, ArgumentError>(ArgumentError::Missing),
        arity <= arguments@.len() ==> match first_non_string(texts(arguments@), arity as int) {
            Some(i) => r == Err::<Vec<String>, ArgumentError>(ArgumentError::Undecodable(i as usize)),
            None => r is Ok && r->Ok_0@.len() == arity && forall|j: int|
                0 <= j < arity ==> (#[trigger] r->Ok_0@[j])@ == string_of(arguments@[j]@)->0,
        },
{
    if arity > arguments.len() {
        return Err(ArgumentError::Missing);
    }
    let mut out: Vec<String> = Vec::new();
    let mut i: usize = 0;
    while i < arity
        invariant
            arity <= arguments@.len(),
            i <= arity,
            first_non_string(texts(arguments@), i as int) is None,
            out@.len() == i,
            forall|j: int| 0 <= j < i ==> (#[trigger] out@[j])@ == string_of(arguments@[j]@)->0,
        decreases arity - i,
    {
        match parse_string(arguments[i].as_str()) {
            Some(s) => {
                out.push(s);
            },
            None => {
                proof {
                    lemma_first_non_string_stays(texts(arguments@), i as int + 1, arity as int);
                }
                return Err(ArgumentError::Undecodable(i));
            },
        }
        i = i + 1;
    }
    Ok(out)
}

/// A failure found below `from` is the one reported at every larger arity.
pub proof fn lemma_first_non_string_stays(arguments: Seq<Seq<char>>, from: int, arity: int)
    requires
        0 < from <= arity,
        first_non_string(arguments, from) is Some,
    ensures
        first_non_string(arguments, arity) == first_non_string(arguments, from),
    decreases arity - from,
{
    if arity > from {
        lemma_first_non_string_stays(arguments, from, arity - 1);
    }
}

/// The method a chat message is sent to.
pub open spec fn send_target() -> Seq<char> {
    "SendMessage"@
}

/// The method the server delivers chat messages to.
pub open spec fn receive_target() -> Seq<char> {
    "ReceiveMessage"@
}

pub struct ChatClient<H> {
    pub connection: SignalRConnection<H>,
    pub user: String,
}

impl<H> ChatClient<H> {
    /// The name the client sends its messages under.
    pub open spec fn user(&self) -> Seq<char> {
        self.user@
    }

    pub fn new(url: &str, user: String) -> (r: Self)
        ensures
            r.connection.wf(),
            r.connection.state() == StateModel::Idle,
            r.connection.url() == url@,
            r.connection.last_issued() == 0,
            r.connection.pending() == Seq::<u64>::empty(),
            r.connection.targets() == Seq::<Seq<char>>::empty(),
            r.user() == user@,
    {
        ChatClient { connection: SignalRConnection::new(url), user }
    }

    /// Starts connecting; see `SignalRConnection::connect`.
    pub fn connect(&mut self) -> (r: bool)
        requires
            old(self).connection.wf(),
        ensures
            final(self).connection.wf(),
            final(self).user() == old(self).user(),
            final(self).connection.same_setup(&old(self).connection),
            final(self).connection.pending() == old(self).connection.pending(),
            r == (old(self).connection.state() is Idle),
            final(self).connection.state() == (if r {
                StateModel::AwaitingTransportOpen
            } else {
                old(self).connection.state()
            }),
    {
        self.connection.connect()
    }

    pub fn set_user(&mut self, user: String)
        ensures
            final(self).user() == user@,
            final(self).connection == old(self).connection,
    {
        self.user = user;
    }

    /// Sends `message` under the client's user name: an invocation of
    /// `SendMessage` with the user and the message as string arguments.
    pub fn send_message(&mut self, message: &str) -> (r: Result<Invocation, InvokeError>)
        requires
            old(self).connection.wf(),
        ensures
            final(self).connection.wf(),
            final(self).user() == old(self).user(),
            SignalRConnection::<H>::invoke_effect(
                old(self).connection,
                final(self).connection,
                send_target(),
                seq![quoted(old(self).user()), quoted(message@)],
                r,
            ),
    {
        let mut arguments: Vec<String> = Vec::new();
        arguments.push(quote(self.user.as_str()));
        arguments.push(quote(message));
        assert(texts(arguments@) =~= seq![quoted(self.user@), quoted(message@)]);
        self.connection.send_invocation("SendMessage", &arguments)
    }

    /// Registers the handler of incoming chat messages.
    pub fn on_message_received(&mut self, handler: H)
        requires
            old(self).connection.wf(),
        ensures
            final(self).connection.wf(),
            final(self).user() == old(self).user(),
            final(self).connection.state() == old(self).connection.state(),
            final(self).connection.pending() == old(self).connection.pending(),
            match target_index(old(self).connection.targets(), receive_target()) {
                Some(i) => final(self).connection.targets() == old(self).connection.targets()
                    && final(self).connection.handlers() == old(self).connection.handlers().update(
                    i,
                    handler,
                ),
                None => final(self).connection.targets() == old(self).connection.targets().push(
                    receive_target(),
                ) && final(self).connection.handlers() == old(self).connection.handlers().push(
                    handler,
                ),
            },
    {
        self.connection.on("ReceiveMessage", handler);
    }
}

} // verus!
