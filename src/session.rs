//! One connection's life: the handshake, then one frame at a time until a
//! Close frame. The decisions are here; performing them is left to the caller.

use vstd::prelude::*;
use crate::frame::{decode, echo, echoed, encode, Frame, FrameError, FrameView, Opcode};
use crate::handshake::{negotiate, negotiate_spec, HandshakeError};

verus! {

/// Seconds between the two copies of a text reply.
pub const ECHO_DELAY_SECS: u64 = 3;

/// Where a connection stands.
#[derive(Clone, Copy, Debug, PartialEq, Eq, Structural)]
pub enum ConnectionState {
    AwaitingHandshake,
    Open,
    Closed,
}

/// Something the caller must do on the transport.
#[derive(Clone, Debug, PartialEq, Eq)]
pub enum Action {
    /// Write these bytes.
    Send(Vec<u8>),
    /// Wait this many seconds.
    Pause(u64),
}

/// The mathematical value of an action.
pub enum ActionView {
    Send(Seq<u8>),
    Pause(u64),
}

impl View for Action {
    type V = ActionView;

    open spec fn view(&self) -> ActionView {
        match self {
            Action::Send(b) => ActionView::Send(b@),
            Action::Pause(s) => ActionView::Pause(*s),
        }
    }
}

/// Why a connection has to end.
#[derive(Clone, Copy, Debug, PartialEq, Eq, Structural)]
pub enum SessionError {
    Handshake(HandshakeError),
    Frame(FrameError),
    /// A frame whose type this endpoint does not handle.
    UnsupportedOpcode(Opcode),
}

/// The state to move to and the actions to perform, in order.
#[derive(Clone, Debug, PartialEq, Eq)]
pub struct Step {
    pub next: ConnectionState,
    pub actions: Vec<Action>,
}

pub open spec fn actions_view(actions: Seq<Action>) -> Seq<ActionView> {
    actions.map_values(|a: Action| a@)
}

/// A final, unmasked frame without reserved bits, as this endpoint sends.
pub open spec fn outgoing(opcode: Opcode, payload: Seq<u8>) -> FrameView {
    FrameView {
        fin: true,
        rsv1: false,
        rsv2: false,
        rsv3: false,
        opcode,
        mask: false,
        payload_len: payload.len(),
        masking_key: None,
        payload,
    }
}

/// The reaction to a decoded frame on an open connection: a text frame is
/// echoed twice with a pause between, a ping is answered by a pong with its
/// payload, a pong is ignored, a close frame is answered by an empty close
/// frame and ends the connection; other frame types are not handled.
pub open spec fn dispatch(f: FrameView) -> Result<(ConnectionState, Seq<ActionView>), SessionError> {
    match f.opcode {
        Opcode::Text => {
            let reply = encode(outgoing(Opcode::Text, echoed(f.payload)));
            Ok(
                (
                    ConnectionState::Open,
                    seq![
                        ActionView::Send(reply),
                        ActionView::Pause(ECHO_DELAY_SECS),
                        ActionView::Send(reply),
                    ],
                ),
            )
        },
        Opcode::Close => Ok(
            (
                ConnectionState::Closed,
                seq![ActionView::Send(encode(outgoing(Opcode::Close, Seq::empty())))],
            ),
        ),
        Opcode::Ping => Ok(
            (
                ConnectionState::Open,
                seq![ActionView::Send(encode(outgoing(Opcode::Pong, f.payload)))],
            ),
        ),
        Opcode::Pong => Ok((ConnectionState::Open, seq![])),
        op => Err(SessionError::UnsupportedOpcode(op)),
    }
}

/// The reaction of a connection in `state` to the bytes of one read.
pub open spec fn react(state: ConnectionState, input: Seq<u8>) -> Result<
    (ConnectionState, Seq<ActionView>),
    SessionError,
> {
    match state {
        ConnectionState::AwaitingHandshake => match negotiate_spec(input) {
            Ok(resp) => Ok((ConnectionState::Open, seq![ActionView::Send(resp)])),
            Err(e) => Err(SessionError::Handshake(e)),
        },
        ConnectionState::Open => match decode(input) {
            Ok(f) => dispatch(f),
            Err(e) => Err(SessionError::Frame(e)),
        },
        ConnectionState::Closed => Ok((ConnectionState::Closed, seq![])),
    }
}

/// Encodes a frame of this endpoint with the given type and payload.
fn outgoing_bytes(opcode: Opcode, payload: Vec<u8>) -> (r: Vec<u8>)
    ensures
        r@ == encode(outgoing(opcode, payload@)),
{
    let f = Frame::new(opcode, Some(payload));
    assert(f@ == outgoing(opcode, payload@));
    f.to_bytes()
}

/// Decides what a connection in `state` does with the bytes of one read. An
/// error means that the connection must be closed.
pub fn on_input(state: ConnectionState, input: &[u8]) -> (r: Result<Step, SessionError>)
    ensures
        match r {
            Ok(step) => react(state, input@) == Ok::<
                (ConnectionState, Seq<ActionView>),
                SessionError,
            >((step.next, actions_view(step.actions@))),
            Err(e) => react(state, input@) == Err::<(ConnectionState, Seq<ActionView>), SessionError>(
                e,
            ),
        },
{
    match state {
        ConnectionState::AwaitingHandshake => match negotiate(input) {
            Ok(resp) => {
                let actions = vec![Action::Send(resp)];
                assert(actions_view(actions@) =~= seq![ActionView::Send(resp@)]);
                Ok(Step { next: ConnectionState::Open, actions })
            },
            Err(e) => Err(SessionError::Handshake(e)),
        },
        ConnectionState::Open => match Frame::from_bytes(input) {
            Ok(f) => respond(f),
            Err(e) => Err(SessionError::Frame(e)),
        },
        ConnectionState::Closed => {
            let actions: Vec<Action> = Vec::new();
            assert(actions_view(actions@) =~= seq![]);
            Ok(Step { next: ConnectionState::Closed, actions })
        },
    }
}

/// Decides the reply to one decoded frame on an open connection.
pub fn respond(f: Frame) -> (r: Result<Step, SessionError>)
    ensures
        match r {
            Ok(step) => dispatch(f@) == Ok::<(ConnectionState, Seq<ActionView>), SessionError>(
                (step.next, actions_view(step.actions@)),
            ),
            Err(e) => dispatch(f@) == Err::<(ConnectionState, Seq<ActionView>), SessionError>(e),
        },
{
    match f.opcode {
        Opcode::Text => {
            let reply = outgoing_bytes(Opcode::Text, echo(f.payload.as_slice()));
            let again = vstd::slice::slice_to_vec(reply.as_slice());
            let ghost bytes = reply@;
            let actions = vec![Action::Send(reply), Action::Pause(ECHO_DELAY_SECS), Action::Send(again)];
            assert(actions_view(actions@) =~= seq![
                ActionView::Send(bytes),
                ActionView::Pause(ECHO_DELAY_SECS),
                ActionView::Send(bytes),
            ]);
            Ok(Step { next: ConnectionState::Open, actions })
        },
        Opcode::Close => {
            let actions = vec![Action::Send(outgoing_bytes(Opcode::Close, Vec::new()))];
            assert(actions_view(actions@) =~= seq![
                ActionView::Send(encode(outgoing(Opcode::Close, Seq::empty()))),
            ]);
            Ok(Step { next: ConnectionState::Closed, actions })
        },
        Opcode::Ping => {
            let actions = vec![Action::Send(outgoing_bytes(Opcode::Pong, f.payload))];
            assert(actions_view(actions@) =~= seq![
                ActionView::Send(encode(outgoing(Opcode::Pong, f@.payload))),
            ]);
            Ok(Step { next: ConnectionState::Open, actions })
        },
        Opcode::Pong => {
            let actions: Vec<Action> = Vec::new();
            assert(actions_view(actions@) =~= seq![]);
            Ok(Step { next: ConnectionState::Open, actions })
        },
        op => Err(SessionError::UnsupportedOpcode(op)),
    }
}

/// On an open connection a text frame is answered by two text frames that
/// carry its payload followed by ` (echoed)`, with a pause between them, and
/// the connection stays open.
pub proof fn lemma_text_echoed_twice(input: Seq<u8>)
    requires
        decode(input) matches Ok(f) && f.opcode == Opcode::Text,
    ensures
        ({
            let reply = encode(outgoing(Opcode::Text, echoed(decode(input).unwrap().payload)));
            react(ConnectionState::Open, input) == Ok::<
                (ConnectionState, Seq<ActionView>),
                SessionError,
            >(
                (
                    ConnectionState::Open,
                    seq![
                        ActionView::Send(reply),
                        ActionView::Pause(ECHO_DELAY_SECS),
                        ActionView::Send(reply),
                    ],
                ),
            )
        }),
{
}

/// On an open connection a close frame is answered by exactly one empty
/// close frame and closes the connection; a closed connection then does
/// nothing with whatever it is given.
pub proof fn lemma_close_ends_session(input: Seq<u8>, later: Seq<u8>)
    requires
        decode(input) matches Ok(f) && f.opcode == Opcode::Close,
    ensures
        react(ConnectionState::Open, input) == Ok::<
            (ConnectionState, Seq<ActionView>),
            SessionError,
        >(
            (
                ConnectionState::Closed,
                seq![ActionView::Send(encode(outgoing(Opcode::Close, Seq::empty())))],
            ),
        ),
        react(ConnectionState::Closed, later) == Ok::<
            (ConnectionState, Seq<ActionView>),
            SessionError,
        >((ConnectionState::Closed, Seq::empty())),
{
}

} // verus!
