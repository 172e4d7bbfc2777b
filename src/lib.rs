//! A server-side WebSocket endpoint: the frame codec, the opening handshake
//! and the per-connection dispatch state machine, with their contracts.

pub mod frame;
pub mod handshake;
pub mod session;

pub use frame::{apply_mask, echo, Frame, FrameError, FrameView, Opcode};
pub use handshake::{
    accept_key, handshake_response, negotiate, parse_request, HandshakeError, HandshakeRequest,
};
pub use session::{on_input, respond, Action, ConnectionState, SessionError, Step, ECHO_DELAY_SECS};
