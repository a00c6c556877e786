//! X-Control: remote screen sharing and control through a relay.
//!
//! - `relay`: the relay's rooms, keyed by PIN, and where each message goes.
//! - `agent`: the agent's PIN, its registration with the relay, the inputs a
//!   viewer's message asks for, and its status line.
//! - `draw`: the record of the letters drawn from the random generator.
//! - `input`: the Win32 input records for mouse and keyboard events.
//! - `frame`: the JPEG frame made from a captured screen.
//! - `window`: the agent window's decisions.
//! - `text`: string helpers.
pub mod agent;
pub mod draw;
pub mod frame;
pub mod input;
pub mod relay;
pub mod text;
pub mod window;
