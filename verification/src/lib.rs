//! Core of a remotely controlled scrolling announcement display.
//!
//! The crate holds the state that the display's update loop owns, and the
//! rules by which commands and input change it: the announcement queue with
//! its cursor, the bingo draw sequence, the scroll lifecycle, and the decisions
//! of the network-side command bridge.  Rendering, sockets and files stay with
//! the program that embeds the crate; it hands in plain values and carries out
//! the effects that come back.

pub mod bingo;
pub mod bridge;
pub mod loader;
pub mod protocol;
pub mod queue;
pub mod scroll;
pub mod text;
