//! The commands that a control client sends and the responses that go back.

use vstd::prelude::*;

verus! {

/// What the bingo game can be asked to do.
#[derive(Clone, Copy, Debug, PartialEq, Eq)]
pub enum BingoMethod {
    /// Draw the next number.
    Next,
}

/// What the countdown can be asked to do.
#[derive(Clone, Copy, Debug, PartialEq, Eq)]
pub enum CountdownMethod {
    /// Start counting.
    Start,
}

/// A decoded inbound message.
#[derive(Clone, Debug, PartialEq, Eq)]
#[allow(inconsistent_fields)]
pub enum WsCommand {
    /// Show the announcement at `index` of the preset queue at once.
    Bulletin { preset: String, index: u32 },
    Bingo { method: BingoMethod },
    Countdown { method: CountdownMethod },
}

/// The answer to a bulletin: what is shown now, and what stands before and
/// after it in the queue.
#[derive(Clone, Debug, PartialEq, Eq)]
pub struct BulletinResponse {
    pub prev_text: String,
    pub now_text: String,
    pub next_text: String,
}

/// The answer to a draw: the number drawn and the count of draws so far.
#[derive(Clone, Copy, Debug, PartialEq, Eq)]
pub struct BingoResponse {
    pub current: u8,
    pub no: u8,
}

/// The answer to a countdown command.
#[derive(Clone, Debug, PartialEq, Eq)]
pub struct CountdownResponse {
    pub status: String,
}

/// An outbound message, one shape for each kind of command.
#[derive(Clone, Debug, PartialEq, Eq)]
pub enum WsResponse {
    Bulletin(BulletinResponse),
    Bingo(BingoResponse),
    Countdown(CountdownResponse),
}

/// The mathematical value of a [`WsResponse`].
pub enum ResponseView {
    Bulletin { prev_text: Seq<char>, now_text: Seq<char>, next_text: Seq<char> },
    Bingo { current: u8, no: u8 },
    Countdown { status: Seq<char> },
}

impl View for WsResponse {
    type V = ResponseView;

    open spec fn view(&self) -> ResponseView {
        match *self {
            WsResponse::Bulletin(b) => ResponseView::Bulletin {
                prev_text: b.prev_text@,
                now_text: b.now_text@,
                next_text: b.next_text@,
            },
            WsResponse::Bingo(b) => ResponseView::Bingo { current: b.current, no: b.no },
            WsResponse::Countdown(c) => ResponseView::Countdown { status: c.status@ },
        }
    }
}

impl WsResponse {
    /// A copy of this response.
    pub fn duplicate(&self) -> (copy: WsResponse)
        ensures
            copy == *self,
    {
        match self {
            WsResponse::Bulletin(b) => WsResponse::Bulletin(
                BulletinResponse {
                    prev_text: b.prev_text.clone(),
                    now_text: b.now_text.clone(),
                    next_text: b.next_text.clone(),
                },
            ),
            WsResponse::Bingo(b) => WsResponse::Bingo(BingoResponse { current: b.current, no: b.no }),
            WsResponse::Countdown(c) => WsResponse::Countdown(
                CountdownResponse { status: c.status.clone() },
            ),
        }
    }
}

/// The status that acknowledges a countdown start.
pub open spec fn countdown_started() -> Seq<char> {
    "started"@
}

} // verus!
