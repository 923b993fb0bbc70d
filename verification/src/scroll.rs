//! The display state that the update loop owns, and the rules by which input
//! and commands change it.

use crate::bingo::{BingoState, BingoView};
use crate::bridge::{command_capacity, WebSocketChannel};
use crate::protocol::{
    countdown_started, BingoMethod, BingoResponse, BulletinResponse, CountdownMethod,
    CountdownResponse, ResponseView, WsCommand, WsResponse,
};
use crate::queue::{QueueView, TextQueue, TextSource, TextSourceView};
use vstd::prelude::*;

verus! {

/// The lifecycle of the one text on screen.  A scrolling text is named by its
/// position in the queue.
#[derive(Clone, Copy, Debug, PartialEq, Eq, Structural)]
pub enum ScrollState {
    /// No text is shown.
    Idle,
    /// The announcement is created and stands off-screen to the right, not
    /// yet scrolling.
    Waiting(usize),
    /// The announcement scrolls to the left.
    Active(usize),
    /// A drawn number is shown and does not scroll.
    Static(u8),
}

impl ScrollState {
    /// Whether a text is on screen.
    pub open spec fn shows_text(self) -> bool {
        !(self is Idle)
    }
}

/// A text that the renderer is asked to create.
#[derive(Clone, Debug, PartialEq, Eq)]
pub enum Spawn {
    /// Off-screen to the right, at rest until it is started.
    Waiting(TextSource),
    /// Off-screen to the right and scrolling at once.
    Active(TextSource),
    /// A drawn number, shown at rest.
    Static(u8),
}

/// The mathematical value of a [`Spawn`].
pub enum SpawnView {
    Waiting(TextSourceView),
    Active(TextSourceView),
    Static(u8),
}

impl View for Spawn {
    type V = SpawnView;

    open spec fn view(&self) -> SpawnView {
        match *self {
            Spawn::Waiting(t) => SpawnView::Waiting(t@),
            Spawn::Active(t) => SpawnView::Active(t@),
            Spawn::Static(n) => SpawnView::Static(n),
        }
    }
}

/// What one step of the display asks of its surroundings, to be carried out
/// in the order of the fields: destroy, start, spawn, respond.
#[derive(Clone, Debug, PartialEq, Eq)]
pub struct Effects {
    /// Destroy the text on screen.
    pub destroy: bool,
    /// Let the waiting text begin to scroll.
    pub start: bool,
    /// Create this text.
    pub spawn: Option<Spawn>,
    /// Send this to the peer, if it can be delivered.
    pub response: Option<WsResponse>,
}

/// The mathematical value of an [`Effects`].
pub struct EffectsView {
    pub destroy: bool,
    pub start: bool,
    pub spawn: Option<SpawnView>,
    pub response: Option<ResponseView>,
}

impl EffectsView {
    /// Nothing to do.
    pub open spec fn none() -> EffectsView {
        EffectsView { destroy: false, start: false, spawn: None, response: None }
    }

    /// Whether these effects take a screen that is in `before` to one that
    /// is in `after` with never more than one text on it: a text is
    /// destroyed only if there is one, none is created beside another, and a
    /// text is on screen afterwards exactly if one was created or one was
    /// there and stayed.
    pub open spec fn keeps_one_text(self, before: ScrollState, after: ScrollState) -> bool {
        &&& self.destroy ==> before.shows_text()
        &&& self.spawn is Some && before.shows_text() ==> self.destroy
        &&& self.start ==> before is Waiting && after is Active && self.spawn is None
        &&& after.shows_text() <==> self.spawn is Some || (before.shows_text() && !self.destroy)
    }
}

impl View for Effects {
    type V = EffectsView;

    open spec fn view(&self) -> EffectsView {
        EffectsView {
            destroy: self.destroy,
            start: self.start,
            spawn: match self.spawn {
                Some(s) => Some(s@),
                None => None,
            },
            response: match self.response {
                Some(r) => Some(r@),
                None => None,
            },
        }
    }
}

/// The views of `effects`, in order.
pub open spec fn effects_views(effects: Seq<Effects>) -> Seq<EffectsView> {
    Seq::new(effects.len(), |i: int| effects[i]@)
}

/// The mathematical value of a [`Display`].
pub struct DisplayView {
    pub queue: QueueView,
    pub bingo: BingoView,
    pub state: ScrollState,
}

impl DisplayView {
    /// Queue and draw sequence are valid, the queue's positions can be
    /// counted, a scrolling text is the one under the queue's cursor, and a
    /// number on screen is the last one drawn.
    pub open spec fn wf(self) -> bool {
        &&& self.queue.wf()
        &&& self.queue.texts.len() <= usize::MAX
        &&& self.bingo.wf()
        &&& match self.state {
            ScrollState::Idle => true,
            ScrollState::Waiting(i) => i == self.queue.current,
            ScrollState::Active(i) => i == self.queue.current,
            ScrollState::Static(n) => self.bingo.drawn.len() > 0 && self.bingo.drawn.last() == n,
        }
    }

    /// The display at startup: the announcement under the cursor waits.
    pub open spec fn start(queue: QueueView, bingo: BingoView) -> (DisplayView, EffectsView) {
        (
            DisplayView { queue, bingo, state: ScrollState::Waiting(queue.current as usize) },
            EffectsView {
                destroy: false,
                start: false,
                spawn: Some(SpawnView::Waiting(queue.current_text())),
                response: None,
            },
        )
    }

    /// The text on screen goes, the queue advances, and the announcement then
    /// under the cursor waits.
    pub open spec fn show_next(self) -> (DisplayView, EffectsView) {
        let queue = self.queue.advance();
        (
            DisplayView { queue, bingo: self.bingo, state: ScrollState::Waiting(queue.current as usize) },
            EffectsView {
                destroy: true,
                start: false,
                spawn: Some(SpawnView::Waiting(queue.current_text())),
                response: None,
            },
        )
    }

    /// A toggle: a waiting text begins to scroll, a scrolling text gives way
    /// to the next announcement, and nothing happens otherwise.
    pub open spec fn toggle(self) -> (DisplayView, EffectsView) {
        match self.state {
            ScrollState::Waiting(i) => (
                DisplayView { queue: self.queue, bingo: self.bingo, state: ScrollState::Active(i) },
                EffectsView { destroy: false, start: true, spawn: None, response: None },
            ),
            ScrollState::Active(_) => self.show_next(),
            _ => (self, EffectsView::none()),
        }
    }

    /// The scrolling text has left the screen on the left: it gives way to
    /// the next announcement.  Nothing happens unless a text scrolls.
    pub open spec fn finish_crossing(self) -> (DisplayView, EffectsView) {
        match self.state {
            ScrollState::Active(_) => self.show_next(),
            _ => (self, EffectsView::none()),
        }
    }

    /// A bulletin for position `index`.
    pub open spec fn bulletin(self, index: nat) -> (DisplayView, EffectsView) {
        if index < self.queue.texts.len() {
            (
                DisplayView {
                    queue: self.queue.jump(index),
                    bingo: self.bingo,
                    state: ScrollState::Active(index as usize),
                },
                EffectsView {
                    destroy: self.state.shows_text(),
                    start: false,
                    spawn: Some(SpawnView::Active(self.queue.texts[index as int])),
                    response: Some(
                        ResponseView::Bulletin {
                            prev_text: self.queue.prev_text(index),
                            now_text: self.queue.texts[index as int].content,
                            next_text: self.queue.next_text(index),
                        },
                    ),
                },
            )
        } else {
            (
                DisplayView { queue: self.queue, bingo: self.bingo, state: ScrollState::Idle },
                EffectsView { destroy: self.state.shows_text(), start: false, spawn: None, response: None },
            )
        }
    }

    /// A draw, where chance says `pick`.
    pub open spec fn bingo_next(self, pick: nat) -> (DisplayView, EffectsView) {
        match self.bingo.number_at(pick) {
            Some(n) => (
                DisplayView { queue: self.queue, bingo: self.bingo.draw(pick), state: ScrollState::Static(n) },
                EffectsView {
                    destroy: self.state.shows_text(),
                    start: false,
                    spawn: Some(SpawnView::Static(n)),
                    response: Some(
                        ResponseView::Bingo { current: n, no: (self.bingo.index() + 1) as u8 },
                    ),
                },
            ),
            None => (
                DisplayView { queue: self.queue, bingo: self.bingo, state: ScrollState::Idle },
                EffectsView { destroy: self.state.shows_text(), start: false, spawn: None, response: None },
            ),
        }
    }

    /// The acknowledgement of a countdown start; the display stays as it is.
    pub open spec fn countdown_start(self) -> (DisplayView, EffectsView) {
        (
            self,
            EffectsView {
                destroy: false,
                start: false,
                spawn: None,
                response: Some(ResponseView::Countdown { status: countdown_started() }),
            },
        )
    }

    /// One command applied, where chance says `pick` should a number be drawn.
    pub open spec fn apply(self, command: WsCommand, pick: nat) -> (DisplayView, EffectsView) {
        match command {
            WsCommand::Bulletin { preset, index } => self.bulletin(index as nat),
            WsCommand::Bingo { method: BingoMethod::Next } => self.bingo_next(pick),
            WsCommand::Countdown { method: CountdownMethod::Start } => self.countdown_start(),
        }
    }

    /// The commands applied in order, the `i`-th with the `i`-th entry of
    /// `picks`: the display afterwards and the effects of each command.
    pub open spec fn apply_all(self, commands: Seq<WsCommand>, picks: Seq<nat>) -> (
        DisplayView,
        Seq<EffectsView>,
    )
        decreases commands.len(),
    {
        if commands.len() == 0 {
            (self, Seq::empty())
        } else {
            let before = self.apply_all(commands.drop_last(), picks.drop_last());
            let step = before.0.apply(commands.last(), picks.last());
            (step.0, before.1.push(step.1))
        }
    }
}

/// The state of the display: the announcement queue, the draw sequence and
/// the lifecycle of the text on screen.
#[derive(Debug)]
pub struct Display {
    queue: TextQueue,
    bingo: BingoState,
    state: ScrollState,
}

impl View for Display {
    type V = DisplayView;

    closed spec fn view(&self) -> DisplayView {
        DisplayView { queue: self.queue@, bingo: self.bingo@, state: self.state }
    }
}

impl Display {
    /// The draw sequence is consistent in itself.
    pub closed spec fn consistent(&self) -> bool {
        self.bingo.consistent()
    }

    /// The invariant of a display: see [`DisplayView::wf`].
    pub open spec fn wf(&self) -> bool {
        self.consistent() && self@.wf()
    }

    /// Sets the display up over `queue` and `bingo`: the announcement under
    /// the queue's cursor is created and waits.
    pub fn start(queue: TextQueue, bingo: BingoState) -> (made: (Display, Effects))
        requires
            queue.wf(),
            bingo.wf(),
        ensures
            made.0.wf(),
            (made.0@, made.1@) == DisplayView::start(queue@, bingo@),
    {
        proof {
            queue.lemma_len_fits();
        }
        let text = queue.current();
        let state = ScrollState::Waiting(queue.current_index());
        let display = Display { queue, bingo, state };
        (display, Effects { destroy: false, start: false, spawn: Some(Spawn::Waiting(text)), response: None })
    }

    /// The lifecycle of the text on screen.
    pub fn state(&self) -> (state: ScrollState)
        ensures
            state == self@.state,
    {
        self.state
    }

    /// Whether a text scrolls, so that its position moves with time.
    pub fn is_active(&self) -> (active: bool)
        ensures
            active == (self@.state is Active),
    {
        match self.state {
            ScrollState::Active(_) => true,
            _ => false,
        }
    }

    /// The announcement queue.
    pub fn queue(&self) -> (queue: &TextQueue)
        ensures
            queue@ == self@.queue,
            self.wf() ==> queue.wf(),
    {
        &self.queue
    }

    /// The draw sequence.
    pub fn bingo(&self) -> (bingo: &BingoState)
        ensures
            bingo@ == self@.bingo,
            self.wf() ==> bingo.wf(),
    {
        &self.bingo
    }

    fn show_next(&mut self) -> (effects: Effects)
        requires
            old(self).wf(),
        ensures
            final(self).wf(),
            (final(self)@, effects@) == old(self)@.show_next(),
    {
        let text = self.queue.advance();
        self.state = ScrollState::Waiting(self.queue.current_index());
        Effects { destroy: true, start: false, spawn: Some(Spawn::Waiting(text)), response: None }
    }

    /// Acts on the toggle input.  A waiting text begins to scroll.  A
    /// scrolling text is destroyed, the queue advances, and the next
    /// announcement is created and waits.  With no announcement on screen
    /// nothing happens.
    pub fn toggle(&mut self) -> (effects: Effects)
        requires
            old(self).wf(),
        ensures
            final(self).wf(),
            (final(self)@, effects@) == old(self)@.toggle(),
    {
        match self.state {
            ScrollState::Waiting(i) => {
                self.state = ScrollState::Active(i);
                Effects { destroy: false, start: true, spawn: None, response: None }
            },
            ScrollState::Active(_) => self.show_next(),
            _ => Effects { destroy: false, start: false, spawn: None, response: None },
        }
    }

    /// Acts on the scrolling text having left the screen on the left: it is
    /// destroyed, the queue advances, and the next announcement is created
    /// and waits.  Nothing happens unless a text scrolls.
    pub fn finish_crossing(&mut self) -> (effects: Effects)
        requires
            old(self).wf(),
        ensures
            final(self).wf(),
            (final(self)@, effects@) == old(self)@.finish_crossing(),
    {
        match self.state {
            ScrollState::Active(_) => self.show_next(),
            _ => Effects { destroy: false, start: false, spawn: None, response: None },
        }
    }

    fn bulletin(&mut self, index: u32) -> (effects: Effects)
        requires
            old(self).wf(),
        ensures
            final(self).wf(),
            (final(self)@, effects@) == old(self)@.bulletin(index as nat),
    {
        let destroy = !matches!(self.state, ScrollState::Idle);
        let position = index as usize;
        if position < self.queue.len() {
            let (prev_text, next_text) = self.queue.neighbors(position);
            match self.queue.jump(position) {
                Some(text) => {
                    self.state = ScrollState::Active(position);
                    let now_text = text.content.clone();
                    let response = WsResponse::Bulletin(BulletinResponse { prev_text, now_text, next_text });
                    Effects { destroy, start: false, spawn: Some(Spawn::Active(text)), response: Some(response) }
                },
                None => {
                    self.state = ScrollState::Idle;
                    Effects { destroy, start: false, spawn: None, response: None }
                },
            }
        } else {
            self.state = ScrollState::Idle;
            Effects { destroy, start: false, spawn: None, response: None }
        }
    }

    fn bingo_next(&mut self, pick: usize) -> (effects: Effects)
        requires
            old(self).wf(),
        ensures
            final(self).wf(),
            (final(self)@, effects@) == old(self)@.bingo_next(pick as nat),
    {
        let destroy = !matches!(self.state, ScrollState::Idle);
        match self.bingo.draw_at(pick) {
            Some(number) => {
                self.state = ScrollState::Static(number);
                let no = self.bingo.index() as u8;
                let response = WsResponse::Bingo(BingoResponse { current: number, no });
                Effects { destroy, start: false, spawn: Some(Spawn::Static(number)), response: Some(response) }
            },
            None => {
                self.state = ScrollState::Idle;
                Effects { destroy, start: false, spawn: None, response: None }
            },
        }
    }

    /// Applies one command, with `pick` in the place of chance.
    ///
    /// A bulletin destroys the text on screen; where its index names an
    /// announcement, that one is created scrolling, the queue's cursor moves
    /// to it, and the response names it and its neighbours.  A draw destroys
    /// the text on screen; while numbers remain, the one that `pick` selects
    /// is drawn and shown at rest, and the response gives it with the count
    /// of draws.  A bulletin out of range and a draw after the last number
    /// leave the screen empty and send nothing.  A countdown start is
    /// acknowledged and changes nothing.
    pub fn apply_with(&mut self, command: &WsCommand, pick: usize) -> (effects: Effects)
        requires
            old(self).wf(),
        ensures
            final(self).wf(),
            (final(self)@, effects@) == old(self)@.apply(*command, pick as nat),
    {
        match command {
            WsCommand::Bulletin { preset: _, index } => self.bulletin(*index),
            WsCommand::Bingo { method: BingoMethod::Next } => self.bingo_next(pick),
            WsCommand::Countdown { method: CountdownMethod::Start } => {
                let status = "started".to_owned();
                let response = WsResponse::Countdown(CountdownResponse { status });
                Effects { destroy: false, start: false, spawn: None, response: Some(response) }
            },
        }
    }

    /// Applies one command, a draw choosing its number at random.
    ///
    /// Whatever chance says, the outcome is that of [`Display::apply_with`]
    /// for some `pick`.
    pub fn apply(&mut self, command: &WsCommand) -> (effects: Effects)
        requires
            old(self).wf(),
        ensures
            final(self).wf(),
            exists|pick: nat| (final(self)@, effects@) == #[trigger] old(self)@.apply(*command, pick),
    {
        let pick = match command {
            WsCommand::Bingo { method: _ } => self.bingo.pick(),
            _ => 0,
        };
        let effects = self.apply_with(command, pick);
        effects
    }

    /// Applies the commands in order and returns the effects of each.
    ///
    /// Whatever chance says, the outcome is that of applying them one after
    /// the other with some sequence of picks.
    pub fn apply_all(&mut self, commands: &Vec<WsCommand>) -> (effects: Vec<Effects>)
        requires
            old(self).wf(),
        ensures
            final(self).wf(),
            effects@.len() == commands@.len(),
            exists|picks: Seq<nat>|
                picks.len() == commands@.len() && (final(self)@, effects_views(effects@))
                    == #[trigger] old(self)@.apply_all(commands@, picks),
    {
        let mut effects: Vec<Effects> = Vec::new();
        let ghost mut picks: Seq<nat> = Seq::empty();
        let mut i: usize = 0;
        while i < commands.len()
            invariant
                i <= commands@.len(),
                self.wf(),
                effects@.len() == i,
                picks.len() == i,
                (self@, effects_views(effects@)) == old(self)@.apply_all(commands@.subrange(0, i as int), picks),
            decreases commands@.len() - i,
        {
            let ghost before = self@;
            let step = self.apply(&commands[i]);
            proof {
                let pick = choose|pick: nat| (self@, step@) == #[trigger] before.apply(commands@[i as int], pick);
                let prefix = commands@.subrange(0, i as int + 1);
                assert(prefix.drop_last() =~= commands@.subrange(0, i as int));
                assert(picks.push(pick).drop_last() =~= picks);
                picks = picks.push(pick);
            }
            effects.push(step);
            i += 1;
        }
        proof {
            assert(commands@.subrange(0, i as int) =~= commands@);
        }
        effects
    }

    /// The update loop's share of the bridge, once per tick: takes every
    /// command that waits in the command queue, applies them in the order in
    /// which they arrived, offers each response to the response queue, and
    /// returns the effects of each command for the renderer to carry out.
    ///
    /// The call never waits on either queue, and applies no more commands
    /// than the command queue was made to hold.  A response that its queue
    /// cannot take is dropped; it stays in the effects.  The queues stay what
    /// they were.  Whatever waited and whatever chance says, the outcome is
    /// that of applying some commands one after the other with some sequence
    /// of picks.
    pub fn handle_websocket_commands(&mut self, ws_channel: &mut WebSocketChannel) -> (effects: Vec<
        Effects,
    >)
        requires
            old(self).wf(),
        ensures
            final(self).wf(),
            effects@.len() <= command_capacity(old(ws_channel).command_receiver),
            command_capacity(final(ws_channel).command_receiver) == command_capacity(
                old(ws_channel).command_receiver,
            ),
            final(ws_channel).response_sender == old(ws_channel).response_sender,
            exists|commands: Seq<WsCommand>, picks: Seq<nat>|
                picks.len() == commands.len() && effects@.len() == commands.len() && (
                final(self)@, effects_views(effects@)) == #[trigger] old(self)@.apply_all(
                    commands,
                    picks,
                ),
    {
        let commands = ws_channel.drain();
        let effects = self.apply_all(&commands);
        let mut i: usize = 0;
        while i < effects.len()
            invariant
                i <= effects@.len(),
            decreases effects@.len() - i,
        {
            match &effects[i].response {
                Some(response) => {
                    let _ = ws_channel.respond(response.duplicate());
                },
                None => {},
            }
            i += 1;
        }
        effects
    }
}

/// Every step of a valid display leaves it valid, with the queue's cursor on
/// one of its announcements, and never asks for a second text on screen: what
/// it creates, it creates after destroying what was there.
pub proof fn lemma_steps_keep_one_text(display: DisplayView, command: WsCommand, pick: nat)
    requires
        display.wf(),
    ensures
        display.toggle().0.wf(),
        display.toggle().1.keeps_one_text(display.state, display.toggle().0.state),
        display.finish_crossing().0.wf(),
        display.finish_crossing().1.keeps_one_text(display.state, display.finish_crossing().0.state),
        display.apply(command, pick).0.wf(),
        display.apply(command, pick).1.keeps_one_text(display.state, display.apply(command, pick).0.state),
{
    crate::bingo::lemma_draw(display.bingo, pick);
}

/// However many commands are applied, and whatever chance says, the display
/// stays valid: the queue keeps its announcements, its cursor stays on one of
/// them, and the draw sequence keeps its range.
pub proof fn lemma_commands_keep_display_valid(
    display: DisplayView,
    commands: Seq<WsCommand>,
    picks: Seq<nat>,
)
    requires
        display.wf(),
    ensures
        display.apply_all(commands, picks).0.wf(),
        display.apply_all(commands, picks).0.queue.texts == display.queue.texts,
        display.apply_all(commands, picks).0.queue.current < display.queue.texts.len(),
        display.apply_all(commands, picks).0.bingo.range == display.bingo.range,
        display.apply_all(commands, picks).1.len() == commands.len(),
    decreases commands.len(),
{
    if commands.len() > 0 {
        lemma_commands_keep_display_valid(display, commands.drop_last(), picks.drop_last());
        let before = display.apply_all(commands.drop_last(), picks.drop_last()).0;
        lemma_steps_keep_one_text(before, commands.last(), picks.last());
        crate::bingo::lemma_draw(before.bingo, picks.last());
    }
}

/// The command that asks for the next number.
pub open spec fn draw_command() -> WsCommand {
    WsCommand::Bingo { method: BingoMethod::Next }
}

/// `count` commands that each ask for the next number.
pub open spec fn draw_commands(count: nat) -> Seq<WsCommand> {
    Seq::new(count, |i: int| draw_command())
}

/// Draws that are asked for by command count as draws do.  While numbers
/// remain, the `k`-th draw command answers with the number that it drew and
/// with the count of draws so far, which is one more than before it, whatever
/// chance says.  Once as many numbers are drawn as the range holds, they are
/// the numbers `1..=range`, each exactly once, and a further draw command
/// shows nothing and answers nothing.
pub proof fn lemma_draw_commands_count(display: DisplayView, picks: Seq<nat>)
    requires
        display.wf(),
        display.bingo.index() + picks.len() <= display.bingo.range,
    ensures
        ({
            let after = display.apply_all(draw_commands(picks.len()), picks);
            let drawn_before = display.bingo.index();
            &&& after.0.wf()
            &&& after.0.bingo.range == display.bingo.range
            &&& after.0.bingo.index() == drawn_before + picks.len()
            &&& after.0.bingo.drawn.subrange(0, drawn_before as int) == display.bingo.drawn
            &&& after.1.len() == picks.len()
            &&& forall|k: int|
                0 <= k < picks.len() ==> (#[trigger] after.1[k]).response == Some(
                    ResponseView::Bingo {
                        current: after.0.bingo.drawn[drawn_before + k],
                        no: (drawn_before + k + 1) as u8,
                    },
                )
            &&& after.0.bingo.index() == display.bingo.range ==> {
                &&& after.0.bingo.drawn.to_multiset() =~= crate::bingo::numbers(
                    display.bingo.range,
                ).to_multiset()
                &&& forall|pick: nat|
                    (#[trigger] after.0.apply(draw_command(), pick)).1.response is None
                        && after.0.apply(draw_command(), pick).1.spawn is None
                        && after.0.apply(draw_command(), pick).0.bingo == after.0.bingo
            }
        }),
    decreases picks.len(),
{
    let count = picks.len();
    let after = display.apply_all(draw_commands(count), picks);
    let drawn_before = display.bingo.index();
    if count == 0 {
        assert(after.0.bingo.drawn.subrange(0, drawn_before as int) =~= display.bingo.drawn);
    } else {
        let fewer = picks.drop_last();
        assert(draw_commands(count).drop_last() =~= draw_commands(fewer.len()));
        lemma_draw_commands_count(display, fewer);
        let before = display.apply_all(draw_commands(fewer.len()), fewer);
        crate::bingo::lemma_draw(before.0.bingo, picks.last());
        assert(after.0.bingo.drawn.subrange(0, drawn_before as int) =~= display.bingo.drawn) by {
            assert(before.0.bingo.drawn.subrange(0, drawn_before as int) == display.bingo.drawn);
        }
        assert forall|k: int| 0 <= k < count implies (#[trigger] after.1[k]).response == Some(
            ResponseView::Bingo {
                current: after.0.bingo.drawn[drawn_before + k],
                no: (drawn_before + k + 1) as u8,
            },
        ) by {
            if k < count - 1 {
                assert(after.1[k] == before.1[k]);
                assert(after.0.bingo.drawn[drawn_before + k] == before.0.bingo.drawn[drawn_before
                    + k]);
            }
        }
    }
    if after.0.bingo.index() == display.bingo.range {
        crate::bingo::lemma_exhausted_covers_range(after.0.bingo);
    }
}

/// Commands take effect in the order in which they arrived, whatever the
/// ticks in which they are applied: two batches applied one after the other
/// leave the display, and ask of its surroundings, what the two would as one
/// batch.
pub proof fn lemma_batches_compose(
    display: DisplayView,
    first: Seq<WsCommand>,
    first_picks: Seq<nat>,
    then: Seq<WsCommand>,
    then_picks: Seq<nat>,
)
    requires
        first_picks.len() == first.len(),
        then_picks.len() == then.len(),
    ensures
        display.apply_all(first + then, first_picks + then_picks).0 == display.apply_all(
            first,
            first_picks,
        ).0.apply_all(then, then_picks).0,
        display.apply_all(first + then, first_picks + then_picks).1 == display.apply_all(
            first,
            first_picks,
        ).1 + display.apply_all(first, first_picks).0.apply_all(then, then_picks).1,
    decreases then.len(),
{
    let between = display.apply_all(first, first_picks);
    if then.len() == 0 {
        assert(first + then =~= first);
        assert(first_picks + then_picks =~= first_picks);
        assert(between.1 + Seq::<EffectsView>::empty() =~= between.1);
    } else {
        lemma_batches_compose(display, first, first_picks, then.drop_last(), then_picks.drop_last());
        assert((first + then).drop_last() =~= first + then.drop_last());
        assert((first_picks + then_picks).drop_last() =~= first_picks + then_picks.drop_last());
        let before = between.0.apply_all(then.drop_last(), then_picks.drop_last());
        let step = before.0.apply(then.last(), then_picks.last());
        assert(between.1 + before.1.push(step.1) =~= (between.1 + before.1).push(step.1));
    }
}

/// A scrolling text that leaves the screen, like a toggle while it scrolls,
/// makes way for the announcement that follows it in the queue, which waits:
/// no crossing starts the next one by itself.
pub proof fn lemma_crossing_pauses(display: DisplayView)
    requires
        display.wf(),
        display.state is Active,
    ensures
        display.finish_crossing() == display.toggle(),
        display.finish_crossing().0.queue == display.queue.advance(),
        display.finish_crossing().0.state == ScrollState::Waiting(
            display.queue.advance().current as usize,
        ),
        display.finish_crossing().1.destroy,
        display.finish_crossing().1.spawn == Some(
            SpawnView::Waiting(display.queue.advance().current_text()),
        ),
{
}

} // verus!
