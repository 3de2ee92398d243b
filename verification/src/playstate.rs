//! The stack of play states (menus, the game session, ...) and the global
//! state shared between them.
//!
//! The real window and audio backends live outside this crate; here they
//! are modelled by the flags and values the play-state logic reads and
//! writes, so that the state-transfer rules can be checked.

use vstd::prelude::*;

verus! {

/// Model of the window backend: the two pieces of window state the
/// play-state machinery touches.
#[derive(Clone, Copy, Debug, PartialEq, Eq, Structural)]
pub struct Window {
    /// Whether the cursor is currently grabbed by the window.
    pub cursor_grabbed: bool,
    /// Whether a refresh/resize event must be replayed on the next frame.
    pub needs_refresh_resize: bool,
}

impl Window {
    /// Grab or release the cursor.
    pub fn grab_cursor(&mut self, grab: bool)
        ensures
            final(self).cursor_grabbed == grab,
            final(self).needs_refresh_resize == old(self).needs_refresh_resize,
    {
        self.cursor_grabbed = grab;
    }

    /// Ask for a refresh/resize event to be replayed on the next frame.
    pub fn needs_refresh_resize(&mut self)
        ensures
            final(self).needs_refresh_resize == true,
            final(self).cursor_grabbed == old(self).cursor_grabbed,
    {
        self.needs_refresh_resize = true;
    }
}

/// Model of the settings store; opaque to the play-state logic.
#[derive(Clone, Copy, Debug, PartialEq, Eq, Structural)]
pub struct Settings {}

/// Model of the audio frontend; opaque to the play-state logic.
#[derive(Clone, Copy, Debug, PartialEq, Eq, Structural)]
pub struct AudioFrontend {}

impl AudioFrontend {
    /// Per-tick upkeep of the audio backend.
    pub fn maintain(&mut self)
        ensures
            *final(self) == *old(self),
    {
    }
}

/// State that is shared between all play states.
pub struct GlobalState {
    pub settings: Settings,
    pub window: Window,
    pub audio: AudioFrontend,
}

impl GlobalState {
    /// Called after a change in play state has occurred (usually used to
    /// reverse any temporary effects a state may have made): the cursor is
    /// released and the window asked to replay its refresh/resize event.
    pub fn on_play_state_changed(&mut self)
        ensures
            final(self).window.cursor_grabbed == false,
            final(self).window.needs_refresh_resize == true,
            final(self).settings == old(self).settings,
            final(self).audio == old(self).audio,
    {
        self.window.grab_cursor(false);
        self.window.needs_refresh_resize();
    }

    /// Per-tick upkeep of the shared state.
    pub fn maintain(&mut self)
        ensures
            final(self).settings == old(self).settings,
            final(self).window == old(self).window,
            final(self).audio == old(self).audio,
    {
        self.audio.maintain();
    }
}

/// Which way the play-state stack last moved.
#[derive(Clone, Copy, Debug, PartialEq, Eq, Structural)]
pub enum Direction {
    Forwards,
    Backwards,
}

/// What a play state asks of the stack when it yields: close everything,
/// close itself, push a new state on top, or replace itself.
pub enum PlayStateResult<S> {
    /// Pop all play states in reverse order and shut down the program.
    Shutdown,
    /// Close the current play state and pop it from the play state stack.
    Pop,
    /// Push a new play state onto the play state stack.
    Push(S),
    /// Switch the current play state with a new play state.
    Switch(S),
}

/// A playable game state: a menu, a game session, the title screen, ...
/// Implemented by the host program's states; `play` runs the state until it
/// yields a stack transfer request.
pub trait PlayState: Sized {
    /// Play the state until some change of state is required (i.e. a menu
    /// is opened or the game is closed).
    fn play(&mut self, direction: Direction, global_state: &mut GlobalState) -> PlayStateResult<
        Self,
    >;

    /// A descriptive name for this state type.
    fn name(&self) -> &'static str;
}

/// The play-state stack after one transfer request has been applied.
pub open spec fn spec_stack_after<S>(stack: Seq<S>, result: PlayStateResult<S>) -> Seq<S> {
    match result {
        PlayStateResult::Shutdown => Seq::empty(),
        PlayStateResult::Pop => if stack.len() == 0 {
            stack
        } else {
            stack.drop_last()
        },
        PlayStateResult::Push(s) => stack.push(s),
        PlayStateResult::Switch(s) => if stack.len() == 0 {
            stack
        } else {
            stack.drop_last().push(s)
        },
    }
}

/// Whether applying the transfer request changes the set of play states,
/// and so must be followed by `on_play_state_changed`.
pub open spec fn spec_transfer_touches_stack<S>(
    stack: Seq<S>,
    result: PlayStateResult<S>,
) -> bool {
    match result {
        PlayStateResult::Shutdown => stack.len() > 0,
        PlayStateResult::Pop => stack.len() > 0,
        PlayStateResult::Push(_) => true,
        PlayStateResult::Switch(_) => stack.len() > 0,
    }
}

/// Apply one play-state transfer request to the stack: the state-transfer
/// rules of the program's main loop. Returns the direction the next `play`
/// call is entered with.
pub fn apply_play_state_result<S>(
    states: &mut Vec<S>,
    global_state: &mut GlobalState,
    result: PlayStateResult<S>,
) -> (direction: Direction)
    ensures
        final(states)@ == spec_stack_after(old(states)@, result),
        direction == (match result {
            PlayStateResult::Shutdown => Direction::Backwards,
            PlayStateResult::Pop => Direction::Backwards,
            PlayStateResult::Push(_) => Direction::Forwards,
            PlayStateResult::Switch(_) => Direction::Forwards,
        }),
        spec_transfer_touches_stack(old(states)@, result) ==> {
            &&& final(global_state).window.cursor_grabbed == false
            &&& final(global_state).window.needs_refresh_resize == true
        },
        !spec_transfer_touches_stack(old(states)@, result) ==> final(global_state).window == old(
            global_state,
        ).window,
        final(global_state).settings == old(global_state).settings,
        final(global_state).audio == old(global_state).audio,
{
    match result {
        PlayStateResult::Shutdown => {
            while states.len() > 0
                invariant
                    states@.len() <= old(states)@.len(),
                    states@.len() == old(states)@.len() ==> *global_state == *old(global_state),
                    states@.len() < old(states)@.len() ==> {
                        &&& global_state.window.cursor_grabbed == false
                        &&& global_state.window.needs_refresh_resize == true
                    },
                    global_state.settings == old(global_state).settings,
                    global_state.audio == old(global_state).audio,
                decreases states@.len(),
            {
                let _old_state = states.pop();
                global_state.on_play_state_changed();
            }
            assert(states@ =~= Seq::<S>::empty());
            Direction::Backwards
        },
        PlayStateResult::Pop => {
            if states.len() > 0 {
                let _old_state = states.pop();
                global_state.on_play_state_changed();
            }
            Direction::Backwards
        },
        PlayStateResult::Push(new_state) => {
            states.push(new_state);
            global_state.on_play_state_changed();
            Direction::Forwards
        },
        PlayStateResult::Switch(new_state) => {
            if states.len() > 0 {
                let _old_state = states.pop();
                states.push(new_state);
                global_state.on_play_state_changed();
            }
            Direction::Forwards
        },
    }
}

} // verus!
