//! The lifecycle of the frame loop: what the loop owns, the hooks it calls
//! and the order in which a frame refreshes the keyboard state, runs the
//! update hook and hands the surface on.
//!
//! The loop itself, with its clock, its event queue and its window, belongs
//! to the program. It reports what it measured and sampled to the `Engine`,
//! which decides what happens next.

use std::collections::HashSet;
use vstd::prelude::*;
use crate::context::Context;
use crate::input::KeyboardState;
use crate::surface::{buffer_len, PixelSurface};

verus! {

/// Value of every byte of a freshly allocated surface.
pub const INITIAL_FILL: u8 = 100;

/// Where a loop stands in its life. A loop only ever moves forward through
/// these, and one that has stopped cannot be started again.
#[derive(Clone, Copy, Debug, PartialEq, Eq, Structural)]
pub enum Phase {
    Uninitialized,
    Running,
    Terminating,
    Stopped,
}

/// What a game implements to be driven by the loop.
///
/// Each hook comes with a relation in which a game states what the hook
/// does. The engine promises that relation of every call it makes. A game
/// that states nothing keeps the relations as they are: they hold of
/// anything.
pub trait GameState: Sized {
    /// What the start hook does to the game and to the surface.
    open spec fn start_effect(
        &self,
        after: &Self,
        surface: &PixelSurface,
        surface_after: &PixelSurface,
    ) -> bool {
        true
    }

    /// What the update hook does to the game and to the surface in a frame
    /// that comes `elapsed_time` nanoseconds after the one before.
    open spec fn update_effect(
        &self,
        after: &Self,
        elapsed_time: u128,
        surface: &PixelSurface,
        surface_after: &PixelSurface,
        keyboard_state: &KeyboardState,
    ) -> bool {
        true
    }

    /// What the exit hook does to the game.
    open spec fn exit_effect(&self, after: &Self) -> bool {
        true
    }

    /// Called once, before the first frame. A game with nothing to prepare
    /// leaves the body empty.
    fn on_start(&mut self, surface: &mut PixelSurface)
        ensures
            old(self).start_effect(final(self), old(surface), final(surface)),
    ;

    /// Called once per frame with the time since the previous frame began,
    /// in nanoseconds, the surface to draw on and the keyboard state of this
    /// frame.
    fn on_update(
        &mut self,
        elapsed_time: u128,
        surface: &mut PixelSurface,
        keyboard_state: &KeyboardState,
    )
        ensures
            old(self).update_effect(
                final(self),
                elapsed_time,
                old(surface),
                final(surface),
                keyboard_state,
            ),
    ;

    /// Called once, after the last frame. A game with nothing to release
    /// leaves the body empty.
    fn on_exit(&mut self)
        ensures
            old(self).exit_effect(final(self)),
    ;

    /// The configuration that the loop reads before it allocates the surface.
    fn context(&self) -> &Context;
}

/// What a running loop does next. One turn of the loop goes through the
/// three in this order: it samples the keys and updates, it presents, it
/// polls for a request to quit.
#[derive(Clone, Copy, Debug, PartialEq, Eq, Structural)]
pub enum Stage {
    /// The next frame can be opened.
    Sample,
    /// A frame is open: the update hook runs now.
    Update,
    /// The frame is closed: the surface is presented, then the loop polls.
    Present,
}

/// The state that the loop owns: its phase, the surface and the keyboard
/// state. The hooks borrow the surface for the length of one call; the
/// keyboard state is theirs to read only.
pub struct Engine {
    phase: Phase,
    stage: Stage,
    keyboard_state: KeyboardState,
    draw_surface: PixelSurface,
}

impl Engine {
    pub closed spec fn spec_phase(&self) -> Phase {
        self.phase
    }

    pub closed spec fn spec_stage(&self) -> Stage {
        self.stage
    }

    /// Whether the loop is running and at `stage` of its turn.
    pub open spec fn running_at(&self, stage: Stage) -> bool {
        self.spec_phase() == Phase::Running && self.spec_stage() == stage
    }

    pub closed spec fn spec_keyboard_state(&self) -> KeyboardState {
        self.keyboard_state
    }

    pub closed spec fn spec_draw_surface(&self) -> PixelSurface {
        self.draw_surface
    }

    /// The keys that were held down when the previous frame ended.
    pub open spec fn previous_keys(&self) -> Set<i32> {
        self.spec_keyboard_state().previous@
    }

    /// The keys that are held down in this frame.
    pub open spec fn current_keys(&self) -> Set<i32> {
        self.spec_keyboard_state().current@
    }

    /// Allocates the surface that `ctx` asks for and an empty keyboard
    /// state. There is no engine for a surface whose buffer would not fit
    /// the address space.
    pub fn new(ctx: &Context) -> (made: Option<Engine>)
        ensures
            made.is_some() <==> buffer_len(ctx.screen_width as int, ctx.screen_height as int)
                <= usize::MAX,
            made matches Some(engine) ==> {
                &&& engine.spec_phase() == Phase::Uninitialized
                &&& engine.spec_stage() == Stage::Sample
                &&& engine.previous_keys() == Set::<i32>::empty()
                &&& engine.current_keys() == Set::<i32>::empty()
                &&& engine.spec_draw_surface().wf()
                &&& engine.spec_draw_surface().spec_width() == ctx.screen_width
                &&& engine.spec_draw_surface().spec_height() == ctx.screen_height
                &&& engine.spec_draw_surface()@ == Seq::new(
                    buffer_len(ctx.screen_width as int, ctx.screen_height as int) as nat,
                    |i: int| INITIAL_FILL,
                )
            },
    {
        match PixelSurface::new(ctx.screen_width, ctx.screen_height, INITIAL_FILL) {
            Some(draw_surface) => Some(
                Engine {
                    phase: Phase::Uninitialized,
                    stage: Stage::Sample,
                    keyboard_state: KeyboardState::new(),
                    draw_surface,
                },
            ),
            None => None,
        }
    }

    pub fn phase(&self) -> (phase: Phase)
        ensures
            phase == self.spec_phase(),
    {
        self.phase
    }

    pub fn stage(&self) -> (stage: Stage)
        ensures
            stage == self.spec_stage(),
    {
        self.stage
    }

    pub fn keyboard_state(&self) -> (state: &KeyboardState)
        ensures
            *state == self.spec_keyboard_state(),
    {
        &self.keyboard_state
    }

    /// The surface as the last hook left it, for presentation.
    pub fn draw_surface(&self) -> (surface: &PixelSurface)
        ensures
            *surface == self.spec_draw_surface(),
            surface.wf(),
    {
        let _ = self.draw_surface.width();
        &self.draw_surface
    }

    /// Runs the start hook on the surface and enters the steady loop.
    pub fn start<T: GameState>(&mut self, game: &mut T)
        requires
            old(self).spec_phase() == Phase::Uninitialized,
        ensures
            final(self).running_at(Stage::Sample),
            final(self).spec_keyboard_state() == old(self).spec_keyboard_state(),
            final(self).spec_draw_surface().wf(),
            old(game).start_effect(
                final(game),
                &old(self).spec_draw_surface(),
                &final(self).spec_draw_surface(),
            ),
    {
        game.on_start(&mut self.draw_surface);
        self.phase = Phase::Running;
        self.stage = Stage::Sample;
        let _ = self.draw_surface.width();
    }

    /// Opens a frame: `keys`, the keys held down right now, become the
    /// current state, next to the state that the previous frame ended with.
    pub fn begin_frame(&mut self, keys: HashSet<i32>)
        requires
            old(self).running_at(Stage::Sample),
        ensures
            final(self).running_at(Stage::Update),
            final(self).current_keys() == keys@,
            final(self).previous_keys() == old(self).previous_keys(),
            final(self).spec_draw_surface() == old(self).spec_draw_surface(),
    {
        self.keyboard_state.refresh(keys);
        self.stage = Stage::Update;
    }

    /// Closes a frame once the update hook has returned: the current keys
    /// become the previous ones. The surface is then ready to be presented.
    pub fn end_frame(&mut self)
        requires
            old(self).running_at(Stage::Update),
        ensures
            final(self).running_at(Stage::Present),
            final(self).current_keys() == old(self).current_keys(),
            final(self).previous_keys() == old(self).current_keys(),
            final(self).spec_draw_surface() == old(self).spec_draw_surface(),
    {
        self.keyboard_state.commit();
        self.stage = Stage::Present;
    }

    /// One frame: opens it with `keys`, runs the update hook, which sees the
    /// keys of the frame before as the previous state, and closes it.
    pub fn frame<T: GameState>(&mut self, game: &mut T, elapsed_time: u128, keys: HashSet<i32>)
        requires
            old(self).running_at(Stage::Sample),
        ensures
            final(self).running_at(Stage::Present),
            final(self).current_keys() == keys@,
            final(self).previous_keys() == keys@,
            final(self).spec_draw_surface().wf(),
            exists|seen: KeyboardState|
                {
                    &&& seen.previous@ == old(self).previous_keys()
                    &&& seen.current@ == keys@
                    &&& #[trigger] old(game).update_effect(
                        final(game),
                        elapsed_time,
                        &old(self).spec_draw_surface(),
                        &final(self).spec_draw_surface(),
                        &seen,
                    )
                },
    {
        self.begin_frame(keys);
        game.on_update(elapsed_time, &mut self.draw_surface, &self.keyboard_state);
        self.end_frame();
        let _ = self.draw_surface.width();
    }

    /// Takes note of whether the program was asked to quit while the frame
    /// was presented. A request ends the steady loop; without one the next
    /// frame can be opened. The loop polls only after a frame, so a request
    /// that was there from the beginning still lets one frame run.
    pub fn poll(&mut self, quit_requested: bool) -> (keep_going: bool)
        requires
            old(self).running_at(Stage::Present),
        ensures
            keep_going == !quit_requested,
            final(self).spec_phase() == if quit_requested {
                Phase::Terminating
            } else {
                Phase::Running
            },
            !quit_requested ==> final(self).spec_stage() == Stage::Sample,
            final(self).spec_keyboard_state() == old(self).spec_keyboard_state(),
            final(self).spec_draw_surface() == old(self).spec_draw_surface(),
    {
        if quit_requested {
            self.phase = Phase::Terminating;
        } else {
            self.stage = Stage::Sample;
        }
        !quit_requested
    }

    /// Runs the exit hook, gives up the surface and stops for good.
    pub fn stop<T: GameState>(&mut self, game: &mut T)
        requires
            old(self).spec_phase() == Phase::Terminating,
        ensures
            final(self).spec_phase() == Phase::Stopped,
            final(self).spec_keyboard_state() == old(self).spec_keyboard_state(),
            final(self).spec_draw_surface()@ == Seq::<u8>::empty(),
            final(self).spec_draw_surface().spec_width() == 0,
            final(self).spec_draw_surface().spec_height() == 0,
            old(game).exit_effect(final(game)),
    {
        game.on_exit();
        self.draw_surface = PixelSurface::empty();
        self.phase = Phase::Stopped;
    }
}

} // verus!
