//! Small games that fill the surface with random colours: noise, noise at a
//! fixed rate, rows and columns.

use rand::rngs::OsRng;
use rand::RngCore;
use vstd::prelude::*;
use crate::context::Context;
use crate::engine::GameState;
use crate::input::KeyboardState;
use crate::surface::PixelSurface;
use crate::timer::Timer;
use crate::types::Color;

verus! {

/// Width of the surface that the demos ask for.
pub const DEMO_WIDTH: u32 = 1024;

/// Height of the surface that the demos ask for.
pub const DEMO_HEIGHT: u32 = 768;

/// Nanoseconds between two redraws of the rate-limited demo.
pub const REDRAW_INTERVAL: u128 = 100_000_000;

/// Calls `rand::RngCore::try_fill_bytes` on `rand::rngs::OsRng`, which asks
/// the operating system for random bytes and writes them over `bytes`. The
/// answer is whether the system gave them. Nothing is claimed of the bytes
/// themselves, only that there are as many as before.
#[verifier::external_body]
fn try_fill(bytes: &mut Vec<u8>) -> (filled: bool)
    ensures
        final(bytes)@.len() == old(bytes)@.len(),
{
    OsRng.try_fill_bytes(bytes.as_mut_slice()).is_ok()
}

/// Draws `count` opaque colours, three random bytes each, or none at all
/// where the system refuses a byte.
fn random_colors(count: u32) -> (drawn: Option<Vec<Color>>)
    ensures
        drawn matches Some(colors) ==> colors@.len() == count,
{
    let mut colors: Vec<Color> = Vec::new();
    let mut i: u32 = 0;
    while i < count
        invariant
            i <= count,
            colors@.len() == i,
        decreases count - i,
    {
        let mut channels: Vec<u8> = vec![0u8; 3];
        if !try_fill(&mut channels) {
            return None;
        }
        colors.push(Color::RGB(channels[0], channels[1], channels[2]));
        i = i + 1;
    }
    Some(colors)
}

/// Whether `after` is `before` with every pixel of row `y` set to `color`.
pub open spec fn is_row_of(after: &PixelSurface, before: &PixelSurface, y: int, color: Color) -> bool {
    &&& after.same_size(before)
    &&& forall|px: int, py: int|
        after.contains(px, py) ==> #[trigger] after.pixel(px, py) == if py == y {
            color.rgb()
        } else {
            before.pixel(px, py)
        }
}

/// Whether `after` is `before` with every pixel of column `x` set to `color`.
pub open spec fn is_column_of(after: &PixelSurface, before: &PixelSurface, x: int, color: Color) -> bool {
    &&& after.same_size(before)
    &&& forall|px: int, py: int|
        after.contains(px, py) ==> #[trigger] after.pixel(px, py) == if px == x {
            color.rgb()
        } else {
            before.pixel(px, py)
        }
}

/// Whether every pixel of a row holds what the first pixel of the row holds.
pub open spec fn rows_uniform(surface: &PixelSurface) -> bool {
    forall|x: int, y: int|
        surface.contains(x, y) ==> #[trigger] surface.pixel(x, y) == surface.pixel(0, y)
}

/// Whether every pixel of a column holds what the first pixel of the column
/// holds.
pub open spec fn columns_uniform(surface: &PixelSurface) -> bool {
    forall|x: int, y: int|
        surface.contains(x, y) ==> #[trigger] surface.pixel(x, y) == surface.pixel(x, 0)
}

/// Sets every pixel of row `y` to `color`.
pub fn paint_row(surface: &mut PixelSurface, y: u32, color: Color)
    requires
        y < old(surface).spec_height(),
    ensures
        final(surface).wf(),
        is_row_of(final(surface), old(surface), y as int, color),
{
    let ghost before = *surface;
    let width = surface.width();
    let mut x: u32 = 0;
    while x < width
        invariant
            x <= width,
            width == surface.spec_width(),
            surface.wf(),
            surface.same_size(&before),
            y < surface.spec_height(),
            forall|px: int, py: int|
                surface.contains(px, py) ==> #[trigger] surface.pixel(px, py) == if py == y && px
                    < x {
                    color.rgb()
                } else {
                    before.pixel(px, py)
                },
        decreases width - x,
    {
        let ghost shown = *surface;
        surface.set_pixel(x, y, color);
        proof {
            assert forall|px: int, py: int| surface.contains(px, py) implies #[trigger] surface.pixel(
                px,
                py,
            ) == if py == y && px < x + 1 {
                color.rgb()
            } else {
                before.pixel(px, py)
            } by {
                assert(shown.pixel(px, py) == if py == y && px < x {
                    color.rgb()
                } else {
                    before.pixel(px, py)
                });
            }
        }
        x = x + 1;
    }
}

/// Sets every pixel of column `x` to `color`.
pub fn paint_column(surface: &mut PixelSurface, x: u32, color: Color)
    requires
        x < old(surface).spec_width(),
    ensures
        final(surface).wf(),
        is_column_of(final(surface), old(surface), x as int, color),
{
    let ghost before = *surface;
    let height = surface.height();
    let mut y: u32 = 0;
    while y < height
        invariant
            y <= height,
            height == surface.spec_height(),
            surface.wf(),
            surface.same_size(&before),
            x < surface.spec_width(),
            forall|px: int, py: int|
                surface.contains(px, py) ==> #[trigger] surface.pixel(px, py) == if px == x && py
                    < y {
                    color.rgb()
                } else {
                    before.pixel(px, py)
                },
        decreases height - y,
    {
        let ghost shown = *surface;
        surface.set_pixel(x, y, color);
        proof {
            assert forall|px: int, py: int| surface.contains(px, py) implies #[trigger] surface.pixel(
                px,
                py,
            ) == if px == x && py < y + 1 {
                color.rgb()
            } else {
                before.pixel(px, py)
            } by {
                assert(shown.pixel(px, py) == if px == x && py < y {
                    color.rgb()
                } else {
                    before.pixel(px, py)
                });
            }
        }
        y = y + 1;
    }
}

/// Whether every pixel of row `y` holds `colors[y]`, for every row.
pub open spec fn is_rows_of(after: &PixelSurface, before: &PixelSurface, colors: Seq<Color>) -> bool {
    &&& after.same_size(before)
    &&& forall|x: int, y: int|
        after.contains(x, y) ==> #[trigger] after.pixel(x, y) == colors[y].rgb()
}

/// Whether every pixel of column `x` holds `colors[x]`, for every column.
pub open spec fn is_columns_of(
    after: &PixelSurface,
    before: &PixelSurface,
    colors: Seq<Color>,
) -> bool {
    &&& after.same_size(before)
    &&& forall|x: int, y: int|
        after.contains(x, y) ==> #[trigger] after.pixel(x, y) == colors[x].rgb()
}

/// Gives each row the colour that `colors` holds for it.
pub fn paint_rows(surface: &mut PixelSurface, colors: &Vec<Color>)
    requires
        colors@.len() == old(surface).spec_height(),
    ensures
        final(surface).wf(),
        is_rows_of(final(surface), old(surface), colors@),
        rows_uniform(final(surface)),
{
    let ghost before = *surface;
    let height = surface.height();
    let mut y: u32 = 0;
    while y < height
        invariant
            y <= height,
            height == surface.spec_height(),
            colors@.len() == height,
            surface.wf(),
            surface.same_size(&before),
            forall|px: int, py: int|
                surface.contains(px, py) && py < y ==> #[trigger] surface.pixel(px, py)
                    == colors@[py].rgb(),
        decreases height - y,
    {
        let ghost shown = *surface;
        paint_row(surface, y, colors[y as usize]);
        proof {
            assert forall|px: int, py: int| surface.contains(px, py) && py < y + 1 implies #[trigger] surface.pixel(
                px,
                py,
            ) == colors@[py].rgb() by {
                assert(shown.pixel(px, py) == colors@[py].rgb() || py == y);
            }
        }
        y = y + 1;
    }
    proof {
        assert forall|px: int, py: int| surface.contains(px, py) implies #[trigger] surface.pixel(
            px,
            py,
        ) == surface.pixel(0, py) by {
            assert(surface.contains(0, py));
        }
    }
}

/// Gives each column the colour that `colors` holds for it.
pub fn paint_columns(surface: &mut PixelSurface, colors: &Vec<Color>)
    requires
        colors@.len() == old(surface).spec_width(),
    ensures
        final(surface).wf(),
        is_columns_of(final(surface), old(surface), colors@),
        columns_uniform(final(surface)),
{
    let ghost before = *surface;
    let width = surface.width();
    let mut x: u32 = 0;
    while x < width
        invariant
            x <= width,
            width == surface.spec_width(),
            colors@.len() == width,
            surface.wf(),
            surface.same_size(&before),
            forall|px: int, py: int|
                surface.contains(px, py) && px < x ==> #[trigger] surface.pixel(px, py)
                    == colors@[px].rgb(),
        decreases width - x,
    {
        let ghost shown = *surface;
        paint_column(surface, x, colors[x as usize]);
        proof {
            assert forall|px: int, py: int| surface.contains(px, py) && px < x + 1 implies #[trigger] surface.pixel(
                px,
                py,
            ) == colors@[px].rgb() by {
                assert(shown.pixel(px, py) == colors@[px].rgb() || px == x);
            }
        }
        x = x + 1;
    }
    proof {
        assert forall|px: int, py: int| surface.contains(px, py) implies #[trigger] surface.pixel(
            px,
            py,
        ) == surface.pixel(px, 0) by {
            assert(surface.contains(px, 0));
        }
    }
}

/// Gives every row a colour of its own, drawn at random. Where the system
/// gives no random bytes nothing is painted, and the answer says so.
pub fn paint_random_rows(surface: &mut PixelSurface) -> (painted: bool)
    ensures
        final(surface).wf(),
        final(surface).same_size(old(surface)),
        painted ==> rows_uniform(final(surface)),
        !painted ==> *final(surface) == *old(surface),
{
    let height = surface.height();
    match random_colors(height) {
        Some(colors) => {
            paint_rows(surface, &colors);
            true
        },
        None => false,
    }
}

/// Gives every column a colour of its own, drawn at random. Where the
/// system gives no random bytes nothing is painted, and the answer says so.
pub fn paint_random_columns(surface: &mut PixelSurface) -> (painted: bool)
    ensures
        final(surface).wf(),
        final(surface).same_size(old(surface)),
        painted ==> columns_uniform(final(surface)),
        !painted ==> *final(surface) == *old(surface),
{
    let width = surface.width();
    match random_colors(width) {
        Some(colors) => {
            paint_columns(surface, &colors);
            true
        },
        None => false,
    }
}

/// Overwrites every byte of the surface with a random one. Where the system
/// gives no random bytes nothing is painted, and the answer says so.
pub fn paint_noise(surface: &mut PixelSurface) -> (painted: bool)
    ensures
        final(surface).wf(),
        final(surface).same_size(old(surface)),
        !painted ==> *final(surface) == *old(surface),
{
    let len = surface.bytes().len();
    let mut noise: Vec<u8> = vec![0u8; len];
    if try_fill(&mut noise) {
        surface.copy_from(&noise);
        true
    } else {
        false
    }
}

/// Fills the surface with noise on every frame.
pub struct RandomNoise {
    ctx: Context,
}

impl RandomNoise {
    pub fn new() -> (game: RandomNoise)
        ensures
            game.spec_context().screen_width == DEMO_WIDTH,
            game.spec_context().screen_height == DEMO_HEIGHT,
            game.spec_context().font_descriptors is None,
    {
        RandomNoise { ctx: Context::new(DEMO_WIDTH, DEMO_HEIGHT, None) }
    }

    pub closed spec fn spec_context(&self) -> Context {
        self.ctx
    }
}

impl GameState for RandomNoise {
    open spec fn start_effect(
        &self,
        after: &Self,
        surface: &PixelSurface,
        surface_after: &PixelSurface,
    ) -> bool {
        *after == *self && *surface_after == *surface
    }

    open spec fn exit_effect(&self, after: &Self) -> bool {
        *after == *self
    }

    fn on_start(&mut self, surface: &mut PixelSurface) {
    }

    fn on_exit(&mut self) {
    }

    open spec fn update_effect(
        &self,
        after: &Self,
        elapsed_time: u128,
        surface: &PixelSurface,
        surface_after: &PixelSurface,
        keyboard_state: &KeyboardState,
    ) -> bool {
        &&& after.spec_context() == self.spec_context()
        &&& surface_after.same_size(surface)
    }

    fn on_update(
        &mut self,
        elapsed_time: u128,
        surface: &mut PixelSurface,
        keyboard_state: &KeyboardState,
    ) {
        let _ = paint_noise(surface);
    }

    fn context(&self) -> (ctx: &Context)
        ensures
            *ctx == self.spec_context(),
    {
        &self.ctx
    }
}

/// Fills the surface with noise, but no more often than once per interval.
pub struct RandomNoiseLimited {
    ctx: Context,
    draw_timer: Timer,
}

impl RandomNoiseLimited {
    pub fn new() -> (game: RandomNoiseLimited)
        ensures
            game.spec_context().screen_width == DEMO_WIDTH,
            game.spec_context().screen_height == DEMO_HEIGHT,
            game.spec_context().font_descriptors is None,
            game.spec_timer() == (Timer { interval: REDRAW_INTERVAL, accumulated: 0, done: false }),
    {
        RandomNoiseLimited {
            ctx: Context::new(DEMO_WIDTH, DEMO_HEIGHT, None),
            draw_timer: Timer::new(REDRAW_INTERVAL),
        }
    }

    pub closed spec fn spec_context(&self) -> Context {
        self.ctx
    }

    pub closed spec fn spec_timer(&self) -> Timer {
        self.draw_timer
    }

    /// The timer that gates the redraw.
    pub fn timer(&self) -> (timer: Timer)
        ensures
            timer == self.spec_timer(),
    {
        self.draw_timer
    }

    /// Whether a timer in state `timer` lets the frame that comes `elapsed`
    /// nanoseconds later redraw.
    pub open spec fn redraw_due(timer: Timer, elapsed: u128) -> bool {
        timer.updated(elapsed).done
    }

    /// The timer after a frame that comes `elapsed` nanoseconds later: started
    /// anew where the frame redraws, and `elapsed` further on where not.
    pub open spec fn timer_after(timer: Timer, elapsed: u128) -> Timer {
        if Self::redraw_due(timer, elapsed) {
            timer.restarted()
        } else {
            timer.updated(elapsed)
        }
    }

    /// Makes the first frame redraw whatever time has passed.
    pub fn arm(&mut self)
        ensures
            final(self).spec_timer() == old(self).spec_timer().forced(),
            final(self).spec_context() == old(self).spec_context(),
    {
        self.draw_timer.force();
    }

    /// Counts `elapsed_time` and, when the timer is done, paints noise and
    /// restarts the timer. Says whether a redraw was due; when none was, the
    /// surface is as it was.
    pub fn update_gated(&mut self, elapsed_time: u128, surface: &mut PixelSurface) -> (due: bool)
        ensures
            due == Self::redraw_due(old(self).spec_timer(), elapsed_time),
            final(self).spec_context() == old(self).spec_context(),
            final(self).spec_timer() == Self::timer_after(old(self).spec_timer(), elapsed_time),
            final(surface).same_size(old(surface)),
            !due ==> *final(surface) == *old(surface),
    {
        self.draw_timer.update(elapsed_time);
        if self.draw_timer.done {
            let _ = paint_noise(surface);
            self.draw_timer.restart();
            true
        } else {
            false
        }
    }
}

impl GameState for RandomNoiseLimited {
    open spec fn start_effect(
        &self,
        after: &Self,
        surface: &PixelSurface,
        surface_after: &PixelSurface,
    ) -> bool {
        &&& after.spec_timer() == self.spec_timer().forced()
        &&& after.spec_context() == self.spec_context()
        &&& *surface_after == *surface
    }

    open spec fn exit_effect(&self, after: &Self) -> bool {
        *after == *self
    }

    fn on_exit(&mut self) {
    }

    open spec fn update_effect(
        &self,
        after: &Self,
        elapsed_time: u128,
        surface: &PixelSurface,
        surface_after: &PixelSurface,
        keyboard_state: &KeyboardState,
    ) -> bool {
        let due = Self::redraw_due(self.spec_timer(), elapsed_time);
        &&& after.spec_context() == self.spec_context()
        &&& after.spec_timer() == Self::timer_after(self.spec_timer(), elapsed_time)
        &&& surface_after.same_size(surface)
        &&& !due ==> *surface_after == *surface
    }

    fn on_start(&mut self, surface: &mut PixelSurface) {
        self.arm();
    }

    fn on_update(
        &mut self,
        elapsed_time: u128,
        surface: &mut PixelSurface,
        keyboard_state: &KeyboardState,
    ) {
        let _ = self.update_gated(elapsed_time, surface);
    }

    fn context(&self) -> (ctx: &Context)
        ensures
            *ctx == self.spec_context(),
    {
        &self.ctx
    }
}

/// Gives every row a new random colour on every frame.
pub struct RandomRows {
    ctx: Context,
}

impl RandomRows {
    pub fn new() -> (game: RandomRows)
        ensures
            game.spec_context().screen_width == DEMO_WIDTH,
            game.spec_context().screen_height == DEMO_HEIGHT,
            game.spec_context().font_descriptors is None,
    {
        RandomRows { ctx: Context::new(DEMO_WIDTH, DEMO_HEIGHT, None) }
    }

    pub closed spec fn spec_context(&self) -> Context {
        self.ctx
    }
}

impl GameState for RandomRows {
    open spec fn start_effect(
        &self,
        after: &Self,
        surface: &PixelSurface,
        surface_after: &PixelSurface,
    ) -> bool {
        *after == *self && *surface_after == *surface
    }

    open spec fn exit_effect(&self, after: &Self) -> bool {
        *after == *self
    }

    fn on_start(&mut self, surface: &mut PixelSurface) {
    }

    fn on_exit(&mut self) {
    }

    open spec fn update_effect(
        &self,
        after: &Self,
        elapsed_time: u128,
        surface: &PixelSurface,
        surface_after: &PixelSurface,
        keyboard_state: &KeyboardState,
    ) -> bool {
        &&& after.spec_context() == self.spec_context()
        &&& surface_after.same_size(surface)
        &&& rows_uniform(surface_after) || *surface_after == *surface
    }

    fn on_update(
        &mut self,
        elapsed_time: u128,
        surface: &mut PixelSurface,
        keyboard_state: &KeyboardState,
    ) {
        let _ = paint_random_rows(surface);
    }

    fn context(&self) -> (ctx: &Context)
        ensures
            *ctx == self.spec_context(),
    {
        &self.ctx
    }
}

/// Gives every column a new random colour on every frame.
pub struct RandomCols {
    ctx: Context,
}

impl RandomCols {
    pub fn new() -> (game: RandomCols)
        ensures
            game.spec_context().screen_width == DEMO_WIDTH,
            game.spec_context().screen_height == DEMO_HEIGHT,
            game.spec_context().font_descriptors is None,
    {
        RandomCols { ctx: Context::new(DEMO_WIDTH, DEMO_HEIGHT, None) }
    }

    pub closed spec fn spec_context(&self) -> Context {
        self.ctx
    }
}

impl GameState for RandomCols {
    open spec fn start_effect(
        &self,
        after: &Self,
        surface: &PixelSurface,
        surface_after: &PixelSurface,
    ) -> bool {
        *after == *self && *surface_after == *surface
    }

    open spec fn exit_effect(&self, after: &Self) -> bool {
        *after == *self
    }

    fn on_start(&mut self, surface: &mut PixelSurface) {
    }

    fn on_exit(&mut self) {
    }

    open spec fn update_effect(
        &self,
        after: &Self,
        elapsed_time: u128,
        surface: &PixelSurface,
        surface_after: &PixelSurface,
        keyboard_state: &KeyboardState,
    ) -> bool {
        &&& after.spec_context() == self.spec_context()
        &&& surface_after.same_size(surface)
        &&& columns_uniform(surface_after) || *surface_after == *surface
    }

    fn on_update(
        &mut self,
        elapsed_time: u128,
        surface: &mut PixelSurface,
        keyboard_state: &KeyboardState,
    ) {
        let _ = paint_random_columns(surface);
    }

    fn context(&self) -> (ctx: &Context)
        ensures
            *ctx == self.spec_context(),
    {
        &self.ctx
    }
}

} // verus!
