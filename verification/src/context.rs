//! Start-up configuration of the frame loop.

use vstd::prelude::*;

verus! {

/// A font that the display side should load before the first frame, and the
/// label under which it is kept.
pub struct FontDescriptor {
    pub path: &'static str,
    pub label: &'static str,
    pub size: u16,
}

/// What a game asks of the loop before it starts: the size of the surface and
/// the fonts it wants. Read once; never changed by the loop.
pub struct Context {
    pub screen_width: u32,
    pub screen_height: u32,
    pub font_descriptors: Option<Vec<FontDescriptor>>,
}

impl Context {
    pub fn new(
        screen_width: u32,
        screen_height: u32,
        font_descriptors: Option<Vec<FontDescriptor>>,
    ) -> (ctx: Context)
        ensures
            ctx.screen_width == screen_width,
            ctx.screen_height == screen_height,
            ctx.font_descriptors == font_descriptors,
    {
        Context { screen_width, screen_height, font_descriptors }
    }
}

} // verus!
