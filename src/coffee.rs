use vstd::prelude::*;

use crate::frame::frame_text;
use crate::renderer::Renderer;
use crate::steam_renderer::{
    options_error, options_valid, spawned_particle, ConstructionError, SteamRenderer, SteamRendererOptions,
    FLIP_INTERVAL_CHOICES,
};
use crate::vector2::UNITS_PER_CELL;

verus! {

/// The coffee cup drawn under the steam.
pub const CUP: &'static str = "          _________________________
         : _ _ _ _ _ _ _ _ _ _ _ _ :
     ,---:\".\".\".\".\".\".\".\".\".\".\".\".\":
    : ,'\"`::.:.:.:.:.:.:.:.:.:.:.::'
    `.`.  `:-===-===-===-===-===-:'
      `.`-._:                   :
        `-.__`.               ,'
    ,--------`\"`-------------'--------.
     `\"--.__                   __.--\"'
            `\"\"-------------\"\"'";

/// A cup of coffee with steam rising from it.
pub struct Coffee {
    renderer: SteamRenderer,
}

impl Coffee {
    /// The steam above the cup.
    pub closed spec fn steam(&self) -> SteamRenderer {
        self.renderer
    }

    /// A cup with no steam yet, or the reason the settings are refused.
    pub fn new(options: SteamRendererOptions) -> (r: Result<Self, ConstructionError>)
        ensures
            match r {
                Ok(coffee) => {
                    &&& options_valid(options)
                    &&& coffee.steam().wf()
                    &&& coffee.steam().config() == options
                    &&& coffee.steam().live().len() == 0
                    &&& coffee.steam().next_id() == 0
                },
                Err(e) => options_error(options) == Some(e),
            },
    {
        match SteamRenderer::new(options) {
            Ok(renderer) => Ok(Coffee { renderer }),
            Err(e) => Err(e),
        }
    }

    /// Whether another particle can still receive a fresh id.
    pub fn can_spawn(&self) -> (r: bool)
        ensures
            r == (self.steam().next_id() < u32::MAX),
    {
        self.renderer.can_spawn()
    }

    /// Spawns a steam particle at a random place above the cup.
    pub fn spawn_particle(&mut self)
        requires
            old(self).steam().wf(),
            old(self).steam().next_id() < u32::MAX,
        ensures
            final(self).steam().wf(),
            final(self).steam().next_id() == old(self).steam().next_id() + 1,
            final(self).steam().config() == old(self).steam().config(),
            exists|x_fraction: int, left: bool, frames_between_flips: u32|
                0 <= x_fraction < UNITS_PER_CELL && frames_between_flips < FLIP_INTERVAL_CHOICES
                    && #[trigger] final(self).steam().live() == old(self).steam().live().push(
                    (
                        old(self).steam().next_id() as u32,
                        spawned_particle(old(self).steam().config(), x_fraction, left, frames_between_flips),
                    ),
                ),
    {
        self.renderer.spawn_particle();
    }
}

impl Renderer for Coffee {
    open spec fn ready(&self) -> bool {
        self.steam().wf()
    }

    /// The steam's frame with the cup drawn below it.
    fn generate_frame(&mut self) -> (frame: String)
        ensures
            final(self).steam().live() == old(self).steam().live(),
            final(self).steam().next_id() == old(self).steam().next_id(),
            final(self).steam().config() == old(self).steam().config(),
            frame@ == frame_text(old(self).steam().live(), old(self).steam().config()) + CUP@,
    {
        let mut frame = self.renderer.generate_frame();
        frame.append(CUP);
        frame
    }

    /// Advances the steam by one step.
    fn update_simulation(&mut self)
        ensures
            final(self).steam().live() == crate::simulation::step_all(
                old(self).steam().live(),
                old(self).steam().config(),
            ),
            final(self).steam().next_id() == old(self).steam().next_id(),
            final(self).steam().config() == old(self).steam().config(),
    {
        self.renderer.update_simulation()
    }
}

} // verus!
