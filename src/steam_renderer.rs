use vstd::prelude::*;

use crate::renderer::Renderer;
use crate::random::{random_below, random_bool};
use crate::simulation::{has_id, lemma_step_ordered, step_all, store_call};
use crate::frame::{cell_at, column_of, columns, frame_char, frame_text, row_of, visible};
use crate::vector2::{cell_index, cell_of, Vector2, UNITS_PER_CELL};

verus! {

/// Largest speed, in units per step, that a particle or a setting may have
/// (two to the twentieth).
pub const SPEED_LIMIT: i64 = 1048576;

/// Largest distance from the origin, in units, at which a particle may spawn
/// (two to the fortieth). With `SPEED_LIMIT` and ages below `u32::MAX` no
/// position can leave the range of `i64`.
pub const SPAWN_LIMIT: i64 = 1099511627776;

/// Largest grid width or render offset (two to the thirtieth), so that a
/// spawn position across the width stays within `SPAWN_LIMIT`.
pub const GRID_LIMIT: usize = 1073741824;

/// Flip intervals of spawned particles are drawn from `0..FLIP_INTERVAL_CHOICES`.
pub const FLIP_INTERVAL_CHOICES: u32 = 4;

/// Settings of a steam renderer. Speeds are in units per step.
#[derive(Clone, Copy, Debug)]
pub struct SteamRendererOptions {
    /// Grid columns that particles are spawned across.
    pub width: usize,
    /// Grid rows.
    pub height: usize,
    /// Columns added to the left of the grid; particle columns shift right by it.
    pub offset: usize,
    /// Vertical speed given to each spawned particle.
    pub rise_speed: i64,
    /// Added to each particle's horizontal speed on every step.
    pub wind: i64,
    /// Bound on the size of a particle's horizontal speed.
    pub max_speed: i64,
    /// Lifespan, in steps, of a particle spawned at the centre.
    pub max_lifespan: u32,
}

/// One steam particle.
#[derive(Clone, Copy, Debug)]
pub struct SteamParticle {
    pub position: Vector2<i64>,
    pub velocity: Vector2<i64>,
    pub left: bool,
    pub frames_between_flips: u32,
    pub lifespan: u32,
    /// Steps since spawn.
    pub frames: u32,
    /// Steps since the last change of orientation.
    pub frames_since_last_flip: u32,
}

/// Absolute value.
pub open spec fn abs_int(v: int) -> int {
    if v < 0 {
        -v
    } else {
        v
    }
}

/// `v` brought into `[lo, hi]`.
pub open spec fn clamp_int(v: int, lo: int, hi: int) -> int {
    if v < lo {
        lo
    } else if v > hi {
        hi
    } else {
        v
    }
}

/// The age and flip counters can each take one more step.
pub open spec fn counters_bounded(p: SteamParticle) -> bool {
    &&& p.frames == 0 || p.frames < p.lifespan
    &&& p.frames_between_flips < u32::MAX
    &&& p.frames_since_last_flip <= p.frames_between_flips
}

/// The particle's state stays within the ranges that its arithmetic needs.
pub open spec fn particle_bounded(p: SteamParticle) -> bool {
    &&& counters_bounded(p)
    &&& abs_int(p.velocity.x as int) <= SPEED_LIMIT
    &&& abs_int(p.velocity.y as int) <= SPEED_LIMIT
    &&& abs_int(p.position.x as int) <= SPAWN_LIMIT + p.frames * SPEED_LIMIT
    &&& abs_int(p.position.y as int) <= SPAWN_LIMIT + p.frames * SPEED_LIMIT
}

/// The particle after one step of its counters: age and flip bookkeeping.
pub open spec fn aged(p: SteamParticle) -> SteamParticle {
    let frames = p.frames + 1;
    let since = p.frames_since_last_flip + 1;
    if frames < p.lifespan && since > p.frames_between_flips {
        SteamParticle { left: !p.left, frames: frames as u32, frames_since_last_flip: 0, ..p }
    } else {
        SteamParticle { frames: frames as u32, frames_since_last_flip: since as u32, ..p }
    }
}

/// Whether the step that is about to be taken retires the particle.
pub open spec fn expires(p: SteamParticle) -> bool {
    p.frames + 1 >= p.lifespan
}

/// The particle after wind, speed clamp and one Euler step of its position.
pub open spec fn moved(p: SteamParticle, o: SteamRendererOptions) -> SteamParticle {
    let vx = clamp_int(p.velocity.x + o.wind, -o.max_speed, o.max_speed as int);
    SteamParticle {
        velocity: Vector2 { x: vx as i64, y: p.velocity.y },
        position: Vector2 {
            x: (p.position.x + vx) as i64,
            y: (p.position.y + p.velocity.y) as i64,
        },
        ..p
    }
}

/// The particle after one full simulation step.
pub open spec fn advanced(p: SteamParticle, o: SteamRendererOptions) -> SteamParticle {
    aged(moved(p, o))
}

/// The glyph that a particle is drawn with.
pub open spec fn glyph(p: SteamParticle) -> char {
    if cell_of(p.position.y as int) == 0 {
        '|'
    } else if p.left {
        '{'
    } else {
        '}'
    }
}

impl SteamParticle {
    /// Advances the age and orientation counters by one step; returns whether
    /// the particle has reached its lifespan and must be removed.
    pub fn update(&mut self) -> (delete: bool)
        requires
            old(self).frames < u32::MAX,
            old(self).frames_since_last_flip < u32::MAX,
        ensures
            delete == expires(*old(self)),
            *final(self) == aged(*old(self)),
    {
        self.frames_since_last_flip = self.frames_since_last_flip + 1;
        self.frames = self.frames + 1;

        if self.frames >= self.lifespan {
            return true;
        }
        if self.frames_since_last_flip > self.frames_between_flips {
            self.flip();
            self.frames_since_last_flip = 0;
        }
        false
    }

    /// The glyph of the particle: `|` on the source row, else `{` when it
    /// leans left and `}` when it leans right.
    pub fn to_ascii(&self) -> (c: char)
        ensures
            c == glyph(*self),
            cell_of(self.position.y as int) == 0 ==> c == '|',
            cell_of(self.position.y as int) != 0 ==> c == (if self.left { '{' } else { '}' }),
    {
        if cell_index(self.position.y) == 0 {
            '|'
        } else if self.left {
            '{'
        } else {
            '}'
        }
    }

    /// Toggles the orientation.
    pub fn flip(&mut self)
        ensures
            *final(self) == (SteamParticle { left: !old(self).left, ..*old(self) }),
    {
        self.left = !self.left;
    }
}


/// Relies on `String::push`: appends the one character at the end.
pub assume_specification[ String::push ](s: &mut String, ch: char)
    ensures
        final(s)@ == old(s)@.push(ch),
;

/// Why a renderer could not be built.
#[derive(Clone, Copy, Debug, PartialEq, Eq, Structural)]
pub enum ConstructionError {
    /// The grid has no row or no column.
    EmptyGrid,
    /// Width or offset is above `GRID_LIMIT`, or the grid has more cells than
    /// `usize` can count.
    GridTooLarge,
    /// A speed is above `SPEED_LIMIT` in size, or the largest speed is negative.
    SpeedOutOfRange,
}

/// The settings that a renderer accepts, and the error for those it refuses.
pub open spec fn options_error(o: SteamRendererOptions) -> Option<ConstructionError> {
    if o.width == 0 || o.height == 0 {
        Some(ConstructionError::EmptyGrid)
    } else if o.width > GRID_LIMIT || o.offset > GRID_LIMIT || o.height * (o.width + o.offset)
        > usize::MAX {
        Some(ConstructionError::GridTooLarge)
    } else if !(0 <= o.max_speed <= SPEED_LIMIT && abs_int(o.wind as int) <= SPEED_LIMIT
        && abs_int(o.rise_speed as int) <= SPEED_LIMIT) {
        Some(ConstructionError::SpeedOutOfRange)
    } else {
        None
    }
}

pub open spec fn options_valid(o: SteamRendererOptions) -> bool {
    options_error(o) is None
}

/// Particle ids increase along the store and lie below `next_id`.
pub open spec fn ids_ordered(ps: Seq<(u32, SteamParticle)>, next_id: int) -> bool {
    &&& forall|i: int, j: int| 0 <= i < j < ps.len() ==> ps[i].0 < ps[j].0
    &&& forall|i: int| 0 <= i < ps.len() ==> ps[i].0 < next_id
}

/// A particle as spawned: at rest in its counters, at age zero.
pub open spec fn fresh_particle(
    x: i64,
    y: i64,
    velocity: Vector2<i64>,
    left: bool,
    frames_between_flips: u32,
    lifespan: u32,
) -> SteamParticle {
    SteamParticle {
        position: Vector2 { x, y },
        velocity,
        left,
        frames_between_flips,
        lifespan,
        frames: 0,
        frames_since_last_flip: 0,
    }
}

/// Lifespan of a particle spawned at `x_fraction` of the grid width, where
/// the fraction is counted in `UNITS_PER_CELL` parts: `max_lifespan` times
/// one minus the fraction's distance to one half, rounded to the nearest
/// step, halves up.
pub open spec fn spawn_lifespan(max_lifespan: int, x_fraction: int) -> int {
    let u = UNITS_PER_CELL as int;
    (max_lifespan * (2 * u - abs_int(2 * x_fraction - u)) + u) / (2 * u)
}

/// The particle spawned at `x_fraction` of the grid width on the source row,
/// rising at the configured speed.
pub open spec fn spawned_particle(
    o: SteamRendererOptions,
    x_fraction: int,
    left: bool,
    frames_between_flips: u32,
) -> SteamParticle {
    fresh_particle(
        (x_fraction * o.width) as i64,
        0,
        Vector2 { x: 0, y: o.rise_speed },
        left,
        frames_between_flips,
        spawn_lifespan(o.max_lifespan as int, x_fraction) as u32,
    )
}

/// Simulates steam particles and renders them into text frames.
pub struct SteamRenderer {
    pub options: SteamRendererOptions,
    current_highest_id: u32,
    particles: Vec<(u32, SteamParticle)>,
    /// Grid cells row by row, `width + offset` per row.
    frame_data: Vec<char>,
}

impl SteamRenderer {
    /// The live particles with their ids, in order of spawning.
    pub closed spec fn live(&self) -> Seq<(u32, SteamParticle)> {
        self.particles@
    }

    /// The settings the renderer runs with.
    pub closed spec fn config(&self) -> SteamRendererOptions {
        self.options
    }

    /// The id that the next spawned particle receives.
    pub closed spec fn next_id(&self) -> int {
        self.current_highest_id as int
    }

    /// Builds a renderer with no particles, or says why the settings are
    /// refused.
    pub fn new(options: SteamRendererOptions) -> (r: Result<Self, ConstructionError>)
        ensures
            match r {
                Ok(renderer) => {
                    &&& options_valid(options)
                    &&& renderer.wf()
                    &&& renderer.config() == options
                    &&& renderer.live() == Seq::<(u32, SteamParticle)>::empty()
                    &&& renderer.next_id() == 0
                },
                Err(e) => options_error(options) == Some(e),
            },
    {
        if options.width == 0 || options.height == 0 {
            return Err(ConstructionError::EmptyGrid);
        }
        if options.width > GRID_LIMIT || options.offset > GRID_LIMIT {
            return Err(ConstructionError::GridTooLarge);
        }
        let cols = options.width + options.offset;
        let cells = match options.height.checked_mul(cols) {
            Some(cells) => cells,
            None => {
                return Err(ConstructionError::GridTooLarge);
            },
        };
        if !(0 <= options.max_speed && options.max_speed <= SPEED_LIMIT && -SPEED_LIMIT <= options.wind
            && options.wind <= SPEED_LIMIT && -SPEED_LIMIT <= options.rise_speed && options.rise_speed
            <= SPEED_LIMIT) {
            return Err(ConstructionError::SpeedOutOfRange);
        }
        let mut frame_data: Vec<char> = Vec::new();
        let mut i: usize = 0;
        while i < cells
            invariant
                i <= cells,
                frame_data@.len() == i,
            decreases cells - i,
        {
            frame_data.push(' ');
            i = i + 1;
        }
        Ok(SteamRenderer { options, current_highest_id: 0, particles: Vec::new(), frame_data })
    }

    /// The live particles with their ids, in order of spawning.
    pub fn live_particles(&self) -> (r: Vec<(u32, SteamParticle)>)
        ensures
            r@ == self.live(),
    {
        let mut r: Vec<(u32, SteamParticle)> = Vec::new();
        let mut i: usize = 0;
        while i < self.particles.len()
            invariant
                i <= self.particles@.len(),
                r@ == self.particles@.take(i as int),
            decreases self.particles@.len() - i,
        {
            r.push(self.particles[i]);
            i = i + 1;
            proof {
                assert(r@ =~= self.particles@.take(i as int));
            }
        }
        proof {
            assert(self.particles@.take(i as int) =~= self.particles@);
        }
        r
    }

    /// Whether another particle can still receive a fresh id.
    pub fn can_spawn(&self) -> (r: bool)
        ensures
            r == (self.next_id() < u32::MAX),
    {
        self.current_highest_id < u32::MAX
    }

    /// Adds a particle with a fresh id, one above the last id issued, and
    /// returns that id.
    pub fn spawn(
        &mut self,
        x: i64,
        y: i64,
        velocity: Vector2<i64>,
        left: bool,
        frames_between_flips: u32,
        lifespan: u32,
    ) -> (id: u32)
        requires
            old(self).wf(),
            old(self).next_id() < u32::MAX,
            abs_int(x as int) <= SPAWN_LIMIT,
            abs_int(y as int) <= SPAWN_LIMIT,
            abs_int(velocity.x as int) <= SPEED_LIMIT,
            abs_int(velocity.y as int) <= SPEED_LIMIT,
            frames_between_flips < u32::MAX,
        ensures
            final(self).wf(),
            id == old(self).next_id(),
            final(self).next_id() == id + 1,
            final(self).config() == old(self).config(),
            store_call((old(self).live(), old(self).next_id()), (final(self).live(), final(self).next_id()), old(self).config()),
            final(self).live() == old(self).live().push(
                (id, fresh_particle(x, y, velocity, left, frames_between_flips, lifespan)),
            ),
            forall|i: int| 0 <= i < old(self).live().len() ==> #[trigger] old(self).live()[i].0 < id,
    {
        let id = self.current_highest_id;
        self.current_highest_id = self.current_highest_id + 1;
        let particle = SteamParticle {
            position: Vector2::new(x, y),
            velocity,
            left,
            frames_between_flips,
            lifespan,
            frames: 0,
            frames_since_last_flip: 0,
        };
        self.particles.push((id, particle));
        proof {
            let s0 = (old(self).particles@, old(self).current_highest_id as int);
            assert(self.particles@ == s0.0.push((s0.1 as u32, particle)));
        }
        id
    }

    /// Removes the particle with the id `id`; returns whether there was one.
    /// Without such a particle the store is left as it is.
    pub fn remove(&mut self, id: u32) -> (removed: bool)
        requires
            old(self).wf(),
        ensures
            final(self).wf(),
            removed == has_id(old(self).live(), id),
            !has_id(final(self).live(), id),
            removed ==> exists|j: int|
                0 <= j < old(self).live().len() && old(self).live()[j].0 == id
                    && #[trigger] final(self).live() == old(self).live().remove(j),
            !removed ==> final(self).live() == old(self).live(),
            final(self).next_id() == old(self).next_id(),
            final(self).config() == old(self).config(),
            store_call((old(self).live(), old(self).next_id()), (final(self).live(), final(self).next_id()), old(self).config()),
    {
        let ghost ps = self.particles@;
        let mut j: usize = 0;
        while j < self.particles.len()
            invariant
                *self == *old(self),
                self.particles@ == ps,
                old(self).wf(),
                j <= ps.len(),
                forall|m: int| 0 <= m < j ==> ps[m].0 != id,
            decreases ps.len() - j,
        {
            if self.particles[j].0 == id {
                self.particles.remove(j);
                proof {
                    let rest = self.particles@;
                    assert forall|m: int| 0 <= m < rest.len() implies rest[m].0 != id by {
                        if m >= j {
                            assert(rest[m] == ps[m + 1]);
                            assert(ps[j as int].0 < ps[m + 1].0);
                        }
                    }
                    assert forall|a: int, b: int| 0 <= a < b < rest.len() implies rest[a].0 < rest[b].0 by {
                        let a0 = if a < j { a } else { a + 1 };
                        let b0 = if b < j { b } else { b + 1 };
                        assert(rest[a] == ps[a0] && rest[b] == ps[b0]);
                    }
                    assert forall|m: int| 0 <= m < rest.len() implies particle_bounded(#[trigger] rest[m].1) by {
                        let m0 = if m < j { m } else { m + 1 };
                        assert(rest[m] == ps[m0]);
                    }
                    assert forall|m: int| 0 <= m < rest.len() implies rest[m].0 < self.current_highest_id by {
                        let m0 = if m < j { m } else { m + 1 };
                        assert(rest[m] == ps[m0]);
                    }
                }
                return true;
            }
            j = j + 1;
        }
        false
    }

    /// Spawns a particle on the source row at `x_fraction` of the grid width
    /// (counted in `UNITS_PER_CELL` parts), rising at the configured speed,
    /// with a lifespan that is longest at the centre of the grid.
    pub fn spawn_particle_at(&mut self, x_fraction: u32, left: bool, frames_between_flips: u32) -> (id: u32)
        requires
            old(self).wf(),
            old(self).next_id() < u32::MAX,
            x_fraction <= UNITS_PER_CELL,
            frames_between_flips < u32::MAX,
        ensures
            final(self).wf(),
            id == old(self).next_id(),
            final(self).next_id() == id + 1,
            final(self).config() == old(self).config(),
            store_call((old(self).live(), old(self).next_id()), (final(self).live(), final(self).next_id()), old(self).config()),
            final(self).live() == old(self).live().push(
                (id, spawned_particle(old(self).config(), x_fraction as int, left, frames_between_flips)),
            ),
    {
        let ghost o = self.options;
        let f = x_fraction as u64;
        let u = UNITS_PER_CELL as u64;
        let max_lifespan = self.options.max_lifespan as u64;
        let distance: u64 = if 2 * f >= u {
            2 * f - u
        } else {
            u - 2 * f
        };
        assert(max_lifespan * (2 * u - distance) <= max_lifespan * (2 * u)) by (nonlinear_arith)
            requires
                distance <= u,
        ;
        assert(max_lifespan * (2 * u) <= 0xffff_ffff * 2000) by (nonlinear_arith)
            requires
                max_lifespan <= 0xffff_ffff,
                u == 1000,
        ;
        let scaled = max_lifespan * (2 * u - distance) + u;
        let lifespan = scaled / (2 * u);
        assert(lifespan <= max_lifespan) by (nonlinear_arith)
            requires
                lifespan as int == scaled as int / 2000,
                scaled <= max_lifespan * (2 * u) + u,
                u == 1000,
        ;
        assert(x_fraction * o.width <= 1000 * GRID_LIMIT) by (nonlinear_arith)
            requires
                x_fraction <= 1000,
                o.width <= GRID_LIMIT,
        ;
        let x = x_fraction as i64 * self.options.width as i64;
        let id = self.spawn(x, 0, Vector2::new(0, self.options.rise_speed), left, frames_between_flips, lifespan as u32);
        id
    }

    /// Spawns a particle at a random position across the grid width, with a
    /// random orientation and a random flip interval below
    /// `FLIP_INTERVAL_CHOICES`.
    pub fn spawn_particle(&mut self)
        requires
            old(self).wf(),
            old(self).next_id() < u32::MAX,
        ensures
            final(self).wf(),
            final(self).next_id() == old(self).next_id() + 1,
            final(self).config() == old(self).config(),
            store_call((old(self).live(), old(self).next_id()), (final(self).live(), final(self).next_id()), old(self).config()),
            exists|x_fraction: int, left: bool, frames_between_flips: u32|
                0 <= x_fraction < UNITS_PER_CELL && frames_between_flips < FLIP_INTERVAL_CHOICES
                    && #[trigger] final(self).live() == old(self).live().push(
                    (
                        old(self).next_id() as u32,
                        spawned_particle(old(self).config(), x_fraction, left, frames_between_flips),
                    ),
                ),
    {
        let x_fraction = random_below(UNITS_PER_CELL as u32);
        let left = random_bool();
        let frames_between_flips = random_below(FLIP_INTERVAL_CHOICES);
        self.spawn_particle_at(x_fraction, left, frames_between_flips);
    }

    pub closed spec fn wf(&self) -> bool {
        &&& options_valid(self.options)
        &&& ids_ordered(self.particles@, self.current_highest_id as int)
        &&& forall|i: int| 0 <= i < self.particles@.len() ==> particle_bounded(#[trigger] self.particles@[i].1)
        &&& self.frame_data@.len() == self.options.height * columns(self.options)
    }
}

/// Id uniqueness: no two live particles share an id, and every live id lies
/// below the next id to be issued. Only `spawn` changes that next id, raising
/// it by one, so an id once issued is never issued again.
pub proof fn lemma_ids_unique(r: &SteamRenderer)
    requires
        r.wf(),
    ensures
        forall|i: int, j: int| 0 <= i < j < r.live().len() ==> r.live()[i].0 != r.live()[j].0,
        forall|i: int| 0 <= i < r.live().len() ==> r.live()[i].0 < r.next_id(),
{
}

/// A well-formed renderer runs with settings that `new` accepts, and each of
/// its live particles stays within the bounds of `particle_bounded`.
pub proof fn lemma_wf_bounds(r: &SteamRenderer)
    requires
        r.wf(),
    ensures
        options_valid(r.config()),
        forall|i: int| 0 <= i < r.live().len() ==> particle_bounded(#[trigger] r.live()[i].1),
{
}

/// A live particle's age never exceeds its lifespan.
pub proof fn lemma_live_within_lifespan(r: &SteamRenderer)
    requires
        r.wf(),
    ensures
        forall|i: int| 0 <= i < r.live().len() ==> #[trigger] r.live()[i].1.frames <= r.live()[i].1.lifespan,
{
}

impl Renderer for SteamRenderer {
    open spec fn ready(&self) -> bool {
        self.wf()
    }

    /// Draws the current particles into a frame: `height` lines of
    /// `width + offset` characters, highest row first.
    fn generate_frame(&mut self) -> (frame: String)
        ensures
            final(self).live() == old(self).live(),
            final(self).next_id() == old(self).next_id(),
            final(self).config() == old(self).config(),
            store_call((old(self).live(), old(self).next_id()), (final(self).live(), final(self).next_id()), old(self).config()),
            frame@ == frame_text(old(self).live(), old(self).config()),
    {
        let ghost ps = self.particles@;
        let ghost o = self.options;
        let cols = self.options.width + self.options.offset;
        let height = self.options.height;
        let n = self.frame_data.len();

        // Clear previous frame data
        let mut i: usize = 0;
        while i < n
            invariant
                self.particles@ == ps,
                self.options == o,
                self.current_highest_id == old(self).current_highest_id,
                i <= n == self.frame_data@.len(),
                forall|k: int| 0 <= k < i ==> self.frame_data@[k] == ' ',
            decreases n - i,
        {
            self.frame_data.set(i, ' ');
            i = i + 1;
        }
        proof {
            assert(ps.take(0) =~= Seq::<(u32, SteamParticle)>::empty());
        }

        // Draw each visible particle over what earlier ones drew
        let mut i: usize = 0;
        while i < self.particles.len()
            invariant
                self.particles@ == ps,
                self.options == o,
                self.current_highest_id == old(self).current_highest_id,
                options_valid(o),
                cols == columns(o),
                height == o.height,
                n == self.frame_data@.len() == height * cols,
                i <= ps.len(),
                forall|k: int|
                    0 <= k < n ==> #[trigger] self.frame_data@[k] == cell_at(ps.take(i as int), o, k / cols as int, k % cols as int),
            decreases ps.len() - i,
        {
            let p = self.particles[i].1;
            let cx = cell_index(p.position.x);
            let row = cell_index(p.position.y);
            proof {
                assert(ps.take(i + 1).drop_last() =~= ps.take(i as int));
                assert(ps.take(i + 1).last() == ps[i as int]);
            }
            if 0 <= cx && cx < self.options.width as i64 && 0 <= row && (row as u64) < (height as u64) {
                let col = cx as usize + self.options.offset;
                let ghost (r, c) = (row as int, col as int);
                assert(r * cols + c < n) by (nonlinear_arith)
                    requires 0 <= r < height, 0 <= c < cols, n == height * cols;
                let idx = row as usize * cols + col;
                let ghost before = self.frame_data@;
                self.frame_data.set(idx, p.to_ascii());
                proof {
                    assert(visible(p, o) && row_of(p) == r && column_of(p, o) == c);
                    vstd::arithmetic::div_mod::lemma_fundamental_div_mod_converse(idx as int, cols as int, r, c);
                    assert forall|k: int| 0 <= k < n implies #[trigger] self.frame_data@[k] == cell_at(ps.take(i + 1), o, k / cols as int, k % cols as int) by {
                        if k != idx {
                            vstd::arithmetic::div_mod::lemma_fundamental_div_mod(k, cols as int);
                            let w = cols as int;
                            assert(w * (k / w) + k % w == k);
                            if k / w == r && k % w == c {
                                assert(cols * r + c == r * cols + c) by (nonlinear_arith);
                            }
                            assert(self.frame_data@[k] == before[k]);
                        }
                    }
                }
            } else {
                proof {
                    assert(!visible(p, o));
                }
            }
            i = i + 1;
        }
        proof {
            assert(ps.take(ps.len() as int) =~= ps);
        }

        // Emit the rows from the highest down, each closed by a newline
        let mut frame_string = String::new();
        let mut line: usize = 0;
        while line < height
            invariant
                self.particles@ == ps,
                self.options == o,
                self.current_highest_id == old(self).current_highest_id,
                cols == columns(o),
                height == o.height,
                n == self.frame_data@.len() == height * cols,
                line <= height,
                forall|k: int| 0 <= k < n ==> #[trigger] self.frame_data@[k] == cell_at(ps, o, k / cols as int, k % cols as int),
                frame_string@ =~= Seq::new((line * (cols + 1)) as nat, |k: int| frame_char(ps, o, k)),
            decreases height - line,
        {
            let row = height - 1 - line;
            let mut c: usize = 0;
            while c < cols
                invariant
                    self.particles@ == ps,
                    self.options == o,
                    self.current_highest_id == old(self).current_highest_id,
                    cols == columns(o),
                    height == o.height,
                    n == self.frame_data@.len() == height * cols,
                    line < height,
                    row == height - 1 - line,
                    c <= cols,
                    forall|k: int| 0 <= k < n ==> #[trigger] self.frame_data@[k] == cell_at(ps, o, k / cols as int, k % cols as int),
                    frame_string@ =~= Seq::new((line * (cols + 1) + c) as nat, |k: int| frame_char(ps, o, k)),
                decreases cols - c,
            {
                let ghost (r, cc) = (row as int, c as int);
                assert(r * cols + cc < n) by (nonlinear_arith)
                    requires 0 <= r < height, 0 <= cc < cols, n == height * cols;
                let ch = self.frame_data[row * cols + c];
                proof {
                    let k = line * (cols + 1) + c;
                    vstd::arithmetic::div_mod::lemma_fundamental_div_mod_converse(k, cols + 1, line as int, c as int);
                    vstd::arithmetic::div_mod::lemma_fundamental_div_mod_converse(r * cols + cc, cols as int, r, cc);
                }
                frame_string.push(ch);
                c = c + 1;
            }
            proof {
                let k = line * (cols + 1) + cols;
                vstd::arithmetic::div_mod::lemma_fundamental_div_mod_converse(k, cols + 1, line as int, cols as int);
                assert((line + 1) * (cols + 1) == line * (cols + 1) + cols + 1) by (nonlinear_arith);
            }
            frame_string.push('\n');
            line = line + 1;
        }
        proof {
            assert(frame_string@ =~= frame_text(ps, o));
        }
        frame_string
    }

    /// Advances every particle by one step and removes those that reach
    /// their lifespan on it.
    fn update_simulation(&mut self)
        ensures
            final(self).live() == step_all(old(self).live(), old(self).config()),
            final(self).next_id() == old(self).next_id(),
            final(self).config() == old(self).config(),
            store_call((old(self).live(), old(self).next_id()), (final(self).live(), final(self).next_id()), old(self).config()),
    {
        let ghost ps = self.particles@;
        let ghost o = self.options;
        let wind = self.options.wind;
        let max_speed = self.options.max_speed;
        let mut kept: Vec<(u32, SteamParticle)> = Vec::new();
        let mut i: usize = 0;
        while i < self.particles.len()
            invariant
                self.particles@ == ps,
                self.options == o,
                old(self).wf(),
                *old(self) == *self,
                wind == o.wind,
                max_speed == o.max_speed,
                i <= ps.len(),
                kept@ == step_all(ps.take(i as int), o),
                forall|j: int| 0 <= j < kept@.len() ==> particle_bounded(#[trigger] kept@[j].1),
            decreases ps.len() - i,
        {
            let (id, mut p) = self.particles[i];
            proof {
                assert(particle_bounded(ps[i as int].1));
                assert(ps.take(i + 1).drop_last() =~= ps.take(i as int));
                assert(ps.take(i + 1).last() == ps[i as int]);
            }
            let vx = p.velocity.x + wind;
            p.velocity.x = if vx < -max_speed {
                -max_speed
            } else if vx > max_speed {
                max_speed
            } else {
                vx
            };
            p.position.x = p.position.x + p.velocity.x;
            p.position.y = p.position.y + p.velocity.y;
            proof {
                assert(p == moved(ps[i as int].1, o));
            }
            let delete_particle = p.update();
            if !delete_particle {
                kept.push((id, p));
            }
            i = i + 1;
        }
        proof {
            assert(ps.take(ps.len() as int) =~= ps);
            lemma_step_ordered(ps, o, self.current_highest_id as int);
        }
        self.particles = kept;
    }
}

} // verus!
