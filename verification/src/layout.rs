use vstd::prelude::*;

verus! {

/// The number of fluid particles spawned at start-up.
pub const NUMBER_OF_PARTICLES: u32 = 500;

/// The number of particles in one row of the start-up block.
pub const ROW_SIZE: u32 = 25;

/// The radius of a particle, in world units.
pub const PARTICLE_SIZE: u32 = 5;

/// A start-up position in world units; every coordinate is a whole number.
#[derive(Clone, Copy, Debug, PartialEq, Eq, Structural)]
pub struct SpawnPosition {
    pub x: i64,
    pub y: i64,
    pub z: i64,
}

impl View for SpawnPosition {
    type V = (int, int, int);

    open spec fn view(&self) -> (int, int, int) {
        (self.x as int, self.y as int, self.z as int)
    }
}

/// Where particle `n` starts: particles fill rows of `ROW_SIZE`, one
/// diameter apart, in a block centred on the origin, drawn in front of the
/// background at depth one.
pub open spec fn spec_particle_position(n: int) -> (int, int, int) {
    (
        (n % ROW_SIZE as int) * PARTICLE_SIZE * 2 - ROW_SIZE * PARTICLE_SIZE,
        (n / ROW_SIZE as int) * PARTICLE_SIZE * 2 - (NUMBER_OF_PARTICLES / ROW_SIZE) * PARTICLE_SIZE,
        1,
    )
}

/// The start-up position of particle number `particle_number`, as
/// `spec_particle_position` gives it.
pub fn find_particle_position_in_grid(particle_number: u32) -> (p: SpawnPosition)
    ensures
        p@ == spec_particle_position(particle_number as int),
{
    let column = (particle_number % ROW_SIZE) as i64;
    let row = (particle_number / ROW_SIZE) as i64;
    let size = PARTICLE_SIZE as i64;
    SpawnPosition {
        x: column * size * 2 - (ROW_SIZE as i64) * size,
        y: row * size * 2 - ((NUMBER_OF_PARTICLES / ROW_SIZE) as i64) * size,
        z: 1,
    }
}

/// No two particles start at the same place.
pub proof fn lemma_spawn_positions_distinct(n: int, m: int)
    requires
        0 <= n,
        0 <= m,
        n != m,
    ensures
        spec_particle_position(n) != spec_particle_position(m),
{
}

/// Every particle of the start-up set starts inside the block from
/// (-125, -100) to (115, 90), on the lattice of one particle diameter.
pub proof fn lemma_spawn_block(n: int)
    requires
        0 <= n < NUMBER_OF_PARTICLES,
    ensures
        -125 <= spec_particle_position(n).0 <= 115,
        -100 <= spec_particle_position(n).1 <= 90,
        (spec_particle_position(n).0 + 125) % 10 == 0,
        (spec_particle_position(n).1 + 100) % 10 == 0,
{
}

} // verus!
