use crate::config::{
    EVAPORATION_RATE_FAST, EVAPORATION_RATE_SLOW, LATTICE_HEIGHT, MAX_PHEROMONES, MIN_PHEROMONES,
    PHEROMONES_INTENSITY, WIDTH,
};
use crate::functions::in_lattice;
use vstd::prelude::*;

verus! {

/// What is left of a pheromone level after one tick. A level above half the
/// maximum fades fast, a lower one slowly, and none falls under the minimum.
/// Levels are whole numbers and what is left is rounded down, so that a
/// level under 100 loses one whole unit.
pub open spec fn evaporated(level: nat) -> nat {
    if level > MAX_PHEROMONES / 2 {
        level * EVAPORATION_RATE_FAST as nat / 100
    } else if level > MIN_PHEROMONES {
        level * EVAPORATION_RATE_SLOW as nat / 100
    } else {
        MIN_PHEROMONES as nat
    }
}

/// A pheromone level after `amount` is added to it: the sum, or the maximum
/// where the sum would pass it.
pub open spec fn raised(level: nat, amount: nat) -> nat {
    if level + amount > MAX_PHEROMONES {
        MAX_PHEROMONES as nat
    } else {
        level + amount
    }
}

/// The field before any pheromone has been laid: every entry of the lattice
/// is at the minimum.
pub open spec fn bare_field() -> Map<(int, int), nat> {
    Map::new(|c: (int, int)| in_lattice(c.0, c.1), |c: (int, int)| MIN_PHEROMONES as nat)
}

/// The field after one deposit. An entry outside the lattice takes nothing.
pub open spec fn deposited(field: Map<(int, int), nat>, x: int, y: int, amount: nat) -> Map<
    (int, int),
    nat,
> {
    if field.dom().contains((x, y)) {
        field.insert((x, y), raised(field[(x, y)], amount))
    } else {
        field
    }
}

/// The field after every entry has evaporated once.
pub open spec fn evaporated_field(field: Map<(int, int), nat>) -> Map<(int, int), nat> {
    field.map_values(|level: nat| evaporated(level))
}

/// Whether a field holds a level for each entry of the lattice and for
/// nothing else, and no level is under the minimum or over the maximum.
pub open spec fn in_bounds(field: Map<(int, int), nat>) -> bool {
    &&& forall|x: int, y: int| #[trigger] field.dom().contains((x, y)) <==> in_lattice(x, y)
    &&& forall|x: int, y: int|
        in_lattice(x, y) ==> MIN_PHEROMONES <= #[trigger] field[(x, y)] <= MAX_PHEROMONES
}

/// The field is within its bounds before any pheromone has been laid.
pub proof fn lemma_bare_field_in_bounds()
    ensures
        in_bounds(bare_field()),
{
}

/// A deposit leaves the field within its bounds, whatever the amount.
pub proof fn lemma_deposit_in_bounds(field: Map<(int, int), nat>, x: int, y: int, amount: nat)
    requires
        in_bounds(field),
    ensures
        in_bounds(deposited(field, x, y, amount)),
{
    let after = deposited(field, x, y, amount);
    assert forall|i: int, j: int| in_lattice(i, j) implies MIN_PHEROMONES <= #[trigger] after[(
        i,
        j,
    )] <= MAX_PHEROMONES by {
        assert(MIN_PHEROMONES <= field[(i, j)] <= MAX_PHEROMONES);
    }
}

/// Evaporation leaves the field within its bounds.
pub proof fn lemma_evaporation_in_bounds(field: Map<(int, int), nat>)
    requires
        in_bounds(field),
    ensures
        in_bounds(evaporated_field(field)),
{
    let after = evaporated_field(field);
    assert forall|i: int, j: int| in_lattice(i, j) implies MIN_PHEROMONES <= #[trigger] after[(
        i,
        j,
    )] <= MAX_PHEROMONES by {
        assert(MIN_PHEROMONES <= field[(i, j)] <= MAX_PHEROMONES);
    }
}

/// What each link of a trail of `links` links receives when an ant brings
/// food home: the intensity divided by the number of links, rounded down. A
/// trail of more links than the intensity has units receives nothing.
pub open spec fn link_share(links: nat) -> nat {
    if links == 0 {
        0
    } else {
        PHEROMONES_INTENSITY as nat / links
    }
}

/// The shares of a trail add up to the whole intensity where the number of
/// links divides it.
pub proof fn lemma_shares_add_up(links: nat)
    requires
        links > 0,
        PHEROMONES_INTENSITY as nat % links == 0,
    ensures
        links * link_share(links) == PHEROMONES_INTENSITY,
{
    vstd::arithmetic::div_mod::lemma_fundamental_div_mod(PHEROMONES_INTENSITY as int, links as int);
}

/// The shares of a trail never add up to more than the whole intensity, and
/// fall short of it by less than one unit for each link.
pub proof fn lemma_shares_lose_a_remainder(links: nat)
    requires
        links > 0,
    ensures
        links * link_share(links) <= PHEROMONES_INTENSITY,
        PHEROMONES_INTENSITY < links * link_share(links) + links,
{
    vstd::arithmetic::div_mod::lemma_fundamental_div_mod(PHEROMONES_INTENSITY as int, links as int);
    vstd::arithmetic::div_mod::lemma_mod_bound(PHEROMONES_INTENSITY as int, links as int);
}

/// The pheromone level of every link of the grid.
pub struct PheromoneField {
    levels: Vec<u32>,
}

impl View for PheromoneField {
    type V = Map<(int, int), nat>;

    /// The level of each lattice entry.
    closed spec fn view(&self) -> Map<(int, int), nat> {
        Map::new(
            |c: (int, int)| in_lattice(c.0, c.1),
            |c: (int, int)| self.levels@[c.0 * LATTICE_HEIGHT + c.1] as nat,
        )
    }
}

impl PheromoneField {
    /// There is one level for each lattice entry, and each lies between the
    /// minimum and the maximum.
    pub closed spec fn wf(&self) -> bool {
        &&& self.levels@.len() == WIDTH * LATTICE_HEIGHT
        &&& forall|i: int|
            0 <= i < self.levels@.len() ==> MIN_PHEROMONES <= #[trigger] self.levels@[i]
                <= MAX_PHEROMONES
    }

    /// The levels of a field are within their bounds.
    pub proof fn lemma_levels_bounded(&self)
        requires
            self.wf(),
        ensures
            in_bounds(self@),
    {
        assert forall|x: int, y: int| in_lattice(x, y) implies MIN_PHEROMONES
            <= #[trigger] self@[(x, y)] <= MAX_PHEROMONES by {
            let i = x * LATTICE_HEIGHT + y;
            assert(0 <= i < self.levels@.len());
            assert(MIN_PHEROMONES <= self.levels@[i] <= MAX_PHEROMONES);
        }
    }

    /// A field with every level at the minimum.
    pub fn new() -> (field: PheromoneField)
        ensures
            field.wf(),
            field@ == bare_field(),
    {
        let field = PheromoneField { levels: vec![MIN_PHEROMONES; WIDTH * LATTICE_HEIGHT] };
        assert(field@ =~= bare_field());
        field
    }

    /// The level of the entry `(x, y)`, if the lattice has such an entry.
    pub fn read(&self, x: i32, y: i32) -> (level: Option<u32>)
        requires
            self.wf(),
        ensures
            level is Some <==> in_lattice(x as int, y as int),
            level matches Some(l) ==> l == self@[(x as int, y as int)] && MIN_PHEROMONES <= l
                <= MAX_PHEROMONES,
    {
        if x < 0 || y < 0 || x >= WIDTH as i32 || y >= LATTICE_HEIGHT as i32 {
            return None;
        }
        Some(self.levels[x as usize * LATTICE_HEIGHT + y as usize])
    }

    /// Adds `amount` to the entry `(x, y)`, stopping at the maximum.
    pub fn deposit(&mut self, x: i32, y: i32, amount: u32)
        requires
            old(self).wf(),
        ensures
            final(self).wf(),
            final(self)@ == deposited(old(self)@, x as int, y as int, amount as nat),
    {
        if x < 0 || y < 0 || x >= WIDTH as i32 || y >= LATTICE_HEIGHT as i32 {
            return;
        }
        let i = x as usize * LATTICE_HEIGHT + y as usize;
        let level = self.levels[i];
        let raised_level = if amount > MAX_PHEROMONES - level {
            MAX_PHEROMONES
        } else {
            level + amount
        };
        self.levels[i] = raised_level;
        proof {
            assert(final(self)@ =~= deposited(old(self)@, x as int, y as int, amount as nat));
        }
    }

    /// Lets every entry evaporate once.
    pub fn evaporate_all(&mut self)
        requires
            old(self).wf(),
        ensures
            final(self).wf(),
            final(self)@ == evaporated_field(old(self)@),
    {
        let mut i: usize = 0;
        while i < self.levels.len()
            invariant
                i <= self.levels@.len(),
                self.levels@.len() == old(self).levels@.len(),
                old(self).wf(),
                forall|k: int|
                    0 <= k < i ==> #[trigger] self.levels@[k] == evaporated(
                        old(self).levels@[k] as nat,
                    ),
                forall|k: int|
                    i <= k < self.levels@.len() ==> #[trigger] self.levels@[k] == old(
                        self,
                    ).levels@[k],
            decreases self.levels@.len() - i,
        {
            let level = self.levels[i];
            let faded = if level > MAX_PHEROMONES / 2 {
                level * EVAPORATION_RATE_FAST / 100
            } else if level > MIN_PHEROMONES {
                level * EVAPORATION_RATE_SLOW / 100
            } else {
                MIN_PHEROMONES
            };
            self.levels[i] = faded;
            i += 1;
        }
        proof {
            assert(final(self)@ =~= evaporated_field(old(self)@));
        }
    }
}

} // verus!
