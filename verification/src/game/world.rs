//! The galaxy: three nested levels of chunk maps (galactic, solar,
//! planetary), each keyed by a pair of coordinates.

use std::collections::HashSet;
use std::fmt::Debug;
use std::hash::Hash;

use hecs::Entity;
use vstd::prelude::*;
use vstd::laws_eq::obeys_concrete_eq;

use crate::collections::VecMap;

verus! {

/// The entity handle of the `hecs` world, carried through unchanged.
#[verifier::external_type_specification]
#[verifier::external_body]
pub struct ExEntity(Entity);

/// Installs the galaxy resource and its drawing; the installation itself
/// needs the window and runs in the application.
#[derive(Debug, Default)]
pub struct GalaxyPlugin;

/// A pair of chunk coordinates at one level.
pub type Coords = (u16, u16);

/// A full position: galactic, solar and planetary coordinates.
pub type GalaxyPos = ((u16, u16), (u16, u16), (u16, u16));

/// A map from coordinate pairs to chunks of the next level down.
#[derive(Debug)]
pub struct Scale<S, T> where S: Debug + Default + Eq + Hash, T: Debug + Default {
    chunks: VecMap<(S, S), T>,
}

impl<S, T> View for Scale<S, T> where S: Debug + Default + Eq + Hash, T: Debug + Default {
    type V = Map<(S, S), T>;

    closed spec fn view(&self) -> Map<(S, S), T> {
        self.chunks@
    }
}

impl<S, T> Default for Scale<S, T> where S: Debug + Default + Eq + Hash, T: Debug + Default {
    fn default() -> (r: Self)
        ensures
            r.wf(),
            r@ == Map::<(S, S), T>::empty(),
    {
        Scale { chunks: VecMap::new() }
    }
}

impl<S, T> Scale<S, T> where S: Debug + Default + Eq + Hash, T: Debug + Default {
    /// The invariant of the chunk map: no coordinates twice.
    pub closed spec fn wf(&self) -> bool {
        self.chunks.wf()
    }

    /// The chunk at `pos`, if there is one.
    pub fn get(&self, pos: (S, S)) -> (r: Option<&T>)
        requires
            self.wf(),
            obeys_concrete_eq::<S>(),
        ensures
            match r {
                Some(v) => self@.contains_key(pos) && *v == self@[pos],
                None => !self@.contains_key(pos),
            },
    {
        self.chunks.get(&pos)
    }

    /// A mutable borrow of the chunk at `pos`, if there is one; what is
    /// written through it becomes the chunk at `pos`.
    pub fn get_mut(&mut self, pos: (S, S)) -> (r: Option<&mut T>)
        requires
            old(self).wf(),
            obeys_concrete_eq::<S>(),
        ensures
            final(self).wf(),
            match r {
                Some(v) => {
                    &&& old(self)@.contains_key(pos)
                    &&& *v == old(self)@[pos]
                    &&& final(self)@ == old(self)@.insert(pos, *final(v))
                },
                None => {
                    &&& !old(self)@.contains_key(pos)
                    &&& final(self)@ == old(self)@
                },
            },
    {
        self.chunks.get_mut(&pos)
    }

    /// Places `chunk` at `pos`; the chunk that was there, if any, is handed
    /// back.
    pub fn insert(&mut self, pos: (S, S), chunk: T) -> (r: Option<T>)
        requires
            old(self).wf(),
            obeys_concrete_eq::<S>(),
        ensures
            final(self).wf(),
            final(self)@ == old(self)@.insert(pos, chunk),
            match r {
                Some(v) => old(self)@.contains_key(pos) && v == old(self)@[pos],
                None => !old(self)@.contains_key(pos),
            },
    {
        self.chunks.insert(pos, chunk)
    }
}

/// A planetary chunk: the entities in it.
#[derive(Debug)]
pub struct Space {
    entities: HashSet<Entity>,
}

impl Space {
    /// The entities of this chunk.
    pub closed spec fn entity_set(&self) -> Set<Entity> {
        self.entities@
    }
}

impl Default for Space {
    fn default() -> (r: Self)
        ensures
            r.entity_set() == Set::<Entity>::empty(),
    {
        Space { entities: HashSet::new() }
    }
}

/// The solar level: a map from solar coordinates to planetary maps.
pub type SolarScale = Scale<u16, Scale<u16, Space>>;

/// The galaxy: its seed and its three levels of chunks.
#[derive(Debug)]
pub struct Galaxy {
    seed: u32,
    // galactic -> solar -> planetary
    scale: Scale<u16, Scale<u16, Scale<u16, Space>>>,
}

/// Every level of `scale` keeps its own invariant.
pub open spec fn solar_wf(solar: Scale<u16, Scale<u16, Space>>) -> bool {
    &&& solar.wf()
    &&& forall|s: Coords| #[trigger] solar@.contains_key(s) ==> solar@[s].wf()
}

/// The galactic level: a map from galactic coordinates to solar maps.
pub type GalacticScale = Scale<u16, Scale<u16, Scale<u16, Space>>>;

/// Every space held under a galactic map, keyed by its full position.
pub open spec fn galaxy_spaces(top: GalacticScale) -> Map<GalaxyPos, Space> {
    Map::new(
        |p: GalaxyPos|
            top@.contains_key(p.0) && top@[p.0]@.contains_key(p.1) && top@[p.0]@[p.1]@.contains_key(
                p.2,
            ),
        |p: GalaxyPos| top@[p.0]@[p.1]@[p.2],
    )
}

/// Every chunk map at every level of `top` keeps its invariant.
pub open spec fn galactic_wf(top: GalacticScale) -> bool {
    &&& top.wf()
    &&& forall|g: Coords| #[trigger] top@.contains_key(g) ==> solar_wf(top@[g])
}

/// Replacing the solar map at `g` by one with the same chunks changes no
/// space of the galaxy.
pub proof fn lemma_spaces_same_solar(top: GalacticScale, top2: GalacticScale, g: Coords, solar2: SolarScale)
    requires
        galactic_wf(top),
        top2.wf(),
        solar_wf(solar2),
        top@.contains_key(g),
        top2@ == top@.insert(g, solar2),
        solar2@ == top@[g]@,
    ensures
        galactic_wf(top2),
        galaxy_spaces(top2) == galaxy_spaces(top),
{
    assert(galaxy_spaces(top2) =~= galaxy_spaces(top));
}

/// Replacing the planetary map at `(g, s)` by one with the same chunks
/// changes no space of the galaxy.
pub proof fn lemma_spaces_same_planetary(
    top: GalacticScale,
    top2: GalacticScale,
    solar2: SolarScale,
    g: Coords,
    s: Coords,
    planetary2: Scale<u16, Space>,
)
    requires
        galactic_wf(top),
        top2.wf(),
        solar2.wf(),
        planetary2.wf(),
        top@.contains_key(g),
        top@[g]@.contains_key(s),
        top2@ == top@.insert(g, solar2),
        solar2@ == top@[g]@.insert(s, planetary2),
        planetary2@ == top@[g]@[s]@,
    ensures
        galactic_wf(top2),
        galaxy_spaces(top2) == galaxy_spaces(top),
{
    assert(galaxy_spaces(top2) =~= galaxy_spaces(top));
}

/// Storing `v` at `pos`, creating the solar and planetary maps on the way
/// where they are missing, changes the galaxy's spaces at `pos` alone.
pub proof fn lemma_spaces_put(
    top: GalacticScale,
    top2: GalacticScale,
    solar2: SolarScale,
    planetary2: Scale<u16, Space>,
    pos: GalaxyPos,
    v: Space,
)
    requires
        galactic_wf(top),
        top2.wf(),
        solar2.wf(),
        planetary2.wf(),
        top2@ == top@.insert(pos.0, solar2),
        solar2@ == (if top@.contains_key(pos.0) {
            top@[pos.0]@
        } else {
            Map::empty()
        }).insert(pos.1, planetary2),
        planetary2@ == (if top@.contains_key(pos.0) && top@[pos.0]@.contains_key(pos.1) {
            top@[pos.0]@[pos.1]@
        } else {
            Map::empty()
        }).insert(pos.2, v),
    ensures
        galactic_wf(top2),
        galaxy_spaces(top2) == galaxy_spaces(top).insert(pos, v),
{
    assert(galaxy_spaces(top2) =~= galaxy_spaces(top).insert(pos, v));
}

/// A space stored at a position is what a later lookup of that position
/// gives back, and every other position keeps its space.
pub proof fn law_get_space_after_insert(before: Galaxy, after: Galaxy, pos: GalaxyPos, space: Space)
    requires
        after@ == before@.insert(pos, space),
    ensures
        after@.contains_key(pos),
        after@[pos] == space,
        forall|p: GalaxyPos| p != pos ==> (#[trigger] after@.contains_key(p) == before@.contains_key(p)),
        forall|p: GalaxyPos| p != pos && before@.contains_key(p) ==> #[trigger] after@[p] == before@[p],
{
}

impl View for Galaxy {
    type V = Map<GalaxyPos, Space>;

    /// Every space of the galaxy, keyed by its full position.
    closed spec fn view(&self) -> Map<GalaxyPos, Space> {
        galaxy_spaces(self.scale)
    }
}

impl Default for Galaxy {
    fn default() -> (r: Self)
        ensures
            r.wf(),
            r.seed() == 0,
            r@ == Map::<GalaxyPos, Space>::empty(),
    {
        Galaxy::new(0)
    }
}

impl Galaxy {
    /// The galaxy's invariant: every chunk map at every level keeps its own.
    pub closed spec fn wf(&self) -> bool {
        galactic_wf(self.scale)
    }

    /// The seed that the galaxy was made with.
    pub closed spec fn seed(&self) -> u32 {
        self.seed
    }

    /// An empty galaxy with the given seed.
    pub fn new(seed: u32) -> (r: Galaxy)
        ensures
            r.wf(),
            r.seed() == seed,
            r@ == Map::<GalaxyPos, Space>::empty(),
    {
        let r = Galaxy { seed, scale: Scale::default() };
        assert(r@ =~= Map::<GalaxyPos, Space>::empty());
        r
    }

    /// The space at the full position `pos`, if every level holds a chunk
    /// on the way down to it.
    pub fn get_space(&self, pos: GalaxyPos) -> (r: Option<&Space>)
        requires
            self.wf(),
        ensures
            match r {
                Some(s) => self@.contains_key(pos) && *s == self@[pos],
                None => !self@.contains_key(pos),
            },
    {
        let (gpos, spos, ppos) = pos;
        match self.scale.get(gpos) {
            None => None,
            Some(solar) => match solar.get(spos) {
                None => None,
                Some(planetary) => planetary.get(ppos),
            },
        }
    }

    /// A mutable borrow of the space at `pos`, if there is one; what is
    /// written through it becomes the space at `pos`, and nothing else in the
    /// galaxy changes.
    pub fn get_space_mut(&mut self, pos: GalaxyPos) -> (r: Option<&mut Space>)
        requires
            old(self).wf(),
        ensures
            final(self).wf(),
            final(self).seed() == old(self).seed(),
            match r {
                Some(s) => {
                    &&& old(self)@.contains_key(pos)
                    &&& *s == old(self)@[pos]
                    &&& final(self)@ == old(self)@.insert(pos, *final(s))
                },
                None => {
                    &&& !old(self)@.contains_key(pos)
                    &&& final(self)@ == old(self)@
                },
            },
    {
        let ghost top = self.scale;
        let ghost galaxy_ref = self;
        let (gpos, spos, ppos) = pos;
        match self.scale.get_mut(gpos) {
            None => None,
            Some(solar) => {
                let ghost solar_ref = solar;
                match solar.get_mut(spos) {
                    None => {
                        proof {
                            lemma_spaces_same_solar(top, final(galaxy_ref).scale, gpos, *final(solar_ref));
                        }
                        None
                    },
                    Some(planetary) => {
                        let ghost planetary_ref = planetary;
                        let r = planetary.get_mut(ppos);
                        let ghost r_ref = r;
                        proof {
                            match r_ref {
                                Some(v) => {
                                    lemma_spaces_put(
                                        top,
                                        final(galaxy_ref).scale,
                                        *final(solar_ref),
                                        *final(planetary_ref),
                                        pos,
                                        *final(v),
                                    );
                                },
                                None => {
                                    lemma_spaces_same_planetary(
                                        top,
                                        final(galaxy_ref).scale,
                                        *final(solar_ref),
                                        gpos,
                                        spos,
                                        *final(planetary_ref),
                                    );
                                },
                            }
                        }
                        r
                    },
                }
            },
        }
    }

    /// Stores `space` at the full position `pos`, creating the solar and
    /// planetary chunk maps on the way where they are missing; the space
    /// that was there, if any, is handed back.
    pub fn insert_space(&mut self, pos: GalaxyPos, space: Space) -> (r: Option<Space>)
        requires
            old(self).wf(),
        ensures
            final(self).wf(),
            final(self).seed() == old(self).seed(),
            final(self)@ == old(self)@.insert(pos, space),
            match r {
                Some(s) => old(self)@.contains_key(pos) && s == old(self)@[pos],
                None => !old(self)@.contains_key(pos),
            },
    {
        let ghost top = self.scale;
        let (gpos, spos, ppos) = pos;
        let mut solar: SolarScale = Scale::default();
        match self.scale.get_mut(gpos) {
            Some(slot) => std::mem::swap(slot, &mut solar),
            None => {},
        }
        let ghost taken_solar = solar@;
        let mut planetary: Scale<u16, Space> = Scale::default();
        match solar.get_mut(spos) {
            Some(slot) => std::mem::swap(slot, &mut planetary),
            None => {},
        }
        let r = planetary.insert(ppos, space);
        solar.insert(spos, planetary);
        self.scale.insert(gpos, solar);
        proof {
            assert(self.scale@ =~= top@.insert(gpos, solar));
            assert(solar@ =~= taken_solar.insert(spos, planetary));
            lemma_spaces_put(top, self.scale, solar, planetary, pos, space);
        }
        r
    }
}

} // verus!
