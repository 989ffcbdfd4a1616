//! Events and the flat views from which they are built.
use vstd::prelude::*;

verus! {

/// The bit pattern of an IEEE-754 double.
pub type Bits = u64;

/// A four-momentum `[E, px, py, pz]`, each component as the bit pattern of a double.
pub type FourMomentum = [Bits; 4];

/// One outgoing particle: its type and its four-momentum.
#[derive(Clone, Copy, Debug, PartialEq, Eq)]
pub struct Particle {
    /// Particle id, usually following the PDG numbering scheme
    pub pid: i32,
    pub momentum: FourMomentum,
}

/// A set of particles of the same type.
#[derive(Clone, Debug)]
pub struct TypeSetView {
    /// Particle id shared by all momenta of the set
    pub pid: i32,
    pub momenta: Vec<FourMomentum>,
}

/// A flat description of an event, as a foreign caller hands it over.
#[derive(Clone, Debug)]
pub struct EventView {
    /// Event id; informational only
    pub id: usize,
    pub weights: Vec<Bits>,
    pub type_sets: Vec<TypeSetView>,
}

/// A weighted event: its weights and its outgoing particles.
#[derive(Clone, Debug)]
pub struct Event {
    pub weights: Vec<Bits>,
    pub outgoing: Vec<Particle>,
}

/// The particles of one type set, in the order of its momenta.
pub open spec fn set_particles(set: TypeSetView) -> Seq<Particle> {
    set.momenta@.map_values(|p: FourMomentum| Particle { pid: set.pid, momentum: p })
}

/// The particles of all type sets, set after set.
pub open spec fn particles_of(sets: Seq<TypeSetView>) -> Seq<Particle>
    decreases sets.len(),
{
    if sets.len() == 0 {
        Seq::empty()
    } else {
        particles_of(sets.drop_last()) + set_particles(sets.last())
    }
}

proof fn lemma_particles_of_push(sets: Seq<TypeSetView>, i: int)
    requires
        0 <= i < sets.len(),
    ensures
        particles_of(sets.take(i + 1)) == particles_of(sets.take(i)) + set_particles(sets[i]),
{
    assert(sets.take(i + 1).drop_last() =~= sets.take(i));
}

/// A fresh vector holding the entries of `v`, in order.
pub fn copy_bits(v: &[Bits]) -> (r: Vec<Bits>)
    ensures
        r@ == v@,
{
    let mut r: Vec<Bits> = Vec::new();
    let mut k: usize = 0;
    while k < v.len()
        invariant
            k <= v@.len(),
            r@ == v@.take(k as int),
        decreases v@.len() - k,
    {
        r.push(v[k]);
        k += 1;
        assert(r@ =~= v@.take(k as int));
    }
    assert(v@.take(k as int) =~= v@);
    r
}

impl Event {
    /// Builds the event that `view` describes.
    ///
    /// The weights keep their number and order. Each momentum of each type
    /// set becomes one particle of the set's type, in set order and, within
    /// a set, in momentum order. The id is not kept.
    pub fn from_view(view: &EventView) -> (e: Event)
        ensures
            e.weights@ == view.weights@,
            e.outgoing@ == particles_of(view.type_sets@),
    {
        let weights = copy_bits(view.weights.as_slice());

        let sets = &view.type_sets;
        let mut outgoing: Vec<Particle> = Vec::new();
        let mut s: usize = 0;
        while s < sets.len()
            invariant
                s <= sets@.len(),
                outgoing@ == particles_of(sets@.take(s as int)),
            decreases sets@.len() - s,
        {
            let set = &sets[s];
            let ghost before = outgoing@;
            let mut m: usize = 0;
            while m < set.momenta.len()
                invariant
                    m <= set.momenta@.len(),
                    outgoing@ == before + set_particles(*set).take(m as int),
                decreases set.momenta@.len() - m,
            {
                outgoing.push(Particle { pid: set.pid, momentum: set.momenta[m] });
                m += 1;
                assert(outgoing@ =~= before + set_particles(*set).take(m as int));
            }
            assert(set_particles(*set).take(m as int) =~= set_particles(*set));
            proof {
                lemma_particles_of_push(sets@, s as int);
            }
            s += 1;
        }
        assert(sets@.take(s as int) =~= sets@);
        Event { weights, outgoing }
    }
}

} // verus!
