//! The resampler: an event buffer, weight access by position, and the
//! preparation of single-cell resampling.
use crate::distance::EuclWithScaledPt;
use crate::event::{copy_bits, Bits, Event, EventView, Particle};
use vstd::prelude::*;

verus! {

/// Nearest-neighbour search algorithm used to build a cell
#[derive(Clone, Copy, Debug, PartialEq, Eq, Structural)]
pub enum Search {
    /// Vantage point tree search
    Tree,
    /// Exhaustive search
    Naive,
}

/// What can go wrong when the buffer is addressed
#[derive(Clone, Copy, Debug, PartialEq, Eq, Structural)]
pub enum Error {
    /// No event stands at `index`: the buffer holds `len` events
    IndexOutOfRange { index: usize, len: usize },
    /// The seed event has no weight, so its cell has no central weight
    SeedWithoutWeights,
    /// Resampled weights do not match the buffer: another number of events,
    /// or another number of weights for some event
    ShapeMismatch,
}

/// Everything a nearest-neighbour backend needs to build and resample one cell
#[derive(Clone, Copy, Debug, PartialEq, Eq, Structural)]
pub struct CellRequest {
    /// Position of the seed event in the buffer
    pub seed: usize,
    /// Largest distance from the seed, as the bit pattern of a double
    pub max_cell_size: Bits,
    /// Backend the resampler was built with
    pub neighbour_search: Search,
}

/// The weights of each event, by position.
pub open spec fn weight_table(events: Seq<Event>) -> Seq<Seq<Bits>> {
    Seq::new(events.len(), |i: int| events[i].weights@)
}

/// The outgoing particles of each event, by position.
pub open spec fn particle_table(events: Seq<Event>) -> Seq<Seq<Particle>> {
    Seq::new(events.len(), |i: int| events[i].outgoing@)
}

/// `old` with its first entries replaced by those of `new`, as far as both reach.
pub open spec fn overwrite_prefix(old: Seq<Bits>, new: Seq<Bits>) -> Seq<Bits> {
    Seq::new(old.len(), |k: int| if k < new.len() { new[k] } else { old[k] })
}

/// `weights` has one entry per event, each as long as that event's weights.
pub open spec fn same_shape(events: Seq<Event>, weights: Seq<Vec<Bits>>) -> bool {
    &&& weights.len() == events.len()
    &&& forall|j: int|
        0 <= j < events.len() ==> #[trigger] weights[j]@.len() == events[j].weights@.len()
}

/// A single-cell resampler
#[derive(Debug)]
pub struct Resampler<D> {
    distance: D,
    neighbour_search: Search,
    events: Vec<Event>,
    last_retrieved_weights: Vec<Bits>,
}

impl<D> Resampler<D> {
    /// The buffered events, in insertion order.
    pub closed spec fn events_spec(&self) -> Seq<Event> {
        self.events@
    }

    /// The weights of the buffered events, by position.
    pub open spec fn weights_spec(&self) -> Seq<Seq<Bits>> {
        weight_table(self.events_spec())
    }

    /// The particles of the buffered events, by position.
    pub open spec fn particles_spec(&self) -> Seq<Seq<Particle>> {
        particle_table(self.events_spec())
    }

    pub closed spec fn distance_spec(&self) -> D {
        self.distance
    }

    pub closed spec fn neighbour_search_spec(&self) -> Search {
        self.neighbour_search
    }

    /// The weights most recently retrieved with `get_weights`; the single
    /// buffer that every returned view points into.
    pub closed spec fn last_weights_spec(&self) -> Seq<Bits> {
        self.last_retrieved_weights@
    }

    /// Reserve space for `cap` more events
    pub fn reserve(&mut self, cap: usize)
        ensures
            final(self).last_weights_spec() == old(self).last_weights_spec(),
            final(self).events_spec() == old(self).events_spec(),
            final(self).distance_spec() == old(self).distance_spec(),
            final(self).neighbour_search_spec() == old(self).neighbour_search_spec(),
    {
        self.events.reserve(cap);
    }

    /// Add an event at the end of the buffer
    pub fn push(&mut self, event: Event)
        ensures
            final(self).last_weights_spec() == old(self).last_weights_spec(),
            final(self).events_spec() == old(self).events_spec().push(event),
            final(self).distance_spec() == old(self).distance_spec(),
            final(self).neighbour_search_spec() == old(self).neighbour_search_spec(),
    {
        self.events.push(event);
    }

    /// Remove all events
    pub fn clear(&mut self)
        ensures
            final(self).last_weights_spec() == old(self).last_weights_spec(),
            final(self).events_spec() == Seq::<Event>::empty(),
            final(self).distance_spec() == old(self).distance_spec(),
            final(self).neighbour_search_spec() == old(self).neighbour_search_spec(),
    {
        self.events.clear();
    }

    /// Number of buffered events
    pub fn len(&self) -> (n: usize)
        ensures
            n == self.events_spec().len(),
    {
        self.events.len()
    }

    /// Whether the buffer holds no event
    pub fn is_empty(&self) -> (b: bool)
        ensures
            b == (self.events_spec().len() == 0),
    {
        self.events.len() == 0
    }

    /// The buffered events, in insertion order
    pub fn events(&self) -> (ev: &[Event])
        ensures
            ev@ == self.events_spec(),
    {
        self.events.as_slice()
    }

    /// The distance the resampler was built with
    pub fn distance(&self) -> (d: &D)
        ensures
            *d == self.distance_spec(),
    {
        &self.distance
    }

    /// Retrieve the number of weights of the event at `pos`
    pub fn get_num_weights(&self, pos: usize) -> (r: Result<usize, Error>)
        ensures
            pos < self.events_spec().len() ==> r == Ok::<usize, Error>(
                self.weights_spec()[pos as int].len() as usize,
            ),
            pos >= self.events_spec().len() ==> r == Err::<usize, Error>(
                Error::IndexOutOfRange { index: pos, len: self.events_spec().len() as usize },
            ),
    {
        if pos < self.events.len() {
            Ok(self.events[pos].weights.len())
        } else {
            Err(Error::IndexOutOfRange { index: pos, len: self.events.len() })
        }
    }

    /// Retrieve the weights of the event at `pos`
    ///
    /// The weights are copied into a buffer owned by the resampler, which
    /// the next retrieval overwrites.
    pub fn get_weights(&mut self, pos: usize) -> (r: Result<&[Bits], Error>)
        ensures
            r matches Ok(w) ==> final(self).last_weights_spec() == w@,
            r is Err ==> final(self).last_weights_spec() == old(self).last_weights_spec(),
            final(self).events_spec() == old(self).events_spec(),
            final(self).distance_spec() == old(self).distance_spec(),
            final(self).neighbour_search_spec() == old(self).neighbour_search_spec(),
            pos < old(self).events_spec().len() <==> r is Ok,
            r matches Ok(w) ==> w@ == old(self).weights_spec()[pos as int],
            r matches Err(e) ==> e == (Error::IndexOutOfRange {
                index: pos,
                len: old(self).events_spec().len() as usize,
            }),
    {
        if pos >= self.events.len() {
            return Err(Error::IndexOutOfRange { index: pos, len: self.events.len() });
        }
        let source = &self.events[pos].weights;
        let copy = copy_bits(source.as_slice());
        self.last_retrieved_weights = copy;
        Ok(self.last_retrieved_weights.as_slice())
    }

    /// Overwrite the weights of the event at `pos`
    ///
    /// The first `min(n, weights.len())` of the event's `n` weights are
    /// replaced; the number of weights of the event never changes and
    /// surplus entries of `weights` are ignored.
    pub fn set_weights(&mut self, pos: usize, weights: &[Bits]) -> (r: Result<(), Error>)
        ensures
            final(self).last_weights_spec() == old(self).last_weights_spec(),
            final(self).distance_spec() == old(self).distance_spec(),
            final(self).neighbour_search_spec() == old(self).neighbour_search_spec(),
            final(self).particles_spec() == old(self).particles_spec(),
            pos < old(self).events_spec().len() ==> r is Ok && final(self).weights_spec()
                == old(self).weights_spec().update(
                pos as int,
                overwrite_prefix(old(self).weights_spec()[pos as int], weights@),
            ),
            pos >= old(self).events_spec().len() ==> r == Err::<(), Error>(
                Error::IndexOutOfRange { index: pos, len: old(self).events_spec().len() as usize },
            ) && final(self).events_spec() == old(self).events_spec(),
    {
        if pos >= self.events.len() {
            return Err(Error::IndexOutOfRange { index: pos, len: self.events.len() });
        }
        let ghost before = self.events@;
        let ghost unchanged = (self.distance, self.neighbour_search, self.last_retrieved_weights@);
        let n = self.events[pos].weights.len();
        let mut k: usize = 0;
        while k < n && k < weights.len()
            invariant
                n == before[pos as int].weights@.len(),
                k <= n,
                k <= weights@.len(),
                pos < before.len(),
                (self.distance, self.neighbour_search, self.last_retrieved_weights@) == unchanged,
                self.events@.len() == before.len(),
                forall|j: int|
                    0 <= j < before.len() && j != pos ==> #[trigger] self.events@[j] == before[j],
                self.events@[pos as int].outgoing == before[pos as int].outgoing,
                self.events@[pos as int].weights@.len() == n,
                forall|i: int|
                    0 <= i < n ==> #[trigger] self.events@[pos as int].weights@[i] == if i < k {
                        weights@[i]
                    } else {
                        before[pos as int].weights@[i]
                    },
            decreases n - k,
        {
            self.events[pos].weights[k] = weights[k];
            k += 1;
        }
        proof {
            let w = overwrite_prefix(before[pos as int].weights@, weights@);
            assert(self.events@[pos as int].weights@ =~= w);
            assert(weight_table(self.events@) =~= weight_table(before).update(pos as int, w));
            assert(particle_table(self.events@) =~= particle_table(before));
        }
        Ok(())
    }

    /// Prepare the resampling of the cell with the event at `seed` as its seed
    ///
    /// The cell holds the events around the seed that lie no farther than
    /// `max_cell_size` in the configured distance. Building it and
    /// redistributing its weights is the work of the configured
    /// nearest-neighbour backend, which is handed the returned request; its
    /// result comes back through `set_resampled_weights`, which checks that
    /// it fits the buffer. The seed must carry at least one weight.
    pub fn resample_cell(&self, seed: usize, max_cell_size: Bits) -> (r: Result<
        CellRequest,
        Error,
    >)
        ensures
            seed >= self.events_spec().len() ==> r == Err::<CellRequest, Error>(
                Error::IndexOutOfRange { index: seed, len: self.events_spec().len() as usize },
            ),
            seed < self.events_spec().len() && self.weights_spec()[seed as int].len() == 0 ==> r
                == Err::<CellRequest, Error>(Error::SeedWithoutWeights),
            seed < self.events_spec().len() && self.weights_spec()[seed as int].len() > 0 ==> r == Ok::<CellRequest, Error>(
                (CellRequest {
                    seed,
                    max_cell_size,
                    neighbour_search: self.neighbour_search_spec(),
                }),
            ),
    {
        if seed >= self.events.len() {
            return Err(Error::IndexOutOfRange { index: seed, len: self.events.len() });
        }
        if self.events[seed].weights.len() == 0 {
            return Err(Error::SeedWithoutWeights);
        }
        Ok(CellRequest { seed, max_cell_size, neighbour_search: self.neighbour_search })
    }

    /// Take over the weights that a backend computed for a resampled cell
    ///
    /// `weights` holds the new weights of every buffered event, by position.
    /// They replace the old ones only if they have the buffer's shape;
    /// otherwise nothing changes. The particles, the number and the order of
    /// the events stay as they were either way.
    pub fn set_resampled_weights(&mut self, weights: &Vec<Vec<Bits>>) -> (r: Result<(), Error>)
        ensures
            final(self).last_weights_spec() == old(self).last_weights_spec(),
            final(self).distance_spec() == old(self).distance_spec(),
            final(self).neighbour_search_spec() == old(self).neighbour_search_spec(),
            final(self).particles_spec() == old(self).particles_spec(),
            same_shape(old(self).events_spec(), weights@) ==> r is Ok
                && final(self).weights_spec() == weights@.map_values(|w: Vec<Bits>| w@),
            !same_shape(old(self).events_spec(), weights@) ==> r == Err::<(), Error>(
                Error::ShapeMismatch,
            ) && final(self).events_spec() == old(self).events_spec(),
    {
        if weights.len() != self.events.len() {
            return Err(Error::ShapeMismatch);
        }
        let mut j: usize = 0;
        while j < weights.len()
            invariant
                j <= weights@.len(),
                weights@.len() == self.events@.len(),
                forall|i: int|
                    0 <= i < j ==> #[trigger] weights@[i]@.len() == self.events@[i].weights@.len(),
            decreases weights@.len() - j,
        {
            if weights[j].len() != self.events[j].weights.len() {
                return Err(Error::ShapeMismatch);
            }
            j += 1;
        }
        let ghost before = self.events@;
        let ghost unchanged = (self.distance, self.neighbour_search, self.last_retrieved_weights@);
        let mut j: usize = 0;
        while j < weights.len()
            invariant
                j <= weights@.len(),
                weights@.len() == before.len(),
                self.events@.len() == before.len(),
                (self.distance, self.neighbour_search, self.last_retrieved_weights@) == unchanged,
                forall|i: int|
                    0 <= i < before.len() ==> #[trigger] self.events@[i].outgoing
                        == before[i].outgoing,
                forall|i: int| 0 <= i < j ==> #[trigger] self.events@[i].weights@ == weights@[i]@,
            decreases weights@.len() - j,
        {
            let source = &weights[j];
            let copy = copy_bits(source.as_slice());
            self.events[j].weights = copy;
            j += 1;
        }
        proof {
            assert(weight_table(self.events@) =~= weights@.map_values(|w: Vec<Bits>| w@));
            assert(particle_table(self.events@) =~= particle_table(before));
        }
        Ok(())
    }

    /// The nearest-neighbour search the resampler was built with
    pub fn neighbour_search(&self) -> (s: Search)
        ensures
            s == self.neighbour_search_spec(),
    {
        self.neighbour_search
    }
}

/// Construct a [Resampler] object
pub struct ResamplerBuilder<D> {
    distance: D,
    neighbour_search: Search,
}

impl<D> ResamplerBuilder<D> {
    pub closed spec fn distance_spec(&self) -> D {
        self.distance
    }

    pub closed spec fn neighbour_search_spec(&self) -> Search {
        self.neighbour_search
    }

    /// A builder for the given distance and tree search
    pub fn new(distance: D) -> (b: ResamplerBuilder<D>)
        ensures
            b.distance_spec() == distance,
            b.neighbour_search_spec() == Search::Tree,
    {
        ResamplerBuilder { distance, neighbour_search: Search::Tree }
    }

    /// Set the nearest neighbour search algorithm
    pub fn neighbour_search(self, neighbour_search: Search) -> (b: ResamplerBuilder<D>)
        ensures
            b.distance_spec() == self.distance_spec(),
            b.neighbour_search_spec() == neighbour_search,
    {
        ResamplerBuilder { distance: self.distance, neighbour_search }
    }

    /// Set the distance
    pub fn distance<DD>(self, distance: DD) -> (b: ResamplerBuilder<DD>)
        ensures
            b.distance_spec() == distance,
            b.neighbour_search_spec() == self.neighbour_search_spec(),
    {
        ResamplerBuilder { distance, neighbour_search: self.neighbour_search }
    }

    /// Build a [Resampler] with an empty event buffer
    pub fn build(self) -> (r: Resampler<D>)
        ensures
            r.distance_spec() == self.distance_spec(),
            r.neighbour_search_spec() == self.neighbour_search_spec(),
            r.events_spec() == Seq::<Event>::empty(),
            r.last_weights_spec() == Seq::<Bits>::empty(),
    {
        let ResamplerBuilder { distance, neighbour_search } = self;
        Resampler {
            distance,
            neighbour_search,
            events: Vec::new(),
            last_retrieved_weights: Vec::new(),
        }
    }
}

impl Default for ResamplerBuilder<EuclWithScaledPt> {
    /// Plain Euclidean distance and tree search
    fn default() -> (b: Self)
        ensures
            b.distance_spec().pt_weight == 0,
            b.neighbour_search_spec() == Search::Tree,
    {
        ResamplerBuilder { distance: EuclWithScaledPt::default(), neighbour_search: Search::Tree }
    }
}

/// Pushing an event and then reading weights by position: the new last
/// position gives the pushed event's weights, every earlier position gives
/// what it gave before.
pub proof fn lemma_push_then_get(before: Seq<Event>, e: Event, i: int)
    requires
        0 <= i <= before.len(),
    ensures
        weight_table(before.push(e))[i] == if i == before.len() {
            e.weights@
        } else {
            weight_table(before)[i]
        },
{
}

/// Pushing events onto an empty buffer and reading weights back by position
/// returns, at each position, the weights of the event pushed there,
/// unchanged.
pub proof fn lemma_round_trip(pushed: Seq<Event>)
    ensures
        weight_table(pushed) == pushed.map_values(|e: Event| e.weights@),
        forall|i: int| 0 <= i < pushed.len() ==> #[trigger] weight_table(pushed)[i] == pushed[i].weights@,
{
    assert(weight_table(pushed) =~= pushed.map_values(|e: Event| e.weights@));
}

/// An event built from a view and then pushed reads back, at its position,
/// exactly the weights of the view.
pub proof fn lemma_view_round_trip(before: Seq<Event>, view: EventView, e: Event)
    requires
        e.weights@ == view.weights@,
    ensures
        weight_table(before.push(e))[before.len() as int] == view.weights@,
{
}

} // verus!
