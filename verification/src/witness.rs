//! Proofs that types conform to concepts, as a running program keeps them.
//!
//! A proof refers to the proofs that it rests on. A clone of proofs is made as
//! a whole or not at all. Memory is not read here: what is known of proofs is
//! given, and a clone or a walk names the proof that it needs to know next.

use std::collections::{HashMap, HashSet};
use vstd::prelude::*;

use crate::chain::Chain;

verus! {

/// How many proofs a clone or a walk may take in.
pub const MAX_WITNESS_INSTANCES: usize = 1048576;

/// How many proofs one may rest on, and how many methods one may have.
pub const MAX_WITNESS_FIELDS: usize = 1048576;

/// What the compiler tells of a kind of proof.
#[derive(Clone, Copy, Debug, PartialEq, Eq, Structural)]
pub struct WitnessDescriptor {
    pub address: u64,
    pub prerequisite_count: u64,
    pub method_count: u64,
    /// The address of the methods is not null.
    pub has_methods: bool,
}

/// A proof.
pub struct WitnessInstance {
    /// What is told of its kind, if anything is.
    pub descriptor: Option<WitnessDescriptor>,
    /// The address of the prerequisites is not null.
    pub has_prerequisites: bool,
    /// The addresses of the proofs that it rests on.
    pub prerequisites: Vec<u64>,
}

/// The proof at an address.
pub struct WitnessFact {
    pub address: u64,
    pub instance: WitnessInstance,
}

/// The proof at an address, if it is known.
pub open spec fn witness_at(facts: Chain<WitnessFact>, address: u64) -> Option<WitnessInstance>
    decreases facts,
{
    match facts {
        Chain::Empty => None,
        Chain::Link(link) => if link.item.address == address {
            Some(link.item.instance)
        } else {
            witness_at(link.rest, address)
        },
    }
}

fn find_witness(facts: &Chain<WitnessFact>, address: u64) -> (instance: Option<&WitnessInstance>)
    ensures
        match instance {
            Some(found) => witness_at(*facts, address) == Some(*found),
            None => witness_at(*facts, address) is None,
        },
{
    let mut current: &Chain<WitnessFact> = facts;
    loop
        invariant
            witness_at(*current, address) == witness_at(*facts, address),
        decreases current,
    {
        match current {
            Chain::Empty => {
                return None;
            },
            Chain::Link(link) => {
                if link.item.address == address {
                    return Some(&link.item.instance);
                }
                current = &link.rest;
            },
        }
    }
}

impl WitnessDescriptor {
    /// The counts are within their limits, and methods that are counted are
    /// there.
    pub open spec fn has_shape(self) -> bool {
        self.prerequisite_count <= MAX_WITNESS_FIELDS && self.method_count <= MAX_WITNESS_FIELDS
            && (self.method_count != 0 ==> self.has_methods)
    }

    /// The number of prerequisites and of methods, if they are in order.
    pub fn descriptor_shape(&self) -> (shape: Option<(usize, usize)>)
        ensures
            match shape {
                Some((prerequisites, methods)) => self.has_shape() && prerequisites
                    == self.prerequisite_count && methods == self.method_count,
                None => !self.has_shape(),
            },
    {
        if self.prerequisite_count <= MAX_WITNESS_FIELDS as u64 && self.method_count
            <= MAX_WITNESS_FIELDS as u64 && (self.method_count == 0 || self.has_methods) {
            Some((self.prerequisite_count as usize, self.method_count as usize))
        } else {
            None
        }
    }
}

impl WitnessInstance {
    /// The proof has the form that its kind tells.
    pub open spec fn sound(self) -> bool {
        match self.descriptor {
            Some(descriptor) => descriptor.has_shape() && (descriptor.prerequisite_count != 0
                ==> self.has_prerequisites),
            None => false,
        }
    }

    /// As many prerequisites are given as the kind tells.
    pub open spec fn complete(self) -> bool {
        self.sound() ==> self.prerequisites@.len() == self.descriptor->0.prerequisite_count
    }

    fn check_sound(&self) -> (result: bool)
        ensures
            result == self.sound(),
    {
        match &self.descriptor {
            Some(descriptor) => match descriptor.descriptor_shape() {
                Some((prerequisites, _)) => prerequisites == 0 || self.has_prerequisites,
                None => false,
            },
            None => false,
        }
    }
}

/// Of every known proof as many prerequisites are given as its kind tells.
pub open spec fn facts_complete(facts: Chain<WitnessFact>) -> bool {
    forall|address: u64|
        match #[trigger] witness_at(facts, address) {
            Some(instance) => instance.complete(),
            None => true,
        }
}

/// The sound proof at one address rests on that at another.
pub open spec fn rests_on(facts: Chain<WitnessFact>, from: u64, to: u64) -> bool {
    match witness_at(facts, from) {
        Some(instance) => instance.sound() && instance.prerequisites@.contains(to),
        None => false,
    }
}

/// The address is reached from the sources in so many steps.
pub open spec fn reached_in(
    facts: Chain<WitnessFact>,
    sources: Seq<u64>,
    address: u64,
    steps: nat,
) -> bool
    decreases steps,
{
    if steps == 0 {
        sources.contains(address)
    } else {
        exists|from: u64|
            reached_in(facts, sources, from, (steps - 1) as nat) && #[trigger] rests_on(
                facts,
                from,
                address,
            )
    }
}

/// The address is reached from the sources.
pub open spec fn reached(facts: Chain<WitnessFact>, sources: Seq<u64>, address: u64) -> bool {
    exists|steps: nat| reached_in(facts, sources, address, steps)
}

proof fn lemma_reached_further(
    facts: Chain<WitnessFact>,
    sources: Seq<u64>,
    from: u64,
    to: u64,
)
    requires
        reached(facts, sources, from),
        rests_on(facts, from, to),
    ensures
        reached(facts, sources, to),
{
    let steps = choose|steps: nat| reached_in(facts, sources, from, steps);
    assert(rests_on(facts, from, to));
    assert(reached_in(facts, sources, to, steps + 1));
}

proof fn lemma_reached_source(facts: Chain<WitnessFact>, sources: Seq<u64>, address: u64)
    requires
        sources.contains(address),
    ensures
        reached(facts, sources, address),
{
    assert(reached_in(facts, sources, address, 0));
}

/// A set that holds the sources and what its members rest on holds all that
/// is reached.
proof fn lemma_reached_within(
    facts: Chain<WitnessFact>,
    sources: Seq<u64>,
    members: Seq<u64>,
    address: u64,
    steps: nat,
)
    requires
        forall|a: u64| sources.contains(a) ==> #[trigger] members.contains(a),
        forall|a: u64, b: u64|
            members.contains(a) && #[trigger] rests_on(facts, a, b) ==> members.contains(b),
        reached_in(facts, sources, address, steps),
    ensures
        members.contains(address),
    decreases steps,
{
    if steps > 0 {
        let from = choose|from: u64|
            reached_in(facts, sources, from, (steps - 1) as nat) && #[trigger] rests_on(
                facts,
                from,
                address,
            );
        lemma_reached_within(facts, sources, members, from, (steps - 1) as nat);
        assert(rests_on(facts, from, address));
    }
}

/// A proof that the arena owns; it rests on others by their positions.
pub struct OwnedWitness {
    pub descriptor: u64,
    pub prerequisites: Vec<usize>,
}

/// How many bytes a proof with so many prerequisites takes, given what one
/// without any and a reference take; at most the greatest number.
pub open spec fn witness_bytes(count: nat, instance_size: usize, pointer_size: usize) -> nat {
    let total = instance_size + count * pointer_size;
    if total <= usize::MAX {
        total as nat
    } else {
        usize::MAX as nat
    }
}

fn allocation_bytes(count: usize, instance_size: usize, pointer_size: usize) -> (bytes: usize)
    ensures
        bytes == witness_bytes(count as nat, instance_size, pointer_size),
{
    match count.checked_mul(pointer_size) {
        Some(references) => match instance_size.checked_add(references) {
            Some(total) => total,
            None => usize::MAX,
        },
        None => usize::MAX,
    }
}

/// The bytes of proofs with so many prerequisites each, at most the greatest
/// number.
pub open spec fn total_bytes(counts: Seq<nat>, instance_size: usize, pointer_size: usize) -> nat
    decreases counts.len(),
{
    if counts.len() == 0 {
        0
    } else {
        let total = total_bytes(counts.drop_last(), instance_size, pointer_size) + witness_bytes(
            counts.last(),
            instance_size,
            pointer_size,
        );
        if total <= usize::MAX {
            total
        } else {
            usize::MAX as nat
        }
    }
}

fn add_bytes(total: usize, more: usize) -> (sum: usize)
    ensures
        sum == (if total + more <= usize::MAX {
            total + more
        } else {
            usize::MAX as int
        }),
{
    match total.checked_add(more) {
        Some(sum) => sum,
        None => usize::MAX,
    }
}

/// A clone that is complete but has no owner yet.
pub struct StagedWitnesses {
    pub roots: Vec<usize>,
    pub allocations: Vec<OwnedWitness>,
}

impl StagedWitnesses {
    /// How many prerequisites each proof has.
    pub open spec fn counts(self) -> Seq<nat> {
        Seq::new(
            self.allocations@.len(),
            |i: int| self.allocations@[i].prerequisites@.len(),
        )
    }

    pub fn allocation_bytes(&self, instance_size: usize, pointer_size: usize) -> (bytes: usize)
        ensures
            bytes == total_bytes(self.counts(), instance_size, pointer_size),
    {
        let mut bytes: usize = 0;
        let mut i: usize = 0;
        assert(self.counts().take(0) =~= Seq::<nat>::empty());
        while i < self.allocations.len()
            invariant
                i <= self.allocations@.len(),
                bytes == total_bytes(self.counts().take(i as int), instance_size, pointer_size),
            decreases self.allocations@.len() - i,
        {
            let count: usize = self.allocations[i].prerequisites.len();
            bytes = add_bytes(bytes, allocation_bytes(count, instance_size, pointer_size));
            assert(self.counts().take(i as int + 1).drop_last() =~= self.counts().take(i as int));
            i = i + 1;
        }
        assert(self.counts().take(i as int) =~= self.counts());
        bytes
    }

    /// The clone is a copy of what is reached from the sources, where the
    /// proof at a position is the copy of that at the address in `origins`:
    /// every proof is copied once, and rests on the copies of those that it
    /// rested on, in order.
    pub open spec fn copies_with(
        self,
        facts: Chain<WitnessFact>,
        sources: Seq<u64>,
        origins: Seq<u64>,
    ) -> bool {
        &&& origins.len() == self.allocations@.len()
        &&& origins.no_duplicates()
        &&& forall|address: u64| #[trigger]
            origins.contains(address) <==> reached(facts, sources, address)
        &&& forall|i: int|
            0 <= i < origins.len() ==> (#[trigger] origins[i]) != 0 && is_copy_of(
                facts,
                origins,
                origins[i],
                self.allocations@[i],
            )
        &&& self.roots@.len() == sources.len()
        &&& forall|i: int|
            0 <= i < sources.len() ==> (#[trigger] self.roots@[i]) < origins.len()
                && origins[self.roots@[i] as int] == sources[i]
    }

    pub open spec fn copies(self, facts: Chain<WitnessFact>, sources: Seq<u64>) -> bool {
        exists|origins: Seq<u64>| self.copies_with(facts, sources, origins)
    }
}

/// A proof is the copy of the sound one at an address.
pub open spec fn is_copy_of(
    facts: Chain<WitnessFact>,
    origins: Seq<u64>,
    address: u64,
    copy: OwnedWitness,
) -> bool {
    match witness_at(facts, address) {
        Some(instance) => {
            &&& instance.sound()
            &&& copy.descriptor == instance.descriptor->0.address
            &&& copy.prerequisites@.len() == instance.prerequisites@.len()
            &&& forall|j: int|
                0 <= j < copy.prerequisites@.len() ==> (#[trigger] copy.prerequisites@[j])
                    < origins.len() && origins[copy.prerequisites@[j] as int]
                    == instance.prerequisites@[j]
        },
        None => false,
    }
}

/// What an attempt to clone comes to.
pub enum CloneOutcome {
    Staged(StagedWitnesses),
    Invalid,
    /// The proof at the address must be known.
    Needs(u64),
}

/// The address is that of no sound proof.
pub open spec fn is_unsound(facts: Chain<WitnessFact>, address: u64) -> bool {
    address == 0 || match witness_at(facts, address) {
        Some(instance) => !instance.sound(),
        None => false,
    }
}

/// More proofs are reached than may be taken in.
pub open spec fn too_many(facts: Chain<WitnessFact>, sources: Seq<u64>) -> bool {
    exists|members: Seq<u64>|
        #![trigger members.no_duplicates()]
        members.no_duplicates() && members.len() > MAX_WITNESS_INSTANCES && forall|i: int|
            0 <= i < members.len() ==> reached(facts, sources, #[trigger] members[i])
}

/// What is reached cannot be taken in.
pub open spec fn cannot_clone(facts: Chain<WitnessFact>, sources: Seq<u64>) -> bool {
    sources.len() > MAX_WITNESS_FIELDS || too_many(facts, sources) || exists|address: u64| #[trigger]
        is_unsound(facts, address) && reached(facts, sources, address)
}

/// An address is reached and nothing is known of it.
pub open spec fn is_needed(facts: Chain<WitnessFact>, sources: Seq<u64>, address: u64) -> bool {
    address != 0 && witness_at(facts, address) is None && reached(facts, sources, address)
}

/// The state of a clone.
struct Cloner {
    /// The addresses whose proofs have a copy, in the order of the copies.
    origins: Vec<u64>,
    positions: HashMap<u64, usize>,
    allocations: Vec<OwnedWitness>,
    /// The copies whose prerequisites are not filled in.
    pending: Vec<usize>,
}

/// Why a clone stops.
enum CloneStop {
    Invalid,
    Needs(u64),
}

impl Cloner {
    /// What holds between the steps of a clone.
    spec fn wf(self, facts: Chain<WitnessFact>, sources: Seq<u64>) -> bool {
        &&& self.origins@.len() == self.allocations@.len()
        &&& self.origins@.len() <= MAX_WITNESS_INSTANCES
        &&& self.origins@.no_duplicates()
        &&& forall|i: int|
            0 <= i < self.origins@.len() ==> reached(facts, sources, #[trigger] self.origins@[i])
                && self.origins@[i] != 0 && copy_begun(
                facts,
                self.origins@[i],
                self.allocations@[i],
            )
        &&& forall|a: u64| #[trigger]
            self.positions@.dom().contains(a) <==> self.origins@.contains(a)
        &&& forall|a: u64| #[trigger]
            self.positions@.dom().contains(a) ==> self.positions@[a] < self.origins@.len()
                && self.origins@[self.positions@[a] as int] == a
        &&& forall|i: int|
            0 <= i < self.pending@.len() ==> (#[trigger] self.pending@[i]) < self.origins@.len()
    }

    /// The copies but those that wait are filled in.
    spec fn filled(self, facts: Chain<WitnessFact>) -> bool {
        forall|i: usize|
            i < self.origins@.len() && !self.pending@.contains(i) ==> #[trigger] is_copy_of(
                facts,
                self.origins@,
                self.origins@[i as int],
                self.allocations@[i as int],
            )
    }
}

/// A copy has the kind of the sound proof at an address.
spec fn copy_begun(facts: Chain<WitnessFact>, address: u64, copy: OwnedWitness) -> bool {
    match witness_at(facts, address) {
        Some(instance) => instance.sound() && copy.descriptor
            == instance.descriptor->0.address,
        None => false,
    }
}

proof fn lemma_copy_grows(
    facts: Chain<WitnessFact>,
    origins: Seq<u64>,
    longer: Seq<u64>,
    address: u64,
    copy: OwnedWitness,
)
    requires
        is_copy_of(facts, origins, address, copy),
        origins.len() <= longer.len(),
        forall|i: int| 0 <= i < origins.len() ==> longer[i] == #[trigger] origins[i],
    ensures
        is_copy_of(facts, longer, address, copy),
{
    let instance = witness_at(facts, address)->0;
    assert forall|j: int| 0 <= j < copy.prerequisites@.len() implies (
    #[trigger] copy.prerequisites@[j]) < longer.len() && longer[copy.prerequisites@[j] as int]
        == instance.prerequisites@[j] by {
        assert(origins[copy.prerequisites@[j] as int] == instance.prerequisites@[j]);
    }
}

impl Cloner {
    /// The position of the copy of the proof at an address, which is made if
    /// there is none.
    fn allocate_clone(
        &mut self,
        facts: &Chain<WitnessFact>,
        address: u64,
        Ghost(sources): Ghost<Seq<u64>>,
    ) -> (result: Result<usize, CloneStop>)
        requires
            old(self).wf(*facts, sources),
            reached(*facts, sources, address),
        ensures
            match result {
                Ok(position) => {
                    &&& final(self).wf(*facts, sources)
                    &&& position < final(self).origins@.len()
                    &&& final(self).origins@[position as int] == address
                    &&& old(self).origins@.len() <= final(self).origins@.len()
                    &&& forall|i: int|
                        0 <= i < old(self).origins@.len() ==> final(self).origins@[i]
                            == #[trigger] old(self).origins@[i] && final(self).allocations@[i]
                            == old(self).allocations@[i]
                    &&& forall|i: usize|
                        #[trigger] final(self).pending@.contains(i) <==> old(
                            self,
                        ).pending@.contains(i) || old(self).origins@.len() <= i
                            < final(self).origins@.len()
                    &&& final(self).pending@.len() - old(self).pending@.len()
                        == final(self).origins@.len() - old(self).origins@.len()
                },
                Err(CloneStop::Invalid) => cannot_clone(*facts, sources),
                Err(CloneStop::Needs(needed)) => is_needed(*facts, sources, needed),
            },
    {
        broadcast use vstd::std_specs::hash::group_hash_axioms;

        if address == 0 {
            proof {
                assert(is_unsound(*facts, address));
            }
            return Err(CloneStop::Invalid);
        }
        let known = match self.positions.get(&address) {
            Some(position) => Some(*position),
            None => None,
        };
        match known {
            Some(position) => {
                assert(self.positions@.dom().contains(address));
                Ok(position)
            },
            None => {
                assert(!self.positions@.dom().contains(address));
                assert(!self.origins@.contains(address));
                if self.allocations.len() == MAX_WITNESS_INSTANCES {
                    proof {
                        let members = self.origins@.push(address);
                        assert(members.no_duplicates());
                        assert forall|i: int| 0 <= i < members.len() implies reached(
                            *facts,
                            sources,
                            #[trigger] members[i],
                        ) by {
                            if i < self.origins@.len() {
                                assert(members[i] == self.origins@[i]);
                            }
                        }
                        assert(too_many(*facts, sources));
                    }
                    return Err(CloneStop::Invalid);
                }
                match find_witness(facts, address) {
                    Some(instance) => {
                        if !instance.check_sound() {
                            proof {
                                assert(is_unsound(*facts, address));
                            }
                            return Err(CloneStop::Invalid);
                        }
                        let descriptor: u64 = match &instance.descriptor {
                            Some(descriptor) => descriptor.address,
                            None => 0,
                        };
                        let position: usize = self.allocations.len();
                        self.allocations.push(
                            OwnedWitness { descriptor, prerequisites: Vec::new() },
                        );
                        self.origins.push(address);
                        self.positions.insert(address, position);
                        self.pending.push(position);
                        proof {
                            assert forall|a: u64| #[trigger]
                                self.positions@.dom().contains(a) <==> self.origins@.contains(
                                a,
                            ) by {
                                if old(self).origins@.contains(a) {
                                    let i = old(self).origins@.index_of(a);
                                    assert(self.origins@[i] == a);
                                }
                                if self.origins@.contains(a) && a != address {
                                    let i = self.origins@.index_of(a);
                                    assert(old(self).origins@[i] == a);
                                    assert(old(self).positions@.dom().contains(a));
                                }
                                if a == address {
                                    assert(self.origins@[position as int] == a);
                                }
                            }
                            assert forall|a: u64| #[trigger]
                                self.positions@.dom().contains(a) implies self.positions@[a]
                                < self.origins@.len() && self.origins@[self.positions@[a] as int]
                                == a by {
                                if a != address {
                                    assert(old(self).positions@.dom().contains(a));
                                }
                            }
                            assert forall|i: usize| #[trigger]
                                self.pending@.contains(i) <==> old(self).pending@.contains(i)
                                    || old(self).origins@.len() <= i < self.origins@.len() by {
                                if old(self).pending@.contains(i) {
                                    let j = old(self).pending@.index_of(i);
                                    assert(self.pending@[j] == i);
                                }
                                if i == position {
                                    assert(self.pending@[old(self).pending@.len() as int] == i);
                                }
                                if self.pending@.contains(i) && i != position {
                                    let j = self.pending@.index_of(i);
                                    assert(old(self).pending@[j] == i);
                                }
                            }
                        }
                        Ok(position)
                    },
                    None => Err(CloneStop::Needs(address)),
                }
            },
        }
    }

    /// Fills in the prerequisites of a copy.
    fn fill(
        &mut self,
        facts: &Chain<WitnessFact>,
        position: usize,
        Ghost(sources): Ghost<Seq<u64>>,
    ) -> (result: Result<(), CloneStop>)
        requires
            facts_complete(*facts),
            old(self).wf(*facts, sources),
            position < old(self).origins@.len(),
            forall|i: usize|
                i < old(self).origins@.len() && !old(self).pending@.contains(i) && i != position
                    ==> #[trigger] is_copy_of(
                    *facts,
                    old(self).origins@,
                    old(self).origins@[i as int],
                    old(self).allocations@[i as int],
                ),
        ensures
            match result {
                Ok(()) => {
                    &&& final(self).wf(*facts, sources)
                    &&& final(self).filled(*facts)
                    &&& old(self).origins@.len() <= final(self).origins@.len()
                    &&& forall|i: int|
                        0 <= i < old(self).origins@.len() ==> final(self).origins@[i]
                            == #[trigger] old(self).origins@[i]
                    &&& final(self).pending@.len() - old(self).pending@.len()
                        == final(self).origins@.len() - old(self).origins@.len()
                },
                Err(CloneStop::Invalid) => cannot_clone(*facts, sources),
                Err(CloneStop::Needs(needed)) => is_needed(*facts, sources, needed),
            },
    {
        let address: u64 = self.origins[position];
        let ghost begun = *self;
        assert(reached(*facts, sources, self.origins@[position as int]));
        assert(copy_begun(*facts, address, self.allocations@[position as int]));
        let instance = match find_witness(facts, address) {
            Some(instance) => instance,
            None => {
                return Err(CloneStop::Needs(address));
            },
        };
        let mut filled: Vec<usize> = Vec::new();
        let mut j: usize = 0;
        while j < instance.prerequisites.len()
            invariant
                j <= instance.prerequisites@.len(),
                witness_at(*facts, address) == Some(*instance),
                instance.sound(),
                reached(*facts, sources, address),
                self.wf(*facts, sources),
                position < begun.origins@.len(),
                begun.origins@[position as int] == address,
                begun.origins@.len() <= self.origins@.len(),
                forall|i: int|
                    0 <= i < begun.origins@.len() ==> self.origins@[i]
                        == #[trigger] begun.origins@[i] && self.allocations@[i]
                        == begun.allocations@[i],
                forall|i: usize| #[trigger]
                    self.pending@.contains(i) <==> begun.pending@.contains(i)
                        || begun.origins@.len() <= i < self.origins@.len(),
                self.pending@.len() - begun.pending@.len() == self.origins@.len()
                    - begun.origins@.len(),
                filled@.len() == j,
                forall|k: int|
                    0 <= k < j ==> (#[trigger] filled@[k]) < self.origins@.len()
                        && self.origins@[filled@[k] as int] == instance.prerequisites@[k],
            decreases instance.prerequisites@.len() - j,
        {
            let prerequisite: u64 = instance.prerequisites[j];
            proof {
                assert(instance.prerequisites@.contains(prerequisite));
                assert(rests_on(*facts, address, prerequisite));
                lemma_reached_further(*facts, sources, address, prerequisite);
            }
            let ghost before = *self;
            match self.allocate_clone(facts, prerequisite, Ghost(sources)) {
                Ok(found) => {
                    filled.push(found);
                    assert forall|k: int| 0 <= k < j + 1 implies (#[trigger] filled@[k])
                        < self.origins@.len() && self.origins@[filled@[k] as int]
                        == instance.prerequisites@[k] by {
                        if k < j {
                            assert(before.origins@[filled@[k] as int]
                                == instance.prerequisites@[k]);
                        }
                    }
                    assert forall|i: int| 0 <= i < begun.origins@.len() implies self.origins@[i]
                        == #[trigger] begun.origins@[i] && self.allocations@[i]
                        == begun.allocations@[i] by {
                        assert(before.origins@[i] == begun.origins@[i]);
                    }
                    assert forall|i: usize| #[trigger]
                        self.pending@.contains(i) <==> begun.pending@.contains(i)
                            || begun.origins@.len() <= i < self.origins@.len() by {
                        assert(before.pending@.contains(i) <==> begun.pending@.contains(i)
                            || begun.origins@.len() <= i < before.origins@.len());
                    }
                },
                Err(stop) => {
                    return Err(stop);
                },
            }
            j = j + 1;
        }
        let ghost before = *self;
        let descriptor: u64 = self.allocations[position].descriptor;
        assert(before.origins@[position as int] == begun.origins@[position as int]);
        assert(copy_begun(*facts, address, before.allocations@[position as int]));
        self.allocations.set(position, OwnedWitness { descriptor, prerequisites: filled });
        proof {
            assert(instance.complete());
            assert forall|i: int| 0 <= i < self.origins@.len() implies reached(
                *facts,
                sources,
                #[trigger] self.origins@[i],
            ) && self.origins@[i] != 0 && copy_begun(
                *facts,
                self.origins@[i],
                self.allocations@[i],
            ) by {
                assert(copy_begun(*facts, before.origins@[i], before.allocations@[i]));
            }
            assert forall|i: usize|
                i < self.origins@.len() && !self.pending@.contains(
                    i,
                ) implies #[trigger] is_copy_of(
                *facts,
                self.origins@,
                self.origins@[i as int],
                self.allocations@[i as int],
            ) by {
                if i != position {
                    assert(!begun.pending@.contains(i));
                    assert(i < begun.origins@.len());
                    assert(is_copy_of(
                        *facts,
                        begun.origins@,
                        begun.origins@[i as int],
                        begun.allocations@[i as int],
                    ));
                    lemma_copy_grows(
                        *facts,
                        begun.origins@,
                        self.origins@,
                        begun.origins@[i as int],
                        begun.allocations@[i as int],
                    );
                    assert(self.origins@[i as int] == begun.origins@[i as int]);
                }
            }
        }
        Ok(())
    }
}

/// Clones the proofs at the sources and all that they rest on, or nothing.
pub fn clone_witnesses(facts: &Chain<WitnessFact>, sources: &Vec<u64>) -> (outcome: CloneOutcome)
    requires
        facts_complete(*facts),
    ensures
        match outcome {
            CloneOutcome::Staged(staged) => staged.copies(*facts, sources@) && staged.allocations@.len()
                <= MAX_WITNESS_INSTANCES && sources@.len() <= MAX_WITNESS_FIELDS,
            CloneOutcome::Invalid => cannot_clone(*facts, sources@),
            CloneOutcome::Needs(address) => is_needed(*facts, sources@, address),
        },
{
    broadcast use vstd::std_specs::hash::group_hash_axioms;

    if sources.len() > MAX_WITNESS_FIELDS {
        return CloneOutcome::Invalid;
    }
    let mut cloner = Cloner {
        origins: Vec::new(),
        positions: HashMap::new(),
        allocations: Vec::new(),
        pending: Vec::new(),
    };
    let mut roots: Vec<usize> = Vec::new();
    let mut i: usize = 0;
    while i < sources.len()
        invariant
            i <= sources@.len(),
            cloner.wf(*facts, sources@),
            forall|p: usize| #[trigger]
                cloner.pending@.contains(p) <==> p < cloner.origins@.len(),
            roots@.len() == i,
            forall|k: int|
                0 <= k < i ==> (#[trigger] roots@[k]) < cloner.origins@.len()
                    && cloner.origins@[roots@[k] as int] == sources@[k],
        decreases sources@.len() - i,
    {
        let source: u64 = sources[i];
        proof {
            assert(sources@.contains(source));
            lemma_reached_source(*facts, sources@, source);
        }
        let ghost before = cloner;
        match cloner.allocate_clone(facts, source, Ghost(sources@)) {
            Ok(position) => {
                roots.push(position);
                assert forall|k: int| 0 <= k < i + 1 implies (#[trigger] roots@[k])
                    < cloner.origins@.len() && cloner.origins@[roots@[k] as int]
                    == sources@[k] by {
                    if k < i {
                        assert(before.origins@[roots@[k] as int] == sources@[k]);
                    }
                }
                assert forall|p: usize| #[trigger]
                    cloner.pending@.contains(p) <==> p < cloner.origins@.len() by {
                    assert(before.pending@.contains(p) <==> p < before.origins@.len());
                }
            },
            Err(CloneStop::Invalid) => {
                return CloneOutcome::Invalid;
            },
            Err(CloneStop::Needs(address)) => {
                return CloneOutcome::Needs(address);
            },
        }
        i = i + 1;
    }
    assert(cloner.filled(*facts));
    while cloner.pending.len() > 0
        invariant
            facts_complete(*facts),
            cloner.wf(*facts, sources@),
            cloner.filled(*facts),
            roots@.len() == sources@.len(),
            forall|k: int|
                0 <= k < sources@.len() ==> (#[trigger] roots@[k]) < cloner.origins@.len()
                    && cloner.origins@[roots@[k] as int] == sources@[k],
        decreases MAX_WITNESS_INSTANCES - cloner.origins@.len(), cloner.pending@.len(),
    {
        let ghost before = cloner;
        let position: usize = match cloner.pending.pop() {
            Some(position) => position,
            None => 0,
        };
        proof {
            assert(before.pending@[before.pending@.len() - 1] == position);
            assert forall|p: usize|
                p < cloner.origins@.len() && !cloner.pending@.contains(p) && p
                    != position implies #[trigger] is_copy_of(
                *facts,
                cloner.origins@,
                cloner.origins@[p as int],
                cloner.allocations@[p as int],
            ) by {
                if before.pending@.contains(p) {
                    let at = before.pending@.index_of(p);
                    assert(cloner.pending@[at] == p);
                }
                assert(!before.pending@.contains(p));
                assert(is_copy_of(
                    *facts,
                    before.origins@,
                    before.origins@[p as int],
                    before.allocations@[p as int],
                ));
            }
        }
        let ghost popped = cloner;
        match cloner.fill(facts, position, Ghost(sources@)) {
            Ok(()) => {
                assert forall|k: int| 0 <= k < sources@.len() implies (#[trigger] roots@[k])
                    < cloner.origins@.len() && cloner.origins@[roots@[k] as int]
                    == sources@[k] by {
                    assert(popped.origins@[roots@[k] as int] == sources@[k]);
                }
            },
            Err(CloneStop::Invalid) => {
                return CloneOutcome::Invalid;
            },
            Err(CloneStop::Needs(address)) => {
                return CloneOutcome::Needs(address);
            },
        }
    }
    let ghost origins = cloner.origins@;
    let staged = StagedWitnesses { roots, allocations: cloner.allocations };
    proof {
        assert forall|k: int| 0 <= k < origins.len() implies (#[trigger] origins[k]) != 0
            && is_copy_of(*facts, origins, origins[k], staged.allocations@[k]) by {
            let p = k as usize;
            assert(!cloner.pending@.contains(p));
            assert(is_copy_of(
                *facts,
                cloner.origins@,
                cloner.origins@[p as int],
                cloner.allocations@[p as int],
            ));
        }
        assert forall|a: u64| sources@.contains(a) implies #[trigger] origins.contains(a) by {
            let k = sources@.index_of(a);
            assert(origins[staged.roots@[k] as int] == sources@[k]);
        }
        assert forall|a: u64, b: u64|
            origins.contains(a) && #[trigger] rests_on(*facts, a, b) implies origins.contains(b) by {
            let k = origins.index_of(a);
            let copy = staged.allocations@[k];
            assert(is_copy_of(*facts, origins, origins[k], copy));
            let instance = witness_at(*facts, a)->0;
            let j = instance.prerequisites@.index_of(b);
            assert(origins[copy.prerequisites@[j] as int] == instance.prerequisites@[j]);
        }
        assert forall|a: u64| #[trigger] origins.contains(a) <==> reached(
            *facts,
            sources@,
            a,
        ) by {
            if origins.contains(a) {
                let k = origins.index_of(a);
                assert(reached(*facts, sources@, cloner.origins@[k]));
            }
            if reached(*facts, sources@, a) {
                let steps = choose|steps: nat| reached_in(*facts, sources@, a, steps);
                lemma_reached_within(*facts, sources@, origins, a, steps);
            }
        }
        assert(staged.copies_with(*facts, sources@, origins));
    }
    CloneOutcome::Staged(staged)
}

/// What a walk over proofs comes to.
pub enum WalkOutcome {
    /// The addresses of all proofs that are reached, each once.
    Visited(Vec<u64>),
    /// The addresses that were visited before the fault was met.
    Invalid(Vec<u64>),
    /// The proof at the address must be known.
    Needs(u64),
}

/// How a walk over proofs ends.
#[derive(Clone, Copy, Debug, PartialEq, Eq, Structural)]
pub enum WalkEnd {
    /// Everything was visited.
    Complete,
    /// A proof was met that is not sound, or one too many.
    Fault,
    /// A proof was met that is not known.
    Unknown(u64),
}

/// What is reached cannot be walked over.
pub open spec fn cannot_walk(facts: Chain<WitnessFact>, sources: Seq<u64>) -> bool {
    too_many(facts, sources) || exists|address: u64| #[trigger]
        is_unsound(facts, address) && reached(facts, sources, address)
}

/// The addresses that a walk visits from those to do, behind those that are
/// done, and how it ends. It goes depth first: an address that is not done yet
/// is visited before the proofs that it rests on, which come from left to right
/// before the rest. A proof that rests on a null address is visited, and then
/// the walk ends. There is room for so many more.
pub open spec fn walked(
    facts: Chain<WitnessFact>,
    done: Seq<u64>,
    to_do: Seq<u64>,
    room: nat,
) -> (Seq<u64>, WalkEnd)
    decreases room, to_do.len(),
{
    if to_do.len() == 0 {
        (done, WalkEnd::Complete)
    } else if done.contains(to_do[0]) {
        walked(facts, done, to_do.skip(1), room)
    } else if room == 0 {
        (done, WalkEnd::Fault)
    } else {
        match witness_at(facts, to_do[0]) {
            None => (done, WalkEnd::Unknown(to_do[0])),
            Some(instance) => if !instance.sound() {
                (done, WalkEnd::Fault)
            } else if instance.prerequisites@.contains(0) {
                (done.push(to_do[0]), WalkEnd::Fault)
            } else {
                walked(
                    facts,
                    done.push(to_do[0]),
                    instance.prerequisites@ + to_do.skip(1),
                    (room - 1) as nat,
                )
            },
        }
    }
}

/// The addresses that a walk from a root visits, and how it ends. A null root
/// is a fault.
pub open spec fn walk_from(facts: Chain<WitnessFact>, root: u64) -> (Seq<u64>, WalkEnd) {
    if root == 0 {
        (Seq::empty(), WalkEnd::Fault)
    } else {
        walked(facts, Seq::empty(), seq![root], MAX_WITNESS_INSTANCES as nat)
    }
}

/// The addresses are those that are reached from a root, each once, and the
/// root first.
pub open spec fn visits(facts: Chain<WitnessFact>, root: u64, addresses: Seq<u64>) -> bool {
    &&& addresses.len() > 0
    &&& addresses[0] == root
    &&& addresses.no_duplicates()
    &&& forall|address: u64| #[trigger]
        addresses.contains(address) <==> reached(facts, seq![root], address)
    &&& forall|address: u64| #[trigger]
        addresses.contains(address) ==> witness_at(facts, address) is Some
            && !is_unsound(facts, address)
}

/// Puts the prerequisites of a proof on the stack, the first on top.
fn push_prerequisites(prerequisites: &Vec<u64>, pending: &mut Vec<u64>)
    ensures
        final(pending)@.reverse() == prerequisites@ + old(pending)@.reverse(),
        forall|a: u64| #[trigger]
            final(pending)@.contains(a) <==> old(pending)@.contains(a)
                || prerequisites@.contains(a),
{
    let ghost begun = pending@;
    let mut i: usize = prerequisites.len();
    while i > 0
        invariant
            i <= prerequisites@.len(),
            pending@.reverse() == prerequisites@.skip(i as int) + begun.reverse(),
            forall|a: u64| #[trigger]
                pending@.contains(a) <==> begun.contains(a) || prerequisites@.skip(
                    i as int,
                ).contains(a),
        decreases i,
    {
        i = i - 1;
        let ghost before = pending@;
        pending.push(prerequisites[i]);
        proof {
            let shorter = prerequisites@.skip(i as int + 1);
            let longer = prerequisites@.skip(i as int);
            assert(longer =~= seq![prerequisites@[i as int]] + shorter);
            assert(pending@.reverse() =~= seq![prerequisites@[i as int]] + before.reverse());
            assert forall|a: u64| #[trigger]
                pending@.contains(a) <==> begun.contains(a) || longer.contains(a) by {
                assert(before.contains(a) <==> begun.contains(a) || shorter.contains(a));
                if pending@.contains(a) {
                    let k = pending@.index_of(a);
                    if k == before.len() {
                        assert(longer[0] == a);
                    } else {
                        assert(before[k] == a);
                        if shorter.contains(a) {
                            let m = shorter.index_of(a);
                            assert(longer[m + 1] == a);
                        }
                    }
                }
                if before.contains(a) {
                    let k = before.index_of(a);
                    assert(pending@[k] == a);
                }
                if longer.contains(a) {
                    let m = longer.index_of(a);
                    if m == 0 {
                        assert(pending@[before.len() as int] == a);
                    } else {
                        assert(shorter[m - 1] == a);
                    }
                }
            }
        }
    }
    assert(prerequisites@.skip(0) =~= prerequisites@);
}

fn has_null(addresses: &Vec<u64>) -> (result: bool)
    ensures
        result == addresses@.contains(0),
{
    let mut i: usize = 0;
    while i < addresses.len()
        invariant
            i <= addresses@.len(),
            forall|k: int| 0 <= k < i ==> #[trigger] addresses@[k] != 0,
        decreases addresses@.len() - i,
    {
        if addresses[i] == 0 {
            assert(addresses@[i as int] == 0);
            return true;
        }
        i = i + 1;
    }
    false
}

/// Walks over a proof and all that it rests on. Where a fault is met, what was
/// visited before is handed out.
pub fn walk_witnesses(facts: &Chain<WitnessFact>, root: u64) -> (outcome: WalkOutcome)
    ensures
        match outcome {
            WalkOutcome::Visited(addresses) => {
                &&& walk_from(*facts, root) == (addresses@, WalkEnd::Complete)
                &&& visits(*facts, root, addresses@)
                &&& addresses@.len() <= MAX_WITNESS_INSTANCES
            },
            WalkOutcome::Invalid(addresses) => {
                &&& walk_from(*facts, root) == (addresses@, WalkEnd::Fault)
                &&& cannot_walk(*facts, seq![root])
                &&& addresses@.len() <= MAX_WITNESS_INSTANCES
            },
            WalkOutcome::Needs(address) => {
                &&& walk_from(*facts, root).1 == WalkEnd::Unknown(address)
                &&& is_needed(*facts, seq![root], address)
            },
        },
{
    broadcast use vstd::std_specs::hash::group_hash_axioms;

    let ghost sources = seq![root];
    proof {
        assert(sources[0] == root);
        lemma_reached_source(*facts, sources, root);
    }
    if root == 0 {
        proof {
            assert(is_unsound(*facts, root));
        }
        return WalkOutcome::Invalid(Vec::new());
    }
    let mut seen: HashSet<u64> = HashSet::new();
    let mut visited: Vec<u64> = Vec::new();
    let mut pending: Vec<u64> = Vec::new();
    pending.push(root);
    assert(pending@[0] == root);
    assert(pending@.reverse() =~= sources);
    while pending.len() > 0
        invariant
            root != 0,
            sources == seq![root],
            visited@.len() <= MAX_WITNESS_INSTANCES,
            visited@.no_duplicates(),
            forall|a: u64| #[trigger] seen@.contains(a) <==> visited@.contains(a),
            forall|a: u64| #[trigger]
                visited@.contains(a) ==> reached(*facts, sources, a) && witness_at(*facts, a) is Some
                    && !is_unsound(*facts, a),
            forall|a: u64| #[trigger] pending@.contains(a) ==> a != 0 && reached(*facts, sources, a),
            forall|a: u64, b: u64|
                visited@.contains(a) && #[trigger] rests_on(*facts, a, b) ==> visited@.contains(b)
                    || pending@.contains(b),
            visited@.len() > 0 ==> visited@[0] == root,
            visited@.len() == 0 ==> pending@ == seq![root],
            walk_from(*facts, root) == walked(
                *facts,
                visited@,
                pending@.reverse(),
                (MAX_WITNESS_INSTANCES - visited@.len()) as nat,
            ),
        decreases MAX_WITNESS_INSTANCES - visited@.len(), pending@.len(),
    {
        let ghost before = pending@;
        let address: u64 = match pending.pop() {
            Some(address) => address,
            None => root,
        };
        proof {
            assert(before[before.len() - 1] == address);
            assert(before.contains(address));
            assert(before.reverse()[0] == address);
            assert(before.reverse().skip(1) =~= pending@.reverse());
            assert forall|a: u64| before.contains(a) implies #[trigger] pending@.contains(a) || a
                == address by {
                let k = before.index_of(a);
                if k < pending@.len() {
                    assert(pending@[k] == a);
                }
            }
            assert forall|a: u64| #[trigger] pending@.contains(a) implies before.contains(a) by {
                let k = pending@.index_of(a);
                assert(before[k] == a);
            }
        }
        if !seen.contains(&address) {
            assert(!visited@.contains(address));
            if visited.len() == MAX_WITNESS_INSTANCES {
                proof {
                    let members = visited@.push(address);
                    assert(members.no_duplicates());
                    assert forall|i: int| 0 <= i < members.len() implies reached(
                        *facts,
                        sources,
                        #[trigger] members[i],
                    ) by {
                        if i < visited@.len() {
                            assert(visited@.contains(visited@[i]));
                        }
                    }
                    assert(too_many(*facts, sources));
                }
                return WalkOutcome::Invalid(visited);
            }
            match find_witness(facts, address) {
                Some(instance) => {
                    if !instance.check_sound() {
                        proof {
                            assert(is_unsound(*facts, address));
                        }
                        return WalkOutcome::Invalid(visited);
                    }
                    if has_null(&instance.prerequisites) {
                        proof {
                            assert(rests_on(*facts, address, 0));
                            lemma_reached_further(*facts, sources, address, 0);
                            assert(is_unsound(*facts, 0));
                        }
                        visited.push(address);
                        return WalkOutcome::Invalid(visited);
                    }
                    let ghost done = visited@;
                    let ghost left = pending@;
                    seen.insert(address);
                    visited.push(address);
                    push_prerequisites(&instance.prerequisites, &mut pending);
                    proof {
                        assert forall|a: u64| #[trigger] visited@.contains(a) <==> done.contains(a)
                            || a == address by {
                            if done.contains(a) {
                                let k = done.index_of(a);
                                assert(visited@[k] == a);
                            }
                            if a == address {
                                assert(visited@[done.len() as int] == a);
                            }
                            if visited@.contains(a) && a != address {
                                let k = visited@.index_of(a);
                                assert(done[k] == a);
                            }
                        }
                        assert forall|a: u64| #[trigger] pending@.contains(a) implies a != 0
                            && reached(*facts, sources, a) by {
                            if instance.prerequisites@.contains(a) {
                                assert(rests_on(*facts, address, a));
                                lemma_reached_further(*facts, sources, address, a);
                            } else {
                                assert(left.contains(a));
                            }
                        }
                        assert forall|a: u64, b: u64|
                            visited@.contains(a) && #[trigger] rests_on(
                                *facts,
                                a,
                                b,
                            ) implies visited@.contains(b) || pending@.contains(b) by {
                            if a == address {
                                assert(instance.prerequisites@.contains(b));
                            } else {
                                assert(done.contains(a));
                                assert(done.contains(b) || before.contains(b));
                            }
                        }
                    }
                },
                None => {
                    return WalkOutcome::Needs(address);
                },
            }
        }
    }
    proof {
        assert forall|a: u64| sources.contains(a) implies #[trigger] visited@.contains(a) by {
            assert(visited@[0] == root);
        }
        assert forall|a: u64, b: u64|
            visited@.contains(a) && #[trigger] rests_on(*facts, a, b) implies visited@.contains(
            b,
        ) by {
            assert(!pending@.contains(b));
        }
        assert forall|a: u64| #[trigger] visited@.contains(a) <==> reached(
            *facts,
            sources,
            a,
        ) by {
            if reached(*facts, sources, a) {
                let steps = choose|steps: nat| reached_in(*facts, sources, a, steps);
                lemma_reached_within(*facts, sources, visited@, a, steps);
            }
        }
    }
    WalkOutcome::Visited(visited)
}

/// A proof of an arena; it rests on others by their identities.
pub struct ArenaWitness {
    pub identity: u64,
    pub descriptor: u64,
    pub prerequisites: Vec<u64>,
}

/// Proofs with identities that last.
pub struct WitnessArena {
    pub allocations: Vec<ArenaWitness>,
    /// The identity of the next proof.
    pub next: u64,
}

/// The proof became one of the arena, with the identities from `base` on.
pub open spec fn is_adopted(
    owned: OwnedWitness,
    base: u64,
    position: int,
    adopted: ArenaWitness,
) -> bool {
    &&& adopted.identity == base + position
    &&& adopted.descriptor == owned.descriptor
    &&& adopted.prerequisites@.len() == owned.prerequisites@.len()
    &&& forall|j: int|
        0 <= j < owned.prerequisites@.len() ==> #[trigger] adopted.prerequisites@[j] == base
            + owned.prerequisites@[j]
}

/// The positions in the clone are those of its proofs.
pub open spec fn staged_closed(staged: StagedWitnesses) -> bool {
    &&& forall|i: int|
        0 <= i < staged.roots@.len() ==> (#[trigger] staged.roots@[i]) < staged.allocations@.len()
    &&& forall|i: int, j: int|
        0 <= i < staged.allocations@.len() && 0 <= j
            < staged.allocations@[i].prerequisites@.len() ==> (
        #[trigger] staged.allocations@[i].prerequisites@[j]) < staged.allocations@.len()
}

/// A clone refers only to its own proofs.
pub proof fn law_clone_is_closed(
    staged: StagedWitnesses,
    facts: Chain<WitnessFact>,
    sources: Seq<u64>,
)
    requires
        staged.copies(facts, sources),
    ensures
        staged_closed(staged),
{
    let origins = choose|origins: Seq<u64>| staged.copies_with(facts, sources, origins);
    assert forall|i: int, j: int|
        0 <= i < staged.allocations@.len() && 0 <= j
            < staged.allocations@[i].prerequisites@.len() implies (
    #[trigger] staged.allocations@[i].prerequisites@[j]) < staged.allocations@.len() by {
        assert(is_copy_of(facts, origins, origins[i], staged.allocations@[i]));
    }
}

/// A clone shares what its sources share: positions are equal exactly where
/// the addresses that they stand for are.
pub proof fn law_clone_keeps_sharing(
    staged: StagedWitnesses,
    facts: Chain<WitnessFact>,
    sources: Seq<u64>,
    i: int,
    j: int,
)
    requires
        staged.copies(facts, sources),
        0 <= i < sources.len(),
        0 <= j < sources.len(),
    ensures
        staged.roots@[i] == staged.roots@[j] <==> sources[i] == sources[j],
{
    let origins = choose|origins: Seq<u64>| staged.copies_with(facts, sources, origins);
    assert(origins[staged.roots@[i] as int] == sources[i]);
    assert(origins[staged.roots@[j] as int] == sources[j]);
}

fn shifted(positions: &Vec<usize>, base: u64, Ghost(limit): Ghost<int>) -> (identities: Vec<u64>)
    requires
        base + limit <= u64::MAX,
        forall|j: int| 0 <= j < positions@.len() ==> (#[trigger] positions@[j]) < limit,
    ensures
        identities@.len() == positions@.len(),
        forall|j: int|
            0 <= j < positions@.len() ==> #[trigger] identities@[j] == base + positions@[j],
{
    let mut identities: Vec<u64> = Vec::new();
    let mut j: usize = 0;
    while j < positions.len()
        invariant
            j <= positions@.len(),
            base + limit <= u64::MAX,
            forall|k: int| 0 <= k < positions@.len() ==> (#[trigger] positions@[k]) < limit,
            identities@.len() == j,
            forall|k: int| 0 <= k < j ==> #[trigger] identities@[k] == base + positions@[k],
        decreases positions@.len() - j,
    {
        let position: usize = positions[j];
        identities.push(base + position as u64);
        j = j + 1;
    }
    identities
}

impl WitnessArena {
    /// Every proof has an identity of its own, before the next one.
    pub open spec fn wf(self) -> bool {
        &&& forall|i: int|
            0 <= i < self.allocations@.len() ==> (#[trigger] self.allocations@[i]).identity
                < self.next
        &&& forall|i: int, j: int|
            0 <= i < j < self.allocations@.len() ==> (#[trigger] self.allocations@[i]).identity
                != (#[trigger] self.allocations@[j]).identity
    }

    pub fn new() -> (arena: Self)
        ensures
            arena.wf(),
            arena.allocations@.len() == 0,
            arena.next == 0,
    {
        WitnessArena { allocations: Vec::new(), next: 0 }
    }

    pub fn len(&self) -> (length: usize)
        ensures
            length == self.allocations@.len(),
    {
        self.allocations.len()
    }

    pub fn is_empty(&self) -> (empty: bool)
        ensures
            empty == (self.allocations@.len() == 0),
    {
        self.allocations.len() == 0
    }

    /// How many prerequisites each proof has.
    pub open spec fn counts(self) -> Seq<nat> {
        Seq::new(
            self.allocations@.len(),
            |i: int| self.allocations@[i].prerequisites@.len(),
        )
    }

    pub fn allocation_bytes(&self, instance_size: usize, pointer_size: usize) -> (bytes: usize)
        ensures
            bytes == total_bytes(self.counts(), instance_size, pointer_size),
    {
        let mut bytes: usize = 0;
        let mut i: usize = 0;
        assert(self.counts().take(0) =~= Seq::<nat>::empty());
        while i < self.allocations.len()
            invariant
                i <= self.allocations@.len(),
                bytes == total_bytes(self.counts().take(i as int), instance_size, pointer_size),
            decreases self.allocations@.len() - i,
        {
            let count: usize = self.allocations[i].prerequisites.len();
            bytes = add_bytes(bytes, allocation_bytes(count, instance_size, pointer_size));
            assert(self.counts().take(i as int + 1).drop_last() =~= self.counts().take(i as int));
            i = i + 1;
        }
        assert(self.counts().take(i as int) =~= self.counts());
        bytes
    }

    /// The identities of the proofs.
    pub fn addresses(&self) -> (identities: Vec<u64>)
        ensures
            identities@.len() == self.allocations@.len(),
            forall|i: int|
                0 <= i < identities@.len() ==> #[trigger] identities@[i]
                    == self.allocations@[i].identity,
    {
        let mut identities: Vec<u64> = Vec::new();
        let mut i: usize = 0;
        while i < self.allocations.len()
            invariant
                i <= self.allocations@.len(),
                identities@.len() == i,
                forall|k: int|
                    0 <= k < i ==> #[trigger] identities@[k] == self.allocations@[k].identity,
            decreases self.allocations@.len() - i,
        {
            identities.push(self.allocations[i].identity);
            i = i + 1;
        }
        identities
    }

    /// Takes a clone in, and gives the identities of its roots.
    pub fn adopt(&mut self, staged: &StagedWitnesses) -> (roots: Vec<u64>)
        requires
            old(self).wf(),
            staged_closed(*staged),
            old(self).next + staged.allocations@.len() <= u64::MAX,
        ensures
            final(self).wf(),
            final(self).next == old(self).next + staged.allocations@.len(),
            final(self).allocations@.len() == old(self).allocations@.len()
                + staged.allocations@.len(),
            forall|i: int|
                0 <= i < old(self).allocations@.len() ==> #[trigger] final(self).allocations@[i]
                    == old(self).allocations@[i],
            forall|i: int|
                0 <= i < staged.allocations@.len() ==> is_adopted(
                    #[trigger] staged.allocations@[i],
                    old(self).next,
                    i,
                    final(self).allocations@[old(self).allocations@.len() + i],
                ),
            roots@.len() == staged.roots@.len(),
            forall|i: int|
                0 <= i < roots@.len() ==> #[trigger] roots@[i] == old(self).next
                    + staged.roots@[i],
    {
        let base: u64 = self.next;
        let ghost begun = self.allocations@;
        let ghost count = staged.allocations@.len();
        let mut i: usize = 0;
        while i < staged.allocations.len()
            invariant
                i <= staged.allocations@.len(),
                count == staged.allocations@.len(),
                staged_closed(*staged),
                base + count <= u64::MAX,
                self.next == base,
                begun == old(self).allocations@,
                base == old(self).next,
                old(self).wf(),
                self.allocations@.len() == begun.len() + i,
                forall|k: int|
                    0 <= k < begun.len() ==> #[trigger] self.allocations@[k] == begun[k],
                forall|k: int|
                    0 <= k < i ==> is_adopted(
                        #[trigger] staged.allocations@[k],
                        base,
                        k,
                        self.allocations@[begun.len() + k],
                    ),
            decreases staged.allocations@.len() - i,
        {
            let owned = &staged.allocations[i];
            proof {
                assert forall|j: int| 0 <= j < owned.prerequisites@.len() implies (
                #[trigger] owned.prerequisites@[j]) < count by {
                    assert(staged.allocations@[i as int].prerequisites@[j]
                        < staged.allocations@.len());
                }
            }
            let prerequisites = shifted(&owned.prerequisites, base, Ghost(count as int));
            self.allocations.push(
                ArenaWitness {
                    identity: base + i as u64,
                    descriptor: owned.descriptor,
                    prerequisites,
                },
            );
            i = i + 1;
        }
        let roots = shifted(&staged.roots, base, Ghost(count as int));
        self.next = base + staged.allocations.len() as u64;
        proof {
            assert forall|a: int| 0 <= a < self.allocations@.len() implies (
            #[trigger] self.allocations@[a]).identity < self.next && (a < begun.len()
                ==> self.allocations@[a].identity < base) && (a >= begun.len()
                ==> self.allocations@[a].identity == base + (a - begun.len())) by {
                if a < begun.len() {
                    assert(self.allocations@[a] == begun[a]);
                } else {
                    let k = a - begun.len();
                    assert(is_adopted(
                        staged.allocations@[k],
                        base,
                        k,
                        self.allocations@[begun.len() + k],
                    ));
                }
            }
            assert forall|a: int, b: int| 0 <= a < b < self.allocations@.len() implies (
            #[trigger] self.allocations@[a]).identity != (
            #[trigger] self.allocations@[b]).identity by {
                if b < begun.len() {
                    assert(self.allocations@[a] == begun[a]);
                    assert(self.allocations@[b] == begun[b]);
                }
            }
        }
        roots
    }

    /// Keeps the marked proofs, in order, and gives how many it dropped.
    pub fn retain_marked(&mut self, marked: &HashSet<u64>) -> (dropped: usize)
        requires
            old(self).wf(),
        ensures
            final(self).wf(),
            final(self).next == old(self).next,
            final(self).allocations@ == retained(old(self).allocations@, marked@),
            dropped == old(self).allocations@.len() - final(self).allocations@.len(),
    {
        broadcast use vstd::std_specs::hash::group_hash_axioms;

        let before: usize = self.allocations.len();
        let ghost begun = self.allocations@;
        let mut items: Vec<ArenaWitness> = Vec::new();
        std::mem::swap(&mut items, &mut self.allocations);
        let mut kept: Vec<ArenaWitness> = Vec::new();
        proof {
            assert(begun.skip(begun.len() as int) =~= Seq::<ArenaWitness>::empty());
        }
        while items.len() > 0
            invariant
                items@.len() <= begun.len(),
                items@ == begun.take(items@.len() as int),
                kept@.reverse() == retained(begun.skip(items@.len() as int), marked@),
            decreases items@.len(),
        {
            let ghost length = items@.len();
            let ghost last = items@[length - 1];
            match items.pop() {
                Some(item) => {
                    let ghost behind = kept@.reverse();
                    let keep = marked.contains(&item.identity);
                    proof {
                        assert(begun.take(length - 1) =~= begun.take(length as int).drop_last());
                        assert(begun.skip(length - 1) =~= seq![item] + begun.skip(length as int));
                        lemma_retained_first(item, begun.skip(length as int), marked@);
                    }
                    if keep {
                        let ghost earlier = kept@;
                        kept.push(item);
                        assert(kept@.reverse() =~= seq![last] + earlier.reverse());
                    } else {
                        assert(Seq::<ArenaWitness>::empty() + behind =~= behind);
                    }
                },
                None => {},
            }
        }
        proof {
            assert(begun.skip(0) =~= begun);
        }
        let ghost all = kept@.reverse();
        let mut result: Vec<ArenaWitness> = Vec::new();
        assert(result@ + kept@.reverse() =~= all);
        while kept.len() > 0
            invariant
                result@ + kept@.reverse() == all,
            decreases kept@.len(),
        {
            let ghost earlier = kept@;
            let ghost done = result@;
            match kept.pop() {
                Some(item) => {
                    assert(earlier.reverse() =~= seq![item] + kept@.reverse());
                    result.push(item);
                    assert(result@ + kept@.reverse() =~= done + earlier.reverse());
                },
                None => {},
            }
        }
        assert(result@ =~= all);
        self.allocations = result;
        proof {
            lemma_retained_len(begun, marked@);
            lemma_retained_distinct(begun, marked@, self.next);
        }
        before - self.allocations.len()
    }
}

/// The marked proofs, in order.
pub open spec fn retained(allocations: Seq<ArenaWitness>, marked: Set<u64>) -> Seq<ArenaWitness>
    decreases allocations.len(),
{
    if allocations.len() == 0 {
        Seq::empty()
    } else {
        let rest = retained(allocations.drop_first(), marked);
        if marked.contains(allocations[0].identity) {
            seq![allocations[0]] + rest
        } else {
            rest
        }
    }
}

proof fn lemma_retained_first(item: ArenaWitness, rest: Seq<ArenaWitness>, marked: Set<u64>)
    ensures
        retained(seq![item] + rest, marked) == (if marked.contains(item.identity) {
            seq![item] + retained(rest, marked)
        } else {
            retained(rest, marked)
        }),
{
    let all = seq![item] + rest;
    assert(all.drop_first() =~= rest);
    assert(all[0] == item);
}

/// The identities are below a limit, and no two are equal.
spec fn distinct(allocations: Seq<ArenaWitness>, limit: u64) -> bool {
    &&& forall|i: int|
        0 <= i < allocations.len() ==> (#[trigger] allocations[i]).identity < limit
    &&& forall|i: int, j: int|
        0 <= i < j < allocations.len() ==> (#[trigger] allocations[i]).identity != (
        #[trigger] allocations[j]).identity
}

proof fn lemma_retained_member(allocations: Seq<ArenaWitness>, marked: Set<u64>, i: int) -> (j: int)
    requires
        0 <= i < retained(allocations, marked).len(),
    ensures
        0 <= j < allocations.len(),
        allocations[j] == retained(allocations, marked)[i],
    decreases allocations.len(),
{
    let rest = allocations.drop_first();
    if marked.contains(allocations[0].identity) {
        if i == 0 {
            0
        } else {
            lemma_retained_member(rest, marked, i - 1) + 1
        }
    } else {
        lemma_retained_member(rest, marked, i) + 1
    }
}

proof fn lemma_retained_distinct(allocations: Seq<ArenaWitness>, marked: Set<u64>, limit: u64)
    requires
        distinct(allocations, limit),
    ensures
        distinct(retained(allocations, marked), limit),
    decreases allocations.len(),
{
    if allocations.len() > 0 {
        let rest = allocations.drop_first();
        let kept = retained(allocations, marked);
        let kept_rest = retained(rest, marked);
        assert forall|i: int| 0 <= i < rest.len() implies (#[trigger] rest[i]).identity
            < limit by {
            assert(rest[i] == allocations[i + 1]);
        }
        assert forall|i: int, j: int| 0 <= i < j < rest.len() implies (
        #[trigger] rest[i]).identity != (#[trigger] rest[j]).identity by {
            assert(rest[i] == allocations[i + 1]);
            assert(rest[j] == allocations[j + 1]);
        }
        lemma_retained_distinct(rest, marked, limit);
        if marked.contains(allocations[0].identity) {
            assert forall|i: int| 0 <= i < kept.len() implies (#[trigger] kept[i]).identity
                < limit by {
                if i > 0 {
                    assert(kept[i] == kept_rest[i - 1]);
                }
            }
            assert forall|i: int, j: int| 0 <= i < j < kept.len() implies (
            #[trigger] kept[i]).identity != (#[trigger] kept[j]).identity by {
                assert(kept[j] == kept_rest[j - 1]);
                if i > 0 {
                    assert(kept[i] == kept_rest[i - 1]);
                } else {
                    let at = lemma_retained_member(rest, marked, j - 1);
                    assert(rest[at] == allocations[at + 1]);
                }
            }
        }
    }
}

proof fn lemma_retained_len(allocations: Seq<ArenaWitness>, marked: Set<u64>)
    ensures
        retained(allocations, marked).len() <= allocations.len(),
    decreases allocations.len(),
{
    if allocations.len() > 0 {
        lemma_retained_len(allocations.drop_first(), marked);
    }
}

} // verus!
