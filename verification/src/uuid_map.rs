//! The identity registry: which anonymized identifier stands for which
//! original identifier, and which original identifiers have opted out.

use crate::uuid_text::{
    has_uuid_shape, is_uuid_shape, lemma_uuid_text_injective, lemma_uuid_text_shape, uuid_text,
};
use std::collections::HashSet;
use uuid::Uuid;
use vstd::hash_map::StringHashMap;
use vstd::prelude::*;
use vstd::set_lib::lemma_len_subset;

verus! {

broadcast use vstd::std_specs::hash::group_hash_axioms;

/// `Uuid::new_v4` followed by `Uuid::as_u128`: the 128 bits of a random
/// identifier. Nothing is claimed of the value.
#[verifier::external_body]
fn random_bits() -> u128 {
    Uuid::new_v4().as_u128()
}

/// `Uuid::from_u128` followed by the `Display` of `Uuid`: the big-endian
/// digits of `bits` in lower case, hyphenated in groups of 8, 4, 4, 4 and 12.
#[verifier::external_body]
fn format_bits(bits: u128) -> (text: String)
    ensures
        text@ == uuid_text(bits),
{
    Uuid::from_u128(bits).to_string()
}

/// The lines of an opt-out list that are accepted, in their order: those
/// that have the shape of an identifier.
pub open spec fn accepted_tokens(lines: Seq<Seq<char>>) -> Seq<Seq<char>>
    decreases lines.len(),
{
    if lines.len() == 0 {
        Seq::empty()
    } else if is_uuid_shape(lines.last()) {
        accepted_tokens(lines.drop_last()).push(lines.last())
    } else {
        accepted_tokens(lines.drop_last())
    }
}

/// The value `i` steps after `start`, wrapping round at the top.
spec fn probe(start: u128, i: int) -> u128 {
    ((start + i) % (u128::MAX + 1)) as u128
}

/// The first `k` values probed from `start`.
spec fn probed(start: u128, k: int) -> Set<u128> {
    Set::new(|v: u128| exists|i: int| 0 <= i < k && probe(start, i) == v)
}

proof fn lemma_probed_len(start: u128, k: int)
    requires
        0 <= k <= u128::MAX + 1,
    ensures
        probed(start, k).finite(),
        probed(start, k).len() == k,
    decreases k,
{
    if k == 0 {
        assert(probed(start, 0) =~= Set::<u128>::empty());
    } else {
        lemma_probed_len(start, k - 1);
        let last = probe(start, k - 1);
        assert(!probed(start, k - 1).contains(last));
        assert(probed(start, k) =~= probed(start, k - 1).insert(last)) by {
            assert forall|v: u128| probed(start, k).contains(v) implies probed(start, k - 1).insert(
                last,
            ).contains(v) by {
                let i = choose|i: int| 0 <= i < k && probe(start, i) == v;
                if i < k - 1 {
                    assert(probed(start, k - 1).contains(v));
                }
            }
            assert forall|v: u128| probed(start, k - 1).insert(last).contains(
                v,
            ) implies probed(start, k).contains(v) by {
                if v == last {
                    assert(probe(start, k - 1) == v);
                } else {
                    let i = choose|i: int| 0 <= i < k - 1 && probe(start, i) == v;
                    assert(0 <= i < k && probe(start, i) == v);
                }
            }
        }
    }
}

/// The registry of one run.
pub struct UuidMap {
    uuids: StringHashMap<u128>,
    issued: HashSet<u128>,
    optout: StringHashMap<bool>,
}

impl UuidMap {
    /// The anonymized identifier, as text, of each registered original
    /// identifier.
    pub closed spec fn ids(&self) -> Map<Seq<char>, Seq<char>> {
        Map::new(
            |original: Seq<char>| self.uuids@.contains_key(original),
            |original: Seq<char>| uuid_text(self.uuids@[original]),
        )
    }

    /// The original identifiers that have opted out.
    pub closed spec fn opt_outs(&self) -> Set<Seq<char>> {
        self.optout@.dom()
    }

    /// The registry's invariant: every identifier handed out is recorded as
    /// issued, and no two originals share one.
    pub closed spec fn wf(&self) -> bool {
        &&& self.issued@.finite()
        &&& self.uuids@.dom().finite()
        &&& self.optout@.dom().finite()
        &&& forall|original: Seq<char>| #[trigger]
            self.uuids@.contains_key(original) ==> self.issued@.contains(self.uuids@[original])
        &&& forall|a: Seq<char>, b: Seq<char>|
            self.uuids@.contains_key(a) && self.uuids@.contains_key(b) && self.uuids@[a]
                == self.uuids@[b] ==> a == b
    }

    /// Whether `id` is the anonymized identifier of some registered original.
    pub open spec fn issues(&self, id: Seq<char>) -> bool {
        exists|original: Seq<char>| #[trigger]
            self.ids().contains_key(original) && self.ids()[original] == id
    }

    /// What a lookup of `original` does to a registry and gives back: a known
    /// original keeps its identifier and nothing changes; an unknown one is
    /// added with an identifier that no original had before. The identifier
    /// is the hyphenated text of 128 bits.
    pub open spec fn resolved(self, original: Seq<char>, after: UuidMap, id: Seq<char>) -> bool {
        &&& after.wf()
        &&& exists|bits: u128| id == uuid_text(bits)
        &&& after.opt_outs() == self.opt_outs()
        &&& after.ids().contains_key(original)
        &&& after.ids()[original] == id
        &&& self.ids().contains_key(original) ==> after.ids() == self.ids()
        &&& !self.ids().contains_key(original) ==> after.ids() == self.ids().insert(original, id)
            && !self.issues(id)
    }

    /// Whether `after` knows every original that `self` knows, under the same
    /// identifier, with the same opt-outs.
    pub open spec fn kept_by(self, after: UuidMap) -> bool {
        &&& self.ids().submap_of(after.ids())
        &&& self.opt_outs() == after.opt_outs()
    }

    /// Whether `id` stands for a registered original that has not opted out.
    pub open spec fn vouches(&self, id: Seq<char>) -> bool {
        exists|original: Seq<char>| #[trigger]
            self.ids().contains_key(original) && self.ids()[original] == id
                && !self.opt_outs().contains(original)
    }

    /// A registry knows finitely many originals and finitely many opt-outs,
    /// so that `count` and `optout_count` are the numbers of them.
    pub proof fn lemma_finite(self)
        requires
            self.wf(),
        ensures
            self.ids().dom().finite(),
            self.opt_outs().finite(),
    {
        assert(self.ids().dom() =~= self.uuids@.dom());
    }

    /// A lookup of an original that the registry does not know makes it know
    /// one original more; a lookup of a known one leaves the number as it is.
    pub proof fn lemma_resolved_count(self, original: Seq<char>, after: UuidMap, id: Seq<char>)
        requires
            self.wf(),
            self.resolved(original, after, id),
        ensures
            after.ids().dom().len() == self.ids().dom().len() + if self.ids().contains_key(
                original,
            ) {
                0int
            } else {
                1int
            },
    {
        self.lemma_finite();
        if !self.ids().contains_key(original) {
            assert(after.ids().dom() =~= self.ids().dom().insert(original));
        }
    }

    /// Marking an original that has not opted out makes one opt-out more;
    /// marking one that has leaves the number as it is.
    pub proof fn lemma_opt_out_count(self, original: Seq<char>, after: UuidMap)
        requires
            self.wf(),
            after.opt_outs() == self.opt_outs().insert(original),
        ensures
            after.opt_outs().len() == self.opt_outs().len() + if self.opt_outs().contains(
                original,
            ) {
                0int
            } else {
                1int
            },
    {
        self.lemma_finite();
    }

    /// Every identifier that the registry has handed out has the shape of
    /// an identifier.
    pub proof fn lemma_ids_shaped(self, original: Seq<char>)
        requires
            self.ids().contains_key(original),
        ensures
            is_uuid_shape(self.ids()[original]),
    {
        lemma_uuid_text_shape(self.uuids@[original]);
    }

    /// Two different registered originals never have the same anonymized
    /// identifier.
    pub proof fn lemma_ids_injective(self, a: Seq<char>, b: Seq<char>)
        requires
            self.wf(),
            self.ids().contains_key(a),
            self.ids().contains_key(b),
            a != b,
        ensures
            self.ids()[a] != self.ids()[b],
    {
        if self.ids()[a] == self.ids()[b] {
            lemma_uuid_text_injective(self.uuids@[a], self.uuids@[b]);
        }
    }

    /// A lookup keeps what the registry knew.
    pub proof fn lemma_resolved_keeps(self, original: Seq<char>, after: UuidMap, id: Seq<char>)
        requires
            self.resolved(original, after, id),
        ensures
            self.kept_by(after),
    {
        let before = self.ids();
        let later = after.ids();
        assert forall|known: Seq<char>| #[trigger] before.dom().contains(known) implies later.dom().contains(
            known,
        ) && before[known] == later[known] by {
            if !before.contains_key(original) {
                assert(known != original);
            }
        }
    }

    /// Of two lookups in one run, whatever was looked up between them, the
    /// second gives the identifier of the first if and only if it asks for
    /// the same original, and the first original still has the identifier it
    /// was given.
    pub proof fn lemma_lookups_agree(
        self,
        first: Seq<char>,
        between: UuidMap,
        first_id: Seq<char>,
        later: UuidMap,
        second: Seq<char>,
        after: UuidMap,
        second_id: Seq<char>,
    )
        requires
            self.resolved(first, between, first_id),
            between.kept_by(later),
            later.resolved(second, after, second_id),
        ensures
            (first == second) <==> (first_id == second_id),
            after.ids().contains_key(first),
            after.ids()[first] == first_id,
    {
        later.lemma_resolved_keeps(second, after, second_id);
        between.lemma_kept_by_later(later, after);
        assert(between.ids().dom().contains(first));
        assert(after.ids().dom().contains(first));
        if first != second {
            after.lemma_ids_injective(first, second);
        }
    }

    /// An identifier that stands for an original that has not opted out
    /// stands for no original that has.
    pub proof fn lemma_vouched_not_opted_out(self, id: Seq<char>, original: Seq<char>)
        requires
            self.wf(),
            self.vouches(id),
            self.ids().contains_key(original),
            self.opt_outs().contains(original),
        ensures
            self.ids()[original] != id,
    {
        let witness = choose|witness: Seq<char>| #[trigger]
            self.ids().contains_key(witness) && self.ids()[witness] == id
                && !self.opt_outs().contains(witness);
        self.lemma_ids_injective(witness, original);
    }

    /// What a registry vouches for, a later state of it vouches for too.
    pub proof fn lemma_vouches_kept(self, after: UuidMap, id: Seq<char>)
        requires
            self.kept_by(after),
            self.vouches(id),
        ensures
            after.vouches(id),
    {
        let witness = choose|witness: Seq<char>| #[trigger]
            self.ids().contains_key(witness) && self.ids()[witness] == id
                && !self.opt_outs().contains(witness);
        assert(after.ids().contains_key(witness));
    }

    /// A state kept by a later one is kept by every state after that.
    pub proof fn lemma_kept_by_later(self, between: UuidMap, after: UuidMap)
        requires
            self.kept_by(between),
            between.kept_by(after),
        ensures
            self.kept_by(after),
    {
        let start = self.ids();
        let middle = between.ids();
        let end = after.ids();
        assert forall|original: Seq<char>| #[trigger] start.dom().contains(original) implies end.dom().contains(
            original,
        ) && start[original] == end[original] by {
            assert(start.submap_of(middle));
            assert(middle.dom().contains(original));
            assert(start[original] == middle[original]);
            assert(middle.submap_of(end));
            assert(end.dom().contains(original));
        }
    }

    /// An empty registry.
    pub fn new() -> (registry: Self)
        ensures
            registry.wf(),
            registry.ids() == Map::<Seq<char>, Seq<char>>::empty(),
            registry.opt_outs() == Set::<Seq<char>>::empty(),
            registry.ids().dom().len() == 0,
            registry.opt_outs().len() == 0,
    {
        let registry = Self {
            uuids: StringHashMap::new(),
            issued: HashSet::new(),
            optout: StringHashMap::new(),
        };
        assert(registry.ids() =~= Map::<Seq<char>, Seq<char>>::empty());
        assert(registry.opt_outs() =~= Set::<Seq<char>>::empty());
        registry
    }

    /// A value that has not been issued: `candidate` itself if it is free,
    /// else the next free value after it.
    fn next_free(&self, candidate: u128) -> (free: u128)
        requires
            self.issued@.finite(),
        ensures
            !self.issued@.contains(free),
            !self.issued@.contains(candidate) ==> free == candidate,
    {
        let issued_count = self.issued.len();
        let mut value: u128 = candidate;
        let ghost steps: int = 0;
        while self.issued.contains(&value)
            invariant
                self.issued@.finite(),
                issued_count == self.issued@.len(),
                0 <= steps <= self.issued@.len(),
                value == probe(candidate, steps),
                probed(candidate, steps).subset_of(self.issued@),
                steps > 0 ==> self.issued@.contains(candidate),
            decreases self.issued@.len() - steps,
        {
            proof {
                assert(probed(candidate, steps + 1).subset_of(self.issued@)) by {
                    assert forall|v: u128| probed(candidate, steps + 1).contains(
                        v,
                    ) implies self.issued@.contains(v) by {
                        let i = choose|i: int| 0 <= i < steps + 1 && probe(candidate, i) == v;
                        if i < steps {
                            assert(probed(candidate, steps).contains(v));
                        }
                    }
                }
                lemma_probed_len(candidate, steps + 1);
                lemma_len_subset(probed(candidate, steps + 1), self.issued@);
                assert(probe(candidate, 0) == candidate);
                steps = steps + 1;
            }
            value = if value == u128::MAX {
                0
            } else {
                value + 1
            };
        }
        value
    }

    /// Registers `uuid` if it is not yet known and returns its anonymized
    /// identifier. A known original keeps the identifier it has.
    pub fn add_uuid(&mut self, uuid: &str) -> (id: String)
        requires
            old(self).wf(),
        ensures
            old(self).resolved(uuid@, *final(self), id@),
            old(self).kept_by(*final(self)),
            final(self).ids().dom().finite(),
            final(self).ids().dom().len() == old(self).ids().dom().len() + if old(
                self,
            ).ids().contains_key(uuid@) {
                0int
            } else {
                1int
            },
    {
        proof {
            old(self).lemma_finite();
        }
        match self.uuids.get(uuid) {
            Some(bits) => {
                return format_bits(*bits);
            },
            None => {},
        }
        let bits = self.next_free(random_bits());
        let id = format_bits(bits);
        proof {
            assert(!old(self).issues(id@)) by {
                if old(self).issues(id@) {
                    let other = choose|other: Seq<char>| #[trigger]
                        old(self).ids().contains_key(other) && old(self).ids()[other] == id@;
                    lemma_uuid_text_injective(old(self).uuids@[other], bits);
                }
            }
        }
        self.uuids.insert(uuid.to_owned(), bits);
        self.issued.insert(bits);
        proof {
            assert(final(self).ids() =~= old(self).ids().insert(uuid@, id@));
        }
        id
    }

    /// The anonymized identifier of `uuid`, which is registered first if it
    /// is not yet known.
    pub fn get_uuid_as_str(&mut self, uuid: &str) -> (id: String)
        requires
            old(self).wf(),
        ensures
            old(self).resolved(uuid@, *final(self), id@),
            old(self).kept_by(*final(self)),
            final(self).ids().dom().finite(),
            final(self).ids().dom().len() == old(self).ids().dom().len() + if old(
                self,
            ).ids().contains_key(uuid@) {
                0int
            } else {
                1int
            },
    {
        self.add_uuid(uuid)
    }

    /// Marks `uuid` as opted out. Marking it again changes nothing.
    pub fn add_optout_uuid(&mut self, uuid: &str)
        requires
            old(self).wf(),
        ensures
            final(self).wf(),
            final(self).ids() == old(self).ids(),
            final(self).opt_outs() == old(self).opt_outs().insert(uuid@),
            final(self).opt_outs().finite(),
            final(self).opt_outs().len() == old(self).opt_outs().len() + if old(
                self,
            ).opt_outs().contains(uuid@) {
                0int
            } else {
                1int
            },
    {
        if !self.optout.contains_key(uuid) {
            self.optout.insert(uuid.to_owned(), true);
        }
        assert(final(self).opt_outs() =~= old(self).opt_outs().insert(uuid@));
    }

    /// Whether `uuid` has opted out.
    pub fn optout_contains(&self, uuid: &str) -> (opted_out: bool)
        ensures
            opted_out == self.opt_outs().contains(uuid@),
    {
        self.optout.contains_key(uuid)
    }

    /// Takes the lines of an opt-out list: each line that has the shape of
    /// an identifier is marked as opted out, every other line is passed over.
    /// Returns how many lines were accepted.
    pub fn read_optouts(&mut self, lines: &Vec<String>) -> (count: usize)
        requires
            old(self).wf(),
        ensures
            final(self).wf(),
            final(self).ids() == old(self).ids(),
            count == accepted_tokens(lines.deep_view()).len(),
            final(self).opt_outs() == old(self).opt_outs().union(
                accepted_tokens(lines.deep_view()).to_set(),
            ),
    {
        let mut count: usize = 0;
        let mut i: usize = 0;
        proof {
            assert(lines.deep_view().take(0) =~= Seq::<Seq<char>>::empty());
            assert(accepted_tokens(Seq::<Seq<char>>::empty()).to_set() =~= Set::<
                Seq<char>,
            >::empty());
            assert(old(self).opt_outs().union(Set::<Seq<char>>::empty()) =~= old(self).opt_outs());
        }
        while i < lines.len()
            invariant
                i <= lines.len(),
                self.wf(),
                self.ids() == old(self).ids(),
                count == accepted_tokens(lines.deep_view().take(i as int)).len(),
                count <= i,
                self.opt_outs() == old(self).opt_outs().union(
                    accepted_tokens(lines.deep_view().take(i as int)).to_set(),
                ),
            decreases lines.len() - i,
        {
            let line = lines[i].as_str();
            let ghost before = lines.deep_view().take(i as int);
            let ghost now = lines.deep_view().take(i + 1);
            proof {
                assert(now.drop_last() =~= before);
                assert(now.last() == line@);
                let seen = accepted_tokens(before);
                assert(seen.push(line@).to_set() =~= seen.to_set().insert(line@)) by {
                    assert forall|t: Seq<char>| seen.to_set().insert(line@).contains(
                        t,
                    ) implies seen.push(line@).to_set().contains(t) by {
                        if t == line@ {
                            assert(seen.push(line@)[seen.len() as int] == t);
                        } else {
                            let j = choose|j: int| 0 <= j < seen.len() && seen[j] == t;
                            assert(seen.push(line@)[j] == t);
                        }
                    }
                }
                assert(old(self).opt_outs().union(seen.to_set()).insert(line@) =~= old(
                    self,
                ).opt_outs().union(seen.to_set().insert(line@)));
            }
            if has_uuid_shape(line) {
                self.add_optout_uuid(line);
                count += 1;
            }
            i += 1;
        }
        assert(lines.deep_view().take(lines.len() as int) =~= lines.deep_view());
        count
    }

    /// How many original identifiers have opted out.
    pub fn optout_count(&self) -> (n: usize)
        ensures
            n == self.opt_outs().len(),
    {
        self.optout.len()
    }

    /// How many original identifiers are registered.
    pub fn count(&self) -> (n: usize)
        ensures
            n == self.ids().dom().len(),
    {
        assert(self.ids().dom() =~= self.uuids@.dom());
        self.uuids.len()
    }
}

} // verus!
