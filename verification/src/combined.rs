//! The cross-reference store: the cleaned persons and research records by
//! their identifiers, and for each person the research that the person
//! wrote.

use crate::errors::{CleanError, CombinedError};
use crate::json_person::{biography, display_name, opted_out, person_failure};
use crate::json_person::{PersonClean, PersonCleanView, PersonJson};
use crate::json_research::{
    all_authors_vouched, associations, author_sources, has_id, known_authors_vouched,
    names_admitted, research_record,
};
use crate::json_research::{PersonRefView, PersonType};
use crate::json_research::{ResearchClean, ResearchCleanView, ResearchJson};
use crate::uuid_map::UuidMap;
use vstd::hash_map::StringHashMap;
use vstd::prelude::*;

verus! {

/// The index of persons to research after a record with the identifier
/// `research_id` and the authors `authors` has been taken in: the identifier
/// is added, author by author, to the list of each author who is a person of
/// the institution.
pub open spec fn indexed(
    index: Map<Seq<char>, Seq<Seq<char>>>,
    authors: Seq<PersonRefView>,
    research_id: Seq<char>,
) -> Map<Seq<char>, Seq<Seq<char>>>
    decreases authors.len(),
{
    if authors.len() == 0 {
        index
    } else {
        let earlier = indexed(index, authors.drop_last(), research_id);
        let author = authors.last();
        if author.inex == PersonType::Internal {
            earlier.insert(author.uuid, written_by(earlier, author.uuid).push(research_id))
        } else {
            earlier
        }
    }
}

/// The research that an index lists for a person, none where it does not
/// know the person.
pub open spec fn written_by(index: Map<Seq<char>, Seq<Seq<char>>>, person: Seq<char>) -> Seq<
    Seq<char>,
> {
    if index.contains_key(person) {
        index[person]
    } else {
        Seq::empty()
    }
}

/// The person records of those authors for whom the store has one, in the
/// order of the authors.
pub open spec fn profiles_of(
    authors: Seq<PersonRefView>,
    persons: Map<Seq<char>, PersonCleanView>,
) -> Seq<PersonCleanView> {
    authors.filter_map(
        |author: PersonRefView|
            if persons.contains_key(author.uuid) {
                Some(persons[author.uuid])
            } else {
                None
            },
    )
}

/// The research records of those identifiers under which the store has
/// one, in the order of the identifiers.
pub open spec fn records_of(
    ids: Seq<Seq<char>>,
    research: Map<Seq<char>, ResearchCleanView>,
) -> Seq<ResearchCleanView> {
    ids.filter_map(
        |id: Seq<char>|
            if research.contains_key(id) {
                Some(research[id])
            } else {
                None
            },
    )
}

/// An index lists nobody but whom it listed before and those authors of
/// the record who are persons of the institution.
proof fn lemma_indexed_keys(
    index: Map<Seq<char>, Seq<Seq<char>>>,
    authors: Seq<PersonRefView>,
    research_id: Seq<char>,
)
    ensures
        forall|person: Seq<char>| #[trigger]
            indexed(index, authors, research_id).contains_key(person) ==> index.contains_key(
                person,
            ) || exists|i: int|
                0 <= i < authors.len() && (#[trigger] authors[i]).uuid == person && authors[i].inex
                    == PersonType::Internal,
    decreases authors.len(),
{
    if authors.len() > 0 {
        let shorter = authors.drop_last();
        lemma_indexed_keys(index, shorter, research_id);
        assert forall|person: Seq<char>| #[trigger]
            indexed(index, authors, research_id).contains_key(person) implies index.contains_key(
            person,
        ) || exists|i: int|
            0 <= i < authors.len() && (#[trigger] authors[i]).uuid == person && authors[i].inex
                == PersonType::Internal by {
            if indexed(index, shorter, research_id).contains_key(person) {
                if !index.contains_key(person) {
                    let i = choose|i: int|
                        0 <= i < shorter.len() && (#[trigger] shorter[i]).uuid == person
                            && shorter[i].inex == PersonType::Internal;
                    assert(authors[i].uuid == person && authors[i].inex == PersonType::Internal);
                }
            } else {
                let last = authors.len() - 1;
                assert(authors[last].uuid == person && authors[last].inex == PersonType::Internal);
            }
        }
    }
}

/// Taking a record in keeps every list of the index as the beginning of
/// the list that the person has afterwards.
pub proof fn lemma_indexed_extends(
    index: Map<Seq<char>, Seq<Seq<char>>>,
    authors: Seq<PersonRefView>,
    research_id: Seq<char>,
    person: Seq<char>,
)
    requires
        index.contains_key(person),
    ensures
        indexed(index, authors, research_id).contains_key(person),
        index[person].is_prefix_of(indexed(index, authors, research_id)[person]),
    decreases authors.len(),
{
    if authors.len() > 0 {
        let shorter = authors.drop_last();
        lemma_indexed_extends(index, shorter, research_id, person);
        let earlier = indexed(index, shorter, research_id);
        let later = indexed(index, authors, research_id);
        if authors.last().inex == PersonType::Internal && authors.last().uuid == person {
            assert(later[person] == earlier[person].push(research_id));
            assert(earlier[person].is_prefix_of(later[person]));
        } else {
            assert(later[person] == earlier[person]);
        }
        assert(index[person].is_prefix_of(later[person])) by {
            assert(index[person].len() <= earlier[person].len());
            assert forall|i: int| 0 <= i < index[person].len() implies index[person][i]
                == later[person][i] by {
                assert(index[person][i] == earlier[person][i]);
            }
        }
    } else {
        assert(index[person].is_prefix_of(index[person]));
    }
}

/// After a record has been taken in, the index lists it for each of its
/// authors who is a person of the institution.
pub proof fn lemma_indexed_lists_authors(
    index: Map<Seq<char>, Seq<Seq<char>>>,
    authors: Seq<PersonRefView>,
    research_id: Seq<char>,
    i: int,
)
    requires
        0 <= i < authors.len(),
        authors[i].inex == PersonType::Internal,
    ensures
        indexed(index, authors, research_id).contains_key(authors[i].uuid),
        indexed(index, authors, research_id)[authors[i].uuid].contains(research_id),
    decreases authors.len(),
{
    let shorter = authors.drop_last();
    let earlier = indexed(index, shorter, research_id);
    let later = indexed(index, authors, research_id);
    let person = authors[i].uuid;
    let last = authors.last();
    if i == authors.len() - 1 {
        let list = written_by(earlier, person).push(research_id);
        assert(later[person] == list);
        assert(list[list.len() - 1] == research_id);
    } else {
        assert(shorter[i] == authors[i]);
        lemma_indexed_lists_authors(index, shorter, research_id, i);
        let j = choose|j: int| 0 <= j < earlier[person].len() && earlier[person][j] == research_id;
        if last.inex == PersonType::Internal && last.uuid == person {
            assert(later[person] == earlier[person].push(research_id));
            assert(later[person][j] == research_id);
        } else {
            assert(later[person] == earlier[person]);
        }
    }
}

/// The store.
pub struct Combined {
    research: StringHashMap<ResearchClean>,
    persons: StringHashMap<PersonClean>,
    person_research: StringHashMap<Vec<String>>,
    research_uuids: Vec<String>,
}

impl Combined {
    /// The research records by their identifiers.
    pub closed spec fn research(&self) -> Map<Seq<char>, ResearchCleanView> {
        Map::new(
            |id: Seq<char>| self.research@.contains_key(id),
            |id: Seq<char>| self.research@[id].deep_view(),
        )
    }

    /// The person records by their identifiers.
    pub closed spec fn persons(&self) -> Map<Seq<char>, PersonCleanView> {
        Map::new(
            |id: Seq<char>| self.persons@.contains_key(id),
            |id: Seq<char>| self.persons@[id].deep_view(),
        )
    }

    /// For each person who wrote any research, the identifiers of that
    /// research in the order in which it was taken in.
    pub closed spec fn person_research(&self) -> Map<Seq<char>, Seq<Seq<char>>> {
        Map::new(
            |id: Seq<char>| self.person_research@.contains_key(id),
            |id: Seq<char>| self.person_research@[id].deep_view(),
        )
    }

    /// The store's invariant: every record is kept under its own identifier,
    /// and the identifiers of the research records are listed, each once.
    pub closed spec fn wf(&self) -> bool {
        &&& self.research@.dom().finite()
        &&& self.persons@.dom().finite()
        &&& self.person_research@.dom().finite()
        &&& self.research_uuids.deep_view().no_duplicates()
        &&& forall|id: Seq<char>|
            self.research_uuids.deep_view().contains(id) <==> self.research@.contains_key(id)
        &&& forall|id: Seq<char>| #[trigger]
            self.research@.contains_key(id) ==> self.research@[id].uuid@ == id
        &&& forall|id: Seq<char>| #[trigger]
            self.persons@.contains_key(id) ==> self.persons@[id].uuid@ == id
    }

    /// A store holds finitely many records and lists finitely many persons,
    /// so that `counts` gives the numbers of them.
    pub proof fn lemma_finite(self)
        requires
            self.wf(),
        ensures
            self.research().dom().finite(),
            self.persons().dom().finite(),
            self.person_research().dom().finite(),
    {
        assert(self.research().dom() =~= self.research@.dom());
        assert(self.persons().dom() =~= self.persons@.dom());
        assert(self.person_research().dom() =~= self.person_research@.dom());
    }

    /// Whether the store shows a person under `id`: as a person record, in
    /// the index of persons to research, or as an author of a research record.
    /// With `by_name_too` every author counts, without it only the authors who
    /// are known as persons, of the institution or outside it.
    pub open spec fn shows_person(&self, id: Seq<char>, by_name_too: bool) -> bool {
        ||| self.persons().contains_key(id)
        ||| self.person_research().contains_key(id)
        ||| exists|research_id: Seq<char>, i: int|
            self.research().contains_key(research_id) && 0 <= i
                < self.research()[research_id].persons.len()
                && #[trigger] self.research()[research_id].persons[i].uuid == id && (by_name_too
                || self.research()[research_id].persons[i].inex != PersonType::Unknown)
    }

    /// Whether every person whom the store shows stands, in `registry`, for
    /// an original that has not opted out.
    pub open spec fn clean_under(&self, registry: UuidMap, by_name_too: bool) -> bool {
        forall|id: Seq<char>| #[trigger] self.shows_person(id, by_name_too) ==> registry.vouches(id)
    }

    /// A store that is clean under a registry shows nobody who has opted
    /// out: not as a person record, not as an author, and not in the index of
    /// persons to research.
    pub proof fn lemma_opted_out_not_shown(
        self,
        registry: UuidMap,
        original: Seq<char>,
        by_name_too: bool,
    )
        requires
            registry.wf(),
            self.clean_under(registry, by_name_too),
            registry.opt_outs().contains(original),
            registry.ids().contains_key(original),
        ensures
            !self.shows_person(registry.ids()[original], by_name_too),
    {
        let id = registry.ids()[original];
        if self.shows_person(id, by_name_too) {
            registry.lemma_vouched_not_opted_out(id, original);
        }
    }

    /// A store that is clean under a registry is clean under every later
    /// state of it.
    pub proof fn lemma_clean_kept(self, registry: UuidMap, later: UuidMap, by_name_too: bool)
        requires
            self.clean_under(registry, by_name_too),
            registry.kept_by(later),
        ensures
            self.clean_under(later, by_name_too),
    {
        assert forall|id: Seq<char>| #[trigger]
            self.shows_person(id, by_name_too) implies later.vouches(id) by {
            registry.lemma_vouches_kept(later, id);
        }
    }

    /// A store stays clean when a person record is taken in whose identifier
    /// the registry vouches for.
    pub proof fn lemma_clean_with_person(
        self,
        registry: UuidMap,
        after: Combined,
        id: Seq<char>,
        by_name_too: bool,
    )
        requires
            self.clean_under(registry, by_name_too),
            registry.vouches(id),
            after.persons().dom() == self.persons().dom().insert(id),
            after.research() == self.research(),
            after.person_research() == self.person_research(),
        ensures
            after.clean_under(registry, by_name_too),
    {
        assert forall|shown: Seq<char>| #[trigger]
            after.shows_person(shown, by_name_too) implies registry.vouches(shown) by {
            if shown != id {
                assert(self.shows_person(shown, by_name_too));
            }
        }
    }

    /// A store stays clean when a research record is taken in and the
    /// registry vouches for those of its authors who count.
    pub proof fn lemma_clean_with_research(
        self,
        registry: UuidMap,
        after: Combined,
        record: ResearchCleanView,
        by_name_too: bool,
    )
        requires
            self.clean_under(registry, by_name_too),
            known_authors_vouched(record, registry),
            by_name_too ==> all_authors_vouched(record, registry),
            after.persons() == self.persons(),
            after.research() == self.research().insert(record.uuid, record),
            after.person_research() == indexed(self.person_research(), record.persons, record.uuid),
        ensures
            after.clean_under(registry, by_name_too),
    {
        lemma_indexed_keys(self.person_research(), record.persons, record.uuid);
        assert forall|shown: Seq<char>| #[trigger]
            after.shows_person(shown, by_name_too) implies registry.vouches(shown) by {
            if after.persons().contains_key(shown) {
                assert(self.shows_person(shown, by_name_too));
            } else if after.person_research().contains_key(shown) {
                if self.person_research().contains_key(shown) {
                    assert(self.shows_person(shown, by_name_too));
                } else {
                    let i = choose|i: int|
                        0 <= i < record.persons.len() && (#[trigger] record.persons[i]).uuid
                            == shown && record.persons[i].inex == PersonType::Internal;
                    assert(registry.vouches(record.persons[i].uuid));
                }
            } else {
                let (research_id, i) = choose|research_id: Seq<char>, i: int|
                    after.research().contains_key(research_id) && 0 <= i
                        < after.research()[research_id].persons.len()
                        && #[trigger] after.research()[research_id].persons[i].uuid == shown && (
                    by_name_too || after.research()[research_id].persons[i].inex
                        != PersonType::Unknown);
                if research_id == record.uuid {
                    assert(registry.vouches(record.persons[i].uuid));
                } else {
                    assert(self.research().contains_key(research_id));
                    assert(self.research()[research_id].persons[i].uuid == shown);
                    assert(self.shows_person(shown, by_name_too));
                }
            }
        }
    }

    /// After a cleaned research record has been taken in, a store that was
    /// clean still shows nobody who has opted out: not in the index of persons
    /// to research, not as a person record, and not among the authors who
    /// count.
    pub proof fn lemma_research_keeps_opted_out_hidden(
        self,
        before: UuidMap,
        registry: UuidMap,
        after: Combined,
        record: ResearchCleanView,
        original: Seq<char>,
        by_name_too: bool,
    )
        requires
            registry.wf(),
            self.clean_under(before, by_name_too),
            before.kept_by(registry),
            known_authors_vouched(record, registry),
            by_name_too ==> all_authors_vouched(record, registry),
            after.persons() == self.persons(),
            after.research() == self.research().insert(record.uuid, record),
            after.person_research() == indexed(self.person_research(), record.persons, record.uuid),
            registry.opt_outs().contains(original),
            registry.ids().contains_key(original),
        ensures
            !after.shows_person(registry.ids()[original], by_name_too),
    {
        self.lemma_clean_kept(before, registry, by_name_too);
        self.lemma_clean_with_research(registry, after, record, by_name_too);
        after.lemma_opted_out_not_shown(registry, original, by_name_too);
    }

    /// An empty store.
    pub fn new() -> (store: Self)
        ensures
            store.wf(),
            store.research() == Map::<Seq<char>, ResearchCleanView>::empty(),
            store.persons() == Map::<Seq<char>, PersonCleanView>::empty(),
            store.person_research() == Map::<Seq<char>, Seq<Seq<char>>>::empty(),
            forall|registry: UuidMap, by_name_too: bool| store.clean_under(registry, by_name_too),
    {
        let store = Self {
            research: StringHashMap::new(),
            persons: StringHashMap::new(),
            person_research: StringHashMap::new(),
            research_uuids: Vec::new(),
        };
        assert(store.research() =~= Map::<Seq<char>, ResearchCleanView>::empty());
        assert(store.persons() =~= Map::<Seq<char>, PersonCleanView>::empty());
        assert(store.person_research() =~= Map::<Seq<char>, Seq<Seq<char>>>::empty());
        store
    }

    /// How many research records the store holds, how many person records,
    /// and for how many persons it lists research.
    pub fn counts(&self) -> (counts: (usize, usize, usize))
        ensures
            counts.0 == self.research().dom().len(),
            counts.1 == self.persons().dom().len(),
            counts.2 == self.person_research().dom().len(),
    {
        assert(self.research().dom() =~= self.research@.dom());
        assert(self.persons().dom() =~= self.persons@.dom());
        assert(self.person_research().dom() =~= self.person_research@.dom());
        (self.research.len(), self.persons.len(), self.person_research.len())
    }

    /// Takes in a person record under its own identifier. A record that was
    /// there under the same identifier is replaced.
    pub fn insert_person(&mut self, record: PersonClean)
        requires
            old(self).wf(),
        ensures
            final(self).wf(),
            final(self).persons() == old(self).persons().insert(
                record.deep_view().uuid,
                record.deep_view(),
            ),
            final(self).research() == old(self).research(),
            final(self).person_research() == old(self).person_research(),
    {
        let key = record.uuid.clone();
        self.persons.insert(key, record);
        assert(final(self).persons() =~= old(self).persons().insert(
            record.deep_view().uuid,
            record.deep_view(),
        ));
        assert(final(self).research() =~= old(self).research());
        assert(final(self).person_research() =~= old(self).person_research());
    }

    /// Adds `research_id` to the list of the person `person`, which is
    /// begun if the person has none.
    fn note_author(&mut self, person: &str, research_id: &str)
        requires
            old(self).wf(),
        ensures
            final(self).wf(),
            final(self).persons() == old(self).persons(),
            final(self).research() == old(self).research(),
            final(self).person_research() == old(self).person_research().insert(
                person@,
                written_by(old(self).person_research(), person@).push(research_id@),
            ),
    {
        let mut list: Vec<String> = Vec::new();
        match self.person_research.get(person) {
            Some(known) => {
                let mut i: usize = 0;
                while i < known.len()
                    invariant
                        i <= known.len(),
                        list.deep_view() == known.deep_view().take(i as int),
                    decreases known.len() - i,
                {
                    let ghost before = list.deep_view();
                    list.push(known[i].clone());
                    assert(list.deep_view() =~= before.push(known[i as int]@));
                    assert(known.deep_view().take(i + 1) =~= before.push(known[i as int]@));
                    i += 1;
                }
                assert(known.deep_view().take(known.len() as int) =~= known.deep_view());
            },
            None => {
                assert(list.deep_view() =~= Seq::<Seq<char>>::empty());
            },
        }
        assert(list.deep_view() == written_by(old(self).person_research(), person@));
        let ghost before = list.deep_view();
        list.push(research_id.to_owned());
        assert(list.deep_view() =~= before.push(research_id@));
        self.person_research.insert(person.to_owned(), list);
        assert(final(self).person_research() =~= old(self).person_research().insert(
            person@,
            written_by(old(self).person_research(), person@).push(research_id@),
        ));
        assert(final(self).research() =~= old(self).research());
        assert(final(self).persons() =~= old(self).persons());
    }

    /// Takes in a research record under its own identifier, and adds that
    /// identifier to the list of each of its authors who is a person of the
    /// institution. A record that was there under the same identifier is
    /// replaced.
    pub fn insert_research(&mut self, record: ResearchClean)
        requires
            old(self).wf(),
        ensures
            final(self).wf(),
            final(self).research() == old(self).research().insert(
                record.deep_view().uuid,
                record.deep_view(),
            ),
            final(self).persons() == old(self).persons(),
            final(self).person_research() == indexed(
                old(self).person_research(),
                record.deep_view().persons,
                record.deep_view().uuid,
            ),
    {
        let mut i: usize = 0;
        let ghost authors = record.deep_view().persons;
        assert(authors.take(0) =~= Seq::<PersonRefView>::empty());
        while i < record.persons.len()
            invariant
                i <= record.persons.len(),
                authors == record.deep_view().persons,
                self.wf(),
                self.research() == old(self).research(),
                self.persons() == old(self).persons(),
                self.person_research() == indexed(
                    old(self).person_research(),
                    authors.take(i as int),
                    record.deep_view().uuid,
                ),
            decreases record.persons.len() - i,
        {
            proof {
                assert(authors.take(i + 1).drop_last() =~= authors.take(i as int));
                assert(authors.take(i + 1).last() == record.persons[i as int].deep_view());
            }
            if record.persons[i].is_internal() {
                self.note_author(record.persons[i].uuid.as_str(), record.uuid.as_str());
            }
            i += 1;
        }
        assert(authors.take(record.persons.len() as int) =~= authors);
        let known = self.research.contains_key(record.uuid.as_str());
        let ghost listed = self.research_uuids.deep_view();
        let ghost kept = self.research@;
        if !known {
            self.research_uuids.push(record.uuid.clone());
            proof {
                let longer = self.research_uuids.deep_view();
                assert(longer =~= listed.push(record.uuid@));
                assert(!listed.contains(record.uuid@));
                assert forall|id: Seq<char>| longer.contains(id) <==> kept.contains_key(id) || id
                    == record.uuid@ by {
                    assert(listed.contains(id) <==> kept.contains_key(id));
                    if longer.contains(id) {
                        let j = choose|j: int| 0 <= j < longer.len() && longer[j] == id;
                        if j < listed.len() {
                            assert(listed[j] == id);
                            assert(listed.contains(id));
                        } else {
                            assert(id == record.uuid@);
                        }
                    }
                    if kept.contains_key(id) {
                        assert(listed.contains(id));
                        let j = choose|j: int| 0 <= j < listed.len() && listed[j] == id;
                        assert(longer[j] == id);
                        assert(longer.contains(id));
                    }
                    if id == record.uuid@ {
                        assert(longer[listed.len() as int] == id);
                        assert(longer.contains(id));
                    }
                }
            }
        } else {
            assert(listed.contains(record.uuid@));
        }
        let key = record.uuid.clone();
        self.research.insert(key, record);
        assert(final(self).research() =~= old(self).research().insert(
            record.deep_view().uuid,
            record.deep_view(),
        ));
        assert(final(self).persons() =~= old(self).persons());
    }

    /// The person records of the authors of `record` for whom the store has
    /// one.
    fn profiles(&self, record: &ResearchClean) -> (persons: Vec<&PersonClean>)
        ensures
            persons.deep_view() == profiles_of(record.deep_view().persons, self.persons()),
    {
        let mut persons: Vec<&PersonClean> = Vec::new();
        let ghost authors = record.deep_view().persons;
        let mut i: usize = 0;
        proof {
            assert(authors.take(0) =~= Seq::<PersonRefView>::empty());
            assert(persons.deep_view() =~= profiles_of(authors.take(0), self.persons()));
        }
        while i < record.persons.len()
            invariant
                i <= record.persons.len(),
                authors == record.deep_view().persons,
                persons.deep_view() == profiles_of(authors.take(i as int), self.persons()),
            decreases record.persons.len() - i,
        {
            let ghost before = persons.deep_view();
            proof {
                assert(authors.take(i + 1).drop_last() =~= authors.take(i as int));
                assert(authors.take(i + 1).last() == record.persons[i as int].deep_view());
            }
            match self.persons.get(record.persons[i].uuid.as_str()) {
                Some(person) => {
                    persons.push(person);
                    assert(persons.deep_view() =~= before + seq![person.deep_view()]);
                },
                None => {},
            }
            i += 1;
        }
        assert(authors.take(record.persons.len() as int) =~= authors);
        persons
    }

    /// The research record kept under `uuid`, with the person records of
    /// those of its authors for whom the store has one, all as copies. An
    /// author without a person record is passed over.
    pub fn get_research_from_uuid(&self, uuid: &str) -> (found: Result<
        (ResearchClean, Vec<PersonClean>),
        CombinedError,
    >)
        ensures
            match found {
                Ok(pair) => {
                    &&& self.research().contains_key(uuid@)
                    &&& pair.0.deep_view() == self.research()[uuid@]
                    &&& pair.1.deep_view() == profiles_of(
                        self.research()[uuid@].persons,
                        self.persons(),
                    )
                },
                Err(error) => error == CombinedError::NoSuchUUID && !self.research().contains_key(
                    uuid@,
                ),
            },
    {
        let (record, persons) = match self.get_research_from_uuid_ref(uuid) {
            Ok(pair) => pair,
            Err(error) => { return Err(error); },
        };
        let mut copies: Vec<PersonClean> = Vec::new();
        let mut i: usize = 0;
        while i < persons.len()
            invariant
                i <= persons.len(),
                copies.deep_view() == persons.deep_view().take(i as int),
            decreases persons.len() - i,
        {
            let ghost before = copies.deep_view();
            copies.push(persons[i].clone());
            assert(copies.deep_view() =~= before.push(persons[i as int].deep_view()));
            assert(persons.deep_view().take(i + 1) =~= before.push(persons[i as int].deep_view()));
            i += 1;
        }
        assert(persons.deep_view().take(persons.len() as int) =~= persons.deep_view());
        Ok((record.clone(), copies))
    }

    /// The research record kept under `uuid`, with the person records of
    /// those of its authors for whom the store has one. An author without a
    /// person record is passed over.
    pub fn get_research_from_uuid_ref(&self, uuid: &str) -> (found: Result<
        (&ResearchClean, Vec<&PersonClean>),
        CombinedError,
    >)
        ensures
            match found {
                Ok(pair) => {
                    &&& self.research().contains_key(uuid@)
                    &&& pair.0.deep_view() == self.research()[uuid@]
                    &&& pair.1.deep_view() == profiles_of(
                        self.research()[uuid@].persons,
                        self.persons(),
                    )
                },
                Err(error) => error == CombinedError::NoSuchUUID && !self.research().contains_key(
                    uuid@,
                ),
            },
    {
        match self.research.get(uuid) {
            Some(record) => {
                let persons = self.profiles(record);
                Ok((record, persons))
            },
            None => Err(CombinedError::NoSuchUUID),
        }
    }

    /// The identifiers of all research records, each once. An empty store
    /// gives an empty list.
    pub fn get_all_research_uuids(&self) -> (uuids: Vec<&String>)
        requires
            self.wf(),
        ensures
            uuids.deep_view().no_duplicates(),
            uuids.deep_view().to_set() == self.research().dom(),
    {
        let mut uuids: Vec<&String> = Vec::new();
        let mut i: usize = 0;
        while i < self.research_uuids.len()
            invariant
                i <= self.research_uuids.len(),
                uuids.deep_view() == self.research_uuids.deep_view().take(i as int),
            decreases self.research_uuids.len() - i,
        {
            let ghost before = uuids.deep_view();
            uuids.push(&self.research_uuids[i]);
            assert(uuids.deep_view() =~= before.push(self.research_uuids[i as int]@));
            assert(self.research_uuids.deep_view().take(i + 1) =~= before.push(
                self.research_uuids[i as int]@,
            ));
            i += 1;
        }
        assert(self.research_uuids.deep_view().take(self.research_uuids.len() as int)
            =~= self.research_uuids.deep_view());
        assert(uuids.deep_view().to_set() =~= self.research().dom());
        uuids
    }

    /// The research records that the person `uuid` wrote, in the order in
    /// which they were taken in. A person who wrote nothing that was taken in
    /// is not known, whether the store has a person record or not.
    pub fn get_research_for_person_uuid(&self, uuid: &str) -> (found: Result<
        Vec<&ResearchClean>,
        CombinedError,
    >)
        ensures
            match found {
                Ok(records) => {
                    &&& self.person_research().contains_key(uuid@)
                    &&& records.deep_view() == records_of(
                        self.person_research()[uuid@],
                        self.research(),
                    )
                },
                Err(error) => error == CombinedError::NoSuchUUID
                    && !self.person_research().contains_key(uuid@),
            },
    {
        let ids = match self.person_research.get(uuid) {
            Some(ids) => ids,
            None => { return Err(CombinedError::NoSuchUUID); },
        };
        let mut records: Vec<&ResearchClean> = Vec::new();
        let mut i: usize = 0;
        proof {
            assert(ids.deep_view().take(0) =~= Seq::<Seq<char>>::empty());
            assert(records.deep_view() =~= records_of(ids.deep_view().take(0), self.research()));
        }
        while i < ids.len()
            invariant
                i <= ids.len(),
                records.deep_view() == records_of(ids.deep_view().take(i as int), self.research()),
            decreases ids.len() - i,
        {
            let ghost before = records.deep_view();
            proof {
                assert(ids.deep_view().take(i + 1).drop_last() =~= ids.deep_view().take(i as int));
                assert(ids.deep_view().take(i + 1).last() == ids[i as int]@);
            }
            match self.research.get(ids[i].as_str()) {
                Some(record) => {
                    records.push(record);
                    assert(records.deep_view() =~= before + seq![record.deep_view()]);
                },
                None => {},
            }
            i += 1;
        }
        assert(ids.deep_view().take(ids.len() as int) =~= ids.deep_view());
        Ok(records)
    }

    /// Cleans a raw research record for `locale` and takes it in. A record
    /// that cannot be cleaned is refused, and store and registry are left as
    /// they were. A store that is clean as to the persons it knows stays so.
    /// A store that is clean as to every author stays so too, unless an author
    /// who is known by name only has a name that has itself been marked as
    /// opted out.
    pub fn add_research(&mut self, raw: &ResearchJson, locale: &str, umap: &mut UuidMap) -> (result:
        Result<(), CleanError>)
        requires
            old(self).wf(),
            old(umap).wf(),
        ensures
            final(self).wf(),
            final(umap).wf(),
            old(umap).kept_by(*final(umap)),
            final(self).persons() == old(self).persons(),
            result is Ok <==> has_id(raw.deep_view()),
            match result {
                Ok(done) => {
                    let record = research_record(
                        raw.deep_view(),
                        locale@,
                        old(umap).opt_outs(),
                        final(umap).ids(),
                    );
                    &&& final(self).research() == old(self).research().insert(record.uuid, record)
                    &&& final(self).person_research() == indexed(
                        old(self).person_research(),
                        record.persons,
                        record.uuid,
                    )
                },
                Err(error) => {
                    &&& error == CleanError::MissingUUID
                    &&& final(self).research() == old(self).research()
                    &&& final(self).person_research() == old(self).person_research()
                    &&& final(umap).ids() == old(umap).ids()
                },
            },
            old(self).clean_under(*old(umap), false) ==> final(self).clean_under(
                *final(umap),
                false,
            ),
            old(self).clean_under(*old(umap), true) && names_admitted(
                author_sources(associations(raw.deep_view()), old(umap).opt_outs()),
                old(umap).opt_outs(),
            ) ==> final(self).clean_under(*final(umap), true),
    {
        match ResearchClean::try_from_with_locale_umap(raw, locale, umap) {
            Ok(record) => {
                let ghost cleaned = record.deep_view();
                self.insert_research(record);
                proof {
                    let sources = author_sources(
                        associations(raw.deep_view()),
                        old(umap).opt_outs(),
                    );
                    if old(self).clean_under(*old(umap), false) {
                        old(self).lemma_clean_kept(*old(umap), *umap, false);
                        old(self).lemma_clean_with_research(*umap, *self, cleaned, false);
                    }
                    if old(self).clean_under(*old(umap), true) && names_admitted(
                        sources,
                        old(umap).opt_outs(),
                    ) {
                        old(self).lemma_clean_kept(*old(umap), *umap, true);
                        old(self).lemma_clean_with_research(*umap, *self, cleaned, true);
                    }
                }
                Ok(())
            },
            Err(error) => Err(error),
        }
    }

    /// Cleans a raw person for `locale` and takes the record in. A person
    /// whose identifier has opted out gives no record and is passed over.
    /// Returns whether the person was taken in. A person who cannot be cleaned
    /// is refused. In both cases store and registry are left as they were. A
    /// clean store stays clean, whichever authors are counted.
    pub fn add_person(&mut self, raw: &PersonJson, locale: &str, umap: &mut UuidMap) -> (result:
        Result<bool, CleanError>)
        requires
            old(self).wf(),
            old(umap).wf(),
        ensures
            final(self).wf(),
            final(umap).wf(),
            old(umap).kept_by(*final(umap)),
            final(self).research() == old(self).research(),
            final(self).person_research() == old(self).person_research(),
            match result {
                Ok(taken) => {
                    &&& taken == !opted_out(raw.deep_view(), old(umap).opt_outs())
                    &&& taken ==> {
                        let record = PersonCleanView {
                            uuid: final(umap).ids()[raw.deep_view().uuid->0],
                            name: display_name(raw.deep_view()),
                            profile_info: biography(raw.deep_view(), locale@),
                        };
                        &&& person_failure(raw.deep_view()) is None
                        &&& old(umap).resolved(raw.deep_view().uuid->0, *final(umap), record.uuid)
                        &&& final(self).persons() == old(self).persons().insert(
                            record.uuid,
                            record,
                        )
                    }
                    &&& !taken ==> final(self).persons() == old(self).persons() && final(umap).ids()
                        == old(umap).ids()
                },
                Err(error) => {
                    &&& !opted_out(raw.deep_view(), old(umap).opt_outs())
                    &&& person_failure(raw.deep_view()) == Some(error)
                    &&& final(self).persons() == old(self).persons()
                    &&& final(umap).ids() == old(umap).ids()
                },
            },
            forall|by_name_too: bool|
                old(self).clean_under(*old(umap), by_name_too) ==> final(self).clean_under(
                    *final(umap),
                    by_name_too,
                ),
    {
        match PersonClean::try_from_with_locale_umap(raw, locale, umap) {
            Ok(Some(record)) => {
                let ghost cleaned = record.deep_view();
                self.insert_person(record);
                proof {
                    if old(self).clean_under(*old(umap), false) {
                        old(self).lemma_clean_kept(*old(umap), *umap, false);
                        old(self).lemma_clean_with_person(*umap, *self, cleaned.uuid, false);
                    }
                    if old(self).clean_under(*old(umap), true) {
                        old(self).lemma_clean_kept(*old(umap), *umap, true);
                        old(self).lemma_clean_with_person(*umap, *self, cleaned.uuid, true);
                    }
                }
                Ok(true)
            },
            Ok(None) => Ok(false),
            Err(error) => Err(error),
        }
    }
}

} // verus!
