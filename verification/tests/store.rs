use lucris::combined::Combined;
use lucris::errors::{CleanError, CombinedError};
use lucris::json_person::{Name as PersonName, PersonClean, PersonJson};
use lucris::json_research::{
    ExternalPerson, FormattedValue, Name, Person, PersonAssociation, PersonRef, PersonType,
    ResearchClean, ResearchJson, Term,
};
use lucris::locale::LocaleValue;
use lucris::uuid_map::UuidMap;

fn person(uuid: &str, first: &str, last: &str) -> PersonJson {
    PersonJson {
        educations: None,
        keywordGroups: None,
        name: Some(PersonName {
            firstName: Some(first.to_string()),
            lastName: Some(last.to_string()),
        }),
        profileInformations: None,
        titles: None,
        uuid: Some(uuid.to_string()),
    }
}

fn internal(first: &str, last: &str, uuid: &str) -> PersonAssociation {
    PersonAssociation {
        externalPerson: None,
        name: Some(Name { firstName: Some(first.to_string()), lastName: Some(last.to_string()) }),
        person: Some(Person { uuid: Some(uuid.to_string()) }),
    }
}

fn external(name: &str, uuid: &str) -> PersonAssociation {
    PersonAssociation {
        externalPerson: Some(ExternalPerson {
            name: Some(Term {
                formatted: false,
                text: vec![LocaleValue {
                    locale: Some("en_GB".to_string()),
                    value: Some(name.to_string()),
                }],
            }),
            uuid: Some(uuid.to_string()),
        }),
        name: None,
        person: None,
    }
}

fn research(uuid: &str, title: &str, associations: Vec<PersonAssociation>) -> ResearchJson {
    ResearchJson {
        abstract_field: None,
        personAssociations: Some(associations),
        title: Some(FormattedValue { formatted: false, value: title.to_string() }),
        uuid: Some(uuid.to_string()),
    }
}

fn author(idx: usize, uuid: &str, name: &str, inex: PersonType) -> PersonRef {
    PersonRef { idx, uuid: uuid.to_string(), name: name.to_string(), inex }
}

fn record(uuid: &str, title: &str, persons: Vec<PersonRef>) -> ResearchClean {
    ResearchClean {
        uuid: uuid.to_string(),
        title: title.to_string(),
        abstract_text: String::new(),
        persons,
    }
}

fn profile(uuid: &str, name: &str) -> PersonClean {
    PersonClean { uuid: uuid.to_string(), name: name.to_string(), profile_info: String::new() }
}

fn sorted(uuids: Vec<&String>) -> Vec<String> {
    let mut list: Vec<String> = uuids.into_iter().cloned().collect();
    list.sort();
    list
}

#[test]
fn an_empty_store() {
    let store = Combined::new();
    assert_eq!(store.counts(), (0, 0, 0));
    assert!(store.get_all_research_uuids().is_empty());
    assert_eq!(store.get_research_from_uuid("r1").err(), Some(CombinedError::NoSuchUUID));
    assert_eq!(store.get_research_from_uuid_ref("r1").err(), Some(CombinedError::NoSuchUUID));
    assert_eq!(store.get_research_for_person_uuid("p1").err(), Some(CombinedError::NoSuchUUID));
}

#[test]
fn lookup_of_research_with_its_persons() {
    let mut store = Combined::new();
    store.insert_person(profile("p1", "Ada Lovelace"));
    store.insert_person(profile("p3", "Mary Somerville"));
    store.insert_research(record(
        "r1",
        "Notes",
        vec![
            author(0, "p1", "Ada Lovelace", PersonType::Internal),
            author(1, "p2", "Charles Babbage", PersonType::External),
            author(2, "p3", "Mary Somerville", PersonType::Internal),
            author(3, "p1", "Ada Lovelace", PersonType::Internal),
        ],
    ));
    let (found, persons) = store.get_research_from_uuid("r1").expect("Err");
    assert_eq!(found.get_uuid(), "r1");
    assert_eq!(found.get_title(), "Notes");
    assert_eq!(found.persons.len(), 4);
    let names: Vec<&str> = persons.iter().map(|p| p.name.as_str()).collect();
    assert_eq!(names, vec!["Ada Lovelace", "Mary Somerville", "Ada Lovelace"]);
    let (found, persons) = store.get_research_from_uuid_ref("r1").expect("Err");
    assert_eq!(found.get_title(), "Notes");
    let uuids: Vec<&str> = persons.iter().map(|p| p.uuid.as_str()).collect();
    assert_eq!(uuids, vec!["p1", "p3", "p1"]);
    assert_eq!(store.get_research_from_uuid("p1").err(), Some(CombinedError::NoSuchUUID));
    assert_eq!(store.counts(), (1, 2, 2));
}

#[test]
fn the_index_lists_internal_authors_only() {
    let mut store = Combined::new();
    store.insert_research(record(
        "r1",
        "First",
        vec![
            author(0, "p1", "Ada Lovelace", PersonType::Internal),
            author(1, "p2", "Charles Babbage", PersonType::External),
            author(2, "p4", "Mary Somerville", PersonType::Unknown),
        ],
    ));
    store.insert_research(record("r2", "Second", Vec::new()));
    store.insert_research(record(
        "r3",
        "Third",
        vec![
            author(0, "p3", "Augustus De Morgan", PersonType::Internal),
            author(1, "p1", "Ada Lovelace", PersonType::Internal),
        ],
    ));
    let titles = |store: &Combined, person: &str| -> Vec<String> {
        store
            .get_research_for_person_uuid(person)
            .expect("Err")
            .iter()
            .map(|r| r.get_title().to_string())
            .collect()
    };
    assert_eq!(titles(&store, "p1"), vec!["First", "Third"]);
    assert_eq!(titles(&store, "p3"), vec!["Third"]);
    assert_eq!(store.get_research_for_person_uuid("p2").err(), Some(CombinedError::NoSuchUUID));
    assert_eq!(store.get_research_for_person_uuid("p4").err(), Some(CombinedError::NoSuchUUID));
    assert_eq!(store.get_research_for_person_uuid("r1").err(), Some(CombinedError::NoSuchUUID));
    assert_eq!(sorted(store.get_all_research_uuids()), vec!["r1", "r2", "r3"]);
    assert_eq!(store.counts(), (3, 0, 2));
}

#[test]
fn a_person_record_alone_is_not_in_the_index() {
    let mut store = Combined::new();
    store.insert_person(profile("p1", "Ada Lovelace"));
    assert_eq!(store.get_research_for_person_uuid("p1").err(), Some(CombinedError::NoSuchUUID));
    assert_eq!(store.counts(), (0, 1, 0));
}

#[test]
fn a_record_under_a_known_identifier_replaces_the_old_one() {
    let mut store = Combined::new();
    store.insert_research(record("r1", "Old", Vec::new()));
    store.insert_research(record("r1", "New", Vec::new()));
    store.insert_person(profile("p1", "Old Name"));
    store.insert_person(profile("p1", "New Name"));
    assert_eq!(sorted(store.get_all_research_uuids()), vec!["r1"]);
    let (found, _) = store.get_research_from_uuid("r1").expect("Err");
    assert_eq!(found.get_title(), "New");
    store.insert_research(record(
        "r2",
        "With author",
        vec![author(0, "p1", "New Name", PersonType::Internal)],
    ));
    let (_, persons) = store.get_research_from_uuid("r2").expect("Err");
    assert_eq!(persons.len(), 1);
    assert_eq!(persons[0].name, "New Name");
    assert_eq!(store.counts(), (2, 1, 1));
}

#[test]
fn opted_out_author_is_invisible() {
    let mut umap = UuidMap::new();
    umap.add_optout_uuid("A");
    let mut store = Combined::new();
    let raw = research("R", "Notes", vec![internal("Ada", "Lovelace", "A")]);
    assert_eq!(store.add_research(&raw, "en_GB", &mut umap), Ok(()));
    assert_eq!(store.add_person(&person("A", "Ada", "Lovelace"), "en_GB", &mut umap), Ok(false));
    assert_eq!(umap.count(), 1);
    let research_id = umap.get_uuid_as_str("R");
    let (found, persons) = store.get_research_from_uuid(&research_id).expect("Err");
    assert!(found.persons.is_empty());
    assert!(persons.is_empty());
    assert_eq!(store.get_research_for_person_uuid("A").err(), Some(CombinedError::NoSuchUUID));
    let hidden = umap.get_uuid_as_str("A");
    assert_eq!(store.get_research_for_person_uuid(&hidden).err(), Some(CombinedError::NoSuchUUID));
    assert_eq!(store.counts(), (1, 0, 0));
}

#[test]
fn a_store_built_from_raw_records() {
    let mut umap = UuidMap::new();
    umap.add_optout_uuid("B");
    let mut store = Combined::new();
    assert_eq!(store.add_person(&person("A", "Ada", "Lovelace"), "en_GB", &mut umap), Ok(true));
    assert_eq!(store.add_person(&person("B", "Bob", "Opted"), "en_GB", &mut umap), Ok(false));
    let first = research(
        "R1",
        "First",
        vec![
            internal("Ada", "Lovelace", "A"),
            internal("Bob", "Opted", "B"),
            external("Charles Babbage", "E"),
        ],
    );
    let second = research("R2", "Second", vec![internal("Bob", "Opted", "B")]);
    let third = research("R3", "Third", vec![internal("Ada", "Lovelace", "A")]);
    assert_eq!(store.add_research(&first, "en_GB", &mut umap), Ok(()));
    assert_eq!(store.add_research(&second, "en_GB", &mut umap), Ok(()));
    assert_eq!(store.add_research(&third, "en_GB", &mut umap), Ok(()));
    assert_eq!(store.counts(), (3, 1, 1));
    let ada = umap.get_uuid_as_str("A");
    let written: Vec<String> = store
        .get_research_for_person_uuid(&ada)
        .expect("Err")
        .iter()
        .map(|r| r.get_title().to_string())
        .collect();
    assert_eq!(written, vec!["First", "Third"]);
    let (found, persons) = store.get_research_from_uuid(&umap.get_uuid_as_str("R1")).expect("Err");
    let names: Vec<&str> = found.persons.iter().map(|p| p.get_name()).collect();
    assert_eq!(names, vec!["Ada Lovelace", "Charles Babbage"]);
    assert_eq!(persons.len(), 1);
    assert_eq!(persons[0].name, "Ada Lovelace");
    assert_eq!(persons[0].uuid, ada);
    let bob = umap.get_uuid_as_str("B");
    assert_eq!(store.get_research_for_person_uuid(&bob).err(), Some(CombinedError::NoSuchUUID));
    for uuid in store.get_all_research_uuids() {
        let (found, persons) = store.get_research_from_uuid_ref(uuid).expect("Err");
        assert!(found.persons.iter().all(|p| p.uuid != bob));
        assert!(persons.iter().all(|p| p.uuid != bob));
    }
    let mut expected = vec![
        umap.get_uuid_as_str("R1"),
        umap.get_uuid_as_str("R2"),
        umap.get_uuid_as_str("R3"),
    ];
    expected.sort();
    assert_eq!(sorted(store.get_all_research_uuids()), expected);
}

#[test]
fn raw_records_that_cannot_be_cleaned_change_nothing() {
    let mut umap = UuidMap::new();
    let mut store = Combined::new();
    let mut raw = research("R", "Notes", vec![internal("Ada", "Lovelace", "A")]);
    raw.uuid = None;
    assert_eq!(store.add_research(&raw, "en_GB", &mut umap), Err(CleanError::MissingUUID));
    let mut nameless = person("A", "Ada", "Lovelace");
    nameless.name = None;
    assert_eq!(
        store.add_person(&nameless, "en_GB", &mut umap),
        Err(CleanError::MissingNameField)
    );
    let mut anonymous = person("A", "Ada", "Lovelace");
    anonymous.uuid = None;
    assert_eq!(store.add_person(&anonymous, "en_GB", &mut umap), Err(CleanError::MissingUUID));
    assert_eq!(store.counts(), (0, 0, 0));
    assert_eq!(umap.count(), 0);
}
