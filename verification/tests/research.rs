use lucris::errors::CleanError;
use lucris::json_person::{Name as PersonName, PersonClean, PersonJson};
use lucris::json_research::{
    ExternalPerson, FormattedText, FormattedValue, Name, Person, PersonAssociation, PersonRef,
    PersonType, ResearchClean, ResearchJson, Term,
};
use lucris::locale::LocaleValue;
use lucris::uuid_map::UuidMap;
use serde_json::Value;

fn text_of(value: &Value, key: &str) -> Option<String> {
    value.get(key).and_then(|v| v.as_str()).map(|s| s.to_string())
}

fn research_from_json(data: &str) -> ResearchJson {
    let value: Value = serde_json::from_str(data).expect("Err");
    ResearchJson {
        abstract_field: None,
        personAssociations: None,
        title: value.get("title").map(|title| FormattedValue {
            formatted: title.get("formatted").and_then(|v| v.as_bool()).unwrap_or(false),
            value: text_of(title, "value").unwrap_or_default(),
        }),
        uuid: text_of(&value, "uuid"),
    }
}

fn person_ref_json_string(person: &PersonRef) -> String {
    let inex = match person.inex {
        PersonType::Internal => "Internal",
        PersonType::External => "External",
        PersonType::Unknown => "Unknown",
    };
    format!(
        "{{\"idx\":{},\"uuid\":\"{}\",\"name\":\"{}\",\"inex\":\"{}\"}}",
        person.idx, person.uuid, person.name, inex
    )
}

fn research_json_string(research: &ResearchClean) -> String {
    let persons: Vec<String> = research.persons.iter().map(person_ref_json_string).collect();
    format!(
        "{{\"uuid\":\"{}\",\"title\":\"{}\",\"abstract\":\"{}\",\"persons\":[{}]}}",
        research.get_uuid(),
        research.get_title(),
        research.get_abstract(),
        persons.join(",")
    )
}

fn entry(locale: Option<&str>, value: Option<&str>) -> LocaleValue {
    LocaleValue { locale: locale.map(|s| s.to_string()), value: value.map(|s| s.to_string()) }
}

fn named(first: Option<&str>, last: Option<&str>) -> Option<Name> {
    Some(Name { firstName: first.map(|s| s.to_string()), lastName: last.map(|s| s.to_string()) })
}

fn internal(first: &str, last: &str, uuid: &str) -> PersonAssociation {
    PersonAssociation {
        externalPerson: None,
        name: named(Some(first), Some(last)),
        person: Some(Person { uuid: Some(uuid.to_string()) }),
    }
}

fn external(name: &str, uuid: &str) -> PersonAssociation {
    PersonAssociation {
        externalPerson: Some(ExternalPerson {
            name: Some(Term { formatted: false, text: vec![entry(Some("en_GB"), Some(name))] }),
            uuid: Some(uuid.to_string()),
        }),
        name: None,
        person: None,
    }
}

fn bare(first: &str, last: &str) -> PersonAssociation {
    PersonAssociation { externalPerson: None, name: named(Some(first), Some(last)), person: None }
}

fn research(uuid: Option<&str>, associations: Option<Vec<PersonAssociation>>) -> ResearchJson {
    ResearchJson {
        abstract_field: None,
        personAssociations: associations,
        title: Some(FormattedValue { formatted: true, value: "A nice title.".to_string() }),
        uuid: uuid.map(|s| s.to_string()),
    }
}

fn shape(record: &ResearchClean) -> Vec<(usize, String, bool, PersonType)> {
    record
        .persons
        .iter()
        .map(|p| (p.idx, p.get_name().to_string(), p.is_internal(), p.inex))
        .collect()
}

#[test]
fn test_research_des_umap_ok() {
    let data = r#"
        {
          "uuid": "01234567-0123-0123-0123-0123456789AB",
          "title": {
            "formatted": true,
            "value": "A nice title."
          },
          "name": {
            "firstName": "Quinten",
            "lastName": "Berck"
          }
        }
        "#;
    let mut umap = UuidMap::new();
    // Create and save the safe_uuid so we can compare it later.
    let safe_uuid = umap.add_uuid("01234567-0123-0123-0123-0123456789AB");
    let answer = format!(
        r#"{{"uuid":"{}","title":"A nice title.","abstract":"","persons":[]}}"#,
        safe_uuid
    );
    let research = research_from_json(data);
    let research_des: ResearchClean =
        ResearchClean::try_from_with_locale_umap(&research, "en_GB", &mut umap).expect("Err");
    let research_des_jstr = research_json_string(&research_des);
    println!("{}", research_des_jstr);
    assert_eq!(research_des_jstr, answer);
}

#[test]
pub fn test_research_uuid() {
    let data = r#"
{"pureId":2940508,"uuid":"1d136ffd-6d08-444a-9c50-76c0e5aec513"}
    "#;
    let research = research_from_json(data);
    assert!(research.uuid.as_deref() == Some("1d136ffd-6d08-444a-9c50-76c0e5aec513"));
    assert!(research.get_uuid() == Some("1d136ffd-6d08-444a-9c50-76c0e5aec513"));
}

#[test]
fn a_record_without_identifier_is_refused() {
    let mut umap = UuidMap::new();
    let associations = vec![internal("Ada", "Lovelace", "A")];
    let raw = research(None, Some(associations));
    assert_eq!(
        ResearchClean::try_from_with_locale_umap(&raw, "en_GB", &mut umap).err(),
        Some(CleanError::MissingUUID)
    );
    let raw = research(Some(""), Some(vec![internal("Ada", "Lovelace", "A")]));
    assert_eq!(
        ResearchClean::try_from_with_locale_umap(&raw, "en_GB", &mut umap).err(),
        Some(CleanError::MissingUUID)
    );
    assert_eq!(umap.count(), 0);
}

#[test]
fn research_without_any_author() {
    let mut umap = UuidMap::new();
    let mut raw = research(Some("R"), None);
    raw.abstract_field = Some(FormattedText {
        formatted: true,
        text: vec![entry(Some("en_GB"), Some("An abstract."))],
    });
    let record = ResearchClean::try_from_with_locale_umap(&raw, "en_GB", &mut umap).expect("Err");
    assert_eq!(record.get_title(), "A nice title.");
    assert_eq!(record.get_abstract(), "An abstract.");
    assert!(record.persons.is_empty());
    assert_eq!(record.author_counts(), (0, 0, 0));
    assert_eq!(record.get_uuid(), umap.get_uuid_as_str("R"));
    assert_eq!(umap.count(), 1);
    let raw = research(Some("S"), Some(Vec::new()));
    let record = ResearchClean::try_from_with_locale_umap(&raw, "en_GB", &mut umap).expect("Err");
    assert!(record.persons.is_empty());
    assert_eq!(record.get_abstract(), "");
}

#[test]
fn a_record_without_title_has_an_empty_title() {
    let mut umap = UuidMap::new();
    let mut raw = research(Some("R"), None);
    raw.title = None;
    let record = ResearchClean::try_from_with_locale_umap(&raw, "en_GB", &mut umap).expect("Err");
    assert_eq!(record.get_title(), "");
    assert_eq!(record.get_abstract(), "");
    assert_eq!(raw.get_title_value(), None);
    assert_eq!(raw.get_title_abstract("en_GB"), ("", ""));
}

#[test]
fn abstract_follows_the_fallback_rule() {
    let mut raw = research(Some("R"), None);
    raw.abstract_field = Some(FormattedText {
        formatted: true,
        text: vec![
            entry(Some("sv_SE"), Some("svenska")),
            entry(Some("en"), Some("english")),
            entry(Some("en_GB"), None),
            entry(Some("en_GB"), Some("british")),
            entry(Some("fr_FR"), Some("francais")),
        ],
    });
    assert_eq!(raw.get_abstract_text_for_locale("fr_FR"), Some("francais"));
    assert_eq!(raw.get_abstract_text_for_locale("sv_SE"), Some("svenska"));
    assert_eq!(raw.get_abstract_text_for_locale("de_DE"), Some("british"));
    assert_eq!(raw.get_title_abstract("de_DE"), ("A nice title.", "british"));
    raw.abstract_field = Some(FormattedText {
        formatted: true,
        text: vec![entry(Some("sv_SE"), Some("svenska"))],
    });
    assert_eq!(raw.get_abstract_text_for_locale("fr_FR"), Some("svenska"));
    let mut umap = UuidMap::new();
    let record = ResearchClean::try_from_with_locale_umap(&raw, "fr_FR", &mut umap).expect("Err");
    assert_eq!(record.get_abstract(), "svenska");
    raw.abstract_field = Some(FormattedText { formatted: true, text: Vec::new() });
    assert_eq!(raw.get_abstract_text_for_locale("fr_FR"), None);
    assert_eq!(raw.get_uuid(), Some("R"));
}

#[test]
fn authors_are_numbered_across_the_passes() {
    let mut umap = UuidMap::new();
    let raw = research(
        Some("R"),
        Some(vec![
            external("Charles Babbage", "E1"),
            internal("Ada", "Lovelace", "A"),
            bare("Mary", "Somerville"),
            internal("Augustus", "De Morgan", "B"),
            external("Luigi Menabrea", "E2"),
        ]),
    );
    let record = ResearchClean::try_from_with_locale_umap(&raw, "en_GB", &mut umap).expect("Err");
    assert_eq!(
        shape(&record),
        vec![
            (0, "Ada Lovelace".to_string(), true, PersonType::Internal),
            (1, "Augustus De Morgan".to_string(), true, PersonType::Internal),
            (2, "Charles Babbage".to_string(), false, PersonType::External),
            (3, "Luigi Menabrea".to_string(), false, PersonType::External),
        ]
    );
    assert_eq!(record.author_counts(), (2, 2, 0));
    assert_eq!(record.persons[0].uuid, umap.get_uuid_as_str("A"));
    assert_eq!(record.persons[1].uuid, umap.get_uuid_as_str("B"));
    assert_eq!(record.persons[2].uuid, umap.get_uuid_as_str("E1"));
    assert_eq!(record.persons[3].uuid, umap.get_uuid_as_str("E2"));
    assert_eq!(record.get_uuid(), umap.get_uuid_as_str("R"));
    assert_eq!(umap.count(), 5);
}

#[test]
fn bare_names_are_the_last_resort() {
    let mut umap = UuidMap::new();
    let raw = research(
        Some("R"),
        Some(vec![
            bare("Mary", "Somerville"),
            PersonAssociation { externalPerson: None, name: named(Some("Half"), None), person: None },
            bare("Ada", "Lovelace"),
        ]),
    );
    let record = ResearchClean::try_from_with_locale_umap(&raw, "en_GB", &mut umap).expect("Err");
    assert_eq!(
        shape(&record),
        vec![
            (0, "Mary Somerville".to_string(), false, PersonType::Unknown),
            (1, "Ada Lovelace".to_string(), false, PersonType::Unknown),
        ]
    );
    assert_eq!(record.author_counts(), (0, 0, 2));
    assert_eq!(record.persons[0].uuid, umap.get_uuid_as_str("Mary Somerville"));
    assert_eq!(record.persons[1].uuid, umap.get_uuid_as_str("Ada Lovelace"));
    assert_eq!(umap.count(), 3);
}

#[test]
fn only_author_has_opted_out() {
    let mut umap = UuidMap::new();
    umap.add_optout_uuid("A");
    let raw = research(Some("R"), Some(vec![internal("Ada", "Lovelace", "A")]));
    let record = ResearchClean::try_from_with_locale_umap(&raw, "en_GB", &mut umap).expect("Err");
    assert!(record.persons.is_empty());
    assert_eq!(record.get_title(), "A nice title.");
    assert_eq!(umap.count(), 1);
    assert_eq!(record.get_uuid(), umap.get_uuid_as_str("R"));
}

#[test]
fn opted_out_authors_are_dropped_and_not_registered() {
    let mut umap = UuidMap::new();
    umap.add_optout_uuid("A");
    umap.add_optout_uuid("E1");
    let raw = research(
        Some("R"),
        Some(vec![
            internal("Ada", "Lovelace", "A"),
            external("Charles Babbage", "E1"),
            internal("Augustus", "De Morgan", "B"),
            external("Luigi Menabrea", "E2"),
        ]),
    );
    let record = ResearchClean::try_from_with_locale_umap(&raw, "en_GB", &mut umap).expect("Err");
    assert_eq!(
        shape(&record),
        vec![
            (0, "Augustus De Morgan".to_string(), true, PersonType::Internal),
            (1, "Luigi Menabrea".to_string(), false, PersonType::External),
        ]
    );
    assert_eq!(umap.count(), 3);
    let a = umap.get_uuid_as_str("A");
    let e1 = umap.get_uuid_as_str("E1");
    assert_eq!(umap.count(), 5);
    for person in &record.persons {
        assert_ne!(person.uuid, a);
        assert_ne!(person.uuid, e1);
    }
}

#[test]
fn an_association_with_both_links_is_internal_only() {
    let mut umap = UuidMap::new();
    let mut both = external("Ada L.", "E");
    both.person = Some(Person { uuid: Some("A".to_string()) });
    both.name = named(Some("Ada"), Some("Lovelace"));
    let raw = research(Some("R"), Some(vec![both]));
    let record = ResearchClean::try_from_with_locale_umap(&raw, "en_GB", &mut umap).expect("Err");
    assert_eq!(shape(&record), vec![(0, "Ada Lovelace".to_string(), true, PersonType::Internal)]);
    assert_eq!(umap.count(), 2);
}

#[test]
fn name_lists_of_a_raw_record() {
    let mut umap = UuidMap::new();
    umap.add_optout_uuid("A");
    umap.add_optout_uuid("E2");
    let mut half_external = external("No Identifier", "x");
    half_external.externalPerson.as_mut().unwrap().uuid = None;
    let mut named_external = external("Luigi Menabrea", "E2");
    named_external.name = named(Some("Luigi"), Some("Menabrea"));
    let raw = research(
        Some("R"),
        Some(vec![
            internal("Ada", "Lovelace", "A"),
            external("Charles Babbage", "E1"),
            bare("Mary", "Somerville"),
            half_external,
            internal("Augustus", "De Morgan", "B"),
            named_external,
            PersonAssociation {
                externalPerson: None,
                name: named(None, Some("Nobody")),
                person: Some(Person { uuid: Some("C".to_string()) }),
            },
        ]),
    );
    assert_eq!(
        raw.get_internal_person_names(),
        vec![("Ada", "Lovelace", "A"), ("Augustus", "De Morgan", "B")]
    );
    assert_eq!(raw.get_internal_person_names_umap(&umap), vec![("Augustus", "De Morgan", "B")]);
    assert_eq!(
        raw.get_external_person_names(),
        vec![("Charles Babbage", "E1"), ("Luigi Menabrea", "E2")]
    );
    assert_eq!(
        raw.get_names(),
        vec!["Ada Lovelace", "Mary Somerville", "Augustus De Morgan", "Luigi Menabrea"]
    );
    assert_eq!(raw.get_names_umap(&umap), vec!["Mary Somerville", "Augustus De Morgan"]);
    let empty = research(Some("R"), None);
    assert!(empty.get_internal_person_names().is_empty());
    assert!(empty.get_internal_person_names_umap(&umap).is_empty());
    assert!(empty.get_external_person_names().is_empty());
    assert!(empty.get_names().is_empty());
    assert!(empty.get_names_umap(&umap).is_empty());
}

#[test]
fn the_external_name_is_the_first_value_of_any_locale() {
    let mut umap = UuidMap::new();
    let mut association = external("unused", "E");
    association.externalPerson.as_mut().unwrap().name = Some(Term {
        formatted: false,
        text: vec![
            entry(Some("en_GB"), None),
            entry(Some("sv_SE"), Some("Karl")),
            entry(Some("en_GB"), Some("Charles")),
        ],
    });
    let raw = research(Some("R"), Some(vec![association]));
    assert_eq!(raw.get_external_person_names(), vec![("Karl", "E")]);
    let record = ResearchClean::try_from_with_locale_umap(&raw, "en_GB", &mut umap).expect("Err");
    assert_eq!(shape(&record), vec![(0, "Karl".to_string(), false, PersonType::External)]);
}

#[test]
fn a_person_has_one_identifier_as_record_and_as_author() {
    let mut umap = UuidMap::new();
    let person = PersonJson {
        educations: None,
        keywordGroups: None,
        name: Some(PersonName {
            firstName: Some("Ada".to_string()),
            lastName: Some("Lovelace".to_string()),
        }),
        profileInformations: None,
        titles: None,
        uuid: Some("A".to_string()),
    };
    let raw = research(Some("R"), Some(vec![internal("Ada", "Lovelace", "A")]));
    let first = ResearchClean::try_from_with_locale_umap(&raw, "en_GB", &mut umap).expect("Err");
    let record = PersonClean::try_from_with_locale_umap(&person, "en_GB", &mut umap)
        .expect("Err")
        .expect("the person has not opted out");
    let second = ResearchClean::try_from_with_locale_umap(&raw, "sv_SE", &mut umap).expect("Err");
    assert_eq!(first.persons[0].uuid, record.uuid);
    assert_eq!(second.persons[0].uuid, record.uuid);
    assert_eq!(first.get_uuid(), second.get_uuid());
    assert_ne!(first.get_uuid(), record.uuid);
    assert_eq!(umap.count(), 2);
}

#[test]
fn a_copy_of_a_research_record_is_the_same_record() {
    let mut umap = UuidMap::new();
    let raw = research(
        Some("R"),
        Some(vec![internal("Ada", "Lovelace", "A"), external("Charles Babbage", "E1")]),
    );
    let record = ResearchClean::try_from_with_locale_umap(&raw, "en_GB", &mut umap).expect("Err");
    let copy = record.clone();
    assert_eq!(research_json_string(&copy), research_json_string(&record));
    assert_eq!(copy.persons.len(), 2);
}
