use lucris::errors::CleanError;
use lucris::json_person::{
    Education, FormattedText, FreeKeyword, KeywordContainer, KeywordGroup, Name, PersonClean,
    PersonJson, ProfileInformation, StructuredKeyword, Term, Title,
};
use lucris::locale::LocaleValue;
use lucris::uuid_map::UuidMap;
use serde_json::Value;

fn text_of(value: &Value, key: &str) -> Option<String> {
    value.get(key).and_then(|v| v.as_str()).map(|s| s.to_string())
}

fn locale_values(value: &Value) -> Option<Vec<LocaleValue>> {
    value.get("text").and_then(|v| v.as_array()).map(|entries| {
        entries
            .iter()
            .map(|entry| LocaleValue {
                locale: text_of(entry, "locale"),
                value: text_of(entry, "value"),
            })
            .collect()
    })
}

fn formatted_text(value: &Value) -> FormattedText {
    FormattedText {
        formatted: value.get("formatted").and_then(|v| v.as_bool()),
        text: locale_values(value),
    }
}

fn person_from_json(data: &str) -> PersonJson {
    let value: Value = serde_json::from_str(data).expect("Err");
    PersonJson {
        educations: None,
        keywordGroups: None,
        name: value.get("name").map(|name| Name {
            firstName: text_of(name, "firstName"),
            lastName: text_of(name, "lastName"),
        }),
        profileInformations: value.get("profileInformations").and_then(|v| v.as_array()).map(
            |infos| {
                infos
                    .iter()
                    .map(|info| ProfileInformation { value: info.get("value").map(formatted_text) })
                    .collect()
            },
        ),
        titles: None,
        uuid: text_of(&value, "uuid"),
    }
}

fn person_json_string(person: &PersonClean) -> String {
    format!(
        "{{\"uuid\":\"{}\",\"name\":\"{}\",\"profile_info\":\"{}\"}}",
        person.uuid, person.name, person.profile_info
    )
}

fn entry(locale: Option<&str>, value: Option<&str>) -> LocaleValue {
    LocaleValue { locale: locale.map(|s| s.to_string()), value: value.map(|s| s.to_string()) }
}

fn info(entries: Vec<LocaleValue>) -> ProfileInformation {
    ProfileInformation { value: Some(FormattedText { formatted: Some(true), text: Some(entries) }) }
}

fn person(uuid: Option<&str>, first: Option<&str>, last: Option<&str>) -> PersonJson {
    PersonJson {
        educations: None,
        keywordGroups: None,
        name: Some(Name {
            firstName: first.map(|s| s.to_string()),
            lastName: last.map(|s| s.to_string()),
        }),
        profileInformations: None,
        titles: None,
        uuid: uuid.map(|s| s.to_string()),
    }
}

#[test]
fn test_person_des_ok() {
    let data = r#"
        {
          "pureId": 282828,
          "externallyManaged": true,
          "uuid": "01234567-0123-0123-0123-0123456789ABC",
          "name": {
            "firstName": "Quinten",
            "lastName": "Berck"
          }
        }
        "#;
    let person = person_from_json(data);
    let person_des: PersonClean = PersonClean::try_from(&person).expect("Err");
    let person_des_jstr = person_json_string(&person_des);
    assert_eq!(
        person_des_jstr,
        r#"{"uuid":"01234567-0123-0123-0123-0123456789ABC","name":"Quinten Berck","profile_info":""}"#
    );
}

#[test]
fn test_person_des_noname() {
    let data = r#"
        {
          "pureId": 282828,
          "externallyManaged": true,
          "uuid": "01234567-0123-0123-0123-0123456789ABC"
        }
        "#;
    let person = person_from_json(data);
    let person_des = PersonClean::try_from(&person);
    println!("{:?}", person_des); // Err(MissingNameField)
    assert!(person_des.is_err());
    assert_eq!(person_des.err(), Some(CleanError::MissingNameField));
}

#[test]
fn test_person_des_nouuid() {
    let data = r#"
        {
          "pureId": 282828,
          "externallyManaged": true,
          "name": {
            "firstName": "Quinten",
            "lastName": "Berck"
          }
        }
        "#;
    let person = person_from_json(data);
    let person_des = PersonClean::try_from(&person);
    println!("{:?}", person_des); // Err(MissingUUID)
    assert!(person_des.is_err());
    assert_eq!(person_des.err(), Some(CleanError::MissingUUID));
}

#[test]
fn test_person_des_profile_text() {
    let data = r#"
        {
          "pureId": 282828,
          "externallyManaged": true,
          "name": {
            "firstName": "Quinten",
            "lastName": "Berck"
          },
          "uuid": "01234567-0123-0123-0123-0123456789ABC",
          "profileInformations": [
            {
              "pureId": 37832137,
              "value": {
              "formatted": true,
              "text": [
                {
                  "locale": "en_GB",
                  "value": "Research Engineer, Lund University Humanities Lab"
                }
              ]
            }
           }
          ]
        }
        "#;
    let person = person_from_json(data);
    let person_des = PersonClean::try_from_with_locale(&person, "en_GB").expect("Err");
    let person_des_jstr = person_json_string(&person_des);
    assert_eq!(
        person_des_jstr,
        r#"{"uuid":"01234567-0123-0123-0123-0123456789ABC","name":"Quinten Berck","profile_info":"Research Engineer, Lund University Humanities Lab"}"#
    );
}

#[test]
fn person_with_empty_opt_out() {
    let mut umap = UuidMap::new();
    let raw = person(Some("A"), Some("Ada"), Some("Lovelace"));
    let record = PersonClean::try_from_with_locale_umap(&raw, "en_GB", &mut umap)
        .expect("Err")
        .expect("the person has not opted out");
    assert_eq!(record.name, "Ada Lovelace");
    assert_eq!(record.profile_info, "");
    assert_eq!(record.uuid, umap.get_uuid_as_str("A"));
    assert_ne!(record.uuid, "A");
    assert_eq!(umap.count(), 1);
}

#[test]
fn a_person_who_has_opted_out_gives_no_record() {
    let mut umap = UuidMap::new();
    umap.add_optout_uuid("A");
    let raw = person(Some("A"), Some("Ada"), Some("Lovelace"));
    let count = umap.count();
    let result = PersonClean::try_from_with_locale_umap(&raw, "en_GB", &mut umap);
    assert!(matches!(result, Ok(None)));
    assert_eq!(umap.count(), count);
    assert_eq!(umap.count(), 0);
    let other = person(Some("B"), Some("Bob"), Some("Byron"));
    let result = PersonClean::try_from_with_locale_umap(&other, "en_GB", &mut umap);
    assert!(matches!(result, Ok(Some(_))));
    assert_eq!(umap.count(), 1);
}

#[test]
fn opting_out_comes_before_every_other_test() {
    let mut umap = UuidMap::new();
    umap.add_optout_uuid("A");
    umap.add_optout_uuid("");
    let mut nameless = person(Some("A"), None, None);
    assert!(matches!(
        PersonClean::try_from_with_locale_umap(&nameless, "en_GB", &mut umap),
        Ok(None)
    ));
    nameless.name = None;
    assert!(matches!(
        PersonClean::try_from_with_locale_umap(&nameless, "en_GB", &mut umap),
        Ok(None)
    ));
    let empty = person(Some(""), Some("Ada"), Some("Lovelace"));
    assert!(matches!(PersonClean::try_from_with_locale_umap(&empty, "en_GB", &mut umap), Ok(None)));
    let missing = person(None, Some("Ada"), Some("Lovelace"));
    assert_eq!(
        PersonClean::try_from_with_locale_umap(&missing, "en_GB", &mut umap).err(),
        Some(CleanError::MissingUUID)
    );
    assert_eq!(umap.count(), 0);
}

#[test]
fn each_missing_field_has_its_error() {
    let mut umap = UuidMap::new();
    let mut cases: Vec<(PersonJson, CleanError)> = Vec::new();
    cases.push((person(None, Some("Ada"), Some("Lovelace")), CleanError::MissingUUID));
    cases.push((person(Some(""), Some("Ada"), Some("Lovelace")), CleanError::MissingUUID));
    cases.push((person(None, None, None), CleanError::MissingUUID));
    cases.push((person(Some("A"), None, Some("Lovelace")), CleanError::MissingFirstName));
    cases.push((person(Some("A"), None, None), CleanError::MissingFirstName));
    cases.push((person(Some("A"), Some("Ada"), None), CleanError::MissingLastName));
    let mut nameless = person(Some("A"), None, None);
    nameless.name = None;
    cases.push((nameless, CleanError::MissingNameField));
    for (raw, expected) in cases {
        assert_eq!(PersonClean::try_from(&raw).err(), Some(expected));
        assert_eq!(PersonClean::try_from_with_locale(&raw, "en_GB").err(), Some(expected));
        assert_eq!(
            PersonClean::try_from_with_locale_umap(&raw, "en_GB", &mut umap).err(),
            Some(expected)
        );
    }
    assert_eq!(umap.count(), 0);
}

#[test]
fn empty_name_parts_are_names() {
    let raw = person(Some("A"), Some(""), Some(""));
    let record = PersonClean::try_from(&raw).expect("Err");
    assert_eq!(record.name, " ");
    assert_eq!(record.uuid, "A");
}

#[test]
fn biography_follows_the_fallback_rule() {
    let mut raw = person(Some("A"), Some("Ada"), Some("Lovelace"));
    raw.profileInformations = Some(vec![
        ProfileInformation { value: None },
        info(vec![entry(Some("sv_SE"), Some("svenska")), entry(Some("en"), Some("english"))]),
        info(vec![entry(Some("en_GB"), None), entry(Some("en_GB"), Some("british"))]),
        info(vec![entry(Some("fr_FR"), Some("francais")), entry(Some("sv_SE"), Some("mer"))]),
    ]);
    let bio = |locale: &str| PersonClean::try_from_with_locale(&raw, locale).expect("Err").profile_info;
    assert_eq!(bio("fr_FR"), "francais");
    assert_eq!(bio("sv_SE"), "svenska");
    assert_eq!(bio("en_GB"), "british");
    assert_eq!(bio("en"), "english");
    assert_eq!(bio("de_DE"), "british");
    assert_eq!(bio(""), "british");
    raw.profileInformations = Some(vec![info(vec![
        entry(Some("sv_SE"), Some("svenska")),
        entry(Some("en"), Some("english")),
    ])]);
    let bio = |locale: &str| PersonClean::try_from_with_locale(&raw, locale).expect("Err").profile_info;
    assert_eq!(bio("de_DE"), "english");
    raw.profileInformations = Some(vec![info(vec![
        entry(None, None),
        entry(Some("sv_SE"), None),
        entry(None, Some("unlabelled")),
        entry(Some("sv_SE"), Some("svenska")),
    ])]);
    let bio = |locale: &str| PersonClean::try_from_with_locale(&raw, locale).expect("Err").profile_info;
    assert_eq!(bio("de_DE"), "unlabelled");
    assert_eq!(bio("sv_SE"), "svenska");
}

#[test]
fn only_swedish_requested_in_french() {
    let mut umap = UuidMap::new();
    let mut raw = person(Some("A"), Some("Ada"), Some("Lovelace"));
    raw.profileInformations = Some(vec![info(vec![entry(Some("sv_SE"), Some("Forskare"))])]);
    let record = PersonClean::try_from_with_locale_umap(&raw, "fr_FR", &mut umap)
        .expect("Err")
        .expect("the person has not opted out");
    assert_eq!(record.profile_info, "Forskare");
}

#[test]
fn biography_is_empty_without_any_value() {
    let mut raw = person(Some("A"), Some("Ada"), Some("Lovelace"));
    assert_eq!(PersonClean::try_from_with_locale(&raw, "en_GB").expect("Err").profile_info, "");
    raw.profileInformations = Some(Vec::new());
    assert_eq!(PersonClean::try_from_with_locale(&raw, "en_GB").expect("Err").profile_info, "");
    raw.profileInformations = Some(vec![
        ProfileInformation { value: None },
        ProfileInformation { value: Some(FormattedText { formatted: None, text: None }) },
        info(Vec::new()),
        info(vec![entry(Some("en_GB"), None)]),
    ]);
    assert_eq!(PersonClean::try_from_with_locale(&raw, "en_GB").expect("Err").profile_info, "");
}

#[test]
fn raw_person_getters() {
    let mut raw = person(Some("A"), Some("Ada"), Some("Lovelace"));
    assert_eq!(raw.get_uuid(), Some("A"));
    assert_eq!(raw.get_first_and_last_name(), Some(("Ada", "Lovelace")));
    assert_eq!(
        raw.get_first_and_last_name_old(),
        Some(("Ada".to_string(), "Lovelace".to_string()))
    );
    assert!(raw.get_all_education_pure_ids().is_empty());
    raw.educations = Some(vec![
        Education { pureId: Some(7) },
        Education { pureId: None },
        Education { pureId: Some(3) },
        Education { pureId: Some(7) },
    ]);
    assert_eq!(raw.get_all_education_pure_ids(), vec![7, 3, 7]);
    let half = person(None, Some("Ada"), None);
    assert_eq!(half.get_uuid(), None);
    assert_eq!(half.get_first_and_last_name(), None);
    assert_eq!(half.get_first_and_last_name_old(), None);
    let mut nameless = person(Some("A"), None, None);
    nameless.name = None;
    assert_eq!(nameless.get_first_and_last_name(), None);
}

#[test]
fn profile_texts_of_one_locale() {
    let mut raw = person(Some("A"), Some("Ada"), Some("Lovelace"));
    assert!(raw.get_profile_information_texts_for_locale("en_GB").is_empty());
    raw.profileInformations = Some(vec![
        info(vec![
            entry(Some("en_GB"), Some("one")),
            entry(Some("sv_SE"), Some("ett")),
            entry(Some("en_GB"), None),
            entry(None, Some("nowhere")),
        ]),
        ProfileInformation { value: None },
        info(vec![entry(Some("en_GB"), Some("two"))]),
    ]);
    assert_eq!(raw.get_profile_information_texts_for_locale("en_GB"), vec!["one", "two"]);
    assert_eq!(raw.get_profile_information_texts_for_locale("sv_SE"), vec!["ett"]);
    assert!(raw.get_profile_information_texts_for_locale("en").is_empty());
}

#[test]
fn title_follows_the_fallback_rule() {
    let mut raw = person(Some("A"), Some("Ada"), Some("Lovelace"));
    assert_eq!(raw.get_title_for_locale("en_GB"), None);
    raw.titles = Some(vec![
        Title { value: None },
        Title {
            value: Some(FormattedText {
                formatted: Some(false),
                text: Some(vec![entry(Some("sv_SE"), Some("Professor (sv)"))]),
            }),
        },
        Title {
            value: Some(FormattedText {
                formatted: Some(false),
                text: Some(vec![entry(Some("en_GB"), Some("Professor"))]),
            }),
        },
    ]);
    assert_eq!(raw.get_title_for_locale("en_GB"), Some("Professor".to_string()));
    assert_eq!(raw.get_title_for_locale("sv_SE"), Some("Professor (sv)".to_string()));
    assert_eq!(raw.get_title_for_locale("fr_FR"), Some("Professor".to_string()));
}

#[test]
fn keywords_of_one_locale() {
    let mut raw = person(Some("A"), Some("Ada"), Some("Lovelace"));
    assert!(raw.get_keywords_for_locale("en_GB").is_empty());
    let free = |locale: Option<&str>, words: Option<Vec<&str>>| FreeKeyword {
        freeKeywords: words.map(|w| w.iter().map(|s| s.to_string()).collect()),
        locale: locale.map(|s| s.to_string()),
        pureId: None,
    };
    let structured = |entries: Vec<LocaleValue>| StructuredKeyword {
        term: Some(Term { formatted: Some(false), text: Some(entries) }),
    };
    raw.keywordGroups = Some(vec![
        KeywordGroup { keywordContainers: None },
        KeywordGroup {
            keywordContainers: Some(vec![
                KeywordContainer {
                    freeKeywords: Some(vec![
                        free(Some("en_GB"), Some(vec!["engines", "numbers"])),
                        free(Some("sv_SE"), Some(vec!["maskiner"])),
                        free(Some("en_GB"), None),
                        free(None, Some(vec!["nowhere"])),
                        free(Some("en_GB"), Some(vec!["notes"])),
                    ]),
                    structuredKeyword: Some(structured(vec![
                        entry(Some("en_GB"), Some("Mathematics")),
                        entry(Some("sv_SE"), Some("Matematik")),
                    ])),
                },
                KeywordContainer {
                    freeKeywords: None,
                    structuredKeyword: Some(StructuredKeyword { term: None }),
                },
            ]),
        },
        KeywordGroup {
            keywordContainers: Some(vec![KeywordContainer {
                freeKeywords: Some(Vec::new()),
                structuredKeyword: Some(structured(vec![
                    entry(Some("en_GB"), None),
                    entry(Some("en_GB"), Some("Computing")),
                ])),
            }]),
        },
    ]);
    assert_eq!(
        raw.get_keywords_for_locale("en_GB"),
        vec!["engines", "numbers", "notes", "Mathematics", "Computing"]
    );
    assert_eq!(raw.get_keywords_for_locale("sv_SE"), vec!["maskiner", "Matematik"]);
    assert!(raw.get_keywords_for_locale("en").is_empty());
}

#[test]
fn a_copy_of_a_person_record_is_the_same_record() {
    let raw = person(Some("A"), Some("Ada"), Some("Lovelace"));
    let record = PersonClean::try_from(&raw).expect("Err");
    let copy = record.clone();
    assert_eq!(copy.uuid, record.uuid);
    assert_eq!(copy.name, record.name);
    assert_eq!(copy.profile_info, record.profile_info);
}
