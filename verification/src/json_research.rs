//! Research outputs: the raw record as the source supplies it, the cleaned
//! record that is kept, and the author lists taken from the raw record.

#![allow(non_snake_case)]

use crate::errors::CleanError;
use crate::locale::{find_value, first_value, select_text, selected_text, text_or_empty};
use crate::locale::{lemma_first_value_at, lemma_first_value_some};
use crate::locale::{LocaleEntry, LocaleValue};
use crate::text::{full_name, spec_full_name};
use crate::uuid_map::UuidMap;
use vstd::prelude::*;

verus! {

/// A text in several locales.
pub struct FormattedText {
    pub formatted: bool,
    pub text: Vec<LocaleValue>,
}

/// What a `FormattedText` holds.
pub struct FormattedTextView {
    pub formatted: bool,
    pub text: Seq<LocaleEntry>,
}

impl DeepView for FormattedText {
    type V = FormattedTextView;

    open spec fn deep_view(&self) -> FormattedTextView {
        FormattedTextView { formatted: self.formatted, text: self.text.deep_view() }
    }
}

/// A text without a locale.
pub struct FormattedValue {
    pub formatted: bool,
    pub value: String,
}

/// What a `FormattedValue` holds.
pub struct FormattedValueView {
    pub formatted: bool,
    pub value: Seq<char>,
}

impl DeepView for FormattedValue {
    type V = FormattedValueView;

    open spec fn deep_view(&self) -> FormattedValueView {
        FormattedValueView { formatted: self.formatted, value: self.value@ }
    }
}

/// A term in several locales.
pub struct Term {
    pub formatted: bool,
    pub text: Vec<LocaleValue>,
}

/// What a `Term` holds.
pub struct TermView {
    pub formatted: bool,
    pub text: Seq<LocaleEntry>,
}

impl DeepView for Term {
    type V = TermView;

    open spec fn deep_view(&self) -> TermView {
        TermView { formatted: self.formatted, text: self.text.deep_view() }
    }
}

/// The two parts of a person's name.
pub struct Name {
    pub firstName: Option<String>,
    pub lastName: Option<String>,
}

/// What a `Name` holds.
pub struct NameView {
    pub firstName: Option<Seq<char>>,
    pub lastName: Option<Seq<char>>,
}

impl DeepView for Name {
    type V = NameView;

    open spec fn deep_view(&self) -> NameView {
        NameView { firstName: self.firstName.deep_view(), lastName: self.lastName.deep_view() }
    }
}

/// The link of an association to a person of the institution.
pub struct Person {
    pub uuid: Option<String>,
}

/// What a `Person` holds.
pub struct PersonView {
    pub uuid: Option<Seq<char>>,
}

impl DeepView for Person {
    type V = PersonView;

    open spec fn deep_view(&self) -> PersonView {
        PersonView { uuid: self.uuid.deep_view() }
    }
}

/// The reference of an association to a person outside the institution.
pub struct ExternalPerson {
    pub name: Option<Term>,
    pub uuid: Option<String>,
}

/// What an `ExternalPerson` holds.
pub struct ExternalPersonView {
    pub name: Option<TermView>,
    pub uuid: Option<Seq<char>>,
}

impl DeepView for ExternalPerson {
    type V = ExternalPersonView;

    open spec fn deep_view(&self) -> ExternalPersonView {
        ExternalPersonView { name: self.name.deep_view(), uuid: self.uuid.deep_view() }
    }
}

/// One person associated with a research output.
pub struct PersonAssociation {
    pub externalPerson: Option<ExternalPerson>,
    pub name: Option<Name>,
    pub person: Option<Person>,
}

/// What a `PersonAssociation` holds.
pub struct PersonAssociationView {
    pub externalPerson: Option<ExternalPersonView>,
    pub name: Option<NameView>,
    pub person: Option<PersonView>,
}

impl DeepView for PersonAssociation {
    type V = PersonAssociationView;

    open spec fn deep_view(&self) -> PersonAssociationView {
        PersonAssociationView {
            externalPerson: self.externalPerson.deep_view(),
            name: self.name.deep_view(),
            person: self.person.deep_view(),
        }
    }
}

/// A research output as the source supplies it, as far as it is read here.
pub struct ResearchJson {
    pub abstract_field: Option<FormattedText>,
    pub personAssociations: Option<Vec<PersonAssociation>>,
    pub title: Option<FormattedValue>,
    pub uuid: Option<String>,
}

/// What a `ResearchJson` holds.
pub struct ResearchJsonView {
    pub abstract_field: Option<FormattedTextView>,
    pub personAssociations: Option<Seq<PersonAssociationView>>,
    pub title: Option<FormattedValueView>,
    pub uuid: Option<Seq<char>>,
}

impl DeepView for ResearchJson {
    type V = ResearchJsonView;

    open spec fn deep_view(&self) -> ResearchJsonView {
        ResearchJsonView {
            abstract_field: self.abstract_field.deep_view(),
            personAssociations: self.personAssociations.deep_view(),
            title: self.title.deep_view(),
            uuid: self.uuid.deep_view(),
        }
    }
}

/// The associations of a record, none where the record has no list of them.
pub open spec fn associations(raw: ResearchJsonView) -> Seq<PersonAssociationView> {
    match raw.personAssociations {
        Some(list) => list,
        None => Seq::empty(),
    }
}

/// The first name, last name and identifier of an association that has a
/// name in two parts and a link to a person of the institution.
pub open spec fn internal_name(association: PersonAssociationView) -> Option<
    (Seq<char>, Seq<char>, Seq<char>),
> {
    if association.name is Some && association.name->0.firstName is Some
        && association.name->0.lastName is Some && association.person is Some
        && association.person->0.uuid is Some {
        Some(
            (
                association.name->0.firstName->0,
                association.name->0.lastName->0,
                association.person->0.uuid->0,
            ),
        )
    } else {
        None
    }
}

/// The name and identifier of an association that refers to a person
/// outside the institution: the first value of that person's name, and the
/// person's identifier.
pub open spec fn external_name(association: PersonAssociationView) -> Option<
    (Seq<char>, Seq<char>),
> {
    if association.externalPerson is Some && association.externalPerson->0.name is Some
        && first_value(association.externalPerson->0.name->0.text, None) is Some
        && association.externalPerson->0.uuid is Some {
        Some(
            (
                first_value(association.externalPerson->0.name->0.text, None)->0,
                association.externalPerson->0.uuid->0,
            ),
        )
    } else {
        None
    }
}

/// The display name of an association that has a name in two parts.
pub open spec fn plain_name(association: PersonAssociationView) -> Option<Seq<char>> {
    if association.name is Some && association.name->0.firstName is Some
        && association.name->0.lastName is Some {
        Some(spec_full_name(association.name->0.firstName->0, association.name->0.lastName->0))
    } else {
        None
    }
}

/// The identifier by which an association can be held against the
/// opt-outs: that of the linked person, else that of the person outside, else
/// the empty text.
pub open spec fn resolvable_id(association: PersonAssociationView) -> Seq<char> {
    if association.person is Some && association.person->0.uuid is Some {
        association.person->0.uuid->0
    } else if association.externalPerson is Some && association.externalPerson->0.uuid is Some {
        association.externalPerson->0.uuid->0
    } else {
        Seq::empty()
    }
}

/// The display name of an association that has a name in two parts and
/// whose resolvable identifier has not opted out.
pub open spec fn admitted_name(association: PersonAssociationView, opt_outs: Set<Seq<char>>) -> Option<
    Seq<char>,
> {
    if opt_outs.contains(resolvable_id(association)) {
        None
    } else {
        plain_name(association)
    }
}

/// The internal names of all associations, in their order.
pub open spec fn internal_person_names(list: Seq<PersonAssociationView>) -> Seq<
    (Seq<char>, Seq<char>, Seq<char>),
> {
    list.filter_map(|association: PersonAssociationView| internal_name(association))
}

/// The internal names of the associations whose person has not opted out.
pub open spec fn internal_person_names_without(
    list: Seq<PersonAssociationView>,
    opt_outs: Set<Seq<char>>,
) -> Seq<(Seq<char>, Seq<char>, Seq<char>)> {
    list.filter_map(
        |association: PersonAssociationView|
            match internal_name(association) {
                Some(name) => if opt_outs.contains(name.2) {
                    None
                } else {
                    Some(name)
                },
                None => None,
            },
    )
}

/// The external names of all associations, in their order.
pub open spec fn external_person_names(list: Seq<PersonAssociationView>) -> Seq<
    (Seq<char>, Seq<char>),
> {
    list.filter_map(|association: PersonAssociationView| external_name(association))
}

/// The display names of all associations that have a name in two parts.
pub open spec fn plain_names(list: Seq<PersonAssociationView>) -> Seq<Seq<char>> {
    list.filter_map(|association: PersonAssociationView| plain_name(association))
}

/// The display names of the associations that have a name in two parts and
/// whose resolvable identifier has not opted out.
pub open spec fn admitted_names(list: Seq<PersonAssociationView>, opt_outs: Set<Seq<char>>) -> Seq<
    Seq<char>,
> {
    list.filter_map(|association: PersonAssociationView| admitted_name(association, opt_outs))
}

/// The entries of the title of a record: the title comes as one value
/// without a locale.
pub open spec fn title_entries(raw: ResearchJsonView) -> Seq<LocaleEntry> {
    match raw.title {
        Some(title) => seq![LocaleEntry { locale: None, value: Some(title.value) }],
        None => Seq::empty(),
    }
}

/// The title of a record chosen for `locale` by the fallback rule, empty
/// where the record has none.
pub open spec fn title_text(raw: ResearchJsonView, locale: Seq<char>) -> Seq<char> {
    text_or_empty(title_entries(raw), locale)
}

/// Whatever locale is asked for, the title of a record is the one value
/// that it comes with.
pub proof fn lemma_title_text(raw: ResearchJsonView, locale: Seq<char>)
    ensures
        title_text(raw, locale) == match raw.title {
            Some(title) => title.value,
            None => Seq::empty(),
        },
{
    let entries = title_entries(raw);
    lemma_first_value_some(entries, Some(locale));
    lemma_first_value_some(entries, Some("en_GB"@));
    lemma_first_value_some(entries, Some("en"@));
    if raw.title is Some {
        lemma_first_value_at(entries, None, 0);
    } else {
        lemma_first_value_some(entries, None);
    }
}

/// The abstract of a record chosen for `locale`, if it has any.
pub open spec fn abstract_text(raw: ResearchJsonView, locale: Seq<char>) -> Option<Seq<char>> {
    match raw.abstract_field {
        Some(field) => selected_text(field.text, locale),
        None => None,
    }
}

/// The abstract of a record chosen for `locale`, empty where it has none.
pub open spec fn abstract_or_empty(raw: ResearchJsonView, locale: Seq<char>) -> Seq<char> {
    match raw.abstract_field {
        Some(field) => text_or_empty(field.text, locale),
        None => Seq::empty(),
    }
}

impl PersonAssociation {
    fn internal_name(&self) -> (found: Option<(&str, &str, &str)>)
        ensures
            found.deep_view() == internal_name(self.deep_view()),
    {
        let name = match &self.name {
            Some(name) => name,
            None => { return None; },
        };
        let first = match &name.firstName {
            Some(first) => first,
            None => { return None; },
        };
        let last = match &name.lastName {
            Some(last) => last,
            None => { return None; },
        };
        let person = match &self.person {
            Some(person) => person,
            None => { return None; },
        };
        match &person.uuid {
            Some(uuid) => Some((first.as_str(), last.as_str(), uuid.as_str())),
            None => None,
        }
    }

    fn external_name(&self) -> (found: Option<(&str, &str)>)
        ensures
            found.deep_view() == external_name(self.deep_view()),
    {
        let external = match &self.externalPerson {
            Some(external) => external,
            None => { return None; },
        };
        let term = match &external.name {
            Some(term) => term,
            None => { return None; },
        };
        let name = match find_value(&term.text, None) {
            Some(name) => name,
            None => { return None; },
        };
        match &external.uuid {
            Some(uuid) => Some((name, uuid.as_str())),
            None => None,
        }
    }

    fn plain_name(&self) -> (found: Option<String>)
        ensures
            found.deep_view() == plain_name(self.deep_view()),
    {
        let name = match &self.name {
            Some(name) => name,
            None => { return None; },
        };
        match (&name.firstName, &name.lastName) {
            (Some(first), Some(last)) => Some(full_name(first.as_str(), last.as_str())),
            _ => None,
        }
    }

    fn resolvable_id(&self) -> (id: &str)
        ensures
            id@ == resolvable_id(self.deep_view()),
    {
        match &self.person {
            Some(person) => match &person.uuid {
                Some(uuid) => { return uuid.as_str(); },
                None => {},
            },
            None => {},
        }
        match &self.externalPerson {
            Some(external) => match &external.uuid {
                Some(uuid) => { return uuid.as_str(); },
                None => {},
            },
            None => {},
        }
        proof {
            reveal_strlit("");
            assert(""@ =~= Seq::<char>::empty());
        }
        ""
    }
}

impl ResearchJson {
    /// The identifier of the record.
    pub fn get_uuid(&self) -> (uuid: Option<&str>)
        ensures
            uuid.deep_view() == self.deep_view().uuid,
    {
        match &self.uuid {
            Some(uuid) => Some(uuid.as_str()),
            None => None,
        }
    }

    /// The title of the record.
    pub fn get_title_value(&self) -> (title: Option<&str>)
        ensures
            title.deep_view() == match self.deep_view().title {
                Some(title) => Some(title.value),
                None => None,
            },
    {
        match &self.title {
            Some(title) => Some(title.value.as_str()),
            None => None,
        }
    }

    /// The abstract of the record chosen for `locale`, by the fallback rule.
    pub fn get_abstract_text_for_locale(&self, locale: &str) -> (text: Option<&str>)
        ensures
            text.deep_view() == abstract_text(self.deep_view(), locale@),
    {
        match &self.abstract_field {
            Some(field) => select_text(&field.text, locale),
            None => None,
        }
    }

    /// First name, last name and identifier of each association that has a
    /// name in two parts and a link to a person of the institution.
    pub fn get_internal_person_names(&self) -> (names: Vec<(&str, &str, &str)>)
        ensures
            names.deep_view() == internal_person_names(associations(self.deep_view())),
    {
        let mut names: Vec<(&str, &str, &str)> = Vec::new();
        let list = match &self.personAssociations {
            Some(list) => list,
            None => {
                assert(names.deep_view() =~= internal_person_names(Seq::empty()));
                return names;
            },
        };
        let mut i: usize = 0;
        assert(names.deep_view() =~= internal_person_names(list.deep_view().take(0)));
        while i < list.len()
            invariant
                i <= list.len(),
                names.deep_view() == internal_person_names(list.deep_view().take(i as int)),
            decreases list.len() - i,
        {
            let ghost before = names.deep_view();
            assert(list.deep_view().take(i + 1).drop_last() =~= list.deep_view().take(i as int));
            assert(list.deep_view().take(i + 1).last() == list[i as int].deep_view());
            match list[i].internal_name() {
                Some(name) => {
                    names.push(name);
                    assert(names.deep_view() =~= before + seq![name.deep_view()]);
                },
                None => {},
            }
            i += 1;
        }
        assert(list.deep_view().take(list.len() as int) =~= list.deep_view());
        names
    }

    /// The internal names of the associations whose person has not opted
    /// out.
    pub fn get_internal_person_names_umap(&self, umap: &UuidMap) -> (names: Vec<
        (&str, &str, &str),
    >)
        ensures
            names.deep_view() == internal_person_names_without(
                associations(self.deep_view()),
                umap.opt_outs(),
            ),
    {
        let mut names: Vec<(&str, &str, &str)> = Vec::new();
        let list = match &self.personAssociations {
            Some(list) => list,
            None => {
                assert(names.deep_view() =~= internal_person_names_without(
                    Seq::empty(),
                    umap.opt_outs(),
                ));
                return names;
            },
        };
        let mut i: usize = 0;
        assert(names.deep_view() =~= internal_person_names_without(
            list.deep_view().take(0),
            umap.opt_outs(),
        ));
        while i < list.len()
            invariant
                i <= list.len(),
                names.deep_view() == internal_person_names_without(
                    list.deep_view().take(i as int),
                    umap.opt_outs(),
                ),
            decreases list.len() - i,
        {
            let ghost before = names.deep_view();
            assert(list.deep_view().take(i + 1).drop_last() =~= list.deep_view().take(i as int));
            assert(list.deep_view().take(i + 1).last() == list[i as int].deep_view());
            match list[i].internal_name() {
                Some(name) => {
                    if !umap.optout_contains(name.2) {
                        names.push(name);
                        assert(names.deep_view() =~= before + seq![name.deep_view()]);
                    }
                },
                None => {},
            }
            i += 1;
        }
        assert(list.deep_view().take(list.len() as int) =~= list.deep_view());
        names
    }

    /// Name and identifier of each association that refers to a person
    /// outside the institution.
    pub fn get_external_person_names(&self) -> (names: Vec<(&str, &str)>)
        ensures
            names.deep_view() == external_person_names(associations(self.deep_view())),
    {
        let mut names: Vec<(&str, &str)> = Vec::new();
        let list = match &self.personAssociations {
            Some(list) => list,
            None => {
                assert(names.deep_view() =~= external_person_names(Seq::empty()));
                return names;
            },
        };
        let mut i: usize = 0;
        assert(names.deep_view() =~= external_person_names(list.deep_view().take(0)));
        while i < list.len()
            invariant
                i <= list.len(),
                names.deep_view() == external_person_names(list.deep_view().take(i as int)),
            decreases list.len() - i,
        {
            let ghost before = names.deep_view();
            assert(list.deep_view().take(i + 1).drop_last() =~= list.deep_view().take(i as int));
            assert(list.deep_view().take(i + 1).last() == list[i as int].deep_view());
            match list[i].external_name() {
                Some(name) => {
                    names.push(name);
                    assert(names.deep_view() =~= before + seq![name.deep_view()]);
                },
                None => {},
            }
            i += 1;
        }
        assert(list.deep_view().take(list.len() as int) =~= list.deep_view());
        names
    }

    /// The display name of each association that has a name in two parts
    /// and whose resolvable identifier has not opted out.
    pub fn get_names_umap(&self, umap: &UuidMap) -> (names: Vec<String>)
        ensures
            names.deep_view() == admitted_names(associations(self.deep_view()), umap.opt_outs()),
    {
        let mut names: Vec<String> = Vec::new();
        let list = match &self.personAssociations {
            Some(list) => list,
            None => {
                assert(names.deep_view() =~= admitted_names(Seq::empty(), umap.opt_outs()));
                return names;
            },
        };
        let mut i: usize = 0;
        assert(names.deep_view() =~= admitted_names(list.deep_view().take(0), umap.opt_outs()));
        while i < list.len()
            invariant
                i <= list.len(),
                names.deep_view() == admitted_names(
                    list.deep_view().take(i as int),
                    umap.opt_outs(),
                ),
            decreases list.len() - i,
        {
            let ghost before = names.deep_view();
            assert(list.deep_view().take(i + 1).drop_last() =~= list.deep_view().take(i as int));
            assert(list.deep_view().take(i + 1).last() == list[i as int].deep_view());
            if !umap.optout_contains(list[i].resolvable_id()) {
                match list[i].plain_name() {
                    Some(name) => {
                        let ghost text = name@;
                        names.push(name);
                        assert(names.deep_view() =~= before + seq![text]);
                    },
                    None => {},
                }
            }
            i += 1;
        }
        assert(list.deep_view().take(list.len() as int) =~= list.deep_view());
        names
    }

    /// The display name of each association that has a name in two parts.
    pub fn get_names(&self) -> (names: Vec<String>)
        ensures
            names.deep_view() == plain_names(associations(self.deep_view())),
    {
        let mut names: Vec<String> = Vec::new();
        let list = match &self.personAssociations {
            Some(list) => list,
            None => {
                assert(names.deep_view() =~= plain_names(Seq::empty()));
                return names;
            },
        };
        let mut i: usize = 0;
        assert(names.deep_view() =~= plain_names(list.deep_view().take(0)));
        while i < list.len()
            invariant
                i <= list.len(),
                names.deep_view() == plain_names(list.deep_view().take(i as int)),
            decreases list.len() - i,
        {
            let ghost before = names.deep_view();
            assert(list.deep_view().take(i + 1).drop_last() =~= list.deep_view().take(i as int));
            assert(list.deep_view().take(i + 1).last() == list[i as int].deep_view());
            match list[i].plain_name() {
                Some(name) => {
                    let ghost text = name@;
                    names.push(name);
                    assert(names.deep_view() =~= before + seq![text]);
                },
                None => {},
            }
            i += 1;
        }
        assert(list.deep_view().take(list.len() as int) =~= list.deep_view());
        names
    }

    /// The title of the record and its abstract chosen for `locale`, each
    /// empty where the record has none.
    pub fn get_title_abstract(&self, locale: &str) -> (texts: (&str, &str))
        ensures
            texts.0@ == title_text(self.deep_view(), locale@),
            texts.1@ == abstract_or_empty(self.deep_view(), locale@),
    {
        proof {
            reveal_strlit("");
            assert(""@ =~= Seq::<char>::empty());
            lemma_title_text(self.deep_view(), locale@);
        }
        let title = match self.get_title_value() {
            Some(title) => title,
            None => "",
        };
        let summary = match self.get_abstract_text_for_locale(locale) {
            Some(text) => text,
            None => "",
        };
        (title, summary)
    }
}

/// How an author is known: as a person of the institution, as a person
/// outside it, or by name only.
#[derive(Debug, Clone, Copy, PartialEq, Eq, Structural)]
pub enum PersonType {
    Internal,
    External,
    Unknown,
}

/// An author as a raw record names one: the original identifier that stands
/// for the author, the display name, and how the author is known.
pub struct AuthorSource {
    pub key: Seq<char>,
    pub name: Seq<char>,
    pub inex: PersonType,
}

/// Whether an association is linked to a person of the institution.
pub open spec fn has_internal_link(association: PersonAssociationView) -> bool {
    association.person is Some && association.person->0.uuid is Some
}

/// The author that an association gives in one pass over the record, if
/// it gives one. The first pass takes the persons of the institution, the
/// second the persons outside it that are linked to no person of the
/// institution, and neither takes a person who has opted out. The last pass
/// takes every name in two parts whose resolvable identifier has not opted
/// out, and lets the name stand for the author.
pub open spec fn author_source(
    association: PersonAssociationView,
    pass: PersonType,
    opt_outs: Set<Seq<char>>,
) -> Option<AuthorSource> {
    match pass {
        PersonType::Internal => match internal_name(association) {
            Some(name) => if opt_outs.contains(name.2) {
                None
            } else {
                Some(
                    AuthorSource {
                        key: name.2,
                        name: spec_full_name(name.0, name.1),
                        inex: PersonType::Internal,
                    },
                )
            },
            None => None,
        },
        PersonType::External => match external_name(association) {
            Some(name) => if has_internal_link(association) || opt_outs.contains(name.1) {
                None
            } else {
                Some(AuthorSource { key: name.1, name: name.0, inex: PersonType::External })
            },
            None => None,
        },
        PersonType::Unknown => match admitted_name(association, opt_outs) {
            Some(name) => Some(AuthorSource { key: name, name: name, inex: PersonType::Unknown }),
            None => None,
        },
    }
}

/// The authors that one pass over the associations gives, in their order.
pub open spec fn pass_sources(
    list: Seq<PersonAssociationView>,
    pass: PersonType,
    opt_outs: Set<Seq<char>>,
) -> Seq<AuthorSource> {
    list.filter_map(|association: PersonAssociationView| author_source(association, pass, opt_outs))
}

/// The authors of a record: those of the first pass followed by those of the
/// second; where these two give nobody, those of the last pass.
pub open spec fn author_sources(list: Seq<PersonAssociationView>, opt_outs: Set<Seq<char>>) -> Seq<
    AuthorSource,
> {
    let listed = pass_sources(list, PersonType::Internal, opt_outs) + pass_sources(
        list,
        PersonType::External,
        opt_outs,
    );
    if listed.len() > 0 {
        listed
    } else {
        pass_sources(list, PersonType::Unknown, opt_outs)
    }
}

/// Every author of a pass is known in the way of that pass, and no author
/// of the first two passes has opted out.
pub proof fn lemma_pass_sources_admitted(
    list: Seq<PersonAssociationView>,
    pass: PersonType,
    opt_outs: Set<Seq<char>>,
)
    ensures
        forall|i: int|
            0 <= i < pass_sources(list, pass, opt_outs).len() ==> {
                let source = #[trigger] pass_sources(list, pass, opt_outs)[i];
                &&& source.inex == pass
                &&& pass != PersonType::Unknown ==> !opt_outs.contains(source.key)
            },
    decreases list.len(),
{
    if list.len() > 0 {
        lemma_pass_sources_admitted(list.drop_last(), pass, opt_outs);
    }
}

/// No author who is known as a person, of the institution or outside it,
/// has opted out.
pub proof fn lemma_author_sources_admitted(
    list: Seq<PersonAssociationView>,
    opt_outs: Set<Seq<char>>,
)
    ensures
        forall|i: int|
            0 <= i < author_sources(list, opt_outs).len() ==> {
                let source = #[trigger] author_sources(list, opt_outs)[i];
                source.inex != PersonType::Unknown ==> !opt_outs.contains(source.key)
            },
{
    lemma_pass_sources_admitted(list, PersonType::Internal, opt_outs);
    lemma_pass_sources_admitted(list, PersonType::External, opt_outs);
    lemma_pass_sources_admitted(list, PersonType::Unknown, opt_outs);
}

/// Whether no author who is known by name only has a name that has itself
/// been marked as opted out.
pub open spec fn names_admitted(sources: Seq<AuthorSource>, opt_outs: Set<Seq<char>>) -> bool {
    forall|i: int|
        0 <= i < sources.len() && (#[trigger] sources[i]).inex == PersonType::Unknown
            ==> !opt_outs.contains(sources[i].key)
}

/// The original identifiers that stand for the authors.
pub open spec fn source_keys(sources: Seq<AuthorSource>) -> Set<Seq<char>> {
    Set::new(|key: Seq<char>| exists|i: int| 0 <= i < sources.len() && #[trigger] sources[i].key == key)
}

/// An author of a cleaned research record.
#[derive(Debug)]
pub struct PersonRef {
    pub idx: usize,
    pub uuid: String,
    pub name: String,
    pub inex: PersonType,
}

/// What a `PersonRef` holds: the position in the author list, the
/// anonymized identifier, the display name, and how the author is known.
pub struct PersonRefView {
    pub idx: nat,
    pub uuid: Seq<char>,
    pub name: Seq<char>,
    pub inex: PersonType,
}

impl DeepView for PersonRef {
    type V = PersonRefView;

    open spec fn deep_view(&self) -> PersonRefView {
        PersonRefView {
            idx: self.idx as nat,
            uuid: self.uuid@,
            name: self.name@,
            inex: self.inex,
        }
    }
}

impl Clone for PersonRef {
    fn clone(&self) -> (copy: Self)
        ensures
            copy.deep_view() == self.deep_view(),
    {
        PersonRef {
            idx: self.idx,
            uuid: self.uuid.clone(),
            name: self.name.clone(),
            inex: self.inex,
        }
    }
}

impl PersonRef {
    /// The display name.
    pub fn get_name(&self) -> (name: &str)
        ensures
            name@ == self.deep_view().name,
    {
        self.name.as_str()
    }

    /// Whether the author is a person of the institution.
    pub fn is_internal(&self) -> (internal: bool)
        ensures
            internal == (self.deep_view().inex == PersonType::Internal),
    {
        match self.inex {
            PersonType::Internal => true,
            _ => false,
        }
    }
}

/// The author list made of `sources`: each author at its position, under
/// the anonymized identifier that `ids` has for its original identifier.
pub open spec fn author_refs(sources: Seq<AuthorSource>, ids: Map<Seq<char>, Seq<char>>) -> Seq<
    PersonRefView,
> {
    Seq::new(
        sources.len(),
        |i: int|
            PersonRefView {
                idx: i as nat,
                uuid: ids[sources[i].key],
                name: sources[i].name,
                inex: sources[i].inex,
            },
    )
}

/// A cleaned research record.
#[derive(Debug)]
pub struct ResearchClean {
    pub uuid: String,
    pub title: String,
    pub abstract_text: String,
    pub persons: Vec<PersonRef>,
}

/// What a `ResearchClean` holds.
pub struct ResearchCleanView {
    pub uuid: Seq<char>,
    pub title: Seq<char>,
    pub abstract_text: Seq<char>,
    pub persons: Seq<PersonRefView>,
}

impl DeepView for ResearchClean {
    type V = ResearchCleanView;

    open spec fn deep_view(&self) -> ResearchCleanView {
        ResearchCleanView {
            uuid: self.uuid@,
            title: self.title@,
            abstract_text: self.abstract_text@,
            persons: self.persons.deep_view(),
        }
    }
}

/// Whether a record has an identifier that is not empty.
pub open spec fn has_id(raw: ResearchJsonView) -> bool {
    raw.uuid is Some && raw.uuid->0.len() > 0
}

/// The cleaned record of a raw record that has an identifier: the record's
/// anonymized identifier, its title, its abstract for `locale`, and its
/// authors, each under the anonymized identifier that `ids` has for it.
pub open spec fn research_record(
    raw: ResearchJsonView,
    locale: Seq<char>,
    opt_outs: Set<Seq<char>>,
    ids: Map<Seq<char>, Seq<char>>,
) -> ResearchCleanView {
    ResearchCleanView {
        uuid: ids[raw.uuid->0],
        title: title_text(raw, locale),
        abstract_text: abstract_or_empty(raw, locale),
        persons: author_refs(author_sources(associations(raw), opt_outs), ids),
    }
}

/// The original identifiers that cleaning a record looks up: those of its
/// authors and its own.
pub open spec fn research_keys(raw: ResearchJsonView, opt_outs: Set<Seq<char>>) -> Set<Seq<char>> {
    source_keys(author_sources(associations(raw), opt_outs)).insert(raw.uuid->0)
}

/// Whether the registry vouches for every author of a record who is known
/// as a person, of the institution or outside it.
pub open spec fn known_authors_vouched(record: ResearchCleanView, registry: UuidMap) -> bool {
    forall|i: int|
        0 <= i < record.persons.len() && (#[trigger] record.persons[i]).inex != PersonType::Unknown
            ==> registry.vouches(record.persons[i].uuid)
}

/// Whether the registry vouches for every author of a record.
pub open spec fn all_authors_vouched(record: ResearchCleanView, registry: UuidMap) -> bool {
    forall|i: int|
        0 <= i < record.persons.len() ==> registry.vouches((#[trigger] record.persons[i]).uuid)
}

/// The registry vouches for an author whom it knows and who has not opted
/// out.
pub proof fn lemma_author_vouched(
    authors: Seq<PersonRefView>,
    sources: Seq<AuthorSource>,
    registry: UuidMap,
    i: int,
)
    requires
        listed(authors, sources, registry.ids()),
        0 <= i < sources.len(),
        !registry.opt_outs().contains(sources[i].key),
    ensures
        registry.vouches(authors[i].uuid),
{
    let key = sources[i].key;
    assert(registry.ids().contains_key(key) && registry.ids()[key] == authors[i].uuid
        && !registry.opt_outs().contains(key));
}

/// The registry vouches for every author of a cleaned record who is known
/// as a person, and for every author at all where no author who is known by
/// name only has a name that has itself been marked as opted out.
pub proof fn lemma_record_vouched(
    list: Seq<PersonAssociationView>,
    record: ResearchCleanView,
    registry: UuidMap,
)
    requires
        listed(record.persons, author_sources(list, registry.opt_outs()), registry.ids()),
    ensures
        known_authors_vouched(record, registry),
        names_admitted(author_sources(list, registry.opt_outs()), registry.opt_outs())
            ==> all_authors_vouched(record, registry),
{
    let sources = author_sources(list, registry.opt_outs());
    lemma_author_sources_admitted(list, registry.opt_outs());
    assert forall|i: int|
        0 <= i < record.persons.len() && (#[trigger] record.persons[i]).inex
            != PersonType::Unknown implies registry.vouches(record.persons[i].uuid) by {
        assert(sources[i].inex == record.persons[i].inex);
        lemma_author_vouched(record.persons, sources, registry, i);
    }
    if names_admitted(sources, registry.opt_outs()) {
        assert forall|i: int| 0 <= i < record.persons.len() implies registry.vouches(
            (#[trigger] record.persons[i]).uuid,
        ) by {
            assert(sources[i].inex == record.persons[i].inex);
            lemma_author_vouched(record.persons, sources, registry, i);
        }
    }
}

/// A person who is cleaned alone and who is listed as an author of a
/// research record has one anonymized identifier in both places, whichever
/// of the two records was cleaned first.
pub proof fn lemma_person_and_author_agree(
    after_person: UuidMap,
    after_research: UuidMap,
    original: Seq<char>,
    person_id: Seq<char>,
    authors: Seq<PersonRefView>,
    sources: Seq<AuthorSource>,
    i: int,
)
    requires
        after_person.kept_by(after_research) || after_research.kept_by(after_person),
        after_person.ids().contains_key(original),
        after_person.ids()[original] == person_id,
        listed(authors, sources, after_research.ids()),
        0 <= i < sources.len(),
        sources[i].key == original,
    ensures
        authors[i].uuid == person_id,
{
    assert(after_research.ids().contains_key(sources[i].key));
    assert(after_person.ids().dom().contains(original));
    assert(after_research.ids().dom().contains(original));
}

impl Clone for ResearchClean {
    fn clone(&self) -> (copy: Self)
        ensures
            copy.deep_view() == self.deep_view(),
    {
        let mut persons: Vec<PersonRef> = Vec::new();
        let mut i: usize = 0;
        while i < self.persons.len()
            invariant
                i <= self.persons.len(),
                persons.deep_view() == self.persons.deep_view().take(i as int),
            decreases self.persons.len() - i,
        {
            let ghost before = persons.deep_view();
            persons.push(self.persons[i].clone());
            assert(persons.deep_view() =~= before.push(self.persons[i as int].deep_view()));
            assert(self.persons.deep_view().take(i + 1) =~= before.push(
                self.persons[i as int].deep_view(),
            ));
            i += 1;
        }
        assert(self.persons.deep_view().take(self.persons.len() as int)
            =~= self.persons.deep_view());
        ResearchClean {
            uuid: self.uuid.clone(),
            title: self.title.clone(),
            abstract_text: self.abstract_text.clone(),
            persons,
        }
    }
}

/// How many of the authors are known in the way `kind`.
pub open spec fn count_of(authors: Seq<PersonRefView>, kind: PersonType) -> nat
    decreases authors.len(),
{
    if authors.len() == 0 {
        0
    } else if authors.last().inex == kind {
        count_of(authors.drop_last(), kind) + 1
    } else {
        count_of(authors.drop_last(), kind)
    }
}

impl ResearchClean {
    /// How many authors are persons of the institution, how many are
    /// persons outside it, and how many are known by name only.
    pub fn author_counts(&self) -> (counts: (usize, usize, usize))
        ensures
            counts.0 == count_of(self.deep_view().persons, PersonType::Internal),
            counts.1 == count_of(self.deep_view().persons, PersonType::External),
            counts.2 == count_of(self.deep_view().persons, PersonType::Unknown),
    {
        let mut internal: usize = 0;
        let mut external: usize = 0;
        let mut unknown: usize = 0;
        let ghost authors = self.deep_view().persons;
        let mut i: usize = 0;
        assert(authors.take(0) =~= Seq::<PersonRefView>::empty());
        while i < self.persons.len()
            invariant
                i <= self.persons.len(),
                authors == self.deep_view().persons,
                internal == count_of(authors.take(i as int), PersonType::Internal),
                external == count_of(authors.take(i as int), PersonType::External),
                unknown == count_of(authors.take(i as int), PersonType::Unknown),
                internal + external + unknown == i,
            decreases self.persons.len() - i,
        {
            proof {
                assert(authors.take(i + 1).drop_last() =~= authors.take(i as int));
                assert(authors.take(i + 1).last() == self.persons[i as int].deep_view());
            }
            match self.persons[i].inex {
                PersonType::Internal => { internal += 1; },
                PersonType::External => { external += 1; },
                PersonType::Unknown => { unknown += 1; },
            }
            i += 1;
        }
        assert(authors.take(self.persons.len() as int) =~= authors);
        (internal, external, unknown)
    }

    /// The title.
    pub fn get_title(&self) -> (title: &str)
        ensures
            title@ == self.deep_view().title,
    {
        self.title.as_str()
    }

    /// The abstract.
    pub fn get_abstract(&self) -> (text: &str)
        ensures
            text@ == self.deep_view().abstract_text,
    {
        self.abstract_text.as_str()
    }

    /// The anonymized identifier.
    pub fn get_uuid(&self) -> (uuid: &str)
        ensures
            uuid@ == self.deep_view().uuid,
    {
        self.uuid.as_str()
    }
}

impl PersonAssociation {
    /// The author that this association gives in one pass, as the original
    /// identifier that stands for the author and the display name.
    fn author_source(&self, pass: PersonType, umap: &UuidMap) -> (source: Option<(String, String)>)
        ensures
            match source {
                Some(pair) => author_source(self.deep_view(), pass, umap.opt_outs()) == Some(
                    AuthorSource { key: pair.0@, name: pair.1@, inex: pass },
                ),
                None => author_source(self.deep_view(), pass, umap.opt_outs()) is None,
            },
    {
        match pass {
            PersonType::Internal => match self.internal_name() {
                Some(name) => if umap.optout_contains(name.2) {
                    None
                } else {
                    Some((name.2.to_owned(), full_name(name.0, name.1)))
                },
                None => None,
            },
            PersonType::External => match self.external_name() {
                Some(name) => {
                    let linked = match &self.person {
                        Some(person) => person.uuid.is_some(),
                        None => false,
                    };
                    if linked || umap.optout_contains(name.1) {
                        None
                    } else {
                        Some((name.1.to_owned(), name.0.to_owned()))
                    }
                },
                None => None,
            },
            PersonType::Unknown => if umap.optout_contains(self.resolvable_id()) {
                None
            } else {
                match self.plain_name() {
                    Some(name) => Some((name.clone(), name)),
                    None => None,
                }
            },
        }
    }
}

/// Whether `persons` is the author list of `sources` under `ids`, which
/// knows each of them.
pub open spec fn listed(
    persons: Seq<PersonRefView>,
    sources: Seq<AuthorSource>,
    ids: Map<Seq<char>, Seq<char>>,
) -> bool {
    &&& persons == author_refs(sources, ids)
    &&& forall|i: int| 0 <= i < sources.len() ==> ids.contains_key(#[trigger] sources[i].key)
}

proof fn lemma_listed_kept(
    persons: Seq<PersonRefView>,
    sources: Seq<AuthorSource>,
    ids: Map<Seq<char>, Seq<char>>,
    later: Map<Seq<char>, Seq<char>>,
)
    requires
        listed(persons, sources, ids),
        ids.submap_of(later),
    ensures
        listed(persons, sources, later),
{
    assert forall|i: int| 0 <= i < sources.len() implies later.contains_key(
        #[trigger] sources[i].key,
    ) && later[sources[i].key] == ids[sources[i].key] by {
        assert(ids.contains_key(sources[i].key));
    }
    assert(author_refs(sources, ids) =~= author_refs(sources, later));
}

proof fn lemma_source_keys_push(sources: Seq<AuthorSource>, source: AuthorSource)
    ensures
        source_keys(sources.push(source)) == source_keys(sources).insert(source.key),
{
    let longer = sources.push(source);
    assert forall|key: Seq<char>| source_keys(longer).contains(key) implies source_keys(
        sources,
    ).insert(source.key).contains(key) by {
        let i = choose|i: int| 0 <= i < longer.len() && #[trigger] longer[i].key == key;
        if i < sources.len() {
            assert(sources[i].key == key);
        }
    }
    assert forall|key: Seq<char>| source_keys(sources).insert(source.key).contains(
        key,
    ) implies source_keys(longer).contains(key) by {
        if key == source.key {
            assert(longer[sources.len() as int].key == key);
        } else {
            let i = choose|i: int| 0 <= i < sources.len() && #[trigger] sources[i].key == key;
            assert(longer[i].key == key);
        }
    }
    assert(source_keys(longer) =~= source_keys(sources).insert(source.key));
}

proof fn lemma_source_keys_concat(front: Seq<AuthorSource>, back: Seq<AuthorSource>)
    ensures
        source_keys(front + back) == source_keys(front).union(source_keys(back)),
{
    let joined = front + back;
    assert forall|key: Seq<char>| source_keys(joined).contains(key) implies source_keys(
        front,
    ).union(source_keys(back)).contains(key) by {
        let i = choose|i: int| 0 <= i < joined.len() && #[trigger] joined[i].key == key;
        if i < front.len() {
            assert(front[i].key == key);
        } else {
            assert(back[i - front.len()].key == key);
        }
    }
    assert forall|key: Seq<char>| source_keys(front).union(source_keys(back)).contains(
        key,
    ) implies source_keys(joined).contains(key) by {
        if source_keys(front).contains(key) {
            let i = choose|i: int| 0 <= i < front.len() && #[trigger] front[i].key == key;
            assert(joined[i].key == key);
        } else {
            let i = choose|i: int| 0 <= i < back.len() && #[trigger] back[i].key == key;
            assert(joined[i + front.len()].key == key);
        }
    }
    assert(source_keys(joined) =~= source_keys(front).union(source_keys(back)));
}

/// Adds to `persons` the authors that one pass over `list` gives, each
/// under its anonymized identifier.
fn add_pass(
    list: &Vec<PersonAssociation>,
    pass: PersonType,
    umap: &mut UuidMap,
    persons: &mut Vec<PersonRef>,
    Ghost(before): Ghost<Seq<AuthorSource>>,
)
    requires
        old(umap).wf(),
        listed(old(persons).deep_view(), before, old(umap).ids()),
    ensures
        final(umap).wf(),
        old(umap).kept_by(*final(umap)),
        listed(
            final(persons).deep_view(),
            before + pass_sources(list.deep_view(), pass, old(umap).opt_outs()),
            final(umap).ids(),
        ),
        final(umap).ids().dom() == old(umap).ids().dom().union(
            source_keys(pass_sources(list.deep_view(), pass, old(umap).opt_outs())),
        ),
{
    let ghost opt_outs = umap.opt_outs();
    let mut i: usize = 0;
    proof {
        assert(list.deep_view().take(0) =~= Seq::<PersonAssociationView>::empty());
        assert(before + pass_sources(list.deep_view().take(0), pass, opt_outs) =~= before);
        assert(source_keys(Seq::<AuthorSource>::empty()) =~= Set::<Seq<char>>::empty());
        assert(umap.ids().dom().union(Set::<Seq<char>>::empty()) =~= umap.ids().dom());
    }
    while i < list.len()
        invariant
            i <= list.len(),
            umap.wf(),
            old(umap).kept_by(*umap),
            opt_outs == old(umap).opt_outs(),
            listed(
                persons.deep_view(),
                before + pass_sources(list.deep_view().take(i as int), pass, opt_outs),
                umap.ids(),
            ),
            umap.ids().dom() == old(umap).ids().dom().union(
                source_keys(pass_sources(list.deep_view().take(i as int), pass, opt_outs)),
            ),
        decreases list.len() - i,
    {
        let ghost seen = pass_sources(list.deep_view().take(i as int), pass, opt_outs);
        let ghost earlier = persons.deep_view();
        let ghost known = *umap;
        proof {
            assert(list.deep_view().take(i + 1).drop_last() =~= list.deep_view().take(i as int));
            assert(list.deep_view().take(i + 1).last() == list[i as int].deep_view());
        }
        match list[i].author_source(pass, umap) {
            Some(pair) => {
                let (key, name) = pair;
                let ghost source = AuthorSource { key: key@, name: name@, inex: pass };
                let id = umap.get_uuid_as_str(key.as_str());
                let idx = persons.len();
                persons.push(PersonRef { idx, uuid: id, name, inex: pass });
                proof {
                    assert(pass_sources(list.deep_view().take(i + 1), pass, opt_outs) =~= seen.push(
                        source,
                    ));
                    assert(before + seen.push(source) =~= (before + seen).push(source));
                    lemma_listed_kept(earlier, before + seen, known.ids(), umap.ids());
                    lemma_source_keys_push(seen, source);
                    old(umap).lemma_kept_by_later(known, *umap);
                    let longer = (before + seen).push(source);
                    assert(earlier.len() == (before + seen).len());
                    assert(persons@.len() == earlier.len() + 1);
                    assert(persons.deep_view().len() == longer.len());
                    assert forall|j: int| 0 <= j < longer.len() implies persons.deep_view()[j]
                        == author_refs(longer, umap.ids())[j] by {
                        if j < earlier.len() {
                            assert(persons.deep_view()[j] == earlier[j]);
                            assert(longer[j] == (before + seen)[j]);
                        }
                    }
                    assert(persons.deep_view() =~= author_refs(longer, umap.ids()));
                    assert(umap.ids().dom() =~= old(umap).ids().dom().union(
                        source_keys(seen.push(source)),
                    ));
                }
            },
            None => {
                proof {
                    assert(pass_sources(list.deep_view().take(i + 1), pass, opt_outs) =~= seen);
                }
            },
        }
        i += 1;
    }
    proof {
        assert(list.deep_view().take(list.len() as int) =~= list.deep_view());
    }
}

impl ResearchClean {
    /// Cleans a raw research record for `locale`. A record without an
    /// identifier is refused. Otherwise the record is given its anonymized
    /// identifier, its title, its abstract by the fallback rule, and its
    /// authors: the persons of the institution, then the persons outside it,
    /// and, where there are none of either, the bare names. An author whose
    /// identifier has opted out is not listed, and that identifier is not
    /// looked up in the registry.
    pub fn try_from_with_locale_umap(value: &ResearchJson, locale: &str, umap: &mut UuidMap) -> (result:
        Result<Self, CleanError>)
        requires
            old(umap).wf(),
        ensures
            final(umap).wf(),
            old(umap).kept_by(*final(umap)),
            result is Ok <==> has_id(value.deep_view()),
            match result {
                Ok(record) => {
                    &&& record.deep_view() == research_record(
                        value.deep_view(),
                        locale@,
                        old(umap).opt_outs(),
                        final(umap).ids(),
                    )
                    &&& final(umap).ids().dom() == old(umap).ids().dom().union(
                        research_keys(value.deep_view(), old(umap).opt_outs()),
                    )
                    &&& known_authors_vouched(record.deep_view(), *final(umap))
                    &&& names_admitted(
                        author_sources(associations(value.deep_view()), old(umap).opt_outs()),
                        old(umap).opt_outs(),
                    ) ==> all_authors_vouched(record.deep_view(), *final(umap))
                },
                Err(error) => error == CleanError::MissingUUID && final(umap).ids() == old(
                    umap,
                ).ids(),
            },
    {
        let uuid = match &value.uuid {
            Some(uuid) => uuid.as_str(),
            None => { return Err(CleanError::MissingUUID); },
        };
        if uuid.is_empty() {
            return Err(CleanError::MissingUUID);
        }
        let (title, summary) = value.get_title_abstract(locale);
        let mut persons: Vec<PersonRef> = Vec::new();
        let ghost opt_outs = umap.opt_outs();
        let ghost list = associations(value.deep_view());
        let ghost internal = pass_sources(list, PersonType::Internal, opt_outs);
        let ghost external = pass_sources(list, PersonType::External, opt_outs);
        let ghost unknown = pass_sources(list, PersonType::Unknown, opt_outs);
        let ghost mut sources = Seq::<AuthorSource>::empty();
        proof {
            assert(persons.deep_view() =~= author_refs(sources, umap.ids()));
            assert(source_keys(sources) =~= Set::<Seq<char>>::empty());
            assert(umap.ids().dom().union(Set::<Seq<char>>::empty()) =~= umap.ids().dom());
        }
        match &value.personAssociations {
            Some(associations) => {
                add_pass(associations, PersonType::Internal, umap, &mut persons, Ghost(sources));
                let ghost first = *umap;
                proof {
                    assert(sources + internal =~= internal);
                    sources = internal;
                }
                add_pass(associations, PersonType::External, umap, &mut persons, Ghost(sources));
                proof {
                    lemma_source_keys_concat(internal, external);
                    sources = internal + external;
                    assert(umap.ids().dom() =~= old(umap).ids().dom().union(source_keys(sources)));
                }
                let ghost second = *umap;
                proof {
                    old(umap).lemma_kept_by_later(first, second);
                    assert(persons.deep_view().len() == sources.len());
                }
                if persons.len() == 0 {
                    add_pass(associations, PersonType::Unknown, umap, &mut persons, Ghost(sources));
                    proof {
                        old(umap).lemma_kept_by_later(second, *umap);
                        assert(sources =~= Seq::<AuthorSource>::empty());
                        assert(sources + unknown =~= unknown);
                        sources = unknown;
                        assert(source_keys(Seq::<AuthorSource>::empty()) =~= Set::<
                            Seq<char>,
                        >::empty());
                        assert(umap.ids().dom() =~= old(umap).ids().dom().union(
                            source_keys(sources),
                        ));
                    }
                }
            },
            None => {
                proof {
                    assert(internal =~= sources);
                    assert(external =~= sources);
                    assert(unknown =~= sources);
                    assert(internal + external =~= sources);
                }
            },
        }
        assert(persons.deep_view().len() == sources.len());
        assert(sources == author_sources(list, opt_outs));
        let ghost known = *umap;
        let ghost authors = persons.deep_view();
        let safe_uuid = umap.get_uuid_as_str(uuid);
        proof {
            old(umap).lemma_kept_by_later(known, *umap);
            lemma_listed_kept(authors, sources, known.ids(), umap.ids());
            assert(umap.ids().dom() =~= old(umap).ids().dom().union(
                research_keys(value.deep_view(), opt_outs),
            ));
            let record = research_record(value.deep_view(), locale@, opt_outs, umap.ids());
            lemma_record_vouched(list, record, *umap);
        }
        Ok(
            ResearchClean {
                uuid: safe_uuid,
                title: title.to_owned(),
                abstract_text: summary.to_owned(),
                persons,
            },
        )
    }
}

} // verus!
