//! Persons: the raw record as the source supplies it, the cleaned record
//! that is kept, and what is read from the raw record on the way.

#![allow(non_snake_case)]

use crate::errors::CleanError;
use crate::locale::{
    joined, push_values_in, select_among, selected_text, text_or_empty, values_in,
};
use crate::locale::{LocaleEntry, LocaleValue};
use crate::text::{full_name, spec_full_name};
use crate::uuid_map::UuidMap;
use vstd::prelude::*;

verus! {

/// The two parts of a person's name.
pub struct Name {
    pub firstName: Option<String>,
    pub lastName: Option<String>,
}

/// What a `Name` holds.
pub struct NameView {
    pub firstName: Option<Seq<char>>,
    pub lastName: Option<Seq<char>>,
}

impl DeepView for Name {
    type V = NameView;

    open spec fn deep_view(&self) -> NameView {
        NameView { firstName: self.firstName.deep_view(), lastName: self.lastName.deep_view() }
    }
}

/// A text in several locales.
pub struct FormattedText {
    pub formatted: Option<bool>,
    pub text: Option<Vec<LocaleValue>>,
}

/// What a `FormattedText` holds.
pub struct FormattedTextView {
    pub formatted: Option<bool>,
    pub text: Option<Seq<LocaleEntry>>,
}

impl DeepView for FormattedText {
    type V = FormattedTextView;

    open spec fn deep_view(&self) -> FormattedTextView {
        FormattedTextView { formatted: self.formatted, text: self.text.deep_view() }
    }
}

/// A term in several locales.
pub struct Term {
    pub formatted: Option<bool>,
    pub text: Option<Vec<LocaleValue>>,
}

/// What a `Term` holds.
pub struct TermView {
    pub formatted: Option<bool>,
    pub text: Option<Seq<LocaleEntry>>,
}

impl DeepView for Term {
    type V = TermView;

    open spec fn deep_view(&self) -> TermView {
        TermView { formatted: self.formatted, text: self.text.deep_view() }
    }
}

/// One piece of a person's profile, such as a biography.
pub struct ProfileInformation {
    pub value: Option<FormattedText>,
}

/// What a `ProfileInformation` holds.
pub struct ProfileInformationView {
    pub value: Option<FormattedTextView>,
}

impl DeepView for ProfileInformation {
    type V = ProfileInformationView;

    open spec fn deep_view(&self) -> ProfileInformationView {
        ProfileInformationView { value: self.value.deep_view() }
    }
}

/// A title that a person holds.
pub struct Title {
    pub value: Option<FormattedText>,
}

/// What a `Title` holds.
pub struct TitleView {
    pub value: Option<FormattedTextView>,
}

impl DeepView for Title {
    type V = TitleView;

    open spec fn deep_view(&self) -> TitleView {
        TitleView { value: self.value.deep_view() }
    }
}

/// One step of a person's education.
pub struct Education {
    pub pureId: Option<u64>,
}

/// What an `Education` holds.
pub struct EducationView {
    pub pureId: Option<u64>,
}

impl DeepView for Education {
    type V = EducationView;

    open spec fn deep_view(&self) -> EducationView {
        EducationView { pureId: self.pureId }
    }
}

/// Keywords that were entered freely, in one locale.
pub struct FreeKeyword {
    pub freeKeywords: Option<Vec<String>>,
    pub locale: Option<String>,
    pub pureId: Option<u64>,
}

/// What a `FreeKeyword` holds.
pub struct FreeKeywordView {
    pub freeKeywords: Option<Seq<Seq<char>>>,
    pub locale: Option<Seq<char>>,
    pub pureId: Option<u64>,
}

impl DeepView for FreeKeyword {
    type V = FreeKeywordView;

    open spec fn deep_view(&self) -> FreeKeywordView {
        FreeKeywordView {
            freeKeywords: self.freeKeywords.deep_view(),
            locale: self.locale.deep_view(),
            pureId: self.pureId,
        }
    }
}

/// A keyword taken from a classification.
pub struct StructuredKeyword {
    pub term: Option<Term>,
}

/// What a `StructuredKeyword` holds.
pub struct StructuredKeywordView {
    pub term: Option<TermView>,
}

impl DeepView for StructuredKeyword {
    type V = StructuredKeywordView;

    open spec fn deep_view(&self) -> StructuredKeywordView {
        StructuredKeywordView { term: self.term.deep_view() }
    }
}

/// Free keywords together with one keyword from a classification.
pub struct KeywordContainer {
    pub freeKeywords: Option<Vec<FreeKeyword>>,
    pub structuredKeyword: Option<StructuredKeyword>,
}

/// What a `KeywordContainer` holds.
pub struct KeywordContainerView {
    pub freeKeywords: Option<Seq<FreeKeywordView>>,
    pub structuredKeyword: Option<StructuredKeywordView>,
}

impl DeepView for KeywordContainer {
    type V = KeywordContainerView;

    open spec fn deep_view(&self) -> KeywordContainerView {
        KeywordContainerView {
            freeKeywords: self.freeKeywords.deep_view(),
            structuredKeyword: self.structuredKeyword.deep_view(),
        }
    }
}

/// A group of keyword containers.
pub struct KeywordGroup {
    pub keywordContainers: Option<Vec<KeywordContainer>>,
}

/// What a `KeywordGroup` holds.
pub struct KeywordGroupView {
    pub keywordContainers: Option<Seq<KeywordContainerView>>,
}

impl DeepView for KeywordGroup {
    type V = KeywordGroupView;

    open spec fn deep_view(&self) -> KeywordGroupView {
        KeywordGroupView { keywordContainers: self.keywordContainers.deep_view() }
    }
}

/// A person as the source supplies it, as far as it is read here.
pub struct PersonJson {
    pub educations: Option<Vec<Education>>,
    pub keywordGroups: Option<Vec<KeywordGroup>>,
    pub name: Option<Name>,
    pub profileInformations: Option<Vec<ProfileInformation>>,
    pub titles: Option<Vec<Title>>,
    pub uuid: Option<String>,
}

/// What a `PersonJson` holds.
pub struct PersonJsonView {
    pub educations: Option<Seq<EducationView>>,
    pub keywordGroups: Option<Seq<KeywordGroupView>>,
    pub name: Option<NameView>,
    pub profileInformations: Option<Seq<ProfileInformationView>>,
    pub titles: Option<Seq<TitleView>>,
    pub uuid: Option<Seq<char>>,
}

impl DeepView for PersonJson {
    type V = PersonJsonView;

    open spec fn deep_view(&self) -> PersonJsonView {
        PersonJsonView {
            educations: self.educations.deep_view(),
            keywordGroups: self.keywordGroups.deep_view(),
            name: self.name.deep_view(),
            profileInformations: self.profileInformations.deep_view(),
            titles: self.titles.deep_view(),
            uuid: self.uuid.deep_view(),
        }
    }
}

/// The entries of a text field, if the field is there and has a list of
/// them.
pub open spec fn text_list(field: Option<FormattedTextView>) -> Option<Seq<LocaleEntry>> {
    match field {
        Some(field) => field.text,
        None => None,
    }
}

/// The lists of entries of a person's profile informations, in their order.
pub open spec fn profile_lists(person: PersonJsonView) -> Seq<Seq<LocaleEntry>> {
    match person.profileInformations {
        Some(infos) => infos.filter_map(|info: ProfileInformationView| text_list(info.value)),
        None => Seq::empty(),
    }
}

/// The lists of entries of a person's titles, in their order.
pub open spec fn title_lists(person: PersonJsonView) -> Seq<Seq<LocaleEntry>> {
    match person.titles {
        Some(titles) => titles.filter_map(|title: TitleView| text_list(title.value)),
        None => Seq::empty(),
    }
}

/// The biography of a person chosen for `locale` among all the entries of
/// the profile informations, empty where none of them has a value.
pub open spec fn biography(person: PersonJsonView, locale: Seq<char>) -> Seq<char> {
    text_or_empty(joined(profile_lists(person)), locale)
}

/// The identifiers of the steps of a person's education that have one.
pub open spec fn education_ids(person: PersonJsonView) -> Seq<u64> {
    match person.educations {
        Some(educations) => educations.filter_map(|education: EducationView| education.pureId),
        None => Seq::empty(),
    }
}

/// The first and the last name of a person who has both.
pub open spec fn first_and_last_name(person: PersonJsonView) -> Option<(Seq<char>, Seq<char>)> {
    if person.name is Some && person.name->0.firstName is Some && person.name->0.lastName is Some {
        Some((person.name->0.firstName->0, person.name->0.lastName->0))
    } else {
        None
    }
}

/// The free keywords of the entries that are written in `locale`.
pub open spec fn free_keywords_in(list: Seq<FreeKeywordView>, locale: Seq<char>) -> Seq<Seq<char>>
    decreases list.len(),
{
    if list.len() == 0 {
        Seq::empty()
    } else if list.last().locale == Some(locale) && list.last().freeKeywords is Some {
        free_keywords_in(list.drop_last(), locale) + list.last().freeKeywords->0
    } else {
        free_keywords_in(list.drop_last(), locale)
    }
}

/// The values in `locale` of the term of a keyword from a classification.
pub open spec fn structured_keywords_in(
    keyword: Option<StructuredKeywordView>,
    locale: Seq<char>,
) -> Seq<Seq<char>> {
    if keyword is Some && keyword->0.term is Some && keyword->0.term->0.text is Some {
        values_in(keyword->0.term->0.text->0, locale)
    } else {
        Seq::empty()
    }
}

/// The keywords of one container in `locale`: the free ones, then those of
/// the keyword from a classification.
pub open spec fn container_keywords(container: KeywordContainerView, locale: Seq<char>) -> Seq<
    Seq<char>,
> {
    let free = match container.freeKeywords {
        Some(list) => free_keywords_in(list, locale),
        None => Seq::empty(),
    };
    free + structured_keywords_in(container.structuredKeyword, locale)
}

/// The keywords of several containers in `locale`, container by container.
pub open spec fn containers_keywords(list: Seq<KeywordContainerView>, locale: Seq<char>) -> Seq<
    Seq<char>,
>
    decreases list.len(),
{
    if list.len() == 0 {
        Seq::empty()
    } else {
        containers_keywords(list.drop_last(), locale) + container_keywords(list.last(), locale)
    }
}

/// The keywords of several groups in `locale`, group by group.
pub open spec fn groups_keywords(list: Seq<KeywordGroupView>, locale: Seq<char>) -> Seq<Seq<char>>
    decreases list.len(),
{
    if list.len() == 0 {
        Seq::empty()
    } else {
        groups_keywords(list.drop_last(), locale) + match list.last().keywordContainers {
            Some(containers) => containers_keywords(containers, locale),
            None => Seq::empty(),
        }
    }
}

/// The keywords of a person in `locale`.
pub open spec fn person_keywords(person: PersonJsonView, locale: Seq<char>) -> Seq<Seq<char>> {
    match person.keywordGroups {
        Some(groups) => groups_keywords(groups, locale),
        None => Seq::empty(),
    }
}

/// Adds copies of `words` to `out`.
fn push_copies(words: &Vec<String>, out: &mut Vec<String>)
    ensures
        final(out).deep_view() == old(out).deep_view() + words.deep_view(),
{
    let mut i: usize = 0;
    assert(out.deep_view() =~= old(out).deep_view() + words.deep_view().take(0));
    while i < words.len()
        invariant
            i <= words.len(),
            out.deep_view() == old(out).deep_view() + words.deep_view().take(i as int),
        decreases words.len() - i,
    {
        let ghost before = out.deep_view();
        out.push(words[i].clone());
        assert(out.deep_view() =~= before + seq![words[i as int]@]);
        assert(words.deep_view().take(i + 1) =~= words.deep_view().take(i as int) + seq![
            words[i as int]@,
        ]);
        i += 1;
    }
    assert(words.deep_view().take(words.len() as int) =~= words.deep_view());
}

/// Adds owned copies of `words` to `out`.
fn push_owned(words: &Vec<&str>, out: &mut Vec<String>)
    ensures
        final(out).deep_view() == old(out).deep_view() + words.deep_view(),
{
    let mut i: usize = 0;
    assert(out.deep_view() =~= old(out).deep_view() + words.deep_view().take(0));
    while i < words.len()
        invariant
            i <= words.len(),
            out.deep_view() == old(out).deep_view() + words.deep_view().take(i as int),
        decreases words.len() - i,
    {
        let ghost before = out.deep_view();
        out.push(words[i].to_owned());
        assert(out.deep_view() =~= before + seq![words[i as int]@]);
        assert(words.deep_view().take(i + 1) =~= words.deep_view().take(i as int) + seq![
            words[i as int]@,
        ]);
        i += 1;
    }
    assert(words.deep_view().take(words.len() as int) =~= words.deep_view());
}

/// Adds to `out` the free keywords of the entries written in `locale`.
fn push_free_keywords(list: &Vec<FreeKeyword>, locale: &str, out: &mut Vec<String>)
    ensures
        final(out).deep_view() == old(out).deep_view() + free_keywords_in(
            list.deep_view(),
            locale@,
        ),
{
    let mut i: usize = 0;
    proof {
        assert(list.deep_view().take(0) =~= Seq::<FreeKeywordView>::empty());
        assert(out.deep_view() =~= old(out).deep_view() + free_keywords_in(
            list.deep_view().take(0),
            locale@,
        ));
    }
    while i < list.len()
        invariant
            i <= list.len(),
            out.deep_view() == old(out).deep_view() + free_keywords_in(
                list.deep_view().take(i as int),
                locale@,
            ),
        decreases list.len() - i,
    {
        proof {
            assert(list.deep_view().take(i + 1).drop_last() =~= list.deep_view().take(i as int));
            assert(list.deep_view().take(i + 1).last() == list[i as int].deep_view());
        }
        let entry = &list[i];
        let in_locale = match &entry.locale {
            Some(own) => crate::text::str_eq(own.as_str(), locale),
            None => false,
        };
        if in_locale {
            match &entry.freeKeywords {
                Some(words) => {
                    push_copies(words, out);
                },
                None => {},
            }
        }
        assert(out.deep_view() =~= old(out).deep_view() + free_keywords_in(
            list.deep_view().take(i + 1),
            locale@,
        ));
        i += 1;
    }
    assert(list.deep_view().take(list.len() as int) =~= list.deep_view());
}

/// Adds to `out` the keywords of one container in `locale`.
fn push_container_keywords(container: &KeywordContainer, locale: &str, out: &mut Vec<String>)
    ensures
        final(out).deep_view() == old(out).deep_view() + container_keywords(
            container.deep_view(),
            locale@,
        ),
{
    match &container.freeKeywords {
        Some(list) => {
            push_free_keywords(list, locale, out);
        },
        None => {
            assert(out.deep_view() =~= old(out).deep_view() + Seq::<Seq<char>>::empty());
        },
    }
    let mut values: Vec<&str> = Vec::new();
    assert(values.deep_view() =~= Seq::<Seq<char>>::empty());
    match &container.structuredKeyword {
        Some(keyword) => match &keyword.term {
            Some(term) => match &term.text {
                Some(entries) => {
                    push_values_in(entries, locale, &mut values);
                    assert(values.deep_view() =~= values_in(entries.deep_view(), locale@));
                },
                None => {},
            },
            None => {},
        },
        None => {},
    }
    assert(values.deep_view() == structured_keywords_in(
        container.deep_view().structuredKeyword,
        locale@,
    ));
    push_owned(&values, out);
    assert(out.deep_view() =~= old(out).deep_view() + container_keywords(
        container.deep_view(),
        locale@,
    ));
}

/// Adds to `out` the keywords of several containers in `locale`.
fn push_containers_keywords(list: &Vec<KeywordContainer>, locale: &str, out: &mut Vec<String>)
    ensures
        final(out).deep_view() == old(out).deep_view() + containers_keywords(
            list.deep_view(),
            locale@,
        ),
{
    let mut i: usize = 0;
    proof {
        assert(list.deep_view().take(0) =~= Seq::<KeywordContainerView>::empty());
        assert(out.deep_view() =~= old(out).deep_view() + containers_keywords(
            list.deep_view().take(0),
            locale@,
        ));
    }
    while i < list.len()
        invariant
            i <= list.len(),
            out.deep_view() == old(out).deep_view() + containers_keywords(
                list.deep_view().take(i as int),
                locale@,
            ),
        decreases list.len() - i,
    {
        proof {
            assert(list.deep_view().take(i + 1).drop_last() =~= list.deep_view().take(i as int));
            assert(list.deep_view().take(i + 1).last() == list[i as int].deep_view());
        }
        push_container_keywords(&list[i], locale, out);
        assert(out.deep_view() =~= old(out).deep_view() + containers_keywords(
            list.deep_view().take(i + 1),
            locale@,
        ));
        i += 1;
    }
    assert(list.deep_view().take(list.len() as int) =~= list.deep_view());
}

impl PersonJson {
    /// The identifiers of the steps of the education that have one.
    pub fn get_all_education_pure_ids(&self) -> (ids: Vec<u64>)
        ensures
            ids@ == education_ids(self.deep_view()),
    {
        let mut ids: Vec<u64> = Vec::new();
        let list = match &self.educations {
            Some(list) => list,
            None => { return ids; },
        };
        let mut i: usize = 0;
        assert(list.deep_view().take(0) =~= Seq::<EducationView>::empty());
        while i < list.len()
            invariant
                i <= list.len(),
                ids@ == list.deep_view().take(i as int).filter_map(
                    |education: EducationView| education.pureId,
                ),
            decreases list.len() - i,
        {
            let ghost before = ids@;
            proof {
                assert(list.deep_view().take(i + 1).drop_last() =~= list.deep_view().take(i as int));
                assert(list.deep_view().take(i + 1).last() == list[i as int].deep_view());
            }
            match list[i].pureId {
                Some(id) => {
                    ids.push(id);
                    assert(ids@ =~= before + seq![id]);
                },
                None => {},
            }
            i += 1;
        }
        assert(list.deep_view().take(list.len() as int) =~= list.deep_view());
        ids
    }

    /// Copies of the first and the last name, where the person has both.
    pub fn get_first_and_last_name_old(&self) -> (names: Option<(String, String)>)
        ensures
            names.deep_view() == first_and_last_name(self.deep_view()),
    {
        match self.get_first_and_last_name() {
            Some((first, last)) => Some((first.to_owned(), last.to_owned())),
            None => None,
        }
    }

    /// The first and the last name, where the person has both.
    pub fn get_first_and_last_name(&self) -> (names: Option<(&str, &str)>)
        ensures
            names.deep_view() == first_and_last_name(self.deep_view()),
    {
        let name = match &self.name {
            Some(name) => name,
            None => { return None; },
        };
        match (&name.firstName, &name.lastName) {
            (Some(first), Some(last)) => Some((first.as_str(), last.as_str())),
            _ => None,
        }
    }

    /// The identifier of the person.
    pub fn get_uuid(&self) -> (uuid: Option<&str>)
        ensures
            uuid.deep_view() == self.deep_view().uuid,
    {
        match &self.uuid {
            Some(uuid) => Some(uuid.as_str()),
            None => None,
        }
    }

    /// The lists of entries of the profile informations.
    fn profile_lists(&self) -> (lists: Vec<&Vec<LocaleValue>>)
        ensures
            lists.deep_view() == profile_lists(self.deep_view()),
    {
        let mut lists: Vec<&Vec<LocaleValue>> = Vec::new();
        let infos = match &self.profileInformations {
            Some(infos) => infos,
            None => {
                assert(lists.deep_view() =~= profile_lists(self.deep_view()));
                return lists;
            },
        };
        let mut i: usize = 0;
        proof {
            assert(infos.deep_view().take(0) =~= Seq::<ProfileInformationView>::empty());
            assert(lists.deep_view() =~= infos.deep_view().take(0).filter_map(
                |info: ProfileInformationView| text_list(info.value),
            ));
        }
        while i < infos.len()
            invariant
                i <= infos.len(),
                lists.deep_view() == infos.deep_view().take(i as int).filter_map(
                    |info: ProfileInformationView| text_list(info.value),
                ),
            decreases infos.len() - i,
        {
            let ghost before = lists.deep_view();
            proof {
                assert(infos.deep_view().take(i + 1).drop_last() =~= infos.deep_view().take(
                    i as int,
                ));
                assert(infos.deep_view().take(i + 1).last() == infos[i as int].deep_view());
            }
            match &infos[i].value {
                Some(field) => match &field.text {
                    Some(entries) => {
                        lists.push(entries);
                        assert(lists.deep_view() =~= before + seq![entries.deep_view()]);
                    },
                    None => {},
                },
                None => {},
            }
            i += 1;
        }
        assert(infos.deep_view().take(infos.len() as int) =~= infos.deep_view());
        lists
    }

    /// The lists of entries of the titles.
    fn title_lists(&self) -> (lists: Vec<&Vec<LocaleValue>>)
        ensures
            lists.deep_view() == title_lists(self.deep_view()),
    {
        let mut lists: Vec<&Vec<LocaleValue>> = Vec::new();
        let titles = match &self.titles {
            Some(titles) => titles,
            None => {
                assert(lists.deep_view() =~= title_lists(self.deep_view()));
                return lists;
            },
        };
        let mut i: usize = 0;
        proof {
            assert(titles.deep_view().take(0) =~= Seq::<TitleView>::empty());
            assert(lists.deep_view() =~= titles.deep_view().take(0).filter_map(
                |title: TitleView| text_list(title.value),
            ));
        }
        while i < titles.len()
            invariant
                i <= titles.len(),
                lists.deep_view() == titles.deep_view().take(i as int).filter_map(
                    |title: TitleView| text_list(title.value),
                ),
            decreases titles.len() - i,
        {
            let ghost before = lists.deep_view();
            proof {
                assert(titles.deep_view().take(i + 1).drop_last() =~= titles.deep_view().take(
                    i as int,
                ));
                assert(titles.deep_view().take(i + 1).last() == titles[i as int].deep_view());
            }
            match &titles[i].value {
                Some(field) => match &field.text {
                    Some(entries) => {
                        lists.push(entries);
                        assert(lists.deep_view() =~= before + seq![entries.deep_view()]);
                    },
                    None => {},
                },
                None => {},
            }
            i += 1;
        }
        assert(titles.deep_view().take(titles.len() as int) =~= titles.deep_view());
        lists
    }

    /// Every value of the profile informations that is written in `locale`,
    /// in the order of the record.
    pub fn get_profile_information_texts_for_locale(&self, locale: &str) -> (texts: Vec<&str>)
        ensures
            texts.deep_view() == values_in(joined(profile_lists(self.deep_view())), locale@),
    {
        let lists = self.profile_lists();
        let mut texts: Vec<&str> = Vec::new();
        let mut i: usize = 0;
        proof {
            assert(lists.deep_view().take(0) =~= Seq::<Seq<LocaleEntry>>::empty());
            assert(texts.deep_view() =~= values_in(joined(lists.deep_view().take(0)), locale@));
        }
        while i < lists.len()
            invariant
                i <= lists.len(),
                texts.deep_view() == values_in(joined(lists.deep_view().take(i as int)), locale@),
            decreases lists.len() - i,
        {
            proof {
                assert(lists.deep_view().take(i + 1).drop_last() =~= lists.deep_view().take(
                    i as int,
                ));
                assert(lists.deep_view().take(i + 1).last() == lists[i as int].deep_view());
                crate::locale::lemma_values_in_concat(
                    joined(lists.deep_view().take(i as int)),
                    lists[i as int].deep_view(),
                    locale@,
                );
            }
            push_values_in(lists[i], locale, &mut texts);
            i += 1;
        }
        assert(lists.deep_view().take(lists.len() as int) =~= lists.deep_view());
        texts
    }

    /// The title of the person chosen for `locale` among all the entries of
    /// the titles, by the fallback rule.
    pub fn get_title_for_locale(&self, locale: &str) -> (title: Option<String>)
        ensures
            title.deep_view() == selected_text(joined(title_lists(self.deep_view())), locale@),
    {
        let lists = self.title_lists();
        match select_among(&lists, locale) {
            Some(text) => Some(text.to_owned()),
            None => None,
        }
    }

    /// The keywords of the person that are written in `locale`: group by
    /// group and container by container, the free keywords of a container
    /// before those of its keyword from a classification.
    pub fn get_keywords_for_locale(&self, locale: &str) -> (keywords: Vec<String>)
        ensures
            keywords.deep_view() == person_keywords(self.deep_view(), locale@),
    {
        let mut keywords: Vec<String> = Vec::new();
        let groups = match &self.keywordGroups {
            Some(groups) => groups,
            None => {
                assert(keywords.deep_view() =~= person_keywords(self.deep_view(), locale@));
                return keywords;
            },
        };
        let mut i: usize = 0;
        proof {
            assert(groups.deep_view().take(0) =~= Seq::<KeywordGroupView>::empty());
            assert(keywords.deep_view() =~= groups_keywords(groups.deep_view().take(0), locale@));
        }
        while i < groups.len()
            invariant
                i <= groups.len(),
                keywords.deep_view() == groups_keywords(groups.deep_view().take(i as int), locale@),
            decreases groups.len() - i,
        {
            let ghost before = keywords.deep_view();
            proof {
                assert(groups.deep_view().take(i + 1).drop_last() =~= groups.deep_view().take(
                    i as int,
                ));
                assert(groups.deep_view().take(i + 1).last() == groups[i as int].deep_view());
            }
            match &groups[i].keywordContainers {
                Some(containers) => {
                    push_containers_keywords(containers, locale, &mut keywords);
                },
                None => {
                    assert(keywords.deep_view() =~= before + Seq::<Seq<char>>::empty());
                },
            }
            i += 1;
        }
        assert(groups.deep_view().take(groups.len() as int) =~= groups.deep_view());
        keywords
    }
}

/// A cleaned person record.
#[derive(Debug)]
pub struct PersonClean {
    pub uuid: String,
    pub name: String,
    pub profile_info: String,
}

/// What a `PersonClean` holds: the identifier, the display name and the
/// biography.
pub struct PersonCleanView {
    pub uuid: Seq<char>,
    pub name: Seq<char>,
    pub profile_info: Seq<char>,
}

impl DeepView for PersonClean {
    type V = PersonCleanView;

    open spec fn deep_view(&self) -> PersonCleanView {
        PersonCleanView { uuid: self.uuid@, name: self.name@, profile_info: self.profile_info@ }
    }
}

impl Clone for PersonClean {
    fn clone(&self) -> (copy: Self)
        ensures
            copy.deep_view() == self.deep_view(),
    {
        PersonClean {
            uuid: self.uuid.clone(),
            name: self.name.clone(),
            profile_info: self.profile_info.clone(),
        }
    }
}

/// Whether a person has an identifier that is not empty.
pub open spec fn has_id(person: PersonJsonView) -> bool {
    person.uuid is Some && person.uuid->0.len() > 0
}

/// Why a person cannot be cleaned, if it cannot: the identifier is asked
/// for first, then the name, then its first and its last part.
pub open spec fn person_failure(person: PersonJsonView) -> Option<CleanError> {
    if !has_id(person) {
        Some(CleanError::MissingUUID)
    } else if person.name is None {
        Some(CleanError::MissingNameField)
    } else if person.name->0.firstName is None {
        Some(CleanError::MissingFirstName)
    } else if person.name->0.lastName is None {
        Some(CleanError::MissingLastName)
    } else {
        None
    }
}

/// Whether a person has an identifier that has opted out.
pub open spec fn opted_out(person: PersonJsonView, opt_outs: Set<Seq<char>>) -> bool {
    person.uuid is Some && opt_outs.contains(person.uuid->0)
}

/// The display name of a person who has a name in two parts.
pub open spec fn display_name(person: PersonJsonView) -> Seq<char> {
    spec_full_name(person.name->0.firstName->0, person.name->0.lastName->0)
}

impl PersonJson {
    /// The identifier and the display name of a person who can be cleaned,
    /// else the reason why it cannot.
    fn id_and_name(&self) -> (checked: Result<(&str, String), CleanError>)
        ensures
            match checked {
                Ok(pair) => person_failure(self.deep_view()) is None && pair.0@
                    == self.deep_view().uuid->0 && pair.1@ == display_name(self.deep_view()),
                Err(error) => person_failure(self.deep_view()) == Some(error),
            },
    {
        let uuid = match &self.uuid {
            Some(uuid) => uuid.as_str(),
            None => { return Err(CleanError::MissingUUID); },
        };
        if uuid.is_empty() {
            return Err(CleanError::MissingUUID);
        }
        let name = match &self.name {
            Some(name) => name,
            None => { return Err(CleanError::MissingNameField); },
        };
        let first = match &name.firstName {
            Some(first) => first.as_str(),
            None => { return Err(CleanError::MissingFirstName); },
        };
        let last = match &name.lastName {
            Some(last) => last.as_str(),
            None => { return Err(CleanError::MissingLastName); },
        };
        Ok((uuid, full_name(first, last)))
    }

    /// The biography chosen for `locale`, empty where there is none.
    fn biography(&self, locale: &str) -> (text: String)
        ensures
            text@ == biography(self.deep_view(), locale@),
    {
        let lists = self.profile_lists();
        match select_among(&lists, locale) {
            Some(text) => text.to_owned(),
            None => String::new(),
        }
    }
}

impl PersonClean {
    /// Cleans a person without a biography and under the identifier that
    /// the record came with.
    pub fn try_from(value: &PersonJson) -> (result: Result<Self, CleanError>)
        ensures
            match result {
                Ok(record) => person_failure(value.deep_view()) is None && record.deep_view() == (
                PersonCleanView {
                    uuid: value.deep_view().uuid->0,
                    name: display_name(value.deep_view()),
                    profile_info: Seq::empty(),
                }),
                Err(error) => person_failure(value.deep_view()) == Some(error),
            },
    {
        match value.id_and_name() {
            Ok((uuid, name)) => Ok(
                PersonClean { uuid: uuid.to_owned(), name, profile_info: String::new() },
            ),
            Err(error) => Err(error),
        }
    }

    /// Cleans a person for `locale` under the identifier that the record
    /// came with.
    pub fn try_from_with_locale(value: &PersonJson, locale: &str) -> (result: Result<
        Self,
        CleanError,
    >)
        ensures
            match result {
                Ok(record) => person_failure(value.deep_view()) is None && record.deep_view() == (
                PersonCleanView {
                    uuid: value.deep_view().uuid->0,
                    name: display_name(value.deep_view()),
                    profile_info: biography(value.deep_view(), locale@),
                }),
                Err(error) => person_failure(value.deep_view()) == Some(error),
            },
    {
        match value.id_and_name() {
            Ok((uuid, name)) => Ok(
                PersonClean { uuid: uuid.to_owned(), name, profile_info: value.biography(locale) },
            ),
            Err(error) => Err(error),
        }
    }

    /// Cleans a person for `locale`. A person whose identifier has opted
    /// out gives no record: nothing else of the person is looked at, and the
    /// identifier is not looked up in the registry. A person without an
    /// identifier or without a name in two parts is refused. In both cases
    /// the registry is left as it was. Otherwise the person is looked up in
    /// the registry, and the record holds the anonymized identifier, the
    /// display name and the biography chosen by the fallback rule.
    pub fn try_from_with_locale_umap(value: &PersonJson, locale: &str, umap: &mut UuidMap) -> (result:
        Result<Option<Self>, CleanError>)
        requires
            old(umap).wf(),
        ensures
            final(umap).wf(),
            old(umap).kept_by(*final(umap)),
            match result {
                Ok(None) => opted_out(value.deep_view(), old(umap).opt_outs()) && final(umap).ids()
                    == old(umap).ids(),
                Ok(Some(record)) => {
                    &&& !opted_out(value.deep_view(), old(umap).opt_outs())
                    &&& person_failure(value.deep_view()) is None
                    &&& old(umap).resolved(
                        value.deep_view().uuid->0,
                        *final(umap),
                        record.deep_view().uuid,
                    )
                    &&& record.deep_view() == (PersonCleanView {
                        uuid: final(umap).ids()[value.deep_view().uuid->0],
                        name: display_name(value.deep_view()),
                        profile_info: biography(value.deep_view(), locale@),
                    })
                    &&& final(umap).vouches(record.deep_view().uuid)
                },
                Err(error) => !opted_out(value.deep_view(), old(umap).opt_outs())
                    && person_failure(value.deep_view()) == Some(error) && final(umap).ids()
                    == old(umap).ids(),
            },
    {
        match &value.uuid {
            Some(uuid) => {
                if umap.optout_contains(uuid.as_str()) {
                    return Ok(None);
                }
            },
            None => {},
        }
        match value.id_and_name() {
            Ok((uuid, name)) => {
                let safe_uuid = umap.get_uuid_as_str(uuid);
                proof {
                    let original = value.deep_view().uuid->0;
                    assert(umap.ids().contains_key(original));
                    assert(umap.ids()[original] == safe_uuid@);
                    assert(!umap.opt_outs().contains(original));
                }
                Ok(Some(PersonClean { uuid: safe_uuid, name, profile_info: value.biography(locale) }))
            },
            Err(error) => Err(error),
        }
    }
}

} // verus!
