//! Concepts: the raw record as far as it is read here, and its label.

#![allow(non_snake_case)]

use crate::locale::{select_text, selected_text};
use crate::locale::{LocaleEntry, LocaleValue};
use vstd::prelude::*;

verus! {

/// The label of a concept in several locales.
pub struct Name {
    pub formatted: Option<bool>,
    pub text: Option<Vec<LocaleValue>>,
}

/// What a `Name` holds.
pub struct NameView {
    pub formatted: Option<bool>,
    pub text: Option<Seq<LocaleEntry>>,
}

impl DeepView for Name {
    type V = NameView;

    open spec fn deep_view(&self) -> NameView {
        NameView { formatted: self.formatted, text: self.text.deep_view() }
    }
}

/// A concept as the source supplies it, as far as it is read here.
pub struct ConceptJson {
    pub conceptId: Option<String>,
    pub name: Option<Name>,
    pub uuid: Option<String>,
}

/// What a `ConceptJson` holds.
pub struct ConceptJsonView {
    pub conceptId: Option<Seq<char>>,
    pub name: Option<NameView>,
    pub uuid: Option<Seq<char>>,
}

impl DeepView for ConceptJson {
    type V = ConceptJsonView;

    open spec fn deep_view(&self) -> ConceptJsonView {
        ConceptJsonView {
            conceptId: self.conceptId.deep_view(),
            name: self.name.deep_view(),
            uuid: self.uuid.deep_view(),
        }
    }
}

/// The identifier of a concept: its `uuid`, else its `conceptId`.
pub open spec fn concept_id(concept: ConceptJsonView) -> Option<Seq<char>> {
    if concept.uuid is Some {
        concept.uuid
    } else {
        concept.conceptId
    }
}

/// The label of a concept chosen for `locale`, by the fallback rule.
pub open spec fn concept_label(concept: ConceptJsonView, locale: Seq<char>) -> Option<Seq<char>> {
    if concept.name is Some && concept.name->0.text is Some {
        selected_text(concept.name->0.text->0, locale)
    } else {
        None
    }
}

/// The identifier and the label for `locale` of a concept that has both.
pub open spec fn concept_id_and_text(concept: ConceptJsonView, locale: Seq<char>) -> Option<
    (Seq<char>, Seq<char>),
> {
    if concept_id(concept) is Some && concept_label(concept, locale) is Some {
        Some((concept_id(concept)->0, concept_label(concept, locale)->0))
    } else {
        None
    }
}

impl ConceptJson {
    /// The identifier of the concept, which is its `uuid` or else its
    /// `conceptId`, together with its label chosen for `locale` by the
    /// fallback rule. A concept without an identifier or without any label
    /// gives nothing.
    pub fn id_and_text_for_locale(&self, locale: &str) -> (found: Option<(String, String)>)
        ensures
            found.deep_view() == concept_id_and_text(self.deep_view(), locale@),
    {
        let id = match (&self.uuid, &self.conceptId) {
            (Some(uuid), _) => uuid,
            (None, Some(id)) => id,
            (None, None) => { return None; },
        };
        let labels = match &self.name {
            Some(name) => match &name.text {
                Some(labels) => labels,
                None => { return None; },
            },
            None => { return None; },
        };
        match select_text(labels, locale) {
            Some(text) => Some((id.clone(), text.to_owned())),
            None => None,
        }
    }
}

} // verus!
