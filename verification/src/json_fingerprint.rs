//! Fingerprints: which concepts were found in which content.

#![allow(non_snake_case)]

use vstd::prelude::*;

verus! {

/// A concept found in a content.
pub struct Concept {
    pub uuid: Option<String>,
}

/// What a `Concept` holds.
pub struct ConceptView {
    pub uuid: Option<Seq<char>>,
}

impl DeepView for Concept {
    type V = ConceptView;

    open spec fn deep_view(&self) -> ConceptView {
        ConceptView { uuid: self.uuid.deep_view() }
    }
}

/// A fingerprint as the source supplies it, as far as it is read here.
pub struct FingerprintJson {
    pub concepts: Option<Vec<Concept>>,
    pub contentUuid: Option<String>,
    pub uuid: Option<String>,
}

/// What a `FingerprintJson` holds.
pub struct FingerprintJsonView {
    pub concepts: Option<Seq<ConceptView>>,
    pub contentUuid: Option<Seq<char>>,
    pub uuid: Option<Seq<char>>,
}

impl DeepView for FingerprintJson {
    type V = FingerprintJsonView;

    open spec fn deep_view(&self) -> FingerprintJsonView {
        FingerprintJsonView {
            concepts: self.concepts.deep_view(),
            contentUuid: self.contentUuid.deep_view(),
            uuid: self.uuid.deep_view(),
        }
    }
}

/// The identifier of the content of a fingerprint: its `contentUuid`, else
/// its `uuid`.
pub open spec fn content_id(fingerprint: FingerprintJsonView) -> Option<Seq<char>> {
    if fingerprint.contentUuid is Some {
        fingerprint.contentUuid
    } else {
        fingerprint.uuid
    }
}

/// The identifiers of the concepts that have one, in their order.
pub open spec fn concept_uuids(concepts: Seq<ConceptView>) -> Seq<Seq<char>> {
    concepts.filter_map(|concept: ConceptView| concept.uuid)
}

/// The content identifier of a fingerprint and the identifiers of its
/// concepts, where it has a content identifier and a list of concepts.
pub open spec fn id_and_concept_uuids(fingerprint: FingerprintJsonView) -> Option<
    (Seq<char>, Seq<Seq<char>>),
> {
    if content_id(fingerprint) is Some && fingerprint.concepts is Some {
        Some((content_id(fingerprint)->0, concept_uuids(fingerprint.concepts->0)))
    } else {
        None
    }
}

impl FingerprintJson {
    /// The identifier of the content, which is the `contentUuid` or else
    /// the `uuid`, with the identifiers of the concepts that have one. A
    /// fingerprint without an identifier or without a list of concepts gives
    /// nothing.
    pub fn _id_and_concept_uuids(&self) -> (found: Option<(String, Vec<String>)>)
        ensures
            found.deep_view() == id_and_concept_uuids(self.deep_view()),
    {
        let id = match (&self.contentUuid, &self.uuid) {
            (Some(id), _) => id,
            (None, Some(id)) => id,
            (None, None) => { return None; },
        };
        let concepts = match &self.concepts {
            Some(concepts) => concepts,
            None => { return None; },
        };
        let mut uuids: Vec<String> = Vec::new();
        let mut i: usize = 0;
        proof {
            assert(concepts.deep_view().take(0) =~= Seq::<ConceptView>::empty());
            assert(uuids.deep_view() =~= concept_uuids(concepts.deep_view().take(0)));
        }
        while i < concepts.len()
            invariant
                i <= concepts.len(),
                uuids.deep_view() == concept_uuids(concepts.deep_view().take(i as int)),
            decreases concepts.len() - i,
        {
            let ghost before = uuids.deep_view();
            proof {
                assert(concepts.deep_view().take(i + 1).drop_last() =~= concepts.deep_view().take(
                    i as int,
                ));
                assert(concepts.deep_view().take(i + 1).last() == concepts[i as int].deep_view());
            }
            match &concepts[i].uuid {
                Some(uuid) => {
                    uuids.push(uuid.clone());
                    assert(uuids.deep_view() =~= before + seq![uuid@]);
                },
                None => {},
            }
            i += 1;
        }
        assert(concepts.deep_view().take(concepts.len() as int) =~= concepts.deep_view());
        Some((id.clone(), uuids))
    }
}

} // verus!
