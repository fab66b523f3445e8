//! Text fields that come in several locales, and the one rule by which a
//! value is chosen from them: the requested locale first, then `en_GB`, then
//! `en`, then whatever value comes first.

use crate::text::str_eq;
use vstd::prelude::*;

verus! {

/// One value of a text field and the locale it is written in.
pub struct LocaleValue {
    pub locale: Option<String>,
    pub value: Option<String>,
}

/// What a `LocaleValue` holds.
pub struct LocaleEntry {
    pub locale: Option<Seq<char>>,
    pub value: Option<Seq<char>>,
}

impl DeepView for LocaleValue {
    type V = LocaleEntry;

    open spec fn deep_view(&self) -> LocaleEntry {
        LocaleEntry { locale: self.locale.deep_view(), value: self.value.deep_view() }
    }
}

/// Whether an entry has a value and is written in the wanted locale, where
/// no wanted locale means any.
pub open spec fn accepts(entry: LocaleEntry, wanted: Option<Seq<char>>) -> bool {
    entry.value is Some && (wanted is None || entry.locale == wanted)
}

/// The value of the first entry that `wanted` accepts.
pub open spec fn first_value(entries: Seq<LocaleEntry>, wanted: Option<Seq<char>>) -> Option<
    Seq<char>,
>
    decreases entries.len(),
{
    if entries.len() == 0 {
        None
    } else if accepts(entries[0], wanted) {
        entries[0].value
    } else {
        first_value(entries.drop_first(), wanted)
    }
}

/// The value chosen for `locale`: the first one in that locale, else the
/// first in `en_GB`, else the first in `en`, else the first of all.
pub open spec fn selected_text(entries: Seq<LocaleEntry>, locale: Seq<char>) -> Option<Seq<char>> {
    if first_value(entries, Some(locale)) is Some {
        first_value(entries, Some(locale))
    } else if first_value(entries, Some("en_GB"@)) is Some {
        first_value(entries, Some("en_GB"@))
    } else if first_value(entries, Some("en"@)) is Some {
        first_value(entries, Some("en"@))
    } else {
        first_value(entries, None)
    }
}

/// The chosen value, or the empty text where the field has no value at all.
pub open spec fn text_or_empty(entries: Seq<LocaleEntry>, locale: Seq<char>) -> Seq<char> {
    match selected_text(entries, locale) {
        Some(text) => text,
        None => Seq::empty(),
    }
}

/// Where no entry before the `i`-th is accepted and the `i`-th is, its
/// value is the first one.
pub proof fn lemma_first_value_at(entries: Seq<LocaleEntry>, wanted: Option<Seq<char>>, i: int)
    requires
        0 <= i < entries.len(),
        forall|j: int| 0 <= j < i ==> !accepts(#[trigger] entries[j], wanted),
        accepts(entries[i], wanted),
    ensures
        first_value(entries, wanted) == entries[i].value,
    decreases i,
{
    if i > 0 {
        let rest = entries.drop_first();
        assert forall|j: int| 0 <= j < i - 1 implies !accepts(#[trigger] rest[j], wanted) by {
            assert(rest[j] == entries[j + 1]);
        }
        lemma_first_value_at(rest, wanted, i - 1);
    }
}

/// There is a first value exactly where some entry is accepted.
pub proof fn lemma_first_value_some(entries: Seq<LocaleEntry>, wanted: Option<Seq<char>>)
    ensures
        first_value(entries, wanted) is Some <==> exists|i: int|
            0 <= i < entries.len() && accepts(#[trigger] entries[i], wanted),
    decreases entries.len(),
{
    if entries.len() > 0 && !accepts(entries[0], wanted) {
        let rest = entries.drop_first();
        lemma_first_value_some(rest, wanted);
        if first_value(rest, wanted) is Some {
            let i = choose|i: int| 0 <= i < rest.len() && accepts(#[trigger] rest[i], wanted);
            assert(accepts(entries[i + 1], wanted));
        }
        if exists|i: int| 0 <= i < entries.len() && accepts(#[trigger] entries[i], wanted) {
            let i = choose|i: int| 0 <= i < entries.len() && accepts(#[trigger] entries[i], wanted);
            assert(accepts(rest[i - 1], wanted));
        }
    }
}

/// The first value of two lists joined is that of the first list, or else
/// that of the second.
pub proof fn lemma_first_value_concat(
    front: Seq<LocaleEntry>,
    back: Seq<LocaleEntry>,
    wanted: Option<Seq<char>>,
)
    ensures
        first_value(front + back, wanted) == if first_value(front, wanted) is Some {
            first_value(front, wanted)
        } else {
            first_value(back, wanted)
        },
    decreases front.len(),
{
    if front.len() == 0 {
        assert(front + back =~= back);
    } else {
        assert((front + back).drop_first() =~= front.drop_first() + back);
        lemma_first_value_concat(front.drop_first(), back, wanted);
    }
}

/// A field in which any entry has a value never resolves to the empty
/// placeholder: whatever locale is asked for, the value of one of its
/// entries is chosen.
pub proof fn lemma_selected_text_some(entries: Seq<LocaleEntry>, locale: Seq<char>)
    ensures
        selected_text(entries, locale) is Some <==> exists|i: int|
            0 <= i < entries.len() && (#[trigger] entries[i]).value is Some,
        selected_text(entries, locale) is Some ==> exists|i: int|
            0 <= i < entries.len() && (#[trigger] entries[i]).value == selected_text(
                entries,
                locale,
            ),
{
    lemma_first_value_some(entries, Some(locale));
    lemma_first_value_some(entries, Some("en_GB"@));
    lemma_first_value_some(entries, Some("en"@));
    lemma_first_value_some(entries, None);
    if exists|i: int| 0 <= i < entries.len() && (#[trigger] entries[i]).value is Some {
        let i = choose|i: int| 0 <= i < entries.len() && (#[trigger] entries[i]).value is Some;
        assert(accepts(entries[i], None));
    }
    if selected_text(entries, locale) is Some {
        lemma_first_value_member(entries, Some(locale));
        lemma_first_value_member(entries, Some("en_GB"@));
        lemma_first_value_member(entries, Some("en"@));
        lemma_first_value_member(entries, None);
    }
}

/// A first value is the value of one of the entries.
pub proof fn lemma_first_value_member(entries: Seq<LocaleEntry>, wanted: Option<Seq<char>>)
    ensures
        first_value(entries, wanted) is Some ==> exists|i: int|
            0 <= i < entries.len() && accepts(#[trigger] entries[i], wanted) && entries[i].value
                == first_value(entries, wanted),
    decreases entries.len(),
{
    if entries.len() > 0 && !accepts(entries[0], wanted) {
        let rest = entries.drop_first();
        lemma_first_value_member(rest, wanted);
        if first_value(rest, wanted) is Some {
            let i = choose|i: int|
                0 <= i < rest.len() && accepts(#[trigger] rest[i], wanted) && rest[i].value
                    == first_value(rest, wanted);
            assert(accepts(entries[i + 1], wanted) && entries[i + 1].value == first_value(
                entries,
                wanted,
            ));
        }
    }
}

/// Where every value of a field is written in one locale, a request for any
/// locale gives the first of them.
pub proof fn lemma_selected_text_single_locale(
    entries: Seq<LocaleEntry>,
    only: Seq<char>,
    locale: Seq<char>,
)
    requires
        forall|i: int|
            0 <= i < entries.len() && (#[trigger] entries[i]).value is Some ==> entries[i].locale
                == Some(only),
    ensures
        selected_text(entries, locale) == first_value(entries, Some(only)),
{
    lemma_first_value_same(entries, Some(locale), Some(only));
    lemma_first_value_same(entries, Some("en_GB"@), Some(only));
    lemma_first_value_same(entries, Some("en"@), Some(only));
    lemma_first_value_same(entries, None, Some(only));
}

proof fn lemma_first_value_same(
    entries: Seq<LocaleEntry>,
    wanted: Option<Seq<char>>,
    only: Option<Seq<char>>,
)
    requires
        only is Some,
        forall|i: int|
            0 <= i < entries.len() && (#[trigger] entries[i]).value is Some ==> entries[i].locale
                == only,
    ensures
        first_value(entries, wanted) is Some ==> first_value(entries, wanted) == first_value(
            entries,
            only,
        ),
        wanted is None ==> first_value(entries, wanted) == first_value(entries, only),
    decreases entries.len(),
{
    if wanted is Some && wanted != only {
        lemma_first_value_some(entries, wanted);
    } else if entries.len() > 0 {
        let rest = entries.drop_first();
        assert forall|i: int|
            0 <= i < rest.len() && (#[trigger] rest[i]).value is Some implies rest[i].locale
            == only by {
            assert(rest[i] == entries[i + 1]);
        }
        lemma_first_value_same(rest, wanted, only);
        assert(entries[0].value is Some ==> entries[0].locale == only);
    }
}

/// The value of the first entry that has one and is written in the wanted
/// locale; with no wanted locale, the first value of all.
pub fn find_value<'a>(entries: &'a Vec<LocaleValue>, wanted: Option<&str>) -> (found: Option<
    &'a str,
>)
    ensures
        found.deep_view() == first_value(entries.deep_view(), wanted.deep_view()),
{
    let mut i: usize = 0;
    while i < entries.len()
        invariant
            i <= entries.len(),
            forall|j: int|
                0 <= j < i ==> !accepts(#[trigger] entries.deep_view()[j], wanted.deep_view()),
        decreases entries.len() - i,
    {
        let entry = &entries[i];
        assert(entries.deep_view()[i as int] == entry.deep_view());
        let in_locale = match wanted {
            None => true,
            Some(locale) => match &entry.locale {
                Some(own) => str_eq(own.as_str(), locale),
                None => false,
            },
        };
        if in_locale {
            match &entry.value {
                Some(value) => {
                    proof {
                        lemma_first_value_at(entries.deep_view(), wanted.deep_view(), i as int);
                    }
                    return Some(value.as_str());
                },
                None => {},
            }
        }
        i += 1;
    }
    proof {
        lemma_first_value_some(entries.deep_view(), wanted.deep_view());
    }
    None
}

/// The value of a text field for `locale`, by the fallback rule.
pub fn select_text<'a>(entries: &'a Vec<LocaleValue>, locale: &str) -> (text: Option<&'a str>)
    ensures
        text.deep_view() == selected_text(entries.deep_view(), locale@),
{
    let exact = find_value(entries, Some(locale));
    if exact.is_some() {
        return exact;
    }
    let british = find_value(entries, Some("en_GB"));
    if british.is_some() {
        return british;
    }
    let english = find_value(entries, Some("en"));
    if english.is_some() {
        return english;
    }
    find_value(entries, None)
}

/// The entries of several lists, one list after the other.
pub open spec fn joined(lists: Seq<Seq<LocaleEntry>>) -> Seq<LocaleEntry>
    decreases lists.len(),
{
    if lists.len() == 0 {
        Seq::empty()
    } else {
        joined(lists.drop_last()) + lists.last()
    }
}

/// The values of the entries that are written in `locale`, in their order.
pub open spec fn values_in(entries: Seq<LocaleEntry>, locale: Seq<char>) -> Seq<Seq<char>> {
    entries.filter_map(
        |entry: LocaleEntry|
            if entry.locale == Some(locale) {
                entry.value
            } else {
                None
            },
    )
}

/// The values in a locale of two lists joined are those of the first list
/// followed by those of the second.
pub proof fn lemma_values_in_concat(
    front: Seq<LocaleEntry>,
    back: Seq<LocaleEntry>,
    locale: Seq<char>,
)
    ensures
        values_in(front + back, locale) == values_in(front, locale) + values_in(back, locale),
    decreases back.len(),
{
    if back.len() == 0 {
        assert(front + back =~= front);
        assert(values_in(front, locale) + values_in(back, locale) =~= values_in(front, locale));
    } else {
        assert((front + back).drop_last() =~= front + back.drop_last());
        assert((front + back).last() == back.last());
        lemma_values_in_concat(front, back.drop_last(), locale);
        assert(values_in(front + back, locale) =~= values_in(front, locale) + values_in(
            back,
            locale,
        ));
    }
}

/// The value of the first entry, over all the lists in their order, that
/// has one and is written in the wanted locale.
pub fn find_among<'a>(lists: &Vec<&'a Vec<LocaleValue>>, wanted: Option<&str>) -> (found: Option<
    &'a str,
>)
    ensures
        found.deep_view() == first_value(joined(lists.deep_view()), wanted.deep_view()),
{
    let mut i: usize = 0;
    assert(lists.deep_view().take(0) =~= Seq::<Seq<LocaleEntry>>::empty());
    while i < lists.len()
        invariant
            i <= lists.len(),
            first_value(joined(lists.deep_view().take(i as int)), wanted.deep_view()) is None,
        decreases lists.len() - i,
    {
        proof {
            assert(lists.deep_view().take(i + 1).drop_last() =~= lists.deep_view().take(i as int));
            assert(lists.deep_view().take(i + 1).last() == lists[i as int].deep_view());
            lemma_first_value_concat(
                joined(lists.deep_view().take(i as int)),
                lists[i as int].deep_view(),
                wanted.deep_view(),
            );
        }
        let found = find_value(lists[i], wanted);
        if found.is_some() {
            proof {
                lemma_first_value_prefix(lists.deep_view(), i + 1, wanted.deep_view());
            }
            return found;
        }
        i += 1;
    }
    assert(lists.deep_view().take(lists.len() as int) =~= lists.deep_view());
    None
}

/// A first value found in the first `n` lists is the first value of all.
proof fn lemma_first_value_prefix(lists: Seq<Seq<LocaleEntry>>, n: int, wanted: Option<Seq<char>>)
    requires
        0 <= n <= lists.len(),
        first_value(joined(lists.take(n)), wanted) is Some,
    ensures
        first_value(joined(lists), wanted) == first_value(joined(lists.take(n)), wanted),
    decreases lists.len() - n,
{
    if n == lists.len() {
        assert(lists.take(n) =~= lists);
    } else {
        assert(lists.take(n + 1).drop_last() =~= lists.take(n));
        lemma_first_value_concat(joined(lists.take(n)), lists[n], wanted);
        lemma_first_value_prefix(lists, n + 1, wanted);
    }
}

/// The value chosen for `locale` among the entries of all the lists, by the
/// fallback rule.
pub fn select_among<'a>(lists: &Vec<&'a Vec<LocaleValue>>, locale: &str) -> (text: Option<&'a str>)
    ensures
        text.deep_view() == selected_text(joined(lists.deep_view()), locale@),
{
    let exact = find_among(lists, Some(locale));
    if exact.is_some() {
        return exact;
    }
    let british = find_among(lists, Some("en_GB"));
    if british.is_some() {
        return british;
    }
    let english = find_among(lists, Some("en"));
    if english.is_some() {
        return english;
    }
    find_among(lists, None)
}

/// Adds to `out` the values of the entries that are written in `locale`.
pub fn push_values_in<'a>(entries: &'a Vec<LocaleValue>, locale: &str, out: &mut Vec<&'a str>)
    ensures
        final(out).deep_view() == old(out).deep_view() + values_in(entries.deep_view(), locale@),
{
    let mut i: usize = 0;
    proof {
        assert(entries.deep_view().take(0) =~= Seq::<LocaleEntry>::empty());
        assert(out.deep_view() =~= old(out).deep_view() + values_in(
            entries.deep_view().take(0),
            locale@,
        ));
    }
    while i < entries.len()
        invariant
            i <= entries.len(),
            out.deep_view() == old(out).deep_view() + values_in(
                entries.deep_view().take(i as int),
                locale@,
            ),
        decreases entries.len() - i,
    {
        let ghost before = out.deep_view();
        proof {
            assert(entries.deep_view().take(i + 1).drop_last() =~= entries.deep_view().take(
                i as int,
            ));
            assert(entries.deep_view().take(i + 1).last() == entries[i as int].deep_view());
        }
        let entry = &entries[i];
        let in_locale = match &entry.locale {
            Some(own) => str_eq(own.as_str(), locale),
            None => false,
        };
        if in_locale {
            match &entry.value {
                Some(value) => {
                    out.push(value.as_str());
                    assert(out.deep_view() =~= before + seq![value@]);
                },
                None => {},
            }
        }
        assert(out.deep_view() =~= old(out).deep_view() + values_in(
            entries.deep_view().take(i + 1),
            locale@,
        ));
        i += 1;
    }
    assert(entries.deep_view().take(entries.len() as int) =~= entries.deep_view());
}

} // verus!
