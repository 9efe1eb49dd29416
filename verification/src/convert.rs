//! Conversion of MyAnimeList records into lookup results: the title to show,
//! the other titles, the airing status, the year, the images and the extra
//! parameters.

use vstd::prelude::*;
use vstd::string::*;

use rs_plugin_common_interfaces::domain::serie::SerieType;

use crate::mal::{MyAnimeListAnime, MyAnimeListGenre, MyAnimeListPicture};
use crate::text::{
    chars_of, decimal, push_decimal, index_of_char, is_blank, is_blank_seq, parse_u16_chars, parse_u16_seq, take_until,
};

verus! {

/// The English title of `media`, where it has one.
pub open spec fn english_title(media: MyAnimeListAnime) -> Option<Seq<char>> {
    match media.alternative_titles {
        Some(titles) => titles.en.deep_view(),
        None => None,
    }
}

/// The title to show: the English title unless it is missing or blank,
/// else the main title.
pub open spec fn best_title_spec(media: MyAnimeListAnime) -> Seq<char> {
    match english_title(media) {
        Some(en) => if !is_blank_seq(en) {
            en
        } else {
            media.title@
        },
        None => media.title@,
    }
}

/// `alts` with `candidate` added at the end, unless it is blank, equal to
/// `primary`, or already there.
pub open spec fn add_alt(alts: Seq<Seq<char>>, candidate: Seq<char>, primary: Seq<char>) -> Seq<
    Seq<char>,
> {
    if !is_blank_seq(candidate) && candidate != primary && !alts.contains(candidate) {
        alts.push(candidate)
    } else {
        alts
    }
}

/// `alts` with each of `candidates` added in turn by [`add_alt`].
pub open spec fn add_alts(alts: Seq<Seq<char>>, candidates: Seq<Seq<char>>, primary: Seq<char>) -> Seq<
    Seq<char>,
>
    decreases candidates.len(),
{
    if candidates.len() == 0 {
        alts
    } else {
        add_alt(add_alts(alts, candidates.drop_last(), primary), candidates.last(), primary)
    }
}

/// The zero or one texts of `o`.
pub open spec fn optional_text(o: Option<Seq<char>>) -> Seq<Seq<char>> {
    match o {
        Some(s) => seq![s],
        None => Seq::empty(),
    }
}

/// The alternative titles of `media` in the order they are considered: the
/// English title, the Japanese title, then the synonyms.
pub open spec fn alt_candidates(media: MyAnimeListAnime) -> Seq<Seq<char>> {
    match media.alternative_titles {
        Some(titles) => optional_text(titles.en.deep_view()) + optional_text(titles.ja.deep_view())
            + titles.synonyms.deep_view(),
        None => Seq::empty(),
    }
}

/// The other names of `media`: the main title when it is not the title
/// shown, then each alternative title that is not blank, not the title
/// shown and not already listed.
pub open spec fn alt_names_seq(media: MyAnimeListAnime) -> Seq<Seq<char>> {
    let primary = best_title_spec(media);
    let start = if media.title@ != primary {
        seq![media.title@]
    } else {
        Seq::<Seq<char>>::empty()
    };
    add_alts(start, alt_candidates(media), primary)
}

proof fn lemma_add_alts(start: Seq<Seq<char>>, candidates: Seq<Seq<char>>, primary: Seq<char>)
    requires
        !start.contains(primary),
        start.no_duplicates(),
    ensures
        !add_alts(start, candidates, primary).contains(primary),
        add_alts(start, candidates, primary).no_duplicates(),
        forall|x: Seq<char>| #[trigger]
            add_alts(start, candidates, primary).contains(x) ==> start.contains(x)
                || candidates.contains(x),
    decreases candidates.len(),
{
    if candidates.len() > 0 {
        let rest = candidates.drop_last();
        let c = candidates.last();
        lemma_add_alts(start, rest, primary);
        let prev = add_alts(start, rest, primary);
        let next = add_alts(start, candidates, primary);
        assert(next == add_alt(prev, c, primary));
        assert forall|x: Seq<char>| #[trigger] rest.contains(x) implies candidates.contains(x) by {
            let k = choose|k: int| 0 <= k < rest.len() && rest[k] == x;
            assert(candidates[k] == x);
        }
        assert(candidates.contains(c)) by {
            assert(candidates[candidates.len() - 1] == c);
        }
        if !is_blank_seq(c) && c != primary && !prev.contains(c) {
            assert(next == prev.push(c));
            assert forall|x: Seq<char>| #[trigger] next.contains(x) implies prev.contains(x) || x
                == c by {
                let k = choose|k: int| 0 <= k < next.len() && next[k] == x;
                if k < prev.len() {
                    assert(prev[k] == x);
                }
            }
            assert forall|i: int, j: int| 0 <= i < next.len() && 0 <= j < next.len() && i != j
                implies next[i] != next[j] by {
                if i < prev.len() && j < prev.len() {
                } else if i < prev.len() {
                    assert(prev.contains(next[i]));
                } else if j < prev.len() {
                    assert(prev.contains(next[j]));
                }
            }
        }
    }
}

/// The other names of an anime never repeat the title shown, never list a
/// name twice, and each of them is its main title or one of its
/// alternative titles.
pub proof fn lemma_alt_names_laws(media: MyAnimeListAnime)
    ensures
        !alt_names_seq(media).contains(best_title_spec(media)),
        alt_names_seq(media).no_duplicates(),
        forall|x: Seq<char>| #[trigger]
            alt_names_seq(media).contains(x) ==> x == media.title@ || alt_candidates(
                media,
            ).contains(x),
{
    let primary = best_title_spec(media);
    let start = if media.title@ != primary {
        seq![media.title@]
    } else {
        Seq::<Seq<char>>::empty()
    };
    assert(!start.contains(primary));
    lemma_add_alts(start, alt_candidates(media), primary);
}

proof fn lemma_add_alts_complete(start: Seq<Seq<char>>, candidates: Seq<Seq<char>>, primary: Seq<char>)
    ensures
        forall|x: Seq<char>| #[trigger] start.contains(x) ==> add_alts(start, candidates, primary).contains(x),
        forall|i: int|
            0 <= i < candidates.len() && !is_blank_seq(#[trigger] candidates[i]) && candidates[i]
                != primary ==> add_alts(start, candidates, primary).contains(candidates[i]),
    decreases candidates.len(),
{
    if candidates.len() > 0 {
        let rest = candidates.drop_last();
        let c = candidates.last();
        lemma_add_alts_complete(start, rest, primary);
        let prev = add_alts(start, rest, primary);
        let next = add_alts(start, candidates, primary);
        assert(next == add_alt(prev, c, primary));
        assert forall|x: Seq<char>| #[trigger] prev.contains(x) implies next.contains(x) by {
            if next != prev {
                let k = choose|k: int| 0 <= k < prev.len() && prev[k] == x;
                assert(next[k] == x);
            }
        }
        if !is_blank_seq(c) && c != primary {
            if !prev.contains(c) {
                assert(next[prev.len() as int] == c);
            }
        }
        assert forall|i: int|
            0 <= i < candidates.len() && !is_blank_seq(#[trigger] candidates[i]) && candidates[i]
                != primary implies next.contains(candidates[i]) by {
            if i < rest.len() {
                assert(rest[i] == candidates[i]);
                assert(prev.contains(rest[i]));
            }
        }
    }
}

/// Whether `names` lists every other name of `media` against the title
/// shown `primary`: its main title when that is not `primary`, and each of
/// its English title, its Japanese title and its synonyms that is not blank
/// and not `primary`.
pub open spec fn lists_every_other_name(media: MyAnimeListAnime, names: Seq<Seq<char>>, primary: Seq<
    char,
>) -> bool {
    &&& media.title@ != primary ==> names.contains(media.title@)
    &&& media.alternative_titles matches Some(t) ==> ((t.en is Some && !is_blank_seq(t.en->0@)
        && t.en->0@ != primary) ==> names.contains(t.en->0@))
    &&& media.alternative_titles matches Some(t) ==> ((t.ja is Some && !is_blank_seq(t.ja->0@)
        && t.ja->0@ != primary) ==> names.contains(t.ja->0@))
    &&& media.alternative_titles matches Some(t) ==> forall|i: int|
        0 <= i < t.synonyms@.len() && !is_blank_seq(#[trigger] t.synonyms@[i]@) && t.synonyms@[i]@
            != primary ==> names.contains(t.synonyms@[i]@)
}

/// The other names of an anime leave nothing out: its main title when it
/// is not the title shown, and each English title, Japanese title and
/// synonym that is neither blank nor the title shown.
pub proof fn lemma_alt_names_complete(media: MyAnimeListAnime)
    ensures
        lists_every_other_name(media, alt_names_seq(media), best_title_spec(media)),
{
    let primary = best_title_spec(media);
    let start = if media.title@ != primary {
        seq![media.title@]
    } else {
        Seq::<Seq<char>>::empty()
    };
    let cands = alt_candidates(media);
    lemma_add_alts_complete(start, cands, primary);
    if media.title@ != primary {
        assert(start[0] == media.title@);
        assert(start.contains(media.title@));
    }
    if let Some(t) = media.alternative_titles {
        let en = optional_text(t.en.deep_view());
        let ja = optional_text(t.ja.deep_view());
        let syn = t.synonyms.deep_view();
        assert(cands == en + ja + syn);
        if t.en is Some {
            assert(cands[0] == t.en->0@);
            if !is_blank_seq(cands[0]) && cands[0] != primary {
                assert(alt_names_seq(media).contains(cands[0]));
            }
        }
        if t.ja is Some {
            assert(cands[en.len() as int] == t.ja->0@);
            if !is_blank_seq(cands[en.len() as int]) && cands[en.len() as int] != primary {
                assert(alt_names_seq(media).contains(cands[en.len() as int]));
            }
        }
        assert forall|i: int|
            0 <= i < t.synonyms@.len() && !is_blank_seq(#[trigger] t.synonyms@[i]@) && t.synonyms@[i]@
                != primary implies alt_names_seq(media).contains(t.synonyms@[i]@) by {
            assert(syn[i] == t.synonyms@[i]@);
            assert(cands[en.len() + ja.len() + i] == t.synonyms@[i]@);
            assert(!is_blank_seq(cands[en.len() + ja.len() + i]));
        }
    }
}

/// Whether `list` keeps the order in which its items first come in
/// `sources`: each item of `list` comes in `sources` before every place
/// where a later item of `list` comes.
pub open spec fn in_order_of_sources(list: Seq<Seq<char>>, sources: Seq<Seq<char>>) -> bool {
    forall|i: int, j: int, k: int|
        #![trigger list[i], list[j], sources[k]]
        0 <= i < j < list.len() && 0 <= k < sources.len() && sources[k] == list[j] ==> comes_before(
            sources,
            list[i],
            k,
        )
}

/// Whether `x` comes in `sources` before place `k`.
pub open spec fn comes_before(sources: Seq<Seq<char>>, x: Seq<char>, k: int) -> bool {
    exists|m: int| 0 <= m < k && #[trigger] sources[m] == x
}

/// The names that other names of `media` are taken from, in order: its
/// main title, its English title, its Japanese title and its synonyms.
pub open spec fn name_sources(media: MyAnimeListAnime) -> Seq<Seq<char>> {
    seq![media.title@] + alt_candidates(media)
}

proof fn lemma_add_alts_order(
    start: Seq<Seq<char>>,
    before: Seq<Seq<char>>,
    candidates: Seq<Seq<char>>,
    primary: Seq<char>,
)
    requires
        forall|x: Seq<char>| #[trigger] start.contains(x) ==> before.contains(x),
        forall|k: int|
            0 <= k < before.len() && !is_blank_seq(#[trigger] before[k]) && before[k] != primary
                ==> start.contains(before[k]),
        in_order_of_sources(start, before),
    ensures
        forall|x: Seq<char>| #[trigger]
            add_alts(start, candidates, primary).contains(x) ==> (before + candidates).contains(x),
        forall|k: int|
            0 <= k < (before + candidates).len() && !is_blank_seq(#[trigger] (before + candidates)[k])
                && (before + candidates)[k] != primary ==> add_alts(start, candidates, primary).contains(
                (before + candidates)[k],
            ),
        in_order_of_sources(add_alts(start, candidates, primary), before + candidates),
        forall|x: Seq<char>| #[trigger]
            add_alts(start, candidates, primary).contains(x) ==> start.contains(x) || !is_blank_seq(x),
    decreases candidates.len(),
{
    if candidates.len() == 0 {
        assert(before + candidates =~= before);
    } else {
        let rest = candidates.drop_last();
        let c = candidates.last();
        lemma_add_alts_order(start, before, rest, primary);
        let prev = add_alts(start, rest, primary);
        let next = add_alts(start, candidates, primary);
        let sp = before + rest;
        let sn = before + candidates;
        assert(sn =~= sp.push(c));
        assert(next == add_alt(prev, c, primary));
        assert forall|x: Seq<char>| #[trigger] sp.contains(x) implies sn.contains(x) by {
            let k = choose|k: int| 0 <= k < sp.len() && sp[k] == x;
            assert(sn[k] == x);
        }
        assert(sn[sp.len() as int] == c);
        let added = !is_blank_seq(c) && c != primary && !prev.contains(c);
        if added {
            assert(next == prev.push(c));
            assert forall|x: Seq<char>| #[trigger] prev.contains(x) implies next.contains(x) by {
                let k = choose|k: int| 0 <= k < prev.len() && prev[k] == x;
                assert(next[k] == x);
            }
            assert(next[prev.len() as int] == c);
        } else {
            assert(next == prev);
        }
        assert forall|x: Seq<char>| #[trigger] next.contains(x) implies sn.contains(x) && (
        start.contains(x) || !is_blank_seq(x)) by {
            let k = choose|k: int| 0 <= k < next.len() && next[k] == x;
            if k < prev.len() {
                assert(prev[k] == x);
                assert(prev.contains(x));
            }
        }
        assert forall|k: int|
            0 <= k < sn.len() && !is_blank_seq(#[trigger] sn[k]) && sn[k] != primary implies next.contains(
            sn[k],
        ) by {
            if k < sp.len() {
                assert(sp[k] == sn[k]);
            }
        }
        assert forall|i: int, j: int, k: int|
            #![trigger next[i], next[j], sn[k]]
            0 <= i < j < next.len() && 0 <= k < sn.len() && sn[k] == next[j] implies comes_before(
            sn,
            next[i],
            k,
        ) by {
            assert(prev.contains(next[i])) by {
                assert(next[i] == prev[i]);
            }
            let m0 = choose|m: int| 0 <= m < sp.len() && sp[m] == next[i];
            if j < prev.len() {
                assert(next[j] == prev[j]);
                if k < sp.len() {
                    assert(sp[k] == prev[j]);
                    let m = choose|m: int| 0 <= m < k && #[trigger] sp[m] == prev[i];
                    assert(sn[m] == next[i]);
                } else {
                    assert(prev.contains(prev[j]));
                    let k0 = choose|k0: int| 0 <= k0 < sp.len() && sp[k0] == prev[j];
                    assert(sp[k0] == prev[j]);
                    let m = choose|m: int| 0 <= m < k0 && #[trigger] sp[m] == prev[i];
                    assert(sn[m] == next[i]);
                }
            } else {
                if k < sp.len() {
                    assert(sp[k] == c);
                    assert(prev.contains(c));
                }
                assert(sn[m0] == next[i]);
            }
        }
    }
}

/// The other names of an anime come in the order in which they first come
/// among its main title, English title, Japanese title and synonyms, and
/// none of them is blank but, where it is, the main title.
pub proof fn lemma_alt_names_order(media: MyAnimeListAnime)
    ensures
        in_order_of_sources(alt_names_seq(media), name_sources(media)),
        forall|x: Seq<char>| #[trigger]
            alt_names_seq(media).contains(x) ==> x == media.title@ || !is_blank_seq(x),
{
    let primary = best_title_spec(media);
    let start = if media.title@ != primary {
        seq![media.title@]
    } else {
        Seq::<Seq<char>>::empty()
    };
    let before = seq![media.title@];
    assert forall|x: Seq<char>| #[trigger] start.contains(x) implies before.contains(x) by {
        assert(before[0] == media.title@);
    }
    assert forall|k: int|
        0 <= k < before.len() && !is_blank_seq(#[trigger] before[k]) && before[k] != primary implies start.contains(
        before[k],
    ) by {
        assert(start[0] == media.title@);
    }
    lemma_add_alts_order(start, before, alt_candidates(media), primary);
    assert forall|x: Seq<char>| #[trigger]
        alt_names_seq(media).contains(x) implies x == media.title@ || !is_blank_seq(x) by {
        if start.contains(x) {
            let k = choose|k: int| 0 <= k < start.len() && start[k] == x;
        }
    }
}

/// The title to show for `media`.
pub fn best_title(media: &MyAnimeListAnime) -> (title: String)
    ensures
        title@ == best_title_spec(*media),
{
    if let Some(titles) = &media.alternative_titles {
        if let Some(en) = &titles.en {
            if !is_blank(en.as_str()) {
                return en.clone();
            }
        }
    }
    media.title.clone()
}

/// Whether `values` holds a text equal to `value`.
fn contains_text(values: &Vec<String>, value: &String) -> (r: bool)
    ensures
        r == values.deep_view().contains(value@),
{
    let mut i: usize = 0;
    while i < values.len()
        invariant
            i <= values@.len(),
            forall|k: int| 0 <= k < i ==> values@[k]@ != value@,
        decreases values@.len() - i,
    {
        if values[i] == *value {
            assert(values.deep_view()[i as int] == value@);
            return true;
        }
        i = i + 1;
    }
    assert forall|k: int| 0 <= k < values.deep_view().len() implies values.deep_view()[k]
        != value@ by {
        assert(values.deep_view()[k] == values@[k]@);
    }
    false
}

/// Adds `value` to `values` as [`add_alt`] does, against `primary`.
pub fn push_unique(values: &mut Vec<String>, value: Option<&String>, primary: &str)
    ensures
        final(values).deep_view() == match value {
            Some(candidate) => add_alt(old(values).deep_view(), candidate@, primary@),
            None => old(values).deep_view(),
        },
{
    if let Some(candidate) = value {
        let primary_text = primary.to_owned();
        if !is_blank(candidate.as_str()) && !(*candidate == primary_text) && !contains_text(
            values,
            candidate,
        ) {
            let ghost before = values.deep_view();
            values.push(candidate.clone());
            assert(values.deep_view() =~= before.push(candidate@));
        }
    }
}

/// The other names of `media`, as [`alt_names_seq`] lists them; none when
/// that list is empty.
pub fn alt_names(media: &MyAnimeListAnime) -> (alts: Option<Vec<String>>)
    ensures
        match alts {
            Some(v) => v.deep_view() == alt_names_seq(*media) && v@.len() > 0,
            None => alt_names_seq(*media).len() == 0,
        },
        lists_every_other_name(
            *media,
            match alts {
                Some(v) => v.deep_view(),
                None => Seq::empty(),
            },
            best_title_spec(*media),
        ),
        in_order_of_sources(
            match alts {
                Some(v) => v.deep_view(),
                None => Seq::empty(),
            },
            name_sources(*media),
        ),
        alts matches Some(v) ==> forall|i: int|
            0 <= i < v@.len() ==> v@[i]@ == media.title@ || !is_blank_seq(#[trigger] v@[i]@),
{
    proof {
        lemma_alt_names_complete(*media);
        lemma_alt_names_order(*media);
    }
    let primary = best_title(media);
    let mut alts: Vec<String> = Vec::new();
    if !(media.title == primary) {
        alts.push(media.title.clone());
    }
    let ghost start = alts.deep_view();
    assert(start =~= if media.title@ != primary@ {
        seq![media.title@]
    } else {
        Seq::<Seq<char>>::empty()
    });
    if let Some(titles) = &media.alternative_titles {
        let ghost head = optional_text(titles.en.deep_view()) + optional_text(titles.ja.deep_view());
        push_unique(&mut alts, titles.en.as_ref(), primary.as_str());
        assert(add_alts(start, optional_text(titles.en.deep_view()), primary@) =~= alts.deep_view())
            by {
            let o = optional_text(titles.en.deep_view());
            if titles.en is Some {
                assert(o.drop_last() =~= Seq::<Seq<char>>::empty());
                assert(add_alts(start, o.drop_last(), primary@) == start);
                assert(o.last() == titles.en->0@);
            } else {
                assert(o =~= Seq::<Seq<char>>::empty());
            }
        }
        push_unique(&mut alts, titles.ja.as_ref(), primary.as_str());
        assert(add_alts(start, head, primary@) == alts.deep_view()) by {
            if titles.ja is Some {
                assert(head.drop_last() =~= optional_text(titles.en.deep_view()));
            } else {
                assert(head =~= optional_text(titles.en.deep_view()));
            }
        }
        let mut i: usize = 0;
        while i < titles.synonyms.len()
            invariant
                i <= titles.synonyms@.len(),
                alts.deep_view() == add_alts(
                    start,
                    head + titles.synonyms.deep_view().subrange(0, i as int),
                    primary@,
                ),
            decreases titles.synonyms@.len() - i,
        {
            let ghost prev = head + titles.synonyms.deep_view().subrange(0, i as int);
            push_unique(&mut alts, Some(&titles.synonyms[i]), primary.as_str());
            let ghost next = head + titles.synonyms.deep_view().subrange(0, i + 1);
            assert(next.drop_last() =~= prev);
            assert(next.last() == titles.synonyms@[i as int]@);
            i = i + 1;
        }
        assert(head + titles.synonyms.deep_view().subrange(0, titles.synonyms@.len() as int)
            =~= alt_candidates(*media));
    } else {
        assert(alt_candidates(*media) =~= Seq::<Seq<char>>::empty());
    }
    assert forall|i: int| 0 <= i < alts@.len() implies alts@[i]@ == media.title@ || !is_blank_seq(
        #[trigger] alts@[i]@,
    ) by {
        assert(alts.deep_view()[i] == alts@[i]@);
        assert(alts.deep_view().contains(alts@[i]@));
    }
    if alts.len() == 0 {
        None
    } else {
        Some(alts)
    }
}

/// The airing status of a series.
#[derive(Clone, Copy, Debug, PartialEq, Eq, Structural)]
pub enum AnimeStatus {
    Ended,
    Returning,
    Planned,
    Unknown,
}

/// The status that the API's status name stands for.
pub open spec fn status_named(name: Seq<char>) -> AnimeStatus {
    if name == "finished_airing"@ {
        AnimeStatus::Ended
    } else if name == "currently_airing"@ {
        AnimeStatus::Returning
    } else if name == "not_yet_aired"@ {
        AnimeStatus::Planned
    } else {
        AnimeStatus::Unknown
    }
}

/// The status of a series from the API's status name, where there is one.
pub fn map_status(status: &Option<String>) -> (r: Option<AnimeStatus>)
    ensures
        r == match status {
            Some(name) => Some(status_named(name@)),
            None => None,
        },
{
    match status {
        Some(name) => {
            let n = name.as_str();
            if crate::text::same_text(n, "finished_airing") {
                Some(AnimeStatus::Ended)
            } else if crate::text::same_text(n, "currently_airing") {
                Some(AnimeStatus::Returning)
            } else if crate::text::same_text(n, "not_yet_aired") {
                Some(AnimeStatus::Planned)
            } else {
                Some(AnimeStatus::Unknown)
            }
        },
        None => None,
    }
}

/// The year of a start date: the `u16` spelled by the text before its
/// first `-`.
pub fn year_from_start_date(start_date: &Option<String>) -> (year: Option<u16>)
    ensures
        year == match start_date {
            Some(date) => parse_u16_seq(take_until(date@, '-')),
            None => None,
        },
{
    match start_date {
        Some(date) => {
            let cs = chars_of(date.as_str());
            let end = index_of_char(cs.as_slice(), '-');
            parse_u16_chars(cs.as_slice(), 0, end)
        },
        None => None,
    }
}

/// The role of an image.
#[derive(Clone, Copy, Debug, PartialEq, Eq, Structural)]
pub enum ImageKind {
    Poster,
    Background,
}

/// An image of a series: its role and its URL.
#[derive(Clone, Debug)]
pub struct MalImage {
    pub kind: ImageKind,
    pub url: String,
}

/// An image as its role and the characters of its URL.
pub open spec fn image_view(image: MalImage) -> (ImageKind, Seq<char>) {
    (image.kind, image.url@)
}

/// The images `images` as roles and URLs.
pub open spec fn images_view(images: Seq<MalImage>) -> Seq<(ImageKind, Seq<char>)> {
    images.map_values(|image: MalImage| image_view(image))
}

/// The URLs of `images`, in order.
pub open spec fn image_urls(images: Seq<(ImageKind, Seq<char>)>) -> Seq<Seq<char>> {
    images.map_values(|image: (ImageKind, Seq<char>)| image.1)
}

/// The characters of the text `o` refers to, where there is one.
pub open spec fn optional_ref_text(o: Option<&String>) -> Option<Seq<char>> {
    match o {
        Some(t) => Some(t@),
        None => None,
    }
}

/// The URL of a picture: its large version, else its medium one.
pub open spec fn pick_url_spec(picture: MyAnimeListPicture) -> Option<Seq<char>> {
    match picture.large {
        Some(large) => Some(large@),
        None => picture.medium.deep_view(),
    }
}

/// `images` with an image of role `kind` at `url` added at the end, unless
/// there is no URL or an image at that URL is already there.
pub open spec fn add_image(
    images: Seq<(ImageKind, Seq<char>)>,
    kind: ImageKind,
    url: Option<Seq<char>>,
) -> Seq<(ImageKind, Seq<char>)> {
    match url {
        Some(u) => if image_urls(images).contains(u) {
            images
        } else {
            images.push((kind, u))
        },
        None => images,
    }
}

/// `images` with a background added by [`add_image`] for each of `pictures`.
pub open spec fn add_backgrounds(
    images: Seq<(ImageKind, Seq<char>)>,
    pictures: Seq<MyAnimeListPicture>,
) -> Seq<(ImageKind, Seq<char>)>
    decreases pictures.len(),
{
    if pictures.len() == 0 {
        images
    } else {
        add_image(
            add_backgrounds(images, pictures.drop_last()),
            ImageKind::Background,
            pick_url_spec(pictures.last()),
        )
    }
}

/// The images of `media`: the main picture as poster, then each other
/// picture as background, each URL once.
pub open spec fn images_spec(media: MyAnimeListAnime) -> Seq<(ImageKind, Seq<char>)> {
    let posters = match media.main_picture {
        Some(main) => add_image(Seq::empty(), ImageKind::Poster, pick_url_spec(main)),
        None => Seq::empty(),
    };
    match media.pictures {
        Some(pictures) => add_backgrounds(posters, pictures@),
        None => posters,
    }
}

proof fn lemma_add_backgrounds(images: Seq<(ImageKind, Seq<char>)>, pictures: Seq<MyAnimeListPicture>)
    requires
        image_urls(images).no_duplicates(),
    ensures
        image_urls(add_backgrounds(images, pictures)).no_duplicates(),
        images.len() <= add_backgrounds(images, pictures).len() <= images.len() + pictures.len(),
        add_backgrounds(images, pictures).subrange(0, images.len() as int) == images,
        forall|i: int|
            images.len() <= i < add_backgrounds(images, pictures).len() ==> (#[trigger] add_backgrounds(
                images,
                pictures,
            )[i]).0 == ImageKind::Background,
    decreases pictures.len(),
{
    let result = add_backgrounds(images, pictures);
    if pictures.len() == 0 {
        assert(images.subrange(0, images.len() as int) =~= images);
    } else {
        lemma_add_backgrounds(images, pictures.drop_last());
        let prev = add_backgrounds(images, pictures.drop_last());
        let url = pick_url_spec(pictures.last());
        assert(result == add_image(prev, ImageKind::Background, url));
        if let Some(u) = url {
            if !image_urls(prev).contains(u) {
                assert(result == prev.push((ImageKind::Background, u)));
                assert(image_urls(result) =~= image_urls(prev).push(u));
                assert forall|i: int, j: int|
                    0 <= i < image_urls(result).len() && 0 <= j < image_urls(result).len() && i
                        != j implies image_urls(result)[i] != image_urls(result)[j] by {
                    if i < prev.len() && j < prev.len() {
                        assert(image_urls(result)[i] == image_urls(prev)[i]);
                        assert(image_urls(result)[j] == image_urls(prev)[j]);
                    } else if i < prev.len() {
                        assert(image_urls(result)[i] == image_urls(prev)[i]);
                        assert(image_urls(prev).contains(image_urls(result)[i]));
                    } else if j < prev.len() {
                        assert(image_urls(result)[j] == image_urls(prev)[j]);
                        assert(image_urls(prev).contains(image_urls(result)[j]));
                    }
                }
                assert(result.subrange(0, images.len() as int) =~= prev.subrange(
                    0,
                    images.len() as int,
                ));
            }
        }
    }
}

/// The images of an anime never repeat a URL; there is at most one image
/// for its main picture and one for each other picture; only the first can
/// be a poster, and it is the main picture's whenever that one has a URL.
pub proof fn lemma_images_laws(media: MyAnimeListAnime)
    ensures
        image_urls(images_spec(media)).no_duplicates(),
        images_spec(media).len() <= (if media.main_picture is Some {
            1int
        } else {
            0int
        }) + match media.pictures {
            Some(pictures) => pictures@.len() as int,
            None => 0int,
        },
        forall|i: int|
            0 < i < images_spec(media).len() ==> (#[trigger] images_spec(media)[i]).0
                == ImageKind::Background,
        (media.main_picture matches Some(main) && pick_url_spec(main) is Some) ==> images_spec(
            media,
        ).len() > 0 && images_spec(media)[0] == (
            ImageKind::Poster,
            pick_url_spec(media.main_picture->0)->0,
        ),
{
    let empty = Seq::<(ImageKind, Seq<char>)>::empty();
    let posters = match media.main_picture {
        Some(main) => add_image(empty, ImageKind::Poster, pick_url_spec(main)),
        None => empty,
    };
    assert(image_urls(empty) =~= Seq::<Seq<char>>::empty());
    assert(image_urls(posters).no_duplicates()) by {
        if posters.len() == 1 {
            assert(image_urls(posters).len() == 1);
        } else {
            assert(posters =~= empty);
        }
    }
    if let Some(pictures) = media.pictures {
        lemma_add_backgrounds(posters, pictures@);
        let all = add_backgrounds(posters, pictures@);
        assert forall|i: int| 0 < i < all.len() implies (#[trigger] all[i]).0
            == ImageKind::Background by {
            if i < posters.len() {
                assert(posters.len() <= 1);
            }
        }
        if posters.len() > 0 {
            assert(all[0] == all.subrange(0, posters.len() as int)[0]);
        }
    }
}

proof fn lemma_add_backgrounds_complete(
    images: Seq<(ImageKind, Seq<char>)>,
    pictures: Seq<MyAnimeListPicture>,
)
    ensures
        forall|u: Seq<char>| #[trigger]
            image_urls(images).contains(u) ==> image_urls(add_backgrounds(images, pictures)).contains(
                u,
            ),
        forall|i: int|
            0 <= i < pictures.len() && #[trigger] pick_url_spec(pictures[i]) is Some
                ==> image_urls(add_backgrounds(images, pictures)).contains(
                pick_url_spec(pictures[i])->0,
            ),
    decreases pictures.len(),
{
    if pictures.len() > 0 {
        let rest = pictures.drop_last();
        lemma_add_backgrounds_complete(images, rest);
        let prev = add_backgrounds(images, rest);
        let url = pick_url_spec(pictures.last());
        lemma_add_image_keeps(prev, ImageKind::Background, url);
        assert forall|i: int|
            0 <= i < pictures.len() && #[trigger] pick_url_spec(pictures[i]) is Some implies image_urls(
                add_backgrounds(images, pictures),
            ).contains(pick_url_spec(pictures[i])->0) by {
            if i < rest.len() {
                assert(rest[i] == pictures[i]);
            }
        }
    }
}

proof fn lemma_add_image_keeps(
    images: Seq<(ImageKind, Seq<char>)>,
    kind: ImageKind,
    url: Option<Seq<char>>,
)
    ensures
        forall|u: Seq<char>| #[trigger]
            image_urls(images).contains(u) ==> image_urls(add_image(images, kind, url)).contains(u),
        url matches Some(u) ==> image_urls(add_image(images, kind, url)).contains(u),
{
    if let Some(u) = url {
        if !image_urls(images).contains(u) {
            let next = images.push((kind, u));
            assert(image_urls(next) =~= image_urls(images).push(u));
            assert(image_urls(next)[image_urls(images).len() as int] == u);
            assert forall|v: Seq<char>| #[trigger] image_urls(images).contains(v) implies image_urls(
                next,
            ).contains(v) by {
                let k = choose|k: int| 0 <= k < image_urls(images).len() && image_urls(images)[k] == v;
                assert(image_urls(next)[k] == v);
            }
        }
    }
}

/// Every picture of `media` shows among `urls`: the URL of the main picture
/// and of each other picture, its large version when it has one and else
/// its medium one.
pub open spec fn shows_every_picture(media: MyAnimeListAnime, urls: Seq<Seq<char>>) -> bool {
    &&& media.main_picture matches Some(main) ==> (main.large matches Some(l) ==> urls.contains(l@))
    &&& media.main_picture matches Some(main) ==> ((main.large is None && main.medium is Some)
        ==> urls.contains(main.medium->0@))
    &&& media.pictures matches Some(pictures) ==> forall|i: int|
        0 <= i < pictures@.len() ==> (#[trigger] pictures@[i].large matches Some(l) ==> urls.contains(
            l@,
        ))
    &&& media.pictures matches Some(pictures) ==> forall|i: int|
        0 <= i < pictures@.len() ==> ((#[trigger] pictures@[i].large is None
            && pictures@[i].medium is Some) ==> urls.contains(pictures@[i].medium->0@))
}

/// Every picture of an anime shows among its images: the URL of the main
/// picture and of each other picture, its large version when it has one and
/// else its medium one, is the URL of some image.
pub proof fn lemma_images_complete(media: MyAnimeListAnime)
    ensures
        shows_every_picture(media, image_urls(images_spec(media))),
{
    let empty = Seq::<(ImageKind, Seq<char>)>::empty();
    let posters = match media.main_picture {
        Some(main) => add_image(empty, ImageKind::Poster, pick_url_spec(main)),
        None => empty,
    };
    if let Some(main) = media.main_picture {
        lemma_add_image_keeps(empty, ImageKind::Poster, pick_url_spec(main));
    }
    if let Some(pictures) = media.pictures {
        lemma_add_backgrounds_complete(posters, pictures@);
        assert forall|i: int| 0 <= i < pictures@.len() implies (#[trigger] pictures@[i].large matches Some(
            l,
        ) ==> image_urls(images_spec(media)).contains(l@)) by {
            if pictures@[i].large is Some {
                assert(pick_url_spec(pictures@[i]) is Some);
            }
        }
        assert forall|i: int| 0 <= i < pictures@.len() && (#[trigger] pictures@[i].large is None
            && pictures@[i].medium is Some) implies image_urls(images_spec(media)).contains(
            pictures@[i].medium->0@,
        ) by {
            if pictures@[i].large is None && pictures@[i].medium is Some {
                assert(pick_url_spec(pictures@[i]) is Some);
            }
        }
    }
}


/// The URLs that the pictures of `media` give, in order: that of its main
/// picture, then that of each other picture; none for a picture with
/// neither a large nor a medium version.
pub open spec fn picture_sources(media: MyAnimeListAnime) -> Seq<Option<Seq<char>>> {
    let main = match media.main_picture {
        Some(main) => seq![pick_url_spec(main)],
        None => Seq::empty(),
    };
    let others = match media.pictures {
        Some(pictures) => pictures@.map_values(|p: MyAnimeListPicture| pick_url_spec(p)),
        None => Seq::empty(),
    };
    main + others
}

/// Whether `x` is given in `sources` before place `k`.
pub open spec fn given_before(sources: Seq<Option<Seq<char>>>, x: Seq<char>, k: int) -> bool {
    exists|m: int| 0 <= m < k && #[trigger] sources[m] == Some(x)
}

/// Whether `urls` keeps the order in which its URLs are first given in
/// `sources`: each URL of `urls` is given before every place where a later
/// one is.
pub open spec fn in_order_given(urls: Seq<Seq<char>>, sources: Seq<Option<Seq<char>>>) -> bool {
    forall|i: int, j: int, k: int|
        #![trigger urls[i], urls[j], sources[k]]
        0 <= i < j < urls.len() && 0 <= k < sources.len() && sources[k] == Some(urls[j])
            ==> given_before(sources, urls[i], k)
}

proof fn lemma_add_backgrounds_order(
    images: Seq<(ImageKind, Seq<char>)>,
    before: Seq<Option<Seq<char>>>,
    pictures: Seq<MyAnimeListPicture>,
)
    requires
        forall|i: int|
            0 <= i < images.len() ==> given_before(before, #[trigger] images[i].1, before.len() as int),
        forall|k: int|
            0 <= k < before.len() && #[trigger] before[k] is Some ==> image_urls(images).contains(
                before[k]->0,
            ),
        in_order_given(image_urls(images), before),
    ensures
        ({
            let sources = before + pictures.map_values(|p: MyAnimeListPicture| pick_url_spec(p));
            let all = add_backgrounds(images, pictures);
            &&& forall|i: int|
                0 <= i < all.len() ==> given_before(sources, #[trigger] all[i].1, sources.len() as int)
            &&& forall|k: int|
                0 <= k < sources.len() && #[trigger] sources[k] is Some ==> image_urls(all).contains(
                    sources[k]->0,
                )
            &&& in_order_given(image_urls(all), sources)
        }),
    decreases pictures.len(),
{
    let f = |p: MyAnimeListPicture| pick_url_spec(p);
    let sn = before + pictures.map_values(f);
    let next = add_backgrounds(images, pictures);
    if pictures.len() == 0 {
        assert(sn =~= before);
    } else {
        let rest = pictures.drop_last();
        let c = pick_url_spec(pictures.last());
        lemma_add_backgrounds_order(images, before, rest);
        let sp = before + rest.map_values(f);
        let prev = add_backgrounds(images, rest);
        assert(sn =~= sp.push(c));
        assert(next == add_image(prev, ImageKind::Background, c));
        let added = c is Some && !image_urls(prev).contains(c->0);
        if added {
            assert(next == prev.push((ImageKind::Background, c->0)));
            assert(image_urls(next) =~= image_urls(prev).push(c->0));
        } else {
            assert(next == prev);
        }
        assert forall|i: int| 0 <= i < next.len() implies given_before(
            sn,
            #[trigger] next[i].1,
            sn.len() as int,
        ) by {
            if i < prev.len() {
                assert(next[i] == prev[i]);
                let m = choose|m: int| 0 <= m < sp.len() && #[trigger] sp[m] == Some(prev[i].1);
                assert(sn[m] == sp[m]);
            } else {
                assert(sn[sp.len() as int] == Some(next[i].1));
            }
        }
        assert forall|k: int| 0 <= k < sn.len() && #[trigger] sn[k] is Some implies image_urls(
            next,
        ).contains(sn[k]->0) by {
            if k < sp.len() {
                assert(sp[k] == sn[k]);
                let u = sn[k]->0;
                assert(image_urls(prev).contains(u));
                if added {
                    let q = choose|q: int| 0 <= q < image_urls(prev).len() && image_urls(prev)[q] == u;
                    assert(image_urls(next)[q] == u);
                }
            } else if added {
                assert(image_urls(next)[prev.len() as int] == c->0);
            }
        }
        let un = image_urls(next);
        let up = image_urls(prev);
        assert forall|i: int, j: int, k: int|
            #![trigger un[i], un[j], sn[k]]
            0 <= i < j < un.len() && 0 <= k < sn.len() && sn[k] == Some(un[j]) implies given_before(
            sn,
            un[i],
            k,
        ) by {
            assert(un[i] == up[i]);
            let m0 = choose|m: int| 0 <= m < sp.len() && #[trigger] sp[m] == Some(prev[i].1);
            if j < prev.len() {
                assert(un[j] == up[j]);
                if k < sp.len() {
                    assert(sp[k] == Some(up[j]));
                    let m = choose|m: int| 0 <= m < k && #[trigger] sp[m] == Some(up[i]);
                    assert(sn[m] == Some(un[i]));
                } else {
                    let k0 = choose|m: int| 0 <= m < sp.len() && #[trigger] sp[m] == Some(prev[j].1);
                    assert(sp[k0] == Some(up[j]));
                    let m = choose|m: int| 0 <= m < k0 && #[trigger] sp[m] == Some(up[i]);
                    assert(sn[m] == Some(un[i]));
                }
            } else {
                if k < sp.len() {
                    assert(sp[k] == c);
                    assert(up.contains(c->0));
                }
                assert(sn[m0] == Some(un[i]));
            }
        }
    }
}

/// Whether `images` come from the pictures of `media`, in the order in
/// which their URLs are first given, with a poster exactly at the front
/// and only where the main picture gives its URL.
pub open spec fn follows_the_pictures(media: MyAnimeListAnime, images: Seq<(ImageKind, Seq<char>)>) -> bool {
    &&& forall|i: int|
        0 <= i < images.len() ==> given_before(
            picture_sources(media),
            #[trigger] images[i].1,
            picture_sources(media).len() as int,
        )
    &&& in_order_given(image_urls(images), picture_sources(media))
    &&& forall|i: int|
        0 <= i < images.len() ==> ((#[trigger] images[i]).0 == ImageKind::Poster <==> (i == 0 && (
        media.main_picture matches Some(main) && pick_url_spec(main) is Some)))
}

/// The images of an anime come from its pictures, in the order in which
/// their URLs are first given, and an image is a poster exactly when it is
/// the first one and the main picture gives its URL.
pub proof fn lemma_images_order(media: MyAnimeListAnime)
    ensures
        follows_the_pictures(media, images_spec(media)),
{
    lemma_images_laws(media);
    let empty = Seq::<(ImageKind, Seq<char>)>::empty();
    let none = Seq::<Option<Seq<char>>>::empty();
    let posters = match media.main_picture {
        Some(main) => add_image(empty, ImageKind::Poster, pick_url_spec(main)),
        None => empty,
    };
    let before = match media.main_picture {
        Some(main) => seq![pick_url_spec(main)],
        None => none,
    };
    assert(image_urls(empty) =~= Seq::<Seq<char>>::empty());
    if let Some(main) = media.main_picture {
        if let Some(u) = pick_url_spec(main) {
            assert(posters == seq![(ImageKind::Poster, u)]);
            assert(image_urls(posters) =~= seq![u]);
            assert(before[0] == Some(u));
            assert(image_urls(posters)[0] == u);
        } else {
            assert(posters == empty);
        }
    }
    assert(image_urls(posters).len() <= 1);
    assert forall|i: int| 0 <= i < posters.len() implies given_before(
        before,
        #[trigger] posters[i].1,
        before.len() as int,
    ) by {
        assert(before[0] == Some(posters[i].1));
    }
    let f = |p: MyAnimeListPicture| pick_url_spec(p);
    match media.pictures {
        Some(pictures) => {
            lemma_add_backgrounds_order(posters, before, pictures@);
            lemma_add_backgrounds(posters, pictures@);
            assert(picture_sources(media) =~= before + pictures@.map_values(f));
        },
        None => {
            lemma_add_backgrounds_order(posters, before, Seq::empty());
            assert(picture_sources(media) =~= before + Seq::<MyAnimeListPicture>::empty().map_values(f));
            assert(add_backgrounds(posters, Seq::<MyAnimeListPicture>::empty()) == posters);
        },
    }
}

/// Adds an image of role `kind` at `url` as [`add_image`] does; `seen_urls`
/// holds the URLs of `images`.
pub fn push_image(
    images: &mut Vec<MalImage>,
    seen_urls: &mut Vec<String>,
    kind: ImageKind,
    url: Option<&String>,
)
    requires
        old(seen_urls).deep_view() == image_urls(images_view(old(images)@)),
    ensures
        images_view(final(images)@) == add_image(
            images_view(old(images)@),
            kind,
            optional_ref_text(url),
        ),
        final(seen_urls).deep_view() == image_urls(images_view(final(images)@)),
{
    if let Some(url) = url {
        if !contains_text(seen_urls, url) {
            let ghost before = images_view(images@);
            let ghost seen_before = seen_urls.deep_view();
            seen_urls.push(url.clone());
            images.push(MalImage { kind, url: url.clone() });
            assert(images_view(images@) =~= before.push((kind, url@)));
            assert(seen_urls.deep_view() =~= seen_before.push(url@));
            assert(image_urls(images_view(images@)) =~= image_urls(before).push(url@));
        }
    }
}

/// The URL of `picture`: its large version, else its medium one.
pub fn pick_url(picture: &MyAnimeListPicture) -> (url: Option<&String>)
    ensures
        optional_ref_text(url) == pick_url_spec(*picture),
{
    match &picture.large {
        Some(large) => Some(large),
        None => picture.medium.as_ref(),
    }
}

/// The images of `media`, as [`images_spec`] lists them.
pub fn build_images(media: &MyAnimeListAnime) -> (images: Vec<MalImage>)
    ensures
        images_view(images@) == images_spec(*media),
        shows_every_picture(*media, image_urls(images_view(images@))),
        follows_the_pictures(*media, images_view(images@)),
{
    proof {
        lemma_images_complete(*media);
        lemma_images_order(*media);
    }
    let mut images: Vec<MalImage> = Vec::new();
    let mut seen_urls: Vec<String> = Vec::new();
    assert(seen_urls.deep_view() =~= image_urls(images_view(images@)));
    if let Some(main_picture) = &media.main_picture {
        push_image(&mut images, &mut seen_urls, ImageKind::Poster, pick_url(main_picture));
    }
    assert(images_view(images@) == match media.main_picture {
        Some(main) => add_image(Seq::empty(), ImageKind::Poster, pick_url_spec(main)),
        None => Seq::<(ImageKind, Seq<char>)>::empty(),
    }) by {
        if media.main_picture is None {
            assert(images_view(images@) =~= Seq::<(ImageKind, Seq<char>)>::empty());
        } else {
            assert(images_view(Seq::<MalImage>::empty()) =~= Seq::<
                (ImageKind, Seq<char>),
            >::empty());
        }
    }
    if let Some(pictures) = &media.pictures {
        let ghost posters = images_view(images@);
        let mut i: usize = 0;
        while i < pictures.len()
            invariant
                i <= pictures@.len(),
                seen_urls.deep_view() == image_urls(images_view(images@)),
                images_view(images@) == add_backgrounds(posters, pictures@.subrange(0, i as int)),
            decreases pictures@.len() - i,
        {
            push_image(&mut images, &mut seen_urls, ImageKind::Background, pick_url(&pictures[i]));
            assert(pictures@.subrange(0, i + 1).drop_last() =~= pictures@.subrange(0, i as int));
            i = i + 1;
        }
        assert(pictures@.subrange(0, pictures@.len() as int) =~= pictures@);
    }
    images
}

/// The images of `media`: its main picture as poster, then its other
/// pictures as backgrounds, each URL once.
pub fn mal_anime_to_images(media: &MyAnimeListAnime) -> (images: Vec<MalImage>)
    ensures
        images_view(images@) == images_spec(*media),
        shows_every_picture(*media, image_urls(images_view(images@))),
        follows_the_pictures(*media, images_view(images@)),
{
    proof {
        lemma_images_complete(*media);
        lemma_images_order(*media);
    }
    build_images(media)
}

/// The names of `genres`, in order.
pub open spec fn genre_names_spec(genres: Seq<MyAnimeListGenre>) -> Seq<Seq<char>> {
    genres.map_values(|genre: MyAnimeListGenre| genre.name@)
}

/// The names of the genres, where there is a list of them.
pub fn collect_genre_names(genres: &Option<Vec<MyAnimeListGenre>>) -> (names: Option<
    Vec<String>,
>)
    ensures
        match genres {
            Some(items) => names is Some && names->0.deep_view() == genre_names_spec(items@),
            None => names is None,
        },
{
    match genres {
        Some(items) => {
            let mut names: Vec<String> = Vec::new();
            let mut i: usize = 0;
            while i < items.len()
                invariant
                    i <= items@.len(),
                    names.deep_view() == genre_names_spec(items@.subrange(0, i as int)),
                decreases items@.len() - i,
            {
                let ghost before = names.deep_view();
                names.push(items[i].name.clone());
                assert(names.deep_view() =~= before.push(items@[i as int].name@));
                assert(genre_names_spec(items@.subrange(0, i + 1)) =~= genre_names_spec(
                    items@.subrange(0, i as int),
                ).push(items@[i as int].name@));
                i = i + 1;
            }
            assert(items@.subrange(0, items@.len() as int) =~= items@);
            Some(names)
        },
        None => None,
    }
}

/// A value among the extra parameters of a result.
#[derive(Clone, Debug)]
pub enum ParamValue {
    Number(u64),
    Text(String),
    List(Vec<String>),
}

/// A parameter value with its texts as characters.
pub enum ParamView {
    Number(u64),
    Text(Seq<char>),
    List(Seq<Seq<char>>),
}

impl View for ParamValue {
    type V = ParamView;

    open spec fn view(&self) -> ParamView {
        match self {
            ParamValue::Number(n) => ParamView::Number(*n),
            ParamValue::Text(t) => ParamView::Text(t@),
            ParamValue::List(l) => ParamView::List(l.deep_view()),
        }
    }
}

/// Parameters as their names and values.
pub open spec fn params_view(params: Seq<(String, ParamValue)>) -> Seq<(Seq<char>, ParamView)> {
    params.map_values(|entry: (String, ParamValue)| (entry.0@, entry.1@))
}

/// The zero or one text parameter `name` that `value` gives.
pub open spec fn text_param(name: Seq<char>, value: Option<String>) -> Seq<(Seq<char>, ParamView)> {
    match value {
        Some(t) => seq![(name, ParamView::Text(t@))],
        None => Seq::empty(),
    }
}

/// The zero or one number parameter `name` that `value` gives.
pub open spec fn number_param(name: Seq<char>, value: Option<u64>) -> Seq<(Seq<char>, ParamView)> {
    match value {
        Some(n) => seq![(name, ParamView::Number(n))],
        None => Seq::empty(),
    }
}

/// The extra parameters of `media`, in this order: its id as `mal_id`, then
/// each of these that it has: `overview` (synopsis), `background`, `genres`
/// (their names), `mediaType`, `episodes`, `popularity`, `nsfw`, `rating`
/// and `startDate`. The mean score, which is not held in the record, is
/// set beside them.
pub open spec fn params_spec(media: MyAnimeListAnime) -> Seq<(Seq<char>, ParamView)> {
    seq![("mal_id"@, ParamView::Number(media.id))] + text_param("overview"@, media.synopsis)
        + text_param("background"@, media.background) + match media.genres {
        Some(genres) => seq![("genres"@, ParamView::List(genre_names_spec(genres@)))],
        None => Seq::empty(),
    } + text_param("mediaType"@, media.media_type) + number_param(
        "episodes"@,
        match media.num_episodes {
            Some(n) => Some(n as u64),
            None => None,
        },
    ) + number_param("popularity"@, media.popularity) + text_param("nsfw"@, media.nsfw)
        + text_param("rating"@, media.rating) + text_param("startDate"@, media.start_date)
}

/// The values given under `name` in `params`, in order.
pub open spec fn values_named(params: Seq<(Seq<char>, ParamView)>, name: Seq<char>) -> Seq<ParamView>
    decreases params.len(),
{
    if params.len() == 0 {
        Seq::empty()
    } else {
        values_named(params.drop_last(), name) + if params.last().0 == name {
            seq![params.last().1]
        } else {
            Seq::<ParamView>::empty()
        }
    }
}

/// The text of `field` as the zero or one parameter values it gives.
pub open spec fn text_values(field: Option<String>) -> Seq<ParamView> {
    match field {
        Some(t) => seq![ParamView::Text(t@)],
        None => Seq::empty(),
    }
}

/// The number `field` as the zero or one parameter values it gives.
pub open spec fn number_values(field: Option<u64>) -> Seq<ParamView> {
    match field {
        Some(n) => seq![ParamView::Number(n)],
        None => Seq::empty(),
    }
}

proof fn lemma_values_named_add(
    a: Seq<(Seq<char>, ParamView)>,
    b: Seq<(Seq<char>, ParamView)>,
    name: Seq<char>,
)
    ensures
        values_named(a + b, name) == values_named(a, name) + values_named(b, name),
    decreases b.len(),
{
    if b.len() == 0 {
        assert(a + b =~= a);
        assert(values_named(a, name) + values_named(b, name) =~= values_named(a, name));
    } else {
        lemma_values_named_add(a, b.drop_last(), name);
        assert((a + b).drop_last() =~= a + b.drop_last());
        assert((a + b).last() == b.last());
        let tail = if b.last().0 == name {
            seq![b.last().1]
        } else {
            Seq::<ParamView>::empty()
        };
        assert(values_named(a, name) + values_named(b.drop_last(), name) + tail =~= values_named(
            a,
            name,
        ) + (values_named(b.drop_last(), name) + tail));
    }
}

proof fn lemma_values_named_one(entry: (Seq<char>, ParamView), name: Seq<char>)
    ensures
        values_named(seq![entry], name) == if entry.0 == name {
            seq![entry.1]
        } else {
            Seq::<ParamView>::empty()
        },
{
    assert(seq![entry].drop_last() =~= Seq::<(Seq<char>, ParamView)>::empty());
    assert(values_named(Seq::<(Seq<char>, ParamView)>::empty(), name) =~= Seq::<ParamView>::empty());
}

proof fn lemma_values_named_part(part: Seq<(Seq<char>, ParamView)>, key: Seq<char>, name: Seq<char>)
    requires
        part.len() <= 1,
        part.len() == 1 ==> part[0].0 == key,
    ensures
        values_named(part, name) == if key == name {
            part.map_values(|e: (Seq<char>, ParamView)| e.1)
        } else {
            Seq::<ParamView>::empty()
        },
{
    if part.len() == 1 {
        assert(part =~= seq![part[0]]);
        lemma_values_named_one(part[0], name);
        assert(part.map_values(|e: (Seq<char>, ParamView)| e.1) =~= seq![part[0].1]);
    } else {
        assert(part.map_values(|e: (Seq<char>, ParamView)| e.1) =~= Seq::<ParamView>::empty());
    }
}

/// The number of episodes as a parameter number.
pub open spec fn episodes_number(media: MyAnimeListAnime) -> Option<u64> {
    match media.num_episodes {
        Some(n) => Some(n as u64),
        None => None,
    }
}

/// The genre names as the zero or one parameter values they give.
pub open spec fn genre_values(media: MyAnimeListAnime) -> Seq<ParamView> {
    match media.genres {
        Some(genres) => seq![ParamView::List(genres@.map_values(|g: MyAnimeListGenre| g.name@))],
        None => Seq::empty(),
    }
}

/// `values` when `key` is `name`, else nothing.
pub open spec fn when_named(key: Seq<char>, name: Seq<char>, values: Seq<ParamView>) -> Seq<ParamView> {
    if key == name {
        values
    } else {
        Seq::empty()
    }
}

proof fn lemma_text_part(key: Seq<char>, field: Option<String>, name: Seq<char>)
    ensures
        values_named(text_param(key, field), name) == when_named(key, name, text_values(field)),
{
    let part = text_param(key, field);
    lemma_values_named_part(part, key, name);
    assert(part.map_values(|e: (Seq<char>, ParamView)| e.1) =~= text_values(field));
}

proof fn lemma_number_part(key: Seq<char>, field: Option<u64>, name: Seq<char>)
    ensures
        values_named(number_param(key, field), name) == when_named(key, name, number_values(field)),
{
    let part = number_param(key, field);
    lemma_values_named_part(part, key, name);
    assert(part.map_values(|e: (Seq<char>, ParamView)| e.1) =~= number_values(field));
}

proof fn lemma_genres_part(media: MyAnimeListAnime, name: Seq<char>)
    ensures
        values_named(
            match media.genres {
                Some(genres) => seq![("genres"@, ParamView::List(genre_names_spec(genres@)))],
                None => Seq::<(Seq<char>, ParamView)>::empty(),
            },
            name,
        ) == when_named("genres"@, name, genre_values(media)),
{
    let part = match media.genres {
        Some(genres) => seq![("genres"@, ParamView::List(genre_names_spec(genres@)))],
        None => Seq::<(Seq<char>, ParamView)>::empty(),
    };
    lemma_values_named_part(part, "genres"@, name);
    if let Some(genres) = media.genres {
        assert(genre_names_spec(genres@) =~= genres@.map_values(|g: MyAnimeListGenre| g.name@));
    }
    assert(part.map_values(|e: (Seq<char>, ParamView)| e.1) =~= genre_values(media));
}

proof fn lemma_id_part(id: u64, name: Seq<char>)
    ensures
        values_named(seq![("mal_id"@, ParamView::Number(id))], name) == when_named(
            "mal_id"@,
            name,
            seq![ParamView::Number(id)],
        ),
{
    lemma_values_named_one(("mal_id"@, ParamView::Number(id)), name);
}

proof fn lemma_params_values(media: MyAnimeListAnime, name: Seq<char>)
    ensures
        values_named(params_spec(media), name) == when_named("mal_id"@, name, seq![ParamView::Number(media.id)])
            + when_named("overview"@, name, text_values(media.synopsis))
            + when_named("background"@, name, text_values(media.background))
            + when_named("genres"@, name, genre_values(media))
            + when_named("mediaType"@, name, text_values(media.media_type))
            + when_named("episodes"@, name, number_values(episodes_number(media)))
            + when_named("popularity"@, name, number_values(media.popularity))
            + when_named("nsfw"@, name, text_values(media.nsfw))
            + when_named("rating"@, name, text_values(media.rating))
            + when_named("startDate"@, name, text_values(media.start_date)),
{
    let p1 = seq![("mal_id"@, ParamView::Number(media.id))];
    let p2 = text_param("overview"@, media.synopsis);
    let p3 = text_param("background"@, media.background);
    let p4 = match media.genres {
        Some(genres) => seq![("genres"@, ParamView::List(genre_names_spec(genres@)))],
        None => Seq::<(Seq<char>, ParamView)>::empty(),
    };
    let p5 = text_param("mediaType"@, media.media_type);
    let p6 = number_param("episodes"@, episodes_number(media));
    let p7 = number_param("popularity"@, media.popularity);
    let p8 = text_param("nsfw"@, media.nsfw);
    let p9 = text_param("rating"@, media.rating);
    let p10 = text_param("startDate"@, media.start_date);
    let q2 = p1 + p2;
    let q3 = q2 + p3;
    let q4 = q3 + p4;
    let q5 = q4 + p5;
    let q6 = q5 + p6;
    let q7 = q6 + p7;
    let q8 = q7 + p8;
    let q9 = q8 + p9;
    let q10 = q9 + p10;
    assert(params_spec(media) == q10);
    lemma_values_named_add(p1, p2, name);
    lemma_values_named_add(q2, p3, name);
    lemma_values_named_add(q3, p4, name);
    lemma_values_named_add(q4, p5, name);
    lemma_values_named_add(q5, p6, name);
    lemma_values_named_add(q6, p7, name);
    lemma_values_named_add(q7, p8, name);
    lemma_values_named_add(q8, p9, name);
    lemma_values_named_add(q9, p10, name);
    lemma_id_part(media.id, name);
    lemma_text_part("overview"@, media.synopsis, name);
    lemma_text_part("background"@, media.background, name);
    lemma_genres_part(media, name);
    lemma_text_part("mediaType"@, media.media_type, name);
    lemma_number_part("episodes"@, episodes_number(media), name);
    lemma_number_part("popularity"@, media.popularity, name);
    lemma_text_part("nsfw"@, media.nsfw, name);
    lemma_text_part("rating"@, media.rating, name);
    lemma_text_part("startDate"@, media.start_date, name);
}

proof fn lemma_param_names_distinct()
    ensures
        "mal_id"@ != "overview"@,
        "mal_id"@ != "background"@,
        "mal_id"@ != "genres"@,
        "mal_id"@ != "mediaType"@,
        "mal_id"@ != "episodes"@,
        "mal_id"@ != "popularity"@,
        "mal_id"@ != "nsfw"@,
        "mal_id"@ != "rating"@,
        "mal_id"@ != "startDate"@,
        "overview"@ != "background"@,
        "overview"@ != "genres"@,
        "overview"@ != "mediaType"@,
        "overview"@ != "episodes"@,
        "overview"@ != "popularity"@,
        "overview"@ != "nsfw"@,
        "overview"@ != "rating"@,
        "overview"@ != "startDate"@,
        "background"@ != "genres"@,
        "background"@ != "mediaType"@,
        "background"@ != "episodes"@,
        "background"@ != "popularity"@,
        "background"@ != "nsfw"@,
        "background"@ != "rating"@,
        "background"@ != "startDate"@,
        "genres"@ != "mediaType"@,
        "genres"@ != "episodes"@,
        "genres"@ != "popularity"@,
        "genres"@ != "nsfw"@,
        "genres"@ != "rating"@,
        "genres"@ != "startDate"@,
        "mediaType"@ != "episodes"@,
        "mediaType"@ != "popularity"@,
        "mediaType"@ != "nsfw"@,
        "mediaType"@ != "rating"@,
        "mediaType"@ != "startDate"@,
        "episodes"@ != "popularity"@,
        "episodes"@ != "nsfw"@,
        "episodes"@ != "rating"@,
        "episodes"@ != "startDate"@,
        "popularity"@ != "nsfw"@,
        "popularity"@ != "rating"@,
        "popularity"@ != "startDate"@,
        "nsfw"@ != "rating"@,
        "nsfw"@ != "startDate"@,
        "rating"@ != "startDate"@,
{
    reveal_strlit("mal_id");
    reveal_strlit("overview");
    reveal_strlit("background");
    reveal_strlit("genres");
    reveal_strlit("mediaType");
    reveal_strlit("episodes");
    reveal_strlit("popularity");
    reveal_strlit("nsfw");
    reveal_strlit("rating");
    reveal_strlit("startDate");
    assert("mal_id"@ != "overview"@) by {
        assert("mal_id"@.len() != "overview"@.len());
    }
    assert("mal_id"@ != "background"@) by {
        assert("mal_id"@.len() != "background"@.len());
    }
    assert("mal_id"@ != "genres"@) by {
        assert("mal_id"@[0] != "genres"@[0]);
    }
    assert("mal_id"@ != "mediaType"@) by {
        assert("mal_id"@.len() != "mediaType"@.len());
    }
    assert("mal_id"@ != "episodes"@) by {
        assert("mal_id"@.len() != "episodes"@.len());
    }
    assert("mal_id"@ != "popularity"@) by {
        assert("mal_id"@.len() != "popularity"@.len());
    }
    assert("mal_id"@ != "nsfw"@) by {
        assert("mal_id"@.len() != "nsfw"@.len());
    }
    assert("mal_id"@ != "rating"@) by {
        assert("mal_id"@[0] != "rating"@[0]);
    }
    assert("mal_id"@ != "startDate"@) by {
        assert("mal_id"@.len() != "startDate"@.len());
    }
    assert("overview"@ != "background"@) by {
        assert("overview"@.len() != "background"@.len());
    }
    assert("overview"@ != "genres"@) by {
        assert("overview"@.len() != "genres"@.len());
    }
    assert("overview"@ != "mediaType"@) by {
        assert("overview"@.len() != "mediaType"@.len());
    }
    assert("overview"@ != "episodes"@) by {
        assert("overview"@[0] != "episodes"@[0]);
    }
    assert("overview"@ != "popularity"@) by {
        assert("overview"@.len() != "popularity"@.len());
    }
    assert("overview"@ != "nsfw"@) by {
        assert("overview"@.len() != "nsfw"@.len());
    }
    assert("overview"@ != "rating"@) by {
        assert("overview"@.len() != "rating"@.len());
    }
    assert("overview"@ != "startDate"@) by {
        assert("overview"@.len() != "startDate"@.len());
    }
    assert("background"@ != "genres"@) by {
        assert("background"@.len() != "genres"@.len());
    }
    assert("background"@ != "mediaType"@) by {
        assert("background"@.len() != "mediaType"@.len());
    }
    assert("background"@ != "episodes"@) by {
        assert("background"@.len() != "episodes"@.len());
    }
    assert("background"@ != "popularity"@) by {
        assert("background"@[0] != "popularity"@[0]);
    }
    assert("background"@ != "nsfw"@) by {
        assert("background"@.len() != "nsfw"@.len());
    }
    assert("background"@ != "rating"@) by {
        assert("background"@.len() != "rating"@.len());
    }
    assert("background"@ != "startDate"@) by {
        assert("background"@.len() != "startDate"@.len());
    }
    assert("genres"@ != "mediaType"@) by {
        assert("genres"@.len() != "mediaType"@.len());
    }
    assert("genres"@ != "episodes"@) by {
        assert("genres"@.len() != "episodes"@.len());
    }
    assert("genres"@ != "popularity"@) by {
        assert("genres"@.len() != "popularity"@.len());
    }
    assert("genres"@ != "nsfw"@) by {
        assert("genres"@.len() != "nsfw"@.len());
    }
    assert("genres"@ != "rating"@) by {
        assert("genres"@[0] != "rating"@[0]);
    }
    assert("genres"@ != "startDate"@) by {
        assert("genres"@.len() != "startDate"@.len());
    }
    assert("mediaType"@ != "episodes"@) by {
        assert("mediaType"@.len() != "episodes"@.len());
    }
    assert("mediaType"@ != "popularity"@) by {
        assert("mediaType"@.len() != "popularity"@.len());
    }
    assert("mediaType"@ != "nsfw"@) by {
        assert("mediaType"@.len() != "nsfw"@.len());
    }
    assert("mediaType"@ != "rating"@) by {
        assert("mediaType"@.len() != "rating"@.len());
    }
    assert("mediaType"@ != "startDate"@) by {
        assert("mediaType"@[0] != "startDate"@[0]);
    }
    assert("episodes"@ != "popularity"@) by {
        assert("episodes"@.len() != "popularity"@.len());
    }
    assert("episodes"@ != "nsfw"@) by {
        assert("episodes"@.len() != "nsfw"@.len());
    }
    assert("episodes"@ != "rating"@) by {
        assert("episodes"@.len() != "rating"@.len());
    }
    assert("episodes"@ != "startDate"@) by {
        assert("episodes"@.len() != "startDate"@.len());
    }
    assert("popularity"@ != "nsfw"@) by {
        assert("popularity"@.len() != "nsfw"@.len());
    }
    assert("popularity"@ != "rating"@) by {
        assert("popularity"@.len() != "rating"@.len());
    }
    assert("popularity"@ != "startDate"@) by {
        assert("popularity"@.len() != "startDate"@.len());
    }
    assert("nsfw"@ != "rating"@) by {
        assert("nsfw"@.len() != "rating"@.len());
    }
    assert("nsfw"@ != "startDate"@) by {
        assert("nsfw"@.len() != "startDate"@.len());
    }
    assert("rating"@ != "startDate"@) by {
        assert("rating"@.len() != "startDate"@.len());
    }
}

/// Whether `name` is the name of one of the extra parameters of an anime.
pub open spec fn is_param_name(name: Seq<char>) -> bool {
    ||| name == "mal_id"@
    ||| name == "overview"@
    ||| name == "background"@
    ||| name == "genres"@
    ||| name == "mediaType"@
    ||| name == "episodes"@
    ||| name == "popularity"@
    ||| name == "nsfw"@
    ||| name == "rating"@
    ||| name == "startDate"@
}

proof fn lemma_values_named_absent(params: Seq<(Seq<char>, ParamView)>, name: Seq<char>, i: int)
    requires
        0 <= i < params.len(),
        params[i].0 == name,
    ensures
        values_named(params, name).len() > 0,
    decreases params.len(),
{
    if i < params.len() - 1 {
        lemma_values_named_absent(params.drop_last(), name, i);
    }
}

/// Whether each parameter in `params` carries the value of its own field
/// of `media`, once, and is there exactly when that field is; and whether
/// every parameter is one of those.
pub open spec fn carries_its_fields(media: MyAnimeListAnime, params: Seq<(Seq<char>, ParamView)>) -> bool {
    &&& forall|i: int| 0 <= i < params.len() ==> is_param_name(#[trigger] params[i].0)
    &&& values_named(params, "mal_id"@) == seq![ParamView::Number(media.id)]
    &&& values_named(params, "overview"@) == text_values(media.synopsis)
    &&& values_named(params, "background"@) == text_values(media.background)
    &&& values_named(params, "genres"@) == genre_values(media)
    &&& values_named(params, "mediaType"@) == text_values(media.media_type)
    &&& values_named(params, "episodes"@) == number_values(episodes_number(media))
    &&& values_named(params, "popularity"@) == number_values(media.popularity)
    &&& values_named(params, "nsfw"@) == text_values(media.nsfw)
    &&& values_named(params, "rating"@) == text_values(media.rating)
    &&& values_named(params, "startDate"@) == text_values(media.start_date)
}

/// The extra parameters of an anime are these and no others, and each
/// carries the value of its own field of the record, once, and is there
/// exactly when that field is: `mal_id` the
/// id, `overview` the synopsis, `background` the background text, `genres`
/// the genre names, `mediaType` the media type, `episodes` the number of
/// episodes, `popularity` the popularity rank, `nsfw` the NSFW rating,
/// `rating` the audience rating and `startDate` the start date.
pub proof fn lemma_params_carry_their_fields(media: MyAnimeListAnime)
    ensures
        carries_its_fields(media, params_spec(media)),
{
    lemma_param_names_distinct();
    let e = Seq::<ParamView>::empty();
    assert(values_named(params_spec(media), "mal_id"@) == seq![ParamView::Number(media.id)]) by {
        lemma_params_values(media, "mal_id"@);
        assert(values_named(params_spec(media), "mal_id"@) =~= seq![ParamView::Number(media.id)] + e
            + e + e + e + e + e + e + e + e);
    }
    assert(values_named(params_spec(media), "overview"@) == text_values(media.synopsis)) by {
        lemma_params_values(media, "overview"@);
        assert(values_named(params_spec(media), "overview"@) =~= e + text_values(media.synopsis)
            + e + e + e + e + e + e + e + e);
    }
    assert(values_named(params_spec(media), "background"@) == text_values(media.background)) by {
        lemma_params_values(media, "background"@);
        assert(values_named(params_spec(media), "background"@) =~= e + e + text_values(
            media.background,
        ) + e + e + e + e + e + e + e);
    }
    assert(values_named(params_spec(media), "genres"@) == genre_values(media)) by {
        lemma_params_values(media, "genres"@);
        assert(values_named(params_spec(media), "genres"@) =~= e + e + e + genre_values(media) + e
            + e + e + e + e + e);
    }
    assert(values_named(params_spec(media), "mediaType"@) == text_values(media.media_type)) by {
        lemma_params_values(media, "mediaType"@);
        assert(values_named(params_spec(media), "mediaType"@) =~= e + e + e + e + text_values(
            media.media_type,
        ) + e + e + e + e + e);
    }
    assert(values_named(params_spec(media), "episodes"@) == number_values(episodes_number(media)))
        by {
        lemma_params_values(media, "episodes"@);
        assert(values_named(params_spec(media), "episodes"@) =~= e + e + e + e + e + number_values(
            episodes_number(media),
        ) + e + e + e + e);
    }
    assert(values_named(params_spec(media), "popularity"@) == number_values(media.popularity)) by {
        lemma_params_values(media, "popularity"@);
        assert(values_named(params_spec(media), "popularity"@) =~= e + e + e + e + e + e
            + number_values(media.popularity) + e + e + e);
    }
    assert(values_named(params_spec(media), "nsfw"@) == text_values(media.nsfw)) by {
        lemma_params_values(media, "nsfw"@);
        assert(values_named(params_spec(media), "nsfw"@) =~= e + e + e + e + e + e + e
            + text_values(media.nsfw) + e + e);
    }
    assert(values_named(params_spec(media), "rating"@) == text_values(media.rating)) by {
        lemma_params_values(media, "rating"@);
        assert(values_named(params_spec(media), "rating"@) =~= e + e + e + e + e + e + e + e
            + text_values(media.rating) + e);
    }
    assert(values_named(params_spec(media), "startDate"@) == text_values(media.start_date)) by {
        lemma_params_values(media, "startDate"@);
        assert(values_named(params_spec(media), "startDate"@) =~= e + e + e + e + e + e + e + e + e
            + text_values(media.start_date));
    }
    assert forall|i: int| 0 <= i < params_spec(media).len() implies is_param_name(
        #[trigger] params_spec(media)[i].0,
    ) by {
        let name = params_spec(media)[i].0;
        lemma_values_named_absent(params_spec(media), name, i);
        lemma_params_values(media, name);
        if !is_param_name(name) {
            assert(values_named(params_spec(media), name) =~= e + e + e + e + e + e + e + e + e + e);
        }
    }
}

/// A string holding the characters of `s`.
fn owned_text(s: &str) -> (r: String)
    ensures
        r@ == s@,
{
    s.to_owned()
}

/// Adds the text parameter `name` when `value` is there.
fn push_text_param(params: &mut Vec<(String, ParamValue)>, name: &str, value: &Option<String>)
    ensures
        params_view(final(params)@) == params_view(old(params)@) + text_param(name@, *value),
{
    let ghost before = params_view(params@);
    if let Some(t) = value {
        params.push((owned_text(name), ParamValue::Text(t.clone())));
        assert(params_view(params@) =~= before + text_param(name@, *value));
    } else {
        assert(params_view(params@) =~= before + text_param(name@, *value));
    }
}

/// Adds the number parameter `name` when `value` is there.
fn push_number_param(params: &mut Vec<(String, ParamValue)>, name: &str, value: Option<u64>)
    ensures
        params_view(final(params)@) == params_view(old(params)@) + number_param(name@, value),
{
    let ghost before = params_view(params@);
    if let Some(n) = value {
        params.push((owned_text(name), ParamValue::Number(n)));
        assert(params_view(params@) =~= before + number_param(name@, value));
    } else {
        assert(params_view(params@) =~= before + number_param(name@, value));
    }
}

/// The extra parameters of `media`, as [`params_spec`] lists them.
pub fn build_params(media: &MyAnimeListAnime) -> (params: Vec<(String, ParamValue)>)
    ensures
        params_view(params@) == params_spec(*media),
        carries_its_fields(*media, params_view(params@)),
{
    proof {
        lemma_params_carry_their_fields(*media);
    }
    let mut params: Vec<(String, ParamValue)> = Vec::new();
    params.push((owned_text("mal_id"), ParamValue::Number(media.id)));
    let ghost p0 = params_view(params@);
    assert(p0 =~= seq![("mal_id"@, ParamView::Number(media.id))]);
    push_text_param(&mut params, "overview", &media.synopsis);
    push_text_param(&mut params, "background", &media.background);
    let ghost p1 = params_view(params@);
    if let Some(names) = collect_genre_names(&media.genres) {
        params.push((owned_text("genres"), ParamValue::List(names)));
    }
    let ghost genres_part = match &media.genres {
        Some(genres) => seq![("genres"@, ParamView::List(genre_names_spec(genres@)))],
        None => Seq::<(Seq<char>, ParamView)>::empty(),
    };
    assert(params_view(params@) =~= p1 + genres_part);
    push_text_param(&mut params, "mediaType", &media.media_type);
    let episodes: Option<u64> = match media.num_episodes {
        Some(n) => Some(n as u64),
        None => None,
    };
    push_number_param(&mut params, "episodes", episodes);
    push_number_param(&mut params, "popularity", media.popularity);
    push_text_param(&mut params, "nsfw", &media.nsfw);
    push_text_param(&mut params, "rating", &media.rating);
    push_text_param(&mut params, "startDate", &media.start_date);
    assert(params_view(params@) =~= params_spec(*media));
    params
}

#[verifier::external_type_specification]
#[verifier::external_body]
pub struct ExSerieType(SerieType);

/// The series kind that `SerieType::from_string` gives for a media type name.
pub uninterp spec fn serie_type_named(name: Seq<char>) -> SerieType;

/// Calls `SerieType::from_string` of rs-plugin-common-interfaces, which
/// matches the lower-cased name against the known kinds and falls back to a
/// custom kind holding the name as given. Its result depends on the name
/// alone; which kind it is, is not stated here.
#[verifier::external_body]
fn serie_type_from_string(name: &str) -> (kind: SerieType)
    ensures
        kind == serie_type_named(name@),
{
    SerieType::from_string(name)
}

/// The identifier of anime `id` among series: `mal:` and its number.
pub open spec fn serie_id_spec(id: u64) -> Seq<char> {
    "mal:"@ + decimal(id as nat)
}

/// The metadata of a series found on MyAnimeList.
#[derive(Clone, Debug)]
pub struct SerieMetadata {
    pub id: String,
    pub name: String,
    pub kind: Option<SerieType>,
    pub alt: Option<Vec<String>>,
    pub status: Option<AnimeStatus>,
    pub year: Option<u16>,
    pub trailer: Option<String>,
    pub myanimelist_manga_id: Option<u64>,
    pub params: Vec<(String, ParamValue)>,
}

/// One lookup result: the series and its images.
#[derive(Clone, Debug)]
pub struct LookupMetadataResult {
    pub serie: SerieMetadata,
    pub images: Vec<MalImage>,
}

/// Whether `result` is the lookup result for `media`: its images, and its
/// series with the id `mal:` and the anime's number, the title shown, the
/// kind named by the media type, the other names, the status, the year,
/// the trailer, the MyAnimeList id and the extra parameters.
pub open spec fn is_result_of(result: LookupMetadataResult, media: MyAnimeListAnime) -> bool {
    &&& images_view(result.images@) == images_spec(media)
    &&& result.serie.id@ == serie_id_spec(media.id)
    &&& result.serie.name@ == best_title_spec(media)
    &&& result.serie.kind == match media.media_type {
        Some(t) => Some(serie_type_named(t@)),
        None => None,
    }
    &&& match result.serie.alt {
        Some(v) => v.deep_view() == alt_names_seq(media) && v@.len() > 0,
        None => alt_names_seq(media).len() == 0,
    }
    &&& result.serie.status == match media.status {
        Some(name) => Some(status_named(name@)),
        None => None,
    }
    &&& result.serie.year == match media.start_date {
        Some(date) => parse_u16_seq(take_until(date@, '-')),
        None => None,
    }
    &&& result.serie.trailer.deep_view() == media.trailer_url.deep_view()
    &&& result.serie.myanimelist_manga_id == Some(media.id)
    &&& params_view(result.serie.params@) == params_spec(media)
    &&& carries_its_fields(media, params_view(result.serie.params@))
    &&& lists_every_other_name(
        media,
        match result.serie.alt {
            Some(v) => v.deep_view(),
            None => Seq::empty(),
        },
        best_title_spec(media),
    )
    &&& shows_every_picture(media, image_urls(images_view(result.images@)))
    &&& follows_the_pictures(media, images_view(result.images@))
    &&& in_order_of_sources(
        match result.serie.alt {
            Some(v) => v.deep_view(),
            None => Seq::empty(),
        },
        name_sources(media),
    )
    &&& result.serie.alt matches Some(v) ==> forall|i: int|
        0 <= i < v@.len() ==> v@[i]@ == media.title@ || !is_blank_seq(#[trigger] v@[i]@)
}

/// The lookup result for `media`: its series metadata and its images.
pub fn mal_anime_to_result(media: MyAnimeListAnime) -> (result: LookupMetadataResult)
    ensures
        is_result_of(result, media),
{
    let images = build_images(&media);
    let mut id = owned_text("mal:");
    push_decimal(&mut id, media.id);
    let kind = match &media.media_type {
        Some(t) => Some(serie_type_from_string(t.as_str())),
        None => None,
    };
    let trailer = match &media.trailer_url {
        Some(t) => Some(t.clone()),
        None => None,
    };
    let serie = SerieMetadata {
        id,
        name: best_title(&media),
        kind,
        alt: alt_names(&media),
        status: map_status(&media.status),
        year: year_from_start_date(&media.start_date),
        trailer,
        myanimelist_manga_id: Some(media.id),
        params: build_params(&media),
    };
    LookupMetadataResult { serie, images }
}

/// The lookup results for `all_media`, one for each anime, in order.
pub fn metadata_results(all_media: Vec<MyAnimeListAnime>) -> (results: Vec<LookupMetadataResult>)
    ensures
        results@.len() == all_media@.len(),
        forall|i: int| 0 <= i < results@.len() ==> is_result_of(#[trigger] results@[i], all_media@[i]),
{
    let ghost all = all_media@;
    let mut rest = all_media;
    let mut results: Vec<LookupMetadataResult> = Vec::new();
    while rest.len() > 0
        invariant
            results@.len() + rest@.len() == all.len(),
            rest@ == all.subrange(results@.len() as int, all.len() as int),
            forall|i: int| 0 <= i < results@.len() ==> is_result_of(#[trigger] results@[i], all[i]),
        decreases rest@.len(),
    {
        let ghost k: int = results@.len() as int;
        let media = rest.remove(0);
        assert(rest@ =~= all.subrange(k + 1, all.len() as int));
        results.push(mal_anime_to_result(media));
    }
    results
}

/// The images of each of `all_media`, one anime after the other.
pub open spec fn all_images_spec(all_media: Seq<MyAnimeListAnime>) -> Seq<(ImageKind, Seq<char>)>
    decreases all_media.len(),
{
    if all_media.len() == 0 {
        Seq::empty()
    } else {
        all_images_spec(all_media.drop_last()) + images_spec(all_media.last())
    }
}

/// The images of a lookup are the images of each anime found, concatenated
/// in the order the anime were found.
pub proof fn lemma_all_images_concatenate(all_media: Seq<MyAnimeListAnime>)
    ensures
        all_images_spec(all_media) == all_media.map_values(
            |m: MyAnimeListAnime| images_spec(m),
        ).flatten(),
    decreases all_media.len(),
{
    let per = all_media.map_values(|m: MyAnimeListAnime| images_spec(m));
    if all_media.len() == 0 {
        assert(per =~= Seq::<Seq<(ImageKind, Seq<char>)>>::empty());
        assert(per.flatten() =~= Seq::<(ImageKind, Seq<char>)>::empty());
    } else {
        lemma_all_images_concatenate(all_media.drop_last());
        let rest = all_media.drop_last().map_values(|m: MyAnimeListAnime| images_spec(m));
        assert(per =~= rest.push(images_spec(all_media.last())));
        rest.lemma_flatten_push(images_spec(all_media.last()));
    }
}

/// The images of each of `all_media`, one anime after the other.
pub fn collect_images(all_media: &Vec<MyAnimeListAnime>) -> (images: Vec<MalImage>)
    ensures
        images_view(images@) == all_images_spec(all_media@),
        images_view(images@) == all_media@.map_values(|m: MyAnimeListAnime| images_spec(m)).flatten(),
{
    proof {
        lemma_all_images_concatenate(all_media@);
    }
    let mut images: Vec<MalImage> = Vec::new();
    let mut i: usize = 0;
    while i < all_media.len()
        invariant
            i <= all_media@.len(),
            images_view(images@) == all_images_spec(all_media@.subrange(0, i as int)),
        decreases all_media@.len() - i,
    {
        let mut more = mal_anime_to_images(&all_media[i]);
        let ghost before = images_view(images@);
        let ghost added = images_view(more@);
        images.append(&mut more);
        assert(images_view(images@) =~= before + added);
        assert(all_media@.subrange(0, i + 1).drop_last() =~= all_media@.subrange(0, i as int));
        i = i + 1;
    }
    assert(all_media@.subrange(0, all_media@.len() as int) =~= all_media@);
    images
}

} // verus!
