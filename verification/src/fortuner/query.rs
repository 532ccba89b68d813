//! Querying records: the report of a search, and the pick of one record.
use vstd::prelude::*;
use vstd::string::*;
use rand::rngs::StdRng;
use rand::seq::SliceRandom;
use rand::SeedableRng;
use crate::fortuner::records::{Fortune, FortuneModel};
use crate::output::{Emission, EmissionModel, Stream};
use crate::pattern::{pattern_matches, Pattern, PatternModel};
use crate::text::views;

verus! {

/// The header of a group of matches: a line with the source in brackets,
/// then the delimiter on a line of its own. It goes to the standard output,
/// as the records do.
pub open spec fn header(source: Seq<char>) -> EmissionModel {
    EmissionModel { stream: Stream::Stdout, text: "("@ + source + ")\n%\n"@ }
}

/// A record as it is printed: its text, then the delimiter on a line of its
/// own, as in the file it came from.
pub open spec fn body(text: Seq<char>) -> EmissionModel {
    EmissionModel { stream: Stream::Stdout, text: text + "\n%\n"@ }
}

/// Whether the record at `i` is marked as a hit; a record without a mark is
/// none.
pub open spec fn hit_at(hits: Seq<bool>, i: int) -> bool {
    0 <= i < hits.len() && hits[i]
}

/// The first `n` records that are marked as hits, in their order.
pub open spec fn selected(fortunes: Seq<FortuneModel>, hits: Seq<bool>, n: int) -> Seq<
    FortuneModel,
>
    decreases n,
{
    if n <= 0 || n > fortunes.len() {
        Seq::<FortuneModel>::empty()
    } else {
        let before = selected(fortunes, hits, n - 1);
        if hit_at(hits, n - 1) {
            before.push(fortunes[n - 1])
        } else {
            before
        }
    }
}

/// Whether the record at `j` begins a group: it is the first, or its source
/// is not that of the record before it.
pub open spec fn starts_group(kept: Seq<FortuneModel>, j: int) -> bool {
    j == 0 || kept[j - 1].source != kept[j].source
}

/// What is printed for the record at `j`: its header where it begins a
/// group, and the record.
pub open spec fn block(kept: Seq<FortuneModel>, j: int) -> Seq<EmissionModel> {
    if starts_group(kept, j) {
        seq![header(kept[j].source), body(kept[j].text)]
    } else {
        seq![body(kept[j].text)]
    }
}

/// What is printed for the first `n` of the records `kept`: the block of
/// each, in order.
pub open spec fn grouped(kept: Seq<FortuneModel>, n: int) -> Seq<EmissionModel>
    decreases n,
{
    if n <= 0 || n > kept.len() {
        Seq::<EmissionModel>::empty()
    } else {
        grouped(kept, n - 1) + block(kept, n - 1)
    }
}

/// The report of a search: the records marked as hits, grouped by source.
pub open spec fn report_of(fortunes: Seq<FortuneModel>, hits: Seq<bool>) -> Seq<EmissionModel> {
    let kept = selected(fortunes, hits, fortunes.len() as int);
    grouped(kept, kept.len() as int)
}

/// What is printed for the first `n` records does not depend on the records
/// that follow them.
pub proof fn lemma_grouped_prefix(kept: Seq<FortuneModel>, more: Seq<FortuneModel>, n: int)
    requires
        0 <= n <= kept.len(),
        kept.len() <= more.len(),
        forall|j: int| 0 <= j < kept.len() ==> kept[j] == more[j],
    ensures
        grouped(kept, n) == grouped(more, n),
    decreases n,
{
    if n > 0 {
        lemma_grouped_prefix(kept, more, n - 1);
    }
}

/// Writes the report of a search: `hits[i]` says whether the record at `i`
/// matched. The records that matched are printed in their order. Before the
/// first of them, and before each whose source is not that of the match
/// printed before it, stands a header with its source.
pub fn report(fortunes: &[Fortune], hits: &Vec<bool>) -> (out: Vec<Emission>)
    ensures
        views(out@) == report_of(views(fortunes@), hits@),
{
    let ghost all = views(fortunes@);
    let mut out: Vec<Emission> = Vec::new();
    let mut prev: Option<usize> = None;
    let mut i: usize = 0;
    while i < fortunes.len()
        invariant
            i <= fortunes.len(),
            all == views(fortunes@),
            views(out@) == grouped(
                selected(all, hits@, i as int),
                selected(all, hits@, i as int).len() as int,
            ),
            match prev {
                Some(k) => k < i && selected(all, hits@, i as int).len() > 0 && selected(
                    all,
                    hits@,
                    i as int,
                ).last() == all[k as int],
                None => selected(all, hits@, i as int).len() == 0,
            },
        decreases fortunes.len() - i,
    {
        let fortune = &fortunes[i];
        assert(all[i as int] == fortune@);
        if i < hits.len() && hits[i] {
            let ghost kept = selected(all, hits@, i as int);
            let ghost next = selected(all, hits@, i + 1);
            assert(next == kept.push(fortune@));
            proof {
                lemma_grouped_prefix(kept, next, kept.len() as int);
            }
            let fresh = match prev {
                Some(k) => {
                    assert(all[k as int] == fortunes[k as int]@);
                    fortunes[k].source != fortune.source
                },
                None => true,
            };
            assert(fresh == starts_group(next, next.len() - 1));
            if fresh {
                let mut text = String::from_str("(");
                text.append(fortune.source.as_str());
                text.append(")\n%\n");
                let ghost before = views(out@);
                out.push(Emission { stream: Stream::Stdout, text: text });
                assert(views(out@) == before.push(header(fortune@.source)));
            }
            let mut text = fortune.text.clone();
            text.append("\n%\n");
            let ghost before = views(out@);
            out.push(Emission { stream: Stream::Stdout, text: text });
            assert(views(out@) == before.push(body(fortune@.text)));
            assert(views(out@) == grouped(kept, kept.len() as int) + block(next, next.len() - 1));
            prev = Some(i);
        }
        i += 1;
    }
    out
}

/// For each record, whether the pattern matches its text.
pub open spec fn hits_of(fortunes: Seq<FortuneModel>, pattern: PatternModel) -> Seq<bool> {
    Seq::new(
        fortunes.len(),
        |i: int| pattern_matches(pattern.source, pattern.case_insensitive, fortunes[i].text),
    )
}

/// Matches the pattern against the text of each record.
pub fn match_each(fortunes: &[Fortune], pattern: &Pattern) -> (hits: Vec<bool>)
    ensures
        hits@ == hits_of(views(fortunes@), pattern@),
{
    let ghost all = views(fortunes@);
    let mut hits: Vec<bool> = Vec::new();
    let mut i: usize = 0;
    while i < fortunes.len()
        invariant
            i <= fortunes.len(),
            all == views(fortunes@),
            hits@ == hits_of(all, pattern@).take(i as int),
        decreases fortunes.len() - i,
    {
        assert(all[i as int] == fortunes[i as int]@);
        let hit = pattern.finds(fortunes[i].text.as_str());
        hits.push(hit);
        assert(hits@ == hits_of(all, pattern@).take(i + 1));
        i += 1;
    }
    assert(hits_of(all, pattern@).take(fortunes@.len() as int) == hits_of(all, pattern@));
    hits
}

/// The place that a generator seeded with `seed` picks among `len` places,
/// counted from zero: what `choose` of the `rand` crate takes from a slice
/// of `len` items with a `StdRng` made by `seed_from_u64`.
pub uninterp spec fn seeded_choice(seed: u64, len: nat) -> nat;

/// `SliceRandom::choose` of the `rand` crate on `fortunes`, with a `StdRng`
/// that `SeedableRng::seed_from_u64` made from `seed`. The call hands back
/// nothing for an empty slice and otherwise one item of the slice; with a
/// seeded generator the item's place depends on the seed and on the length
/// alone.
#[verifier::external_body]
fn choose_seeded<'a>(fortunes: &'a [Fortune], seed: u64) -> (r: Option<&'a Fortune>)
    ensures
        r is Some <==> fortunes@.len() > 0,
        r matches Some(f) ==> seeded_choice(seed, fortunes@.len()) < fortunes@.len() && *f
            == fortunes@[seeded_choice(seed, fortunes@.len()) as int],
{
    let mut rng = StdRng::seed_from_u64(seed);
    fortunes.choose(&mut rng)
}

/// `SliceRandom::choose` of the `rand` crate on `fortunes`, with the
/// generator of the running thread, `rand::thread_rng`, which the operating
/// system seeds. The call hands back nothing for an empty slice and
/// otherwise one item of the slice; which one is left to chance.
#[verifier::external_body]
fn choose_unseeded<'a>(fortunes: &'a [Fortune]) -> (r: Option<&'a Fortune>)
    ensures
        r is Some <==> fortunes@.len() > 0,
        r matches Some(f) ==> exists|i: int| 0 <= i < fortunes@.len() && *f == fortunes@[i],
{
    let mut rng = rand::thread_rng();
    fortunes.choose(&mut rng)
}

/// Picks one record out of the whole collection and hands back its text.
///
/// An empty collection gives nothing. With a seed the pick is the record at
/// the place that the seed and the number of records determine, so the same
/// seed on the same collection gives the same text. Without a seed any
/// record may be picked.
pub fn pick_fortune(fortunes: &[Fortune], seed: Option<u64>) -> (picked: Option<String>)
    ensures
        picked is Some <==> fortunes@.len() > 0,
        picked matches Some(text) ==> match seed {
            Some(s) => seeded_choice(s, fortunes@.len()) < fortunes@.len() && text@
                == fortunes@[seeded_choice(s, fortunes@.len()) as int].text@,
            None => exists|i: int| 0 <= i < fortunes@.len() && text@ == fortunes@[i].text@,
        },
{
    let chosen = match seed {
        Some(s) => choose_seeded(fortunes, s),
        None => choose_unseeded(fortunes),
    };
    match chosen {
        Some(f) => Some(f.text.clone()),
        None => None,
    }
}

/// What is shown in place of a fortune when there is none to pick.
pub open spec fn no_fortunes() -> Seq<char> {
    "No fortunes found"@
}

/// The text to print for a pick: the text that was picked, or the fixed
/// message that none was found.
pub fn picked_or_fallback(picked: Option<String>) -> (text: String)
    ensures
        text@ == match picked {
            Some(t) => t@,
            None => no_fortunes(),
        },
{
    match picked {
        Some(t) => t,
        None => String::from_str("No fortunes found"),
    }
}

} // verus!
