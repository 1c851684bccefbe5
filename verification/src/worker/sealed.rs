//! Sealed-file detection for the worker pipeline.
//!
//! Picks the `.bin` files that a rotating writer has sealed, ignoring
//! `.active` files that are still being written.

use crate::telemetry::rotation::{active_name, segment_name};
use crate::text::{
    decimal, ends_with, has_prefix, has_suffix, lemma_decimal_value, parse_u32, parsed_u32,
    starts_with, to_chars,
};
use vstd::prelude::*;

verus! {

/// A sealed trace segment ready for processing.
#[derive(Debug, Clone, PartialEq, Eq)]
pub struct SealedSegment {
    pub path: String,
    pub index: u32,
}

/// The value of a [`SealedSegment`].
#[verifier::ext_equal]
pub struct SegmentModel {
    pub path: Seq<char>,
    pub index: u32,
}

impl View for SealedSegment {
    type V = SegmentModel;

    open spec fn view(&self) -> SegmentModel {
        SegmentModel { path: self.path@, index: self.index }
    }
}

/// The value of each segment of a sequence.
pub open spec fn segment_models(segments: Seq<SealedSegment>) -> Seq<SegmentModel> {
    segments.map_values(|s: SealedSegment| s@)
}

/// The characters between `{stem}.` and `.bin` in a file name, if it has that
/// form.
pub open spec fn index_text(file_name: Seq<char>, stem: Seq<char>) -> Option<Seq<char>> {
    let rest = file_name.skip(stem.len() as int);
    if has_prefix(file_name, stem) && rest.len() > 0 && rest[0] == '.' && has_suffix(
        rest.skip(1),
        ".bin"@,
    ) {
        Some(rest.skip(1).take(rest.len() - 1 - ".bin"@.len()))
    } else {
        None
    }
}

/// The index in a file name `{stem}.{index}.bin`.
pub open spec fn segment_index(file_name: Seq<char>, stem: Seq<char>) -> Option<u32> {
    match index_text(file_name, stem) {
        Some(text) => parsed_u32(text),
        None => None,
    }
}

/// Parse segment index from a filename like `trace.3.bin`.
/// Returns `None` if the filename doesn't match `{stem}.{index}.bin`.
pub fn parse_segment_index(file_name: &str, stem: &str) -> (index: Option<u32>)
    ensures
        index == segment_index(file_name@, stem@),
{
    let name = to_chars(file_name);
    let prefix = to_chars(stem);
    if !starts_with(&name, &prefix) {
        return None;
    }
    let dot: usize = prefix.len();
    if dot >= name.len() {
        return None;
    }
    let ghost rest = name@.skip(dot as int);
    assert(rest[0] == name@[dot as int]);
    if name[dot] != '.' {
        return None;
    }
    let tail = crate::text::tail_chars(&name, dot + 1);
    let suffix = to_chars(".bin");
    assert(rest.skip(1) =~= tail@);
    if !ends_with(&tail, &suffix) {
        return None;
    }
    let end: usize = tail.len() - suffix.len();
    assert(tail@.subrange(0, end as int) =~= tail@.take(end as int));
    parse_u32(&tail, 0, end)
}

/// Whether the extension of a file name is `bin`.
pub open spec fn has_bin_extension(file_name: Seq<char>) -> bool {
    has_suffix(file_name, ".bin"@) && file_name.len() > ".bin"@.len()
}

fn is_bin_file(file_name: &str) -> (b: bool)
    ensures
        b == has_bin_extension(file_name@),
{
    let name = to_chars(file_name);
    let suffix = to_chars(".bin");
    ends_with(&name, &suffix) && name.len() > suffix.len()
}

/// The segments among the files `names`, in the order of `names`.
pub open spec fn segments_among(names: Seq<Seq<char>>, stem: Seq<char>) -> Seq<SegmentModel>
    decreases names.len(),
{
    if names.len() == 0 {
        Seq::empty()
    } else {
        let before = segments_among(names.drop_last(), stem);
        let name = names.last();
        match segment_index(name, stem) {
            Some(index) => if has_bin_extension(name) {
                before.push(SegmentModel { path: name, index })
            } else {
                before
            },
            None => before,
        }
    }
}

/// `sorted` with `s` put behind every segment of the same or a smaller index.
pub open spec fn inserted(sorted: Seq<SegmentModel>, s: SegmentModel) -> Seq<SegmentModel>
    decreases sorted.len(),
{
    if sorted.len() == 0 || sorted.last().index <= s.index {
        sorted.push(s)
    } else {
        inserted(sorted.drop_last(), s).push(sorted.last())
    }
}

/// `segments` in the order of their indices; segments of the same index keep
/// their order.
pub open spec fn by_index(segments: Seq<SegmentModel>) -> Seq<SegmentModel>
    decreases segments.len(),
{
    if segments.len() == 0 {
        Seq::empty()
    } else {
        inserted(by_index(segments.drop_last()), segments.last())
    }
}

/// The names as characters.
pub open spec fn name_chars(names: Seq<String>) -> Seq<Seq<char>> {
    names.map_values(|n: String| n@)
}

fn insert_by_index(segments: &mut Vec<SealedSegment>, s: SealedSegment)
    ensures
        segment_models(final(segments)@) == inserted(segment_models(old(segments)@), s@),
{
    let ghost all = segment_models(segments@);
    let mut at: usize = segments.len();
    assert(all.take(at as int) =~= all);
    assert(inserted(all, s@) =~= inserted(all.take(at as int), s@) + all.skip(at as int));
    while at > 0 && segments[at - 1].index > s.index
        invariant
            at <= segments@.len(),
            all == segment_models(segments@),
            inserted(all, s@) == inserted(all.take(at as int), s@) + all.skip(at as int),
        decreases at,
    {
        let ghost here = all.take(at as int);
        assert(here.drop_last() =~= all.take(at - 1));
        assert(here.last() == segments@[at - 1]@);
        assert(inserted(all.take(at as int), s@) + all.skip(at as int) =~= inserted(
            all.take(at - 1),
            s@,
        ) + all.skip(at - 1));
        at = at - 1;
    }
    let ghost model = s@;
    proof {
        if at > 0 {
            assert(all.take(at as int).last() == segments@[at - 1]@);
        }
        assert(inserted(all.take(at as int), model) == all.take(at as int).push(model));
    }
    segments.insert(at, s);
    assert(segment_models(segments@) =~= all.take(at as int).push(model) + all.skip(at as int));
}

/// Pick the sealed `.bin` segments among the files of a directory, sorted
/// oldest-first by index.
///
/// Matches files named `{stem}.{index}.bin`. Ignores `.active` files and any
/// files that don't match the expected naming pattern.
pub fn find_sealed_segments(names: &Vec<String>, stem: &str) -> (segments: Vec<SealedSegment>)
    ensures
        segment_models(segments@) == by_index(segments_among(name_chars(names@), stem@)),
{
    let ghost all = name_chars(names@);
    let mut segments: Vec<SealedSegment> = Vec::new();
    let mut i: usize = 0;
    assert(all.take(0) =~= Seq::empty());
    assert(segment_models(segments@) =~= by_index(segments_among(all.take(0), stem@)));
    while i < names.len()
        invariant
            i <= names@.len(),
            all == name_chars(names@),
            segment_models(segments@) == by_index(segments_among(all.take(i as int), stem@)),
        decreases names@.len() - i,
    {
        let ghost next = all.take(i + 1);
        let ghost sofar = segments_among(all.take(i as int), stem@);
        assert(next.drop_last() =~= all.take(i as int));
        assert(next.last() == names@[i as int]@);
        let name = &names[i];
        if is_bin_file(name.as_str()) {
            if let Some(index) = parse_segment_index(name.as_str(), stem) {
                let segment = SealedSegment { path: name.clone(), index };
                assert(sofar.push(segment@).drop_last() =~= sofar);
                insert_by_index(&mut segments, segment);
            }
        }
        i = i + 1;
    }
    assert(all.take(i as int) =~= all);
    segments
}

/// Whether indices never fall.
pub open spec fn is_sorted(segments: Seq<SegmentModel>) -> bool {
    forall|i: int, j: int|
        0 <= i <= j < segments.len() ==> (#[trigger] segments[i]).index <= (
        #[trigger] segments[j]).index
}

proof fn lemma_inserted(sorted: Seq<SegmentModel>, s: SegmentModel)
    requires
        is_sorted(sorted),
    ensures
        is_sorted(inserted(sorted, s)),
        inserted(sorted, s).to_multiset() == sorted.to_multiset().insert(s),
        inserted(sorted, s).len() == sorted.len() + 1,
        forall|i: int|
            0 <= i < inserted(sorted, s).len() ==> (#[trigger] inserted(sorted, s)[i]).index
                <= s.index || (sorted.len() > 0 && inserted(sorted, s)[i].index
                <= sorted.last().index),
    decreases sorted.len(),
{
    broadcast use vstd::seq_lib::group_to_multiset_ensures;

    if sorted.len() == 0 || sorted.last().index <= s.index {
    } else {
        let rest = sorted.drop_last();
        lemma_inserted(rest, s);
        assert(rest.push(sorted.last()) =~= sorted);
        assert(sorted.to_multiset() =~= rest.to_multiset().insert(sorted.last()));
        assert(inserted(sorted, s).to_multiset() =~= sorted.to_multiset().insert(s));
    }
}

/// Sealed segments come out oldest first, and exactly those that match.
pub proof fn lemma_by_index_sorts(segments: Seq<SegmentModel>)
    ensures
        is_sorted(by_index(segments)),
        by_index(segments).to_multiset() == segments.to_multiset(),
    decreases segments.len(),
{
    broadcast use vstd::seq_lib::group_to_multiset_ensures;

    if segments.len() == 0 {
        assert(by_index(segments) =~= segments);
    } else {
        let rest = segments.drop_last();
        lemma_by_index_sorts(rest);
        lemma_inserted(by_index(rest), segments.last());
        assert(rest.push(segments.last()) =~= segments);
    }
}

/// What the writer names, the worker finds: the name of a sealed segment
/// parses to its index, and the name of a segment that is being written does
/// not parse.
pub proof fn lemma_names_parse_back(stem: Seq<char>, index: u32)
    ensures
        segment_index(segment_name(stem, index as nat), stem) == Some(index),
        has_bin_extension(segment_name(stem, index as nat)),
        !has_bin_extension(active_name(stem, index as nat)),
        segment_index(active_name(stem, index as nat), stem) is None,
{
    reveal_strlit(".bin");
    reveal_strlit(".active");
    let name = segment_name(stem, index as nat);
    let digits = decimal(index as nat);
    lemma_decimal_value(index as nat);
    assert(name.take(stem.len() as int) =~= stem);
    let rest = name.skip(stem.len() as int);
    assert(rest =~= seq!['.'] + digits + ".bin"@);
    assert(rest.skip(1) =~= digits + ".bin"@);
    assert(rest.skip(1).skip(rest.len() - 1 - 4) =~= ".bin"@);
    assert(rest.skip(1).take(rest.len() - 1 - 4) =~= digits);
    assert(name.skip(name.len() - 4) =~= ".bin"@);
    let active = active_name(stem, index as nat);
    assert(active.skip(active.len() - 4)[0] == 't');
    assert(".bin"@[0] == '.');
    let arest = active.skip(stem.len() as int);
    assert(arest.skip(1).skip(arest.len() - 1 - 4)[0] == 't');
}

/// A name has an index text exactly if it is the stem, a dot, that text and the
/// extension `bin`, one behind the other.
pub proof fn lemma_index_stands_between_stem_and_extension(
    file_name: Seq<char>,
    stem: Seq<char>,
    text: Seq<char>,
)
    ensures
        index_text(file_name, stem) == Some(text) <==> file_name == stem + seq!['.'] + text
            + ".bin"@,
        index_text(file_name, stem) is None ==> segment_index(file_name, stem) is None,
        index_text(file_name, stem) == Some(text) ==> segment_index(file_name, stem) == parsed_u32(
            text,
        ),
{
    let whole = stem + seq!['.'] + text + ".bin"@;
    let tail = text + ".bin"@;
    assert(whole.take(stem.len() as int) =~= stem);
    assert(whole.skip(stem.len() as int).skip(1) =~= tail);
    assert(tail.skip(tail.len() - ".bin"@.len()) =~= ".bin"@);
    assert(tail.take(tail.len() - ".bin"@.len()) =~= text);
    if index_text(file_name, stem) == Some(text) {
        let rest = file_name.skip(stem.len() as int);
        let after = rest.skip(1);
        assert(after =~= text + ".bin"@);
        assert(file_name =~= whole);
    }
}

/// A name has the extension `bin` exactly if it is something in front of it.
pub proof fn lemma_extension_is_behind_something(base: Seq<char>, file_name: Seq<char>)
    ensures
        base.len() > 0 ==> has_bin_extension(base + ".bin"@),
        !has_bin_extension(".bin"@),
        has_bin_extension(file_name) ==> file_name == file_name.take(
            file_name.len() - ".bin"@.len(),
        ) + ".bin"@,
{
    let whole = base + ".bin"@;
    assert(whole.skip(whole.len() - ".bin"@.len()) =~= ".bin"@);
    if has_bin_extension(file_name) {
        assert(file_name =~= file_name.take(file_name.len() - ".bin"@.len()) + ".bin"@);
    }
}

/// The segments among files are exactly the files whose name has an index and
/// the extension `bin`, each with its own name and that index.
pub proof fn lemma_segments_are_the_matching_files(names: Seq<Seq<char>>, stem: Seq<char>)
    ensures
        forall|i: int|
            0 <= i < names.len() && has_bin_extension(#[trigger] names[i]) ==> (segment_index(
                names[i],
                stem,
            ) matches Some(index) ==> segments_among(names, stem).contains(
                SegmentModel { path: names[i], index },
            )),
        forall|k: int|
            0 <= k < segments_among(names, stem).len() ==> {
                let s = #[trigger] segments_among(names, stem)[k];
                names.contains(s.path) && has_bin_extension(s.path) && segment_index(s.path, stem)
                    == Some(s.index)
            },
    decreases names.len(),
{
    if names.len() > 0 {
        let rest = names.drop_last();
        lemma_segments_are_the_matching_files(rest, stem);
        let before = segments_among(rest, stem);
        let all = segments_among(names, stem);
        assert(names[names.len() - 1] == names.last());
        assert forall|i: int|
            0 <= i < names.len() && has_bin_extension(#[trigger] names[i]) implies (segment_index(
            names[i],
            stem,
        ) matches Some(index) ==> all.contains(SegmentModel { path: names[i], index })) by {
            if let Some(index) = segment_index(names[i], stem) {
                let s = SegmentModel { path: names[i], index };
                if i < rest.len() {
                    assert(rest[i] == names[i]);
                    let k = choose|k: int| 0 <= k < before.len() && before[k] == s;
                    assert(all[k] == s);
                } else {
                    assert(all[all.len() - 1] == s);
                }
            }
        }
        assert forall|k: int| 0 <= k < all.len() implies ({
            let s = #[trigger] all[k];
            names.contains(s.path) && has_bin_extension(s.path) && segment_index(s.path, stem)
                == Some(s.index)
        }) by {
            if k < before.len() {
                assert(all[k] == before[k]);
                let i = choose|i: int| 0 <= i < rest.len() && rest[i] == before[k].path;
                assert(names[i] == before[k].path);
            }
        }
    }
}

/// A segment is put behind those of the same or a smaller index and in front of
/// those of a larger one; the others keep their order.
pub proof fn lemma_segment_is_put_in_its_place(sorted: Seq<SegmentModel>, s: SegmentModel) -> (k:
    int)
    requires
        is_sorted(sorted),
    ensures
        0 <= k <= sorted.len(),
        inserted(sorted, s) == sorted.take(k) + seq![s] + sorted.skip(k),
        forall|i: int| 0 <= i < k ==> (#[trigger] sorted[i]).index <= s.index,
        forall|i: int| k <= i < sorted.len() ==> (#[trigger] sorted[i]).index > s.index,
    decreases sorted.len(),
{
    if sorted.len() == 0 || sorted.last().index <= s.index {
        let k = sorted.len() as int;
        assert(inserted(sorted, s) =~= sorted.take(k) + seq![s] + sorted.skip(k));
        assert forall|i: int| 0 <= i < k implies (#[trigger] sorted[i]).index <= s.index by {
            assert(sorted[i].index <= sorted[sorted.len() - 1].index);
        }
        k
    } else {
        let rest = sorted.drop_last();
        assert(is_sorted(rest)) by {
            assert forall|i: int, j: int| 0 <= i <= j < rest.len() implies (
            #[trigger] rest[i]).index <= (#[trigger] rest[j]).index by {
                assert(rest[i] == sorted[i] && rest[j] == sorted[j]);
            }
        }
        let k = lemma_segment_is_put_in_its_place(rest, s);
        assert(inserted(sorted, s) =~= sorted.take(k) + seq![s] + sorted.skip(k));
        assert forall|i: int| 0 <= i < k implies (#[trigger] sorted[i]).index <= s.index by {
            assert(sorted[i] == rest[i]);
        }
        assert forall|i: int| k <= i < sorted.len() implies (#[trigger] sorted[i]).index
            > s.index by {
            if i < rest.len() {
                assert(sorted[i] == rest[i]);
            }
        }
        k
    }
}

/// Indices that never fall: an earlier segment has the same or a smaller index.
pub proof fn lemma_sorted_means_oldest_first(segments: Seq<SegmentModel>, i: int, j: int)
    requires
        is_sorted(segments),
        0 <= i <= j < segments.len(),
    ensures
        segments[i].index <= segments[j].index,
{
}

/// The value of a segment is its path and its index, and the values of segments
/// and of names are in order.
pub proof fn lemma_values_of_segments(segments: Seq<SealedSegment>, names: Seq<String>, i: int)
    ensures
        segment_models(segments).len() == segments.len(),
        0 <= i < segments.len() ==> segment_models(segments)[i].path == segments[i].path@
            && segment_models(segments)[i].index == segments[i].index,
        name_chars(names).len() == names.len(),
        0 <= i < names.len() ==> name_chars(names)[i] == names[i]@,
{
}

/// Segments are put in order one by one, each among those before it.
pub proof fn lemma_segments_are_sorted_one_by_one(segments: Seq<SegmentModel>, s: SegmentModel)
    ensures
        by_index(Seq::empty()) == Seq::<SegmentModel>::empty(),
        by_index(segments.push(s)) == inserted(by_index(segments), s),
{
    assert(segments.push(s).drop_last() =~= segments);
}

} // verus!
