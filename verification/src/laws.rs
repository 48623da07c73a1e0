//! What holds of every scan, with the proofs.
use crate::class::{char_class, CharClass};
use crate::model::{
    emoji_of, flushed, found_at, found_in, gapless, gapless_from, is_plain_text,
    joiners_are_followed, joins_cluster, matches_view, reaches_offset, scan, step, Match,
    ScanState,
};
use crate::text::{
    byte_len, is_joining, lemma_boundary_between, lemma_boundary_stays, lemma_bytes_of_nonempty,
    lemma_encode_push, lemma_scalar_is_valid, utf8_len,
};
use emojis::Emoji;
use std::ops::Range;
use vstd::prelude::*;
use vstd::utf8::{encode_scalar, encode_utf8, is_char_boundary, valid_utf8};

verus! {

/// The offset up to which the matches of a state may reach: the start of the
/// cluster in progress, or the offset of the next character where there is none.
pub open spec fn frontier(s: ScanState) -> nat {
    if s.cluster.len() > 0 {
        s.cluster_start
    } else {
        s.offset
    }
}

/// The matches of a state are non-empty ranges that follow one another without
/// overlap and end at or before the frontier.
pub open spec fn in_order(s: ScanState) -> bool {
    &&& s.well_formed()
    &&& forall|i: int|
        0 <= i < s.matches.len() ==> (#[trigger] s.matches[i]).start < s.matches[i].end
            <= frontier(s)
    &&& forall|i: int, j: int|
        0 <= i < j < s.matches.len() ==> (#[trigger] s.matches[i]).end <= (
        #[trigger] s.matches[j]).start
}

/// A flush keeps the matches in order, and moves the frontier to the offset.
pub proof fn lemma_flush_in_order(s: ScanState)
    requires
        in_order(s),
        s.cluster.len() > 0,
    ensures
        in_order(flushed(s)),
        frontier(flushed(s)) == s.offset,
{
    lemma_bytes_of_nonempty(s.cluster);
}

/// A step keeps the matches in order, and moves the offset on by the bytes of
/// the character read.
pub proof fn lemma_step_in_order(s: ScanState, c: char, class: CharClass)
    requires
        in_order(s),
    ensures
        in_order(step(s, c, class)),
        step(s, c, class).offset == s.offset + utf8_len(c),
{
    lemma_encode_push(s.cluster, c);
    lemma_encode_push(Seq::<char>::empty(), c);
    if s.cluster.len() > 0 {
        lemma_flush_in_order(s);
    }
}

/// Every state of a scan has its matches in order, and stands at the offset
/// that the text read so far takes in bytes.
pub proof fn lemma_scan_in_order(text: Seq<char>)
    ensures
        in_order(scan(text)),
        scan(text).offset == byte_len(text),
    decreases text.len(),
{
    if text.len() > 0 {
        lemma_scan_in_order(text.drop_last());
        lemma_step_in_order(scan(text.drop_last()), text.last(), char_class(text.last()));
        lemma_encode_push(text.drop_last(), text.last());
        assert(text.drop_last().push(text.last()) =~= text);
    }
}

/// Order: the matches of a text are non-empty byte ranges within the text, and
/// each ends at or before the start of the next. Their starts therefore
/// increase strictly, and no two of them overlap.
pub proof fn lemma_matches_in_order(text: Seq<char>)
    ensures
        forall|i: int|
            0 <= i < found_in(text).len() ==> (#[trigger] found_in(text)[i]).start < found_in(
                text,
            )[i].end <= byte_len(text),
        forall|i: int, j: int|
            0 <= i < j < found_in(text).len() ==> (#[trigger] found_in(text)[i]).end <= (
            #[trigger] found_in(text)[j]).start,
        forall|i: int, j: int|
            0 <= i < j < found_in(text).len() ==> (#[trigger] found_in(text)[i]).start < (
            #[trigger] found_in(text)[j]).start,
{
    lemma_scan_in_order(text);
    if scan(text).cluster.len() > 0 {
        lemma_flush_in_order(scan(text));
    }
}

/// Plain text: a text in which every character lies in the 7-bit range and has
/// no emoji presentation holds no emoji.
pub proof fn lemma_plain_text_holds_no_emoji(text: Seq<char>)
    requires
        is_plain_text(text),
    ensures
        found_in(text) == Seq::<Match>::empty(),
        scan(text).cluster.len() == 0,
    decreases text.len(),
{
    if text.len() > 0 {
        lemma_plain_text_holds_no_emoji(text.drop_last());
    }
}

/// Equivalence: the list without ranges holds the records of the list with
/// ranges, one for one and in the same order.
pub proof fn lemma_same_emoji_with_and_without_ranges(
    text: Seq<char>,
    without: Seq<&'static Emoji>,
    with: Seq<(&'static Emoji, Range<usize>)>,
)
    requires
        without == emoji_of(found_in(text)),
        matches_view(with) == found_in(text),
    ensures
        without.len() == with.len(),
        forall|i: int| 0 <= i < with.len() ==> without[i] == (#[trigger] with[i]).0,
{
    assert forall|i: int| 0 <= i < with.len() implies without[i] == (#[trigger] with[i]).0 by {
        assert(matches_view(with)[i].emoji == with[i].0);
    }
}

/// The matches only grow: a step keeps every match that was there, in its
/// place, and adds at most one behind them.
pub proof fn lemma_step_keeps_matches(s: ScanState, c: char, class: CharClass)
    ensures
        step(s, c, class).matches.len() <= s.matches.len() + 1,
        s.matches == step(s, c, class).matches.take(s.matches.len() as int),
{
    assert(s.matches =~= step(s, c, class).matches.take(s.matches.len() as int));
}

/// Every character of the cluster has one of the five properties, or is a
/// joiner or variation selector.
pub open spec fn holds_emoji_characters(cluster: Seq<char>) -> bool {
    forall|i: int|
        0 <= i < cluster.len() ==> char_class(#[trigger] cluster[i]).relevant() || is_joining(
            cluster[i],
        )
}

/// The candidate cluster never holds a character that has none of the five
/// properties, unless it is a joiner or variation selector.
pub proof fn lemma_cluster_holds_emoji_characters(text: Seq<char>)
    ensures
        holds_emoji_characters(scan(text).cluster),
    decreases text.len(),
{
    if text.len() > 0 {
        lemma_cluster_holds_emoji_characters(text.drop_last());
    }
}

/// The cluster in progress stands in `bytes` where the state says it does,
/// between two characters at either end.
pub open spec fn cluster_stands(s: ScanState, bytes: Seq<u8>) -> bool {
    s.cluster.len() > 0 ==> {
        &&& is_char_boundary(bytes, s.cluster_start as int)
        &&& is_char_boundary(bytes, (s.cluster_start + byte_len(s.cluster)) as int)
        &&& bytes.subrange(s.cluster_start as int, (s.cluster_start + byte_len(s.cluster)) as int)
            == encode_utf8(s.cluster)
    }
}

/// Up to the character at `k`, the cluster that began at byte `start` was put
/// together without a gap.
pub open spec fn gapless_before(text: Seq<char>, start: nat, k: int) -> bool {
    forall|j: int|
        0 <= j < k && scan(#[trigger] text.take(j)).cluster_start == start && joins_cluster(
            scan(text.take(j)),
            text[j],
            char_class(text[j]),
        ) ==> reaches_offset(scan(text.take(j)))
}

/// After `k` characters of `text`, the state is faithful to the bytes read so
/// far: the cluster in progress stands in them if it has no gap, and so does
/// every match whose cluster has none.
pub open spec fn faithful(text: Seq<char>, k: int) -> bool {
    let s = scan(text.take(k));
    let bytes = encode_utf8(text.take(k));
    &&& s.offset == bytes.len()
    &&& gapless_before(text, s.cluster_start, k) ==> cluster_stands(s, bytes)
    &&& forall|i: int|
        0 <= i < s.matches.len() && gapless_from(text, (#[trigger] s.matches[i]).start)
            ==> found_at(bytes, s.matches[i])
}

/// A flush records a cluster that stands in `bytes` as a match that is found
/// there, and keeps the matches that were there.
pub proof fn lemma_flush_records_cluster(s: ScanState, bytes: Seq<u8>)
    requires
        in_order(s),
        valid_utf8(bytes),
        s.offset == bytes.len(),
        s.cluster.len() > 0,
    ensures
        flushed(s).matches.len() <= s.matches.len() + 1,
        forall|i: int| 0 <= i < s.matches.len() ==> flushed(s).matches[i] == s.matches[i],
        forall|i: int|
            s.matches.len() <= i < flushed(s).matches.len() ==> (#[trigger] flushed(
                s,
            ).matches[i]).start == s.cluster_start,
        cluster_stands(s, bytes) ==> forall|i: int|
            s.matches.len() <= i < flushed(s).matches.len() ==> found_at(
                bytes,
                #[trigger] flushed(s).matches[i],
            ),
{
    broadcast use vstd::utf8::encode_utf8_valid_utf8, vstd::utf8::encode_utf8_decode_utf8;

}

/// A match that is found in `bytes` is found in every extension of `bytes`.
pub proof fn lemma_found_at_extends(bytes: Seq<u8>, more: Seq<u8>, found: Match)
    requires
        valid_utf8(bytes),
        valid_utf8(more),
        found_at(bytes, found),
    ensures
        found_at(bytes + more, found),
{
    lemma_boundary_stays(bytes, more, found.start as int);
    lemma_boundary_stays(bytes, more, found.end as int);
    assert((bytes + more).subrange(found.start as int, found.end as int) =~= bytes.subrange(
        found.start as int,
        found.end as int,
    ));
}

/// Whether reading `c` begins a new cluster, which then holds `c` alone.
pub open spec fn begins_cluster(s: ScanState, c: char, class: CharClass) -> bool {
    &&& step(s, c, class).cluster == seq![c]
    &&& step(s, c, class).cluster_start == s.offset
}

/// After a step, a cluster in progress has just begun, or it is the cluster
/// that was in progress before, with the same start. It stands in the bytes
/// where it has just begun, and where it stood before and `c` did not join it
/// across a gap.
pub proof fn lemma_step_cluster_stands(s: ScanState, bytes: Seq<u8>, c: char, class: CharClass)
    requires
        in_order(s),
        valid_utf8(bytes),
        s.offset == bytes.len(),
        step(s, c, class).cluster.len() > 0,
    ensures
        begins_cluster(s, c, class) || (s.cluster.len() > 0 && step(s, c, class).cluster_start
            == s.cluster_start),
        begins_cluster(s, c, class) ==> cluster_stands(
            step(s, c, class),
            bytes + encode_scalar(c as u32),
        ),
        cluster_stands(s, bytes) && (joins_cluster(s, c, class) ==> reaches_offset(s))
            ==> cluster_stands(step(s, c, class), bytes + encode_scalar(c as u32)),
{
    let more = encode_scalar(c as u32);
    let after = step(s, c, class);
    let start = after.cluster_start as int;
    let end = (after.cluster_start + byte_len(after.cluster)) as int;
    lemma_encode_push(s.cluster, c);
    lemma_encode_push(Seq::<char>::empty(), c);
    lemma_step_in_order(s, c, class);
    lemma_scalar_is_valid(c);
    lemma_boundary_between(bytes, more);
    vstd::utf8::valid_utf8_concat(bytes, more);
    vstd::utf8::is_char_boundary_start_end_of_seq(bytes + more);
    if after.cluster.len() == 1 && after.cluster_start == s.offset {
        assert(after.cluster =~= seq![c]);
        assert(Seq::<char>::empty().push(c) =~= seq![c]);
        assert((bytes + more).subrange(start, end) =~= more);
        assert(Seq::<u8>::empty() + more =~= more);
    } else if cluster_stands(s, bytes) && (joins_cluster(s, c, class) ==> reaches_offset(s)) {
        lemma_boundary_stays(bytes, more, s.cluster_start as int);
        if joins_cluster(s, c, class) {
            assert((bytes + more).subrange(start, end) =~= bytes.subrange(
                start,
                bytes.len() as int,
            ) + more);
        } else {
            lemma_boundary_stays(bytes, more, end);
            assert((bytes + more).subrange(start, end) =~= bytes.subrange(start, end));
        }
    }
}

/// A step keeps the matches that were there, and a match that it adds is the
/// cluster that was in progress: it is found in the bytes if that cluster
/// stood in them.
pub proof fn lemma_step_records_cluster(s: ScanState, bytes: Seq<u8>, c: char, class: CharClass)
    requires
        in_order(s),
        valid_utf8(bytes),
        s.offset == bytes.len(),
    ensures
        step(s, c, class).matches.len() <= s.matches.len() + 1,
        forall|i: int| 0 <= i < s.matches.len() ==> step(s, c, class).matches[i] == s.matches[i],
        forall|i: int|
            s.matches.len() <= i < step(s, c, class).matches.len() ==> (#[trigger] step(
                s,
                c,
                class,
            ).matches[i]).start == s.cluster_start,
        cluster_stands(s, bytes) ==> forall|i: int|
            s.matches.len() <= i < step(s, c, class).matches.len() ==> found_at(
                bytes,
                #[trigger] step(s, c, class).matches[i],
            ),
{
    if s.cluster.len() > 0 {
        lemma_flush_records_cluster(s, bytes);
    }
}

/// Every state of a scan is faithful to the bytes read so far.
pub proof fn lemma_scan_faithful(text: Seq<char>, k: int)
    requires
        0 <= k <= text.len(),
    ensures
        faithful(text, k),
    decreases k,
{
    if k > 0 {
        let read = text.take(k - 1);
        let c = text[k - 1];
        let class = char_class(c);
        let s = scan(read);
        let bytes = encode_utf8(read);
        let more = encode_scalar(c as u32);
        let after = scan(text.take(k));
        broadcast use vstd::utf8::encode_utf8_valid_utf8;

        lemma_scalar_is_valid(c);
        lemma_scan_faithful(text, k - 1);
        lemma_scan_in_order(read);
        lemma_scan_in_order(text.take(k));
        assert(text.take(k) =~= read.push(c));
        assert(text.take(k).drop_last() =~= read);
        lemma_encode_push(read, c);
        assert(after == step(s, c, class));
        assert(encode_utf8(text.take(k)) == bytes + more);
        lemma_step_records_cluster(s, bytes, c, class);
        if gapless_before(text, after.cluster_start, k) && after.cluster.len() > 0 {
            lemma_step_cluster_stands(s, bytes, c, class);
            if !begins_cluster(s, c, class) {
                assert(gapless_before(text, s.cluster_start, k - 1));
            }
        }
        assert forall|i: int|
            0 <= i < after.matches.len() && gapless_from(
                text,
                (#[trigger] after.matches[i]).start,
            ) implies found_at(bytes + more, after.matches[i]) by {
            if i < s.matches.len() {
                lemma_found_at_extends(bytes, more, s.matches[i]);
            } else {
                assert(gapless_before(text, s.cluster_start, k - 1));
                lemma_found_at_extends(bytes, more, after.matches[i]);
            }
        }
    }
}

/// Range round trip: where the cluster of a match has no gap, the match's
/// range begins and ends between two characters of the text, and its bytes
/// spell the very text for which the table gave the match's record.
///
/// Two things are not claimed. Where a cluster was put together across a gap,
/// its range has the cluster's length but covers the dropped character too:
/// `gapless_from` leaves such a match out. And the record's own text may differ
/// from the text that was looked up, because the table answers an unqualified
/// form with the fully qualified record.
pub proof fn lemma_range_round_trip(text: Seq<char>, i: int)
    requires
        0 <= i < found_in(text).len(),
        gapless_from(text, found_in(text)[i].start),
    ensures
        found_at(encode_utf8(text), found_in(text)[i]),
        found_in(text)[i].start < found_in(text)[i].end,
{
    broadcast use vstd::utf8::encode_utf8_valid_utf8;

    let s = scan(text);
    lemma_scan_faithful(text, text.len() as int);
    lemma_scan_in_order(text);
    lemma_matches_in_order(text);
    assert(text.take(text.len() as int) =~= text);
    if s.cluster.len() > 0 {
        lemma_flush_records_cluster(s, encode_utf8(text));
        if i >= s.matches.len() {
            assert(gapless_before(text, s.cluster_start, text.len() as int));
        }
    }
}

/// A text without gaps has no cluster with a gap.
pub proof fn lemma_gapless_text_has_gapless_clusters(text: Seq<char>, start: nat)
    requires
        gapless(text),
    ensures
        gapless_from(text, start),
{
}

/// Where every joiner and variation selector is followed by a character that
/// the scanner keeps or by a plain one, each state of the scan has its cluster
/// end at the offset, and a pending joiner is the character read last.
pub proof fn lemma_followed_joiners_keep_cluster_at_offset(text: Seq<char>, k: int)
    requires
        joiners_are_followed(text),
        0 <= k <= text.len(),
    ensures
        scan(text.take(k)).cluster.len() > 0 ==> reaches_offset(scan(text.take(k))),
        scan(text.take(k)).previous_was_joiner ==> k > 0 && is_joining(text[k - 1]),
    decreases k,
{
    if k > 0 {
        let read = text.take(k - 1);
        lemma_followed_joiners_keep_cluster_at_offset(text, k - 1);
        assert(text.take(k).drop_last() =~= read);
        lemma_encode_push(scan(read).cluster, text[k - 1]);
        lemma_encode_push(Seq::<char>::empty(), text[k - 1]);
    }
}

/// A text in which every joiner and variation selector is followed by a
/// character that the scanner keeps, or by a plain one, has no gaps.
pub proof fn lemma_followed_joiners_leave_no_gap(text: Seq<char>)
    requires
        joiners_are_followed(text),
    ensures
        gapless(text),
{
    assert forall|k: int|
        0 <= k < text.len() && joins_cluster(
            scan(#[trigger] text.take(k)),
            text[k],
            char_class(text[k]),
        ) implies reaches_offset(scan(text.take(k))) by {
        lemma_followed_joiners_keep_cluster_at_offset(text, k);
    }
}

} // verus!
