//! Finds the emoji in a text, sequences of several code points included:
//! joined families, flags, skin tones, glyphs with a variation selector.
//!
//! A scan reads the text once, character by character. It gathers the
//! characters that can belong to an emoji into candidate clusters and keeps
//! each cluster that the emoji table knows.
use crate::class::Classifier;
use crate::laws::{
    lemma_matches_in_order, lemma_plain_text_holds_no_emoji, lemma_range_round_trip,
    lemma_scan_in_order,
};
use crate::model::{
    emoji_of, found_at, found_in, gapless_from, is_plain_text, match_view, matches_view, scan,
};
use crate::scanner::Scanner;
use crate::text::{byte_len, char_is_ascii, lemma_encode_push, lemma_prefix_len};
use std::ops::Range;
use vstd::prelude::*;
use vstd::utf8::encode_utf8;

pub mod class;
pub mod laws;
pub mod model;
pub mod scanner;
pub mod table;
pub mod text;
pub mod unicode;

pub use emojis::Emoji;

verus! {

/// Finds all the emoji in `content` with a classifier that the caller has
/// loaded, each with the byte range that the scanner gives as its place.
///
/// The matches come from left to right: their ranges are not empty, lie within
/// the text and do not overlap. The range of a match whose cluster has no gap
/// cuts out, between two characters at either end, the very text for which the
/// table gave the record. A text of plain characters gives no match.
pub fn find_emoji_ranges_with(classifier: &Classifier, content: &str) -> (found: Vec<
    (&'static Emoji, Range<usize>),
>)
    ensures
        matches_view(found@) == found_in(content@),
        forall|i: int|
            0 <= i < found@.len() ==> (#[trigger] found@[i]).1.start < found@[i].1.end
                <= byte_len(content@),
        forall|i: int, j: int|
            0 <= i < j < found@.len() ==> (#[trigger] found@[i]).1.start < (
            #[trigger] found@[j]).1.start && found@[i].1.end <= found@[j].1.start,
        forall|i: int|
            0 <= i < found@.len() && gapless_from(content@, (#[trigger] found@[i]).1.start as nat)
                ==> found_at(encode_utf8(content@), match_view(found@[i])),
        is_plain_text(content@) ==> found@.len() == 0,
{
    // No text in memory takes more than `usize::MAX` bytes: this bounds every offset.
    let _length: usize = content.as_bytes().len();
    let mut scanner = Scanner::new();
    assert(content@.take(0) =~= Seq::<char>::empty());
    for c in chars: content.chars()
        invariant
            chars.seq() == content@,
            byte_len(content@) <= usize::MAX,
            scanner@ == scan(content@.take(chars.index())),
            scanner@.well_formed(),
    {
        proof {
            let read = content@.take(chars.index());
            lemma_scan_in_order(read);
            lemma_encode_push(read, c);
            lemma_prefix_len(content@, chars.index() + 1);
            assert(content@.take(chars.index() + 1) =~= read.push(c));
            assert(read.push(c).drop_last() =~= read);
        }
        let presentation = classifier.has_presentation(c);
        if !presentation && char_is_ascii(c) {
            scanner.pass(c);
        } else {
            scanner.step(c, classifier.classify_presented(c, presentation));
        }
    }
    assert(content@.take(content@.len() as int) =~= content@);
    let found = scanner.finish();
    proof {
        lemma_matches_in_order(content@);
        assert forall|i: int| 0 <= i < found@.len() implies matches_view(found@)[i] == match_view(
            #[trigger] found@[i],
        ) by {}
        assert forall|i: int|
            0 <= i < found@.len() && gapless_from(
                content@,
                (#[trigger] found@[i]).1.start as nat,
            ) implies found_at(encode_utf8(content@), match_view(found@[i])) by {
            lemma_range_round_trip(content@, i);
        }
        if is_plain_text(content@) {
            lemma_plain_text_holds_no_emoji(content@);
        }
    }
    found
}

/// Finds all the emoji in `content`, each with the byte range that the scanner
/// gives as its place.
///
/// The matches come from left to right: their ranges are not empty, lie within
/// the text and do not overlap. The range of a match whose cluster has no gap
/// cuts out, between two characters at either end, the very text for which the
/// table gave the record. A text of plain characters gives no match.
pub fn find_emoji_ranges(content: &str) -> (found: Vec<(&'static Emoji, Range<usize>)>)
    ensures
        matches_view(found@) == found_in(content@),
        forall|i: int|
            0 <= i < found@.len() ==> (#[trigger] found@[i]).1.start < found@[i].1.end
                <= byte_len(content@),
        forall|i: int, j: int|
            0 <= i < j < found@.len() ==> (#[trigger] found@[i]).1.start < (
            #[trigger] found@[j]).1.start && found@[i].1.end <= found@[j].1.start,
        forall|i: int|
            0 <= i < found@.len() && gapless_from(content@, (#[trigger] found@[i]).1.start as nat)
                ==> found_at(encode_utf8(content@), match_view(found@[i])),
        is_plain_text(content@) ==> found@.len() == 0,
{
    let classifier = Classifier::load();
    find_emoji_ranges_with(&classifier, content)
}

/// Finds all the emoji in `content`, from left to right: the records of
/// `find_emoji_ranges`, without their ranges. A text of plain characters gives
/// none.
pub fn find_emoji(content: &str) -> (found: Vec<&'static Emoji>)
    ensures
        found@ == emoji_of(found_in(content@)),
        is_plain_text(content@) ==> found@.len() == 0,
{
    let ranged = find_emoji_ranges(content);
    let mut found: Vec<&'static Emoji> = Vec::with_capacity(ranged.len());
    for i in 0..ranged.len()
        invariant
            matches_view(ranged@) == found_in(content@),
            found@ == emoji_of(found_in(content@).take(i as int)),
    {
        found.push(ranged[i].0);
        assert(matches_view(ranged@)[i as int] == found_in(content@)[i as int]);
        assert(emoji_of(found_in(content@).take(i + 1)) =~= emoji_of(
            found_in(content@).take(i as int),
        ).push(ranged[i as int].0));
    }
    assert(found_in(content@).take(ranged@.len() as int) =~= found_in(content@));
    found
}

} // verus!
