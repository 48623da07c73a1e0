//! The scan as mathematics: the state between two characters, the step that
//! one character causes, and the matches that a whole text gives.
use crate::class::{char_class, CharClass};
use crate::table::table_entry;
use crate::text::{byte_len, is_ascii, is_joining, utf8_len};
use emojis::Emoji;
use std::ops::Range;
use vstd::prelude::*;
use vstd::utf8::{decode_utf8, is_char_boundary, valid_utf8};

verus! {

/// One emoji found in a text: the table's record, and the bytes `[start, end)`
/// that the scanner reports as its place.
pub struct Match {
    pub emoji: &'static Emoji,
    pub start: nat,
    pub end: nat,
}

/// Where the state machine stands between two characters.
#[derive(Clone, Copy, Debug, PartialEq, Eq, Structural)]
pub enum Phase {
    /// No cluster is in progress.
    Empty,
    /// A cluster is in progress, and the next character is judged on its own.
    Building,
    /// A cluster is in progress and a joiner or variation selector has just
    /// been attached to it: the next character cannot close it.
    JoinerPending,
}

/// The scanner between two characters.
pub struct ScanState {
    /// The candidate cluster gathered so far.
    pub cluster: Seq<char>,
    /// The byte offset at which the candidate cluster began.
    pub cluster_start: nat,
    /// Whether the character before was attached to the cluster as a joiner or
    /// variation selector.
    pub previous_was_joiner: bool,
    /// Whether the last character that was classified in full is an emoji.
    pub previous_was_emoji: bool,
    /// The byte offset of the next character.
    pub offset: nat,
    /// The matches so far, in the order in which they were found.
    pub matches: Seq<Match>,
}

impl ScanState {
    /// A cluster in progress ends at or before the offset of the next
    /// character. Every state that a scan passes through is of this kind.
    pub open spec fn well_formed(self) -> bool {
        self.cluster.len() > 0 ==> self.cluster_start + byte_len(self.cluster) <= self.offset
    }

    /// The phase that the state is in.
    pub open spec fn phase(self) -> Phase {
        if self.cluster.len() == 0 {
            Phase::Empty
        } else if self.previous_was_joiner {
            Phase::JoinerPending
        } else {
            Phase::Building
        }
    }
}

/// The state before the first character.
pub open spec fn initial() -> ScanState {
    ScanState {
        cluster: Seq::empty(),
        cluster_start: 0,
        previous_was_joiner: false,
        previous_was_emoji: false,
        offset: 0,
        matches: Seq::empty(),
    }
}

/// A character that can never be part of an emoji: it lies in the 7-bit range
/// and has no emoji presentation. Its other four answers are not asked.
pub open spec fn is_plain(c: char, class: CharClass) -> bool {
    is_ascii(c) && !class.presentation
}

/// The flush: the cluster is looked up in the table, a hit is recorded with
/// the bytes from the cluster's start over the cluster's own length, and the
/// cluster is emptied. A miss leaves no trace.
pub open spec fn flushed(s: ScanState) -> ScanState {
    ScanState {
        cluster: Seq::empty(),
        cluster_start: s.cluster_start,
        previous_was_joiner: s.previous_was_joiner,
        previous_was_emoji: s.previous_was_emoji,
        offset: s.offset,
        matches: match table_entry(s.cluster) {
            Some(emoji) => s.matches.push(
                Match {
                    emoji,
                    start: s.cluster_start,
                    end: s.cluster_start + byte_len(s.cluster),
                },
            ),
            None => s.matches,
        },
    }
}

/// The state after a plain character: a cluster in progress is flushed, and
/// the machine is empty.
pub open spec fn passed(s: ScanState, c: char) -> ScanState {
    let t = if s.cluster.len() > 0 {
        flushed(s)
    } else {
        s
    };
    ScanState {
        cluster: t.cluster,
        cluster_start: t.cluster_start,
        previous_was_joiner: false,
        previous_was_emoji: t.previous_was_emoji,
        offset: s.offset + utf8_len(c),
        matches: t.matches,
    }
}

/// Whether `c` is attached to the cluster in progress as a joiner or variation
/// selector, whatever its class: the machine is building, and `c` is one.
pub open spec fn attaches(s: ScanState, c: char) -> bool {
    s.phase() == Phase::Building && is_joining(c)
}

/// Whether `c` is a boundary for the cluster in progress: the machine is
/// building, `c` is no joiner or variation selector, and `c` is not a
/// component that directly follows an emoji.
pub open spec fn bounds(s: ScanState, c: char, class: CharClass) -> bool {
    s.phase() == Phase::Building && !is_joining(c) && !(s.previous_was_emoji && class.component)
}

/// The state after reading `c`, whose class is `class`, in state `s`.
pub open spec fn step(s: ScanState, c: char, class: CharClass) -> ScanState {
    if is_plain(c, class) {
        passed(s, c)
    } else if attaches(s, c) {
        ScanState {
            cluster: s.cluster.push(c),
            cluster_start: s.cluster_start,
            previous_was_joiner: true,
            previous_was_emoji: s.previous_was_emoji,
            offset: s.offset + utf8_len(c),
            matches: s.matches,
        }
    } else {
        let t = if bounds(s, c, class) {
            flushed(s)
        } else {
            s
        };
        ScanState {
            cluster: if class.relevant() {
                t.cluster.push(c)
            } else {
                t.cluster
            },
            cluster_start: if class.relevant() && t.cluster.len() == 0 {
                s.offset
            } else {
                t.cluster_start
            },
            previous_was_joiner: false,
            previous_was_emoji: class.emoji,
            offset: s.offset + utf8_len(c),
            matches: t.matches,
        }
    }
}

/// The state at the end of the input: a cluster still in progress is flushed.
pub open spec fn finished(s: ScanState) -> ScanState {
    if s.cluster.len() > 0 {
        flushed(s)
    } else {
        s
    }
}

/// The state after reading all of `text` from the initial state, each
/// character classified by the built-in Unicode data.
pub open spec fn scan(text: Seq<char>) -> ScanState
    decreases text.len(),
{
    if text.len() == 0 {
        initial()
    } else {
        step(scan(text.drop_last()), text.last(), char_class(text.last()))
    }
}

/// The emoji in `text`, each with its byte range, from left to right.
pub open spec fn found_in(text: Seq<char>) -> Seq<Match> {
    finished(scan(text)).matches
}

/// The records of a list of matches, without their ranges.
pub open spec fn emoji_of(matches: Seq<Match>) -> Seq<&'static Emoji> {
    matches.map_values(|found: Match| found.emoji)
}

/// What a returned pair stands for.
pub open spec fn match_view(pair: (&'static Emoji, Range<usize>)) -> Match {
    Match { emoji: pair.0, start: pair.1.start as nat, end: pair.1.end as nat }
}

/// What a returned list stands for.
pub open spec fn matches_view(pairs: Seq<(&'static Emoji, Range<usize>)>) -> Seq<Match> {
    pairs.map_values(|pair: (&'static Emoji, Range<usize>)| match_view(pair))
}

/// Every character of `text` is plain under the built-in Unicode data.
pub open spec fn is_plain_text(text: Seq<char>) -> bool {
    forall|i: int| 0 <= i < text.len() ==> is_plain(#[trigger] text[i], char_class(text[i]))
}

/// Whether reading `c` lengthens the cluster in progress.
pub open spec fn joins_cluster(s: ScanState, c: char, class: CharClass) -> bool {
    s.cluster.len() > 0 && step(s, c, class).cluster.len() > s.cluster.len()
}

/// Whether the cluster in progress ends exactly where the next character starts.
pub open spec fn reaches_offset(s: ScanState) -> bool {
    s.cluster_start + byte_len(s.cluster) == s.offset
}

/// The cluster that began at byte `start` was put together without a gap:
/// wherever a character joined it, that character stood directly behind it.
///
/// A gap opens where a character with none of the five properties follows a
/// pending joiner: the character is dropped, the cluster stays, and a joiner or
/// variation selector that comes next is attached to it all the same.
pub open spec fn gapless_from(text: Seq<char>, start: nat) -> bool {
    forall|k: int|
        0 <= k < text.len() && scan(#[trigger] text.take(k)).cluster_start == start
            && joins_cluster(scan(text.take(k)), text[k], char_class(text[k]))
            ==> reaches_offset(scan(text.take(k)))
}

/// No cluster of `text` is put together across a gap.
pub open spec fn gapless(text: Seq<char>) -> bool {
    forall|k: int|
        0 <= k < text.len() && joins_cluster(
            scan(#[trigger] text.take(k)),
            text[k],
            char_class(text[k]),
        ) ==> reaches_offset(scan(text.take(k)))
}

/// No joiner or variation selector of `text` is directly followed by a
/// character that the scanner drops: one that is not plain and has none of the
/// five properties. Such a text has no gaps.
pub open spec fn joiners_are_followed(text: Seq<char>) -> bool {
    forall|k: int|
        0 < k < text.len() && is_joining(text[k - 1]) ==> is_plain(
            #[trigger] text[k],
            char_class(text[k]),
        ) || char_class(text[k]).relevant()
}

/// The range of `found` begins and ends between two characters of `bytes`,
/// and the table gives the record of `found` for the text that its bytes spell.
pub open spec fn found_at(bytes: Seq<u8>, found: Match) -> bool {
    &&& found.start <= found.end <= bytes.len()
    &&& is_char_boundary(bytes, found.start as int)
    &&& is_char_boundary(bytes, found.end as int)
    &&& valid_utf8(bytes.subrange(found.start as int, found.end as int))
    &&& table_entry(decode_utf8(bytes.subrange(found.start as int, found.end as int))) == Some(
        found.emoji,
    )
}

} // verus!
