//! The state machine that gathers the characters of one text into clusters
//! and keeps the clusters that the emoji table knows.
use crate::class::CharClass;
use crate::model::{
    finished, flushed, initial, match_view, matches_view, passed, step, Match, Phase, ScanState,
};
use crate::text::{char_is_ascii, char_is_joining, char_len, lemma_encode_push, utf8_len};
use emojis::Emoji;
use std::ops::Range;
use vstd::prelude::*;

verus! {

/// The scanner of one text. It owns the candidate cluster and the list of
/// matches; every scan makes a fresh one.
pub struct Scanner {
    cluster: String,
    cluster_start_offset: usize,
    previous_was_joiner: bool,
    previous_was_emoji: bool,
    offset: usize,
    matches: Vec<(&'static Emoji, Range<usize>)>,
}

impl View for Scanner {
    type V = ScanState;

    closed spec fn view(&self) -> ScanState {
        ScanState {
            cluster: self.cluster@,
            cluster_start: self.cluster_start_offset as nat,
            previous_was_joiner: self.previous_was_joiner,
            previous_was_emoji: self.previous_was_emoji,
            offset: self.offset as nat,
            matches: matches_view(self.matches@),
        }
    }
}

impl Scanner {
    /// A scanner in the initial state.
    pub fn new() -> (scanner: Scanner)
        ensures
            scanner@ == initial(),
            scanner@.well_formed(),
    {
        let scanner = Scanner {
            cluster: String::with_capacity(8),
            cluster_start_offset: 0,
            previous_was_joiner: false,
            previous_was_emoji: false,
            offset: 0,
            matches: Vec::with_capacity(128),
        };
        assert(matches_view(scanner.matches@) =~= Seq::<Match>::empty());
        scanner
    }

    /// The phase that the scanner is in.
    pub fn phase(&self) -> (phase: Phase)
        ensures
            phase == self@.phase(),
    {
        if self.cluster.as_str().is_empty() {
            Phase::Empty
        } else if self.previous_was_joiner {
            Phase::JoinerPending
        } else {
            Phase::Building
        }
    }

    /// Looks the cluster up, records a hit, and empties the cluster.
    fn flush(&mut self)
        requires
            old(self)@.well_formed(),
        ensures
            final(self)@ == flushed(old(self)@),
    {
        match emojis::get(self.cluster.as_str()) {
            Some(emoji) => {
                let length = self.cluster.as_str().len();
                let start = self.cluster_start_offset;
                let ghost before = self.matches@;
                self.matches.push((emoji, Range { start: start, end: start + length }));
                assert(matches_view(self.matches@) =~= matches_view(before).push(
                    match_view((emoji, Range { start: start, end: (start + length) as usize })),
                ));
            },
            None => {},
        }
        self.cluster.clear();
    }

    /// Reads one plain character: the fast path, on which no class is needed.
    pub fn pass(&mut self, c: char)
        requires
            old(self)@.well_formed(),
            old(self)@.offset + utf8_len(c) <= usize::MAX,
        ensures
            final(self)@ == passed(old(self)@, c),
            final(self)@.well_formed(),
    {
        self.offset = self.offset + char_len(c);
        if !self.cluster.as_str().is_empty() {
            self.flush();
        }
        self.previous_was_joiner = false;
    }

    /// Reads one character, whose class the caller has asked of the classifier.
    pub fn step(&mut self, c: char, class: CharClass)
        requires
            old(self)@.well_formed(),
            old(self)@.offset + utf8_len(c) <= usize::MAX,
        ensures
            final(self)@ == step(old(self)@, c, class),
            final(self)@.well_formed(),
    {
        if char_is_ascii(c) && !class.presentation {
            self.pass(c);
            return ;
        }
        proof {
            lemma_encode_push(self.cluster@, c);
            lemma_encode_push(Seq::<char>::empty(), c);
        }
        let at = self.offset;
        self.offset = at + char_len(c);
        if !self.previous_was_joiner && !self.cluster.as_str().is_empty() {
            if char_is_joining(c) {
                self.cluster.push(c);
                self.previous_was_joiner = true;
                return ;
            }
            if !(self.previous_was_emoji && class.component) {
                self.flush();
            }
        }
        self.previous_was_joiner = false;
        if class.is_relevant() {
            if self.cluster.as_str().is_empty() {
                self.cluster_start_offset = at;
            }
            self.cluster.push(c);
        }
        self.previous_was_emoji = class.emoji;
    }

    /// Ends the scan: flushes a cluster still in progress and hands the
    /// matches out.
    pub fn finish(self) -> (matches: Vec<(&'static Emoji, Range<usize>)>)
        requires
            self@.well_formed(),
        ensures
            matches_view(matches@) == finished(self@).matches,
    {
        let mut scanner = self;
        if !scanner.cluster.as_str().is_empty() {
            scanner.flush();
        }
        scanner.matches
    }
}

} // verus!
