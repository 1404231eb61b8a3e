use crate::keys::Key;
use crate::text::{
    lemma_advance_preserves_wf, lemma_retreat_preserves_wf, lemma_stride_words_le, GameString,
    TextModel,
};
use vstd::prelude::*;

verus! {

/// Mathematical model of a [`Round`]: the text, the start of the attempt
/// and the moment it was finished, in clock milliseconds.
pub struct RoundModel {
    pub text: TextModel,
    pub start_time: int,
    pub end_time: Option<int>,
}

impl RoundModel {
    /// Well-formedness: the text is well-formed and a latched finish time
    /// never lies before the start.
    pub open spec fn wf(self) -> bool {
        &&& self.text.wf()
        &&& 0 <= self.start_time
        &&& self.end_time matches Some(e) ==> self.start_time <= e
    }

    /// A round that has just been started at `now` on the phrase `s`.
    pub open spec fn started(s: Seq<char>, now: int) -> RoundModel {
        RoundModel { text: TextModel::of_phrase(s), start_time: now, end_time: None }
    }

    /// One key handled at clock reading `now`: a printable character is
    /// committed and, if it finishes the phrase, latches the finish time
    /// (once set it is never overwritten); backspace steps back; every other
    /// key does nothing.
    pub open spec fn handle_key(self, key: Key, now: int) -> RoundModel {
        match key {
            Key::Char(c) => {
                let t2 = self.text.advance(c);
                RoundModel {
                    text: t2,
                    start_time: self.start_time,
                    end_time: if t2.completed() && self.end_time is None {
                        Some(now)
                    } else {
                        self.end_time
                    },
                }
            },
            Key::Backspace => RoundModel {
                text: self.text.retreat(),
                start_time: self.start_time,
                end_time: self.end_time,
            },
            _ => self,
        }
    }

    /// Milliseconds from the start of the round to its finish time, or to
    /// `now` while it still runs.
    pub open spec fn elapsed_millis(self, now: int) -> int {
        (match self.end_time {
            Some(e) => e,
            None => now,
        }) - self.start_time
    }

    /// The words-per-minute reading at clock `now`.
    pub open spec fn wpm(self, now: int) -> int {
        Self::wpm_value(TextModel::stride_words(self.text.cursor), self.elapsed_millis(now))
    }

    /// `words` completed in `ms` milliseconds, as whole words per minute,
    /// rounded to the nearest integer; 0 when no time has passed, and capped
    /// at `i32::MAX`.
    pub open spec fn wpm_value(words: int, ms: int) -> int {
        if ms <= 0 {
            0
        } else {
            let raw = (120000 * words + ms) / (2 * ms);
            if raw > i32::MAX {
                i32::MAX as int
            } else {
                raw
            }
        }
    }
}

/// One timed attempt at a target phrase. Time is injected by the caller as a
/// monotonic clock reading in milliseconds, so timing is deterministic.
pub struct Round {
    pub text: GameString,
    pub start_time: u64,
    pub end_time: Option<u64>,
}

impl View for Round {
    type V = RoundModel;

    open spec fn view(&self) -> RoundModel {
        RoundModel {
            text: self.text@,
            start_time: self.start_time as int,
            end_time: match self.end_time {
                Some(e) => Some(e as int),
                None => None,
            },
        }
    }
}

impl Round {
    /// Starts an attempt at `target_str`, with `now_ms` as its start time.
    pub fn new(target_str: String, now_ms: u64) -> (r: Round)
        ensures
            r@ == RoundModel::started(target_str@, now_ms as int),
            r@.wf(),
    {
        proof {
            crate::text::lemma_of_phrase(target_str@);
        }
        Round { text: GameString::from(target_str), start_time: now_ms, end_time: None }
    }

    /// The finish time has been latched.
    pub fn is_complete(&self) -> (b: bool)
        ensures
            b == (self@.end_time is Some),
    {
        match self.end_time {
            Some(_) => true,
            None => false,
        }
    }

    /// Milliseconds this round has run: up to its finish time once latched,
    /// up to `now_ms` before that.
    pub fn elapsed_millis(&self, now_ms: u64) -> (ms: u64)
        requires
            self@.wf(),
            self@.end_time is None ==> self@.start_time <= now_ms,
        ensures
            ms == self@.elapsed_millis(now_ms as int),
    {
        match self.end_time {
            Some(e) => e - self.start_time,
            None => now_ms - self.start_time,
        }
    }

    /// The words-per-minute reading at clock `now_ms`: completed stride
    /// words over elapsed minutes, rounded to the nearest whole number; 0
    /// when no time has passed.
    pub fn calculate_wpm(&self, now_ms: u64) -> (wpm: i32)
        requires
            self@.wf(),
            self@.text.len() <= i32::MAX,
            self@.end_time is None ==> self@.start_time <= now_ms,
        ensures
            wpm == self@.wpm(now_ms as int),
    {
        let words = self.text.words_completed();
        let ms = self.elapsed_millis(now_ms);
        if ms == 0 {
            0
        } else {
            proof {
                lemma_stride_words_le(self@.text.cursor);
            }
            let num: u128 = 120000u128 * (words as u128) + (ms as u128);
            let den: u128 = 2u128 * (ms as u128);
            let raw: u128 = num / den;
            if raw > 0x7fff_ffffu128 {
                i32::MAX
            } else {
                raw as i32
            }
        }
    }

    /// Handles one key at clock reading `now_ms`, as
    /// [`RoundModel::handle_key`] states.
    pub fn handle_input(&mut self, key: Key, now_ms: u64)
        requires
            old(self)@.wf(),
            old(self)@.start_time <= now_ms,
        ensures
            final(self)@ == old(self)@.handle_key(key, now_ms as int),
            final(self)@.wf(),
    {
        match key {
            Key::Char(typed) => {
                self.text.update_next_char(typed);
                if self.text.is_completed() && self.end_time.is_none() {
                    self.end_time = Some(now_ms);
                }
            },
            Key::Backspace => {
                self.text.pop_char();
            },
            _ => {},
        }
    }
}

/// Once a round's finish time is latched, no further key changes it, and
/// the cursor never leaves `[0, len]`.
pub proof fn lemma_end_time_latched(r: RoundModel, key: Key, now: int)
    requires
        r.wf(),
        r.end_time is Some,
    ensures
        r.handle_key(key, now).end_time == r.end_time,
        r.handle_key(key, now).wf(),
        0 <= r.handle_key(key, now).text.cursor <= r.handle_key(key, now).text.len(),
{
    lemma_handle_key_wf(r, key, now);
}

/// Handling a key keeps a round well-formed, provided the clock has not run
/// backwards past the round's start.
pub proof fn lemma_handle_key_wf(r: RoundModel, key: Key, now: int)
    requires
        r.wf(),
        r.end_time is None ==> r.start_time <= now,
    ensures
        r.handle_key(key, now).wf(),
{
    match key {
        Key::Char(c) => lemma_advance_preserves_wf(r.text, c),
        Key::Backspace => lemma_retreat_preserves_wf(r.text),
        _ => {},
    }
}

} // verus!
