use crate::keys::Key;
use crate::round::{lemma_handle_key_wf, Round, RoundModel};
use crate::text::TextModel;
use vstd::prelude::*;

verus! {

/// The phase of a session, with the running attempt as its payload.
pub enum GameStatus {
    /// No round yet: the splash screen.
    Waiting,
    /// A round is being typed.
    Ongoing(Round),
    /// The last round just finished; its record is the tail of the history.
    Complete,
}

/// Model of [`GameStatus`].
pub enum PhaseModel {
    Waiting,
    Ongoing(RoundModel),
    Complete,
}

/// Mathematical model of a [`Game`]: the phase and the completed rounds, in
/// completion order.
pub struct GameModel {
    pub status: PhaseModel,
    pub record: Seq<RoundModel>,
}

/// The words the phrase generator yields for a request of `n` words.
/// `lipsum::lipsum` samples a fixed Markov chain with a fixed seed, so its
/// text depends on `n` alone.
pub uninterp spec fn phrase_text(n: int) -> Seq<char>;

/// Relies on `lipsum::lipsum`: about `n` words of lorem-ipsum prose, drawn
/// from a Markov chain with a fixed seed, hence a function of `n` alone.
#[verifier::external_body]
fn generate_phrase(n: usize) -> (s: String)
    ensures
        s@ == phrase_text(n as int),
{
    lipsum::lipsum(n)
}

impl GameModel {
    /// Well-formedness: a running round is well-formed and not yet finished,
    /// and every recorded round is a well-formed, fully typed attempt whose
    /// finish time is latched.
    pub open spec fn wf(self) -> bool {
        &&& self.status matches PhaseModel::Ongoing(r) ==> r.wf() && r.end_time is None
        &&& forall|i: int|
            0 <= i < self.record.len() ==> {
                &&& (#[trigger] self.record[i]).wf()
                &&& self.record[i].end_time is Some
                &&& self.record[i].text.completed()
            }
    }

    /// The round that `Enter` starts at clock `now`, on a phrase of `n`
    /// requested words.
    pub open spec fn started_round(n: int, now: int) -> RoundModel {
        RoundModel::started(phrase_text(n), now)
    }

    /// The step the state machine takes on `key` at clock `now`, for every
    /// key but Escape (which changes nothing):
    /// - `Waiting`, `Enter`: a short phrase is requested and a round starts;
    /// - `Ongoing`: the round handles the key; if that latched its finish
    ///   time, the round moves to the record and the phase is `Complete`;
    /// - `Complete`, `Enter`: a longer phrase is requested and a fresh round
    ///   starts;
    /// - anything else: no change.
    pub open spec fn step(self, key: Key, now: int) -> GameModel {
        match self.status {
            PhaseModel::Waiting => if key is Enter {
                GameModel {
                    status: PhaseModel::Ongoing(Self::started_round(5, now)),
                    record: self.record,
                }
            } else {
                self
            },
            PhaseModel::Ongoing(r) => {
                let r2 = r.handle_key(key, now);
                if r2.end_time is Some {
                    GameModel { status: PhaseModel::Complete, record: self.record.push(r2) }
                } else {
                    GameModel { status: PhaseModel::Ongoing(r2), record: self.record }
                }
            },
            PhaseModel::Complete => if key is Enter {
                GameModel {
                    status: PhaseModel::Ongoing(Self::started_round(10, now)),
                    record: self.record,
                }
            } else {
                self
            },
        }
    }

    /// Milliseconds the running round has been going; zero outside a round.
    pub open spec fn elapsed_millis(self, now: int) -> int {
        match self.status {
            PhaseModel::Ongoing(r) => r.elapsed_millis(now),
            _ => 0,
        }
    }
}

/// A whole session: the current phase and the history of completed rounds.
pub struct Game {
    pub status: GameStatus,
    pub record: Vec<Round>,
}

impl View for Game {
    type V = GameModel;

    open spec fn view(&self) -> GameModel {
        GameModel {
            status: match self.status {
                GameStatus::Waiting => PhaseModel::Waiting,
                GameStatus::Ongoing(r) => PhaseModel::Ongoing(r@),
                GameStatus::Complete => PhaseModel::Complete,
            },
            record: self.record@.map_values(|r: Round| r@),
        }
    }
}

impl Game {
    /// A fresh session: waiting, with an empty record.
    pub fn new() -> (g: Game)
        ensures
            g@.status is Waiting,
            g@.record == Seq::<RoundModel>::empty(),
            g@.wf(),
    {
        let g = Game { status: GameStatus::Waiting, record: Vec::new() };
        proof {
            assert(g@.record =~= Seq::<RoundModel>::empty());
        }
        g
    }

    /// The current phase, for a renderer to read.
    pub fn get_status(&self) -> (s: &GameStatus)
        ensures
            *s == self.status,
    {
        &self.status
    }

    /// Milliseconds the running round has been going; zero while waiting or
    /// between rounds.
    pub fn elapsed_time(&self, now_ms: u64) -> (ms: u64)
        requires
            self@.wf(),
            self@.status matches PhaseModel::Ongoing(r) ==> r.start_time <= now_ms,
        ensures
            ms == self@.elapsed_millis(now_ms as int),
    {
        match &self.status {
            GameStatus::Waiting => 0,
            GameStatus::Ongoing(round) => round.elapsed_millis(now_ms),
            GameStatus::Complete => 0,
        }
    }

    /// Feeds one key event to the session at clock reading `now_ms`.
    /// Escape pre-empts everything, changes nothing and asks the caller to
    /// quit; any other key drives the step relation [`GameModel::step`].
    pub fn handle_input(&mut self, key: Key, now_ms: u64) -> (quit: bool)
        requires
            old(self)@.wf(),
            old(self)@.status matches PhaseModel::Ongoing(r) ==> r.start_time <= now_ms,
        ensures
            final(self)@.wf(),
            quit == (key is Esc),
            key is Esc ==> final(self)@ == old(self)@,
            !(key is Esc) ==> final(self)@ == old(self)@.step(key, now_ms as int),
    {
        match key {
            Key::Esc => {
                return true;
            },
            _ => {},
        }
        let mut taken = GameStatus::Waiting;
        core::mem::swap(&mut self.status, &mut taken);
        match taken {
            GameStatus::Waiting => {
                match key {
                    Key::Enter => {
                        self.status = GameStatus::Ongoing(Round::new(generate_phrase(5), now_ms));
                    },
                    _ => {
                        self.status = GameStatus::Waiting;
                    },
                }
            },
            GameStatus::Ongoing(mut round) => {
                round.handle_input(key, now_ms);
                proof {
                    lemma_handle_key_wf(old(self)@.status->Ongoing_0, key, now_ms as int);
                }
                if round.is_complete() {
                    self.record.push(round);
                    self.status = GameStatus::Complete;
                    proof {
                        assert(self@.record =~= old(self)@.step(key, now_ms as int).record);
                    }
                } else {
                    self.status = GameStatus::Ongoing(round);
                }
            },
            GameStatus::Complete => {
                match key {
                    Key::Enter => {
                        self.status = GameStatus::Ongoing(Round::new(generate_phrase(10), now_ms));
                    },
                    _ => {
                        self.status = GameStatus::Complete;
                    },
                }
            },
        }
        false
    }
}

} // verus!
