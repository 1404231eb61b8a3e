use vstd::arithmetic::div_mod::{
    lemma_div_is_ordered, lemma_div_pos_is_pos, lemma_fundamental_div_mod,
    lemma_fundamental_div_mod_converse,
};
use vstd::prelude::*;
use vstd::string::StrSliceExecFns;

verus! {

/// One position of the target phrase: the character the player must type
/// there, and the character they actually gave once the cursor passed it.
pub struct GameChar {
    pub expected_char: char,
    pub given_char: Option<char>,
}

/// Correctness of one position, as a renderer reads it.
#[derive(Clone, Copy, Debug, PartialEq, Eq)]
pub enum CharStatus {
    Correct,
    Incorrect,
    Empty,
}

/// Mathematical model of a [`GameString`]: the slots and the cursor.
pub struct TextModel {
    pub slots: Seq<GameChar>,
    pub cursor: int,
}

/// The slot that the phrase character `c` starts with: nothing given yet.
pub open spec fn blank_slot(c: char) -> GameChar {
    GameChar { expected_char: c, given_char: None }
}

impl TextModel {
    /// The model of a text freshly built from the phrase `s`: one slot per
    /// character, nothing given yet, cursor at the start.
    pub open spec fn of_phrase(s: Seq<char>) -> TextModel {
        TextModel { slots: Seq::new(s.len(), |i: int| blank_slot(s[i])), cursor: 0 }
    }

    pub open spec fn len(self) -> int {
        self.slots.len() as int
    }

    /// Well-formedness: the cursor stays within `[0, len]`, and a slot holds
    /// a given character exactly when it lies below the cursor.
    pub open spec fn wf(self) -> bool {
        &&& 0 <= self.cursor <= self.len()
        &&& forall|i: int|
            0 <= i < self.len() ==> ((#[trigger] self.slots[i]).given_char is Some <==> i
                < self.cursor)
    }

    /// The whole phrase has been typed.
    pub open spec fn completed(self) -> bool {
        self.cursor == self.len()
    }

    /// Committing the character `c`: record it at the cursor and step
    /// forward; a no-op when the cursor is already at the end.
    pub open spec fn advance(self, c: char) -> TextModel {
        if self.cursor < self.len() {
            TextModel {
                slots: self.slots.update(
                    self.cursor,
                    GameChar {
                        expected_char: self.slots[self.cursor].expected_char,
                        given_char: Some(c),
                    },
                ),
                cursor: self.cursor + 1,
            }
        } else {
            self
        }
    }

    /// Backspace: step back and clear the slot just left; a no-op when the
    /// cursor is at the start.
    pub open spec fn retreat(self) -> TextModel {
        if self.cursor > 0 {
            TextModel {
                slots: self.slots.update(
                    self.cursor - 1,
                    GameChar {
                        expected_char: self.slots[self.cursor - 1].expected_char,
                        given_char: None,
                    },
                ),
                cursor: self.cursor - 1,
            }
        } else {
            self
        }
    }

    /// Correctness of position `i`; out-of-range positions read as `Empty`.
    pub open spec fn status_at(self, i: int) -> CharStatus {
        if 0 <= i < self.len() {
            match self.slots[i].given_char {
                Some(g) => if g == self.slots[i].expected_char {
                    CharStatus::Correct
                } else {
                    CharStatus::Incorrect
                },
                None => CharStatus::Empty,
            }
        } else {
            CharStatus::Empty
        }
    }

    /// How many of the first `n` slots hold exactly the character they
    /// expect.
    pub open spec fn correct_count(self, n: int) -> int
        decreases n,
    {
        if n <= 0 {
            0
        } else {
            self.correct_count(n - 1) + if self.slots[n - 1].given_char == Some(
                self.slots[n - 1].expected_char,
            ) {
                1int
            } else {
                0int
            }
        }
    }

    /// The stride word count over the first `n` positions: every fifth
    /// committed position (0-based indices divisible by 5) counts one word.
    pub open spec fn stride_words(n: int) -> int
        decreases n,
    {
        if n <= 0 {
            0
        } else {
            Self::stride_words(n - 1) + if (n - 1) % 5 == 0 {
                1int
            } else {
                0int
            }
        }
    }

    /// The fraction of slots below the cursor whose given character is the
    /// expected one, rounded to the nearest whole percentage; 0 when nothing
    /// has been typed yet.
    pub open spec fn percent_correct(self) -> int {
        if self.cursor <= 0 {
            0
        } else {
            (200 * self.correct_count(self.cursor) + self.cursor) / (2 * self.cursor)
        }
    }
}

/// The target phrase together with the player's progress through it.
pub struct GameString {
    pub game_string: Vec<GameChar>,
    pub curr_index: usize,
}

impl View for GameString {
    type V = TextModel;

    open spec fn view(&self) -> TextModel {
        TextModel { slots: self.game_string@, cursor: self.curr_index as int }
    }
}

impl GameString {
    /// Builds one slot per character of `s`, nothing given, cursor at 0.
    pub fn from(s: String) -> (t: GameString)
        ensures
            t@ == TextModel::of_phrase(s@),
            t@.wf(),
    {
        let n = s.as_str().unicode_len();
        let mut res: Vec<GameChar> = Vec::new();
        let mut i: usize = 0;
        while i < n
            invariant
                n == s@.len(),
                i <= n,
                res@.len() == i,
                forall|j: int| 0 <= j < i ==> #[trigger] res@[j] == blank_slot(s@[j]),
            decreases n - i,
        {
            let c = s.as_str().get_char(i);
            res.push(GameChar { expected_char: c, given_char: None });
            i = i + 1;
        }
        let t = GameString { game_string: res, curr_index: 0 };
        proof {
            assert(t@.slots =~= TextModel::of_phrase(s@).slots);
        }
        t
    }

    /// The length of the target phrase in characters.
    pub fn len(&self) -> (n: usize)
        ensures
            n == self@.len(),
    {
        self.game_string.len()
    }

    /// The cursor has reached the end of the phrase.
    pub fn is_completed(&self) -> (b: bool)
        ensures
            b == self@.completed(),
    {
        self.curr_index == self.game_string.len()
    }

    /// The character the player gave at `index`, if the cursor has passed it.
    pub fn get_usr_given_char(&self, index: usize) -> (c: Option<char>)
        requires
            index < self@.len(),
        ensures
            c == self@.slots[index as int].given_char,
    {
        self.game_string[index].given_char
    }

    /// The character the phrase expects at `index`.
    pub fn get_expected_char(&self, index: usize) -> (c: char)
        requires
            index < self@.len(),
        ensures
            c == self@.slots[index as int].expected_char,
    {
        self.game_string[index].expected_char
    }

    /// The stride word count of the typed prefix: one word for every fifth
    /// committed character.
    pub fn words_completed(&self) -> (words: i32)
        requires
            self@.wf(),
            self@.len() <= i32::MAX,
        ensures
            words == TextModel::stride_words(self@.cursor),
    {
        let mut words: i32 = 0;
        let mut i: usize = 0;
        while i < self.curr_index
            invariant
                self@.wf(),
                self@.len() <= i32::MAX,
                i <= self.curr_index,
                words == TextModel::stride_words(i as int),
            decreases self.curr_index - i,
        {
            proof {
                lemma_stride_words_le(i as int);
            }
            if i % 5 == 0 {
                words = words + 1;
            }
            i = i + 1;
        }
        words
    }

    /// The rounded percentage of correctly typed characters below the
    /// cursor; 0 when nothing has been typed yet.
    pub fn percentage_correct(&self) -> (p: u32)
        requires
            self@.wf(),
        ensures
            p == self@.percent_correct(),
            p <= 100,
    {
        let mut res: usize = 0;
        let mut i: usize = 0;
        while i < self.curr_index
            invariant
                self@.wf(),
                i <= self.curr_index,
                res == self@.correct_count(i as int),
                res <= i,
            decreases self.curr_index - i,
        {
            match self.game_string[i].given_char {
                Some(typed) => {
                    if typed == self.game_string[i].expected_char {
                        res = res + 1;
                    }
                },
                None => {},
            }
            i = i + 1;
        }
        if self.curr_index == 0 {
            0
        } else {
            proof {
                self@.lemma_percent_correct_bounds();
            }
            let num: u128 = 200u128 * (res as u128) + (self.curr_index as u128);
            let den: u128 = 2u128 * (self.curr_index as u128);
            (num / den) as u32
        }
    }

    /// Correctness of the slot at `index`; out-of-range indices read as
    /// `Empty` so a renderer may probe past the phrase safely.
    pub fn status_at_index(&self, index: usize) -> (st: CharStatus)
        ensures
            st == self@.status_at(index as int),
    {
        if index >= self.game_string.len() {
            CharStatus::Empty
        } else {
            match self.game_string[index].given_char {
                Some(given) => {
                    if given == self.game_string[index].expected_char {
                        CharStatus::Correct
                    } else {
                        CharStatus::Incorrect
                    }
                },
                None => CharStatus::Empty,
            }
        }
    }

    /// Commits `new_char` at the cursor and steps forward; silently ignored
    /// when the phrase is already fully typed.
    pub fn update_next_char(&mut self, new_char: char)
        requires
            old(self)@.wf(),
        ensures
            final(self)@ == old(self)@.advance(new_char),
            final(self)@.wf(),
    {
        if self.curr_index < self.game_string.len() {
            let e = self.game_string[self.curr_index].expected_char;
            self.game_string[self.curr_index] = GameChar {
                expected_char: e,
                given_char: Some(new_char),
            };
            self.curr_index = self.curr_index + 1;
        }
        proof {
            lemma_advance_preserves_wf(old(self)@, new_char);
        }
    }

    /// Steps the cursor back and clears the slot just left; a no-op when
    /// nothing has been typed.
    pub fn pop_char(&mut self)
        requires
            old(self)@.wf(),
        ensures
            final(self)@ == old(self)@.retreat(),
            final(self)@.wf(),
    {
        if self.curr_index > 0 {
            self.curr_index = self.curr_index - 1;
            let e = self.game_string[self.curr_index].expected_char;
            self.game_string[self.curr_index] = GameChar { expected_char: e, given_char: None };
        }
        proof {
            lemma_retreat_preserves_wf(old(self)@);
        }
    }
}

/// A fresh text is well-formed, its cursor is at the start, and it is
/// completed exactly when the phrase is empty.
pub proof fn lemma_of_phrase(s: Seq<char>)
    ensures
        TextModel::of_phrase(s).wf(),
        TextModel::of_phrase(s).cursor == 0,
        TextModel::of_phrase(s).completed() <==> s.len() == 0,
{
}

/// Committing a character keeps the text well-formed and never moves the
/// cursor out of `[0, len]`.
pub proof fn lemma_advance_preserves_wf(t: TextModel, c: char)
    requires
        t.wf(),
    ensures
        t.advance(c).wf(),
        t.advance(c).len() == t.len(),
{
}

/// Backspace keeps the text well-formed and never moves the cursor out of
/// `[0, len]`.
pub proof fn lemma_retreat_preserves_wf(t: TextModel)
    requires
        t.wf(),
    ensures
        t.retreat().wf(),
        t.retreat().len() == t.len(),
{
}

/// Backspace is a left inverse of committing a character: committing and
/// then stepping back leaves the text exactly as it was.
pub proof fn lemma_retreat_after_advance(t: TextModel, c: char)
    requires
        t.wf(),
        t.cursor < t.len(),
    ensures
        t.advance(c).retreat() == t,
{
    let t2 = t.advance(c).retreat();
    assert(t.slots[t.cursor].given_char is None);
    assert(t2.slots =~= t.slots);
}

/// The stride word count never exceeds the number of positions counted.
pub proof fn lemma_stride_words_le(n: int)
    requires
        n >= 0,
    ensures
        0 <= TextModel::stride_words(n) <= n,
    decreases n,
{
    if n > 0 {
        lemma_stride_words_le(n - 1);
    }
}

/// At most `n` of the first `n` slots can be correct.
pub proof fn lemma_correct_count_le(t: TextModel, n: int)
    requires
        n >= 0,
    ensures
        0 <= t.correct_count(n) <= n,
    decreases n,
{
    if n > 0 {
        lemma_correct_count_le(t, n - 1);
    }
}

/// The count of correct slots among the first `n` reads only those slots.
pub proof fn lemma_correct_count_agrees(t1: TextModel, t2: TextModel, n: int)
    requires
        forall|i: int| 0 <= i < n ==> t1.slots[i] == t2.slots[i],
    ensures
        t1.correct_count(n) == t2.correct_count(n),
    decreases n,
{
    if n > 0 {
        lemma_correct_count_agrees(t1, t2, n - 1);
    }
}

/// For nonnegative fractions, `a / b <= c / d` follows from `a * d <= c * b`.
proof fn lemma_div_cross_monotone(a: int, b: int, c: int, d: int)
    requires
        0 <= a,
        0 < b,
        0 <= c,
        0 < d,
        a * d <= c * b,
    ensures
        a / b <= c / d,
{
    let q = a / b;
    lemma_fundamental_div_mod(a, b);
    lemma_div_pos_is_pos(a, b);
    assert(q * b <= a);
    assert(q * d <= c) by (nonlinear_arith)
        requires
            q * b <= a,
            a * d <= c * b,
            0 <= q,
            0 < b,
            0 < d,
    ;
    lemma_div_is_ordered(q * d, c, d);
    lemma_fundamental_div_mod_converse(q * d, d, q, 0);
}

impl TextModel {
    /// The accuracy percentage always lies in `[0, 100]`, and is exactly 0
    /// while nothing has been typed.
    pub proof fn lemma_percent_correct_bounds(self)
        ensures
            0 <= self.percent_correct() <= 100,
            self.cursor <= 0 ==> self.percent_correct() == 0,
    {
        if self.cursor > 0 {
            let n = self.cursor;
            let c = self.correct_count(n);
            lemma_correct_count_le(self, n);
            lemma_div_pos_is_pos(200 * c + n, 2 * n);
            lemma_div_is_ordered(200 * c + n, 201 * n, 2 * n);
            lemma_fundamental_div_mod_converse(201 * n, 2 * n, 100, n);
        }
    }

    /// Committing the expected character never lowers the accuracy
    /// percentage.
    pub proof fn lemma_advance_correct_accuracy(self, c: char)
        requires
            self.wf(),
            self.cursor < self.len(),
            c == self.slots[self.cursor].expected_char,
        ensures
            self.advance(c).percent_correct() >= self.percent_correct(),
    {
        let n = self.cursor;
        let t2 = self.advance(c);
        lemma_correct_count_agrees(self, t2, n);
        lemma_correct_count_le(self, n);
        let k = self.correct_count(n);
        assert(t2.correct_count(n + 1) == k + 1);
        if n > 0 {
            assert((200 * k + n) * (2 * (n + 1)) <= (200 * (k + 1) + (n + 1)) * (2 * n))
                by (nonlinear_arith)
                requires
                    0 <= k <= n,
            ;
            lemma_div_cross_monotone(200 * k + n, 2 * n, 200 * (k + 1) + (n + 1), 2 * (n + 1));
        } else {
            t2.lemma_percent_correct_bounds();
        }
    }

    /// Committing a wrong character never raises the accuracy percentage.
    pub proof fn lemma_advance_incorrect_accuracy(self, c: char)
        requires
            self.wf(),
            self.cursor < self.len(),
            c != self.slots[self.cursor].expected_char,
        ensures
            self.advance(c).percent_correct() <= self.percent_correct(),
    {
        let n = self.cursor;
        let t2 = self.advance(c);
        lemma_correct_count_agrees(self, t2, n);
        lemma_correct_count_le(self, n);
        let k = self.correct_count(n);
        assert(t2.correct_count(n + 1) == k);
        if n > 0 {
            assert((200 * k + (n + 1)) * (2 * n) <= (200 * k + n) * (2 * (n + 1)))
                by (nonlinear_arith)
                requires
                    0 <= k,
                    0 < n,
            ;
            lemma_div_cross_monotone(200 * k + (n + 1), 2 * (n + 1), 200 * k + n, 2 * n);
        } else {
            assert(t2.percent_correct() == (n + 1) / (2 * (n + 1)));
            lemma_fundamental_div_mod_converse(1, 2, 0, 1);
        }
    }
}

} // verus!
