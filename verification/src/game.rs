//! The game state machine: phases, transitions, progress bookkeeping, and
//! the pure helpers behind the display and the key dispatcher.

use vstd::prelude::*;
use crate::api::{correct_index_spec, fallback_question, is_fallback_question, FetchError,
    TriviaQuestion};

verus! {

/// The phase of the game state machine.
#[derive(Debug, Clone, Copy, PartialEq, Eq, Structural)]
pub enum GameState {
    Menu,
    Loading,
    Question,
    ShowResult,
    GameOver,
}

/// The state of one game session.
#[derive(Debug)]
pub struct Game {
    pub state: GameState,
    pub questions: Vec<TriviaQuestion>,
    pub current_question_index: usize,
    pub score: u32,
    pub total_questions: u32,
    pub last_answer_correct: bool,
    pub selected_answer: Option<usize>,
    pub answer_results: Vec<bool>,
}

/// How many entries of `s` are true.
pub open spec fn count_trues(s: Seq<bool>) -> int
    decreases s.len(),
{
    if s.len() == 0 {
        0
    } else {
        count_trues(s.drop_last()) + if s.last() {
            1int
        } else {
            0int
        }
    }
}

pub proof fn lemma_count_trues_push(s: Seq<bool>, b: bool)
    ensures
        count_trues(s.push(b)) == count_trues(s) + if b {
            1int
        } else {
            0int
        },
{
    assert(s.push(b).drop_last() =~= s);
    assert(s.push(b).last() == b);
}

impl Game {
    /// Well-formedness: the phase, progress counters and outcome record
    /// agree, and the score counts the correct outcomes.
    pub open spec fn inv(&self) -> bool {
        &&& self.current_question_index <= self.questions.len()
        &&& self.score as int == count_trues(self.answer_results@)
        &&& (self.state == GameState::Menu ==> self.current_question_index == 0 && self.score == 0
            && self.questions.len() == 0 && self.answer_results@.len() == 0)
        &&& (self.state == GameState::Question ==> self.answer_results.len()
            == self.current_question_index)
        &&& (self.state == GameState::ShowResult ==> self.current_question_index
            < self.questions.len() && self.answer_results.len() == self.current_question_index + 1)
        &&& (self.state == GameState::GameOver ==> self.current_question_index
            == self.questions.len())
    }

    /// A fresh game: in the menu, with an empty batch and cleared counters.
    pub fn new() -> (g: Game)
        ensures
            g.inv(),
            g.state == GameState::Menu,
            g.questions.len() == 0,
            g.current_question_index == 0,
            g.score == 0,
            g.total_questions == 10,
            g.last_answer_correct == false,
            g.selected_answer is None,
            g.answer_results@ == Seq::<bool>::empty(),
    {
        Game {
            state: GameState::Menu,
            questions: Vec::new(),
            current_question_index: 0,
            score: 0,
            total_questions: 10,
            last_answer_correct: false,
            selected_answer: None,
            answer_results: Vec::new(),
        }
    }

    /// Marks the game as loading while a batch is fetched.
    pub fn begin_loading(&mut self)
        ensures
            *final(self) == (Game { state: GameState::Loading, ..*old(self) }),
    {
        self.state = GameState::Loading;
    }

    /// Starts a round: clears score, index and outcomes, then adopts the
    /// fetched batch — or the built-in fallback question when the fetch
    /// failed, so the round always proceeds.
    pub fn start_game(&mut self, fetched: Result<Vec<TriviaQuestion>, FetchError>)
        ensures
            final(self).inv(),
            final(self).state == GameState::Question,
            final(self).score == 0,
            final(self).current_question_index == 0,
            final(self).answer_results@ == Seq::<bool>::empty(),
            final(self).selected_answer == old(self).selected_answer,
            final(self).last_answer_correct == old(self).last_answer_correct,
            final(self).total_questions == old(self).total_questions,
            match fetched {
                Ok(qs) => final(self).questions == qs,
                Err(_) => final(self).questions.len() == 1 && is_fallback_question(
                    final(self).questions@[0],
                ),
            },
    {
        self.state = GameState::Loading;
        self.score = 0;
        self.current_question_index = 0;
        self.answer_results.clear();
        match fetched {
            Ok(questions) => {
                self.questions = questions;
                self.state = GameState::Question;
            },
            Err(_) => {
                let mut batch: Vec<TriviaQuestion> = Vec::new();
                batch.push(fallback_question());
                self.questions = batch;
                self.state = GameState::Question;
            },
        }
    }

    /// Records an answer to the current question: remembers the selection,
    /// appends the outcome, bumps the score when correct, and shows the
    /// result. A no-op when no current question exists.
    pub fn answer_question(&mut self, answer_index: usize)
        requires
            old(self).inv(),
            old(self).state == GameState::Question,
            old(self).score < u32::MAX,
        ensures
            final(self).inv(),
            final(self).score as int == count_trues(final(self).answer_results@),
            old(self).current_question_index < old(self).questions.len() ==> {
                let q = old(self).questions@[old(self).current_question_index as int];
                &&& final(self).state == GameState::ShowResult
                &&& final(self).last_answer_correct == (answer_index as int == correct_index_spec(
                    q,
                ))
                &&& final(self).selected_answer == Some(answer_index)
                &&& final(self).answer_results@ == old(self).answer_results@.push(
                    final(self).last_answer_correct,
                )
                &&& final(self).score == old(self).score + if final(self).last_answer_correct {
                    1int
                } else {
                    0int
                }
                &&& final(self).questions == old(self).questions
                &&& final(self).current_question_index == old(self).current_question_index
                &&& final(self).total_questions == old(self).total_questions
            },
            old(self).current_question_index >= old(self).questions.len() ==> *final(self) == *old(
                self,
            ),
    {
        if self.current_question_index < self.questions.len() {
            let correct_index = self.questions[self.current_question_index].get_correct_index();
            self.last_answer_correct = answer_index == correct_index;
            self.selected_answer = Some(answer_index);
            if self.last_answer_correct {
                self.score = self.score + 1;
            }
            self.answer_results.push(self.last_answer_correct);
            self.state = GameState::ShowResult;
            proof {
                lemma_count_trues_push(old(self).answer_results@, self.last_answer_correct);
            }
        }
    }

    /// Advances past the shown result: one question further, or the end of
    /// the round when the last question was just answered.
    pub fn next_question(&mut self)
        requires
            old(self).inv(),
            old(self).state == GameState::ShowResult,
        ensures
            final(self).inv(),
            final(self).current_question_index == old(self).current_question_index + 1,
            final(self).selected_answer is None,
            final(self).state == (if old(self).current_question_index + 1 >= old(
                self,
            ).questions.len() {
                GameState::GameOver
            } else {
                GameState::Question
            }),
            final(self).questions == old(self).questions,
            final(self).score == old(self).score,
            final(self).answer_results == old(self).answer_results,
            final(self).total_questions == old(self).total_questions,
            final(self).last_answer_correct == old(self).last_answer_correct,
    {
        self.current_question_index = self.current_question_index + 1;
        self.selected_answer = None;
        if self.current_question_index >= self.questions.len() {
            self.state = GameState::GameOver;
        } else {
            self.state = GameState::Question;
        }
    }

    /// Returns to the menu from any phase, clearing the whole round.
    pub fn reset_game(&mut self)
        ensures
            final(self).inv(),
            final(self).state == GameState::Menu,
            final(self).questions.len() == 0,
            final(self).current_question_index == 0,
            final(self).score == 0,
            final(self).selected_answer is None,
            final(self).answer_results@ == Seq::<bool>::empty(),
            final(self).total_questions == old(self).total_questions,
            final(self).last_answer_correct == old(self).last_answer_correct,
    {
        self.state = GameState::Menu;
        self.questions.clear();
        self.current_question_index = 0;
        self.score = 0;
        self.selected_answer = None;
        self.answer_results.clear();
    }

    /// The question now being asked, if the round still has one.
    pub fn current_question(&self) -> (r: Option<&TriviaQuestion>)
        ensures
            match r {
                Some(q) => self.current_question_index < self.questions.len() && *q
                    == self.questions@[self.current_question_index as int],
                None => self.current_question_index >= self.questions.len(),
            },
    {
        if self.current_question_index < self.questions.len() {
            Some(&self.questions[self.current_question_index])
        } else {
            None
        }
    }

    /// The 1-based number of the current question and the batch size.
    pub fn progress(&self) -> (r: (usize, usize))
        requires
            self.current_question_index < usize::MAX,
        ensures
            r.0 == self.current_question_index + 1,
            r.1 == self.questions.len(),
    {
        (self.current_question_index + 1, self.questions.len())
    }
}

} // verus!
