//! Pure display helpers: the per-question progress strip and the tiered
//! game-over performance message.

use vstd::prelude::*;
use crate::game::Game;

verus! {

/// One cell of the progress strip.
#[derive(Debug, Clone, Copy, PartialEq, Eq, Structural)]
pub enum ProgressMark {
    /// An answered question whose answer was correct.
    Correct,
    /// An answered question whose answer was wrong.
    Incorrect,
    /// The question now being asked.
    Current,
    /// A question not yet reached.
    Pending,
}

/// The progress strip: one mark per answered question, then — while the
/// round is in progress — the current question and a placeholder for each
/// remaining one; after the round, placeholders for any questions beyond
/// those answered.
pub open spec fn progress_marks_spec(g: Game) -> Seq<ProgressMark> {
    let answered = g.answer_results@.map_values(
        |b: bool|
            if b {
                ProgressMark::Correct
            } else {
                ProgressMark::Incorrect
            },
    );
    if g.current_question_index < g.questions.len() {
        answered + seq![ProgressMark::Current] + Seq::new(
            (g.questions.len() - g.current_question_index - 1) as nat,
            |i: int| ProgressMark::Pending,
        )
    } else if g.answer_results.len() < g.questions.len() {
        answered + Seq::new(
            (g.questions.len() - g.answer_results.len()) as nat,
            |i: int| ProgressMark::Pending,
        )
    } else {
        answered
    }
}

/// Builds the progress strip for the given game.
pub fn progress_marks(g: &Game) -> (r: Vec<ProgressMark>)
    ensures
        r@ == progress_marks_spec(*g),
{
    let ghost outcomes = g.answer_results@;
    let ghost answered = outcomes.map_values(
        |b: bool|
            if b {
                ProgressMark::Correct
            } else {
                ProgressMark::Incorrect
            },
    );
    let mut r: Vec<ProgressMark> = Vec::new();
    let mut i: usize = 0;
    while i < g.answer_results.len()
        invariant
            i <= outcomes.len(),
            outcomes == g.answer_results@,
            answered == outcomes.map_values(
                |b: bool|
                    if b {
                        ProgressMark::Correct
                    } else {
                        ProgressMark::Incorrect
                    },
            ),
            r@ == answered.take(i as int),
        decreases outcomes.len() - i,
    {
        let mark = if g.answer_results[i] {
            ProgressMark::Correct
        } else {
            ProgressMark::Incorrect
        };
        r.push(mark);
        proof {
            assert(answered.take(i as int).push(answered[i as int]) =~= answered.take(i + 1));
        }
        i = i + 1;
    }
    proof {
        assert(answered.take(outcomes.len() as int) =~= answered);
    }
    if g.current_question_index < g.questions.len() {
        r.push(ProgressMark::Current);
        let mut k: usize = g.current_question_index + 1;
        while k < g.questions.len()
            invariant
                g.current_question_index < g.questions.len(),
                g.current_question_index + 1 <= k <= g.questions.len(),
                r@ == answered + seq![ProgressMark::Current] + Seq::new(
                    (k - g.current_question_index - 1) as nat,
                    |i: int| ProgressMark::Pending,
                ),
            decreases g.questions.len() - k,
        {
            r.push(ProgressMark::Pending);
            proof {
                assert(r@ =~= answered + seq![ProgressMark::Current] + Seq::new(
                    (k + 1 - g.current_question_index - 1) as nat,
                    |i: int| ProgressMark::Pending,
                ));
            }
            k = k + 1;
        }
        proof {
            assert(r@ =~= progress_marks_spec(*g));
        }
    } else {
        let mut k: usize = g.answer_results.len();
        while k < g.questions.len()
            invariant
                g.current_question_index >= g.questions.len(),
                outcomes == g.answer_results@,
                answered == outcomes.map_values(
                    |b: bool|
                        if b {
                            ProgressMark::Correct
                        } else {
                            ProgressMark::Incorrect
                        },
                ),
                outcomes.len() <= k <= g.questions.len() || (k == outcomes.len() && k
                    >= g.questions.len()),
                r@ == answered + Seq::new((k - outcomes.len()) as nat, |i: int| ProgressMark::Pending),
            decreases g.questions.len() - k,
        {
            r.push(ProgressMark::Pending);
            proof {
                assert(r@ =~= answered + Seq::new(
                    (k + 1 - outcomes.len()) as nat,
                    |i: int| ProgressMark::Pending,
                ));
            }
            k = k + 1;
        }
        proof {
            assert(r@ =~= progress_marks_spec(*g));
        }
    }
    r
}

/// The game-over banner text for a score out of a total, keyed by the
/// score percentage: at least 90% earns the top tier, then 80%, 70% and
/// 60%; anything lower — or an empty round — the lowest.
pub open spec fn performance_message_spec(score: u32, total: u32) -> Seq<char> {
    if total != 0 && 10 * (score as int) >= 9 * (total as int) {
        "🏆 Excellent! You're a trivia master!"@
    } else if total != 0 && 10 * (score as int) >= 8 * (total as int) {
        "🌟 Great job! Very impressive!"@
    } else if total != 0 && 10 * (score as int) >= 7 * (total as int) {
        "👍 Good work! Keep it up!"@
    } else if total != 0 && 10 * (score as int) >= 6 * (total as int) {
        "😊 Not bad! Room for improvement!"@
    } else {
        "😅 Better luck next time!"@
    }
}

/// Picks the tiered performance message for a final score.
pub fn get_performance_message(score: u32, total: u32) -> (r: &'static str)
    ensures
        r@ == performance_message_spec(score, total),
{
    if total != 0 && 10 * (score as u64) >= 9 * (total as u64) {
        "🏆 Excellent! You're a trivia master!"
    } else if total != 0 && 10 * (score as u64) >= 8 * (total as u64) {
        "🌟 Great job! Very impressive!"
    } else if total != 0 && 10 * (score as u64) >= 7 * (total as u64) {
        "👍 Good work! Keep it up!"
    } else if total != 0 && 10 * (score as u64) >= 6 * (total as u64) {
        "😊 Not bad! Room for improvement!"
    } else {
        "😅 Better luck next time!"
    }
}

} // verus!
