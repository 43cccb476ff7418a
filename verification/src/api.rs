//! The question feed's data model: trivia questions, the response
//! envelope, and the deterministic ordering of a question's answers.

use vstd::prelude::*;
use vstd::relations::sorted_by;
use vstd::seq_lib::*;
use crate::text::{lex_le, lex_leq, lemma_lex_le_total, lemma_lex_le_total_ordering,
    lemma_lex_le_transitive, str_le};

verus! {

/// One multiple-choice trivia question, immutable once fetched.
#[derive(Debug, Clone)]
pub struct TriviaQuestion {
    pub category: String,
    pub question_type: String,
    pub difficulty: String,
    pub question: String,
    pub correct_answer: String,
    pub incorrect_answers: Vec<String>,
}

/// The feed's envelope: a numeric response code and the question batch.
#[derive(Debug)]
pub struct TriviaResponse {
    pub response_code: u32,
    pub results: Vec<TriviaQuestion>,
}

/// Why a batch of questions could not be fetched.
#[derive(Debug, Clone, Copy, PartialEq, Eq, Structural)]
pub enum FetchError {
    /// The transport failed or the payload did not decode.
    Transport,
    /// The feed answered with a nonzero response code.
    Api { code: u32 },
}

/// The texts of all answers in feed order: the incorrect ones, then the
/// correct one.
pub open spec fn answer_views(q: TriviaQuestion) -> Seq<Seq<char>> {
    q.incorrect_answers.deep_view().push(q.correct_answer@)
}

/// The displayed answer list: every answer's text, sorted
/// lexicographically by code point.
pub open spec fn all_answers_spec(q: TriviaQuestion) -> Seq<Seq<char>> {
    answer_views(q).sort_by(lex_leq())
}

/// The position of the correct answer within the sorted answer list: its
/// first occurrence, or zero if its text is absent.
pub open spec fn correct_index_spec(q: TriviaQuestion) -> int {
    match all_answers_spec(q).index_of_first(q.correct_answer@) {
        Some(i) => i,
        None => 0,
    }
}

/// Inserts `x` into a lexicographically sorted vector, keeping it sorted.
fn insert_sorted(out: &mut Vec<String>, x: String)
    requires
        sorted_by(old(out).deep_view(), lex_leq()),
    ensures
        sorted_by(final(out).deep_view(), lex_leq()),
        final(out).deep_view().to_multiset() == old(out).deep_view().to_multiset().insert(x@),
        final(out).len() == old(out).len() + 1,
{
    broadcast use to_multiset_insert;

    let ghost dv = out.deep_view();
    let mut p: usize = 0;
    while p < out.len() && !str_le(x.as_str(), out[p].as_str())
        invariant
            p <= out.len(),
            *out == *old(out),
            dv == out.deep_view(),
            forall|k: int| 0 <= k < p ==> #[trigger] lex_le(dv[k], x@),
        decreases out.len() - p,
    {
        proof {
            assert(dv[p as int] == out@[p as int]@);
            lemma_lex_le_total(x@, dv[p as int]);
        }
        p = p + 1;
    }
    let ghost pos = p as int;
    proof {
        assert(pos == dv.len() || lex_le(x@, dv[pos]));
    }
    out.insert(p, x);
    proof {
        let dv2 = out.deep_view();
        assert forall|m: int| 0 <= m < dv2.len() implies dv2[m] == dv.insert(pos, x@)[m] by {
            dv.insert_ensures(pos, x@);
            assert(dv2[m] == out@[m]@);
            if m < pos {
                assert(out@[m] == old(out)@[m]);
            } else if m == pos {
            } else {
                assert(out@[m] == old(out)@[m - 1]);
            }
        }
        assert(dv2 =~= dv.insert(pos, x@));
        dv.insert_ensures(pos, x@);
        assert forall|i: int, j: int| 0 <= i < j < dv2.len() implies #[trigger] lex_leq()(
            dv2[i],
            dv2[j],
        ) by {
            if j < pos {
                assert(lex_leq()(dv[i], dv[j]));
            } else if j == pos {
                assert(lex_le(dv[i], x@));
            } else if i < pos {
                assert(lex_leq()(dv[i], dv[j - 1]));
            } else if i == pos {
                if j - 1 == pos {
                    assert(lex_le(x@, dv[pos]));
                } else {
                    assert(lex_leq()(dv[pos], dv[j - 1]));
                    lemma_lex_le_transitive(x@, dv[pos], dv[j - 1]);
                }
            } else {
                assert(lex_leq()(dv[i - 1], dv[j - 1]));
            }
        }
    }
}

impl TriviaQuestion {
    /// All of this question's answers — incorrect and correct — in a
    /// stable lexicographic order.
    pub fn get_all_answers(&self) -> (r: Vec<String>)
        ensures
            r.deep_view() == all_answers_spec(*self),
            r.len() == self.incorrect_answers.len() + 1,
            sorted_by(r.deep_view(), lex_leq()),
    {
        let ghost inc = self.incorrect_answers.deep_view();
        let mut out: Vec<String> = Vec::new();
        proof {
            assert(out.deep_view() =~= Seq::<Seq<char>>::empty());
            assert(inc.take(0) =~= Seq::<Seq<char>>::empty());
            assert(out.deep_view().to_multiset() =~= inc.take(0).to_multiset());
        }
        let mut i: usize = 0;
        while i < self.incorrect_answers.len()
            invariant
                i <= self.incorrect_answers.len(),
                inc == self.incorrect_answers.deep_view(),
                inc.len() == self.incorrect_answers.len(),
                out.len() == i,
                sorted_by(out.deep_view(), lex_leq()),
                out.deep_view().to_multiset() == inc.take(i as int).to_multiset(),
            decreases self.incorrect_answers.len() - i,
        {
            let s = self.incorrect_answers[i].clone();
            proof {
                assert(s@ == inc[i as int]);
            }
            insert_sorted(&mut out, s);
            proof {
                assert(inc.take(i + 1) =~= inc.take(i as int).push(inc[i as int]));
                to_multiset_build(inc.take(i as int), inc[i as int]);
            }
            i = i + 1;
        }
        proof {
            assert(inc.take(inc.len() as int) =~= inc);
        }
        insert_sorted(&mut out, self.correct_answer.clone());
        proof {
            to_multiset_build(inc, self.correct_answer@);
            assert(answer_views(*self).to_multiset() == inc.to_multiset().insert(
                self.correct_answer@,
            ));
            assert(out.deep_view().to_multiset() == answer_views(*self).to_multiset());
            lemma_lex_le_total_ordering();
            answer_views(*self).lemma_sort_by_ensures(lex_leq());
            lemma_sorted_unique(out.deep_view(), all_answers_spec(*self), lex_leq());
            assert(out.deep_view() == all_answers_spec(*self));
        }
        out
    }

    /// The position of the correct answer within `get_all_answers`: the
    /// first position holding its text.
    pub fn get_correct_index(&self) -> (r: usize)
        ensures
            r as int == correct_index_spec(*self),
    {
        let all = self.get_all_answers();
        let ghost dv = all.deep_view();
        let mut i: usize = 0;
        while i < all.len()
            invariant
                i <= all.len(),
                dv == all.deep_view(),
                dv == all_answers_spec(*self),
                dv.len() == all.len(),
                forall|k: int| 0 <= k < i ==> dv[k] != self.correct_answer@,
            decreases all.len() - i,
        {
            if all[i].eq(&self.correct_answer) {
                proof {
                    assert(dv[i as int] == all@[i as int]@);
                    all_answers_spec(*self).index_of_first_ensures(self.correct_answer@);
                    assert(dv.contains(self.correct_answer@));
                }
                return i;
            }
            proof {
                assert(dv[i as int] == all@[i as int]@);
            }
            i = i + 1;
        }
        proof {
            lemma_correct_answer_contained(*self);
            assert(false);
        }
        0
    }
}

/// The sorted answer list always contains the correct answer's text.
pub proof fn lemma_correct_answer_contained(q: TriviaQuestion)
    ensures
        all_answers_spec(q).contains(q.correct_answer@),
{
    broadcast use group_to_multiset_ensures;

    lemma_lex_le_total_ordering();
    answer_views(q).lemma_sort_by_ensures(lex_leq());
    let av = answer_views(q);
    assert(av[av.len() - 1] == q.correct_answer@);
    assert(av.contains(q.correct_answer@));
    assert(av.to_multiset() == all_answers_spec(q).to_multiset());
    assert(all_answers_spec(q).to_multiset().count(q.correct_answer@) > 0);
}

/// The correct-answer index is always a valid position in the sorted
/// answer list, the text there is the correct answer's, and no earlier
/// position holds that text.
pub proof fn lemma_correct_index_valid(q: TriviaQuestion)
    ensures
        0 <= correct_index_spec(q) < all_answers_spec(q).len(),
        all_answers_spec(q)[correct_index_spec(q)] == q.correct_answer@,
        forall|j: int|
            0 <= j < correct_index_spec(q) ==> all_answers_spec(q)[j] != q.correct_answer@,
{
    lemma_correct_answer_contained(q);
    all_answers_spec(q).index_of_first_ensures(q.correct_answer@);
}

/// The single built-in question substituted when fetching fails.
pub open spec fn is_fallback_question(q: TriviaQuestion) -> bool {
    &&& q.category@ == "General Knowledge"@
    &&& q.question_type@ == "multiple"@
    &&& q.difficulty@ == "easy"@
    &&& q.question@ == "What is 2 + 2?"@
    &&& q.correct_answer@ == "4"@
    &&& q.incorrect_answers.deep_view() == seq!["2"@, "3"@, "5"@]
}

/// Builds the built-in fallback question.
pub fn fallback_question() -> (q: TriviaQuestion)
    ensures
        is_fallback_question(q),
{
    let mut incorrect: Vec<String> = Vec::new();
    incorrect.push(String::from_str("2"));
    incorrect.push(String::from_str("3"));
    incorrect.push(String::from_str("5"));
    let q = TriviaQuestion {
        category: String::from_str("General Knowledge"),
        question_type: String::from_str("multiple"),
        difficulty: String::from_str("easy"),
        question: String::from_str("What is 2 + 2?"),
        correct_answer: String::from_str("4"),
        incorrect_answers: incorrect,
    };
    proof {
        assert(q.incorrect_answers.deep_view() =~= seq!["2"@, "3"@, "5"@]);
    }
    q
}

/// Interprets the feed's envelope: code zero yields the batch, any other
/// code is an application-level failure carrying that code.
pub fn questions_from_response(resp: TriviaResponse) -> (r: Result<
    Vec<TriviaQuestion>,
    FetchError,
>)
    ensures
        resp.response_code == 0 ==> r == Ok::<Vec<TriviaQuestion>, FetchError>(resp.results),
        resp.response_code != 0 ==> r == Err::<Vec<TriviaQuestion>, FetchError>(
            FetchError::Api { code: resp.response_code },
        ),
{
    if resp.response_code == 0 {
        Ok(resp.results)
    } else {
        Err(FetchError::Api { code: resp.response_code })
    }
}

} // verus!
