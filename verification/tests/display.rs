use trivia_game::api::TriviaQuestion;
use trivia_game::game::Game;
use trivia_game::game::GameState;
use trivia_game::input::{dispatch_key, GameAction, KeyInput};
use trivia_game::ui::{get_performance_message, progress_marks, ProgressMark};

fn question(correct: &str, incorrect: &[&str], text: &str) -> TriviaQuestion {
    TriviaQuestion {
        category: "General Knowledge".to_string(),
        question_type: "multiple".to_string(),
        difficulty: "easy".to_string(),
        question: text.to_string(),
        correct_answer: correct.to_string(),
        incorrect_answers: incorrect.iter().map(|s| s.to_string()).collect(),
    }
}

#[test]
fn performance_message_tiers() {
    let top = get_performance_message(9, 10);
    assert_eq!(top, "🏆 Excellent! You're a trivia master!");
    assert_eq!(get_performance_message(10, 10), top);
    assert_eq!(get_performance_message(8, 10), "🌟 Great job! Very impressive!");
    assert_eq!(get_performance_message(7, 10), "👍 Good work! Keep it up!");
    assert_eq!(get_performance_message(6, 10), "😊 Not bad! Room for improvement!");
    assert_eq!(get_performance_message(5, 10), "😅 Better luck next time!");
    assert_eq!(get_performance_message(0, 10), "😅 Better luck next time!");
}

#[test]
fn performance_message_boundaries_are_inclusive() {
    assert_eq!(get_performance_message(18, 20), "🏆 Excellent! You're a trivia master!");
    assert_eq!(get_performance_message(17, 20), "🌟 Great job! Very impressive!");
    assert_eq!(get_performance_message(0, 0), "😅 Better luck next time!");
}

#[test]
fn progress_marks_mid_round() {
    let batch = vec![
        question("a", &["b"], "first"),
        question("a", &["b"], "second"),
        question("a", &["b"], "third"),
        question("a", &["b"], "fourth"),
    ];
    let mut g = Game::new();
    g.start_game(Ok(batch));
    g.answer_question(0);
    g.next_question();
    g.answer_question(1);
    g.next_question();
    let marks = progress_marks(&g);
    assert_eq!(
        marks,
        vec![
            ProgressMark::Correct,
            ProgressMark::Incorrect,
            ProgressMark::Current,
            ProgressMark::Pending,
        ]
    );
}

#[test]
fn progress_marks_after_round() {
    let mut g = Game::new();
    g.start_game(Ok(vec![question("a", &["b"], "only")]));
    g.answer_question(0);
    g.next_question();
    let marks = progress_marks(&g);
    assert_eq!(marks, vec![ProgressMark::Correct]);
}

#[test]
fn progress_marks_pad_unanswered_questions_after_end() {
    let g = Game {
        state: GameState::GameOver,
        questions: vec![
            question("a", &["b"], "first"),
            question("a", &["b"], "second"),
            question("a", &["b"], "third"),
        ],
        current_question_index: 3,
        score: 1,
        total_questions: 10,
        last_answer_correct: true,
        selected_answer: None,
        answer_results: vec![true],
    };
    let marks = progress_marks(&g);
    assert_eq!(marks, vec![ProgressMark::Correct, ProgressMark::Pending, ProgressMark::Pending]);
}

#[test]
fn progress_marks_empty_menu() {
    let g = Game::new();
    assert_eq!(progress_marks(&g), Vec::<ProgressMark>::new());
}

#[test]
fn quit_key_always_quits() {
    for state in [
        GameState::Menu,
        GameState::Loading,
        GameState::Question,
        GameState::ShowResult,
        GameState::GameOver,
    ] {
        assert_eq!(dispatch_key(state, KeyInput::Char('q')), GameAction::Quit);
    }
}

#[test]
fn digit_keys_answer_only_during_questions() {
    assert_eq!(dispatch_key(GameState::Question, KeyInput::Char('1')), GameAction::Answer(0));
    assert_eq!(dispatch_key(GameState::Question, KeyInput::Char('4')), GameAction::Answer(3));
    assert_eq!(dispatch_key(GameState::Question, KeyInput::Char('5')), GameAction::Ignore);
    assert_eq!(dispatch_key(GameState::Question, KeyInput::Char('0')), GameAction::Ignore);
    assert_eq!(dispatch_key(GameState::Menu, KeyInput::Char('2')), GameAction::Ignore);
    assert_eq!(dispatch_key(GameState::ShowResult, KeyInput::Char('3')), GameAction::Ignore);
}

#[test]
fn enter_starts_or_resets_by_phase() {
    assert_eq!(dispatch_key(GameState::Menu, KeyInput::Enter), GameAction::Start);
    assert_eq!(dispatch_key(GameState::GameOver, KeyInput::Enter), GameAction::Reset);
    assert_eq!(dispatch_key(GameState::Question, KeyInput::Enter), GameAction::Ignore);
    assert_eq!(dispatch_key(GameState::Loading, KeyInput::Enter), GameAction::Ignore);
}

#[test]
fn other_keys_are_ignored() {
    assert_eq!(dispatch_key(GameState::Question, KeyInput::Other), GameAction::Ignore);
    assert_eq!(dispatch_key(GameState::Menu, KeyInput::Char('x')), GameAction::Ignore);
}
