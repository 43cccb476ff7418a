use trivia_game::api::TriviaQuestion;

fn question(correct: &str, incorrect: &[&str], text: &str) -> TriviaQuestion {
    TriviaQuestion {
        category: "General Knowledge".to_string(),
        question_type: "multiple".to_string(),
        difficulty: "easy".to_string(),
        question: text.to_string(),
        correct_answer: correct.to_string(),
        incorrect_answers: incorrect.iter().map(|s| s.to_string()).collect(),
    }
}

#[test]
fn all_answers_sorted_and_counted() {
    let q = question("4", &["2", "3", "5"], "What is 2 + 2?");
    let answers = q.get_all_answers();
    assert_eq!(answers, vec!["2", "3", "4", "5"]);
    assert_eq!(answers.len(), q.incorrect_answers.len() + 1);
}

#[test]
fn all_answers_sorted_by_code_points() {
    let q = question("cherry", &["banana", "Apple"], "Pick one");
    let answers = q.get_all_answers();
    assert_eq!(answers, vec!["Apple", "banana", "cherry"]);
}

#[test]
fn all_answers_keeps_duplicates() {
    let q = question("2", &["2", "3"], "How many?");
    let answers = q.get_all_answers();
    assert_eq!(answers, vec!["2", "2", "3"]);
}

#[test]
fn correct_index_points_at_correct_answer() {
    let q = question("4", &["2", "3", "5"], "What is 2 + 2?");
    let answers = q.get_all_answers();
    let idx = q.get_correct_index();
    assert_eq!(idx, 2);
    assert_eq!(answers[idx], "4");
}

#[test]
fn correct_index_prefers_first_occurrence() {
    let q = question("2", &["2", "3"], "How many?");
    assert_eq!(q.get_correct_index(), 0);
}

#[test]
fn correct_index_with_single_incorrect() {
    let q = question("yes", &["no"], "Really?");
    let answers = q.get_all_answers();
    assert_eq!(answers, vec!["no", "yes"]);
    assert_eq!(q.get_correct_index(), 1);
}
