//! Tests of the quiz application: profiles and the name index, quiz creation
//! and its validation, submissions and scoring, leaderboards, and routing.

use quiz::quiz_abi::AnswerOption;
use quiz::quiz_abi::CreateQuizParams;
use quiz::quiz_abi::Message;
use quiz::quiz_abi::Operation;
use quiz::quiz_abi::QuestionParams;
use quiz::quiz_abi::QuizError;
use quiz::quiz_abi::SetNicknameParams;
use quiz::quiz_abi::SubmitAnswersParams;
use quiz::quiz_routing::route;
use quiz::quiz_routing::RouteAction;
use quiz::quiz_state::AttemptKey;
use quiz::quiz_state::QuizState;
use quiz::ChainId;

fn named_ledger(wallet: &str, nickname: &str) -> QuizState {
    let mut state = QuizState::new();
    state.instantiate();
    let r = state.set_nickname(
        Some(wallet.to_string()),
        &SetNicknameParams { nickname: nickname.to_string() },
        10,
    );
    assert_eq!(r, Ok(()));
    state
}

fn sample_params(mode: &str, start_mode: &str) -> CreateQuizParams {
    CreateQuizParams {
        title: "capitals".to_string(),
        description: "one question".to_string(),
        questions: vec![QuestionParams {
            text: "pick both".to_string(),
            options: vec!["a".to_string(), "b".to_string(), "c".to_string()],
            correct_options: vec![0, 2],
            points: 5,
            question_type: "".to_string(),
            id: "".to_string(),
        }],
        time_limit: 60,
        start_time: "1700000000000".to_string(),
        end_time: "1800000000000".to_string(),
        nickname: "ada".to_string(),
        mode: mode.to_string(),
        start_mode: start_mode.to_string(),
    }
}

#[test]
fn test_set_nickname_and_uniqueness() {
    let mut state = QuizState::new();
    state.instantiate();
    let ada = Some("wallet-a".to_string());
    let r = state.set_nickname(ada.clone(), &SetNicknameParams { nickname: "ada".to_string() }, 5);
    assert_eq!(r, Ok(()));

    // the name now maps back to the identity
    assert_eq!(
        state.nickname_to_wallet.get(&"ada".to_string()),
        Some(&"wallet-a".to_string())
    );

    // a second identity cannot take the same name
    let r = state.set_nickname(
        Some("wallet-b".to_string()),
        &SetNicknameParams { nickname: "ada".to_string() },
        6,
    );
    assert_eq!(r, Err(QuizError::NicknameAlreadyTaken));

    // re-submitting one's own current name succeeds and changes no mapping
    let r = state.set_nickname(ada.clone(), &SetNicknameParams { nickname: "ada".to_string() }, 6);
    assert_eq!(r, Ok(()));
    assert_eq!(
        state.nickname_to_wallet.get(&"ada".to_string()),
        Some(&"wallet-a".to_string())
    );

    // renaming repoints the index and drops the stale reverse mapping
    let r = state.set_nickname(ada, &SetNicknameParams { nickname: "lovelace".to_string() }, 7);
    assert_eq!(r, Ok(()));
    assert!(state.nickname_to_wallet.get(&"ada".to_string()).is_none());
    assert_eq!(
        state.nickname_to_wallet.get(&"lovelace".to_string()),
        Some(&"wallet-a".to_string())
    );

    // no signer, no profile
    let r = state.set_nickname(None, &SetNicknameParams { nickname: "x".to_string() }, 8);
    assert_eq!(r, Err(QuizError::InsufficientPermissions));
}

#[test]
fn test_create_quiz_sequential_ids() {
    let mut state = named_ledger("wallet-a", "ada");
    assert_eq!(state.next_quiz_id, 1);

    let r = state.create_quiz(Some("wallet-a".to_string()), sample_params("public", "auto"), 100);
    assert_eq!(r, Ok(()));
    assert_eq!(state.next_quiz_id, 2);
    assert_eq!(state.quiz_sets.get(&1).unwrap().id, 1);

    let r = state.create_quiz(Some("wallet-a".to_string()), sample_params("public", "manual"), 200);
    assert_eq!(r, Ok(()));
    assert_eq!(state.next_quiz_id, 3);
    assert_eq!(state.quiz_sets.get(&2).unwrap().id, 2);

    let created = state.user_created_quizzes.get(&"wallet-a".to_string()).unwrap();
    assert_eq!(created, &vec![1u64, 2u64]);

    // question ids and types are derived at creation
    let quiz = state.quiz_sets.get(&1).unwrap();
    assert_eq!(quiz.questions[0].id, "q1-0");
    assert_eq!(quiz.questions[0].question_type, "checkbox");
    assert_eq!(quiz.start_time, 1700000000000000);
    assert_eq!(quiz.end_time, 1800000000000000);
}

#[test]
fn test_create_quiz_validation() {
    let mut state = named_ledger("wallet-a", "ada");

    // unknown identity
    let r = state.create_quiz(Some("wallet-b".to_string()), sample_params("public", "auto"), 100);
    assert_eq!(r, Err(QuizError::UserNotFound));

    // unparsable timestamp
    let mut p = sample_params("public", "auto");
    p.start_time = "not-a-number".to_string();
    let r = state.create_quiz(Some("wallet-a".to_string()), p, 100);
    assert_eq!(r, Err(QuizError::InvalidParameters));

    // implausible magnitude: fewer than ten digits
    let mut p = sample_params("public", "auto");
    p.start_time = "12345".to_string();
    let r = state.create_quiz(Some("wallet-a".to_string()), p, 100);
    assert_eq!(r, Err(QuizError::InvalidParameters));

    // start not in the future
    let p = sample_params("public", "auto");
    let r = state.create_quiz(Some("wallet-a".to_string()), p, 1700000000000001);
    assert_eq!(r, Err(QuizError::InvalidParameters));

    // end not after start
    let mut p = sample_params("public", "auto");
    p.end_time = "1700000000000".to_string();
    let r = state.create_quiz(Some("wallet-a".to_string()), p, 100);
    assert_eq!(r, Err(QuizError::InvalidParameters));

    // window longer than a hundred years
    let mut p = sample_params("public", "auto");
    p.end_time = "9700000000000".to_string();
    let r = state.create_quiz(Some("wallet-a".to_string()), p, 100);
    assert_eq!(r, Err(QuizError::InvalidParameters));

    // unknown mode words
    let r = state.create_quiz(Some("wallet-a".to_string()), sample_params("open", "auto"), 100);
    assert_eq!(r, Err(QuizError::InvalidQuizMode));
    let r = state.create_quiz(Some("wallet-a".to_string()), sample_params("public", "later"), 100);
    assert_eq!(r, Err(QuizError::InvalidStartMode));

    // nothing was stored along the way
    assert_eq!(state.next_quiz_id, 1);
    assert_eq!(state.quiz_sets.len(), 0);
}

fn submission(quiz_id: u64, nickname: &str, selected: Vec<u32>) -> SubmitAnswersParams {
    SubmitAnswersParams {
        quiz_id,
        answers: vec![AnswerOption { question_id: "q1-0".to_string(), selected_answers: selected }],
        time_taken: 111,
        nickname: nickname.to_string(),
    }
}

// A time inside the sample quiz's window, in microseconds.
const DURING_QUIZ: u64 = 1750000000000000;

#[test]
fn test_scoring_order_does_not_matter() {
    // correct options {0, 2}, five points: selecting them in reverse order
    // still scores the full five points.
    let mut state = named_ledger("wallet-a", "ada");
    state
        .create_quiz(Some("wallet-a".to_string()), sample_params("public", "auto"), 100)
        .unwrap();

    let r = state.submit_answers(
        Some("wallet-a".to_string()),
        submission(1, "ada", vec![2, 0]),
        DURING_QUIZ,
    );
    assert_eq!(r, Ok(()));
    let key = AttemptKey { quiz_id: 1, user: "wallet-a".to_string() };
    let attempt = state.user_attempts.get(&key).unwrap();
    assert_eq!(attempt.score, 5);
    assert_eq!(attempt.answers, vec![vec![2, 0]]);
    assert_eq!(attempt.time_taken, 111);
}

#[test]
fn test_scoring_partial_selection_scores_zero() {
    let mut state = named_ledger("wallet-a", "ada");
    state
        .create_quiz(Some("wallet-a".to_string()), sample_params("public", "auto"), 100)
        .unwrap();

    let r = state.submit_answers(
        Some("wallet-a".to_string()),
        submission(1, "ada", vec![0]),
        DURING_QUIZ,
    );
    assert_eq!(r, Ok(()));
    let key = AttemptKey { quiz_id: 1, user: "wallet-a".to_string() };
    assert_eq!(state.user_attempts.get(&key).unwrap().score, 0);
}

#[test]
fn test_second_attempt_rejected() {
    let mut state = named_ledger("wallet-a", "ada");
    state
        .create_quiz(Some("wallet-a".to_string()), sample_params("public", "auto"), 100)
        .unwrap();

    let r = state.submit_answers(
        Some("wallet-a".to_string()),
        submission(1, "ada", vec![0, 2]),
        DURING_QUIZ,
    );
    assert_eq!(r, Ok(()));
    let key = AttemptKey { quiz_id: 1, user: "wallet-a".to_string() };
    let first_score = state.user_attempts.get(&key).unwrap().score;

    let r = state.submit_answers(
        Some("wallet-a".to_string()),
        submission(1, "ada", vec![1]),
        DURING_QUIZ + 1,
    );
    assert_eq!(r, Err(QuizError::UserAlreadyAttempted));
    // the first attempt is unchanged
    let attempt = state.user_attempts.get(&key).unwrap();
    assert_eq!(attempt.score, first_score);
    assert_eq!(attempt.answers, vec![vec![0, 2]]);
    assert_eq!(state.quiz_sets.get(&1).unwrap().participant_count, 1);
}

#[test]
fn test_submission_errors() {
    let mut state = named_ledger("wallet-a", "ada");
    state
        .create_quiz(Some("wallet-a".to_string()), sample_params("public", "manual"), 100)
        .unwrap();

    // manual quiz not yet started
    let r = state.submit_answers(
        Some("wallet-a".to_string()),
        submission(1, "ada", vec![0, 2]),
        DURING_QUIZ,
    );
    assert_eq!(r, Err(QuizError::QuizNotStarted));

    // unknown quiz
    let r = state.submit_answers(
        Some("wallet-a".to_string()),
        submission(9, "ada", vec![0, 2]),
        DURING_QUIZ,
    );
    assert_eq!(r, Err(QuizError::QuizNotFound));

    // start it, then pass the wrong nickname
    let r = state.start_quiz(Some("wallet-a".to_string()), 1, DURING_QUIZ);
    assert_eq!(r, Ok(()));
    let r = state.submit_answers(
        Some("wallet-a".to_string()),
        submission(1, "grace", vec![0, 2]),
        DURING_QUIZ,
    );
    assert_eq!(r, Err(QuizError::InvalidParameters));

    // an identity without a profile
    let r = state.submit_answers(
        Some("wallet-b".to_string()),
        submission(1, "ada", vec![0, 2]),
        DURING_QUIZ,
    );
    assert_eq!(r, Err(QuizError::UserNotFound));

    // after the end time
    let r = state.submit_answers(
        Some("wallet-a".to_string()),
        submission(1, "ada", vec![0, 2]),
        1800000000000001,
    );
    assert_eq!(r, Err(QuizError::InvalidParameters));

    // an answer naming no question of the quiz
    let mut p = submission(1, "ada", vec![0, 2]);
    p.answers[0].question_id = "q9-9".to_string();
    let r = state.submit_answers(Some("wallet-a".to_string()), p, DURING_QUIZ);
    assert_eq!(r, Err(QuizError::InvalidParameters));

    // fewer answers than questions
    let mut p = submission(1, "ada", vec![0, 2]);
    p.answers.clear();
    let r = state.submit_answers(Some("wallet-a".to_string()), p, DURING_QUIZ);
    assert_eq!(r, Err(QuizError::InvalidParameters));
}

#[test]
fn test_auto_start_persists_on_rejection() {
    let mut state = named_ledger("wallet-a", "ada");
    state
        .create_quiz(Some("wallet-a".to_string()), sample_params("public", "auto"), 100)
        .unwrap();
    assert!(!state.quiz_sets.get(&1).unwrap().is_started);

    // the submission is rejected for its nickname, but the auto start sticks
    let r = state.submit_answers(
        Some("wallet-a".to_string()),
        submission(1, "grace", vec![0, 2]),
        DURING_QUIZ,
    );
    assert_eq!(r, Err(QuizError::InvalidParameters));
    assert!(state.quiz_sets.get(&1).unwrap().is_started);
}

#[test]
fn test_registration_mode() {
    let mut state = named_ledger("wallet-a", "ada");
    state.set_nickname(
        Some("wallet-b".to_string()),
        &SetNicknameParams { nickname: "grace".to_string() },
        11,
    ).unwrap();
    state
        .create_quiz(Some("wallet-a".to_string()), sample_params("registration", "auto"), 100)
        .unwrap();

    // registering works once, before the quiz starts
    let r = state.register_for_quiz(Some("wallet-b".to_string()), 1, 200);
    assert_eq!(r, Ok(()));
    let r = state.register_for_quiz(Some("wallet-b".to_string()), 1, 201);
    assert_eq!(r, Err(QuizError::UserAlreadyRegistered));
    let r = state.register_for_quiz(Some("wallet-c".to_string()), 1, 202);
    assert_eq!(r, Err(QuizError::UserNotFound));

    // an unregistered identity cannot submit
    let r = state.submit_answers(
        Some("wallet-a".to_string()),
        submission(1, "ada", vec![0, 2]),
        DURING_QUIZ,
    );
    assert_eq!(r, Err(QuizError::UserNotRegistered));

    // the registered one can
    let r = state.submit_answers(
        Some("wallet-b".to_string()),
        submission(1, "grace", vec![0, 2]),
        DURING_QUIZ,
    );
    assert_eq!(r, Ok(()));
}

#[test]
fn test_start_quiz_permissions() {
    let mut state = named_ledger("wallet-a", "ada");
    state.set_nickname(
        Some("wallet-b".to_string()),
        &SetNicknameParams { nickname: "grace".to_string() },
        11,
    ).unwrap();
    state
        .create_quiz(Some("wallet-a".to_string()), sample_params("public", "manual"), 100)
        .unwrap();

    // only the creator may start it
    let r = state.start_quiz(Some("wallet-b".to_string()), 1, DURING_QUIZ);
    assert_eq!(r, Err(QuizError::InsufficientPermissions));
    // not before the window opens
    let r = state.start_quiz(Some("wallet-a".to_string()), 1, 500);
    assert_eq!(r, Err(QuizError::InvalidParameters));
    // inside the window it starts
    let r = state.start_quiz(Some("wallet-a".to_string()), 1, DURING_QUIZ);
    assert_eq!(r, Ok(()));
    assert!(state.quiz_sets.get(&1).unwrap().is_started);
    // and only once
    let r = state.start_quiz(Some("wallet-a".to_string()), 1, DURING_QUIZ);
    assert_eq!(r, Err(QuizError::InvalidParameters));
}

#[test]
fn test_leaderboard_sorted_and_unique() {
    let mut state = named_ledger("wallet-a", "ada");
    state.set_nickname(
        Some("wallet-b".to_string()),
        &SetNicknameParams { nickname: "grace".to_string() },
        11,
    ).unwrap();
    state.set_nickname(
        Some("wallet-c".to_string()),
        &SetNicknameParams { nickname: "edsger".to_string() },
        12,
    ).unwrap();
    state
        .create_quiz(Some("wallet-a".to_string()), sample_params("public", "auto"), 100)
        .unwrap();

    state
        .submit_answers(Some("wallet-b".to_string()), submission(1, "grace", vec![1]), DURING_QUIZ)
        .unwrap();
    state
        .submit_answers(
            Some("wallet-c".to_string()),
            submission(1, "edsger", vec![0, 2]),
            DURING_QUIZ,
        )
        .unwrap();

    let board = state.leaderboard.get(&1).unwrap();
    assert_eq!(board.len(), 2);
    assert_eq!(board[0].user, "wallet-c");
    assert_eq!(board[0].score, 5);
    assert_eq!(board[1].user, "wallet-b");
    assert_eq!(board[1].score, 0);
    assert_eq!(state.quiz_sets.get(&1).unwrap().participant_count, 2);
    assert_eq!(
        state.quiz_participants.get(&1).unwrap(),
        &vec!["wallet-b".to_string(), "wallet-c".to_string()]
    );
}

#[test]
fn test_routing() {
    let main = ChainId { value: 1 };
    let peer = ChainId { value: 2 };

    let action = route(Operation::StartQuiz(4), main, main);
    assert!(matches!(action, RouteAction::ApplyLocally(Operation::StartQuiz(4))));

    let action = route(Operation::StartQuiz(4), peer, main);
    match action {
        RouteAction::Forward(target, message) => {
            assert_eq!(target, main);
            assert_eq!(message, Message::StartQuiz { from_chain_id: peer, quiz_id: 4 });
        },
        RouteAction::ApplyLocally(_) => panic!("a peer context must forward"),
    }
}

#[test]
fn test_quiz_views_and_pagination() {
    let mut state = named_ledger("wallet-a", "ada");
    state
        .create_quiz(Some("wallet-a".to_string()), sample_params("public", "auto"), 100)
        .unwrap();
    state
        .create_quiz(Some("wallet-a".to_string()), sample_params("registration", "manual"), 200)
        .unwrap();

    let views = state.quiz_set_views();
    assert_eq!(views.len(), 2);
    assert_eq!(views[0].id, 1);
    assert_eq!(views[0].mode, "public");
    assert_eq!(views[0].start_mode, "auto");
    assert_eq!(views[0].start_time, "1700000000000000");
    assert_eq!(views[0].end_time, "1800000000000000");
    assert_eq!(views[0].created_at, "100");
    assert_eq!(views[0].creator_nickname, "ada");
    assert_eq!(views[0].questions.len(), 1);
    assert_eq!(views[0].questions[0].id, "q1-0");
    assert_eq!(views[1].mode, "registration");
    assert_eq!(views[1].start_mode, "manual");

    let page = quiz::quiz_views::paginate_quiz_views(views.clone(), Some(1), Some(1));
    assert_eq!(page.len(), 1);
    assert_eq!(page[0].id, 2);
    let page = quiz::quiz_views::paginate_quiz_views(views.clone(), None, None);
    assert_eq!(page.len(), 2);
    let page = quiz::quiz_views::paginate_quiz_views(views, Some(10), Some(2));
    assert_eq!(page.len(), 0);

    let one = state.quiz_set_view_by_id(2).unwrap();
    assert_eq!(one.id, 2);
    assert!(state.quiz_set_view_by_id(9).is_none());
}

#[test]
fn test_user_attempt_views() {
    let mut state = named_ledger("wallet-a", "ada");
    state.set_nickname(
        Some("wallet-b".to_string()),
        &SetNicknameParams { nickname: "grace".to_string() },
        11,
    ).unwrap();
    state
        .create_quiz(Some("wallet-a".to_string()), sample_params("public", "auto"), 100)
        .unwrap();
    state
        .submit_answers(Some("wallet-a".to_string()), submission(1, "ada", vec![0, 2]), DURING_QUIZ)
        .unwrap();
    state
        .submit_answers(Some("wallet-b".to_string()), submission(1, "grace", vec![1]), DURING_QUIZ)
        .unwrap();

    let views = state.user_attempt_views(&"wallet-a".to_string());
    assert_eq!(views.len(), 1);
    assert_eq!(views[0].quiz_id, 1);
    assert_eq!(views[0].attempt.user, "wallet-a");
    assert_eq!(views[0].attempt.score, 5);
    assert_eq!(views[0].attempt.completed_at, "1750000000000000");
    assert_eq!(state.user_attempt_views(&"wallet-c".to_string()).len(), 0);
}
