use quiz_chain::deposit::TransferArgs;
use quiz_chain::digest::{fold, sort_ids, start_hash};
use quiz_chain::state::QuizChain;
use quiz_chain::types::{
    QuestionInput, QuestionKind, QuestionOption, QuestionOptionKind, QuizError, QuizFinalityType, QuizStatus,
    RevealedAnswer, RewardInput,
};
use sha2::{Digest, Sha256};

const DAY: u64 = 86_400_000_000_000;

fn s(x: &str) -> String {
    x.to_string()
}

fn sha_hex(x: &str) -> String {
    format!("{:x}", Sha256::digest(x.as_bytes()))
}

fn opt(content: &str) -> QuestionOption {
    QuestionOption { content: s(content), kind: QuestionOptionKind::Text }
}

fn question(kind: QuestionKind, content: &str) -> QuestionInput {
    QuestionInput { kind, content: s(content), hint: None }
}

fn rewards(amounts: &[u128]) -> Vec<RewardInput> {
    amounts.iter().map(|a| RewardInput { amount: *a }).collect()
}

fn fee(total: u128) -> u128 {
    total / 100
}

/// Two questions: "Capital of France?" (one choice: Paris, London) and "6 x 7?" (text).
fn capital_quiz(chain: &mut QuizChain, owner: &str, finality: QuizFinalityType, amounts: &[u128], secret: Option<&str>, success: Option<String>) -> u64 {
    let total: u128 = amounts.iter().sum();
    chain
        .create_quiz(
            &s(owner),
            total + fee(total),
            1_000,
            s("Capitals"),
            None,
            None,
            finality,
            vec![question(QuestionKind::OneChoice, "Capital of France?"), question(QuestionKind::Text, "6 x 7?")],
            vec![vec![opt("Paris"), opt("London")], vec![]],
            rewards(amounts),
            secret.map(s),
            success,
            true,
            None,
        )
        .unwrap()
}

fn paris_digest() -> String {
    let start = sha_hex("s3cr3t");
    let one = sha_hex(&format!("{}{}", start, "paris"));
    sha_hex(&format!("{}{}", one, "42"))
}

fn play(chain: &mut QuizChain, who: &str, quiz_id: u64, choice: u16, text: &str) {
    chain.start_game(&s(who), quiz_id, None).unwrap();
    chain.send_answer(&s(who), 2_000, quiz_id, 0, Some(vec![choice]), None).unwrap();
    chain.send_answer(&s(who), 3_000, quiz_id, 1, None, Some(s(text))).unwrap();
}

#[test]
fn paris_and_42_wins_first_slot_london_wins_nothing() {
    let mut chain = QuizChain::new();
    let q = capital_quiz(&mut chain, "owner", QuizFinalityType::Direct, &[100, 50], Some("s3cr3t"), Some(paris_digest()));
    play(&mut chain, "alice", q, 0, "42");
    let game = chain.get_game(q, &s("alice")).unwrap();
    assert_eq!(game.answers_quantity, 2);
    assert_eq!(game.current_hash, paris_digest());
    let won = chain.get_user_reward_by_quiz(q, &s("alice")).unwrap();
    assert_eq!(won.id, 0);
    assert_eq!(won.amount, 100);
    assert_eq!(won.winner_account_id, Some(s("alice")));

    play(&mut chain, "bob", q, 1, "42");
    assert!(chain.get_user_reward_by_quiz(q, &s("bob")).is_none());
    assert_eq!(chain.get_unclaimed_rewards_by_quiz(q).len(), 1);
    assert_eq!(chain.get_quiz(q).unwrap().status, QuizStatus::InProgress);
}

#[test]
fn free_text_is_case_folded() {
    let mut chain = QuizChain::new();
    let q = capital_quiz(&mut chain, "owner", QuizFinalityType::Direct, &[100], Some("s3cr3t"), Some(paris_digest()));
    chain.start_game(&s("carol"), q, None).unwrap();
    chain.send_answer(&s("carol"), 2_000, q, 0, Some(vec![0]), None).unwrap();
    chain.send_answer(&s("carol"), 3_000, q, 1, None, Some(s("42"))).unwrap();
    assert_eq!(chain.get_game(q, &s("carol")).unwrap().current_hash, paris_digest());
    let answer = chain.get_answer(q, 1, &s("carol")).unwrap();
    assert_eq!(answer.selected_text, Some(s("42")));
    assert_eq!(answer.timestamp, 3_000);
}

#[test]
fn last_slot_finishes_the_quiz_and_winners_stay() {
    let mut chain = QuizChain::new();
    let q = capital_quiz(&mut chain, "owner", QuizFinalityType::Direct, &[100, 50], Some("s3cr3t"), Some(paris_digest()));
    play(&mut chain, "alice", q, 0, "42");
    play(&mut chain, "bob", q, 0, "42");
    assert_eq!(chain.get_user_reward_by_quiz(q, &s("bob")).unwrap().id, 1);
    assert_eq!(chain.get_quiz(q).unwrap().status, QuizStatus::Finished);
    assert!(chain.get_active_quizzes().is_empty());
    // the quiz stays playable once finished, but nobody wins again
    play(&mut chain, "carol", q, 0, "42");
    let distributed = chain.get_distributed_rewards_by_quiz(q);
    assert_eq!(distributed.len(), 2);
    assert_eq!(distributed[0].winner_account_id, Some(s("alice")));
    assert_eq!(distributed[1].winner_account_id, Some(s("bob")));
    assert!(chain.get_user_reward_by_quiz(q, &s("carol")).is_none());
}

#[test]
fn multi_choice_order_does_not_change_the_digest() {
    let mut chain = QuizChain::new();
    let q = chain
        .create_quiz(
            &s("owner"),
            101,
            1_000,
            s("Colours"),
            None,
            None,
            QuizFinalityType::Direct,
            vec![question(QuestionKind::MultipleChoice, "Pick the primaries")],
            vec![vec![opt("Green"), opt("Red"), opt("Blue"), opt("Yellow")]],
            rewards(&[100]),
            Some(s("k")),
            Some(s("unused")),
            false,
            None,
        )
        .unwrap();
    chain.start_game(&s("a"), q, None).unwrap();
    chain.start_game(&s("b"), q, None).unwrap();
    chain.send_answer(&s("a"), 5, q, 0, Some(vec![3, 1, 2]), None).unwrap();
    chain.send_answer(&s("b"), 5, q, 0, Some(vec![1, 2, 3]), None).unwrap();
    let ha = chain.get_game(q, &s("a")).unwrap().current_hash;
    let hb = chain.get_game(q, &s("b")).unwrap().current_hash;
    assert_eq!(ha, hb);
    assert_eq!(ha, sha_hex(&format!("{}{}", sha_hex("k"), "redblueyellow")));
    assert_eq!(chain.get_answer(q, 0, &s("a")).unwrap().selected_option_ids, Some(vec![1, 2, 3]));
}

#[test]
fn delayed_reveal_ranks_by_arrival_and_refunds_the_rest() {
    let mut chain = QuizChain::new();
    let q = chain
        .create_quiz(
            &s("owner"),
            (300 + 200 + 100) + 6,
            1_000,
            s("Delayed"),
            None,
            None,
            QuizFinalityType::DelayedReveal,
            vec![question(QuestionKind::Text, "Say something")],
            vec![vec![]],
            rewards(&[300, 200, 100]),
            Some(s("salt")),
            None,
            false,
            None,
        )
        .unwrap();
    for (who, text) in [("a", "one"), ("b", "one"), ("c", "two"), ("d", "three")] {
        chain.start_game(&s(who), q, None).unwrap();
        chain.send_answer(&s(who), 10, q, 0, None, Some(s(text))).unwrap();
    }
    let h1 = chain.get_game(q, &s("a")).unwrap().current_hash;
    assert_eq!(h1, chain.get_game(q, &s("b")).unwrap().current_hash);
    assert_eq!(chain.get_users_with_final_hash(q, h1.clone()), Some(vec![s("a"), s("b")]));
    // nobody has won before the reveal
    assert!(chain.get_user_reward_by_quiz(q, &s("a")).is_none());

    assert_eq!(chain.reveal_final_hash(&s("a"), q, h1.clone()).unwrap_err(), QuizError::NoAccess);
    let refund = chain.reveal_final_hash(&s("owner"), q, h1.clone()).unwrap().unwrap();
    assert_eq!(refund.recipient, s("owner"));
    assert_eq!(refund.amount, 100 - 10);
    assert_eq!(refund.quiz_id, None);
    assert!(refund.is_native());
    assert_eq!(chain.get_user_reward_by_quiz(q, &s("a")).unwrap().id, 0);
    assert_eq!(chain.get_user_reward_by_quiz(q, &s("b")).unwrap().id, 1);
    assert!(chain.get_user_reward_by_quiz(q, &s("c")).is_none());
    assert!(chain.get_user_reward_by_quiz(q, &s("d")).is_none());
    let quiz = chain.get_quiz(q).unwrap();
    assert_eq!(quiz.status, QuizStatus::Finished);
    assert_eq!(quiz.success_hash, Some(h1));
    assert!(quiz.unclaimed_rewards_ids.is_empty());
    // 6 from creation, 10 from the refund
    assert_eq!(chain.get_service_fee_total(&s("near")), 16);
}

#[test]
fn reveal_final_hash_checks_length_and_mode() {
    let mut chain = QuizChain::new();
    let q = capital_quiz(&mut chain, "owner", QuizFinalityType::Direct, &[100], Some("s3cr3t"), Some(paris_digest()));
    assert_eq!(chain.reveal_final_hash(&s("owner"), q, s("short")).unwrap_err(), QuizError::IllegalHashLength);
    assert_eq!(chain.reveal_final_hash(&s("owner"), q, paris_digest()).unwrap_err(), QuizError::HashRevealNotSupported);
}

fn token_quiz(chain: &mut QuizChain) -> u64 {
    chain.whitelist_token(s("token.near"));
    let args = TransferArgs {
        operation: s("create_quiz"),
        quiz_owner_id: s("owner"),
        title: Some(s("Token quiz")),
        description: None,
        language: None,
        finality_type: Some(QuizFinalityType::Direct),
        questions: Some(vec![question(QuestionKind::OneChoice, "Capital of France?"), question(QuestionKind::Text, "6 x 7?")]),
        all_question_options: Some(vec![vec![opt("Paris"), opt("London")], vec![]]),
        rewards: Some(rewards(&[1_000])),
        secret: Some(s("s3cr3t")),
        success_hash: Some(paris_digest()),
        restart_allowed: Some(false),
    };
    chain.ft_on_transfer(s("token.near"), s("owner"), 1_010, args, 1_000).unwrap()
}

#[test]
fn failed_token_payout_is_reconciled_and_reclaimable() {
    let mut chain = QuizChain::new();
    let q = token_quiz(&mut chain);
    assert_eq!(chain.get_service_fee_total(&s("token.near")), 10);
    play(&mut chain, "alice", q, 0, "42");
    let payout = chain.claim_reward(&s("alice"), q).unwrap().unwrap();
    assert_eq!(payout.recipient, s("alice"));
    assert_eq!(payout.amount, 1_000);
    assert_eq!(payout.token_account_id, Some(s("token.near")));
    assert_eq!(payout.quiz_id, Some(q));
    assert_eq!(payout.reward_id, Some(0));
    assert!(!payout.is_native());
    assert!(chain.get_user_reward_by_quiz(q, &s("alice")).unwrap().claimed);
    assert_eq!(chain.claim_reward(&s("alice"), q).unwrap_err(), QuizError::AlreadyClaimed);

    assert!(!chain.after_ft_withdraw(&s("alice"), 1_000, payout.quiz_id, payout.reward_id, false));
    let reward = chain.get_user_reward_by_quiz(q, &s("alice")).unwrap();
    assert!(!reward.claimed);
    assert_eq!(reward.winner_account_id, Some(s("alice")));
    assert_eq!(reward.amount, 1_000);

    let again = chain.claim_reward(&s("alice"), q).unwrap().unwrap();
    assert_eq!(again.amount, 1_000);
    assert!(chain.after_ft_transfer_deposit(&s("alice"), 1_000, &s("token.near"), again.quiz_id, again.reward_id, true));
    assert!(chain.get_user_reward_by_quiz(q, &s("alice")).unwrap().claimed);
}

#[test]
fn failed_transfer_deposit_callback_unclaims() {
    let mut chain = QuizChain::new();
    let q = token_quiz(&mut chain);
    play(&mut chain, "alice", q, 0, "42");
    let payout = chain.claim_reward(&s("alice"), q).unwrap().unwrap();
    assert!(!chain.after_ft_transfer_deposit(&s("alice"), 1_000, &s("token.near"), payout.quiz_id, payout.reward_id, false));
    assert!(!chain.get_user_reward_by_quiz(q, &s("alice")).unwrap().claimed);
}

#[test]
fn claim_without_a_win_gives_nothing() {
    let mut chain = QuizChain::new();
    let q = capital_quiz(&mut chain, "owner", QuizFinalityType::Direct, &[100], Some("s3cr3t"), Some(paris_digest()));
    play(&mut chain, "bob", q, 1, "42");
    assert!(chain.claim_reward(&s("bob"), q).unwrap().is_none());
    assert!(chain.get_unclaimed_rewards_by_quiz(q).iter().all(|r| !r.claimed && r.winner_account_id.is_none()));
    assert!(chain.claim_reward(&s("bob"), 99).unwrap().is_none());
}

#[test]
fn unknown_token_and_operation_are_rejected() {
    let mut chain = QuizChain::new();
    let args = || TransferArgs {
        operation: s("steal"),
        quiz_owner_id: s("owner"),
        title: None,
        description: None,
        language: None,
        finality_type: None,
        questions: None,
        all_question_options: None,
        rewards: None,
        secret: None,
        success_hash: None,
        restart_allowed: None,
    };
    assert_eq!(chain.ft_on_transfer(s("bad.near"), s("x"), 5, args(), 0).unwrap_err(), QuizError::TokenNotWhitelisted);
    chain.whitelist_token(s("t.near"));
    assert!(chain.is_whitelisted_token(&s("t.near")));
    assert_eq!(chain.ft_on_transfer(s("t.near"), s("x"), 5, args(), 0).unwrap_err(), QuizError::UnknownOperation);
    let mut missing = args();
    missing.operation = s("create_quiz");
    assert_eq!(chain.ft_on_transfer(s("t.near"), s("x"), 5, missing, 0).unwrap_err(), QuizError::MissingField);
    let mut fund = args();
    fund.operation = s("create_quiz_for_account");
    let id = chain.ft_on_transfer(s("t.near"), s("sponsor"), 101, fund, 0).unwrap();
    let quiz = chain.get_quiz(id).unwrap();
    assert_eq!(quiz.status, QuizStatus::Funded);
    assert_eq!(quiz.funded_amount, Some(100));
    assert_eq!(quiz.token_account_id, Some(s("t.near")));
}

#[test]
fn restart_after_a_win_is_for_the_winner_only() {
    let mut chain = QuizChain::new();
    let q = capital_quiz(&mut chain, "owner", QuizFinalityType::Direct, &[100, 50], Some("s3cr3t"), Some(paris_digest()));
    play(&mut chain, "bob", q, 1, "42");
    assert_eq!(chain.restart_game(&s("alice"), q).unwrap_err(), QuizError::GameNotStarted);
    // before anyone won, a finished loser may restart
    chain.restart_game(&s("bob"), q).unwrap();
    assert_eq!(chain.get_game(q, &s("bob")).unwrap().answers_quantity, 0);
    assert_eq!(chain.get_game(q, &s("bob")).unwrap().current_hash, sha_hex("s3cr3t"));
    assert_eq!(chain.restart_game(&s("bob"), q).unwrap_err(), QuizError::GameNotFinished);
    play_answers(&mut chain, "bob", q, 1, "42");
    play(&mut chain, "alice", q, 0, "42");
    assert_eq!(chain.restart_game(&s("bob"), q).unwrap_err(), QuizError::OnlyWinnerMayRestart);
    chain.restart_game(&s("alice"), q).unwrap();
}

fn play_answers(chain: &mut QuizChain, who: &str, quiz_id: u64, choice: u16, text: &str) {
    chain.send_answer(&s(who), 2_000, quiz_id, 0, Some(vec![choice]), None).unwrap();
    chain.send_answer(&s(who), 3_000, quiz_id, 1, None, Some(s(text))).unwrap();
}

#[test]
fn restart_needs_permission() {
    let mut chain = QuizChain::new();
    let q = token_quiz(&mut chain);
    play(&mut chain, "bob", q, 1, "42");
    assert_eq!(chain.restart_game(&s("bob"), q).unwrap_err(), QuizError::RestartNotAllowed);
}

#[test]
fn cancel_before_cooldown_is_rejected_for_anyone() {
    let mut chain = QuizChain::new();
    let q = capital_quiz(&mut chain, "owner", QuizFinalityType::Direct, &[100, 50], Some("s3cr3t"), Some(paris_digest()));
    assert_eq!(chain.cancel_quiz(1_000 + 5 * DAY, q).unwrap_err(), QuizError::TooEarlyToCancel);
    assert_eq!(chain.cancel_quiz(500, q).unwrap_err(), QuizError::TooEarlyToCancel);
    play(&mut chain, "alice", q, 0, "42");
    let refund = chain.cancel_quiz(1_001 + 5 * DAY, q).unwrap();
    assert_eq!(refund.recipient, s("owner"));
    assert_eq!(refund.amount, 50 - 5);
    let quiz = chain.get_quiz(q).unwrap();
    assert_eq!(quiz.status, QuizStatus::Finished);
    assert!(quiz.unclaimed_rewards_ids.is_empty());
    assert_eq!(chain.cancel_quiz(2_000 + 5 * DAY, q).unwrap_err(), QuizError::NotCancellable);
    assert_eq!(chain.cancel_quiz(2_000 + 5 * DAY, 7).unwrap_err(), QuizError::QuizNotFound);
}

#[test]
fn funded_quiz_flow() {
    let mut chain = QuizChain::new();
    let id = chain.create_quiz_for_account(&s("sponsor"), &s("owner"), 101, None, 1_000).unwrap();
    assert_eq!(chain.get_service_fee_total(&s("near")), 1);
    assert_eq!(chain.get_quiz(id).unwrap().funded_amount, Some(100));
    for who in ["owner", "stranger"] {
        assert_eq!(chain.cancel_funded_quiz(&s(who), 1_000 + DAY, id).unwrap_err(), QuizError::NoAccess);
    }
    assert_eq!(chain.cancel_funded_quiz(&s("sponsor"), 1_000 + DAY, id).unwrap_err(), QuizError::TooEarlyToCancel);
    let qs = vec![question(QuestionKind::Text, "Say hi")];
    let update = |chain: &mut QuizChain, who: &str, amounts: &[u128]| {
        chain.update_funded_quiz(&s(who), 2_000, id, s("Filled"), None, None, QuizFinalityType::Direct, qs.clone(),
            vec![vec![]], rewards(amounts), Some(s("sec")), Some(s("h")), false)
    };
    assert_eq!(update(&mut chain, "stranger", &[100]).unwrap_err(), QuizError::NoAccess);
    assert_eq!(update(&mut chain, "owner", &[60]).unwrap_err(), QuizError::IllegalRewards);
    assert_eq!(update(&mut chain, "owner", &[60, 40]).unwrap(), id);
    let quiz = chain.get_quiz(id).unwrap();
    assert_eq!(quiz.status, QuizStatus::InProgress);
    assert_eq!(quiz.unclaimed_rewards_ids, vec![0, 1]);
    assert_eq!(quiz.funded_amount, None);
    assert_eq!(chain.cancel_funded_quiz(&s("sponsor"), 1_000 + 6 * DAY, id).unwrap_err(), QuizError::NoAccess);
}

#[test]
fn cancel_funded_refunds_the_sponsor() {
    let mut chain = QuizChain::new();
    let id = chain.create_quiz_for_account(&s("sponsor"), &s("owner"), 1_010, None, 1_000).unwrap();
    let refund = chain.cancel_funded_quiz(&s("sponsor"), 1_001 + 5 * DAY, id).unwrap();
    assert_eq!(refund.recipient, s("sponsor"));
    assert_eq!(refund.amount, 1_000 - 100);
    assert_eq!(chain.get_quiz(id).unwrap().status, QuizStatus::Finished);
}

#[test]
fn deposit_must_match_pool_plus_fee() {
    let mut chain = QuizChain::new();
    let mk = |chain: &mut QuizChain, deposit: u128, token: Option<String>, amounts: &[u128]| {
        chain.create_quiz(&s("o"), deposit, 0, s("t"), None, None, QuizFinalityType::Direct,
            vec![question(QuestionKind::Text, "q")], vec![vec![]], rewards(amounts), None, None, false, token)
    };
    assert_eq!(mk(&mut chain, 1_000, None, &[1_000]).unwrap_err(), QuizError::IllegalDeposit);
    assert_eq!(mk(&mut chain, 1_010, None, &[1_000]).unwrap(), 0);
    // the native fee is capped at 10 NEAR
    let big: u128 = 2_000 * 1_000_000_000_000_000_000_000_000;
    let cap: u128 = 10 * 1_000_000_000_000_000_000_000_000;
    assert_eq!(mk(&mut chain, big + cap, None, &[big]).unwrap(), 1);
    // a token fee is not capped
    assert_eq!(mk(&mut chain, big + cap, Some(s("t")), &[big]).unwrap_err(), QuizError::IllegalDeposit);
    assert_eq!(mk(&mut chain, big + big / 100, Some(s("t")), &[big]).unwrap(), 2);
    assert_eq!(chain.get_service_fee_total(&s("near")), 10 + cap);
    assert_eq!(chain.get_service_fee_total(&s("t")), big / 100);
    assert_eq!(mk(&mut chain, 1, None, &[u128::MAX, 1]).unwrap_err(), QuizError::AmountOverflow);
    let locked = chain.get_quiz(0).unwrap();
    assert_eq!(locked.status, QuizStatus::Locked);
    assert_eq!(locked.total_questions, 1);
}

#[test]
fn content_is_validated() {
    let mut chain = QuizChain::new();
    let r = chain.create_quiz(&s("o"), 0, 0, s("t"), None, None, QuizFinalityType::Direct,
        vec![question(QuestionKind::Text, "q")], vec![], vec![], None, None, false, None);
    assert_eq!(r.unwrap_err(), QuizError::QuestionsAndOptionsNotMatched);
    let r = chain.create_quiz(&s("o"), 0, 0, s("t"), None, None, QuizFinalityType::Direct,
        vec![], vec![], vec![], None, None, false, None);
    assert_eq!(r.unwrap_err(), QuizError::NoQuestions);
}

#[test]
fn activation_is_for_the_owner_once() {
    let mut chain = QuizChain::new();
    let q = capital_quiz(&mut chain, "owner", QuizFinalityType::Direct, &[100], None, None);
    assert_eq!(chain.start_game(&s("p"), q, None).unwrap_err(), QuizError::QuizNotActive);
    assert_eq!(chain.activate_quiz(&s("mallory"), q, s("s3cr3t"), Some(paris_digest())).unwrap_err(), QuizError::NoAccess);
    chain.activate_quiz(&s("owner"), q, s("s3cr3t"), Some(paris_digest())).unwrap();
    assert_eq!(chain.activate_quiz(&s("owner"), q, s("s3cr3t"), None).unwrap_err(), QuizError::QuizAlreadyUnlocked);
    assert_eq!(chain.get_active_quizzes(), vec![q]);
    play(&mut chain, "p", q, 0, "42");
    assert!(chain.get_user_reward_by_quiz(q, &s("p")).is_some());
}

#[test]
fn answers_must_come_in_order() {
    let mut chain = QuizChain::new();
    let q = capital_quiz(&mut chain, "owner", QuizFinalityType::Direct, &[100], Some("s3cr3t"), Some(paris_digest()));
    assert_eq!(chain.send_answer(&s("p"), 1, q, 0, Some(vec![0]), None).unwrap_err(), QuizError::GameNotStarted);
    chain.start_game(&s("p"), q, None).unwrap();
    assert_eq!(chain.start_game(&s("p"), q, None).unwrap_err(), QuizError::GameAlreadyInProgress);
    assert_eq!(chain.send_answer(&s("p"), 1, q, 1, None, Some(s("42"))).unwrap_err(), QuizError::WrongAnswerIndex);
    assert_eq!(chain.send_answer(&s("p"), 1, q, 0, None, None).unwrap_err(), QuizError::AnswerOptionsMissing);
    assert_eq!(chain.send_answer(&s("p"), 1, q, 0, Some(vec![5]), None).unwrap_err(), QuizError::QuestionOptionNotFound);
    chain.send_answer(&s("p"), 1, q, 0, Some(vec![0]), None).unwrap();
    assert_eq!(chain.send_answer(&s("p"), 1, q, 1, Some(vec![0]), None).unwrap_err(), QuizError::AnswerTextMissing);
    chain.send_answer(&s("p"), 1, q, 1, None, Some(s("42"))).unwrap();
    assert_eq!(chain.send_answer(&s("p"), 1, q, 2, None, Some(s("x"))).unwrap_err(), QuizError::QuestionNotFound);
    assert_eq!(chain.start_game(&s("p"), 42, None).unwrap_err(), QuizError::QuizNotFound);
}

#[test]
fn direct_quiz_without_target_cannot_be_completed() {
    let mut chain = QuizChain::new();
    let q = capital_quiz(&mut chain, "owner", QuizFinalityType::Direct, &[100], Some("s3cr3t"), None);
    chain.start_game(&s("p"), q, None).unwrap();
    chain.send_answer(&s("p"), 1, q, 0, Some(vec![0]), None).unwrap();
    assert_eq!(chain.send_answer(&s("p"), 1, q, 1, None, Some(s("42"))).unwrap_err(), QuizError::SuccessHashMissing);
}

#[test]
fn disclosed_key_must_fold_to_the_target() {
    let mut chain = QuizChain::new();
    let q = capital_quiz(&mut chain, "owner", QuizFinalityType::Direct, &[100], Some("s3cr3t"), Some(paris_digest()));
    let key = |choice: u16, text: &str| {
        vec![
            RevealedAnswer { selected_option_ids: Some(vec![choice]), selected_text: None },
            RevealedAnswer { selected_option_ids: None, selected_text: Some(s(text)) },
        ]
    };
    assert_eq!(chain.reveal_answers(&s("owner"), q, key(0, "42")).unwrap_err(), QuizError::QuizNotFinished);
    play(&mut chain, "alice", q, 0, "42");
    play(&mut chain, "bob", q, 1, "41");
    assert_eq!(chain.reveal_answers(&s("bob"), q, key(0, "42")).unwrap_err(), QuizError::NoAccess);
    assert_eq!(chain.reveal_answers(&s("owner"), q, key(1, "42")).unwrap_err(), QuizError::InvalidAnswers);
    assert_eq!(chain.reveal_answers(&s("owner"), q, vec![]).unwrap_err(), QuizError::IllegalAnswersQuantity);
    chain.reveal_answers(&s("owner"), q, key(0, "42")).unwrap();
    assert_eq!(chain.reveal_answers(&s("owner"), q, key(0, "42")).unwrap_err(), QuizError::AnswersAlreadyRevealed);
    assert_eq!(chain.get_revealed_answer(q, 1).unwrap().selected_text, Some(s("42")));
    assert!(chain.get_revealed_answer(q, 2).is_none());
    let alice = chain.get_answers(q, &s("alice")).unwrap();
    assert_eq!(alice.len(), 2);
    assert_eq!(alice[0].is_correct, Some(true));
    assert_eq!(alice[1].is_correct, Some(true));
    let bob = chain.get_answers(q, &s("bob")).unwrap();
    assert_eq!(bob[0].is_correct, Some(false));
    assert_eq!(bob[1].is_correct, Some(false));
    assert_eq!(chain.get_answers(9, &s("bob")).unwrap_err(), QuizError::QuizNotFound);
}

#[test]
fn referrals_are_counted_except_self_and_malformed() {
    let mut chain = QuizChain::new();
    let q = capital_quiz(&mut chain, "owner", QuizFinalityType::Direct, &[100], Some("s3cr3t"), Some(paris_digest()));
    chain.start_game(&s("p1"), q, Some(s("ref.near"))).unwrap();
    chain.start_game(&s("p2"), q, Some(s("ref.near"))).unwrap();
    chain.start_game(&s("p3"), q, Some(s("p3"))).unwrap();
    chain.start_game(&s("p4"), q, Some(s("Bad Name"))).unwrap();
    chain.start_game(&s("p5"), q, Some(s("other.near"))).unwrap();
    assert_eq!(chain.get_affiliates_for_account(&s("ref.near"), q), 2);
    assert_eq!(chain.get_total_affiliates_for_account(&s("ref.near")), 2);
    assert_eq!(chain.get_total_affiliates_for_account(&s("p3")), 0);
    assert_eq!(chain.get_total_affiliates_for_account(&s("Bad Name")), 0);
    let page = chain.get_affiliates(q, 0, 10);
    assert_eq!(page.len(), 2);
    assert_eq!(page[0].account_id, s("ref.near"));
    assert_eq!(page[1].affiliates, 1);
    let total = chain.get_total_affiliates(1, 5);
    assert_eq!(total.len(), 1);
    assert_eq!(total[0].account_id, s("other.near"));
    assert!(chain.get_total_affiliates(7, 5).is_empty());
}

#[test]
fn stats_and_listings_page_through_players() {
    let mut chain = QuizChain::new();
    let q = capital_quiz(&mut chain, "owner", QuizFinalityType::Direct, &[100], Some("s3cr3t"), Some(paris_digest()));
    chain.start_game(&s("p1"), q, None).unwrap();
    chain.start_game(&s("p2"), q, None).unwrap();
    chain.send_answer(&s("p2"), 77, q, 0, Some(vec![1]), None).unwrap();
    let stats = chain.get_quiz_stats(q, 0, 10).unwrap().unwrap();
    assert_eq!(stats.len(), 2);
    assert_eq!(stats[0].player_id, s("p1"));
    assert_eq!(stats[0].last_answer_timestamp, None);
    assert_eq!(stats[1].answers_quantity, 1);
    assert_eq!(stats[1].last_answer_timestamp, Some(77));
    assert_eq!(chain.get_quiz_stats(q, 1, 1).unwrap().unwrap().len(), 1);
    assert_eq!(chain.get_quiz_stats(q, 3, 1).unwrap_err(), QuizError::IllegalFromIndex);
    assert!(chain.get_quiz_stats(5, 0, 1).unwrap().is_none());
    let mine = chain.get_quizzes_by_player(&s("p2"), 0, 10).unwrap().unwrap();
    assert_eq!(mine.len(), 1);
    assert_eq!(mine[0].id, q);
    assert_eq!(chain.get_quizzes_by_owner(&s("owner"), 0, 1).unwrap().unwrap().len(), 1);
    assert!(chain.get_quizzes_by_sponsor(&s("owner"), 0, 1).unwrap().is_none());
    let questions = chain.get_questions_by_quiz(q);
    assert_eq!(questions.len(), 2);
    assert_eq!(questions[0].question_options.len(), 2);
    assert_eq!(questions[0].question_options[1].content, s("London"));
    assert_eq!(chain.get_available_rewards(q).unwrap(), 100);
}

#[test]
fn start_game_for_account_records_the_player() {
    let mut chain = QuizChain::new();
    let q = capital_quiz(&mut chain, "owner", QuizFinalityType::Direct, &[100], Some("s3cr3t"), Some(paris_digest()));
    chain.start_game_for_account_id(q, &s("tester")).unwrap();
    assert_eq!(chain.get_game(q, &s("tester")).unwrap().current_hash, start_hash(&s("s3cr3t")));
    assert_eq!(chain.get_quiz_stats(q, 0, 5).unwrap().unwrap()[0].player_id, s("tester"));
}

#[test]
fn finished_delayed_quiz_hash_can_be_set() {
    let mut chain = QuizChain::new();
    let q = chain.create_quiz(&s("o"), 101, 0, s("t"), None, None, QuizFinalityType::DelayedReveal,
        vec![question(QuestionKind::Text, "q")], vec![vec![]], rewards(&[100]), Some(s("k")), None, false, None).unwrap();
    let h = sha_hex("anything");
    assert_eq!(chain.update_hash_for_finished_quiz_without_answers(q, h.clone()).unwrap_err(), QuizError::QuizNotFinished);
    chain.reveal_final_hash(&s("o"), q, h.clone()).unwrap();
    chain.update_hash_for_finished_quiz_without_answers(q, sha_hex("other")).unwrap();
    assert_eq!(chain.get_quiz(q).unwrap().success_hash, Some(sha_hex("other")));
}

#[test]
fn digest_wrappers_compute_real_values() {
    assert_eq!(fold(&s("ab"), &s("c")), s("ba7816bf8f01cfea414140de5dae2223b00361a396177a9cb410ff61f20015ad"));
    assert_eq!(start_hash(&s("s3cr3t")), sha_hex("s3cr3t"));
    assert_eq!(sort_ids(&vec![3, 1, 2, 1]), vec![1, 1, 2, 3]);
    assert_eq!(sort_ids(&vec![]), Vec::<u16>::new());
}

#[test]
fn empty_selection_is_rejected() {
    let mut chain = QuizChain::new();
    let q = capital_quiz(&mut chain, "owner", QuizFinalityType::Direct, &[100], Some("s3cr3t"), Some(paris_digest()));
    chain.start_game(&s("p"), q, None).unwrap();
    assert_eq!(chain.send_answer(&s("p"), 1, q, 0, Some(vec![]), None).unwrap_err(), QuizError::AnswerOptionsMissing);
    assert_eq!(chain.get_game(q, &s("p")).unwrap().answers_quantity, 0);
}

#[test]
fn a_second_win_can_be_claimed_after_the_first() {
    let mut chain = QuizChain::new();
    let q = capital_quiz(&mut chain, "owner", QuizFinalityType::Direct, &[100, 50, 25], Some("s3cr3t"), Some(paris_digest()));
    play(&mut chain, "alice", q, 0, "42");
    let first = chain.claim_reward(&s("alice"), q).unwrap().unwrap();
    assert_eq!(first.reward_id, Some(0));
    assert_eq!(first.amount, 100);
    assert_eq!(chain.claim_reward(&s("alice"), q).unwrap_err(), QuizError::AlreadyClaimed);
    chain.restart_game(&s("alice"), q).unwrap();
    play_answers(&mut chain, "alice", q, 0, "42");
    let second = chain.claim_reward(&s("alice"), q).unwrap().unwrap();
    assert_eq!(second.reward_id, Some(1));
    assert_eq!(second.amount, 50);
    assert_eq!(chain.claim_reward(&s("alice"), q).unwrap_err(), QuizError::AlreadyClaimed);
}
