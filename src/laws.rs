//! Laws of the game that relate several operations or hold of every state.
use vstd::prelude::*;
use crate::digest::{chain_start, fold_all, lemma_selection_order_irrelevant};
use crate::game::canonical_text;
use crate::views::{same_ids, same_text};
use crate::state::{QuizChain, claimed_has_winner, winners_kept};
use crate::types::{
    QuestionId, QuestionKind, QuestionOption, QuestionOptionId, QuizId, Reward, RewardId, RevealedAnswer,
};

verus! {

/// Selecting the same options in another order gives the same canonical answer, so the
/// same digest.
pub proof fn lemma_canonical_order_irrelevant(
    opts: Map<(QuizId, QuestionId, QuestionOptionId), QuestionOption>,
    q: QuizId,
    qid: QuestionId,
    kind: QuestionKind,
    a: Vec<QuestionOptionId>,
    b: Vec<QuestionOptionId>,
    text: Option<String>,
)
    requires
        a@.to_multiset() == b@.to_multiset(),
    ensures
        canonical_text(opts, q, qid, kind, Some(a), text) == canonical_text(opts, q, qid, kind, Some(b), text),
{
    broadcast use vstd::seq_lib::group_to_multiset_ensures;
    lemma_selection_order_irrelevant(a@, b@);
    assert(a@.len() == a@.to_multiset().len());
    assert(b@.len() == b@.to_multiset().len());
}

/// A game of a direct-finality quiz whose digest is the fold of the disclosed key from
/// the secret wins the first remaining slot; a game ending on any other digest wins nothing.
pub proof fn lemma_key_digest_wins(
    s: &QuizChain,
    next: &QuizChain,
    q: QuizId,
    caller: String,
    key: Seq<RevealedAnswer>,
    texts: Seq<Seq<char>>,
    h: Seq<char>,
)
    requires
        s.wf(),
        q < s.quizzes@.len(),
        s.quizzes@[q as int].secret is Some,
        s.quizzes@[q as int].success_hash is Some,
        s.revealed_texts(q, key) == Ok::<Seq<Seq<char>>, crate::types::QuizError>(texts),
        fold_all(chain_start(s.quizzes@[q as int].secret.unwrap()@), texts) == s.quizzes@[q as int].success_hash.unwrap()@,
        s.finalized(next, q, caller, h),
    ensures
        h == fold_all(chain_start(s.quizzes@[q as int].secret.unwrap()@), texts)
            && s.quizzes@[q as int].available_rewards_ids@.len() > 0
            ==> next.rewards@[(q, s.quizzes@[q as int].available_rewards_ids@[0])].winner_account_id == Some(caller),
        h != s.quizzes@[q as int].success_hash.unwrap()@ ==> next.rewards@ == s.rewards@ && next.quizzes@ == s.quizzes@,
{
}

/// The last answer of a direct-finality game wins the first remaining slot when the
/// canonical answers given, folded from the secret, are the disclosed key's; when the
/// resulting digest is not the target, no reward changes hands.
pub proof fn lemma_key_answers_win(
    s: &QuizChain,
    next: &QuizChain,
    caller: String,
    now: u64,
    q: QuizId,
    qid: QuestionId,
    ids: Option<Vec<QuestionOptionId>>,
    text: Option<String>,
    a: Seq<char>,
    key: Seq<RevealedAnswer>,
    texts: Seq<Seq<char>>,
)
    requires
        s.wf(),
        s.send_answer_check(caller, q, qid, ids, text) == Ok::<Seq<char>, crate::types::QuizError>(a),
        s.answered(next, caller, now, q, qid, ids, a),
        s.finishes(q, qid),
        s.quizzes@[q as int].finality_type == crate::types::QuizFinalityType::Direct,
        s.quizzes@[q as int].secret is Some,
        texts.len() > 0,
        s.games@[(q, caller@)].current_hash@ == fold_all(chain_start(s.quizzes@[q as int].secret.unwrap()@), texts.drop_last()),
        a == texts.last(),
    ensures
        s.revealed_texts(q, key) == Ok::<Seq<Seq<char>>, crate::types::QuizError>(texts)
            && fold_all(chain_start(s.quizzes@[q as int].secret.unwrap()@), texts) == s.quizzes@[q as int].success_hash.unwrap()@
            && s.quizzes@[q as int].available_rewards_ids@.len() > 0
            ==> next.rewards@[(q, s.quizzes@[q as int].available_rewards_ids@[0])].winner_account_id == Some(caller),
        fold_all(chain_start(s.quizzes@[q as int].secret.unwrap()@), texts) != s.quizzes@[q as int].success_hash.unwrap()@
            ==> next.rewards@ == s.rewards@ && next.quizzes@ == s.quizzes@ && next.active_quizzes@ == s.active_quizzes@,
        next.games@[(q, caller@)].answers_quantity == s.games@[(q, caller@)].answers_quantity + 1,
        next.games@[(q, caller@)].current_hash@ == fold_all(chain_start(s.quizzes@[q as int].secret.unwrap()@), texts),
{
}

/// A recorded winner stays recorded through any sequence of operations that each keep winners.
pub proof fn lemma_winner_set_once(
    a: Map<(QuizId, RewardId), Reward>,
    b: Map<(QuizId, RewardId), Reward>,
    c: Map<(QuizId, RewardId), Reward>,
)
    requires
        winners_kept(a, b),
        winners_kept(b, c),
    ensures
        winners_kept(a, c),
{
}

/// In every reachable state a claimed reward has a winner.
pub proof fn lemma_claimed_has_winner(s: &QuizChain, k: (QuizId, RewardId))
    requires
        s.wf(),
        s.rewards@.contains_key(k),
        s.rewards@[k].claimed,
    ensures
        s.rewards@[k].winner_account_id is Some,
{
    assert(claimed_has_winner(s.rewards@));
}

/// A claim whose payout failed and was reconciled leaves the rewards as before the claim:
/// the slot is unclaimed, its winner unchanged, and the same winner finds it again.
pub proof fn lemma_failed_claim_reclaimable(
    s0: &QuizChain,
    s1: &QuizChain,
    s2: &QuizChain,
    q: QuizId,
    caller: Seq<char>,
    rid: RewardId,
)
    requires
        s0.wf(),
        s0.unclaimed_slot(q, caller) == Some(rid),
        s1.rewards@ == s0.rewards@.insert((q, rid), (Reward { claimed: true, ..s0.rewards@[(q, rid)] })),
        s1.quizzes == s0.quizzes,
        s2.quizzes == s1.quizzes,
        s1.reconciled(s2, Some(q), Some(rid), false),
    ensures
        s2.rewards@ == s0.rewards@,
        !s2.rewards@[(q, rid)].claimed,
        s2.rewards@[(q, rid)].winner_account_id == s0.rewards@[(q, rid)].winner_account_id,
        s2.unclaimed_slot(q, caller) == Some(rid),
{
    crate::rewards::lemma_won_slot_stored(s0, q, caller);
    assert(s2.rewards@ =~= s0.rewards@);
}


/// Answering a question with the same options in another order is accepted or rejected
/// alike, and when accepted leaves the same game and records the same ascending selection.
pub proof fn lemma_permuted_selection_same_game(
    s: &QuizChain,
    n1: &QuizChain,
    n2: &QuizChain,
    caller: String,
    now: u64,
    q: QuizId,
    qid: QuestionId,
    ids1: Vec<QuestionOptionId>,
    ids2: Vec<QuestionOptionId>,
    text: Option<String>,
)
    requires
        ids1@.to_multiset() == ids2@.to_multiset(),
    ensures
        s.send_answer_check(caller, q, qid, Some(ids1), text) == s.send_answer_check(caller, q, qid, Some(ids2), text),
        s.send_answer_check(caller, q, qid, Some(ids1), text) matches Ok(a) && s.answered(n1, caller, now, q, qid, Some(ids1), a)
            && s.answered(n2, caller, now, q, qid, Some(ids2), a) ==> {
            let key = (q, caller@);
            let akey = (q, qid, caller@);
            &&& n1.games@[key].answers_quantity == n2.games@[key].answers_quantity
            &&& n1.games@[key].current_hash@ == n2.games@[key].current_hash@
            &&& same_ids(n1.answers@[akey].selected_option_ids, n2.answers@[akey].selected_option_ids)
            &&& same_text(n1.answers@[akey].selected_text, n2.answers@[akey].selected_text)
            &&& n1.answers@[akey].timestamp == n2.answers@[akey].timestamp
        },
{
    lemma_selection_order_irrelevant(ids1@, ids2@);
    if q < s.quizzes@.len() && s.questions@.contains_key((q, qid)) {
        lemma_canonical_order_irrelevant(s.question_options@, q, qid, s.questions@[(q, qid)].kind, ids1, ids2, text);
    }
}

/// Two disclosed keys that select the same options per question, in whatever order.
pub open spec fn same_up_to_order(k1: Seq<RevealedAnswer>, k2: Seq<RevealedAnswer>) -> bool {
    &&& k1.len() == k2.len()
    &&& forall|i: int| 0 <= i < k1.len() ==> (#[trigger] k1[i]).selected_text == k2[i].selected_text
        && match (k1[i].selected_option_ids, k2[i].selected_option_ids) {
            (Some(a), Some(b)) => a@.to_multiset() == b@.to_multiset(),
            (None, None) => true,
            _ => false,
        }
}

/// A disclosed key is read, and accepted or rejected, as the same key with each
/// selection reordered.
pub proof fn lemma_permuted_key_same_outcome(s: &QuizChain, caller: String, q: QuizId, k1: Seq<RevealedAnswer>, k2: Seq<RevealedAnswer>)
    requires
        same_up_to_order(k1, k2),
    ensures
        s.revealed_texts(q, k1) == s.revealed_texts(q, k2),
        s.reveal_answers_check(caller, q, k1) == s.reveal_answers_check(caller, q, k2),
    decreases k1.len(),
{
    if k1.len() > 0 {
        let d1 = k1.drop_last();
        let d2 = k2.drop_last();
        assert(same_up_to_order(d1, d2)) by {
            assert forall|i: int| 0 <= i < d1.len() implies (#[trigger] d1[i]).selected_text == d2[i].selected_text
                && match (d1[i].selected_option_ids, d2[i].selected_option_ids) {
                    (Some(a), Some(b)) => a@.to_multiset() == b@.to_multiset(),
                    (None, None) => true,
                    _ => false,
                } by {
                assert(d1[i] == k1[i] && d2[i] == k2[i]);
            }
        }
        lemma_permuted_key_same_outcome(s, caller, q, d1, d2);
        let l1 = k1.last();
        let l2 = k2.last();
        assert(l1 == k1[k1.len() - 1] && l2 == k2[k2.len() - 1]);
        let qid = (k1.len() - 1) as QuestionId;
        if s.questions@.contains_key((q, qid)) {
            match (l1.selected_option_ids, l2.selected_option_ids) {
                (Some(a), Some(b)) => {
                    lemma_canonical_order_irrelevant(s.question_options@, q, qid, s.questions@[(q, qid)].kind, a, b,
                        l1.selected_text);
                },
                _ => {},
            }
        }
    }
}

} // verus!
