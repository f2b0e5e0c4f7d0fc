//! Closing a quiz's books: disclosing the answer key, and ranking delayed-finality players.
use vstd::prelude::*;
use vstd::string::StrSliceExecFns;
use crate::digest::{chain_start, fold, fold_all, start_hash};
use crate::game::{canonical_answer, canonical_text, copy_accounts, results_for};
use crate::quiz::{slots_sum, sum_slots, copy_opt_string, refund_payout, withdraw_available_rewards, winners_kept_all};
use crate::state::{QuizChain, can_add_service_fee, fee_fits, fees_in, remove_id, slots_unawarded, token_key};
use crate::types::{
    AccountId, Balance, Payout, QuestionByQuiz, QuestionId, Quiz, QuizError, QuizFinalityType, QuizId,
    QuizResultByQuiz, QuizStatus, RevealedAnswer, Reward, RewardByQuiz, RewardId,
};

verus! {

impl QuizChain {
    /// The canonical texts of a disclosed answer key, each by its question's kind, or the
    /// first reason one cannot be read.
    pub open spec fn revealed_texts(&self, quiz_id: QuizId, answers: Seq<RevealedAnswer>) -> Result<Seq<Seq<char>>, QuizError>
        decreases answers.len(),
    {
        if answers.len() == 0 {
            Ok(Seq::empty())
        } else {
            match self.revealed_texts(quiz_id, answers.drop_last()) {
                Err(e) => Err(e),
                Ok(t) => {
                    let qid = (answers.len() - 1) as QuestionId;
                    if !self.questions@.contains_key((quiz_id, qid)) {
                        Err(QuizError::QuestionNotFound)
                    } else {
                        match canonical_text(self.question_options@, quiz_id, qid, self.questions@[(quiz_id, qid)].kind,
                            answers.last().selected_option_ids, answers.last().selected_text) {
                            Err(e) => Err(e),
                            Ok(a) => Ok(t.push(a)),
                        }
                    }
                },
            }
        }
    }

    pub open spec fn reveal_answers_check(&self, caller: AccountId, quiz_id: QuizId, answers: Seq<RevealedAnswer>) -> Result<(), QuizError> {
        let quiz = self.quizzes@[quiz_id as int];
        if quiz_id >= self.quizzes@.len() {
            Err(QuizError::QuizNotFound)
        } else if quiz.owner_id@ != caller@ {
            Err(QuizError::NoAccess)
        } else if quiz.revealed_answers is Some {
            Err(QuizError::AnswersAlreadyRevealed)
        } else if quiz.status != QuizStatus::Finished {
            Err(QuizError::QuizNotFinished)
        } else if quiz.total_questions as int != answers.len() {
            Err(QuizError::IllegalAnswersQuantity)
        } else if quiz.secret is None {
            Err(QuizError::SecretMissing)
        } else {
            match self.revealed_texts(quiz_id, answers) {
                Err(e) => Err(e),
                Ok(texts) => if quiz.success_hash is None {
                    Err(QuizError::SuccessHashMissing)
                } else if fold_all(chain_start(quiz.secret.unwrap()@), texts) != quiz.success_hash.unwrap()@ {
                    Err(QuizError::InvalidAnswers)
                } else {
                    Ok(())
                },
            }
        }
    }

    /// The owner discloses the answer key of a finished quiz; it is published only if
    /// folding it from the secret gives the quiz's target digest.
    pub fn reveal_answers(&mut self, caller: &AccountId, quiz_id: QuizId, revealed_answers: Vec<RevealedAnswer>) -> (r: Result<(), QuizError>)
        requires
            old(self).wf(),
        ensures
            final(self).wf(),
            r == old(self).reveal_answers_check(*caller, quiz_id, revealed_answers@),
            r is Err ==> *final(self) == *old(self),
            r is Ok ==> final(self).quizzes@ == old(self).quizzes@.update(quiz_id as int,
                (Quiz { revealed_answers: Some(revealed_answers), ..old(self).quizzes@[quiz_id as int] })),
            r is Ok ==> final(self).rewards == old(self).rewards && final(self).games == old(self).games
                && final(self).active_quizzes == old(self).active_quizzes
                && final(self).service_fees_total == old(self).service_fees_total
                && final(self).questions == old(self).questions && final(self).quiz_results == old(self).quiz_results,
    {
        let qi = match self.quiz_pos(quiz_id) {
            Some(i) => i,
            None => { return Err(QuizError::QuizNotFound); },
        };
        if self.quizzes[qi].owner_id != *caller {
            return Err(QuizError::NoAccess);
        }
        if self.quizzes[qi].revealed_answers.is_some() {
            return Err(QuizError::AnswersAlreadyRevealed);
        }
        if self.quizzes[qi].status != QuizStatus::Finished {
            return Err(QuizError::QuizNotFinished);
        }
        if revealed_answers.len() != self.quizzes[qi].total_questions as usize {
            return Err(QuizError::IllegalAnswersQuantity);
        }
        let mut hash = match &self.quizzes[qi].secret {
            Some(secret) => start_hash(secret),
            None => { return Err(QuizError::SecretMissing); },
        };
        let ghost start = hash@;
        let ghost mut texts: Seq<Seq<char>> = Seq::empty();
        let n = revealed_answers.len();
        let mut i: usize = 0;
        while i < n
            invariant
                self.wf(),
                *self == *old(self),
                qi == quiz_id,
                quiz_id < self.quizzes@.len(),
                self.quizzes@[quiz_id as int].owner_id@ == caller@,
                self.quizzes@[quiz_id as int].revealed_answers is None,
                self.quizzes@[quiz_id as int].status == QuizStatus::Finished,
                self.quizzes@[quiz_id as int].total_questions as int == n,
                self.quizzes@[quiz_id as int].secret is Some,
                start == chain_start(self.quizzes@[quiz_id as int].secret.unwrap()@),
                n == revealed_answers@.len() <= u16::MAX,
                i <= n,
                self.revealed_texts(quiz_id, revealed_answers@.subrange(0, i as int)) == Ok::<Seq<Seq<char>>, QuizError>(texts),
                hash@ == fold_all(start, texts),
            decreases n - i,
        {
            let ghost prefix = revealed_answers@.subrange(0, i + 1);
            proof {
                assert(prefix.drop_last() =~= revealed_answers@.subrange(0, i as int));
            }
            let qid = i as u16;
            let kind = match self.questions.get(&QuestionByQuiz { quiz_id, question_id: qid }) {
                Some(q) => q.kind,
                None => {
                    proof {
                        assert(self.revealed_texts(quiz_id, prefix) is Err);
                        lemma_texts_err_extends(self, quiz_id, revealed_answers@, i + 1);
                    }
                    return Err(QuizError::QuestionNotFound);
                },
            };
            let answer = &revealed_answers[i];
            let text = match canonical_answer(&self.question_options, quiz_id, qid, kind,
                &answer.selected_option_ids, &answer.selected_text) {
                Ok(p) => p.0,
                Err(e) => {
                    proof {
                        lemma_texts_err_extends(self, quiz_id, revealed_answers@, i + 1);
                    }
                    return Err(e);
                },
            };
            hash = fold(&hash, &text);
            proof {
                let old_texts = texts;
                texts = texts.push(text@);
                assert(texts.drop_last() =~= old_texts);
            }
            i = i + 1;
        }
        proof {
            assert(revealed_answers@.subrange(0, n as int) =~= revealed_answers@);
        }
        match &self.quizzes[qi].success_hash {
            Some(h) => {
                if hash != *h {
                    return Err(QuizError::InvalidAnswers);
                }
            },
            None => { return Err(QuizError::SuccessHashMissing); },
        }
        let ghost pre = *self;
        self.quizzes[qi].revealed_answers = Some(revealed_answers);
        proof {
            assert forall|q: QuizId| q < self.quizzes@.len() implies
                #[trigger] slots_unawarded(q, self.quizzes@[q as int].available_rewards_ids@, self.rewards@) by {
                assert(slots_unawarded(q, pre.quizzes@[q as int].available_rewards_ids@, pre.rewards@));
            }
            assert(self.quizzes@ =~= pre.quizzes@.update(quiz_id as int,
                Quiz { revealed_answers: Some(revealed_answers), ..pre.quizzes@[quiz_id as int] }));
        }
        Ok(())
    }
}

/// Once a prefix of a key cannot be read, neither can any longer prefix.
proof fn lemma_texts_err_extends(s: &QuizChain, quiz_id: QuizId, answers: Seq<RevealedAnswer>, i: int)
    requires
        0 <= i <= answers.len(),
        s.revealed_texts(quiz_id, answers.subrange(0, i)) is Err,
    ensures
        s.revealed_texts(quiz_id, answers) == s.revealed_texts(quiz_id, answers.subrange(0, i)),
    decreases answers.len() - i,
{
    if i < answers.len() {
        assert(answers.subrange(0, i + 1).drop_last() =~= answers.subrange(0, i));
        lemma_texts_err_extends(s, quiz_id, answers, i + 1);
    } else {
        assert(answers.subrange(0, i) =~= answers);
    }
}


/// The rewards after slot `slots[j]` of quiz `q` went to `winners[j]`, for each `j` that both have.
pub open spec fn awarded(
    rewards: Map<(QuizId, RewardId), Reward>,
    q: QuizId,
    slots: Seq<RewardId>,
    winners: Seq<AccountId>,
) -> Map<(QuizId, RewardId), Reward>
    decreases slots.len(),
{
    if slots.len() == 0 || winners.len() == 0 {
        rewards
    } else {
        awarded(
            rewards.insert((q, slots[0]), Reward { winner_account_id: Some(winners[0]), ..rewards[(q, slots[0])] }),
            q,
            slots.drop_first(),
            winners.drop_first(),
        )
    }
}

pub open spec fn min_len(a: int, b: int) -> int {
    if a < b { a } else { b }
}

/// What awarding changes and what it keeps.
proof fn lemma_awarded(rewards: Map<(QuizId, RewardId), Reward>, q: QuizId, slots: Seq<RewardId>, winners: Seq<AccountId>)
    requires
        slots.no_duplicates(),
        forall|i: int| 0 <= i < slots.len() ==> #[trigger] rewards.contains_key((q, slots[i])),
    ensures
        awarded(rewards, q, slots, winners).dom() == rewards.dom(),
        forall|j: int| 0 <= j < min_len(slots.len() as int, winners.len() as int) ==>
            #[trigger] awarded(rewards, q, slots, winners)[(q, slots[j])]
                == (Reward { winner_account_id: Some(winners[j]), ..rewards[(q, slots[j])] }),
        forall|k: (QuizId, RewardId)| rewards.contains_key(k)
            && !(exists|j: int| 0 <= j < min_len(slots.len() as int, winners.len() as int) && k == (q, slots[j]))
            ==> #[trigger] awarded(rewards, q, slots, winners)[k] == rewards[k],
    decreases slots.len(),
{
    if slots.len() == 0 || winners.len() == 0 {
    } else {
        let r1 = rewards.insert((q, slots[0]), Reward { winner_account_id: Some(winners[0]), ..rewards[(q, slots[0])] });
        let s1 = slots.drop_first();
        let w1 = winners.drop_first();
        assert forall|i: int| 0 <= i < s1.len() implies #[trigger] r1.contains_key((q, s1[i])) by {
            assert(s1[i] == slots[i + 1]);
            assert(rewards.contains_key((q, slots[i + 1])));
        }
        assert(s1.no_duplicates()) by {
            assert forall|x: int, y: int| 0 <= x < s1.len() && 0 <= y < s1.len() && x != y implies s1[x] != s1[y] by {
                assert(s1[x] == slots[x + 1] && s1[y] == slots[y + 1]);
            }
        }
        lemma_awarded(r1, q, s1, w1);
        assert(r1.dom() =~= rewards.dom());
        let m = min_len(slots.len() as int, winners.len() as int);
        assert forall|j: int| 0 <= j < m implies
            #[trigger] awarded(rewards, q, slots, winners)[(q, slots[j])]
                == Reward { winner_account_id: Some(winners[j]), ..rewards[(q, slots[j])] } by {
            if j == 0 {
                assert forall|jj: int| 0 <= jj < min_len(s1.len() as int, w1.len() as int) implies (q, slots[0]) != (q, s1[jj]) by {
                    assert(s1[jj] == slots[jj + 1]);
                }
            } else {
                assert(s1[j - 1] == slots[j]);
                assert(w1[j - 1] == winners[j]);
                assert(slots[j] != slots[0]);
            }
        }
        assert forall|k: (QuizId, RewardId)| rewards.contains_key(k)
            && !(exists|j: int| 0 <= j < m && k == (q, slots[j]))
            implies #[trigger] awarded(rewards, q, slots, winners)[k] == rewards[k] by {
            assert(k != (q, slots[0]));
            if exists|jj: int| 0 <= jj < min_len(s1.len() as int, w1.len() as int) && k == (q, s1[jj]) {
                let jj = choose|jj: int| 0 <= jj < min_len(s1.len() as int, w1.len() as int) && k == (q, s1[jj]);
                assert(k == (q, slots[jj + 1]));
            }
        }
    }
}

impl QuizChain {
    pub open spec fn final_hash_check(&self, caller: AccountId, quiz_id: QuizId, hash: Seq<char>) -> Result<(), QuizError> {
        let quiz = self.quizzes@[quiz_id as int];
        let avail = quiz.available_rewards_ids@;
        let winners = results_for(self.quiz_results@, (quiz_id, hash));
        let unspent = slots_sum(self.rewards@, quiz_id, avail.subrange(min_len(winners.len() as int, avail.len() as int), avail.len() as int));
        if hash.len() != 64 {
            Err(QuizError::IllegalHashLength)
        } else if quiz_id >= self.quizzes@.len() {
            Err(QuizError::QuizNotFound)
        } else if quiz.owner_id@ != caller@ {
            Err(QuizError::NoAccess)
        } else if quiz.finality_type != QuizFinalityType::DelayedReveal {
            Err(QuizError::HashRevealNotSupported)
        } else if quiz.status != QuizStatus::InProgress {
            Err(QuizError::QuizNotInProgress)
        } else if unspent > u128::MAX || !fee_fits(self.service_fees_total@, quiz.token_account_id, (unspent / 10) as Balance) {
            Err(QuizError::AmountOverflow)
        } else {
            Ok(())
        }
    }

    /// The owner of a delayed-finality quiz publishes the target digest: the accounts that
    /// reached it win the available slots in order of arrival, the slots left over are
    /// refunded to the owner less the service fee, and the quiz ends.
    pub fn reveal_final_hash(&mut self, caller: &AccountId, quiz_id: QuizId, hash: String) -> (r: Result<Option<Payout>, QuizError>)
        requires
            old(self).wf(),
        ensures
            final(self).wf(),
            winners_kept_all(old(self), final(self)),
            match old(self).final_hash_check(*caller, quiz_id, hash@) {
                Err(e) => r == Err::<Option<Payout>, QuizError>(e) && *final(self) == *old(self),
                Ok(_) => {
                    let quiz = old(self).quizzes@[quiz_id as int];
                    let avail = quiz.available_rewards_ids@;
                    let winners = results_for(old(self).quiz_results@, (quiz_id, hash@));
                    let m = min_len(winners.len() as int, avail.len() as int);
                    let unspent = slots_sum(old(self).rewards@, quiz_id, avail.subrange(m, avail.len() as int)) as Balance;
                    let nq = final(self).quizzes@[quiz_id as int];
                    &&& final(self).rewards@ == awarded(old(self).rewards@, quiz_id, avail, winners)
                    &&& final(self).quizzes@.len() == old(self).quizzes@.len()
                    &&& forall|i: int| 0 <= i < old(self).quizzes@.len() && i != quiz_id ==> final(self).quizzes@[i] == old(self).quizzes@[i]
                    &&& nq == (Quiz {
                        available_rewards_ids: nq.available_rewards_ids,
                        distributed_rewards_ids: nq.distributed_rewards_ids,
                        status: QuizStatus::Finished,
                        success_hash: Some(hash),
                        ..quiz
                    })
                    &&& nq.available_rewards_ids@.len() == 0
                    &&& nq.distributed_rewards_ids@ == quiz.distributed_rewards_ids@ + avail.subrange(0, m)
                    &&& forall|x: QuizId| #[trigger] final(self).active_quizzes@.contains(x) <==> old(self).active_quizzes@.contains(x) && x != quiz_id
                    &&& if unspent > 0 {
                        &&& r matches Ok(Some(p)) && refund_payout(p, unspent, quiz.owner_id, quiz.token_account_id)
                        &&& final(self).service_fees_total@ == old(self).service_fees_total@.insert(token_key(quiz.token_account_id),
                            (fees_in(old(self).service_fees_total@, token_key(quiz.token_account_id)) + unspent / 10) as Balance)
                    } else {
                        &&& r == Ok::<Option<Payout>, QuizError>(None)
                        &&& final(self).service_fees_total == old(self).service_fees_total
                    }
                    &&& final(self).games == old(self).games
                    &&& final(self).quiz_results == old(self).quiz_results
                    &&& crate::quiz::cancel_frame_except_rewards(old(self), final(self))
                },
            },
    {
        if hash.as_str().unicode_len() != 64 {
            return Err(QuizError::IllegalHashLength);
        }
        let qi = match self.quiz_pos(quiz_id) {
            Some(i) => i,
            None => { return Err(QuizError::QuizNotFound); },
        };
        if self.quizzes[qi].owner_id != *caller {
            return Err(QuizError::NoAccess);
        }
        if self.quizzes[qi].finality_type != QuizFinalityType::DelayedReveal {
            return Err(QuizError::HashRevealNotSupported);
        }
        if self.quizzes[qi].status != QuizStatus::InProgress {
            return Err(QuizError::QuizNotInProgress);
        }
        let winners: Vec<AccountId> = match self.quiz_results.get(&QuizResultByQuiz { quiz_id, hash: hash.clone() }) {
            Some(v) => copy_accounts(v),
            None => Vec::new(),
        };
        let ghost avail = self.quizzes@[quiz_id as int].available_rewards_ids@;
        let avail_len = self.quizzes[qi].available_rewards_ids.len();
        let m: usize = if winners.len() < avail_len { winners.len() } else { avail_len };
        let mut rest: Vec<RewardId> = Vec::new();
        let mut j: usize = m;
        while j < avail_len
            invariant
                qi == quiz_id,
                quiz_id < self.quizzes@.len(),
                avail == self.quizzes@[quiz_id as int].available_rewards_ids@,
                avail_len == avail.len(),
                m <= j <= avail_len,
                rest@ == avail.subrange(m as int, j as int),
            decreases avail_len - j,
        {
            rest.push(self.quizzes[qi].available_rewards_ids[j]);
            assert(avail.subrange(m as int, j + 1) =~= avail.subrange(m as int, j as int).push(avail[j as int]));
            j = j + 1;
        }
        proof {
            assert(slots_unawarded(quiz_id, avail, self.rewards@));
            assert forall|i: int| 0 <= i < rest@.len() implies #[trigger] self.rewards@.contains_key((quiz_id, rest@[i])) by {
                assert(rest@[i] == avail[m + i]);
            }
        }
        let unspent = match sum_slots(&self.rewards, quiz_id, &rest) {
            Some(t) => t,
            None => { return Err(QuizError::AmountOverflow); },
        };
        if !can_add_service_fee(&self.service_fees_total, unspent / 10, &self.quizzes[qi].token_account_id) {
            return Err(QuizError::AmountOverflow);
        }
        let ghost pre = *self;
        let ghost wv = winners@;
        proof {
            lemma_awarded(pre.rewards@, quiz_id, avail, wv);
            assert(avail.subrange(0, avail.len() as int) =~= avail);
            assert(wv.subrange(0, wv.len() as int) =~= wv);
            assert(avail.subrange(0, 0) =~= Seq::<RewardId>::empty());
            assert(pre.quizzes@[quiz_id as int].distributed_rewards_ids@ + avail.subrange(0, 0)
                =~= pre.quizzes@[quiz_id as int].distributed_rewards_ids@);
        }
        let mut k: usize = 0;
        while k < m
            invariant
                self.rewards.wf(),
                self.games == pre.games,
                self.answers == pre.answers,
                self.players == pre.players,
                self.questions == pre.questions,
                self.question_options == pre.question_options,
                self.service_fees_total == pre.service_fees_total,
                self.quiz_results == pre.quiz_results,
                self.whitelisted_tokens == pre.whitelisted_tokens,
                self.quizzes_by_player_id == pre.quizzes_by_player_id,
                self.quizzes_by_owner_id == pre.quizzes_by_owner_id,
                self.quizzes_by_sponsor_id == pre.quizzes_by_sponsor_id,
                self.affiliates == pre.affiliates,
                self.total_affiliates == pre.total_affiliates,
                self.active_quizzes == pre.active_quizzes,
                self.next_quiz_id == pre.next_quiz_id,
                pre.wf(),
                qi == quiz_id,
                quiz_id < self.quizzes@.len(),
                self.quizzes@.len() == pre.quizzes@.len(),
                forall|i: int| 0 <= i < pre.quizzes@.len() && i != quiz_id ==> self.quizzes@[i] == pre.quizzes@[i],
                self.quizzes@[quiz_id as int] == (Quiz {
                    distributed_rewards_ids: self.quizzes@[quiz_id as int].distributed_rewards_ids,
                    ..pre.quizzes@[quiz_id as int]
                }),
                self.quizzes@[quiz_id as int].distributed_rewards_ids@
                    == pre.quizzes@[quiz_id as int].distributed_rewards_ids@ + avail.subrange(0, k as int),
                avail == pre.quizzes@[quiz_id as int].available_rewards_ids@,
                avail_len == avail.len(),
                wv == winners@,
                m as int == min_len(wv.len() as int, avail.len() as int),
                k <= m,
                self.rewards@.dom() == pre.rewards@.dom(),
                slots_unawarded(quiz_id, avail, pre.rewards@),
                awarded(self.rewards@, quiz_id, avail.subrange(k as int, avail.len() as int), wv.subrange(k as int, wv.len() as int))
                    == awarded(pre.rewards@, quiz_id, avail, wv),
            decreases m - k,
        {
            let rid = self.quizzes[qi].available_rewards_ids[k];
            let key = RewardByQuiz { quiz_id, reward_id: rid };
            proof {
                assert(pre.rewards@.contains_key((quiz_id, avail[k as int])));
            }
            let (amount, claimed) = match self.rewards.get(&key) {
                Some(r) => (r.amount, r.claimed),
                None => (0, false),
            };
            let ghost before = self.rewards@;
            self.rewards.insert(key, Reward { amount, winner_account_id: Some(winners[k].clone()), claimed });
            self.quizzes[qi].distributed_rewards_ids.push(rid);
            proof {
                let sa = avail.subrange(k as int, avail.len() as int);
                let sw = wv.subrange(k as int, wv.len() as int);
                assert(sa[0] == rid);
                assert(sw[0] == winners@[k as int]);
                assert(sa.drop_first() =~= avail.subrange(k + 1, avail.len() as int));
                assert(sw.drop_first() =~= wv.subrange(k + 1, wv.len() as int));
                assert(self.rewards@ == before.insert((quiz_id, sa[0]), (Reward { winner_account_id: Some(sw[0]), ..before[(quiz_id, sa[0])] })));
                assert(self.rewards@.dom() =~= pre.rewards@.dom());
                assert(avail.subrange(0, k + 1) =~= avail.subrange(0, k as int).push(rid));
            }
            k = k + 1;
        }
        proof {
            let sa = avail.subrange(m as int, avail.len() as int);
            let sw = wv.subrange(m as int, wv.len() as int);
            assert(sa.len() == 0 || sw.len() == 0);
        }
        self.quizzes[qi].available_rewards_ids = Vec::new();
        self.quizzes[qi].status = QuizStatus::Finished;
        self.quizzes[qi].success_hash = Some(hash);
        self.active_quizzes = remove_id(&self.active_quizzes, quiz_id);
        let ghost before_fees = *self;
        let r = if unspent > 0 {
            let owner = self.quizzes[qi].owner_id.clone();
            let token = copy_opt_string(&self.quizzes[qi].token_account_id);
            Some(withdraw_available_rewards(&mut self.service_fees_total, unspent, owner, token))
        } else {
            None
        };
        proof {
            let m_int = m as int;
            assert(rest@ == avail.subrange(m_int, avail.len() as int));
            assert forall|q: QuizId| q < self.quizzes@.len() implies
                #[trigger] slots_unawarded(q, self.quizzes@[q as int].available_rewards_ids@, self.rewards@) by {
                if q != quiz_id {
                    assert(slots_unawarded(q, pre.quizzes@[q as int].available_rewards_ids@, pre.rewards@));
                    assert(self.quizzes@[q as int] == pre.quizzes@[q as int]);
                    assert forall|r: RewardId| #[trigger] pre.rewards@.contains_key((q, r)) implies
                        self.rewards@.contains_key((q, r)) && self.rewards@[(q, r)] == pre.rewards@[(q, r)] by {
                        assert(!(exists|jj: int| 0 <= jj < m_int && (q, r) == (quiz_id, avail[jj])));
                    }
                    crate::state::lemma_slots_kept(q, pre.quizzes@[q as int].available_rewards_ids@, pre.rewards@, self.rewards@);
                }
            }
            assert forall|kk: (QuizId, RewardId)| #[trigger] self.rewards@.contains_key(kk) && self.rewards@[kk].claimed
                implies self.rewards@[kk].winner_account_id is Some by {
                assert(pre.rewards@.contains_key(kk));
                if exists|jj: int| 0 <= jj < m_int && kk == (quiz_id, avail[jj]) {
                    let jj = choose|jj: int| 0 <= jj < m_int && kk == (quiz_id, avail[jj]);
                    assert(self.rewards@[(quiz_id, avail[jj])].winner_account_id == Some(wv[jj]));
                }
            }
            assert forall|kk: (QuizId, RewardId)| #[trigger] self.rewards@.contains_key(kk) implies kk.0 < self.quizzes@.len()
                && self.quizzes@[kk.0 as int].status != QuizStatus::Funded by {
                assert(pre.rewards@.contains_key(kk));
            }
            assert forall|kk: (QuizId, RewardId)| #[trigger] pre.rewards@.contains_key(kk) && pre.rewards@[kk].winner_account_id is Some
                implies self.rewards@.contains_key(kk) && self.rewards@[kk].winner_account_id == pre.rewards@[kk].winner_account_id by {
                if exists|jj: int| 0 <= jj < m_int && kk == (quiz_id, avail[jj]) {
                    let jj = choose|jj: int| 0 <= jj < m_int && kk == (quiz_id, avail[jj]);
                    assert(pre.rewards@[(quiz_id, avail[jj])].winner_account_id is None);
                }
            }
        }
        Ok(r)
    }
}


impl QuizChain {
    pub open spec fn rehash_check(&self, quiz_id: QuizId, hash: Seq<char>) -> Result<(), QuizError> {
        let quiz = self.quizzes@[quiz_id as int];
        if hash.len() != 64 {
            Err(QuizError::IllegalHashLength)
        } else if quiz_id >= self.quizzes@.len() {
            Err(QuizError::QuizNotFound)
        } else if quiz.finality_type != QuizFinalityType::DelayedReveal {
            Err(QuizError::HashRevealNotSupported)
        } else if quiz.revealed_answers is Some {
            Err(QuizError::RevealedAnswersPresent)
        } else if quiz.status != QuizStatus::Finished {
            Err(QuizError::QuizNotFinished)
        } else {
            Ok(())
        }
    }

    /// Sets the target digest of a finished delayed-finality quiz whose key was never disclosed.
    pub fn update_hash_for_finished_quiz_without_answers(&mut self, quiz_id: QuizId, hash: String) -> (r: Result<(), QuizError>)
        requires
            old(self).wf(),
        ensures
            final(self).wf(),
            r == old(self).rehash_check(quiz_id, hash@),
            r is Err ==> *final(self) == *old(self),
            r is Ok ==> final(self).quizzes@ == old(self).quizzes@.update(quiz_id as int,
                (Quiz { success_hash: Some(hash), ..old(self).quizzes@[quiz_id as int] })),
            r is Ok ==> final(self).rewards == old(self).rewards && final(self).games == old(self).games
                && final(self).active_quizzes == old(self).active_quizzes,
    {
        if hash.as_str().unicode_len() != 64 {
            return Err(QuizError::IllegalHashLength);
        }
        let qi = match self.quiz_pos(quiz_id) {
            Some(i) => i,
            None => { return Err(QuizError::QuizNotFound); },
        };
        if self.quizzes[qi].finality_type != QuizFinalityType::DelayedReveal {
            return Err(QuizError::HashRevealNotSupported);
        }
        if self.quizzes[qi].revealed_answers.is_some() {
            return Err(QuizError::RevealedAnswersPresent);
        }
        if self.quizzes[qi].status != QuizStatus::Finished {
            return Err(QuizError::QuizNotFinished);
        }
        let ghost pre = *self;
        self.quizzes[qi].success_hash = Some(hash);
        proof {
            assert forall|q: QuizId| q < self.quizzes@.len() implies
                #[trigger] slots_unawarded(q, self.quizzes@[q as int].available_rewards_ids@, self.rewards@) by {
                assert(slots_unawarded(q, pre.quizzes@[q as int].available_rewards_ids@, pre.rewards@));
            }
            assert(self.quizzes@ =~= pre.quizzes@.update(quiz_id as int,
                Quiz { success_hash: Some(hash), ..pre.quizzes@[quiz_id as int] }));
        }
        Ok(())
    }
}

} // verus!
