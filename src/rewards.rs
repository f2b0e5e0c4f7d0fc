//! Reward escrow: claiming a won slot, and reconciling a payout that failed.
use vstd::prelude::*;
use crate::game::play_frame;
use crate::quiz::copy_opt_string;
use crate::state::{QuizChain, is_native, is_native_token, winners_kept};
use crate::types::{
    AccountId, Balance, Payout, QuizError, QuizId, Reward, RewardByQuiz, RewardId, RewardOutput, TokenAccountId,
};

verus! {

/// Whether slot `r` of quiz `q` was won by `a`.
pub open spec fn won_by(rewards: Map<(QuizId, RewardId), Reward>, q: QuizId, r: RewardId, a: Seq<char>) -> bool {
    rewards.contains_key((q, r)) && (rewards[(q, r)].winner_account_id matches Some(w) && w@ == a)
}

/// Whether slot `r` of quiz `q` was won by `a` and, when `unclaimed_only`, is not claimed yet.
pub open spec fn slot_fits(rewards: Map<(QuizId, RewardId), Reward>, q: QuizId, r: RewardId, a: Seq<char>, unclaimed_only: bool) -> bool {
    won_by(rewards, q, r, a) && (!unclaimed_only || !rewards[(q, r)].claimed)
}

/// The first slot among `ids` that `a` won (and, when `unclaimed_only`, has not claimed).
pub open spec fn first_won(
    rewards: Map<(QuizId, RewardId), Reward>,
    q: QuizId,
    ids: Seq<RewardId>,
    a: Seq<char>,
    unclaimed_only: bool,
) -> Option<RewardId>
    decreases ids.len(),
{
    if ids.len() == 0 {
        None
    } else if slot_fits(rewards, q, ids[0], a, unclaimed_only) {
        Some(ids[0])
    } else {
        first_won(rewards, q, ids.drop_first(), a, unclaimed_only)
    }
}

proof fn lemma_first_won(rewards: Map<(QuizId, RewardId), Reward>, q: QuizId, ids: Seq<RewardId>, a: Seq<char>, u: bool)
    ensures
        first_won(rewards, q, ids, a, u) matches Some(r) ==> slot_fits(rewards, q, r, a, u),
        first_won(rewards, q, ids, a, true) is Some ==> first_won(rewards, q, ids, a, false) is Some,
    decreases ids.len(),
{
    if ids.len() > 0 {
        lemma_first_won(rewards, q, ids.drop_first(), a, u);
    }
}

/// The slot a player won, and the one it may still claim, are stored rewards it won.
pub proof fn lemma_won_slot_stored(s: &QuizChain, q: QuizId, a: Seq<char>)
    ensures
        s.won_slot(q, a) matches Some(r) ==> won_by(s.rewards@, q, r, a),
        s.unclaimed_slot(q, a) matches Some(r) ==> won_by(s.rewards@, q, r, a) && !s.rewards@[(q, r)].claimed,
        s.unclaimed_slot(q, a) is Some ==> s.won_slot(q, a) is Some,
{
    if q < s.quizzes@.len() {
        lemma_first_won(s.rewards@, q, s.quizzes@[q as int].distributed_rewards_ids@, a, false);
        lemma_first_won(s.rewards@, q, s.quizzes@[q as int].distributed_rewards_ids@, a, true);
    }
}

/// How a stored reward is shown.
pub open spec fn reward_out(rewards: Map<(QuizId, RewardId), Reward>, q: QuizId, id: RewardId) -> RewardOutput {
    RewardOutput {
        id,
        amount: rewards[(q, id)].amount,
        winner_account_id: rewards[(q, id)].winner_account_id,
        claimed: rewards[(q, id)].claimed,
    }
}

/// The stored rewards among `ids`, shown in the order of `ids`.
pub open spec fn reward_outs(rewards: Map<(QuizId, RewardId), Reward>, q: QuizId, ids: Seq<RewardId>) -> Seq<RewardOutput>
    decreases ids.len(),
{
    if ids.len() == 0 {
        Seq::empty()
    } else {
        let rest = reward_outs(rewards, q, ids.drop_last());
        if rewards.contains_key((q, ids.last())) {
            rest.push(reward_out(rewards, q, ids.last()))
        } else {
            rest
        }
    }
}

impl Payout {
    /// Whether the transfer is in the native currency rather than a token.
    pub fn is_native(&self) -> (r: bool)
        ensures
            r == is_native(self.token_account_id),
    {
        is_native_token(&self.token_account_id)
    }
}

/// Describes a transfer of `amount` to `recipient_account_id`, tied to a reward slot if given.
pub fn withdraw(
    recipient_account_id: AccountId,
    amount: Balance,
    token_account_id: Option<TokenAccountId>,
    quiz_id: Option<QuizId>,
    reward_id: Option<RewardId>,
) -> (p: Payout)
    ensures
        p == (Payout { recipient: recipient_account_id, amount, token_account_id, quiz_id, reward_id }),
{
    Payout { recipient: recipient_account_id, amount, token_account_id, quiz_id, reward_id }
}

/// The parts of the state that escrow operations leave alone.
pub open spec fn escrow_frame(a: &QuizChain, b: &QuizChain) -> bool {
    &&& b.quizzes == a.quizzes
    &&& b.games == a.games
    &&& b.answers == a.answers
    &&& b.quiz_results == a.quiz_results
    &&& b.active_quizzes == a.active_quizzes
    &&& play_frame(a, b)
}

impl QuizChain {
    /// The first slot of quiz `quiz_id` that `account` won, if any.
    pub open spec fn won_slot(&self, quiz_id: QuizId, account: Seq<char>) -> Option<RewardId> {
        self.slot_of(quiz_id, account, false)
    }

    /// The first slot of quiz `quiz_id` that `account` won and has not claimed, if any.
    pub open spec fn unclaimed_slot(&self, quiz_id: QuizId, account: Seq<char>) -> Option<RewardId> {
        self.slot_of(quiz_id, account, true)
    }

    pub open spec fn slot_of(&self, quiz_id: QuizId, account: Seq<char>, unclaimed_only: bool) -> Option<RewardId> {
        if quiz_id < self.quizzes@.len() {
            first_won(self.rewards@, quiz_id, self.quizzes@[quiz_id as int].distributed_rewards_ids@, account, unclaimed_only)
        } else {
            None
        }
    }

    fn find_won_slot(&self, quiz_id: QuizId, account: &AccountId, unclaimed_only: bool) -> (r: Option<RewardId>)
        requires
            self.wf(),
        ensures
            r == self.slot_of(quiz_id, account@, unclaimed_only),
            r matches Some(rid) ==> slot_fits(self.rewards@, quiz_id, rid, account@, unclaimed_only),
    {
        proof {
            if quiz_id < self.quizzes@.len() {
                lemma_first_won(self.rewards@, quiz_id, self.quizzes@[quiz_id as int].distributed_rewards_ids@, account@, unclaimed_only);
            }
        }
        let qi = match self.quiz_pos(quiz_id) {
            Some(i) => i,
            None => { return None; },
        };
        let ghost d = self.quizzes@[quiz_id as int].distributed_rewards_ids@;
        let n = self.quizzes[qi].distributed_rewards_ids.len();
        assert(d.subrange(0, n as int) =~= d);
        let mut i: usize = 0;
        while i < n
            invariant
                self.wf(),
                qi == quiz_id,
                quiz_id < self.quizzes@.len(),
                d == self.quizzes@[quiz_id as int].distributed_rewards_ids@,
                n == d.len(),
                i <= n,
                first_won(self.rewards@, quiz_id, d.subrange(i as int, n as int), account@, unclaimed_only)
                    == first_won(self.rewards@, quiz_id, d, account@, unclaimed_only),
            decreases n - i,
        {
            let rid = self.quizzes[qi].distributed_rewards_ids[i];
            proof {
                assert(d.subrange(i as int, n as int).drop_first() =~= d.subrange(i + 1, n as int));
            }
            match self.rewards.get(&RewardByQuiz { quiz_id, reward_id: rid }) {
                Some(reward) => {
                    match &reward.winner_account_id {
                        Some(w) => {
                            if *w == *account && (!unclaimed_only || !reward.claimed) {
                                return Some(rid);
                            }
                        },
                        None => {},
                    }
                },
                None => {},
            }
            i = i + 1;
        }
        proof {
            assert(d.subrange(n as int, n as int).len() == 0);
            assert(d.subrange(0, n as int) =~= d);
        }
        None
    }

    /// The winner claims the first reward slot it won in `quiz_id` and has not claimed yet.
    /// The slot is marked claimed before the transfer is handed out, so a second claim of
    /// it is rejected meanwhile; a claim is rejected when every slot the caller won is claimed.
    pub fn claim_reward(&mut self, caller: &AccountId, quiz_id: QuizId) -> (r: Result<Option<Payout>, QuizError>)
        requires
            old(self).wf(),
        ensures
            final(self).wf(),
            winners_kept(old(self).rewards@, final(self).rewards@),
            escrow_frame(old(self), final(self)),
            match old(self).unclaimed_slot(quiz_id, caller@) {
                None => *final(self) == *old(self) && if old(self).won_slot(quiz_id, caller@) is Some {
                    r == Err::<Option<Payout>, QuizError>(QuizError::AlreadyClaimed)
                } else {
                    r == Ok::<Option<Payout>, QuizError>(None)
                },
                Some(rid) => {
                    let reward = old(self).rewards@[(quiz_id, rid)];
                    &&& final(self).rewards@ == old(self).rewards@.insert((quiz_id, rid), (Reward { claimed: true, ..reward }))
                    &&& r == Ok::<Option<Payout>, QuizError>(Some(Payout {
                        recipient: reward.winner_account_id.unwrap(),
                        amount: reward.amount,
                        token_account_id: old(self).quizzes@[quiz_id as int].token_account_id,
                        quiz_id: Some(quiz_id),
                        reward_id: Some(rid),
                    }))
                },
            },
    {
        let rid = match self.find_won_slot(quiz_id, caller, true) {
            Some(rid) => rid,
            None => {
                if self.find_won_slot(quiz_id, caller, false).is_some() {
                    return Err(QuizError::AlreadyClaimed);
                }
                return Ok(None);
            },
        };
        let key = RewardByQuiz { quiz_id, reward_id: rid };
        let (amount, winner) = match self.rewards.get(&key) {
            Some(reward) => {
                if reward.claimed {
                    return Err(QuizError::AlreadyClaimed);
                }
                (reward.amount, copy_opt_string(&reward.winner_account_id))
            },
            None => { return Ok(None); },
        };
        let winner_account_id = match &winner {
            Some(w) => w.clone(),
            None => { return Ok(None); },
        };
        let qi = match self.quiz_pos(quiz_id) {
            Some(i) => i,
            None => { return Ok(None); },
        };
        let token = copy_opt_string(&self.quizzes[qi].token_account_id);
        let ghost pre = *self;
        self.rewards.insert(key, Reward { amount, winner_account_id: winner, claimed: true });
        proof {
            assert forall|q: QuizId| q < self.quizzes@.len() implies
                #[trigger] crate::state::slots_unawarded(q, self.quizzes@[q as int].available_rewards_ids@, self.rewards@) by {
                assert(crate::state::slots_unawarded(q, pre.quizzes@[q as int].available_rewards_ids@, pre.rewards@));
                let b = self.quizzes@[q as int].available_rewards_ids@;
                assert forall|j: int| 0 <= j < b.len() implies #[trigger] self.rewards@.contains_key((q, b[j]))
                    && self.rewards@[(q, b[j])].winner_account_id is None by {
                    assert(pre.rewards@.contains_key((q, b[j])));
                }
            }
        }
        Ok(Some(withdraw(winner_account_id, amount, token, Some(quiz_id), Some(rid))))
    }

    /// The state after the outcome of a reward transfer is known: on failure the slot it
    /// paid out is unclaimed again, so its winner may claim anew; otherwise nothing changes.
    pub open spec fn reconciled(&self, next: &QuizChain, quiz_id: Option<QuizId>, reward_id: Option<RewardId>, success: bool) -> bool {
        if !success && quiz_id is Some && reward_id is Some
            && self.rewards@.contains_key((quiz_id.unwrap(), reward_id.unwrap())) {
            let k = (quiz_id.unwrap(), reward_id.unwrap());
            next.rewards@ == self.rewards@.insert(k, (Reward { claimed: false, ..self.rewards@[k] }))
        } else {
            next.rewards@ == self.rewards@
        }
    }

    fn unclaim(&mut self, quiz_id: Option<QuizId>, reward_id: Option<RewardId>, success: bool)
        requires
            old(self).wf(),
        ensures
            final(self).wf(),
            winners_kept(old(self).rewards@, final(self).rewards@),
            escrow_frame(old(self), final(self)),
            old(self).reconciled(final(self), quiz_id, reward_id, success),
    {
        if success {
            return;
        }
        let (q, rid) = match (quiz_id, reward_id) {
            (Some(q), Some(rid)) => (q, rid),
            _ => { return; },
        };
        let key = RewardByQuiz { quiz_id: q, reward_id: rid };
        let (amount, winner) = match self.rewards.get(&key) {
            Some(reward) => (reward.amount, copy_opt_string(&reward.winner_account_id)),
            None => { return; },
        };
        let ghost pre = *self;
        self.rewards.insert(key, Reward { amount, winner_account_id: winner, claimed: false });
        proof {
            assert forall|qq: QuizId| qq < self.quizzes@.len() implies
                #[trigger] crate::state::slots_unawarded(qq, self.quizzes@[qq as int].available_rewards_ids@, self.rewards@) by {
                assert(crate::state::slots_unawarded(qq, pre.quizzes@[qq as int].available_rewards_ids@, pre.rewards@));
                let b = self.quizzes@[qq as int].available_rewards_ids@;
                assert forall|j: int| 0 <= j < b.len() implies #[trigger] self.rewards@.contains_key((qq, b[j]))
                    && self.rewards@[(qq, b[j])].winner_account_id is None by {
                    assert(pre.rewards@.contains_key((qq, b[j])));
                }
            }
        }
    }

    /// The outcome of a token payout: on failure of a reward payout the slot is unclaimed
    /// again. Returns whether the transfer succeeded.
    pub fn after_ft_withdraw(
        &mut self,
        account_id: &AccountId,
        amount: Balance,
        quiz_id: Option<QuizId>,
        reward_id: Option<RewardId>,
        promise_success: bool,
    ) -> (r: bool)
        requires
            old(self).wf(),
        ensures
            final(self).wf(),
            r == promise_success,
            winners_kept(old(self).rewards@, final(self).rewards@),
            escrow_frame(old(self), final(self)),
            old(self).reconciled(final(self), quiz_id, reward_id, promise_success),
    {
        self.unclaim(quiz_id, reward_id, promise_success);
        promise_success
    }

    /// The outcome of a token transfer made for a reward slot; same reconciliation.
    pub fn after_ft_transfer_deposit(
        &mut self,
        account_id: &AccountId,
        amount: Balance,
        token_account_id: &TokenAccountId,
        quiz_id: Option<QuizId>,
        reward_id: Option<RewardId>,
        promise_success: bool,
    ) -> (r: bool)
        requires
            old(self).wf(),
        ensures
            final(self).wf(),
            r == promise_success,
            winners_kept(old(self).rewards@, final(self).rewards@),
            escrow_frame(old(self), final(self)),
            old(self).reconciled(final(self), quiz_id, reward_id, promise_success),
    {
        self.unclaim(quiz_id, reward_id, promise_success);
        promise_success
    }

    /// The slot of quiz `quiz_id` won by `account_id`, shown.
    pub fn get_user_reward_by_quiz(&self, quiz_id: QuizId, account_id: &AccountId) -> (r: Option<RewardOutput>)
        requires
            self.wf(),
        ensures
            match self.won_slot(quiz_id, account_id@) {
                None => r is None,
                Some(rid) => r == Some(reward_out(self.rewards@, quiz_id, rid)),
            },
    {
        match self.find_won_slot(quiz_id, account_id, false) {
            Some(rid) => {
                match self.rewards.get(&RewardByQuiz { quiz_id, reward_id: rid }) {
                    Some(reward) => Some(RewardOutput {
                        id: rid,
                        amount: reward.amount,
                        winner_account_id: copy_opt_string(&reward.winner_account_id),
                        claimed: reward.claimed,
                    }),
                    None => None,
                }
            },
            None => None,
        }
    }

    fn rewards_of(&self, quiz_id: QuizId, ids: &Vec<RewardId>) -> (r: Vec<RewardOutput>)
        requires
            self.wf(),
        ensures
            r@ == reward_outs(self.rewards@, quiz_id, ids@),
    {
        let mut out: Vec<RewardOutput> = Vec::new();
        let mut i: usize = 0;
        while i < ids.len()
            invariant
                self.wf(),
                i <= ids@.len(),
                out@ == reward_outs(self.rewards@, quiz_id, ids@.subrange(0, i as int)),
            decreases ids@.len() - i,
        {
            proof {
                assert(ids@.subrange(0, i + 1).drop_last() =~= ids@.subrange(0, i as int));
            }
            match self.rewards.get(&RewardByQuiz { quiz_id, reward_id: ids[i] }) {
                Some(reward) => {
                    out.push(RewardOutput {
                        id: ids[i],
                        amount: reward.amount,
                        winner_account_id: copy_opt_string(&reward.winner_account_id),
                        claimed: reward.claimed,
                    });
                },
                None => {},
            }
            i = i + 1;
        }
        assert(ids@.subrange(0, ids@.len() as int) =~= ids@);
        out
    }

    /// The still-available reward slots of `quiz_id`.
    pub fn get_unclaimed_rewards_by_quiz(&self, quiz_id: QuizId) -> (r: Vec<RewardOutput>)
        requires
            self.wf(),
        ensures
            quiz_id < self.quizzes@.len() ==> r@ == reward_outs(self.rewards@, quiz_id, self.quizzes@[quiz_id as int].available_rewards_ids@),
            quiz_id >= self.quizzes@.len() ==> r@.len() == 0,
    {
        match self.quiz_pos(quiz_id) {
            Some(qi) => self.rewards_of(quiz_id, &self.quizzes[qi].available_rewards_ids),
            None => Vec::new(),
        }
    }

    /// The reward slots of `quiz_id` that went to winners.
    pub fn get_distributed_rewards_by_quiz(&self, quiz_id: QuizId) -> (r: Vec<RewardOutput>)
        requires
            self.wf(),
        ensures
            quiz_id < self.quizzes@.len() ==> r@ == reward_outs(self.rewards@, quiz_id, self.quizzes@[quiz_id as int].distributed_rewards_ids@),
            quiz_id >= self.quizzes@.len() ==> r@.len() == 0,
    {
        match self.quiz_pos(quiz_id) {
            Some(qi) => self.rewards_of(quiz_id, &self.quizzes[qi].distributed_rewards_ids),
            None => Vec::new(),
        }
    }
}

} // verus!
