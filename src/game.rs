//! Playing a quiz: starting a game, answering in order, and finishing it.
use vstd::prelude::*;
use vstd::string::StringExecFns;
use crate::digest::{chain_start, start_hash, fold, fold_spec, joined_lower, lower_of, lowercase, sort_ids, sorted_ids};
use crate::state::{QuizChain, add_quiz_for_account, count_in, ids_for, remove_id, slots_unawarded, winners_kept, with_id};
use crate::types::{
    AccountId, Answer, AnswerByQuizByQuestionByUser, Game, QuestionByQuiz, QuestionId, QuestionKind,
    QuestionOption, QuestionOptionByQuiz, QuestionOptionId, Quiz, QuizByUser, QuizError, QuizFinalityType,
    QuizId, QuizResultByQuiz, QuizStatus, Reward, RewardByQuiz, Timestamp,
};

verus! {

/// The contents of the options `ids` of one question, in the order of `ids`.
pub open spec fn option_contents(
    opts: Map<(QuizId, QuestionId, QuestionOptionId), QuestionOption>,
    q: QuizId,
    qid: QuestionId,
    ids: Seq<QuestionOptionId>,
) -> Seq<Seq<char>> {
    ids.map_values(|id: QuestionOptionId| opts[(q, qid, id)].content@)
}

pub open spec fn options_exist(
    opts: Map<(QuizId, QuestionId, QuestionOptionId), QuestionOption>,
    q: QuizId,
    qid: QuestionId,
    ids: Seq<QuestionOptionId>,
) -> bool {
    forall|i: int| 0 <= i < ids.len() ==> #[trigger] opts.contains_key((q, qid, ids[i]))
}

/// The canonical text of an answer to a question of `kind`: free text lower-cased;
/// for a choice, the lower-cased contents of the selected options in ascending id order.
/// A choice with no option selected, or free text that is missing, is rejected.
pub open spec fn canonical_text(
    opts: Map<(QuizId, QuestionId, QuestionOptionId), QuestionOption>,
    q: QuizId,
    qid: QuestionId,
    kind: QuestionKind,
    ids: Option<Vec<QuestionOptionId>>,
    text: Option<String>,
) -> Result<Seq<char>, QuizError> {
    if kind == QuestionKind::Text {
        match text {
            Some(t) => Ok(lower_of(t@)),
            None => Err(QuizError::AnswerTextMissing),
        }
    } else {
        match ids {
            None => Err(QuizError::AnswerOptionsMissing),
            Some(v) => if v@.len() == 0 {
                Err(QuizError::AnswerOptionsMissing)
            } else if options_exist(opts, q, qid, sorted_ids(v@)) {
                Ok(joined_lower(option_contents(opts, q, qid, sorted_ids(v@))))
            } else {
                Err(QuizError::QuestionOptionNotFound)
            },
        }
    }
}

/// The accounts recorded under a final digest (empty when none).
pub open spec fn results_for(results: Map<(QuizId, Seq<char>), Vec<AccountId>>, k: (QuizId, Seq<char>)) -> Seq<AccountId> {
    if results.contains_key(k) {
        results[k]@
    } else {
        Seq::empty()
    }
}

/// `b` is `a` with new reward lists and status.
pub open spec fn quiz_lists_changed(a: Quiz, b: Quiz) -> bool {
    b == Quiz {
        available_rewards_ids: b.available_rewards_ids,
        distributed_rewards_ids: b.distributed_rewards_ids,
        status: b.status,
        ..a
    }
}

impl QuizChain {
    /// What answering `question_id` of `quiz_id` as `caller` yields: the canonical
    /// text that is folded in, or the reason for rejection.
    pub open spec fn send_answer_check(
        &self,
        caller: AccountId,
        quiz_id: QuizId,
        question_id: QuestionId,
        ids: Option<Vec<QuestionOptionId>>,
        text: Option<String>,
    ) -> Result<Seq<char>, QuizError> {
        let key = (quiz_id, caller@);
        if !self.games@.contains_key(key) {
            Err(QuizError::GameNotStarted)
        } else if question_id != self.games@[key].answers_quantity {
            Err(QuizError::WrongAnswerIndex)
        } else if quiz_id >= self.quizzes@.len() {
            Err(QuizError::QuizNotFound)
        } else if !(self.quizzes@[quiz_id as int].status == QuizStatus::InProgress
            || self.quizzes@[quiz_id as int].status == QuizStatus::Finished) {
            Err(QuizError::QuizNotActive)
        } else if question_id >= self.quizzes@[quiz_id as int].total_questions
            || !self.questions@.contains_key((quiz_id, question_id)) {
            Err(QuizError::QuestionNotFound)
        } else {
            let kind = self.questions@[(quiz_id, question_id)].kind;
            match canonical_text(self.question_options@, quiz_id, question_id, kind, ids, text) {
                Err(e) => Err(e),
                Ok(a) => if self.finishes(quiz_id, question_id)
                    && self.quizzes@[quiz_id as int].finality_type == QuizFinalityType::Direct
                    && self.quizzes@[quiz_id as int].success_hash is None {
                    Err(QuizError::SuccessHashMissing)
                } else {
                    Ok(a)
                },
            }
        }
    }

    /// Whether answering `question_id` completes a game of a quiz in progress.
    pub open spec fn finishes(&self, quiz_id: QuizId, question_id: QuestionId) -> bool {
        &&& self.quizzes@[quiz_id as int].status == QuizStatus::InProgress
        &&& question_id + 1 == self.quizzes@[quiz_id as int].total_questions
    }

    /// The direct-finality outcome of a game that ended on digest `h`: on a match with the
    /// target, the first available slot goes to `caller`; on a mismatch nothing changes.
    pub open spec fn finalized(&self, next: &QuizChain, quiz_id: QuizId, caller: AccountId, h: Seq<char>) -> bool {
        let quiz = self.quizzes@[quiz_id as int];
        let avail = quiz.available_rewards_ids@;
        if h == quiz.success_hash.unwrap()@ && avail.len() > 0 {
            let rid = avail[0];
            let old_reward = self.rewards@[(quiz_id, rid)];
            let nq = next.quizzes@[quiz_id as int];
            &&& next.rewards@ == self.rewards@.insert(
                (quiz_id, rid),
                Reward { winner_account_id: Some(caller), ..old_reward },
            )
            &&& next.quizzes@.len() == self.quizzes@.len()
            &&& forall|i: int| 0 <= i < self.quizzes@.len() && i != quiz_id ==> next.quizzes@[i] == self.quizzes@[i]
            &&& quiz_lists_changed(quiz, nq)
            &&& nq.available_rewards_ids@ == avail.drop_first()
            &&& nq.distributed_rewards_ids@ == quiz.distributed_rewards_ids@.push(rid)
            &&& nq.status == (if avail.len() == 1 { QuizStatus::Finished } else { quiz.status })
            &&& forall|x: QuizId| #[trigger] next.active_quizzes@.contains(x) <==>
                    self.active_quizzes@.contains(x) && (avail.len() > 1 || x != quiz_id)
        } else {
            &&& next.rewards@ == self.rewards@
            &&& next.quizzes@ == self.quizzes@
            &&& next.active_quizzes@ == self.active_quizzes@
        }
    }

    /// Awards the first available slot of a direct-finality quiz when `game` ends on its target digest.
    pub fn finalize_game(&mut self, caller: &AccountId, game: &Game, quiz_id: QuizId)
        requires
            old(self).wf(),
            quiz_id < old(self).quizzes@.len(),
            old(self).quizzes@[quiz_id as int].success_hash is Some,
        ensures
            final(self).wf(),
            old(self).finalized(final(self), quiz_id, *caller, game.current_hash@),
            winners_kept(old(self).rewards@, final(self).rewards@),
            final(self).games == old(self).games,
            final(self).answers == old(self).answers,
            final(self).quiz_results == old(self).quiz_results,
            play_frame(old(self), final(self)),
    {
        let qi = match self.quiz_pos(quiz_id) {
            Some(i) => i,
            None => { return; },
        };
        let matched = match &self.quizzes[qi].success_hash {
            Some(h) => game.current_hash == *h,
            None => false,
        };
        if !matched || self.quizzes[qi].available_rewards_ids.len() == 0 {
            return;
        }
        let ghost pre = *self;
        let rid = self.quizzes[qi].available_rewards_ids[0];
        let key = RewardByQuiz { quiz_id, reward_id: rid };
        proof {
            assert(slots_unawarded(quiz_id, pre.quizzes@[quiz_id as int].available_rewards_ids@, pre.rewards@));
            assert(pre.rewards@.contains_key((quiz_id, pre.quizzes@[quiz_id as int].available_rewards_ids@[0])));
        }
        let (amount, claimed) = match self.rewards.get(&key) {
            Some(r) => (r.amount, r.claimed),
            None => (0, false),
        };
        self.rewards.insert(key, Reward { amount, winner_account_id: Some(caller.clone()), claimed });
        let avail_len = self.quizzes[qi].available_rewards_ids.len();
        let mut rest: Vec<u16> = Vec::new();
        let mut i: usize = 1;
        while i < avail_len
            invariant
                1 <= i <= avail_len,
                avail_len == self.quizzes@[quiz_id as int].available_rewards_ids@.len(),
                qi == quiz_id,
                quiz_id < self.quizzes@.len(),
                self.quizzes == pre.quizzes,
                rest@ == pre.quizzes@[quiz_id as int].available_rewards_ids@.subrange(1, i as int),
            decreases avail_len - i,
        {
            rest.push(self.quizzes[qi].available_rewards_ids[i]);
            proof {
                let a = pre.quizzes@[quiz_id as int].available_rewards_ids@;
                assert(a.subrange(1, i + 1) =~= a.subrange(1, i as int).push(a[i as int]));
            }
            i = i + 1;
        }
        let last = rest.len() == 0;
        self.quizzes[qi].available_rewards_ids = rest;
        self.quizzes[qi].distributed_rewards_ids.push(rid);
        if last {
            self.quizzes[qi].status = QuizStatus::Finished;
            self.active_quizzes = remove_id(&self.active_quizzes, quiz_id);
        }
        proof {
            let a = pre.quizzes@[quiz_id as int].available_rewards_ids@;
            assert(a.subrange(1, a.len() as int) =~= a.drop_first());
            assert(self.quizzes@[quiz_id as int].available_rewards_ids@ == a.drop_first());
            assert(slots_unawarded(quiz_id, a, pre.rewards@));
            assert forall|q: QuizId| q < self.quizzes@.len() implies
                #[trigger] slots_unawarded(q, self.quizzes@[q as int].available_rewards_ids@, self.rewards@) by {
                assert(slots_unawarded(q, pre.quizzes@[q as int].available_rewards_ids@, pre.rewards@));
                if q == quiz_id {
                    let d = a.drop_first();
                    assert(self.quizzes@[q as int].available_rewards_ids@ == d);
                    assert forall|x: int, y: int| 0 <= x < d.len() && 0 <= y < d.len() && x != y implies d[x] != d[y] by {
                        assert(d[x] == a[x + 1] && d[y] == a[y + 1]);
                    }
                    assert(d.no_duplicates());
                    assert forall|j: int| 0 <= j < d.len() implies #[trigger] self.rewards@.contains_key((q, d[j]))
                        && self.rewards@[(q, d[j])].winner_account_id is None by {
                        assert(d[j] == a[j + 1]);
                        assert(a[j + 1] != a[0]);
                        assert(pre.rewards@.contains_key((q, a[j + 1])));
                        assert((q, d[j]) != (quiz_id, rid));
                    }
                    assert(slots_unawarded(q, d, self.rewards@));
                } else {
                    let b = self.quizzes@[q as int].available_rewards_ids@;
                    assert(self.quizzes@[q as int] == pre.quizzes@[q as int]);
                    assert(b.no_duplicates());
                    assert forall|j: int| 0 <= j < b.len() implies #[trigger] self.rewards@.contains_key((q, b[j]))
                        && self.rewards@[(q, b[j])].winner_account_id is None by {
                        assert(pre.rewards@.contains_key((q, b[j])));
                    }
                    assert(slots_unawarded(q, b, self.rewards@));
                }
            }
            assert(self.rewards@ == pre.rewards@.insert((quiz_id, rid),
                Reward { winner_account_id: Some(*caller), ..pre.rewards@[(quiz_id, rid)] }));
        }
    }
}


/// The canonical text of an answer, and the selected ids in ascending order for a choice.
pub fn canonical_answer(
    opts: &crate::table::Table<QuestionOptionByQuiz, QuestionOption>,
    quiz_id: QuizId,
    question_id: QuestionId,
    kind: QuestionKind,
    ids: &Option<Vec<QuestionOptionId>>,
    text: &Option<String>,
) -> (r: Result<(String, Option<Vec<QuestionOptionId>>), QuizError>)
    requires
        opts.wf(),
    ensures
        match canonical_text(opts@, quiz_id, question_id, kind, *ids, *text) {
            Err(e) => r == Err::<(String, Option<Vec<QuestionOptionId>>), QuizError>(e),
            Ok(a) => match r {
                Ok(p) => p.0@ == a && (kind == QuestionKind::Text ==> p.1 is None)
                    && (kind != QuestionKind::Text ==> (p.1 matches Some(v) && v@ == sorted_ids(ids.unwrap()@))),
                Err(_) => false,
            },
        },
{
    if kind == QuestionKind::Text {
        match text {
            Some(t) => Ok((lowercase(t), None)),
            None => Err(QuizError::AnswerTextMissing),
        }
    } else {
        match ids {
            None => Err(QuizError::AnswerOptionsMissing),
            Some(v) => {
                if v.len() == 0 {
                    return Err(QuizError::AnswerOptionsMissing);
                }
                let sorted = sort_ids(v);
                let ghost s = sorted@;
                let mut acc = String::new();
                let mut i: usize = 0;
                while i < sorted.len()
                    invariant
                        opts.wf(),
                        s == sorted@,
                        ids is Some,
                        ids.unwrap()@.len() > 0,
                        kind != QuestionKind::Text,
                        s == sorted_ids(ids.unwrap()@),
                        i <= s.len(),
                        options_exist(opts@, quiz_id, question_id, s.subrange(0, i as int)),
                        acc@ == joined_lower(option_contents(opts@, quiz_id, question_id, s.subrange(0, i as int))),
                    decreases s.len() - i,
                {
                    let key = QuestionOptionByQuiz { quiz_id, question_id, question_option_id: sorted[i] };
                    match opts.get(&key) {
                        Some(o) => {
                            let low = lowercase(&o.content);
                            acc.append(low.as_str());
                            proof {
                                let c0 = option_contents(opts@, quiz_id, question_id, s.subrange(0, i as int));
                                let c1 = option_contents(opts@, quiz_id, question_id, s.subrange(0, i + 1));
                                assert(c1.drop_last() =~= c0);
                                assert(c1.last() == o.content@);
                                assert forall|j: int| 0 <= j < i + 1 implies
                                    #[trigger] opts@.contains_key((quiz_id, question_id, s.subrange(0, i + 1)[j])) by {
                                    if j < i {
                                        assert(s.subrange(0, i + 1)[j] == s.subrange(0, i as int)[j]);
                                    }
                                }
                            }
                        },
                        None => {
                            proof {
                                assert(!opts@.contains_key((quiz_id, question_id, s[i as int])));
                                assert(s == sorted_ids(ids.unwrap()@));
                                assert(!options_exist(opts@, quiz_id, question_id, s));
                            }
                            return Err(QuizError::QuestionOptionNotFound);
                        },
                    }
                    i = i + 1;
                }
                proof {
                    assert(s.subrange(0, s.len() as int) =~= s);
                }
                Ok((acc, Some(sorted)))
            },
        }
    }
}


/// A copy of a list of accounts.
pub fn copy_accounts(v: &Vec<AccountId>) -> (r: Vec<AccountId>)
    ensures
        r@ == v@,
{
    let mut r: Vec<AccountId> = Vec::new();
    let mut i: usize = 0;
    while i < v.len()
        invariant
            i <= v@.len(),
            r@ == v@.subrange(0, i as int),
        decreases v@.len() - i,
    {
        r.push(v[i].clone());
        assert(v@.subrange(0, i + 1) =~= v@.subrange(0, i as int).push(v@[i as int]));
        i = i + 1;
    }
    assert(v@.subrange(0, v@.len() as int) =~= v@);
    r
}

/// The parts of the state that playing a game leaves alone.
pub open spec fn play_frame(a: &QuizChain, b: &QuizChain) -> bool {
    &&& b.questions == a.questions
    &&& b.question_options == a.question_options
    &&& b.players == a.players
    &&& b.next_quiz_id == a.next_quiz_id
    &&& b.service_fees_total == a.service_fees_total
    &&& b.whitelisted_tokens == a.whitelisted_tokens
    &&& b.quizzes_by_player_id == a.quizzes_by_player_id
    &&& b.quizzes_by_owner_id == a.quizzes_by_owner_id
    &&& b.quizzes_by_sponsor_id == a.quizzes_by_sponsor_id
    &&& b.affiliates == a.affiliates
    &&& b.total_affiliates == a.total_affiliates
}

impl QuizChain {
    /// Records that `caller` ended a delayed-finality game of `quiz_id` on digest `hash`.
    pub fn stop_game(&mut self, caller: &AccountId, hash: String, quiz_id: QuizId)
        requires
            old(self).wf(),
        ensures
            final(self).wf(),
            final(self).quiz_results@ == old(self).quiz_results@.insert((quiz_id, hash@), final(self).quiz_results@[(quiz_id, hash@)]),
            final(self).quiz_results@[(quiz_id, hash@)]@ == results_for(old(self).quiz_results@, (quiz_id, hash@)).push(*caller),
            final(self).quizzes == old(self).quizzes,
            final(self).rewards == old(self).rewards,
            final(self).games == old(self).games,
            final(self).answers == old(self).answers,
            final(self).active_quizzes == old(self).active_quizzes,
            play_frame(old(self), final(self)),
    {
        let index = QuizResultByQuiz { quiz_id, hash };
        let mut accounts: Vec<AccountId> = match self.quiz_results.get(&index) {
            Some(v) => copy_accounts(v),
            None => Vec::new(),
        };
        accounts.push(caller.clone());
        self.quiz_results.insert(index, accounts);
    }

    /// The state after `caller` answered `question_id` with canonical text `a`.
    pub open spec fn answered(
        &self,
        next: &QuizChain,
        caller: AccountId,
        now: Timestamp,
        quiz_id: QuizId,
        question_id: QuestionId,
        ids: Option<Vec<QuestionOptionId>>,
        a: Seq<char>,
    ) -> bool {
        let key = (quiz_id, caller@);
        let g = self.games@[key];
        let h = fold_spec(g.current_hash@, a);
        let kind = self.questions@[(quiz_id, question_id)].kind;
        let akey = (quiz_id, question_id, caller@);
        let ans = next.answers@[akey];
        let quiz = self.quizzes@[quiz_id as int];
        &&& next.games@.contains_key(key)
        &&& next.games@[key].answers_quantity == g.answers_quantity + 1
        &&& next.games@[key].current_hash@ == h
        &&& next.games@.remove(key) == self.games@.remove(key)
        &&& next.answers@.contains_key(akey)
        &&& next.answers@.remove(akey) == self.answers@.remove(akey)
        &&& ans.timestamp == now
        &&& kind == QuestionKind::Text ==> ans.selected_option_ids is None
            && (ans.selected_text matches Some(t) && t@ == a)
        &&& kind != QuestionKind::Text ==> ans.selected_text is None
            && (ans.selected_option_ids matches Some(v) && v@ == sorted_ids(ids.unwrap()@))
        &&& if !self.finishes(quiz_id, question_id) {
            &&& next.rewards@ == self.rewards@
            &&& next.quizzes@ == self.quizzes@
            &&& next.active_quizzes@ == self.active_quizzes@
            &&& next.quiz_results@ == self.quiz_results@
        } else if quiz.finality_type == QuizFinalityType::Direct {
            &&& self.finalized(next, quiz_id, caller, h)
            &&& next.quiz_results@ == self.quiz_results@
        } else {
            &&& next.quiz_results@ == self.quiz_results@.insert((quiz_id, h), next.quiz_results@[(quiz_id, h)])
            &&& next.quiz_results@[(quiz_id, h)]@ == results_for(self.quiz_results@, (quiz_id, h)).push(caller)
            &&& next.rewards@ == self.rewards@
            &&& next.quizzes@ == self.quizzes@
            &&& next.active_quizzes@ == self.active_quizzes@
        }
    }

    /// Submits the answer to question `question_id` of `caller`'s game, folds it into the
    /// game's digest, and on the last answer settles the game by the quiz's finality.
    pub fn send_answer(
        &mut self,
        caller: &AccountId,
        now: Timestamp,
        quiz_id: QuizId,
        question_id: QuestionId,
        question_option_ids: Option<Vec<QuestionOptionId>>,
        question_option_text: Option<String>,
    ) -> (r: Result<(), QuizError>)
        requires
            old(self).wf(),
        ensures
            final(self).wf(),
            winners_kept(old(self).rewards@, final(self).rewards@),
            match old(self).send_answer_check(*caller, quiz_id, question_id, question_option_ids, question_option_text) {
                Err(e) => r == Err::<(), QuizError>(e) && *final(self) == *old(self),
                Ok(a) => r is Ok && play_frame(old(self), final(self))
                    && old(self).answered(final(self), *caller, now, quiz_id, question_id, question_option_ids, a),
            },
    {
        let game_id = QuizByUser { quiz_id, account_id: caller.clone() };
        let (answers_quantity, current_hash) = match self.games.get(&game_id) {
            Some(g) => (g.answers_quantity, g.current_hash.clone()),
            None => { return Err(QuizError::GameNotStarted); },
        };
        if question_id != answers_quantity {
            return Err(QuizError::WrongAnswerIndex);
        }
        let qi = match self.quiz_pos(quiz_id) {
            Some(i) => i,
            None => { return Err(QuizError::QuizNotFound); },
        };
        let status = self.quizzes[qi].status;
        if !(status == QuizStatus::InProgress || status == QuizStatus::Finished) {
            return Err(QuizError::QuizNotActive);
        }
        if question_id >= self.quizzes[qi].total_questions {
            return Err(QuizError::QuestionNotFound);
        }
        let kind = match self.questions.get(&QuestionByQuiz { quiz_id, question_id }) {
            Some(q) => q.kind,
            None => { return Err(QuizError::QuestionNotFound); },
        };
        let (answer_to_hash, sorted_ids_opt) = match canonical_answer(
            &self.question_options, quiz_id, question_id, kind, &question_option_ids, &question_option_text,
        ) {
            Ok(p) => p,
            Err(e) => { return Err(e); },
        };
        let finishing = status == QuizStatus::InProgress && question_id + 1 == self.quizzes[qi].total_questions;
        let direct = self.quizzes[qi].finality_type == QuizFinalityType::Direct;
        if finishing && direct && self.quizzes[qi].success_hash.is_none() {
            return Err(QuizError::SuccessHashMissing);
        }
        let ghost pre = *self;
        let new_hash = fold(&current_hash, &answer_to_hash);
        let answer = if kind == QuestionKind::Text {
            Answer { selected_option_ids: None, selected_text: Some(answer_to_hash), timestamp: now }
        } else {
            Answer { selected_option_ids: sorted_ids_opt, selected_text: None, timestamp: now }
        };
        let ghost akey = (quiz_id, question_id, caller@);
        self.answers.insert(
            AnswerByQuizByQuestionByUser { quiz_id, question_id, account_id: caller.clone() },
            answer,
        );
        let game = Game { answers_quantity: answers_quantity + 1, current_hash: new_hash };
        let ghost gkey = (quiz_id, caller@);
        proof {
            assert(self.answers@.remove(akey) =~= pre.answers@.remove(akey));
        }
        if finishing {
            if direct {
                self.finalize_game(caller, &game, quiz_id);
            } else {
                self.stop_game(caller, game.current_hash.clone(), quiz_id);
            }
        }
        self.games.insert(game_id, game);
        proof {
            assert(self.games@.remove(gkey) =~= pre.games@.remove(gkey));
        }
        Ok(())
    }
}


pub open spec fn is_separator(c: char) -> bool {
    c == '-' || c == '_' || c == '.'
}

pub open spec fn is_account_char(c: char) -> bool {
    ('a' <= c && c <= 'z') || ('0' <= c && c <= '9') || is_separator(c)
}

/// Whether `account` is a well-formed account name of the ledger: 2 to 64 characters among
/// `a-z`, `0-9`, `-`, `_`, `.`, with no separator first, last, or next to another.
pub open spec fn valid_account_id(account: Seq<char>) -> bool {
    &&& 2 <= account.len() <= 64
    &&& forall|i: int| 0 <= i < account.len() ==> #[trigger] is_account_char(account[i])
    &&& !is_separator(account[0])
    &&& !is_separator(account.last())
    &&& forall|i: int| 0 <= i < account.len() - 1 ==> !(#[trigger] is_separator(account[i]) && is_separator(account[i + 1]))
}

#[verifier::external_body]
fn is_valid_account_id(account: &AccountId) -> (r: bool)
    ensures
        r == valid_account_id(account@),
{
    near_sdk::env::is_valid_account_id(account.as_bytes())
}

pub open spec fn has_account(list: Seq<AccountId>, a: Seq<char>) -> bool {
    exists|i: int| 0 <= i < list.len() && list[i]@ == a
}

/// `list` with `a` added at the end unless already present.
pub open spec fn with_account(list: Seq<AccountId>, a: AccountId) -> Seq<AccountId> {
    if has_account(list, a@) {
        list
    } else {
        list.push(a)
    }
}

pub open spec fn players_of(players: Map<QuizId, Vec<AccountId>>, q: QuizId) -> Seq<AccountId> {
    if players.contains_key(q) {
        players[q]@
    } else {
        Seq::empty()
    }
}

pub open spec fn bumped(n: u64) -> u64 {
    if n == u64::MAX {
        n
    } else {
        (n + 1) as u64
    }
}

pub fn add_account(list: &Vec<AccountId>, a: &AccountId) -> (r: Vec<AccountId>)
    ensures
        r@ == with_account(list@, *a),
{
    let mut r = copy_accounts(list);
    let mut i: usize = 0;
    while i < list.len()
        invariant
            i <= list@.len(),
            r@ == list@,
            forall|j: int| 0 <= j < i ==> list@[j]@ != a@,
        decreases list@.len() - i,
    {
        if list[i] == *a {
            return r;
        }
        i = i + 1;
    }
    r.push(a.clone());
    r
}

/// The parts of the state that starting a game leaves alone.
pub open spec fn start_frame(a: &QuizChain, b: &QuizChain) -> bool {
    &&& b.quizzes == a.quizzes
    &&& b.rewards == a.rewards
    &&& b.answers == a.answers
    &&& b.quiz_results == a.quiz_results
    &&& b.active_quizzes == a.active_quizzes
    &&& b.questions == a.questions
    &&& b.question_options == a.question_options
    &&& b.next_quiz_id == a.next_quiz_id
    &&& b.service_fees_total == a.service_fees_total
    &&& b.whitelisted_tokens == a.whitelisted_tokens
    &&& b.quizzes_by_owner_id == a.quizzes_by_owner_id
    &&& b.quizzes_by_sponsor_id == a.quizzes_by_sponsor_id
}

impl QuizChain {
    /// Counts one more referral by `referrer_id` for quiz `quiz_id` and in total (saturating).
    pub fn internal_increase_referrer_stats(&mut self, quiz_id: QuizId, referrer_id: &AccountId)
        requires
            old(self).wf(),
        ensures
            final(self).wf(),
            final(self).affiliates@ == old(self).affiliates@.insert(
                (quiz_id, referrer_id@), bumped(count_in_quiz(old(self).affiliates@, quiz_id, referrer_id@))),
            final(self).total_affiliates@ == old(self).total_affiliates@.insert(
                referrer_id@, bumped(count_in(old(self).total_affiliates@, referrer_id@))),
            final(self).games == old(self).games,
            final(self).players == old(self).players,
            final(self).quizzes_by_player_id == old(self).quizzes_by_player_id,
            start_frame(old(self), final(self)),
    {
        let key = QuizByUser { quiz_id, account_id: referrer_id.clone() };
        let n: u64 = match self.affiliates.get(&key) {
            Some(v) => *v,
            None => 0,
        };
        self.affiliates.insert(key, n.saturating_add(1));
        let t: u64 = match self.total_affiliates.get(referrer_id) {
            Some(v) => *v,
            None => 0,
        };
        self.total_affiliates.insert(referrer_id.clone(), t.saturating_add(1));
    }

    pub open spec fn start_check(&self, caller: AccountId, quiz_id: QuizId) -> Result<(), QuizError> {
        if quiz_id >= self.quizzes@.len() {
            Err(QuizError::QuizNotFound)
        } else if !(self.quizzes@[quiz_id as int].status == QuizStatus::InProgress
            || self.quizzes@[quiz_id as int].status == QuizStatus::Finished) {
            Err(QuizError::QuizNotActive)
        } else if self.games@.contains_key((quiz_id, caller@)) {
            Err(QuizError::GameAlreadyInProgress)
        } else if self.quizzes@[quiz_id as int].secret is None {
            Err(QuizError::SecretMissing)
        } else {
            Ok(())
        }
    }

    /// Whether a start of `quiz_id` by `caller` credits `referrer_id`.
    pub open spec fn credits_referrer(caller: AccountId, referrer_id: Option<AccountId>) -> bool {
        referrer_id matches Some(r) && r@ != caller@ && valid_account_id(r@)
    }

    /// Starts `caller`'s game of `quiz_id` from the chain's first link, built from the
    /// quiz's secret; records the player and credits a referrer other than the player.
    pub fn start_game(&mut self, caller: &AccountId, quiz_id: QuizId, referrer_id: Option<AccountId>) -> (r: Result<(), QuizError>)
        requires
            old(self).wf(),
        ensures
            final(self).wf(),
            r == old(self).start_check(*caller, quiz_id),
            r is Err ==> *final(self) == *old(self),
            r is Ok ==> {
                let key = (quiz_id, caller@);
                &&& final(self).games@ == old(self).games@.insert(key, final(self).games@[key])
                &&& final(self).games@[key].answers_quantity == 0
                &&& final(self).games@[key].current_hash@ == chain_start(old(self).quizzes@[quiz_id as int].secret.unwrap()@)
                &&& final(self).players@ == old(self).players@.insert(quiz_id, final(self).players@[quiz_id])
                &&& final(self).players@[quiz_id]@ == with_account(players_of(old(self).players@, quiz_id), *caller)
                &&& ids_for(final(self).quizzes_by_player_id@, caller@) == with_id(ids_for(old(self).quizzes_by_player_id@, caller@), quiz_id)
                &&& forall|a: Seq<char>| a != caller@ ==> #[trigger] ids_for(final(self).quizzes_by_player_id@, a) == ids_for(old(self).quizzes_by_player_id@, a)
                &&& if Self::credits_referrer(*caller, referrer_id) {
                    let rv = referrer_id.unwrap()@;
                    &&& final(self).affiliates@ == old(self).affiliates@.insert((quiz_id, rv), bumped(count_in_quiz(old(self).affiliates@, quiz_id, rv)))
                    &&& final(self).total_affiliates@ == old(self).total_affiliates@.insert(rv, bumped(count_in(old(self).total_affiliates@, rv)))
                } else {
                    &&& final(self).affiliates == old(self).affiliates
                    &&& final(self).total_affiliates == old(self).total_affiliates
                }
                &&& start_frame(old(self), final(self))
            },
    {
        let qi = match self.quiz_pos(quiz_id) {
            Some(i) => i,
            None => { return Err(QuizError::QuizNotFound); },
        };
        let status = self.quizzes[qi].status;
        if !(status == QuizStatus::InProgress || status == QuizStatus::Finished) {
            return Err(QuizError::QuizNotActive);
        }
        let game_id = QuizByUser { quiz_id, account_id: caller.clone() };
        if self.games.get(&game_id).is_some() {
            return Err(QuizError::GameAlreadyInProgress);
        }
        let current_hash = match &self.quizzes[qi].secret {
            Some(secret) => start_hash(secret),
            None => { return Err(QuizError::SecretMissing); },
        };
        let players = match self.players.get(&quiz_id) {
            Some(list) => add_account(list, caller),
            None => add_account(&Vec::new(), caller),
        };
        self.players.insert(quiz_id, players);
        add_quiz_for_account(&mut self.quizzes_by_player_id, quiz_id, caller.clone());
        match &referrer_id {
            Some(referrer) => {
                if *referrer != *caller && is_valid_account_id(referrer) {
                    self.internal_increase_referrer_stats(quiz_id, referrer);
                }
            },
            None => {},
        }
        self.games.insert(game_id, Game { answers_quantity: 0, current_hash });
        Ok(())
    }
}

pub open spec fn count_in_quiz(m: Map<(QuizId, Seq<char>), u64>, q: QuizId, a: Seq<char>) -> u64 {
    if m.contains_key((q, a)) {
        m[(q, a)]
    } else {
        0
    }
}


impl QuizChain {
    /// Whether some distributed reward of `quiz_id` was won by an account other than `caller`.
    pub open spec fn won_by_other(&self, quiz_id: QuizId, caller: Seq<char>) -> bool {
        let d = self.quizzes@[quiz_id as int].distributed_rewards_ids@;
        exists|i: int| 0 <= i < d.len() && #[trigger] self.rewards@.contains_key((quiz_id, d[i]))
            && (self.rewards@[(quiz_id, d[i])].winner_account_id matches Some(w) && w@ != caller)
    }

    pub open spec fn restart_check(&self, caller: AccountId, quiz_id: QuizId) -> Result<(), QuizError> {
        let quiz = self.quizzes@[quiz_id as int];
        let key = (quiz_id, caller@);
        if quiz_id >= self.quizzes@.len() {
            Err(QuizError::QuizNotFound)
        } else if !quiz.restart_allowed {
            Err(QuizError::RestartNotAllowed)
        } else if quiz.status != QuizStatus::InProgress {
            Err(QuizError::QuizNotActive)
        } else if !self.games@.contains_key(key) {
            Err(QuizError::GameNotStarted)
        } else if self.games@[key].answers_quantity != quiz.total_questions {
            Err(QuizError::GameNotFinished)
        } else if self.won_by_other(quiz_id, caller@) {
            Err(QuizError::OnlyWinnerMayRestart)
        } else if quiz.secret is None {
            Err(QuizError::SecretMissing)
        } else {
            Ok(())
        }
    }

    /// Lets a player whose game is complete play again from a fresh chain, unless a
    /// reward of the quiz already went to someone else.
    pub fn restart_game(&mut self, caller: &AccountId, quiz_id: QuizId) -> (r: Result<(), QuizError>)
        requires
            old(self).wf(),
        ensures
            final(self).wf(),
            r == old(self).restart_check(*caller, quiz_id),
            quiz_id < old(self).quizzes@.len() && old(self).won_by_other(quiz_id, caller@) ==> r is Err,
            r is Err ==> *final(self) == *old(self),
            r is Ok ==> {
                let key = (quiz_id, caller@);
                &&& final(self).games@ == old(self).games@.insert(key, final(self).games@[key])
                &&& final(self).games@[key].answers_quantity == 0
                &&& final(self).games@[key].current_hash@ == chain_start(old(self).quizzes@[quiz_id as int].secret.unwrap()@)
                &&& final(self).players == old(self).players
                &&& final(self).quizzes_by_player_id == old(self).quizzes_by_player_id
                &&& final(self).affiliates == old(self).affiliates
                &&& final(self).total_affiliates == old(self).total_affiliates
                &&& start_frame(old(self), final(self))
            },
    {
        let qi = match self.quiz_pos(quiz_id) {
            Some(i) => i,
            None => { return Err(QuizError::QuizNotFound); },
        };
        if !self.quizzes[qi].restart_allowed {
            return Err(QuizError::RestartNotAllowed);
        }
        if self.quizzes[qi].status != QuizStatus::InProgress {
            return Err(QuizError::QuizNotActive);
        }
        let game_id = QuizByUser { quiz_id, account_id: caller.clone() };
        let answers_quantity = match self.games.get(&game_id) {
            Some(g) => g.answers_quantity,
            None => { return Err(QuizError::GameNotStarted); },
        };
        if answers_quantity != self.quizzes[qi].total_questions {
            return Err(QuizError::GameNotFinished);
        }
        let n = self.quizzes[qi].distributed_rewards_ids.len();
        let mut i: usize = 0;
        while i < n
            invariant
                self.wf(),
                *self == *old(self),
                qi == quiz_id,
                quiz_id < self.quizzes@.len(),
                self.quizzes@[quiz_id as int].restart_allowed,
                self.quizzes@[quiz_id as int].status == QuizStatus::InProgress,
                self.games@.contains_key((quiz_id, caller@)),
                self.games@[(quiz_id, caller@)].answers_quantity == self.quizzes@[quiz_id as int].total_questions,
                n == self.quizzes@[quiz_id as int].distributed_rewards_ids@.len(),
                i <= n,
                forall|j: int| 0 <= j < i ==> !(#[trigger] self.rewards@.contains_key((quiz_id, self.quizzes@[quiz_id as int].distributed_rewards_ids@[j]))
                    && (self.rewards@[(quiz_id, self.quizzes@[quiz_id as int].distributed_rewards_ids@[j])].winner_account_id matches Some(w) && w@ != caller@)),
            decreases n - i,
        {
            let rid = self.quizzes[qi].distributed_rewards_ids[i];
            match self.rewards.get(&RewardByQuiz { quiz_id, reward_id: rid }) {
                Some(reward) => {
                    match &reward.winner_account_id {
                        Some(w) => {
                            if *w != *caller {
                                proof {
                                    let d = self.quizzes@[quiz_id as int].distributed_rewards_ids@;
                                    assert(self.rewards@.contains_key((quiz_id, d[i as int])));
                                    assert(self.won_by_other(quiz_id, caller@));
                                }
                                return Err(QuizError::OnlyWinnerMayRestart);
                            }
                        },
                        None => {},
                    }
                },
                None => {},
            }
            i = i + 1;
        }
        let current_hash = match &self.quizzes[qi].secret {
            Some(secret) => start_hash(secret),
            None => { return Err(QuizError::SecretMissing); },
        };
        self.games.insert(game_id, Game { answers_quantity: 0, current_hash });
        Ok(())
    }

    /// Starts a fresh game of `quiz_id` for `account_id` on the contract's own authority.
    pub fn start_game_for_account_id(&mut self, quiz_id: QuizId, account_id: &AccountId) -> (r: Result<(), QuizError>)
        requires
            old(self).wf(),
        ensures
            final(self).wf(),
            r is Err <==> quiz_id >= old(self).quizzes@.len() || old(self).quizzes@[quiz_id as int].secret is None,
            r is Err ==> *final(self) == *old(self),
            r is Ok ==> {
                let key = (quiz_id, account_id@);
                &&& final(self).games@ == old(self).games@.insert(key, final(self).games@[key])
                &&& final(self).games@[key].answers_quantity == 0
                &&& final(self).games@[key].current_hash@ == chain_start(old(self).quizzes@[quiz_id as int].secret.unwrap()@)
                &&& final(self).players@ == old(self).players@.insert(quiz_id, final(self).players@[quiz_id])
                &&& final(self).players@[quiz_id]@ == with_account(players_of(old(self).players@, quiz_id), *account_id)
                &&& final(self).quizzes_by_player_id == old(self).quizzes_by_player_id
                &&& final(self).affiliates == old(self).affiliates
                &&& final(self).total_affiliates == old(self).total_affiliates
                &&& start_frame(old(self), final(self))
            },
    {
        let qi = match self.quiz_pos(quiz_id) {
            Some(i) => i,
            None => { return Err(QuizError::QuizNotFound); },
        };
        let current_hash = match &self.quizzes[qi].secret {
            Some(secret) => start_hash(secret),
            None => { return Err(QuizError::SecretMissing); },
        };
        let players = match self.players.get(&quiz_id) {
            Some(list) => add_account(list, account_id),
            None => add_account(&Vec::new(), account_id),
        };
        self.players.insert(quiz_id, players);
        self.games.insert(QuizByUser { quiz_id, account_id: account_id.clone() }, Game { answers_quantity: 0, current_hash });
        Ok(())
    }
}

} // verus!
