//! The quiz lifecycle: creation and funding, activation, cancellation and reveal.
use vstd::prelude::*;
use crate::state::{
    DAY_IN_NANOSECONDS, DAYS_BEFORE_CANCEL, MAX_SERVICE_FEE, QuizChain, SERVICE_RATE_DENOMINATOR,
    SERVICE_RATE_NUMERATOR, add_quiz_for_account, add_service_fees_total, can_add_service_fee, fee_fits,
    fees_in, ids_for, is_native, is_native_token, remove_id, slots_unawarded, token_key, with_id,
};
use crate::table::Table;
use crate::types::{
    AccountId, Balance, Question, QuestionByQuiz, QuestionId, QuestionInput, QuestionOption, QuestionOptionByQuiz,
    QuestionOptionId, Quiz, QuizError, QuizFinalityType, QuizId, QuizStatus, Reward, RewardByQuiz, RewardId,
    Payout, RewardInput, Timestamp, TokenAccountId,
};

verus! {

pub open spec fn rewards_sum(rs: Seq<RewardInput>) -> int
    decreases rs.len(),
{
    if rs.len() == 0 {
        0
    } else {
        rewards_sum(rs.drop_last()) + rs.last().amount
    }
}

/// The service fee on a reward pool: one percent, capped for the native currency.
pub open spec fn service_fee(total: int, token: Option<TokenAccountId>) -> int {
    let f = total * SERVICE_RATE_NUMERATOR / SERVICE_RATE_DENOMINATOR as int;
    if is_native(token) && f > MAX_SERVICE_FEE {
        MAX_SERVICE_FEE as int
    } else {
        f
    }
}

pub open spec fn items_fit(
    questions: Seq<QuestionInput>,
    options: Seq<Vec<QuestionOption>>,
    rewards: Seq<RewardInput>,
) -> bool {
    &&& questions.len() <= u16::MAX
    &&& rewards.len() <= u16::MAX
    &&& forall|i: int| 0 <= i < options.len() ==> #[trigger] options[i]@.len() <= u16::MAX
}

/// The checks on a quiz's content that every way of creating one makes, in order.
pub open spec fn content_check(
    questions: Seq<QuestionInput>,
    options: Seq<Vec<QuestionOption>>,
    rewards: Seq<RewardInput>,
) -> Result<(), QuizError> {
    if questions.len() != options.len() {
        Err(QuizError::QuestionsAndOptionsNotMatched)
    } else if questions.len() == 0 {
        Err(QuizError::NoQuestions)
    } else if !items_fit(questions, options, rewards) {
        Err(QuizError::TooManyItems)
    } else if rewards_sum(rewards) > u128::MAX {
        Err(QuizError::AmountOverflow)
    } else {
        Ok(())
    }
}

/// The reward slots `0..n`.
pub open spec fn slot_ids(n: int) -> Seq<RewardId> {
    Seq::new(n as nat, |i: int| i as RewardId)
}

/// The rewards after storing the slots of `rs` under quiz `q`.
pub open spec fn rewards_stored(
    before: Map<(QuizId, RewardId), Reward>,
    q: QuizId,
    rs: Seq<RewardInput>,
) -> Map<(QuizId, RewardId), Reward> {
    before.union_prefer_right(
        Map::new(
            |k: (QuizId, RewardId)| k.0 == q && (k.1 as int) < rs.len(),
            |k: (QuizId, RewardId)| Reward { amount: rs[k.1 as int].amount, winner_account_id: None, claimed: false },
        ),
    )
}

/// The questions after storing `qs` under quiz `q`.
pub open spec fn questions_stored(
    before: Map<(QuizId, QuestionId), Question>,
    q: QuizId,
    qs: Seq<QuestionInput>,
    opts: Seq<Vec<QuestionOption>>,
) -> Map<(QuizId, QuestionId), Question> {
    before.union_prefer_right(
        Map::new(
            |k: (QuizId, QuestionId)| k.0 == q && (k.1 as int) < qs.len(),
            |k: (QuizId, QuestionId)| Question {
                kind: qs[k.1 as int].kind,
                content: qs[k.1 as int].content,
                hint: qs[k.1 as int].hint,
                options_quantity: opts[k.1 as int]@.len() as u16,
            },
        ),
    )
}

/// The options after storing `opts` under quiz `q`.
pub open spec fn options_stored(
    before: Map<(QuizId, QuestionId, QuestionOptionId), QuestionOption>,
    q: QuizId,
    opts: Seq<Vec<QuestionOption>>,
) -> Map<(QuizId, QuestionId, QuestionOptionId), QuestionOption> {
    before.union_prefer_right(
        Map::new(
            |k: (QuizId, QuestionId, QuestionOptionId)| k.0 == q && (k.1 as int) < opts.len()
                && (k.2 as int) < opts[k.1 as int]@.len(),
            |k: (QuizId, QuestionId, QuestionOptionId)| opts[k.1 as int]@[k.2 as int],
        ),
    )
}

proof fn lemma_rewards_sum_prefix(rs: Seq<RewardInput>, i: int)
    requires
        0 <= i <= rs.len(),
    ensures
        rewards_sum(rs.subrange(0, i)) <= rewards_sum(rs),
    decreases rs.len() - i,
{
    if i < rs.len() {
        lemma_rewards_sum_prefix(rs, i + 1);
        assert(rs.subrange(0, i + 1).drop_last() =~= rs.subrange(0, i));
    } else {
        assert(rs.subrange(0, i) =~= rs);
    }
}

/// The total of a reward pool, if it fits.
pub fn sum_rewards(rewards: &Vec<RewardInput>) -> (r: Option<Balance>)
    ensures
        0 <= rewards_sum(rewards@),
        r is None <==> rewards_sum(rewards@) > u128::MAX,
        r matches Some(t) ==> t == rewards_sum(rewards@),
{
    proof {
        lemma_rewards_sum_prefix(rewards@, 0);
        assert(rewards@.subrange(0, 0) =~= Seq::<RewardInput>::empty());
    }
    let mut total: Balance = 0;
    let mut i: usize = 0;
    while i < rewards.len()
        invariant
            i <= rewards@.len(),
            total == rewards_sum(rewards@.subrange(0, i as int)),
        decreases rewards@.len() - i,
    {
        proof {
            assert(rewards@.subrange(0, i + 1).drop_last() =~= rewards@.subrange(0, i as int));
        }
        if total > u128::MAX - rewards[i].amount {
            proof {
                lemma_rewards_sum_prefix(rewards@, i + 1);
            }
            return None;
        }
        total = total + rewards[i].amount;
        i = i + 1;
    }
    assert(rewards@.subrange(0, rewards@.len() as int) =~= rewards@);
    Some(total)
}

pub fn compute_service_fee(total: Balance, token_id: &Option<TokenAccountId>) -> (r: Balance)
    ensures
        r == service_fee(total as int, *token_id),
{
    let f = total * SERVICE_RATE_NUMERATOR / SERVICE_RATE_DENOMINATOR;
    if is_native_token(token_id) && f > MAX_SERVICE_FEE {
        MAX_SERVICE_FEE
    } else {
        f
    }
}

pub fn check_content(
    questions: &Vec<QuestionInput>,
    options: &Vec<Vec<QuestionOption>>,
    rewards: &Vec<RewardInput>,
) -> (r: Result<Balance, QuizError>)
    ensures
        content_check(questions@, options@, rewards@) is Ok ==> 0 <= rewards_sum(rewards@) <= u128::MAX,
        match content_check(questions@, options@, rewards@) {
            Err(e) => r == Err::<Balance, QuizError>(e),
            Ok(_) => r == Ok::<Balance, QuizError>(rewards_sum(rewards@) as Balance),
        },
{
    if questions.len() != options.len() {
        return Err(QuizError::QuestionsAndOptionsNotMatched);
    }
    if questions.len() == 0 {
        return Err(QuizError::NoQuestions);
    }
    if questions.len() > 65535 || rewards.len() > 65535 {
        return Err(QuizError::TooManyItems);
    }
    let mut i: usize = 0;
    while i < options.len()
        invariant
            i <= options@.len(),
            questions@.len() == options@.len(),
            0 < questions@.len() <= u16::MAX,
            rewards@.len() <= u16::MAX,
            forall|j: int| 0 <= j < i ==> #[trigger] options@[j]@.len() <= u16::MAX,
        decreases options@.len() - i,
    {
        if options[i].len() > 65535 {
            return Err(QuizError::TooManyItems);
        }
        i = i + 1;
    }
    match sum_rewards(rewards) {
        Some(t) => Ok(t),
        None => Err(QuizError::AmountOverflow),
    }
}

pub fn copy_opt_string(o: &Option<String>) -> (r: Option<String>)
    ensures
        r == *o,
{
    match o {
        Some(s) => Some(s.clone()),
        None => None,
    }
}

/// Stores the reward slots of quiz `quiz_id`, all unawarded, and returns their ids.
pub fn store_rewards(table: &mut Table<RewardByQuiz, Reward>, quiz_id: QuizId, rewards: &Vec<RewardInput>) -> (ids: Vec<RewardId>)
    requires
        old(table).wf(),
        rewards@.len() <= u16::MAX,
    ensures
        final(table).wf(),
        final(table)@ == rewards_stored(old(table)@, quiz_id, rewards@),
        ids@ == slot_ids(rewards@.len() as int),
{
    let mut ids: Vec<RewardId> = Vec::new();
    let mut i: usize = 0;
    while i < rewards.len()
        invariant
            table.wf(),
            i <= rewards@.len() <= u16::MAX,
            table@ == old(table)@.union_prefer_right(
                Map::new(
                    |k: (QuizId, RewardId)| k.0 == quiz_id && (k.1 as int) < i,
                    |k: (QuizId, RewardId)| Reward { amount: rewards@[k.1 as int].amount, winner_account_id: None, claimed: false },
                ),
            ),
            ids@ == slot_ids(i as int),
        decreases rewards@.len() - i,
    {
        let rid = i as u16;
        let ghost pre = table@;
        table.insert(RewardByQuiz { quiz_id, reward_id: rid }, Reward { amount: rewards[i].amount, winner_account_id: None, claimed: false });
        ids.push(rid);
        proof {
            assert(table@ =~= old(table)@.union_prefer_right(
                Map::new(
                    |k: (QuizId, RewardId)| k.0 == quiz_id && (k.1 as int) < i + 1,
                    |k: (QuizId, RewardId)| Reward { amount: rewards@[k.1 as int].amount, winner_account_id: None, claimed: false },
                ),
            ));
            assert(ids@ =~= slot_ids(i + 1));
        }
        i = i + 1;
    }
    ids
}

/// Stores the questions and options of quiz `quiz_id`.
pub fn store_questions(
    questions_table: &mut Table<QuestionByQuiz, Question>,
    options_table: &mut Table<QuestionOptionByQuiz, QuestionOption>,
    quiz_id: QuizId,
    questions: &Vec<QuestionInput>,
    options: &Vec<Vec<QuestionOption>>,
)
    requires
        old(questions_table).wf(),
        old(options_table).wf(),
        questions@.len() == options@.len() <= u16::MAX,
        forall|i: int| 0 <= i < options@.len() ==> #[trigger] options@[i]@.len() <= u16::MAX,
    ensures
        final(questions_table).wf(),
        final(options_table).wf(),
        final(questions_table)@ == questions_stored(old(questions_table)@, quiz_id, questions@, options@),
        final(options_table)@ == options_stored(old(options_table)@, quiz_id, options@),
{
    let mut i: usize = 0;
    while i < questions.len()
        invariant
            questions_table.wf(),
            options_table.wf(),
            i <= questions@.len(),
            questions@.len() == options@.len() <= u16::MAX,
            forall|j: int| 0 <= j < options@.len() ==> #[trigger] options@[j]@.len() <= u16::MAX,
            questions_table@ == questions_stored(old(questions_table)@, quiz_id, questions@.subrange(0, i as int), options@),
            options_table@ == options_stored(old(options_table)@, quiz_id, options@.subrange(0, i as int)),
        decreases questions@.len() - i,
    {
        let qid = i as u16;
        let opts = &options[i];
        let mut j: usize = 0;
        while j < opts.len()
            invariant
                options_table.wf(),
                i < options@.len(),
                *opts == options@[i as int],
                j <= opts@.len() <= u16::MAX,
                qid as int == i,
                options_table@ == options_stored(old(options_table)@, quiz_id, options@.subrange(0, i as int)).union_prefer_right(
                    Map::new(
                        |k: (QuizId, QuestionId, QuestionOptionId)| k.0 == quiz_id && k.1 == qid && (k.2 as int) < j,
                        |k: (QuizId, QuestionId, QuestionOptionId)| opts@[k.2 as int],
                    ),
                ),
            decreases opts@.len() - j,
        {
            let o = &opts[j];
            options_table.insert(
                QuestionOptionByQuiz { quiz_id, question_id: qid, question_option_id: j as u16 },
                QuestionOption { content: o.content.clone(), kind: o.kind },
            );
            proof {
                assert(options_table@ =~= options_stored(old(options_table)@, quiz_id, options@.subrange(0, i as int)).union_prefer_right(
                    Map::new(
                        |k: (QuizId, QuestionId, QuestionOptionId)| k.0 == quiz_id && k.1 == qid && (k.2 as int) < j + 1,
                        |k: (QuizId, QuestionId, QuestionOptionId)| opts@[k.2 as int],
                    ),
                ));
            }
            j = j + 1;
        }
        let input = &questions[i];
        questions_table.insert(
            QuestionByQuiz { quiz_id, question_id: qid },
            Question {
                kind: input.kind,
                content: input.content.clone(),
                hint: copy_opt_string(&input.hint),
                options_quantity: opts.len() as u16,
            },
        );
        proof {
            assert(options_table@ =~= options_stored(old(options_table)@, quiz_id, options@.subrange(0, i + 1)));
            assert(questions_table@ =~= questions_stored(old(questions_table)@, quiz_id, questions@.subrange(0, i + 1), options@));
        }
        i = i + 1;
    }
    proof {
        assert(questions@.subrange(0, i as int) =~= questions@);
        assert(options@.subrange(0, i as int) =~= options@);
    }
}


/// Adds `id` to a set of quiz ids kept as a list.
pub fn insert_id(ids: &mut Vec<QuizId>, id: QuizId)
    ensures
        forall|x: QuizId| final(ids)@.contains(x) <==> old(ids)@.contains(x) || x == id,
{
    let mut i: usize = 0;
    while i < ids.len()
        invariant
            i <= ids@.len(),
            forall|j: int| 0 <= j < i ==> ids@[j] != id,
        decreases ids@.len() - i,
    {
        if ids[i] == id {
            proof {
                assert forall|x: QuizId| ids@.contains(x) <==> ids@.contains(x) || x == id by {
                    if x == id {
                        assert(ids@[i as int] == x);
                    }
                }
            }
            return;
        }
        i = i + 1;
    }
    let ghost pre = ids@;
    ids.push(id);
    proof {
        assert forall|x: QuizId| ids@.contains(x) <==> pre.contains(x) || x == id by {
            if pre.contains(x) {
                let k = choose|k: int| 0 <= k < pre.len() && pre[k] == x;
                assert(ids@[k] == x);
            }
            if ids@.contains(x) && x != id {
                let k = choose|k: int| 0 <= k < ids@.len() && ids@[k] == x;
                assert(k < pre.len());
                assert(pre[k] == x);
            }
            if x == id {
                assert(ids@[pre.len() as int] == x);
            }
        }
    }
}

/// What a newly created quiz holds.
pub open spec fn new_quiz_holds(
    quiz: Quiz,
    owner: AccountId,
    title: String,
    description: Option<String>,
    language: Option<String>,
    finality_type: QuizFinalityType,
    n_questions: int,
    n_rewards: int,
    secret: Option<String>,
    success_hash: Option<String>,
    restart_allowed: bool,
    now: Timestamp,
    token: Option<TokenAccountId>,
    status: QuizStatus,
) -> bool {
    &&& quiz.title == Some(title)
    &&& quiz.description == description
    &&& quiz.language == language
    &&& quiz.finality_type == finality_type
    &&& quiz.owner_id == owner
    &&& quiz.status == status
    &&& quiz.total_questions as int == n_questions
    &&& quiz.available_rewards_ids@ == slot_ids(n_rewards)
    &&& quiz.distributed_rewards_ids@.len() == 0
    &&& quiz.secret == secret
    &&& quiz.success_hash == success_hash
    &&& quiz.revealed_answers is None
    &&& quiz.sponsor_account_id is None
    &&& quiz.funded_amount is None
    &&& quiz.restart_allowed == restart_allowed
    &&& quiz.timestamp == Some(now)
    &&& quiz.token_account_id == token
}

proof fn lemma_slot_ids_distinct(n: int)
    requires
        0 <= n <= u16::MAX,
    ensures
        slot_ids(n).no_duplicates(),
{
    assert forall|i: int, j: int| 0 <= i < slot_ids(n).len() && 0 <= j < slot_ids(n).len() && i != j
        implies slot_ids(n)[i] != slot_ids(n)[j] by {}
}

/// The parts of the state that creating a quiz leaves alone.
pub open spec fn create_frame(a: &QuizChain, b: &QuizChain) -> bool {
    &&& b.games == a.games
    &&& b.answers == a.answers
    &&& b.players == a.players
    &&& b.quiz_results == a.quiz_results
    &&& b.whitelisted_tokens == a.whitelisted_tokens
    &&& b.quizzes_by_player_id == a.quizzes_by_player_id
    &&& b.affiliates == a.affiliates
    &&& b.total_affiliates == a.total_affiliates
}

impl QuizChain {
    pub open spec fn create_check(
        &self,
        questions: Seq<QuestionInput>,
        options: Seq<Vec<QuestionOption>>,
        rewards: Seq<RewardInput>,
        deposit: Balance,
        token: Option<TokenAccountId>,
    ) -> Result<(), QuizError> {
        match content_check(questions, options, rewards) {
            Err(e) => Err(e),
            Ok(_) => {
                let total = rewards_sum(rewards);
                let fee = service_fee(total, token);
                if deposit != total + fee {
                    Err(QuizError::IllegalDeposit)
                } else if !fee_fits(self.service_fees_total@, token, fee as Balance) {
                    Err(QuizError::AmountOverflow)
                } else {
                    Ok(())
                }
            },
        }
    }

    /// The state after quiz `id` was created with the given content by `owner`.
    pub open spec fn created(
        &self,
        next: &QuizChain,
        id: QuizId,
        owner: AccountId,
        questions: Seq<QuestionInput>,
        options: Seq<Vec<QuestionOption>>,
        rewards: Seq<RewardInput>,
        token: Option<TokenAccountId>,
    ) -> bool {
        let fee = service_fee(rewards_sum(rewards), token);
        &&& id == self.quizzes@.len()
        &&& next.quizzes@.len() == self.quizzes@.len() + 1
        &&& forall|i: int| 0 <= i < self.quizzes@.len() ==> next.quizzes@[i] == self.quizzes@[i]
        &&& next.rewards@ == rewards_stored(self.rewards@, id, rewards)
        &&& next.questions@ == questions_stored(self.questions@, id, questions, options)
        &&& next.question_options@ == options_stored(self.question_options@, id, options)
        &&& next.service_fees_total@ == self.service_fees_total@.insert(
            token_key(token), (fees_in(self.service_fees_total@, token_key(token)) + fee) as Balance)
        &&& ids_for(next.quizzes_by_owner_id@, owner@) == with_id(ids_for(self.quizzes_by_owner_id@, owner@), id)
        &&& forall|a: Seq<char>| a != owner@ ==> #[trigger] ids_for(next.quizzes_by_owner_id@, a) == ids_for(self.quizzes_by_owner_id@, a)
        &&& next.quizzes_by_sponsor_id == self.quizzes_by_sponsor_id
        &&& create_frame(self, next)
    }

    /// The outcome of creating a quiz: rejected with the first failing check and no change,
    /// or stored as quiz `id` with status `status`.
    pub open spec fn create_result(
        &self,
        next: &QuizChain,
        r: Result<QuizId, QuizError>,
        owner_id: AccountId,
        title: String,
        description: Option<String>,
        language: Option<String>,
        finality_type: QuizFinalityType,
        questions: Seq<QuestionInput>,
        options: Seq<Vec<QuestionOption>>,
        rewards: Seq<RewardInput>,
        secret: Option<String>,
        success_hash: Option<String>,
        restart_allowed: bool,
        deposit: Balance,
        token: Option<TokenAccountId>,
        now: Timestamp,
        status: QuizStatus,
    ) -> bool {
        match self.create_check(questions, options, rewards, deposit, token) {
            Err(e) => r == Err::<QuizId, QuizError>(e) && *next == *self,
            Ok(_) => r matches Ok(id) && self.created(next, id, owner_id, questions, options, rewards, token)
                && new_quiz_holds(next.quizzes@[id as int], owner_id, title, description, language,
                    finality_type, questions.len() as int, rewards.len() as int, secret, success_hash,
                    restart_allowed, now, token, status),
        }
    }

    fn create_quiz_with_status(
        &mut self,
        owner_id: AccountId,
        title: String,
        description: Option<String>,
        language: Option<String>,
        finality_type: QuizFinalityType,
        questions: Vec<QuestionInput>,
        all_question_options: Vec<Vec<QuestionOption>>,
        rewards: Vec<RewardInput>,
        secret: Option<String>,
        success_hash: Option<String>,
        restart_allowed: bool,
        deposit: Balance,
        token_account_id: Option<TokenAccountId>,
        now: Timestamp,
        status: QuizStatus,
    ) -> (r: Result<QuizId, QuizError>)
        requires
            old(self).wf(),
            status != QuizStatus::Funded,
        ensures
            final(self).wf(),
            winners_kept_all(old(self), final(self)),
            old(self).create_result(final(self), r, owner_id, title, description, language, finality_type, questions@,
                all_question_options@, rewards@, secret, success_hash, restart_allowed, deposit, token_account_id, now, status),
            final(self).active_quizzes == old(self).active_quizzes,
    {
        let rewards_total = match check_content(&questions, &all_question_options, &rewards) {
            Ok(t) => t,
            Err(e) => { return Err(e); },
        };
        let service_fee = compute_service_fee(rewards_total, &token_account_id);
        if rewards_total > u128::MAX - service_fee || deposit != rewards_total + service_fee {
            return Err(QuizError::IllegalDeposit);
        }
        if !can_add_service_fee(&self.service_fees_total, service_fee, &token_account_id) {
            return Err(QuizError::AmountOverflow);
        }
        let ghost pre = *self;
        let quiz_id = self.next_quiz_id;
        let unclaimed_rewards_ids = store_rewards(&mut self.rewards, quiz_id, &rewards);
        add_service_fees_total(&mut self.service_fees_total, service_fee, &token_account_id);
        store_questions(&mut self.questions, &mut self.question_options, quiz_id, &questions, &all_question_options);
        let quiz = Quiz {
            title: Some(title),
            description,
            language,
            finality_type,
            owner_id: owner_id.clone(),
            status,
            total_questions: questions.len() as u16,
            available_rewards_ids: unclaimed_rewards_ids,
            distributed_rewards_ids: Vec::new(),
            secret,
            success_hash,
            revealed_answers: None,
            sponsor_account_id: None,
            funded_amount: None,
            restart_allowed,
            timestamp: Some(now),
            token_account_id,
        };
        self.quizzes.push(quiz);
        let n = self.quizzes.len();
        assert(n as int == quiz_id + 1);
        self.next_quiz_id = quiz_id + 1;
        add_quiz_for_account(&mut self.quizzes_by_owner_id, quiz_id, owner_id);
        proof {
            lemma_slot_ids_distinct(rewards@.len() as int);
            assert forall|k: (QuizId, RewardId)| #[trigger] self.rewards@.contains_key(k) && pre.rewards@.contains_key(k)
                && pre.rewards@[k].winner_account_id is Some implies self.rewards@[k] == pre.rewards@[k] by {
                assert(k.0 < pre.quizzes@.len());
            }
            assert forall|q: QuizId| q < self.quizzes@.len() implies
                #[trigger] slots_unawarded(q, self.quizzes@[q as int].available_rewards_ids@, self.rewards@) by {
                if q < pre.quizzes@.len() {
                    assert(slots_unawarded(q, pre.quizzes@[q as int].available_rewards_ids@, pre.rewards@));
                    let b = self.quizzes@[q as int].available_rewards_ids@;
                    assert forall|j: int| 0 <= j < b.len() implies #[trigger] self.rewards@.contains_key((q, b[j]))
                        && self.rewards@[(q, b[j])].winner_account_id is None by {
                        assert(pre.rewards@.contains_key((q, b[j])));
                    }
                }
            }
        }
        proof {
            assert(self.quizzes@[quiz_id as int] == quiz);
            assert(self.rewards@ == rewards_stored(pre.rewards@, quiz_id, rewards@));
            assert(create_frame(&pre, self));
            assert(pre.created(self, quiz_id, owner_id, questions@, all_question_options@, rewards@, token_account_id));
        }
        Ok(quiz_id)
    }
}

/// No recorded winner of any reward changes.
pub open spec fn winners_kept_all(a: &QuizChain, b: &QuizChain) -> bool {
    crate::state::winners_kept(a.rewards@, b.rewards@)
}


impl QuizChain {
    pub open spec fn activate_check(&self, caller: AccountId, quiz_id: QuizId) -> Result<(), QuizError> {
        if quiz_id >= self.quizzes@.len() {
            Err(QuizError::QuizNotFound)
        } else if self.quizzes@[quiz_id as int].owner_id@ != caller@ {
            Err(QuizError::NoAccess)
        } else if self.quizzes@[quiz_id as int].status != QuizStatus::Locked {
            Err(QuizError::QuizAlreadyUnlocked)
        } else {
            Ok(())
        }
    }

    /// The state after quiz `quiz_id` was unlocked with `secret` and `success_hash`.
    pub open spec fn activated(&self, next: &QuizChain, quiz_id: QuizId, secret: String, success_hash: Option<String>) -> bool {
        let quiz = self.quizzes@[quiz_id as int];
        &&& next.quizzes@ == self.quizzes@.update(quiz_id as int, Quiz {
            secret: Some(secret),
            status: QuizStatus::InProgress,
            success_hash,
            ..quiz
        })
        &&& forall|x: QuizId| #[trigger] next.active_quizzes@.contains(x) <==> self.active_quizzes@.contains(x) || x == quiz_id
        &&& next.rewards == self.rewards
        &&& next.questions == self.questions
        &&& next.question_options == self.question_options
        &&& next.service_fees_total == self.service_fees_total
        &&& next.next_quiz_id == self.next_quiz_id
        &&& next.quizzes_by_owner_id == self.quizzes_by_owner_id
        &&& next.quizzes_by_sponsor_id == self.quizzes_by_sponsor_id
        &&& crate::quiz::create_frame(self, next)
    }

    /// The owner unlocks a locked quiz: it stores the secret and target digest and opens play.
    pub fn activate_quiz_internal(&mut self, caller: &AccountId, quiz_id: QuizId, secret: String, success_hash: Option<String>)
        -> (r: Result<(), QuizError>)
        requires
            old(self).wf(),
        ensures
            final(self).wf(),
            r == old(self).activate_check(*caller, quiz_id),
            r is Err ==> *final(self) == *old(self),
            r is Ok ==> old(self).activated(final(self), quiz_id, secret, success_hash),
    {
        let qi = match self.quiz_pos(quiz_id) {
            Some(i) => i,
            None => { return Err(QuizError::QuizNotFound); },
        };
        if self.quizzes[qi].owner_id != *caller {
            return Err(QuizError::NoAccess);
        }
        if self.quizzes[qi].status != QuizStatus::Locked {
            return Err(QuizError::QuizAlreadyUnlocked);
        }
        let ghost pre = *self;
        self.quizzes[qi].secret = Some(secret);
        self.quizzes[qi].status = QuizStatus::InProgress;
        self.quizzes[qi].success_hash = success_hash;
        insert_id(&mut self.active_quizzes, quiz_id);
        proof {
            assert forall|q: QuizId| q < self.quizzes@.len() implies
                #[trigger] slots_unawarded(q, self.quizzes@[q as int].available_rewards_ids@, self.rewards@) by {
                assert(slots_unawarded(q, pre.quizzes@[q as int].available_rewards_ids@, pre.rewards@));
            }
            assert(self.quizzes@ =~= pre.quizzes@.update(quiz_id as int, Quiz {
                secret: Some(secret),
                status: QuizStatus::InProgress,
                success_hash,
                ..pre.quizzes@[quiz_id as int]
            }));
        }
        Ok(())
    }

    /// Creates a locked quiz owned by `owner_id`, paid for by `deposit`: the reward pool
    /// plus the service fee.
    pub fn create_quiz_internal(
        &mut self,
        owner_id: AccountId,
        title: String,
        description: Option<String>,
        language: Option<String>,
        finality_type: QuizFinalityType,
        questions: Vec<QuestionInput>,
        all_question_options: Vec<Vec<QuestionOption>>,
        rewards: Vec<RewardInput>,
        secret: Option<String>,
        success_hash: Option<String>,
        restart_allowed: bool,
        deposit: Balance,
        token_account_id: Option<TokenAccountId>,
        now: Timestamp,
    ) -> (r: Result<QuizId, QuizError>)
        requires
            old(self).wf(),
        ensures
            final(self).wf(),
            winners_kept_all(old(self), final(self)),
            old(self).create_result(final(self), r, owner_id, title, description, language, finality_type, questions@,
                all_question_options@, rewards@, secret, success_hash, restart_allowed, deposit, token_account_id, now,
                QuizStatus::Locked),
            final(self).active_quizzes == old(self).active_quizzes,
            r matches Ok(id) ==> !final(self).active_quizzes@.contains(id),
    {
        self.create_quiz_with_status(owner_id, title, description, language, finality_type, questions,
            all_question_options, rewards, secret, success_hash, restart_allowed, deposit, token_account_id, now,
            QuizStatus::Locked)
    }

    /// Creates a quiz owned by `owner_id` that is open for play at once.
    pub fn create_quiz_and_activate_internal(
        &mut self,
        owner_id: AccountId,
        title: String,
        description: Option<String>,
        language: Option<String>,
        finality_type: QuizFinalityType,
        questions: Vec<QuestionInput>,
        all_question_options: Vec<Vec<QuestionOption>>,
        rewards: Vec<RewardInput>,
        secret: String,
        success_hash: Option<String>,
        restart_allowed: bool,
        deposit: Balance,
        token_account_id: Option<TokenAccountId>,
        now: Timestamp,
    ) -> (r: Result<QuizId, QuizError>)
        requires
            old(self).wf(),
        ensures
            final(self).wf(),
            winners_kept_all(old(self), final(self)),
            old(self).create_result(final(self), r, owner_id, title, description, language, finality_type, questions@,
                all_question_options@, rewards@, Some(secret), success_hash, restart_allowed, deposit, token_account_id,
                now, QuizStatus::InProgress),
            r is Err ==> final(self).active_quizzes == old(self).active_quizzes,
            r matches Ok(id) ==> forall|x: QuizId| #[trigger] final(self).active_quizzes@.contains(x)
                <==> old(self).active_quizzes@.contains(x) || x == id,
    {
        let r = self.create_quiz_with_status(owner_id, title, description, language, finality_type, questions,
            all_question_options, rewards, Some(secret), success_hash, restart_allowed, deposit, token_account_id, now,
            QuizStatus::InProgress);
        match r {
            Ok(id) => {
                insert_id(&mut self.active_quizzes, id);
                Ok(id)
            },
            Err(e) => Err(e),
        }
    }

    /// Creates a quiz as `caller`; with a secret it is unlocked at once.
    pub fn create_quiz(
        &mut self,
        caller: &AccountId,
        deposit: Balance,
        now: Timestamp,
        title: String,
        description: Option<String>,
        language: Option<String>,
        finality_type: QuizFinalityType,
        questions: Vec<QuestionInput>,
        all_question_options: Vec<Vec<QuestionOption>>,
        rewards: Vec<RewardInput>,
        secret: Option<String>,
        success_hash: Option<String>,
        restart_allowed: bool,
        token_account_id: Option<TokenAccountId>,
    ) -> (r: Result<QuizId, QuizError>)
        requires
            old(self).wf(),
        ensures
            final(self).wf(),
            winners_kept_all(old(self), final(self)),
            r is Err ==> *final(self) == *old(self),
            match old(self).create_check(questions@, all_question_options@, rewards@, deposit, token_account_id) {
                Err(e) => r == Err::<QuizId, QuizError>(e),
                Ok(_) => r == Ok::<QuizId, QuizError>(old(self).quizzes@.len() as QuizId),
            },
            r matches Ok(id) ==> {
                let q = final(self).quizzes@[id as int];
                &&& old(self).created(final(self), id, *caller, questions@, all_question_options@, rewards@, token_account_id)
                &&& q.owner_id == *caller
                &&& q.total_questions as int == questions@.len()
                &&& q.available_rewards_ids@ == slot_ids(rewards@.len() as int)
                &&& q.secret == secret
                &&& q.success_hash == success_hash
                &&& q.timestamp == Some(now)
                &&& q.finality_type == finality_type
                &&& q.restart_allowed == restart_allowed
                &&& q.token_account_id == token_account_id
                &&& q.status == (if secret is Some { QuizStatus::InProgress } else { QuizStatus::Locked })
                &&& forall|x: QuizId| #[trigger] final(self).active_quizzes@.contains(x)
                    <==> old(self).active_quizzes@.contains(x) || (x == id && secret is Some)
            },
    {
        let r = self.create_quiz_internal(caller.clone(), title, description, language, finality_type, questions,
            all_question_options, rewards, copy_opt_string(&secret), copy_opt_string(&success_hash), restart_allowed,
            deposit, token_account_id, now);
        match r {
            Ok(id) => {
                match secret {
                    Some(s) => {
                        let activated = self.activate_quiz_internal(caller, id, s, success_hash);
                    },
                    None => {},
                }
                Ok(id)
            },
            Err(e) => Err(e),
        }
    }
}


/// The service fee held back from a sponsor's deposit: the part above `deposit * 100 / 101`.
pub open spec fn funding_fee(deposit: int) -> int {
    deposit - deposit * 100 / 101
}

/// Whether the cancellation cooldown since `ts` has not yet passed at `now`.
pub open spec fn too_early(ts: Option<Timestamp>, now: Timestamp) -> bool {
    match ts {
        None => true,
        Some(t) => now < t || now - t <= DAY_IN_NANOSECONDS * DAYS_BEFORE_CANCEL,
    }
}

pub fn is_too_early(ts: Option<Timestamp>, now: Timestamp) -> (r: bool)
    ensures
        r == too_early(ts, now),
{
    match ts {
        None => true,
        Some(t) => now < t || now - t <= DAY_IN_NANOSECONDS * DAYS_BEFORE_CANCEL,
    }
}

/// The total of the rewards stored under `q` for the slots `ids`.
pub open spec fn slots_sum(rewards: Map<(QuizId, RewardId), Reward>, q: QuizId, ids: Seq<RewardId>) -> int
    decreases ids.len(),
{
    if ids.len() == 0 {
        0
    } else {
        slots_sum(rewards, q, ids.drop_last()) + rewards[(q, ids.last())].amount
    }
}

proof fn lemma_slots_sum_prefix(rewards: Map<(QuizId, RewardId), Reward>, q: QuizId, ids: Seq<RewardId>, i: int)
    requires
        0 <= i <= ids.len(),
    ensures
        0 <= slots_sum(rewards, q, ids.subrange(0, i)) <= slots_sum(rewards, q, ids),
    decreases ids.len() - i,
{
    if i < ids.len() {
        lemma_slots_sum_prefix(rewards, q, ids, i + 1);
        assert(ids.subrange(0, i + 1).drop_last() =~= ids.subrange(0, i));
    } else {
        assert(ids.subrange(0, i) =~= ids);
    }
    lemma_slots_sum_nonneg(rewards, q, ids.subrange(0, i));
}

proof fn lemma_slots_sum_nonneg(rewards: Map<(QuizId, RewardId), Reward>, q: QuizId, ids: Seq<RewardId>)
    ensures
        0 <= slots_sum(rewards, q, ids),
    decreases ids.len(),
{
    if ids.len() > 0 {
        lemma_slots_sum_nonneg(rewards, q, ids.drop_last());
    }
}

/// The total of the still-available slots of quiz `quiz_id`, if it fits.
pub fn sum_slots(table: &Table<RewardByQuiz, Reward>, quiz_id: QuizId, ids: &Vec<RewardId>) -> (r: Option<Balance>)
    requires
        table.wf(),
        forall|i: int| 0 <= i < ids@.len() ==> #[trigger] table@.contains_key((quiz_id, ids@[i])),
    ensures
        0 <= slots_sum(table@, quiz_id, ids@),
        r is None <==> slots_sum(table@, quiz_id, ids@) > u128::MAX,
        r matches Some(t) ==> t == slots_sum(table@, quiz_id, ids@),
{
    proof {
        lemma_slots_sum_prefix(table@, quiz_id, ids@, 0);
    }
    let mut total: Balance = 0;
    let mut i: usize = 0;
    while i < ids.len()
        invariant
            table.wf(),
            forall|i: int| 0 <= i < ids@.len() ==> #[trigger] table@.contains_key((quiz_id, ids@[i])),
            i <= ids@.len(),
            total == slots_sum(table@, quiz_id, ids@.subrange(0, i as int)),
        decreases ids@.len() - i,
    {
        proof {
            assert(ids@.subrange(0, i + 1).drop_last() =~= ids@.subrange(0, i as int));
        }
        let amount = match table.get(&RewardByQuiz { quiz_id, reward_id: ids[i] }) {
            Some(r) => r.amount,
            None => 0,
        };
        if total > u128::MAX - amount {
            proof {
                lemma_slots_sum_prefix(table@, quiz_id, ids@, i + 1);
            }
            return None;
        }
        total = total + amount;
        i = i + 1;
    }
    assert(ids@.subrange(0, ids@.len() as int) =~= ids@);
    Some(total)
}

/// What a refund of `amount` pays out after the service fee of a tenth is skimmed.
pub open spec fn refund_payout(p: Payout, amount: Balance, recipient: AccountId, token: Option<TokenAccountId>) -> bool {
    &&& p.recipient == recipient
    &&& p.amount == amount - amount / 10
    &&& p.token_account_id == token
    &&& p.quiz_id is None
    &&& p.reward_id is None
}

/// Skims the service fee off a refund of unspent funds and describes the transfer of the rest.
pub fn withdraw_available_rewards(
    fees: &mut Table<TokenAccountId, Balance>,
    available_rewards: Balance,
    recipient_account_id: AccountId,
    token_account_id: Option<TokenAccountId>,
) -> (p: Payout)
    requires
        old(fees).wf(),
        fee_fits(old(fees)@, token_account_id, available_rewards / 10),
    ensures
        final(fees).wf(),
        final(fees)@ == old(fees)@.insert(token_key(token_account_id),
            (fees_in(old(fees)@, token_key(token_account_id)) + available_rewards / 10) as Balance),
        refund_payout(p, available_rewards, recipient_account_id, token_account_id),
{
    let service_fee: Balance = available_rewards / 10;
    add_service_fees_total(fees, service_fee, &token_account_id);
    Payout {
        recipient: recipient_account_id,
        amount: available_rewards - service_fee,
        token_account_id,
        quiz_id: None,
        reward_id: None,
    }
}

/// The parts of the state that cancelling a quiz leaves alone.
pub open spec fn cancel_frame(a: &QuizChain, b: &QuizChain) -> bool {
    &&& b.rewards == a.rewards
    &&& cancel_frame_except_rewards(a, b)
}

pub open spec fn cancel_frame_except_rewards(a: &QuizChain, b: &QuizChain) -> bool {
    &&& b.questions == a.questions
    &&& b.question_options == a.question_options
    &&& b.next_quiz_id == a.next_quiz_id
    &&& b.quizzes_by_owner_id == a.quizzes_by_owner_id
    &&& b.quizzes_by_sponsor_id == a.quizzes_by_sponsor_id
    &&& create_frame(a, b)
}

impl QuizChain {
    pub open spec fn cancel_check(&self, now: Timestamp, quiz_id: QuizId) -> Result<(), QuizError> {
        let quiz = self.quizzes@[quiz_id as int];
        if quiz_id >= self.quizzes@.len() {
            Err(QuizError::QuizNotFound)
        } else if !(quiz.status == QuizStatus::InProgress || quiz.status == QuizStatus::Locked) {
            Err(QuizError::NotCancellable)
        } else if too_early(quiz.timestamp, now) {
            Err(QuizError::TooEarlyToCancel)
        } else if slots_sum(self.rewards@, quiz_id, quiz.available_rewards_ids@) > u128::MAX
            || !fee_fits(self.service_fees_total@, quiz.token_account_id,
                (slots_sum(self.rewards@, quiz_id, quiz.available_rewards_ids@) / 10) as Balance) {
            Err(QuizError::AmountOverflow)
        } else {
            Ok(())
        }
    }

    /// Cancels a quiz nobody completed within the cooldown: it ends, and the rewards still
    /// available go back to the owner, less the service fee.
    pub fn cancel_quiz(&mut self, now: Timestamp, quiz_id: QuizId) -> (r: Result<Payout, QuizError>)
        requires
            old(self).wf(),
        ensures
            final(self).wf(),
            winners_kept_all(old(self), final(self)),
            quiz_id < old(self).quizzes@.len() && too_early(old(self).quizzes@[quiz_id as int].timestamp, now) ==> r is Err,
            match old(self).cancel_check(now, quiz_id) {
                Err(e) => r == Err::<Payout, QuizError>(e) && *final(self) == *old(self),
                Ok(_) => {
                    let quiz = old(self).quizzes@[quiz_id as int];
                    let unspent = slots_sum(old(self).rewards@, quiz_id, quiz.available_rewards_ids@) as Balance;
                    &&& r matches Ok(p) && refund_payout(p, unspent, quiz.owner_id, quiz.token_account_id)
                    &&& final(self).quizzes@.len() == old(self).quizzes@.len()
                    &&& forall|i: int| 0 <= i < old(self).quizzes@.len() && i != quiz_id ==> final(self).quizzes@[i] == old(self).quizzes@[i]
                    &&& crate::game::quiz_lists_changed(quiz, final(self).quizzes@[quiz_id as int])
                    &&& final(self).quizzes@[quiz_id as int].status == QuizStatus::Finished
                    &&& final(self).quizzes@[quiz_id as int].available_rewards_ids@.len() == 0
                    &&& final(self).quizzes@[quiz_id as int].distributed_rewards_ids == quiz.distributed_rewards_ids
                    &&& forall|x: QuizId| #[trigger] final(self).active_quizzes@.contains(x) <==> old(self).active_quizzes@.contains(x) && x != quiz_id
                    &&& final(self).service_fees_total@ == old(self).service_fees_total@.insert(token_key(quiz.token_account_id),
                        (fees_in(old(self).service_fees_total@, token_key(quiz.token_account_id)) + unspent / 10) as Balance)
                    &&& cancel_frame(old(self), final(self))
                },
            },
    {
        let qi = match self.quiz_pos(quiz_id) {
            Some(i) => i,
            None => { return Err(QuizError::QuizNotFound); },
        };
        let status = self.quizzes[qi].status;
        if !(status == QuizStatus::InProgress || status == QuizStatus::Locked) {
            return Err(QuizError::NotCancellable);
        }
        if is_too_early(self.quizzes[qi].timestamp, now) {
            return Err(QuizError::TooEarlyToCancel);
        }
        proof {
            assert(slots_unawarded(quiz_id, self.quizzes@[quiz_id as int].available_rewards_ids@, self.rewards@));
        }
        let unspent = match sum_slots(&self.rewards, quiz_id, &self.quizzes[qi].available_rewards_ids) {
            Some(t) => t,
            None => { return Err(QuizError::AmountOverflow); },
        };
        if !can_add_service_fee(&self.service_fees_total, unspent / 10, &self.quizzes[qi].token_account_id) {
            return Err(QuizError::AmountOverflow);
        }
        let ghost pre = *self;
        self.quizzes[qi].status = QuizStatus::Finished;
        self.quizzes[qi].available_rewards_ids = Vec::new();
        self.active_quizzes = remove_id(&self.active_quizzes, quiz_id);
        let owner = self.quizzes[qi].owner_id.clone();
        let token = copy_opt_string(&self.quizzes[qi].token_account_id);
        let p = withdraw_available_rewards(&mut self.service_fees_total, unspent, owner, token);
        proof {
            assert forall|q: QuizId| q < self.quizzes@.len() implies
                #[trigger] slots_unawarded(q, self.quizzes@[q as int].available_rewards_ids@, self.rewards@) by {
                assert(slots_unawarded(q, pre.quizzes@[q as int].available_rewards_ids@, pre.rewards@));
                if q == quiz_id {
                    assert(self.quizzes@[q as int].available_rewards_ids@.len() == 0);
                }
            }
        }
        Ok(p)
    }

    pub open spec fn cancel_funded_check(&self, caller: AccountId, now: Timestamp, quiz_id: QuizId) -> Result<(), QuizError> {
        let quiz = self.quizzes@[quiz_id as int];
        let funded = match quiz.funded_amount { Some(a) => a, None => 0 };
        if quiz_id >= self.quizzes@.len() {
            Err(QuizError::QuizNotFound)
        } else if !(quiz.sponsor_account_id matches Some(s) && s@ == caller@) {
            Err(QuizError::NoAccess)
        } else if quiz.status != QuizStatus::Funded {
            Err(QuizError::QuizNotFunded)
        } else if too_early(quiz.timestamp, now) {
            Err(QuizError::TooEarlyToCancel)
        } else if !fee_fits(self.service_fees_total@, quiz.token_account_id, funded / 10) {
            Err(QuizError::AmountOverflow)
        } else {
            Ok(())
        }
    }

    /// The sponsor cancels a funded quiz that its owner never completed within the cooldown:
    /// the funds go back to the sponsor, less the service fee.
    pub fn cancel_funded_quiz(&mut self, caller: &AccountId, now: Timestamp, quiz_id: QuizId) -> (r: Result<Payout, QuizError>)
        requires
            old(self).wf(),
        ensures
            final(self).wf(),
            winners_kept_all(old(self), final(self)),
            quiz_id < old(self).quizzes@.len() && too_early(old(self).quizzes@[quiz_id as int].timestamp, now) ==> r is Err,
            match old(self).cancel_funded_check(*caller, now, quiz_id) {
                Err(e) => r == Err::<Payout, QuizError>(e) && *final(self) == *old(self),
                Ok(_) => {
                    let quiz = old(self).quizzes@[quiz_id as int];
                    let funded = match quiz.funded_amount { Some(a) => a, None => 0 };
                    &&& r matches Ok(p) && refund_payout(p, funded, quiz.sponsor_account_id.unwrap(), quiz.token_account_id)
                    &&& final(self).quizzes@ == old(self).quizzes@.update(quiz_id as int, Quiz { status: QuizStatus::Finished, ..quiz })
                    &&& forall|x: QuizId| #[trigger] final(self).active_quizzes@.contains(x) <==> old(self).active_quizzes@.contains(x) && x != quiz_id
                    &&& final(self).service_fees_total@ == old(self).service_fees_total@.insert(token_key(quiz.token_account_id),
                        (fees_in(old(self).service_fees_total@, token_key(quiz.token_account_id)) + funded / 10) as Balance)
                    &&& cancel_frame(old(self), final(self))
                },
            },
    {
        let qi = match self.quiz_pos(quiz_id) {
            Some(i) => i,
            None => { return Err(QuizError::QuizNotFound); },
        };
        let sponsor = match &self.quizzes[qi].sponsor_account_id {
            Some(s) => {
                if *s != *caller {
                    return Err(QuizError::NoAccess);
                }
                s.clone()
            },
            None => { return Err(QuizError::NoAccess); },
        };
        if self.quizzes[qi].status != QuizStatus::Funded {
            return Err(QuizError::QuizNotFunded);
        }
        if is_too_early(self.quizzes[qi].timestamp, now) {
            return Err(QuizError::TooEarlyToCancel);
        }
        let funded: Balance = match self.quizzes[qi].funded_amount {
            Some(a) => a,
            None => 0,
        };
        if !can_add_service_fee(&self.service_fees_total, funded / 10, &self.quizzes[qi].token_account_id) {
            return Err(QuizError::AmountOverflow);
        }
        let ghost pre = *self;
        self.quizzes[qi].status = QuizStatus::Finished;
        self.active_quizzes = remove_id(&self.active_quizzes, quiz_id);
        let token = copy_opt_string(&self.quizzes[qi].token_account_id);
        let p = withdraw_available_rewards(&mut self.service_fees_total, funded, sponsor, token);
        proof {
            assert(self.quizzes@ =~= pre.quizzes@.update(quiz_id as int, Quiz { status: QuizStatus::Finished, ..pre.quizzes@[quiz_id as int] }));
            assert forall|q: QuizId| q < self.quizzes@.len() implies
                #[trigger] slots_unawarded(q, self.quizzes@[q as int].available_rewards_ids@, self.rewards@) by {
                assert(slots_unawarded(q, pre.quizzes@[q as int].available_rewards_ids@, pre.rewards@));
            }
            assert forall|k: (QuizId, RewardId)| #[trigger] self.rewards@.contains_key(k) implies k.0 < self.quizzes@.len()
                && self.quizzes@[k.0 as int].status != QuizStatus::Funded by {
                assert(pre.rewards@.contains_key(k));
            }
        }
        Ok(p)
    }
}


impl QuizChain {
    pub open spec fn fund_check(&self, deposit: Balance, token: Option<TokenAccountId>) -> Result<(), QuizError> {
        if deposit * 100 > u128::MAX {
            Err(QuizError::AmountOverflow)
        } else if !fee_fits(self.service_fees_total@, token, funding_fee(deposit as int) as Balance) {
            Err(QuizError::AmountOverflow)
        } else {
            Ok(())
        }
    }

    /// The state after `sender` funded a new, empty quiz for `owner` with `deposit`, less the fee.
    pub open spec fn funded(
        &self,
        next: &QuizChain,
        sender: AccountId,
        owner: AccountId,
        deposit: Balance,
        token: Option<TokenAccountId>,
        now: Timestamp,
    ) -> bool {
        let id = self.quizzes@.len() as QuizId;
        let fee = funding_fee(deposit as int);
        let q = next.quizzes@[id as int];
        &&& next.quizzes@.len() == self.quizzes@.len() + 1
        &&& forall|i: int| 0 <= i < self.quizzes@.len() ==> next.quizzes@[i] == self.quizzes@[i]
        &&& q.status == QuizStatus::Funded
        &&& q.owner_id == owner
        &&& q.sponsor_account_id == Some(sender)
        &&& q.funded_amount == Some((deposit - fee) as Balance)
        &&& q.token_account_id == token
        &&& q.timestamp == Some(now)
        &&& q.total_questions == 0
        &&& q.available_rewards_ids@.len() == 0
        &&& q.distributed_rewards_ids@.len() == 0
        &&& q.secret is None
        &&& q.success_hash is None
        &&& q.revealed_answers is None
        &&& q.finality_type == QuizFinalityType::Direct
        &&& !q.restart_allowed
        &&& next.service_fees_total@ == self.service_fees_total@.insert(token_key(token),
            (fees_in(self.service_fees_total@, token_key(token)) + fee) as Balance)
        &&& ids_for(next.quizzes_by_owner_id@, owner@) == with_id(ids_for(self.quizzes_by_owner_id@, owner@), id)
        &&& forall|a: Seq<char>| a != owner@ ==> #[trigger] ids_for(next.quizzes_by_owner_id@, a) == ids_for(self.quizzes_by_owner_id@, a)
        &&& ids_for(next.quizzes_by_sponsor_id@, sender@) == with_id(ids_for(self.quizzes_by_sponsor_id@, sender@), id)
        &&& forall|a: Seq<char>| a != sender@ ==> #[trigger] ids_for(next.quizzes_by_sponsor_id@, a) == ids_for(self.quizzes_by_sponsor_id@, a)
        &&& next.next_quiz_id == id + 1
        &&& next.rewards == self.rewards
        &&& next.questions == self.questions
        &&& next.question_options == self.question_options
        &&& next.active_quizzes == self.active_quizzes
        &&& create_frame(self, next)
    }

    /// A sponsor funds an empty quiz for `quiz_owner_id` to complete later.
    pub fn create_quiz_for_account_internal(
        &mut self,
        sender_id: &AccountId,
        quiz_owner_id: &AccountId,
        deposit: Balance,
        token_account_id: Option<TokenAccountId>,
        now: Timestamp,
    ) -> (r: Result<QuizId, QuizError>)
        requires
            old(self).wf(),
        ensures
            final(self).wf(),
            winners_kept_all(old(self), final(self)),
            match old(self).fund_check(deposit, token_account_id) {
                Err(e) => r == Err::<QuizId, QuizError>(e) && *final(self) == *old(self),
                Ok(_) => r == Ok::<QuizId, QuizError>(old(self).quizzes@.len() as QuizId)
                    && old(self).funded(final(self), *sender_id, *quiz_owner_id, deposit, token_account_id, now),
            },
    {
        if deposit > u128::MAX / 100 {
            return Err(QuizError::AmountOverflow);
        }
        let service_fee: Balance = deposit - deposit * 100 / 101;
        if !can_add_service_fee(&self.service_fees_total, service_fee, &token_account_id) {
            return Err(QuizError::AmountOverflow);
        }
        let ghost pre = *self;
        let funded_amount: Balance = deposit - service_fee;
        add_service_fees_total(&mut self.service_fees_total, service_fee, &token_account_id);
        let quiz_id = self.next_quiz_id;
        self.quizzes.push(Quiz {
            title: None,
            description: None,
            language: None,
            finality_type: QuizFinalityType::Direct,
            owner_id: quiz_owner_id.clone(),
            status: QuizStatus::Funded,
            total_questions: 0,
            available_rewards_ids: Vec::new(),
            distributed_rewards_ids: Vec::new(),
            secret: None,
            success_hash: None,
            revealed_answers: None,
            sponsor_account_id: Some(sender_id.clone()),
            funded_amount: Some(funded_amount),
            restart_allowed: false,
            timestamp: Some(now),
            token_account_id,
        });
        let n = self.quizzes.len();
        assert(n as int == quiz_id + 1);
        self.next_quiz_id = quiz_id + 1;
        add_quiz_for_account(&mut self.quizzes_by_owner_id, quiz_id, quiz_owner_id.clone());
        add_quiz_for_account(&mut self.quizzes_by_sponsor_id, quiz_id, sender_id.clone());
        proof {
            assert forall|q: QuizId| q < self.quizzes@.len() implies
                #[trigger] slots_unawarded(q, self.quizzes@[q as int].available_rewards_ids@, self.rewards@) by {
                if q < pre.quizzes@.len() {
                    assert(slots_unawarded(q, pre.quizzes@[q as int].available_rewards_ids@, pre.rewards@));
                }
            }
        }
        Ok(quiz_id)
    }

    pub open spec fn update_check(
        &self,
        caller: AccountId,
        quiz_id: QuizId,
        questions: Seq<QuestionInput>,
        options: Seq<Vec<QuestionOption>>,
        rewards: Seq<RewardInput>,
    ) -> Result<(), QuizError> {
        let quiz = self.quizzes@[quiz_id as int];
        match content_check(questions, options, rewards) {
            Err(e) => Err(e),
            Ok(_) => if quiz_id >= self.quizzes@.len() {
                Err(QuizError::QuizNotFound)
            } else if quiz.status != QuizStatus::Funded {
                Err(QuizError::QuizNotFunded)
            } else if quiz.owner_id@ != caller@ {
                Err(QuizError::NoAccess)
            } else if rewards_sum(rewards) != (match quiz.funded_amount { Some(a) => a as int, None => 0 }) {
                Err(QuizError::IllegalRewards)
            } else {
                Ok(())
            },
        }
    }

    /// The owner completes a funded quiz: its questions and rewards, whose total must be
    /// the funded amount. With a secret the quiz is unlocked at once.
    pub fn update_funded_quiz(
        &mut self,
        caller: &AccountId,
        now: Timestamp,
        quiz_id: QuizId,
        title: String,
        description: Option<String>,
        language: Option<String>,
        finality_type: QuizFinalityType,
        questions: Vec<QuestionInput>,
        all_question_options: Vec<Vec<QuestionOption>>,
        rewards: Vec<RewardInput>,
        secret: Option<String>,
        success_hash: Option<String>,
        restart_allowed: bool,
    ) -> (r: Result<QuizId, QuizError>)
        requires
            old(self).wf(),
        ensures
            final(self).wf(),
            winners_kept_all(old(self), final(self)),
            match old(self).update_check(*caller, quiz_id, questions@, all_question_options@, rewards@) {
                Err(e) => r == Err::<QuizId, QuizError>(e) && *final(self) == *old(self),
                Ok(_) => {
                    let old_quiz = old(self).quizzes@[quiz_id as int];
                    let q = final(self).quizzes@[quiz_id as int];
                    &&& r == Ok::<QuizId, QuizError>(quiz_id)
                    &&& final(self).quizzes@.len() == old(self).quizzes@.len()
                    &&& forall|i: int| 0 <= i < old(self).quizzes@.len() && i != quiz_id ==> final(self).quizzes@[i] == old(self).quizzes@[i]
                    &&& new_quiz_holds(q, *caller, title, description, language, finality_type, questions@.len() as int,
                        rewards@.len() as int, secret, success_hash, restart_allowed, now, old_quiz.token_account_id,
                        if secret is Some { QuizStatus::InProgress } else { QuizStatus::Locked })
                    &&& final(self).rewards@ == rewards_stored(old(self).rewards@, quiz_id, rewards@)
                    &&& final(self).questions@ == questions_stored(old(self).questions@, quiz_id, questions@, all_question_options@)
                    &&& final(self).question_options@ == options_stored(old(self).question_options@, quiz_id, all_question_options@)
                    &&& forall|x: QuizId| #[trigger] final(self).active_quizzes@.contains(x)
                        <==> old(self).active_quizzes@.contains(x) || (x == quiz_id && secret is Some)
                    &&& final(self).service_fees_total == old(self).service_fees_total
                    &&& final(self).quizzes_by_sponsor_id == old(self).quizzes_by_sponsor_id
                    &&& create_frame(old(self), final(self))
                },
            },
    {
        let rewards_total = match check_content(&questions, &all_question_options, &rewards) {
            Ok(t) => t,
            Err(e) => { return Err(e); },
        };
        let qi = match self.quiz_pos(quiz_id) {
            Some(i) => i,
            None => { return Err(QuizError::QuizNotFound); },
        };
        if self.quizzes[qi].status != QuizStatus::Funded {
            return Err(QuizError::QuizNotFunded);
        }
        if self.quizzes[qi].owner_id != *caller {
            return Err(QuizError::NoAccess);
        }
        let funded_amount: Balance = match self.quizzes[qi].funded_amount {
            Some(a) => a,
            None => 0,
        };
        if funded_amount != rewards_total {
            return Err(QuizError::IllegalRewards);
        }
        let ghost pre = *self;
        proof {
            assert forall|k: (QuizId, RewardId)| #[trigger] pre.rewards@.contains_key(k) implies k.0 != quiz_id by {
                assert(pre.quizzes@[k.0 as int].status != QuizStatus::Funded);
            }
        }
        let unclaimed_rewards_ids = store_rewards(&mut self.rewards, quiz_id, &rewards);
        store_questions(&mut self.questions, &mut self.question_options, quiz_id, &questions, &all_question_options);
        let token = copy_opt_string(&self.quizzes[qi].token_account_id);
        let activate = secret.is_some();
        self.quizzes.set(qi, Quiz {
            title: Some(title),
            description,
            language,
            finality_type,
            owner_id: caller.clone(),
            status: if activate { QuizStatus::InProgress } else { QuizStatus::Locked },
            total_questions: questions.len() as u16,
            available_rewards_ids: unclaimed_rewards_ids,
            distributed_rewards_ids: Vec::new(),
            secret,
            success_hash,
            revealed_answers: None,
            sponsor_account_id: None,
            funded_amount: None,
            restart_allowed,
            timestamp: Some(now),
            token_account_id: token,
        });
        if activate {
            insert_id(&mut self.active_quizzes, quiz_id);
        }
        add_quiz_for_account(&mut self.quizzes_by_owner_id, quiz_id, caller.clone());
        proof {
            lemma_slot_ids_distinct(rewards@.len() as int);
            assert forall|q: QuizId| q < self.quizzes@.len() implies
                #[trigger] slots_unawarded(q, self.quizzes@[q as int].available_rewards_ids@, self.rewards@) by {
                if q == quiz_id {
                    let b = self.quizzes@[q as int].available_rewards_ids@;
                    assert(b == slot_ids(rewards@.len() as int));
                    assert forall|j: int| 0 <= j < b.len() implies #[trigger] self.rewards@.contains_key((q, b[j]))
                        && self.rewards@[(q, b[j])].winner_account_id is None by {
                        assert(b[j] as int == j);
                    }
                    assert(b.no_duplicates());
                    assert(slots_unawarded(q, b, self.rewards@));
                } else {
                    assert(slots_unawarded(q, pre.quizzes@[q as int].available_rewards_ids@, pre.rewards@));
                    assert(self.quizzes@[q as int] == pre.quizzes@[q as int]);
                    crate::state::lemma_slots_kept(q, pre.quizzes@[q as int].available_rewards_ids@, pre.rewards@, self.rewards@);
                }
            }
            assert forall|k: (QuizId, RewardId)| #[trigger] self.rewards@.contains_key(k) implies k.0 < self.quizzes@.len()
                && self.quizzes@[k.0 as int].status != QuizStatus::Funded by {
                if k.0 != quiz_id {
                    assert(pre.rewards@.contains_key(k));
                }
            }
        }
        Ok(quiz_id)
    }
}


impl QuizChain {
    /// `caller` unlocks its locked quiz.
    pub fn activate_quiz(&mut self, caller: &AccountId, quiz_id: QuizId, secret: String, success_hash: Option<String>)
        -> (r: Result<(), QuizError>)
        requires
            old(self).wf(),
        ensures
            final(self).wf(),
            r == old(self).activate_check(*caller, quiz_id),
            r is Err ==> *final(self) == *old(self),
            r is Ok ==> old(self).activated(final(self), quiz_id, secret, success_hash),
    {
        self.activate_quiz_internal(caller, quiz_id, secret, success_hash)
    }

    /// `caller` deposits funds for a quiz that `quiz_owner_id` is to complete.
    pub fn create_quiz_for_account(
        &mut self,
        caller: &AccountId,
        quiz_owner_id: &AccountId,
        deposit: Balance,
        token_account_id: Option<TokenAccountId>,
        now: Timestamp,
    ) -> (r: Result<QuizId, QuizError>)
        requires
            old(self).wf(),
        ensures
            final(self).wf(),
            winners_kept_all(old(self), final(self)),
            r is Err ==> *final(self) == *old(self),
            match old(self).fund_check(deposit, token_account_id) {
                Err(e) => r == Err::<QuizId, QuizError>(e),
                Ok(_) => r == Ok::<QuizId, QuizError>(old(self).quizzes@.len() as QuizId)
                    && old(self).funded(final(self), *caller, *quiz_owner_id, deposit, token_account_id, now),
            },
    {
        self.create_quiz_for_account_internal(caller, quiz_owner_id, deposit, token_account_id, now)
    }
}

} // verus!
