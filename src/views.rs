//! Read-side projections of the stored quizzes, games and counters.
use vstd::prelude::*;
use crate::game::{copy_accounts, count_in_quiz};
use crate::quiz::{copy_opt_string, slots_sum, sum_slots};
use crate::rewards::reward_outs;
use crate::state::{QuizChain, count_in, slots_unawarded};
use crate::types::{
    AccountId, Answer, AnswerByQuizByQuestionByUser, AnswerOutput, Balance, Game, Question, QuestionByQuiz,
    QuestionId, QuestionOption, QuestionOptionByQuiz, QuestionOptionId, QuestionOptionOutput, QuestionOutput,
    QuizByUser, QuizError, QuizId, QuizOutput, QuizResultByQuiz, QuizStatus, RevealedAnswer, StatsOutput,
    AffiliatesOutput,
};

verus! {

/// The ids below `n` under which quiz `q` stores an option of question `qid`, ascending.
pub open spec fn present_option_ids(
    opts: Map<(QuizId, QuestionId, QuestionOptionId), QuestionOption>,
    q: QuizId,
    qid: QuestionId,
    n: nat,
) -> Seq<QuestionOptionId>
    decreases n,
{
    if n == 0 {
        Seq::empty()
    } else {
        let s = present_option_ids(opts, q, qid, (n - 1) as nat);
        if opts.contains_key((q, qid, (n - 1) as QuestionOptionId)) {
            s.push((n - 1) as QuestionOptionId)
        } else {
            s
        }
    }
}

/// The ids below `n` under which quiz `q` stores a question, ascending.
pub open spec fn present_question_ids(questions: Map<(QuizId, QuestionId), Question>, q: QuizId, n: nat) -> Seq<QuestionId>
    decreases n,
{
    if n == 0 {
        Seq::empty()
    } else {
        let s = present_question_ids(questions, q, (n - 1) as nat);
        if questions.contains_key((q, (n - 1) as QuestionId)) {
            s.push((n - 1) as QuestionId)
        } else {
            s
        }
    }
}

/// `out` shows the options `ids` of question `qid` of quiz `q`, in order.
pub open spec fn shows_options(
    out: Seq<QuestionOptionOutput>,
    opts: Map<(QuizId, QuestionId, QuestionOptionId), QuestionOption>,
    q: QuizId,
    qid: QuestionId,
    ids: Seq<QuestionOptionId>,
) -> bool {
    &&& out.len() == ids.len()
    &&& forall|i: int| 0 <= i < ids.len() ==> {
        let o = #[trigger] out[i];
        &&& o.id == ids[i]
        &&& o.content == opts[(q, qid, ids[i])].content
        &&& o.kind == opts[(q, qid, ids[i])].kind
    }
}

pub open spec fn same_ids(a: Option<Vec<QuestionOptionId>>, b: Option<Vec<QuestionOptionId>>) -> bool {
    match (a, b) {
        (Some(x), Some(y)) => x@ == y@,
        (None, None) => true,
        _ => false,
    }
}

pub fn copy_ids(v: &Vec<u16>) -> (r: Vec<u16>)
    ensures
        r@ == v@,
{
    let mut r: Vec<u16> = Vec::new();
    let mut i: usize = 0;
    while i < v.len()
        invariant
            i <= v@.len(),
            r@ == v@.subrange(0, i as int),
        decreases v@.len() - i,
    {
        r.push(v[i]);
        assert(v@.subrange(0, i + 1) =~= v@.subrange(0, i as int).push(v@[i as int]));
        i = i + 1;
    }
    assert(v@.subrange(0, v@.len() as int) =~= v@);
    r
}

pub fn copy_quiz_ids(v: &Vec<QuizId>) -> (r: Vec<QuizId>)
    ensures
        r@ == v@,
{
    let mut r: Vec<QuizId> = Vec::new();
    let mut i: usize = 0;
    while i < v.len()
        invariant
            i <= v@.len(),
            r@ == v@.subrange(0, i as int),
        decreases v@.len() - i,
    {
        r.push(v[i]);
        assert(v@.subrange(0, i + 1) =~= v@.subrange(0, i as int).push(v@[i as int]));
        i = i + 1;
    }
    assert(v@.subrange(0, v@.len() as int) =~= v@);
    r
}

pub fn copy_opt_ids(o: &Option<Vec<u16>>) -> (r: Option<Vec<u16>>)
    ensures
        same_ids(r, *o),
{
    match o {
        Some(v) => Some(copy_ids(v)),
        None => None,
    }
}

/// Each disclosed answer of `r` selects what the one of `v` at its position selects.
pub open spec fn same_key(r: Seq<RevealedAnswer>, v: Seq<RevealedAnswer>) -> bool {
    &&& r.len() == v.len()
    &&& forall|i: int| 0 <= i < v.len() ==> same_ids((#[trigger] r[i]).selected_option_ids, v[i].selected_option_ids)
        && r[i].selected_text == v[i].selected_text
}

pub fn copy_key(v: &Vec<RevealedAnswer>) -> (r: Vec<RevealedAnswer>)
    ensures
        same_key(r@, v@),
{
    let mut r: Vec<RevealedAnswer> = Vec::new();
    let mut i: usize = 0;
    while i < v.len()
        invariant
            i <= v@.len(),
            same_key(r@, v@.subrange(0, i as int)),
        decreases v@.len() - i,
    {
        r.push(RevealedAnswer {
            selected_option_ids: copy_opt_ids(&v[i].selected_option_ids),
            selected_text: copy_opt_string(&v[i].selected_text),
        });
        i = i + 1;
    }
    assert(v@.subrange(0, v@.len() as int) =~= v@);
    r
}

/// `out` shows the stored questions of quiz `q` with ids below `n`, in order, with their options.
pub open spec fn shows_questions(out: Seq<QuestionOutput>, s: &QuizChain, q: QuizId, n: nat) -> bool {
    let ids = present_question_ids(s.questions@, q, n);
    &&& out.len() == ids.len()
    &&& forall|i: int| 0 <= i < ids.len() ==> {
        let o = #[trigger] out[i];
        let stored = s.questions@[(q, ids[i])];
        &&& o.id == ids[i]
        &&& o.question == stored
        &&& shows_options(o.question_options@, s.question_options@, q, ids[i],
            present_option_ids(s.question_options@, q, ids[i], stored.options_quantity as nat))
    }
}

impl QuizChain {
    /// The options of question `question_id` of `quiz_id` with ids below `options_quantity`.
    pub fn get_question_options_by_question_id(&self, quiz_id: QuizId, question_id: QuestionId, options_quantity: u16)
        -> (r: Vec<QuestionOptionOutput>)
        requires
            self.wf(),
        ensures
            shows_options(r@, self.question_options@, quiz_id, question_id,
                present_option_ids(self.question_options@, quiz_id, question_id, options_quantity as nat)),
    {
        let mut out: Vec<QuestionOptionOutput> = Vec::new();
        let mut j: u16 = 0;
        while j < options_quantity
            invariant
                self.wf(),
                j <= options_quantity,
                shows_options(out@, self.question_options@, quiz_id, question_id,
                    present_option_ids(self.question_options@, quiz_id, question_id, j as nat)),
            decreases options_quantity - j,
        {
            match self.question_options.get(&QuestionOptionByQuiz { quiz_id, question_id, question_option_id: j }) {
                Some(o) => {
                    out.push(QuestionOptionOutput { id: j, content: o.content.clone(), kind: o.kind });
                },
                None => {},
            }
            proof {
                let ids = present_option_ids(self.question_options@, quiz_id, question_id, (j + 1) as nat);
                assert(((j + 1) as nat - 1) as nat == j as nat);
            }
            j = j + 1;
        }
        out
    }

    /// The questions of `quiz_id` with their options, in question order.
    pub fn get_questions_by_quiz(&self, quiz_id: QuizId) -> (r: Vec<QuestionOutput>)
        requires
            self.wf(),
        ensures
            quiz_id >= self.quizzes@.len() ==> r@.len() == 0,
            quiz_id < self.quizzes@.len() ==> shows_questions(r@, self, quiz_id, self.quizzes@[quiz_id as int].total_questions as nat),
    {
        let mut out: Vec<QuestionOutput> = Vec::new();
        let qi = match self.quiz_pos(quiz_id) {
            Some(i) => i,
            None => { return out; },
        };
        let total = self.quizzes[qi].total_questions;
        let mut j: u16 = 0;
        while j < total
            invariant
                self.wf(),
                qi == quiz_id,
                quiz_id < self.quizzes@.len(),
                total == self.quizzes@[quiz_id as int].total_questions,
                j <= total,
                shows_questions(out@, self, quiz_id, j as nat),
            decreases total - j,
        {
            match self.questions.get(&QuestionByQuiz { quiz_id, question_id: j }) {
                Some(q) => {
                    let options = self.get_question_options_by_question_id(quiz_id, j, q.options_quantity);
                    out.push(QuestionOutput {
                        id: j,
                        question: Question {
                            kind: q.kind,
                            content: q.content.clone(),
                            hint: copy_opt_string(&q.hint),
                            options_quantity: q.options_quantity,
                        },
                        question_options: options,
                    });
                },
                None => {},
            }
            proof {
                assert(((j + 1) as nat - 1) as nat == j as nat);
            }
            j = j + 1;
        }
        out
    }

    /// The sum of the still-available rewards of a quiz in progress (zero for no quiz).
    pub fn get_available_rewards(&self, quiz_id: QuizId) -> (r: Result<Balance, QuizError>)
        requires
            self.wf(),
        ensures
            quiz_id >= self.quizzes@.len() ==> r == Ok::<Balance, QuizError>(0),
            quiz_id < self.quizzes@.len() ==> {
                let quiz = self.quizzes@[quiz_id as int];
                let total = slots_sum(self.rewards@, quiz_id, quiz.available_rewards_ids@);
                if quiz.status != QuizStatus::InProgress {
                    r == Err::<Balance, QuizError>(QuizError::QuizNotInProgress)
                } else if total > u128::MAX {
                    r == Err::<Balance, QuizError>(QuizError::AmountOverflow)
                } else {
                    r == Ok::<Balance, QuizError>(total as Balance)
                }
            },
    {
        let qi = match self.quiz_pos(quiz_id) {
            Some(i) => i,
            None => { return Ok(0); },
        };
        if self.quizzes[qi].status != QuizStatus::InProgress {
            return Err(QuizError::QuizNotInProgress);
        }
        proof {
            assert(slots_unawarded(quiz_id, self.quizzes@[quiz_id as int].available_rewards_ids@, self.rewards@));
        }
        match sum_slots(&self.rewards, quiz_id, &self.quizzes[qi].available_rewards_ids) {
            Some(t) => Ok(t),
            None => Err(QuizError::AmountOverflow),
        }
    }

    /// The stored quiz `quiz_id` with its questions and rewards.
    pub fn get_quiz(&self, quiz_id: QuizId) -> (r: Option<QuizOutput>)
        requires
            self.wf(),
        ensures
            r is None <==> quiz_id >= self.quizzes@.len(),
            r matches Some(o) ==> {
                let quiz = self.quizzes@[quiz_id as int];
                &&& o.id == quiz_id
                &&& o.title == quiz.title
                &&& o.description == quiz.description
                &&& o.language == quiz.language
                &&& o.finality_type == quiz.finality_type
                &&& o.owner_id == quiz.owner_id
                &&& o.status == quiz.status
                &&& o.total_questions == quiz.total_questions
                &&& o.unclaimed_rewards_ids@ == quiz.available_rewards_ids@
                &&& o.secret == quiz.secret
                &&& o.success_hash == quiz.success_hash
                &&& shows_questions(o.questions@, self, quiz_id, quiz.total_questions as nat)
                &&& o.available_rewards@ == reward_outs(self.rewards@, quiz_id, quiz.available_rewards_ids@)
                &&& o.distributed_rewards@ == reward_outs(self.rewards@, quiz_id, quiz.distributed_rewards_ids@)
                &&& (o.revealed_answers is Some <==> quiz.revealed_answers is Some)
                &&& (o.revealed_answers is Some ==> same_key(o.revealed_answers.unwrap()@, quiz.revealed_answers.unwrap()@))
                &&& o.timestamp == quiz.timestamp
                &&& o.restart_allowed == quiz.restart_allowed
                &&& o.token_account_id == quiz.token_account_id
                &&& o.funded_amount == quiz.funded_amount
            },
    {
        let qi = match self.quiz_pos(quiz_id) {
            Some(i) => i,
            None => { return None; },
        };
        let quiz = &self.quizzes[qi];
        Some(QuizOutput {
            id: quiz_id,
            title: copy_opt_string(&quiz.title),
            description: copy_opt_string(&quiz.description),
            language: copy_opt_string(&quiz.language),
            finality_type: quiz.finality_type,
            owner_id: quiz.owner_id.clone(),
            status: quiz.status,
            total_questions: quiz.total_questions,
            unclaimed_rewards_ids: copy_ids(&quiz.available_rewards_ids),
            secret: copy_opt_string(&quiz.secret),
            success_hash: copy_opt_string(&quiz.success_hash),
            questions: self.get_questions_by_quiz(quiz_id),
            available_rewards: self.get_unclaimed_rewards_by_quiz(quiz_id),
            distributed_rewards: self.get_distributed_rewards_by_quiz(quiz_id),
            revealed_answers: match &quiz.revealed_answers {
                Some(v) => Some(copy_key(v)),
                None => None,
            },
            timestamp: quiz.timestamp,
            restart_allowed: quiz.restart_allowed,
            token_account_id: copy_opt_string(&quiz.token_account_id),
            funded_amount: quiz.funded_amount,
        })
    }
}


/// The end of the page that starts at `from` and holds at most `limit` of `len` items.
pub open spec fn page_end(from: int, limit: int, len: int) -> int {
    if limit > len - from { len } else { from + limit }
}

pub fn page_end_exec(from: usize, limit: usize, len: usize) -> (r: usize)
    requires
        from <= len,
    ensures
        r == page_end(from as int, limit as int, len as int),
{
    if limit > len - from { len } else { from + limit }
}

/// The ids of `ids` that name a stored quiz, in order.
pub open spec fn existing_quiz_ids(ids: Seq<QuizId>, n: nat) -> Seq<QuizId>
    decreases ids.len(),
{
    if ids.len() == 0 {
        Seq::empty()
    } else {
        let s = existing_quiz_ids(ids.drop_last(), n);
        if ids.last() < n { s.push(ids.last()) } else { s }
    }
}

/// What the stats of one player show.
pub open spec fn stat_of(s: &QuizChain, q: QuizId, p: AccountId) -> StatsOutput {
    let g = s.games@[(q, p@)];
    StatsOutput {
        player_id: p,
        answers_quantity: g.answers_quantity,
        last_answer_timestamp: if g.answers_quantity > 0
            && s.answers@.contains_key((q, (g.answers_quantity - 1) as QuestionId, p@)) {
            Some(s.answers@[(q, (g.answers_quantity - 1) as QuestionId, p@)].timestamp)
        } else {
            None
        },
    }
}

/// The stats of the players among `ps` that have a game of quiz `q`, in order.
pub open spec fn stats_of(s: &QuizChain, q: QuizId, ps: Seq<AccountId>) -> Seq<StatsOutput>
    decreases ps.len(),
{
    if ps.len() == 0 {
        Seq::empty()
    } else {
        let rest = stats_of(s, q, ps.drop_last());
        if s.games@.contains_key((q, ps.last()@)) { rest.push(stat_of(s, q, ps.last())) } else { rest }
    }
}

/// The ids below `n` of the questions of quiz `q` that `a` answered, ascending.
pub open spec fn answered_ids(s: &QuizChain, q: QuizId, a: Seq<char>, n: nat) -> Seq<QuestionId>
    decreases n,
{
    if n == 0 {
        Seq::empty()
    } else {
        let rest = answered_ids(s, q, a, (n - 1) as nat);
        let id = (n - 1) as QuestionId;
        if s.questions@.contains_key((q, id)) && s.answers@.contains_key((q, id, a)) { rest.push(id) } else { rest }
    }
}

/// Whether a stored answer selects what a disclosed one does.
pub open spec fn matches_key(ans: Answer, key: RevealedAnswer) -> bool {
    same_ids(ans.selected_option_ids, key.selected_option_ids) && same_text(ans.selected_text, key.selected_text)
}

pub open spec fn same_text(a: Option<String>, b: Option<String>) -> bool {
    match (a, b) {
        (Some(x), Some(y)) => x@ == y@,
        (None, None) => true,
        _ => false,
    }
}

pub fn ids_equal(a: &Option<Vec<u16>>, b: &Option<Vec<u16>>) -> (r: bool)
    ensures
        r == same_ids(*a, *b),
{
    match (a, b) {
        (Some(x), Some(y)) => {
            if x.len() != y.len() {
                assert(x@.len() != y@.len());
                return false;
            }
            let mut i: usize = 0;
            while i < x.len()
                invariant
                    *a == Some(*x),
                    *b == Some(*y),
                    x@.len() == y@.len(),
                    i <= x@.len(),
                    forall|j: int| 0 <= j < i ==> x@[j] == y@[j],
                decreases x@.len() - i,
            {
                if x[i] != y[i] {
                    assert(x@[i as int] != y@[i as int]);
                    assert(x@ != y@);
                    return false;
                }
                i = i + 1;
            }
            assert(x@ =~= y@);
            true
        },
        (None, None) => true,
        _ => false,
    }
}

pub fn texts_equal(a: &Option<String>, b: &Option<String>) -> (r: bool)
    ensures
        r == same_text(*a, *b),
{
    match (a, b) {
        (Some(x), Some(y)) => *x == *y,
        (None, None) => true,
        _ => false,
    }
}

impl QuizChain {
    /// The stored quizzes among `quizzes_ids[from_index..]`, at most `limit` ids of it.
    pub fn get_quizzes_by_ids(&self, quizzes_ids: &Vec<QuizId>, from_index: usize, limit: usize) -> (r: Result<Vec<QuizOutput>, QuizError>)
        requires
            self.wf(),
        ensures
            from_index > quizzes_ids@.len() ==> r == Err::<Vec<QuizOutput>, QuizError>(QuizError::IllegalFromIndex),
            from_index <= quizzes_ids@.len() ==> (r matches Ok(v) && v@.map_values(|o: QuizOutput| o.id) == existing_quiz_ids(
                quizzes_ids@.subrange(from_index as int, page_end(from_index as int, limit as int, quizzes_ids@.len() as int)),
                self.quizzes@.len())),
    {
        if from_index > quizzes_ids.len() {
            return Err(QuizError::IllegalFromIndex);
        }
        let end = page_end_exec(from_index, limit, quizzes_ids.len());
        let mut out: Vec<QuizOutput> = Vec::new();
        let mut i: usize = from_index;
        while i < end
            invariant
                self.wf(),
                from_index <= i <= end <= quizzes_ids@.len(),
                out@.map_values(|o: QuizOutput| o.id) == existing_quiz_ids(quizzes_ids@.subrange(from_index as int, i as int), self.quizzes@.len()),
            decreases end - i,
        {
            proof {
                assert(quizzes_ids@.subrange(from_index as int, i + 1).drop_last() =~= quizzes_ids@.subrange(from_index as int, i as int));
            }
            let ghost before = out@;
            match self.get_quiz(quizzes_ids[i]) {
                Some(o) => {
                    out.push(o);
                    proof {
                        assert(out@.map_values(|o: QuizOutput| o.id) =~= before.map_values(|o: QuizOutput| o.id).push(quizzes_ids@[i as int]));
                    }
                },
                None => {},
            }
            i = i + 1;
        }
        Ok(out)
    }

    fn quizzes_in(&self, index: &crate::table::Table<AccountId, Vec<QuizId>>, account_id: &AccountId, from_index: usize, limit: usize)
        -> (r: Result<Option<Vec<QuizOutput>>, QuizError>)
        requires
            self.wf(),
            index.wf(),
        ensures
            !index@.contains_key(account_id@) ==> r == Ok::<Option<Vec<QuizOutput>>, QuizError>(None),
            index@.contains_key(account_id@) ==> {
                let ids = index@[account_id@]@;
                &&& from_index > ids.len() ==> r == Err::<Option<Vec<QuizOutput>>, QuizError>(QuizError::IllegalFromIndex)
                &&& from_index <= ids.len() ==> (r matches Ok(Some(v)) && v@.map_values(|o: QuizOutput| o.id) == existing_quiz_ids(
                    ids.subrange(from_index as int, page_end(from_index as int, limit as int, ids.len() as int)), self.quizzes@.len()))
            },
    {
        match index.get(account_id) {
            Some(ids) => match self.get_quizzes_by_ids(ids, from_index, limit) {
                Ok(v) => Ok(Some(v)),
                Err(e) => Err(e),
            },
            None => Ok(None),
        }
    }

    /// A page of the quizzes that `account_id` played.
    pub fn get_quizzes_by_player(&self, account_id: &AccountId, from_index: usize, limit: usize) -> (r: Result<Option<Vec<QuizOutput>>, QuizError>)
        requires
            self.wf(),
        ensures
            !self.quizzes_by_player_id@.contains_key(account_id@) ==> r == Ok::<Option<Vec<QuizOutput>>, QuizError>(None),
            self.quizzes_by_player_id@.contains_key(account_id@) ==> {
                let ids = self.quizzes_by_player_id@[account_id@]@;
                &&& from_index > ids.len() ==> r == Err::<Option<Vec<QuizOutput>>, QuizError>(QuizError::IllegalFromIndex)
                &&& from_index <= ids.len() ==> (r matches Ok(Some(v)) && v@.map_values(|o: QuizOutput| o.id) == existing_quiz_ids(
                    ids.subrange(from_index as int, page_end(from_index as int, limit as int, ids.len() as int)), self.quizzes@.len()))
            },
    {
        self.quizzes_in(&self.quizzes_by_player_id, account_id, from_index, limit)
    }

    /// A page of the quizzes that `account_id` owns.
    pub fn get_quizzes_by_owner(&self, account_id: &AccountId, from_index: usize, limit: usize) -> (r: Result<Option<Vec<QuizOutput>>, QuizError>)
        requires
            self.wf(),
        ensures
            !self.quizzes_by_owner_id@.contains_key(account_id@) ==> r == Ok::<Option<Vec<QuizOutput>>, QuizError>(None),
            self.quizzes_by_owner_id@.contains_key(account_id@) ==> {
                let ids = self.quizzes_by_owner_id@[account_id@]@;
                &&& from_index > ids.len() ==> r == Err::<Option<Vec<QuizOutput>>, QuizError>(QuizError::IllegalFromIndex)
                &&& from_index <= ids.len() ==> (r matches Ok(Some(v)) && v@.map_values(|o: QuizOutput| o.id) == existing_quiz_ids(
                    ids.subrange(from_index as int, page_end(from_index as int, limit as int, ids.len() as int)), self.quizzes@.len()))
            },
    {
        self.quizzes_in(&self.quizzes_by_owner_id, account_id, from_index, limit)
    }

    /// A page of the quizzes that `account_id` funded.
    pub fn get_quizzes_by_sponsor(&self, account_id: &AccountId, from_index: usize, limit: usize) -> (r: Result<Option<Vec<QuizOutput>>, QuizError>)
        requires
            self.wf(),
        ensures
            !self.quizzes_by_sponsor_id@.contains_key(account_id@) ==> r == Ok::<Option<Vec<QuizOutput>>, QuizError>(None),
            self.quizzes_by_sponsor_id@.contains_key(account_id@) ==> {
                let ids = self.quizzes_by_sponsor_id@[account_id@]@;
                &&& from_index > ids.len() ==> r == Err::<Option<Vec<QuizOutput>>, QuizError>(QuizError::IllegalFromIndex)
                &&& from_index <= ids.len() ==> (r matches Ok(Some(v)) && v@.map_values(|o: QuizOutput| o.id) == existing_quiz_ids(
                    ids.subrange(from_index as int, page_end(from_index as int, limit as int, ids.len() as int)), self.quizzes@.len()))
            },
    {
        self.quizzes_in(&self.quizzes_by_sponsor_id, account_id, from_index, limit)
    }

    pub fn get_active_quizzes(&self) -> (r: Vec<QuizId>)
        ensures
            r@ == self.active_quizzes@,
    {
        copy_quiz_ids(&self.active_quizzes)
    }

    /// The accounts that ended a delayed-finality game of `quiz_id` on `hash`, in arrival order.
    pub fn get_users_with_final_hash(&self, quiz_id: QuizId, hash: String) -> (r: Option<Vec<AccountId>>)
        requires
            self.wf(),
        ensures
            r is Some <==> self.quiz_results@.contains_key((quiz_id, hash@)),
            r matches Some(v) ==> v@ == self.quiz_results@[(quiz_id, hash@)]@,
    {
        match self.quiz_results.get(&QuizResultByQuiz { quiz_id, hash }) {
            Some(v) => Some(copy_accounts(v)),
            None => None,
        }
    }

    pub fn get_total_affiliates_for_account(&self, account_id: &AccountId) -> (r: u64)
        requires
            self.wf(),
        ensures
            r == count_in(self.total_affiliates@, account_id@),
    {
        match self.total_affiliates.get(account_id) {
            Some(n) => *n,
            None => 0,
        }
    }

    pub fn get_affiliates_for_account(&self, account_id: &AccountId, quiz_id: QuizId) -> (r: u64)
        requires
            self.wf(),
        ensures
            r == count_in_quiz(self.affiliates@, quiz_id, account_id@),
    {
        match self.affiliates.get(&QuizByUser { quiz_id, account_id: account_id.clone() }) {
            Some(n) => *n,
            None => 0,
        }
    }

    pub fn get_game(&self, quiz_id: QuizId, account_id: &AccountId) -> (r: Option<Game>)
        requires
            self.wf(),
        ensures
            r is Some <==> self.games@.contains_key((quiz_id, account_id@)),
            r matches Some(g) ==> g == self.games@[(quiz_id, account_id@)],
    {
        match self.games.get(&QuizByUser { quiz_id, account_id: account_id.clone() }) {
            Some(g) => Some(Game { answers_quantity: g.answers_quantity, current_hash: g.current_hash.clone() }),
            None => None,
        }
    }

    pub fn get_answer(&self, quiz_id: QuizId, question_id: QuestionId, account_id: &AccountId) -> (r: Option<Answer>)
        requires
            self.wf(),
        ensures
            r is Some <==> self.answers@.contains_key((quiz_id, question_id, account_id@)),
            r matches Some(a) ==> {
                let stored = self.answers@[(quiz_id, question_id, account_id@)];
                same_ids(a.selected_option_ids, stored.selected_option_ids) && a.selected_text == stored.selected_text
                    && a.timestamp == stored.timestamp
            },
    {
        match self.answers.get(&AnswerByQuizByQuestionByUser { quiz_id, question_id, account_id: account_id.clone() }) {
            Some(a) => Some(Answer {
                selected_option_ids: copy_opt_ids(&a.selected_option_ids),
                selected_text: copy_opt_string(&a.selected_text),
                timestamp: a.timestamp,
            }),
            None => None,
        }
    }

    /// The disclosed answer to question `question_id`, once the key is published.
    pub fn get_revealed_answer(&self, quiz_id: QuizId, question_id: QuestionId) -> (r: Option<RevealedAnswer>)
        requires
            self.wf(),
        ensures
            r is Some <==> quiz_id < self.quizzes@.len() && self.quizzes@[quiz_id as int].revealed_answers is Some
                && (question_id as int) < self.quizzes@[quiz_id as int].revealed_answers.unwrap()@.len(),
            r matches Some(a) ==> {
                let key = self.quizzes@[quiz_id as int].revealed_answers.unwrap()@[question_id as int];
                same_ids(a.selected_option_ids, key.selected_option_ids) && a.selected_text == key.selected_text
            },
    {
        let qi = match self.quiz_pos(quiz_id) {
            Some(i) => i,
            None => { return None; },
        };
        match &self.quizzes[qi].revealed_answers {
            Some(v) => {
                if (question_id as usize) < v.len() {
                    let a = &v[question_id as usize];
                    Some(RevealedAnswer {
                        selected_option_ids: copy_opt_ids(&a.selected_option_ids),
                        selected_text: copy_opt_string(&a.selected_text),
                    })
                } else {
                    None
                }
            },
            None => None,
        }
    }

    /// A page of the players of `quiz_id` with their progress.
    pub fn get_quiz_stats(&self, quiz_id: QuizId, from_index: usize, limit: usize) -> (r: Result<Option<Vec<StatsOutput>>, QuizError>)
        requires
            self.wf(),
        ensures
            !self.players@.contains_key(quiz_id) ==> r == Ok::<Option<Vec<StatsOutput>>, QuizError>(None),
            self.players@.contains_key(quiz_id) ==> {
                let ps = self.players@[quiz_id]@;
                &&& from_index > ps.len() ==> r == Err::<Option<Vec<StatsOutput>>, QuizError>(QuizError::IllegalFromIndex)
                &&& from_index <= ps.len() ==> (r matches Ok(Some(v)) && v@ == stats_of(self, quiz_id,
                    ps.subrange(from_index as int, page_end(from_index as int, limit as int, ps.len() as int))))
            },
    {
        let ps = match self.players.get(&quiz_id) {
            Some(ps) => ps,
            None => { return Ok(None); },
        };
        if from_index > ps.len() {
            return Err(QuizError::IllegalFromIndex);
        }
        let end = page_end_exec(from_index, limit, ps.len());
        let mut out: Vec<StatsOutput> = Vec::new();
        let mut i: usize = from_index;
        while i < end
            invariant
                self.wf(),
                from_index <= i <= end <= ps@.len(),
                out@ == stats_of(self, quiz_id, ps@.subrange(from_index as int, i as int)),
            decreases end - i,
        {
            proof {
                assert(ps@.subrange(from_index as int, i + 1).drop_last() =~= ps@.subrange(from_index as int, i as int));
            }
            let p = &ps[i];
            match self.games.get(&QuizByUser { quiz_id, account_id: p.clone() }) {
                Some(g) => {
                    let last = if g.answers_quantity > 0 {
                        match self.answers.get(&AnswerByQuizByQuestionByUser { quiz_id, question_id: g.answers_quantity - 1, account_id: p.clone() }) {
                            Some(a) => Some(a.timestamp),
                            None => None,
                        }
                    } else {
                        None
                    };
                    out.push(StatsOutput { player_id: p.clone(), answers_quantity: g.answers_quantity, last_answer_timestamp: last });
                },
                None => {},
            }
            i = i + 1;
        }
        Ok(Some(out))
    }

    /// `account_id`'s answers to `quiz_id`, marked right or wrong once the key is published.
    pub fn get_answers(&self, quiz_id: QuizId, account_id: &AccountId) -> (r: Result<Vec<AnswerOutput>, QuizError>)
        requires
            self.wf(),
        ensures
            quiz_id >= self.quizzes@.len() ==> r == Err::<Vec<AnswerOutput>, QuizError>(QuizError::QuizNotFound),
            quiz_id < self.quizzes@.len() ==> (r matches Ok(v) && {
                let quiz = self.quizzes@[quiz_id as int];
                let ids = answered_ids(self, quiz_id, account_id@, quiz.total_questions as nat);
                let key = match quiz.revealed_answers { Some(k) => k@, None => Seq::empty() };
                &&& v@.len() == ids.len()
                &&& forall|i: int| 0 <= i < ids.len() ==> {
                    let o = #[trigger] v@[i];
                    let stored = self.answers@[(quiz_id, ids[i], account_id@)];
                    &&& o.id == ids[i]
                    &&& same_ids(o.selected_option_ids, stored.selected_option_ids)
                    &&& o.selected_text == stored.selected_text
                    &&& o.timestamp == stored.timestamp
                    &&& o.is_correct == (if key.len() > 0 && (ids[i] as int) < key.len() {
                        Some(matches_key(stored, key[ids[i] as int]))
                    } else {
                        None
                    })
                }
            }),
    {
        let qi = match self.quiz_pos(quiz_id) {
            Some(i) => i,
            None => { return Err(QuizError::QuizNotFound); },
        };
        let total = self.quizzes[qi].total_questions;
        let empty: Vec<RevealedAnswer> = Vec::new();
        let key: &Vec<RevealedAnswer> = match &self.quizzes[qi].revealed_answers {
            Some(k) => k,
            None => &empty,
        };
        let ghost kv = key@;
        let mut out: Vec<AnswerOutput> = Vec::new();
        let mut j: u16 = 0;
        while j < total
            invariant
                self.wf(),
                qi == quiz_id,
                quiz_id < self.quizzes@.len(),
                total == self.quizzes@[quiz_id as int].total_questions,
                kv == key@,
                kv == (match self.quizzes@[quiz_id as int].revealed_answers { Some(k) => k@, None => Seq::<RevealedAnswer>::empty() }),
                j <= total,
                ({
                    let ids = answered_ids(self, quiz_id, account_id@, j as nat);
                    &&& out@.len() == ids.len()
                    &&& forall|i: int| 0 <= i < ids.len() ==> {
                        let o = #[trigger] out@[i];
                        let stored = self.answers@[(quiz_id, ids[i], account_id@)];
                        &&& o.id == ids[i]
                        &&& same_ids(o.selected_option_ids, stored.selected_option_ids)
                        &&& o.selected_text == stored.selected_text
                        &&& o.timestamp == stored.timestamp
                        &&& o.is_correct == (if kv.len() > 0 && (ids[i] as int) < kv.len() {
                            Some(matches_key(stored, kv[ids[i] as int]))
                        } else {
                            None
                        })
                    }
                }),
            decreases total - j,
        {
            if self.questions.get(&QuestionByQuiz { quiz_id, question_id: j }).is_some() {
                match self.answers.get(&AnswerByQuizByQuestionByUser { quiz_id, question_id: j, account_id: account_id.clone() }) {
                    Some(a) => {
                        let is_correct = if key.len() > 0 && (j as usize) < key.len() {
                            let k = &key[j as usize];
                            Some(ids_equal(&a.selected_option_ids, &k.selected_option_ids)
                                && texts_equal(&a.selected_text, &k.selected_text))
                        } else {
                            None
                        };
                        out.push(AnswerOutput {
                            id: j,
                            selected_option_ids: copy_opt_ids(&a.selected_option_ids),
                            selected_text: copy_opt_string(&a.selected_text),
                            timestamp: a.timestamp,
                            is_correct,
                        });
                    },
                    None => {},
                }
            }
            proof {
                assert(((j + 1) as nat - 1) as nat == j as nat);
            }
            j = j + 1;
        }
        Ok(out)
    }
}


/// The referral counts of quiz `q`, in order of each referrer's first referral.
pub open spec fn quiz_referrals(keys: Seq<(QuizId, Seq<char>)>, vals: Seq<u64>, q: QuizId) -> Seq<(Seq<char>, u64)>
    decreases keys.len(),
{
    if keys.len() == 0 || vals.len() != keys.len() {
        Seq::empty()
    } else {
        let rest = quiz_referrals(keys.drop_last(), vals.drop_last(), q);
        if keys.last().0 == q { rest.push((keys.last().1, vals.last())) } else { rest }
    }
}

/// `out` shows the entries `from..end` of `entries`.
pub open spec fn shows_page(out: Seq<AffiliatesOutput>, entries: Seq<(Seq<char>, u64)>, from: int, end: int) -> bool {
    &&& out.len() == if end > from { end - from } else { 0 }
    &&& forall|i: int| 0 <= i < out.len() ==> (#[trigger] out[i]).account_id@ == entries[from + i].0
        && out[i].affiliates == entries[from + i].1
}

impl QuizChain {
    /// A page of the referrers with their referral totals, in order of first referral.
    pub fn get_total_affiliates(&self, from_index: u64, limit: u64) -> (r: Vec<AffiliatesOutput>)
        requires
            self.wf(),
        ensures
            ({
                let keys = self.total_affiliates.key_seq();
                let vals = self.total_affiliates.val_seq();
                shows_page(r@, Seq::new(keys.len(), |i: int| (keys[i], vals[i])), from_index as int,
                    page_end(from_index as int, limit as int, keys.len() as int))
            }),
    {
        let n = self.total_affiliates.len();
        let mut out: Vec<AffiliatesOutput> = Vec::new();
        if from_index >= n as u64 {
            return out;
        }
        let from = from_index as usize;
        let end: usize = if limit >= (n - from) as u64 { n } else { from + limit as usize };
        let ghost keys = self.total_affiliates.key_seq();
        let ghost vals = self.total_affiliates.val_seq();
        let mut i: usize = from;
        while i < end
            invariant
                self.wf(),
                n == keys.len() == vals.len(),
                keys == self.total_affiliates.key_seq(),
                vals == self.total_affiliates.val_seq(),
                from <= i <= end <= n,
                out@.len() == i - from,
                forall|k: int| 0 <= k < out@.len() ==> (#[trigger] out@[k]).account_id@ == keys[from + k]
                    && out@[k].affiliates == vals[from + k],
            decreases end - i,
        {
            let a = self.total_affiliates.key_at(i).clone();
            let c = *self.total_affiliates.value_at(i);
            out.push(AffiliatesOutput { account_id: a, affiliates: c });
            i = i + 1;
        }
        out
    }

    /// A page of the referrers of quiz `quiz_id` with their counts, in order of first referral.
    pub fn get_affiliates(&self, quiz_id: QuizId, from_index: u64, limit: u64) -> (r: Vec<AffiliatesOutput>)
        requires
            self.wf(),
        ensures
            ({
                let e = quiz_referrals(self.affiliates.key_seq(), self.affiliates.val_seq(), quiz_id);
                shows_page(r@, e, from_index as int, page_end(from_index as int, limit as int, e.len() as int))
            }),
    {
        let ghost keys = self.affiliates.key_seq();
        let ghost vals = self.affiliates.val_seq();
        let n = self.affiliates.len();
        let mut all: Vec<AffiliatesOutput> = Vec::new();
        let mut i: usize = 0;
        while i < n
            invariant
                self.wf(),
                n == keys.len() == vals.len(),
                keys == self.affiliates.key_seq(),
                vals == self.affiliates.val_seq(),
                i <= n,
                ({
                    let e = quiz_referrals(keys.subrange(0, i as int), vals.subrange(0, i as int), quiz_id);
                    &&& all@.len() == e.len()
                    &&& forall|k: int| 0 <= k < e.len() ==> (#[trigger] all@[k]).account_id@ == e[k].0 && all@[k].affiliates == e[k].1
                }),
            decreases n - i,
        {
            proof {
                assert(keys.subrange(0, i + 1).drop_last() =~= keys.subrange(0, i as int));
                assert(vals.subrange(0, i + 1).drop_last() =~= vals.subrange(0, i as int));
            }
            let key = self.affiliates.key_at(i);
            if key.quiz_id == quiz_id {
                let c = *self.affiliates.value_at(i);
                all.push(AffiliatesOutput { account_id: key.account_id.clone(), affiliates: c });
            }
            i = i + 1;
        }
        proof {
            assert(keys.subrange(0, n as int) =~= keys);
            assert(vals.subrange(0, n as int) =~= vals);
        }
        let m = all.len();
        let mut out: Vec<AffiliatesOutput> = Vec::new();
        if from_index >= m as u64 {
            return out;
        }
        let from = from_index as usize;
        let end: usize = if limit >= (m - from) as u64 { m } else { from + limit as usize };
        let mut j: usize = from;
        while j < end
            invariant
                from <= j <= end <= m == all@.len(),
                out@.len() == j - from,
                forall|k: int| 0 <= k < out@.len() ==> (#[trigger] out@[k]).account_id@ == all@[from + k].account_id@
                    && out@[k].affiliates == all@[from + k].affiliates,
            decreases end - j,
        {
            out.push(AffiliatesOutput { account_id: all[j].account_id.clone(), affiliates: all[j].affiliates });
            j = j + 1;
        }
        out
    }
}

} // verus!
