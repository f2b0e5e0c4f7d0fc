//! The contract's state, its invariant, and the bookkeeping shared by all operations.
use vstd::prelude::*;
use vstd::string::StringExecFns;
use crate::table::Table;
use crate::types::{
    AccountId, Balance, Game, QuizStatus, Question, QuestionOption, Quiz, QuizByUser, QuizError, QuizId, QuizResultByQuiz,
    QuestionByQuiz, QuestionOptionByQuiz, Reward, RewardByQuiz, RewardId, TokenAccountId, Answer,
    AnswerByQuizByQuestionByUser,
};

verus! {

/// One day, in nanoseconds.
pub const DAY_IN_NANOSECONDS: u64 = 86400000000000;
/// The cooldown after which an unfinished quiz may be cancelled, in days.
pub const DAYS_BEFORE_CANCEL: u64 = 5;
/// The cap on the service fee in the native currency: 10 NEAR.
pub const MAX_SERVICE_FEE: u128 = 10_000_000_000_000_000_000_000_000;
pub const SERVICE_RATE_NUMERATOR: u128 = 1;
pub const SERVICE_RATE_DENOMINATOR: u128 = 100;

/// The name under which the native currency is accounted.
pub open spec fn near_id() -> Seq<char> {
    seq!['n', 'e', 'a', 'r']
}

/// The denomination that a quiz's optional token stands for.
pub open spec fn token_key(token: Option<TokenAccountId>) -> Seq<char> {
    match token {
        Some(t) => t@,
        None => near_id(),
    }
}

pub open spec fn is_native(token: Option<TokenAccountId>) -> bool {
    token_key(token) == near_id()
}

/// The list of quiz ids that an index holds for an account (empty when absent).
pub open spec fn ids_for(index: Map<Seq<char>, Vec<QuizId>>, account: Seq<char>) -> Seq<QuizId> {
    if index.contains_key(account) {
        index[account]@
    } else {
        Seq::empty()
    }
}

/// `ids` with `id` added at the end unless already present.
pub open spec fn with_id(ids: Seq<QuizId>, id: QuizId) -> Seq<QuizId> {
    if ids.contains(id) {
        ids
    } else {
        ids.push(id)
    }
}

pub open spec fn count_in(m: Map<Seq<char>, u64>, k: Seq<char>) -> u64 {
    if m.contains_key(k) {
        m[k]
    } else {
        0
    }
}

pub open spec fn fees_in(m: Map<Seq<char>, Balance>, k: Seq<char>) -> Balance {
    if m.contains_key(k) {
        m[k]
    } else {
        0
    }
}

pub struct QuizChain {
    pub active_quizzes: Vec<QuizId>,
    /// Quiz `i` is stored at position `i`.
    pub quizzes: Vec<Quiz>,
    pub questions: Table<QuestionByQuiz, Question>,
    pub question_options: Table<QuestionOptionByQuiz, QuestionOption>,
    pub rewards: Table<RewardByQuiz, Reward>,
    pub games: Table<QuizByUser, Game>,
    /// The players of each quiz, in order of their first start.
    pub players: Table<QuizId, Vec<AccountId>>,
    pub answers: Table<AnswerByQuizByQuestionByUser, Answer>,
    pub next_quiz_id: QuizId,
    pub service_fees_total: Table<TokenAccountId, Balance>,
    /// For delayed finality: the accounts that reached each final digest, in arrival order.
    pub quiz_results: Table<QuizResultByQuiz, Vec<AccountId>>,
    pub whitelisted_tokens: Vec<TokenAccountId>,
    pub quizzes_by_player_id: Table<AccountId, Vec<QuizId>>,
    pub quizzes_by_owner_id: Table<AccountId, Vec<QuizId>>,
    pub quizzes_by_sponsor_id: Table<AccountId, Vec<QuizId>>,
    /// Referral counts per quiz and referrer.
    pub affiliates: Table<QuizByUser, u64>,
    pub total_affiliates: Table<AccountId, u64>,
}

/// A claimed reward always has a winner.
pub open spec fn claimed_has_winner(rewards: Map<(QuizId, RewardId), Reward>) -> bool {
    forall|k: (QuizId, RewardId)| #[trigger] rewards.contains_key(k) && rewards[k].claimed
        ==> rewards[k].winner_account_id is Some
}

/// Every available slot of every quiz is a stored reward without a winner, listed once.
pub open spec fn available_unawarded(quizzes: Seq<Quiz>, rewards: Map<(QuizId, RewardId), Reward>) -> bool {
    forall|q: QuizId| q < quizzes.len() ==> #[trigger] slots_unawarded(q, quizzes[q as int].available_rewards_ids@, rewards)
}

pub open spec fn slots_unawarded(q: QuizId, ids: Seq<RewardId>, rewards: Map<(QuizId, RewardId), Reward>) -> bool {
    &&& ids.no_duplicates()
    &&& forall|i: int| 0 <= i < ids.len() ==> #[trigger] rewards.contains_key((q, ids[i]))
        && rewards[(q, ids[i])].winner_account_id is None
}

/// Slots stay unawarded where the rewards of their quiz are untouched.
pub proof fn lemma_slots_kept(
    q: QuizId,
    ids: Seq<RewardId>,
    before: Map<(QuizId, RewardId), Reward>,
    after: Map<(QuizId, RewardId), Reward>,
)
    requires
        slots_unawarded(q, ids, before),
        forall|r: RewardId| #[trigger] before.contains_key((q, r)) ==> after.contains_key((q, r)) && after[(q, r)] == before[(q, r)],
    ensures
        slots_unawarded(q, ids, after),
{
    assert forall|i: int| 0 <= i < ids.len() implies #[trigger] after.contains_key((q, ids[i]))
        && after[(q, ids[i])].winner_account_id is None by {
        assert(before.contains_key((q, ids[i])));
    }
}

/// No winner once recorded is changed or removed.
pub open spec fn winners_kept(before: Map<(QuizId, RewardId), Reward>, after: Map<(QuizId, RewardId), Reward>) -> bool {
    forall|k: (QuizId, RewardId)| #[trigger] before.contains_key(k) && before[k].winner_account_id is Some
        ==> after.contains_key(k) && after[k].winner_account_id == before[k].winner_account_id
}

impl QuizChain {
    pub open spec fn wf(&self) -> bool {
        &&& self.questions.wf()
        &&& self.question_options.wf()
        &&& self.rewards.wf()
        &&& self.games.wf()
        &&& self.players.wf()
        &&& self.answers.wf()
        &&& self.service_fees_total.wf()
        &&& self.quiz_results.wf()
        &&& self.quizzes_by_player_id.wf()
        &&& self.quizzes_by_owner_id.wf()
        &&& self.quizzes_by_sponsor_id.wf()
        &&& self.affiliates.wf()
        &&& self.total_affiliates.wf()
        &&& self.next_quiz_id == self.quizzes@.len()
        &&& forall|k: (QuizId, RewardId)| #[trigger] self.rewards@.contains_key(k) ==> k.0 < self.quizzes@.len()
            && self.quizzes@[k.0 as int].status != QuizStatus::Funded
        &&& claimed_has_winner(self.rewards@)
        &&& forall|x: QuizId| #[trigger] self.active_quizzes@.contains(x)
            ==> x < self.quizzes@.len() && self.quizzes@[x as int].status == QuizStatus::InProgress
        &&& available_unawarded(self.quizzes@, self.rewards@)
    }

    pub fn new() -> (r: QuizChain)
        ensures
            r.wf(),
            r.quizzes@.len() == 0,
            r.active_quizzes@.len() == 0,
            r.rewards@ == Map::<(QuizId, RewardId), Reward>::empty(),
            r.games@ == Map::<(QuizId, Seq<char>), Game>::empty(),
            r.service_fees_total@ == Map::<Seq<char>, Balance>::empty(),
            r.whitelisted_tokens@.len() == 0,
    {
        QuizChain {
            active_quizzes: Vec::new(),
            quizzes: Vec::new(),
            questions: Table::new(),
            question_options: Table::new(),
            rewards: Table::new(),
            games: Table::new(),
            players: Table::new(),
            answers: Table::new(),
            next_quiz_id: 0,
            service_fees_total: Table::new(),
            quiz_results: Table::new(),
            whitelisted_tokens: Vec::new(),
            quizzes_by_player_id: Table::new(),
            quizzes_by_owner_id: Table::new(),
            quizzes_by_sponsor_id: Table::new(),
            affiliates: Table::new(),
            total_affiliates: Table::new(),
        }
    }

    /// The position of quiz `quiz_id`, if it exists.
    pub fn quiz_pos(&self, quiz_id: QuizId) -> (r: Option<usize>)
        ensures
            r is Some <==> quiz_id < self.quizzes@.len(),
            r matches Some(i) ==> i as int == quiz_id as int,
    {
        let n = self.quizzes.len() as u64;
        if quiz_id < n {
            Some(quiz_id as usize)
        } else {
            None
        }
    }

    pub open spec fn is_whitelisted(&self, token: Seq<char>) -> bool {
        exists|i: int| 0 <= i < self.whitelisted_tokens@.len() && self.whitelisted_tokens@[i]@ == token
    }

    pub fn whitelist_token(&mut self, token_id: TokenAccountId)
        ensures
            final(self).active_quizzes == old(self).active_quizzes,
            final(self).quizzes == old(self).quizzes,
            final(self).rewards == old(self).rewards,
            forall|t: Seq<char>| #[trigger] final(self).is_whitelisted(t) == (old(self).is_whitelisted(t) || t == token_id@),
    {
        let ghost tv = token_id@;
        self.whitelisted_tokens.push(token_id);
        proof {
            assert forall|t: Seq<char>| #[trigger] self.is_whitelisted(t) == (old(self).is_whitelisted(t) || t == tv) by {
                let n = old(self).whitelisted_tokens@.len() as int;
                if old(self).is_whitelisted(t) {
                    let i = choose|i: int| 0 <= i < n && old(self).whitelisted_tokens@[i]@ == t;
                    assert(self.whitelisted_tokens@[i] == old(self).whitelisted_tokens@[i]);
                }
                if t == tv {
                    assert(self.whitelisted_tokens@[n]@ == tv);
                }
                if self.is_whitelisted(t) && t != tv {
                    let i = choose|i: int| 0 <= i < n + 1 && self.whitelisted_tokens@[i]@ == t;
                    assert(i < n);
                    assert(self.whitelisted_tokens@[i] == old(self).whitelisted_tokens@[i]);
                }
            }
        }
    }

    pub fn is_whitelisted_token(&self, token_id: &TokenAccountId) -> (r: bool)
        ensures
            r == self.is_whitelisted(token_id@),
    {
        let mut i: usize = 0;
        while i < self.whitelisted_tokens.len()
            invariant
                i <= self.whitelisted_tokens@.len(),
                forall|j: int| 0 <= j < i ==> self.whitelisted_tokens@[j]@ != token_id@,
            decreases self.whitelisted_tokens@.len() - i,
        {
            if self.whitelisted_tokens[i] == *token_id {
                return true;
            }
            i = i + 1;
        }
        false
    }

    /// A token deposit is accepted only from a whitelisted token contract.
    pub fn assert_check_whitelisted_token(&self, token_id: &Option<TokenAccountId>) -> (r: Result<(), QuizError>)
        ensures
            r is Err <==> (token_id matches Some(t) && !self.is_whitelisted(t@)),
            r is Err ==> r == Err::<(), QuizError>(QuizError::TokenNotWhitelisted),
    {
        match token_id {
            Some(t) => {
                if self.is_whitelisted_token(t) {
                    Ok(())
                } else {
                    Err(QuizError::TokenNotWhitelisted)
                }
            },
            None => Ok(()),
        }
    }

    pub fn get_service_fee_total(&self, token_account_id: &TokenAccountId) -> (r: Balance)
        requires
            self.wf(),
        ensures
            r == fees_in(self.service_fees_total@, token_account_id@),
    {
        match self.service_fees_total.get(token_account_id) {
            Some(v) => *v,
            None => 0,
        }
    }
}

pub fn near_token() -> (r: String)
    ensures
        r@ == near_id(),
{
    let r = String::from_str("near");
    proof { reveal_strlit("near"); }
    r
}

pub fn unwrap_token_id(token_id: &Option<TokenAccountId>) -> (r: TokenAccountId)
    ensures
        r@ == token_key(*token_id),
{
    match token_id {
        Some(t) => t.clone(),
        None => near_token(),
    }
}

pub fn is_native_token(token_id: &Option<TokenAccountId>) -> (r: bool)
    ensures
        r == is_native(*token_id),
{
    unwrap_token_id(token_id) == near_token()
}

/// Whether adding `amount` to the fee total of `token` stays within range.
pub open spec fn fee_fits(fees: Map<Seq<char>, Balance>, token: Option<TokenAccountId>, amount: Balance) -> bool {
    fees_in(fees, token_key(token)) + amount <= u128::MAX
}

pub fn can_add_service_fee(fees: &Table<TokenAccountId, Balance>, amount: Balance, token_id: &Option<TokenAccountId>) -> (r: bool)
    requires
        fees.wf(),
    ensures
        r == fee_fits(fees@, *token_id, amount),
{
    let key = unwrap_token_id(token_id);
    let balance: Balance = match fees.get(&key) {
        Some(v) => *v,
        None => 0,
    };
    balance <= u128::MAX - amount
}

/// Adds a collected service fee to the treasury total of its denomination.
pub fn add_service_fees_total(fees: &mut Table<TokenAccountId, Balance>, amount: Balance, token_id: &Option<TokenAccountId>)
    requires
        old(fees).wf(),
        fee_fits(old(fees)@, *token_id, amount),
    ensures
        final(fees).wf(),
        final(fees)@ == old(fees)@.insert(token_key(*token_id), (fees_in(old(fees)@, token_key(*token_id)) + amount) as Balance),
{
    let key = unwrap_token_id(token_id);
    let balance: Balance = match fees.get(&key) {
        Some(v) => *v,
        None => 0,
    };
    fees.insert(key, balance + amount);
}

/// Records `quiz_id` in an account's list, once.
pub fn add_quiz_for_account(index: &mut Table<AccountId, Vec<QuizId>>, quiz_id: QuizId, account_id: AccountId)
    requires
        old(index).wf(),
    ensures
        final(index).wf(),
        final(index)@.contains_key(account_id@),
        final(index)@[account_id@]@ == with_id(ids_for(old(index)@, account_id@), quiz_id),
        forall|a: Seq<char>| a != account_id@ ==> #[trigger] ids_for(final(index)@, a) == ids_for(old(index)@, a),
        final(index)@.remove(account_id@) == old(index)@.remove(account_id@)
            || !old(index)@.contains_key(account_id@),
{
    let mut list: Vec<QuizId> = Vec::new();
    match index.get(&account_id) {
        Some(v) => {
            let mut i: usize = 0;
            while i < v.len()
                invariant
                    i <= v@.len(),
                    list@ == v@.subrange(0, i as int),
                decreases v@.len() - i,
            {
                list.push(v[i]);
                assert(v@.subrange(0, i + 1) =~= v@.subrange(0, i as int).push(v@[i as int]));
                i = i + 1;
            }
            assert(v@.subrange(0, v@.len() as int) =~= v@);
        },
        None => {},
    }
    let ghost base = list@;
    assert(base == ids_for(old(index)@, account_id@));
    let mut found = false;
    let mut i: usize = 0;
    while i < list.len()
        invariant
            i <= list@.len(),
            found <==> exists|j: int| 0 <= j < i && list@[j] == quiz_id,
        decreases list@.len() - i,
    {
        if list[i] == quiz_id {
            found = true;
        }
        i = i + 1;
    }
    proof {
        if base.contains(quiz_id) {
            let j = choose|j: int| 0 <= j < base.len() && base[j] == quiz_id;
            assert(found);
        }
    }
    if !found {
        list.push(quiz_id);
    }
    index.insert(account_id, list);
    proof {
        assert(index@.remove(account_id@) =~= old(index)@.remove(account_id@));
    }
}

/// `ids` without `id`.
pub fn remove_id(ids: &Vec<QuizId>, id: QuizId) -> (r: Vec<QuizId>)
    ensures
        forall|x: QuizId| r@.contains(x) <==> ids@.contains(x) && x != id,
{
    let mut r: Vec<QuizId> = Vec::new();
    let mut i: usize = 0;
    while i < ids.len()
        invariant
            i <= ids@.len(),
            forall|x: QuizId| r@.contains(x) <==> (exists|j: int| 0 <= j < i && ids@[j] == x) && x != id,
        decreases ids@.len() - i,
    {
        let x = ids[i];
        let ghost pre = r@;
        if x != id {
            r.push(x);
        }
        proof {
            assert forall|y: QuizId| r@.contains(y) <==> (exists|j: int| 0 <= j < i + 1 && ids@[j] == y) && y != id by {
                if r@.contains(y) && y != x {
                    let k = choose|k: int| 0 <= k < r@.len() && r@[k] == y;
                    assert(pre[k] == y);
                    assert(pre.contains(y));
                }
                if (exists|j: int| 0 <= j < i + 1 && ids@[j] == y) && y != id {
                    let j = choose|j: int| 0 <= j < i + 1 && ids@[j] == y;
                    if j < i {
                        assert(pre.contains(y));
                        let k = choose|k: int| 0 <= k < pre.len() && pre[k] == y;
                        assert(r@[k] == y);
                    } else {
                        assert(r@[r@.len() - 1] == y);
                    }
                }
            }
        }
        i = i + 1;
    }
    proof {
        assert forall|x: QuizId| r@.contains(x) <==> ids@.contains(x) && x != id by {
            if ids@.contains(x) {
                let j = choose|j: int| 0 <= j < ids@.len() && ids@[j] == x;
                assert(exists|j: int| 0 <= j < ids@.len() && ids@[j] == x);
            }
        }
    }
    r
}

} // verus!
