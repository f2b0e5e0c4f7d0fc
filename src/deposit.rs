//! Quizzes paid for with a fungible token: the deposit arrives with a message that says
//! what to create.
use vstd::prelude::*;
use vstd::string::StringExecFns;
use crate::quiz::winners_kept_all;
use crate::types::{
    AccountId, Balance, QuestionInput, QuestionOption, QuizError, QuizFinalityType, QuizId, QuizStatus, RewardInput,
    Timestamp, TokenAccountId,
};
use crate::state::QuizChain;

verus! {

/// The message that accompanies a token deposit.
pub struct TransferArgs {
    pub operation: String,
    pub quiz_owner_id: AccountId,
    pub title: Option<String>,
    pub description: Option<String>,
    pub language: Option<String>,
    pub finality_type: Option<QuizFinalityType>,
    pub questions: Option<Vec<QuestionInput>>,
    pub all_question_options: Option<Vec<Vec<QuestionOption>>>,
    pub rewards: Option<Vec<RewardInput>>,
    pub secret: Option<String>,
    pub success_hash: Option<String>,
    pub restart_allowed: Option<bool>,
}

pub open spec fn fund_operation() -> Seq<char> {
    seq!['c', 'r', 'e', 'a', 't', 'e', '_', 'q', 'u', 'i', 'z', '_', 'f', 'o', 'r', '_', 'a', 'c', 'c', 'o', 'u', 'n', 't']
}

pub open spec fn create_operation() -> Seq<char> {
    seq!['c', 'r', 'e', 'a', 't', 'e', '_', 'q', 'u', 'i', 'z']
}

/// Whether the message for creating a quiz lacks a part the quiz needs.
pub open spec fn misses_content(a: TransferArgs) -> bool {
    a.title is None || a.finality_type is None || a.questions is None || a.all_question_options is None
        || a.rewards is None || a.restart_allowed is None
}

impl QuizChain {
    /// Acts on a deposit of `amount` of token `token_account_id` from `sender_id`: funds an
    /// empty quiz, or creates a quiz (unlocked at once when the message holds a secret).
    pub fn ft_on_transfer(
        &mut self,
        token_account_id: TokenAccountId,
        sender_id: AccountId,
        amount: Balance,
        args: TransferArgs,
        now: Timestamp,
    ) -> (r: Result<QuizId, QuizError>)
        requires
            old(self).wf(),
        ensures
            final(self).wf(),
            winners_kept_all(old(self), final(self)),
            r is Err ==> *final(self) == *old(self),
            !old(self).is_whitelisted(token_account_id@) ==> r == Err::<QuizId, QuizError>(QuizError::TokenNotWhitelisted),
            old(self).is_whitelisted(token_account_id@) ==> {
                if args.operation@ == fund_operation() {
                    match old(self).fund_check(amount, Some(token_account_id)) {
                        Err(e) => r == Err::<QuizId, QuizError>(e),
                        Ok(_) => r == Ok::<QuizId, QuizError>(old(self).quizzes@.len() as QuizId)
                            && old(self).funded(final(self), sender_id, args.quiz_owner_id, amount, Some(token_account_id), now),
                    }
                } else if args.operation@ == create_operation() {
                    if misses_content(args) {
                        r == Err::<QuizId, QuizError>(QuizError::MissingField) && *final(self) == *old(self)
                    } else {
                        old(self).create_result(final(self), r, args.quiz_owner_id, args.title.unwrap(), args.description,
                            args.language, args.finality_type.unwrap(), args.questions.unwrap()@,
                            args.all_question_options.unwrap()@, args.rewards.unwrap()@, args.secret, args.success_hash,
                            args.restart_allowed.unwrap(), amount, Some(token_account_id), now,
                            if args.secret is Some { QuizStatus::InProgress } else { QuizStatus::Locked })
                    }
                } else {
                    r == Err::<QuizId, QuizError>(QuizError::UnknownOperation) && *final(self) == *old(self)
                }
            },
    {
        if !self.is_whitelisted_token(&token_account_id) {
            return Err(QuizError::TokenNotWhitelisted);
        }
        let fund = String::from_str("create_quiz_for_account");
        let create = String::from_str("create_quiz");
        proof {
            reveal_strlit("create_quiz_for_account");
            reveal_strlit("create_quiz");
            assert(fund@ =~= fund_operation());
            assert(create@ =~= create_operation());
        }
        let ghost a = args;
        let TransferArgs {
            operation,
            quiz_owner_id,
            title,
            description,
            language,
            finality_type,
            questions,
            all_question_options,
            rewards,
            secret,
            success_hash,
            restart_allowed,
        } = args;
        if operation == fund {
            self.create_quiz_for_account_internal(&sender_id, &quiz_owner_id, amount, Some(token_account_id), now)
        } else if operation == create {
            let (title, finality_type, questions, all_question_options, rewards, restart_allowed) =
                match (title, finality_type, questions, all_question_options, rewards, restart_allowed) {
                    (Some(t), Some(f), Some(q), Some(o), Some(w), Some(ra)) => (t, f, q, o, w, ra),
                    _ => { return Err(QuizError::MissingField); },
                };
            match secret {
                Some(s) => self.create_quiz_and_activate_internal(quiz_owner_id, title, description, language,
                    finality_type, questions, all_question_options, rewards, s, success_hash, restart_allowed, amount,
                    Some(token_account_id), now),
                None => self.create_quiz_internal(quiz_owner_id, title, description, language, finality_type,
                    questions, all_question_options, rewards, None, success_hash, restart_allowed, amount,
                    Some(token_account_id), now),
            }
        } else {
            Err(QuizError::UnknownOperation)
        }
    }
}

} // verus!
