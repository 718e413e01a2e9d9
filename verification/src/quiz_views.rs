//! The pure core of the read-only query layer: rendering ledger records as
//! view records, and paging query results. Timestamps are rendered in
//! decimal; the correct options of a question stay hidden in its view.

use vstd::prelude::*;

use crate::kv::spec_get;
use crate::numtext::dec_digits;
use crate::numtext::u64_to_string;
use crate::quiz_abi::QuestionView;
use crate::quiz_abi::QuizSetView;
use crate::quiz_abi::UserAttemptView;
use crate::quiz_abi::UserView;
use crate::quiz_state::clone_answers;
use crate::quiz_state::clone_string_vec;
use crate::quiz_state::Question;
use crate::quiz_state::QuizMode;
use crate::quiz_state::QuizSet;
use crate::quiz_state::QuizStartMode;
use crate::quiz_state::QuizState;
use crate::quiz_state::User;
use crate::quiz_state::UserAttempt;

verus! {

/// A question view shows the question without its correct options.
pub open spec fn question_view_of(v: QuestionView, q: Question) -> bool {
    &&& v.id == q.id
    &&& v.text == q.text
    &&& v.options@ == q.options@
    &&& v.points == q.points
    &&& v.question_type == q.question_type
}

/// A quiz view shows the record with timestamps in decimal and the modes as
/// their words.
pub open spec fn quiz_view_of(v: QuizSetView, q: QuizSet) -> bool {
    &&& v.id == q.id
    &&& v.title == q.title
    &&& v.description == q.description
    &&& v.creator == q.creator
    &&& v.creator_nickname == q.creator_nickname
    &&& v.questions@.len() == q.questions@.len()
    &&& (forall|j: int|
        0 <= j < q.questions@.len() ==> question_view_of(
            #[trigger] v.questions@[j],
            q.questions@[j],
        ))
    &&& v.start_time@ == dec_digits(q.start_time as nat)
    &&& v.end_time@ == dec_digits(q.end_time as nat)
    &&& v.created_at@ == dec_digits(q.created_at as nat)
    &&& v.mode@ == (if q.mode == QuizMode::Public {
        "public"@
    } else {
        "registration"@
    })
    &&& v.start_mode@ == (if q.start_mode == QuizStartMode::Auto {
        "auto"@
    } else {
        "manual"@
    })
    &&& v.is_started == q.is_started
    &&& v.registered_users@ == q.registered_users@
    &&& v.participant_count == q.participant_count
}

/// An attempt view shows the record with its completion time in decimal.
pub open spec fn attempt_view_of(v: UserAttemptView, a: UserAttempt) -> bool {
    &&& v.quiz_id == a.quiz_id
    &&& v.user == a.user
    &&& v.nickname == a.nickname
    &&& v.answers.deep_view() == a.answers.deep_view()
    &&& v.score == a.score
    &&& v.time_taken == a.time_taken
    &&& v.completed_at@ == dec_digits(a.completed_at as nat)
}

/// A profile view shows the record with its creation time in decimal.
pub open spec fn user_view_of(v: UserView, u: User) -> bool {
    &&& v.wallet_address == u.wallet_address
    &&& v.nickname == u.nickname
    &&& v.created_at@ == dec_digits(u.created_at as nat)
}

/// Render one question.
pub fn question_view(q: &Question) -> (v: QuestionView)
    ensures
        question_view_of(v, *q),
{
    QuestionView {
        id: q.id.clone(),
        text: q.text.clone(),
        options: clone_string_vec(&q.options),
        points: q.points,
        question_type: q.question_type.clone(),
    }
}

/// Render one quiz record.
pub fn quiz_set_view(q: &QuizSet) -> (v: QuizSetView)
    ensures
        quiz_view_of(v, *q),
{
    proof {
        reveal_strlit("public");
        reveal_strlit("registration");
        reveal_strlit("auto");
        reveal_strlit("manual");
    }
    let mut questions: Vec<QuestionView> = Vec::new();
    let n = q.questions.len();
    let mut i: usize = 0;
    while i < n
        invariant
            0 <= i <= n,
            n == q.questions@.len(),
            questions@.len() == i,
            forall|j: int|
                0 <= j < i ==> question_view_of(#[trigger] questions@[j], q.questions@[j]),
        decreases n - i,
    {
        questions.push(question_view(&q.questions[i]));
        i += 1;
    }
    let mode = if q.mode == QuizMode::Public {
        String::from_str("public")
    } else {
        String::from_str("registration")
    };
    let start_mode = if q.start_mode == QuizStartMode::Auto {
        String::from_str("auto")
    } else {
        String::from_str("manual")
    };
    QuizSetView {
        id: q.id,
        title: q.title.clone(),
        description: q.description.clone(),
        creator: q.creator.clone(),
        creator_nickname: q.creator_nickname.clone(),
        questions,
        start_time: u64_to_string(q.start_time),
        end_time: u64_to_string(q.end_time),
        created_at: u64_to_string(q.created_at),
        mode,
        start_mode,
        is_started: q.is_started,
        registered_users: clone_string_vec(&q.registered_users),
        participant_count: q.participant_count,
    }
}

/// Render one attempt record.
pub fn user_attempt_view(a: &UserAttempt) -> (v: UserAttemptView)
    ensures
        attempt_view_of(v, *a),
{
    UserAttemptView {
        quiz_id: a.quiz_id,
        user: a.user.clone(),
        nickname: a.nickname.clone(),
        answers: clone_answers(&a.answers),
        score: a.score,
        time_taken: a.time_taken,
        completed_at: u64_to_string(a.completed_at),
    }
}

/// Render one profile.
pub fn user_view(u: &User) -> (v: UserView)
    ensures
        user_view_of(v, *u),
{
    UserView {
        wallet_address: u.wallet_address.clone(),
        nickname: u.nickname.clone(),
        created_at: u64_to_string(u.created_at),
    }
}

/// The page of `len` results selected by an optional offset and limit: from
/// the offset (or the start) up to the limit (or the rest).
pub open spec fn page_bounds(len: int, limit: Option<u32>, offset: Option<u32>) -> (int, int) {
    let start: int = match offset {
        Some(o) => o as int,
        None => 0,
    };
    let end: int = match limit {
        Some(l) => if start + l <= len {
            start + l
        } else {
            len
        },
        None => len,
    };
    (start, end)
}

/// Page a list of rendered quiz records. The offset must not pass the end of
/// the list.
pub fn paginate_quiz_views(
    views: Vec<QuizSetView>,
    limit: Option<u32>,
    offset: Option<u32>,
) -> (r: Vec<QuizSetView>)
    requires
        (match offset {
            Some(o) => o as int,
            None => 0,
        }) <= views@.len(),
    ensures
        r@ == views@.subrange(
            page_bounds(views@.len() as int, limit, offset).0,
            page_bounds(views@.len() as int, limit, offset).1,
        ),
{
    let len = views.len();
    let start: usize = match offset {
        Some(o) => o as usize,
        None => 0,
    };
    let end: usize = match limit {
        Some(l) => if l as usize <= len - start {
            start + l as usize
        } else {
            len
        },
        None => len,
    };
    let mut tail = views;
    let ghost all = tail@;
    let mut page = tail.split_off(start);
    let ghost mid = page@;
    page.truncate(end - start);
    proof {
        assert(mid == all.subrange(start as int, all.len() as int));
        assert(page@ == mid.subrange(0, end - start));
        assert(page@ =~= all.subrange(start as int, end as int));
    }
    page
}

/// The attempts stored for one identity, in store order.
pub open spec fn attempts_of(
    s: Seq<((u64, Seq<char>), UserAttempt)>,
    w: Seq<char>,
) -> Seq<UserAttempt>
    decreases s.len(),
{
    if s.len() == 0 {
        Seq::empty()
    } else if s.last().0.1 == w {
        attempts_of(s.drop_last(), w).push(s.last().1)
    } else {
        attempts_of(s.drop_last(), w)
    }
}

impl QuizState {
    /// Render one identity's attempts, each beside its quiz id, in store
    /// order.
    pub fn user_attempt_views(&self, user: &String) -> (r: Vec<crate::quiz_abi::QuizAttempt>)
        ensures
            r@.len() == attempts_of(self.user_attempts@, user@).len(),
            forall|i: int|
                0 <= i < r@.len() ==> ({
                    let a = attempts_of(self.user_attempts@, user@)[i];
                    (#[trigger] r@[i]).quiz_id == a.quiz_id && attempt_view_of(r@[i].attempt, a)
                }),
    {
        let mut out: Vec<crate::quiz_abi::QuizAttempt> = Vec::new();
        let n = self.user_attempts.len();
        let mut i: usize = 0;
        proof {
            assert(self.user_attempts@.subrange(0, 0) =~= Seq::<
                ((u64, Seq<char>), UserAttempt),
            >::empty());
        }
        while i < n
            invariant
                0 <= i <= n,
                n == self.user_attempts@.len(),
                out@.len() == attempts_of(
                    self.user_attempts@.subrange(0, i as int),
                    user@,
                ).len(),
                forall|j: int|
                    0 <= j < out@.len() ==> ({
                        let a = attempts_of(self.user_attempts@.subrange(0, i as int), user@)[j];
                        (#[trigger] out@[j]).quiz_id == a.quiz_id && attempt_view_of(
                            out@[j].attempt,
                            a,
                        )
                    }),
            decreases n - i,
        {
            let key = self.user_attempts.key_at(i);
            proof {
                let s = self.user_attempts@;
                assert(s.subrange(0, i + 1).drop_last() =~= s.subrange(0, i as int));
                assert(s.subrange(0, i + 1).last() == s[i as int]);
            }
            if <String as PartialEq>::eq(&key.user, user) {
                let a = self.user_attempts.value_at(i);
                out.push(crate::quiz_abi::QuizAttempt {
                    quiz_id: a.quiz_id,
                    attempt: user_attempt_view(a),
                });
            }
            i += 1;
        }
        proof {
            assert(self.user_attempts@.subrange(0, n as int) =~= self.user_attempts@);
        }
        out
    }

    /// Render every stored quiz, in store order.
    pub fn quiz_set_views(&self) -> (r: Vec<QuizSetView>)
        ensures
            r@.len() == self.quiz_sets@.len(),
            forall|i: int|
                0 <= i < self.quiz_sets@.len() ==> quiz_view_of(
                    #[trigger] r@[i],
                    self.quiz_sets@[i].1,
                ),
    {
        let mut out: Vec<QuizSetView> = Vec::new();
        let n = self.quiz_sets.len();
        let mut i: usize = 0;
        while i < n
            invariant
                0 <= i <= n,
                n == self.quiz_sets@.len(),
                out@.len() == i,
                forall|j: int|
                    0 <= j < i ==> quiz_view_of(#[trigger] out@[j], self.quiz_sets@[j].1),
            decreases n - i,
        {
            out.push(quiz_set_view(self.quiz_sets.value_at(i)));
            i += 1;
        }
        out
    }

    /// Render one quiz by id, as point lookups return it.
    pub fn quiz_set_view_by_id(&self, quiz_id: u64) -> (r: Option<QuizSetView>)
        requires
            crate::kv::keys_unique(self.quiz_sets@),
        ensures
            match r {
                Some(v) => spec_get(self.quiz_sets@, quiz_id) is Some && quiz_view_of(
                    v,
                    spec_get(self.quiz_sets@, quiz_id)->0,
                ),
                None => spec_get(self.quiz_sets@, quiz_id) is None,
            },
    {
        match self.quiz_sets.get(&quiz_id) {
            Some(q) => Some(quiz_set_view(q)),
            None => None,
        }
    }
}

} // verus!
