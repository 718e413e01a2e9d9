//! The quiz ledger: quiz records, attempts, identity profiles, and the
//! secondary indexes kept in lock-step with them.

use vstd::prelude::*;

use crate::kv::keys_unique;
use crate::kv::spec_get;
use crate::kv::Key;
use crate::kv::KvMap;
use crate::quiz_abi::LeaderboardEntry;

verus! {

/// One question of a stored quiz. The question set is fixed at creation.
#[derive(Debug, PartialEq)]
pub struct Question {
    pub id: String,
    pub text: String,
    pub options: Vec<String>,
    pub correct_options: Vec<u32>,
    pub points: u32,
    pub question_type: String,
}

/// An identity profile: the wallet address and its display name.
#[derive(Debug, PartialEq)]
pub struct User {
    pub wallet_address: String,
    pub nickname: String,
    /// Microseconds.
    pub created_at: u64,
}

/// Who may participate in a stored quiz.
#[derive(Clone, Copy, Debug, PartialEq, Eq, Structural)]
pub enum QuizMode {
    /// Every identity with a display name may participate.
    Public,
    /// Only registered identities may participate.
    Registration,
}

/// How a stored quiz starts.
#[derive(Clone, Copy, Debug, PartialEq, Eq, Structural)]
pub enum QuizStartMode {
    /// Starts by itself at its start time.
    Auto,
    /// The creator starts it by hand.
    Manual,
}

/// A stored quiz record.
#[derive(Debug, PartialEq)]
pub struct QuizSet {
    pub id: u64,
    pub title: String,
    pub description: String,
    pub creator: String,
    pub creator_nickname: String,
    pub questions: Vec<Question>,
    /// Seconds.
    pub time_limit: u64,
    /// Microseconds.
    pub start_time: u64,
    /// Microseconds.
    pub end_time: u64,
    /// Microseconds.
    pub created_at: u64,
    pub mode: QuizMode,
    pub start_mode: QuizStartMode,
    pub is_started: bool,
    pub registered_users: Vec<String>,
    pub participant_count: u32,
}

/// A stored attempt: one per (quiz, identity), never overwritten.
#[derive(Debug, PartialEq)]
pub struct UserAttempt {
    pub quiz_id: u64,
    pub user: String,
    pub nickname: String,
    pub answers: Vec<Vec<u32>>,
    pub score: u32,
    /// Milliseconds.
    pub time_taken: u64,
    /// Microseconds.
    pub completed_at: u64,
}

/// An application event, as the ledger logs it.
#[derive(Debug, PartialEq)]
pub enum QuizEvent {
    /// A quiz was created.
    QuizCreated(QuizSet),
    /// An attempt was submitted.
    AnswerSubmitted(UserAttempt),
}

/// The key of an attempt: quiz id and identity.
#[derive(Clone, Debug, PartialEq, Eq)]
pub struct AttemptKey {
    pub quiz_id: u64,
    pub user: String,
}

impl View for AttemptKey {
    type V = (u64, Seq<char>);

    open spec fn view(&self) -> (u64, Seq<char>) {
        (self.quiz_id, self.user@)
    }
}

impl Key for AttemptKey {
    fn key_eq(&self, other: &Self) -> (r: bool)
        ensures
            r == (self@ == other@),
    {
        self.quiz_id == other.quiz_id && <String as PartialEq>::eq(&self.user, &other.user)
    }
}

/// Copy a list of strings.
pub fn clone_string_vec(v: &Vec<String>) -> (r: Vec<String>)
    ensures
        r@ == v@,
{
    let mut out: Vec<String> = Vec::new();
    let n = v.len();
    let mut i: usize = 0;
    while i < n
        invariant
            0 <= i <= n,
            n == v@.len(),
            out@ == v@.subrange(0, i as int),
        decreases n - i,
    {
        out.push(v[i].clone());
        proof {
            assert(out@ =~= v@.subrange(0, i + 1));
        }
        i += 1;
    }
    proof {
        assert(v@.subrange(0, n as int) =~= v@);
    }
    out
}

/// Copy a list of option indices.
pub fn clone_u32_vec(v: &Vec<u32>) -> (r: Vec<u32>)
    ensures
        r@ == v@,
{
    let mut out: Vec<u32> = Vec::new();
    let n = v.len();
    let mut i: usize = 0;
    while i < n
        invariant
            0 <= i <= n,
            n == v@.len(),
            out@ == v@.subrange(0, i as int),
        decreases n - i,
    {
        out.push(v[i]);
        proof {
            assert(out@ =~= v@.subrange(0, i + 1));
        }
        i += 1;
    }
    proof {
        assert(v@.subrange(0, n as int) =~= v@);
    }
    out
}

/// Copy per-question answer lists: the same selections, list for list.
pub fn clone_answers(v: &Vec<Vec<u32>>) -> (r: Vec<Vec<u32>>)
    ensures
        r.deep_view() == v.deep_view(),
        r@.len() == v@.len(),
{
    let mut out: Vec<Vec<u32>> = Vec::new();
    let n = v.len();
    let mut i: usize = 0;
    while i < n
        invariant
            0 <= i <= n,
            n == v@.len(),
            out@.len() == i,
            forall|j: int| 0 <= j < i ==> (#[trigger] out@[j])@ == v@[j]@,
        decreases n - i,
    {
        out.push(clone_u32_vec(&v[i]));
        i += 1;
    }
    proof {
        assert(out.deep_view() =~= v.deep_view());
    }
    out
}

impl Clone for User {
    fn clone(&self) -> (r: Self)
        ensures
            r == *self,
    {
        User {
            wallet_address: self.wallet_address.clone(),
            nickname: self.nickname.clone(),
            created_at: self.created_at,
        }
    }
}

/// Two attempt records carry the same data.
pub open spec fn same_attempt(a: UserAttempt, b: UserAttempt) -> bool {
    &&& a.quiz_id == b.quiz_id
    &&& a.user == b.user
    &&& a.nickname == b.nickname
    &&& a.answers.deep_view() == b.answers.deep_view()
    &&& a.score == b.score
    &&& a.time_taken == b.time_taken
    &&& a.completed_at == b.completed_at
}

/// Copy an attempt record.
pub fn copy_attempt(a: &UserAttempt) -> (r: UserAttempt)
    ensures
        same_attempt(r, *a),
{
    UserAttempt {
        quiz_id: a.quiz_id,
        user: a.user.clone(),
        nickname: a.nickname.clone(),
        answers: clone_answers(&a.answers),
        score: a.score,
        time_taken: a.time_taken,
        completed_at: a.completed_at,
    }
}

/// The quiz ledger, owned by the authority context.
pub struct QuizState {
    /// All quiz records, by quiz id.
    pub quiz_sets: KvMap<u64, QuizSet>,
    /// All attempts, by (quiz id, identity).
    pub user_attempts: KvMap<AttemptKey, UserAttempt>,
    /// Append-only log of attempts, for leaderboard history.
    pub quiz_events: Vec<UserAttempt>,
    /// Append-only log of application events.
    pub app_events: Vec<QuizEvent>,
    /// The next quiz id; ids are handed out sequentially from 1.
    pub next_quiz_id: u64,
    /// Quiz ids an identity participated in.
    pub user_participations: KvMap<String, Vec<u64>>,
    /// Per-quiz leaderboard: one entry per identity, score descending.
    pub leaderboard: KvMap<u64, Vec<LeaderboardEntry>>,
    /// Identity profiles, by wallet address.
    pub users: KvMap<String, User>,
    /// The display-name uniqueness index: name back to wallet address.
    pub nickname_to_wallet: KvMap<String, String>,
    /// Quiz ids an identity created.
    pub user_created_quizzes: KvMap<String, Vec<u64>>,
    /// Identities that attempted a quiz, deduplicated.
    pub quiz_participants: KvMap<u64, Vec<String>>,
}

/// Entries are sorted by score, highest first.
pub open spec fn sorted_desc(entries: Seq<LeaderboardEntry>) -> bool {
    forall|i: int, j: int|
        0 <= i < j < entries.len() ==> (#[trigger] entries[i]).score >= (
        #[trigger] entries[j]).score
}

/// No identity appears twice.
pub open spec fn entries_unique(entries: Seq<LeaderboardEntry>) -> bool {
    forall|i: int, j: int|
        0 <= i < j < entries.len() ==> (#[trigger] entries[i]).user@ != (
        #[trigger] entries[j]).user@
}

/// No two questions of one quiz share an identifier.
pub open spec fn question_ids_unique(questions: Seq<Question>) -> bool {
    forall|i: int, j: int|
        0 <= i < j < questions.len() ==> (#[trigger] questions[i]).id@ != (
        #[trigger] questions[j]).id@
}

/// The sum of a quiz's question points.
pub open spec fn total_points(questions: Seq<Question>) -> int
    decreases questions.len(),
{
    if questions.len() == 0 {
        0
    } else {
        total_points(questions.drop_last()) + questions.last().points
    }
}

impl QuizState {
    /// Every collection keeps its keys unique.
    pub open spec fn maps_unique(self) -> bool {
        &&& keys_unique(self.quiz_sets@)
        &&& keys_unique(self.user_attempts@)
        &&& keys_unique(self.user_participations@)
        &&& keys_unique(self.leaderboard@)
        &&& keys_unique(self.users@)
        &&& keys_unique(self.nickname_to_wallet@)
        &&& keys_unique(self.user_created_quizzes@)
        &&& keys_unique(self.quiz_participants@)
    }

    /// The display-name index is the bijective inverse of the profiles'
    /// nickname field: every profile's name points back at its wallet, and
    /// every index entry points at a profile carrying that name.
    pub open spec fn nickname_index_bijective(self) -> bool {
        &&& forall|i: int|
            0 <= i < self.users@.len() ==> {
                let (w, u) = #[trigger] self.users@[i];
                &&& u.wallet_address@ == w
                &&& match spec_get(self.nickname_to_wallet@, u.nickname@) {
                    Some(ww) => ww@ == w,
                    None => false,
                }
            }
        &&& forall|i: int|
            0 <= i < self.nickname_to_wallet@.len() ==> {
                let (n, w) = #[trigger] self.nickname_to_wallet@[i];
                match spec_get(self.users@, w@) {
                    Some(u) => u.nickname@ == n,
                    None => false,
                }
            }
    }

    /// Every stored quiz carries its own key as id, stays below the id
    /// counter, has a point total that fits the score register, distinct
    /// question identifiers, and counts exactly the participants its index
    /// lists.
    pub open spec fn quizzes_ok(self) -> bool {
        forall|i: int|
            0 <= i < self.quiz_sets@.len() ==> {
                let (id, q) = #[trigger] self.quiz_sets@[i];
                &&& q.id == id
                &&& id < self.next_quiz_id
                &&& total_points(q.questions@) <= u32::MAX
                &&& question_ids_unique(q.questions@)
                &&& q.participant_count as int == (match spec_get(self.quiz_participants@, id) {
                    Some(ps) => ps@.len() as int,
                    None => 0,
                })
            }
    }

    /// Every attempt carries its own key, and every listed participant has an
    /// attempt for that quiz; participants are listed once.
    pub open spec fn attempts_ok(self) -> bool {
        &&& forall|i: int|
            0 <= i < self.user_attempts@.len() ==> {
                let (k, a) = #[trigger] self.user_attempts@[i];
                a.quiz_id == k.0 && a.user@ == k.1
            }
        &&& forall|i: int|
            0 <= i < self.quiz_participants@.len() ==> {
                let (id, ps) = #[trigger] self.quiz_participants@[i];
                &&& crate::kv::has_key(self.quiz_sets@, id)
                &&& (forall|j: int|
                    0 <= j < ps@.len() ==> spec_get(
                        self.user_attempts@,
                        (id, (#[trigger] ps@[j])@),
                    ) is Some)
                &&& (forall|j1: int, j2: int|
                    0 <= j1 < j2 < ps@.len() ==> (#[trigger] ps@[j1])@ != (#[trigger] ps@[j2])@)
            }
    }

    /// Every stored leaderboard has at most one entry per identity and is
    /// sorted by score descending.
    pub open spec fn leaderboards_ok(self) -> bool {
        forall|i: int|
            0 <= i < self.leaderboard@.len() ==> {
                let (id, entries) = #[trigger] self.leaderboard@[i];
                sorted_desc(entries@) && entries_unique(entries@)
            }
    }

    /// The ledger's invariant.
    pub open spec fn wf(self) -> bool {
        &&& self.maps_unique()
        &&& self.nickname_index_bijective()
        &&& self.quizzes_ok()
        &&& self.attempts_ok()
        &&& self.leaderboards_ok()
    }

    /// An empty ledger, before instantiation.
    pub fn new() -> (r: Self)
        ensures
            r.wf(),
            r.quiz_sets@ =~= Seq::<(u64, QuizSet)>::empty(),
            r.user_attempts@ =~= Seq::<((u64, Seq<char>), UserAttempt)>::empty(),
            r.quiz_events@ =~= Seq::<UserAttempt>::empty(),
            r.app_events@ =~= Seq::<QuizEvent>::empty(),
            r.next_quiz_id == 0,
            r.user_participations@ =~= Seq::<(Seq<char>, Vec<u64>)>::empty(),
            r.leaderboard@ =~= Seq::<(u64, Vec<LeaderboardEntry>)>::empty(),
            r.users@ =~= Seq::<(Seq<char>, User)>::empty(),
            r.nickname_to_wallet@ =~= Seq::<(Seq<char>, String)>::empty(),
            r.user_created_quizzes@ =~= Seq::<(Seq<char>, Vec<u64>)>::empty(),
            r.quiz_participants@ =~= Seq::<(u64, Vec<String>)>::empty(),
    {
        QuizState {
            quiz_sets: KvMap::new(),
            user_attempts: KvMap::new(),
            quiz_events: Vec::new(),
            app_events: Vec::new(),
            next_quiz_id: 0,
            user_participations: KvMap::new(),
            leaderboard: KvMap::new(),
            users: KvMap::new(),
            nickname_to_wallet: KvMap::new(),
            user_created_quizzes: KvMap::new(),
            quiz_participants: KvMap::new(),
        }
    }

    /// Instantiate the ledger: the id counter starts at 1, once.
    pub fn instantiate(&mut self)
        requires
            old(self).wf(),
        ensures
            final(self).wf(),
            old(self).next_quiz_id == 0 ==> final(self).next_quiz_id == 1,
            old(self).next_quiz_id != 0 ==> final(self).next_quiz_id == old(self).next_quiz_id,
            final(self).quiz_sets == old(self).quiz_sets,
            final(self).user_attempts == old(self).user_attempts,
            final(self).quiz_events == old(self).quiz_events,
            final(self).app_events == old(self).app_events,
            final(self).user_participations == old(self).user_participations,
            final(self).leaderboard == old(self).leaderboard,
            final(self).users == old(self).users,
            final(self).nickname_to_wallet == old(self).nickname_to_wallet,
            final(self).user_created_quizzes == old(self).user_created_quizzes,
            final(self).quiz_participants == old(self).quiz_participants,
    {
        if self.next_quiz_id == 0 {
            self.next_quiz_id = 1;
        }
    }
}

} // verus!
