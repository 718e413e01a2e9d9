//! The quiz mutation engine: one validated transition per operation kind,
//! executed against the ledger the authority context owns. Every transition
//! either fully applies, or reports its error with the ledger unchanged; the
//! one exception is the auto-start of a quiz, which the submit transition
//! persists even when the submission itself is then rejected.

use vstd::prelude::*;

use crate::kv::has_key;
use crate::kv::spec_get;
use crate::quiz_abi::AnswerOption;
use crate::quiz_abi::CreateQuizParams;
use crate::quiz_abi::LeaderboardEntry;
use crate::quiz_abi::QuestionParams;
use crate::quiz_abi::QuizError;
use crate::quiz_abi::SetNicknameParams;
use crate::quiz_abi::SubmitAnswersParams;
use crate::quiz_state::clone_u32_vec;
use crate::quiz_state::entries_unique;
use crate::quiz_state::sorted_desc;
use crate::quiz_state::AttemptKey;
use crate::quiz_state::Question;
use crate::quiz_state::QuizMode;
use crate::quiz_state::QuizSet;
use crate::quiz_state::QuizStartMode;
use crate::quiz_state::QuizState;
use crate::quiz_state::User;
use crate::quiz_state::UserAttempt;
use crate::sorting::sort_leaderboard;

verus! {

/// The leaderboard rows stored for a quiz; an absent record stands for the
/// empty board.
pub open spec fn board(s: Seq<(u64, Vec<LeaderboardEntry>)>, quiz_id: u64) -> Seq<
    LeaderboardEntry,
> {
    match spec_get(s, quiz_id) {
        Some(v) => v@,
        None => Seq::empty(),
    }
}

/// A board after one identity's score arrives: the identity's row is updated
/// in place, or a new row with no recorded time is appended.
pub open spec fn updated_entries(
    entries: Seq<LeaderboardEntry>,
    user: String,
    score: u32,
) -> Seq<LeaderboardEntry> {
    if exists|i: int| 0 <= i < entries.len() && (#[trigger] entries[i]).user@ == user@ {
        let i = choose|i: int| 0 <= i < entries.len() && (#[trigger] entries[i]).user@ == user@;
        entries.update(
            i,
            LeaderboardEntry { user: entries[i].user, score, time_taken: entries[i].time_taken },
        )
    } else {
        entries.push(LeaderboardEntry { user, score, time_taken: 0 })
    }
}

impl QuizState {
    /// Set the caller's display name. Fails when no caller signed the
    /// operation, or when the name already maps to a different identity;
    /// otherwise the profile is created or updated (re-submitting one's own
    /// current name succeeds) and the name index is repointed, dropping the
    /// stale reverse mapping of the old name.
    pub fn set_nickname(
        &mut self,
        signer: Option<String>,
        params: &SetNicknameParams,
        now: u64,
    ) -> (r: Result<(), QuizError>)
        requires
            old(self).wf(),
        ensures
            final(self).wf(),
            signer is None ==> r == Err::<(), QuizError>(QuizError::InsufficientPermissions)
                && *final(self) == *old(self),
            signer is Some ==> {
                let w = signer->0@;
                if (match spec_get(old(self).nickname_to_wallet@, params.nickname@) {
                    Some(ww) => ww@ != w,
                    None => false,
                }) {
                    r == Err::<(), QuizError>(QuizError::NicknameAlreadyTaken) && *final(self)
                        == *old(self)
                } else {
                    &&& r == Ok::<(), QuizError>(())
                    &&& match spec_get(final(self).users@, w) {
                        Some(u) => u.wallet_address@ == w && u.nickname@ == params.nickname@
                            && u.created_at == now,
                        None => false,
                    }
                    &&& match spec_get(final(self).nickname_to_wallet@, params.nickname@) {
                        Some(ww) => ww@ == w,
                        None => false,
                    }
                    &&& forall|w2: Seq<char>|
                        w2 != w ==> spec_get(final(self).users@, w2) == spec_get(
                            old(self).users@,
                            w2,
                        )
                    &&& (match spec_get(old(self).users@, w) {
                        Some(old_u) => old_u.nickname@ != params.nickname@ ==> spec_get(
                            final(self).nickname_to_wallet@,
                            old_u.nickname@,
                        ) is None,
                        None => true,
                    })
                }
            },
            final(self).quiz_sets == old(self).quiz_sets,
            final(self).user_attempts == old(self).user_attempts,
            final(self).quiz_events == old(self).quiz_events,
            final(self).app_events == old(self).app_events,
            final(self).next_quiz_id == old(self).next_quiz_id,
            final(self).user_participations == old(self).user_participations,
            final(self).leaderboard == old(self).leaderboard,
            final(self).user_created_quizzes == old(self).user_created_quizzes,
            final(self).quiz_participants == old(self).quiz_participants,
    {
        let wallet = match signer {
            None => {
                return Err(QuizError::InsufficientPermissions);
            },
            Some(w) => w,
        };
        let ghost w = wallet@;
        let taken_by_other = match self.nickname_to_wallet.get(&params.nickname) {
            Some(ww) => !<String as PartialEq>::eq(ww, &wallet),
            None => false,
        };
        if taken_by_other {
            return Err(QuizError::NicknameAlreadyTaken);
        }
        let ghost nn = params.nickname@;
        let old_user_nick: Option<String> = match self.users.get(&wallet) {
            Some(u) => Some(u.nickname.clone()),
            None => None,
        };
        let ghost old_users = self.users@;
        let ghost old_n2w = self.nickname_to_wallet@;
        if let Some(n) = &old_user_nick {
            self.nickname_to_wallet.remove(n);
        }
        let ghost mid = self.nickname_to_wallet@;
        let user = User {
            wallet_address: wallet.clone(),
            nickname: params.nickname.clone(),
            created_at: now,
        };
        self.users.insert(wallet.clone(), user);
        let ghost new_users = self.users@;
        self.nickname_to_wallet.insert(params.nickname.clone(), wallet);
        proof {
            let new_n2w = self.nickname_to_wallet@;
            let u_new = spec_get(new_users, w)->0;
            // the new name is free after the removal: it was either unmapped,
            // or mapped to this very identity, whose profile then carried it,
            // so the removal of the old name removed it
            assert(spec_get(mid, nn) is None) by {
                if spec_get(old_n2w, nn) is Some {
                    crate::kv::lemma_spec_get_index(old_n2w, nn);
                    let jn = choose|jn: int|
                        0 <= jn < old_n2w.len() && #[trigger] old_n2w[jn].0 == nn
                            && old_n2w[jn].1 == spec_get(old_n2w, nn)->0;
                    assert(spec_get(old_users, w) is Some);
                    assert(spec_get(old_users, w)->0.nickname@ == nn);
                }
            }
            // Every profile's name points back at its wallet.
            assert forall|i: int| 0 <= i < new_users.len() implies {
                let (w2, u2) = #[trigger] new_users[i];
                &&& u2.wallet_address@ == w2
                &&& match spec_get(new_n2w, u2.nickname@) {
                    Some(ww) => ww@ == w2,
                    None => false,
                }
            } by {
                let (w2, u2) = new_users[i];
                if w2 == w {
                    if spec_get(old_users, w) is Some {
                        assert(new_users[i] == (w, u_new));
                    } else {
                        if i < old_users.len() {
                            assert(old_users[i].0 == w2);
                            crate::kv::lemma_spec_get_at(old_users, w, i);
                            assert(false);
                        }
                        assert(new_users[i] == (w, u_new));
                    }
                } else {
                    assert(new_users[i] == old_users[i]);
                    assert(spec_get(old_n2w, u2.nickname@) is Some);
                    let ww2 = spec_get(old_n2w, u2.nickname@)->0;
                    assert(ww2@ == w2);
                    // the profile's name differs from the new name, which was
                    // free or named this very identity
                    assert(u2.nickname@ != nn) by {
                        if u2.nickname@ == nn {
                            assert(spec_get(old_n2w, nn)->0@ == w);
                        }
                    }
                    // and from the renamed identity's old name, which named `w`
                    match old_user_nick {
                        Some(n) => {
                            let old_u = spec_get(old_users, w)->0;
                            crate::kv::lemma_spec_get_index(old_users, w);
                            let iu = choose|iu: int|
                                0 <= iu < old_users.len() && #[trigger] old_users[iu].0 == w
                                    && old_users[iu].1 == old_u;
                            assert(spec_get(old_n2w, old_u.nickname@) is Some && spec_get(
                                old_n2w,
                                old_u.nickname@,
                            )->0@ == w);
                            if u2.nickname@ == n@ {
                                assert(spec_get(old_n2w, u2.nickname@)->0@ == w);
                                assert(false);
                            }
                            assert(spec_get(mid, u2.nickname@) == spec_get(
                                old_n2w,
                                u2.nickname@,
                            ));
                        },
                        None => {
                            assert(mid == old_n2w);
                        },
                    }
                    assert(spec_get(new_n2w, u2.nickname@) == spec_get(mid, u2.nickname@));
                }
            }
            // Every index entry points at a profile carrying that name.
            assert forall|j: int| 0 <= j < new_n2w.len() implies {
                let (n2, ww) = #[trigger] new_n2w[j];
                match spec_get(new_users, ww@) {
                    Some(u2) => u2.nickname@ == n2,
                    None => false,
                }
            } by {
                let (n2, ww) = new_n2w[j];
                if n2 == nn {
                    crate::kv::lemma_spec_get_at(new_n2w, nn, j);
                    assert(ww@ == w);
                } else {
                    if j < mid.len() {
                        assert(new_n2w[j] == mid[j]);
                    } else {
                        crate::kv::lemma_spec_get_at(new_n2w, nn, j);
                        assert(false);
                    }
                    // the entry comes from the old index
                    let (n3, ww3) = mid[j];
                    assert(n3 == n2 && ww3 == ww);
                    match old_user_nick {
                        Some(n) => {
                            let i_rm = choose|i_rm: int|
                                0 <= i_rm < old_n2w.len() && #[trigger] old_n2w[i_rm].0 == n@
                                    && mid == old_n2w.remove(i_rm);
                            if spec_get(old_n2w, n@) is Some {
                                let j3: int = if j < i_rm {
                                    j
                                } else {
                                    j + 1
                                };
                                assert(mid[j] == old_n2w[j3]);
                                assert(spec_get(old_users, ww@) is Some && spec_get(
                                    old_users,
                                    ww@,
                                )->0.nickname@ == n2);
                                if ww@ == w {
                                    let old_u = spec_get(old_users, w)->0;
                                    assert(old_u.nickname@ == n@);
                                    assert(n2 == n@);
                                    crate::kv::lemma_spec_get_at(mid, n2, j);
                                    assert(spec_get(mid, n@) is None);
                                    assert(false);
                                }
                                assert(spec_get(new_users, ww@) == spec_get(old_users, ww@));
                            } else {
                                let old_u = spec_get(old_users, w)->0;
                                crate::kv::lemma_spec_get_index(old_users, w);
                                assert(spec_get(old_n2w, old_u.nickname@) is Some);
                                assert(false);
                            }
                        },
                        None => {
                            assert(mid == old_n2w);
                            assert(spec_get(old_users, ww@) is Some && spec_get(
                                old_users,
                                ww@,
                            )->0.nickname@ == n2);
                            if ww@ == w {
                                assert(spec_get(old_users, w) is None);
                                assert(false);
                            }
                            assert(spec_get(new_users, ww@) == spec_get(old_users, ww@));
                        },
                    }
                }
            }
        }
        Ok(())
    }

    /// Recompute a quiz's leaderboard for one identity's score: update the
    /// identity's row or add one, then re-sort by score descending. The board
    /// keeps one row per identity.
    pub fn update_leaderboard(&mut self, quiz_id: u64, user: &String, score: u32) -> (r: Result<
        (),
        QuizError,
    >)
        requires
            old(self).wf(),
        ensures
            final(self).wf(),
            r is Ok,
            spec_get(final(self).leaderboard@, quiz_id) is Some,
            ({
                let es = spec_get(final(self).leaderboard@, quiz_id)->0;
                &&& es@.to_multiset() == updated_entries(
                    board(old(self).leaderboard@, quiz_id),
                    *user,
                    score,
                ).to_multiset()
                &&& sorted_desc(es@)
                &&& entries_unique(es@)
                &&& exists|i: int|
                    0 <= i < es@.len() && (#[trigger] es@[i]).user@ == user@ && es@[i].score
                        == score
            }),
            forall|q2: u64|
                q2 != quiz_id ==> spec_get(final(self).leaderboard@, q2) == spec_get(
                    old(self).leaderboard@,
                    q2,
                ),
            final(self).quiz_sets == old(self).quiz_sets,
            final(self).user_attempts == old(self).user_attempts,
            final(self).quiz_events == old(self).quiz_events,
            final(self).app_events == old(self).app_events,
            final(self).next_quiz_id == old(self).next_quiz_id,
            final(self).user_participations == old(self).user_participations,
            final(self).users == old(self).users,
            final(self).nickname_to_wallet == old(self).nickname_to_wallet,
            final(self).user_created_quizzes == old(self).user_created_quizzes,
            final(self).quiz_participants == old(self).quiz_participants,
    {
        broadcast use vstd::seq_lib::group_to_multiset_ensures;

        let mut entries: Vec<LeaderboardEntry> = match self.leaderboard.get(&quiz_id) {
            Some(es) => clone_entries(es),
            None => Vec::new(),
        };
        proof {
            assert(entries@ =~= board(old(self).leaderboard@, quiz_id));
        }
        let ghost base = entries@;
        let n = entries.len();
        let mut idx: usize = 0;
        let mut found = false;
        while idx < n && !found
            invariant
                0 <= idx <= n,
                n == entries@.len(),
                entries@ == base,
                !found ==> forall|j: int| 0 <= j < idx ==> (#[trigger] entries@[j]).user@ != user@,
                found ==> idx < n && entries@[idx as int].user@ == user@,
            decreases n - idx + (if found {
                0int
            } else {
                1int
            }),
        {
            if <String as PartialEq>::eq(&entries[idx].user, user) {
                found = true;
            } else {
                idx += 1;
            }
        }
        let ghost updated = updated_entries(base, *user, score);
        if found {
            let e = entries.remove(idx);
            entries.insert(
                idx,
                LeaderboardEntry { user: e.user, score, time_taken: e.time_taken },
            );
            proof {
                let i = choose|i: int| 0 <= i < base.len() && (#[trigger] base[i]).user@ == user@;
                if i != idx {
                    assert(base[i].user@ != base[idx as int].user@) by {
                        assert(entries_unique(base));
                    }
                }
                assert(entries@ =~= base.update(
                    idx as int,
                    LeaderboardEntry {
                        user: base[idx as int].user,
                        score,
                        time_taken: base[idx as int].time_taken,
                    },
                ));
                assert(entries@ == updated);
            }
        } else {
            let new_entry = LeaderboardEntry { user: user.clone(), score, time_taken: 0 };
            entries.push(new_entry);
            proof {
                assert(entries@ == updated);
            }
        }
        proof {
            assert(entries_unique(entries@)) by {
                assert(entries_unique(base));
                if found {
                } else {
                    assert forall|i2: int, j2: int|
                        0 <= i2 < j2 < entries@.len() implies (#[trigger] entries@[i2]).user@ != (
                        #[trigger] entries@[j2]).user@ by {
                        if j2 == entries@.len() - 1 {
                            assert(entries@[i2] == base[i2]);
                        } else {
                            assert(entries@[i2] == base[i2] && entries@[j2] == base[j2]);
                        }
                    }
                }
            }
            assert(exists|i: int|
                0 <= i < entries@.len() && (#[trigger] entries@[i]).user@ == user@
                    && entries@[i].score == score) by {
                if found {
                    assert(entries@[idx as int].user@ == user@ && entries@[idx as int].score
                        == score);
                } else {
                    assert(entries@[entries@.len() - 1].user@ == user@);
                }
            }
        }
        let ghost presort = entries@;
        let sorted = sort_leaderboard(entries);
        proof {
            let es = sorted@;
            let i = choose|i: int|
                0 <= i < presort.len() && (#[trigger] presort[i]).user@ == user@ && presort[i].score
                    == score;
            assert(es.to_multiset().contains(presort[i])) by {
                assert(presort.to_multiset().count(presort[i]) > 0);
            }
            assert(es.contains(presort[i]));
            let j = choose|j: int| 0 <= j < es.len() && es[j] == presort[i];
            assert(es[j].user@ == user@ && es[j].score == score);
        }
        self.leaderboard.insert(quiz_id, sorted);
        proof {
            let es = spec_get(self.leaderboard@, quiz_id)->0;
            assert(es@.to_multiset() == updated.to_multiset());
            assert(sorted_desc(es@));
            assert(entries_unique(es@));
            assert(exists|i: int|
                0 <= i < es@.len() && (#[trigger] es@[i]).user@ == user@ && es@[i].score == score);
        }
        Ok(())
    }
}

/// The fields of a quiz record that no transition after creation changes.
pub open spec fn quiz_core_eq(a: QuizSet, b: QuizSet) -> bool {
    &&& a.id == b.id
    &&& a.title == b.title
    &&& a.description == b.description
    &&& a.creator == b.creator
    &&& a.creator_nickname == b.creator_nickname
    &&& a.questions@ == b.questions@
    &&& a.time_limit == b.time_limit
    &&& a.start_time == b.start_time
    &&& a.end_time == b.end_time
    &&& a.created_at == b.created_at
    &&& a.mode == b.mode
    &&& a.start_mode == b.start_mode
}

impl QuizState {
    /// Start a quiz by hand. Only the recorded creator may, only for a quiz
    /// in manual start mode that has not started, and only inside its time
    /// window; every rejected call leaves the ledger unchanged.
    pub fn start_quiz(&mut self, signer: Option<String>, quiz_id: u64, now: u64) -> (r: Result<
        (),
        QuizError,
    >)
        requires
            old(self).wf(),
        ensures
            final(self).wf(),
            signer is None ==> r == Err::<(), QuizError>(QuizError::InsufficientPermissions)
                && *final(self) == *old(self),
            signer is Some ==> (match spec_get(old(self).quiz_sets@, quiz_id) {
                None => r == Err::<(), QuizError>(QuizError::QuizNotFound) && *final(self)
                    == *old(self),
                Some(q) => {
                    if q.creator@ != signer->0@ {
                        r == Err::<(), QuizError>(QuizError::InsufficientPermissions)
                            && *final(self) == *old(self)
                    } else if q.start_mode != QuizStartMode::Manual {
                        r == Err::<(), QuizError>(QuizError::InvalidParameters) && *final(self)
                            == *old(self)
                    } else if q.is_started {
                        r == Err::<(), QuizError>(QuizError::InvalidParameters) && *final(self)
                            == *old(self)
                    } else if now < q.start_time {
                        r == Err::<(), QuizError>(QuizError::InvalidParameters) && *final(self)
                            == *old(self)
                    } else if now > q.end_time {
                        r == Err::<(), QuizError>(QuizError::InvalidParameters) && *final(self)
                            == *old(self)
                    } else {
                        &&& r == Ok::<(), QuizError>(())
                        &&& spec_get(final(self).quiz_sets@, quiz_id) is Some
                        &&& ({
                            let q2 = spec_get(final(self).quiz_sets@, quiz_id)->0;
                            &&& quiz_core_eq(q2, q)
                            &&& q2.is_started == true
                            &&& q2.registered_users@ == q.registered_users@
                            &&& q2.participant_count == q.participant_count
                        })
                        &&& forall|q2: u64|
                            q2 != quiz_id ==> spec_get(final(self).quiz_sets@, q2) == spec_get(
                                old(self).quiz_sets@,
                                q2,
                            )
                        &&& final(self).user_attempts == old(self).user_attempts
                        &&& final(self).quiz_events == old(self).quiz_events
                        &&& final(self).app_events == old(self).app_events
                        &&& final(self).next_quiz_id == old(self).next_quiz_id
                        &&& final(self).user_participations == old(self).user_participations
                        &&& final(self).leaderboard == old(self).leaderboard
                        &&& final(self).users == old(self).users
                        &&& final(self).nickname_to_wallet == old(self).nickname_to_wallet
                        &&& final(self).user_created_quizzes == old(self).user_created_quizzes
                        &&& final(self).quiz_participants == old(self).quiz_participants
                    }
                },
            }),
    {
        let wallet = match signer {
            None => {
                return Err(QuizError::InsufficientPermissions);
            },
            Some(w) => w,
        };
        match self.quiz_sets.get(&quiz_id) {
            None => {
                return Err(QuizError::QuizNotFound);
            },
            Some(q) => {
                if !<String as PartialEq>::eq(&q.creator, &wallet) {
                    return Err(QuizError::InsufficientPermissions);
                }
                if !(q.start_mode == QuizStartMode::Manual) {
                    return Err(QuizError::InvalidParameters);
                }
                if q.is_started {
                    return Err(QuizError::InvalidParameters);
                }
                if now < q.start_time {
                    return Err(QuizError::InvalidParameters);
                }
                if now > q.end_time {
                    return Err(QuizError::InvalidParameters);
                }
            },
        }
        let taken = self.quiz_sets.take(&quiz_id);
        let q = match taken {
            Some(q) => q,
            None => {
                proof {
                    assert(false);
                }
                return Err(QuizError::InternalError);
            },
        };
        let started = QuizSet {
            id: q.id,
            title: q.title,
            description: q.description,
            creator: q.creator,
            creator_nickname: q.creator_nickname,
            questions: q.questions,
            time_limit: q.time_limit,
            start_time: q.start_time,
            end_time: q.end_time,
            created_at: q.created_at,
            mode: q.mode,
            start_mode: q.start_mode,
            is_started: true,
            registered_users: q.registered_users,
            participant_count: q.participant_count,
        };
        self.quiz_sets.insert(quiz_id, started);
        proof {
            lemma_one_quiz_replaced(*old(self), *self, quiz_id);
        }
        Ok(())
    }

    /// Register for a quiz in registration mode: only before it starts and
    /// before its end time, only for identities with a display name, and only
    /// once; every rejected call leaves the ledger unchanged.
    pub fn register_for_quiz(&mut self, signer: Option<String>, quiz_id: u64, now: u64) -> (r:
        Result<(), QuizError>)
        requires
            old(self).wf(),
        ensures
            final(self).wf(),
            signer is None ==> r == Err::<(), QuizError>(QuizError::InsufficientPermissions)
                && *final(self) == *old(self),
            signer is Some ==> (match spec_get(old(self).quiz_sets@, quiz_id) {
                None => r == Err::<(), QuizError>(QuizError::QuizNotFound) && *final(self)
                    == *old(self),
                Some(q) => {
                    if q.mode != QuizMode::Registration {
                        r == Err::<(), QuizError>(QuizError::InvalidParameters) && *final(self)
                            == *old(self)
                    } else if q.is_started {
                        r == Err::<(), QuizError>(QuizError::InvalidParameters) && *final(self)
                            == *old(self)
                    } else if now >= q.end_time {
                        r == Err::<(), QuizError>(QuizError::InvalidParameters) && *final(self)
                            == *old(self)
                    } else if spec_get(old(self).users@, signer->0@) is None {
                        r == Err::<(), QuizError>(QuizError::UserNotFound) && *final(self) == *old(
                            self,
                        )
                    } else if exists|i: int|
                        0 <= i < q.registered_users@.len() && (
                        #[trigger] q.registered_users@[i])@ == signer->0@ {
                        r == Err::<(), QuizError>(QuizError::UserAlreadyRegistered) && *final(self)
                            == *old(self)
                    } else {
                        &&& r == Ok::<(), QuizError>(())
                        &&& spec_get(final(self).quiz_sets@, quiz_id) is Some
                        &&& ({
                            let q2 = spec_get(final(self).quiz_sets@, quiz_id)->0;
                            &&& quiz_core_eq(q2, q)
                            &&& q2.is_started == q.is_started
                            &&& q2.registered_users@ == q.registered_users@.push(signer->0)
                            &&& q2.participant_count == q.participant_count
                        })
                        &&& forall|q2: u64|
                            q2 != quiz_id ==> spec_get(final(self).quiz_sets@, q2) == spec_get(
                                old(self).quiz_sets@,
                                q2,
                            )
                        &&& final(self).user_attempts == old(self).user_attempts
                        &&& final(self).quiz_events == old(self).quiz_events
                        &&& final(self).app_events == old(self).app_events
                        &&& final(self).next_quiz_id == old(self).next_quiz_id
                        &&& final(self).user_participations == old(self).user_participations
                        &&& final(self).leaderboard == old(self).leaderboard
                        &&& final(self).users == old(self).users
                        &&& final(self).nickname_to_wallet == old(self).nickname_to_wallet
                        &&& final(self).user_created_quizzes == old(self).user_created_quizzes
                        &&& final(self).quiz_participants == old(self).quiz_participants
                    }
                },
            }),
    {
        let wallet = match signer {
            None => {
                return Err(QuizError::InsufficientPermissions);
            },
            Some(w) => w,
        };
        match self.quiz_sets.get(&quiz_id) {
            None => {
                return Err(QuizError::QuizNotFound);
            },
            Some(q) => {
                if !(q.mode == QuizMode::Registration) {
                    return Err(QuizError::InvalidParameters);
                }
                if q.is_started {
                    return Err(QuizError::InvalidParameters);
                }
                if now >= q.end_time {
                    return Err(QuizError::InvalidParameters);
                }
            },
        }
        if self.users.get(&wallet).is_none() {
            return Err(QuizError::UserNotFound);
        }
        let already = match self.quiz_sets.get(&quiz_id) {
            Some(q) => string_vec_contains(&q.registered_users, &wallet),
            None => false,
        };
        if already {
            return Err(QuizError::UserAlreadyRegistered);
        }
        let taken = self.quiz_sets.take(&quiz_id);
        let mut q = match taken {
            Some(q) => q,
            None => {
                proof {
                    assert(false);
                }
                return Err(QuizError::InternalError);
            },
        };
        q.registered_users.push(wallet);
        self.quiz_sets.insert(quiz_id, q);
        proof {
            lemma_one_quiz_replaced(*old(self), *self, quiz_id);
        }
        Ok(())
    }
}

/// The longest time window a quiz may span, in microseconds.
pub const HUNDRED_YEARS_MICROS: u64 = 3600 * 24 * 365 * 100 * 1000000;

/// A millisecond timestamp of plausible magnitude: ten to fourteen decimal
/// digits.
pub open spec fn millis_plausible(v: u64) -> bool {
    1000000000 <= v <= 99999999999999
}

/// The sum of question-parameter points.
pub open spec fn params_points(qs: Seq<QuestionParams>) -> int
    decreases qs.len(),
{
    if qs.len() == 0 {
        0
    } else {
        params_points(qs.drop_last()) + qs.last().points
    }
}

/// The identifier given to the question at `index` of quiz `quiz_id`.
pub open spec fn question_id_text(quiz_id: u64, index: int) -> Seq<char> {
    seq!['q'] + crate::numtext::dec_digits(quiz_id as nat) + seq!['-']
        + crate::numtext::dec_digits(index as nat)
}

/// A stored question as quiz creation derives it from its parameters: ids are
/// generated from the quiz id and position, and the question type restates
/// how many options are correct.
pub open spec fn question_built(qq: Question, qp: QuestionParams, quiz_id: u64, index: int) -> bool {
    &&& qq.id@ == question_id_text(quiz_id, index)
    &&& qq.text == qp.text
    &&& qq.options == qp.options
    &&& qq.correct_options == qp.correct_options
    &&& qq.points == qp.points
    &&& qq.question_type@ == (if qp.correct_options@.len() > 1 {
        "checkbox"@
    } else {
        "radio"@
    })
}

/// Why quiz creation rejects its input, if it does: the checks in the order
/// the engine makes them.
pub open spec fn create_quiz_rejection(
    s: QuizState,
    signer: Option<String>,
    params: CreateQuizParams,
    now: u64,
) -> Option<QuizError> {
    if signer is None {
        Some(QuizError::InsufficientPermissions)
    } else if spec_get(s.users@, signer->0@) is None {
        Some(QuizError::UserNotFound)
    } else if crate::numtext::parse_u64_spec(params.start_time@) is None {
        Some(QuizError::InvalidParameters)
    } else if !millis_plausible(crate::numtext::parse_u64_spec(params.start_time@)->0) {
        Some(QuizError::InvalidParameters)
    } else if crate::numtext::parse_u64_spec(params.end_time@) is None {
        Some(QuizError::InvalidParameters)
    } else if !millis_plausible(crate::numtext::parse_u64_spec(params.end_time@)->0) {
        Some(QuizError::InvalidParameters)
    } else if !(crate::numtext::parse_u64_spec(params.start_time@)->0 * 1000 > now) {
        Some(QuizError::InvalidParameters)
    } else if !(crate::numtext::parse_u64_spec(params.end_time@)->0 * 1000
        > crate::numtext::parse_u64_spec(params.start_time@)->0 * 1000) {
        Some(QuizError::InvalidParameters)
    } else if !(crate::numtext::parse_u64_spec(params.end_time@)->0 * 1000
        - crate::numtext::parse_u64_spec(params.start_time@)->0 * 1000
        <= HUNDRED_YEARS_MICROS) {
        Some(QuizError::InvalidParameters)
    } else if params.mode@ != "public"@ && params.mode@ != "registration"@ {
        Some(QuizError::InvalidQuizMode)
    } else if params.start_mode@ != "auto"@ && params.start_mode@ != "manual"@ {
        Some(QuizError::InvalidStartMode)
    } else if s.next_quiz_id == u64::MAX {
        Some(QuizError::InternalError)
    } else {
        None
    }
}

impl QuizState {
    /// Create a quiz: the submitting identity must have a display name, the
    /// time window must parse, be of plausible magnitude, start in the
    /// future, end after it starts and span at most a hundred years, and the
    /// mode strings must name a mode. The new quiz takes the next sequential
    /// id and is appended to its creator's created-quizzes index. Rejected
    /// calls leave the ledger unchanged; the point total must fit the score
    /// register.
    #[verifier::loop_isolation(false)]
    pub fn create_quiz(
        &mut self,
        signer: Option<String>,
        params: CreateQuizParams,
        now: u64,
    ) -> (r: Result<(), QuizError>)
        requires
            old(self).wf(),
            params_points(params.questions@) <= u32::MAX,
        ensures
            final(self).wf(),
            match create_quiz_rejection(*old(self), signer, params, now) {
                Some(e) => r == Err::<(), QuizError>(e) && *final(self) == *old(self),
                None => {
                    let id = old(self).next_quiz_id;
                    let w = signer->0@;
                    let start_micros = crate::numtext::parse_u64_spec(params.start_time@)->0
                        * 1000;
                    let end_micros = crate::numtext::parse_u64_spec(params.end_time@)->0 * 1000;
                    &&& r == Ok::<(), QuizError>(())
                    &&& final(self).next_quiz_id == id + 1
                    &&& spec_get(final(self).quiz_sets@, id) is Some
                    &&& ({
                        let q = spec_get(final(self).quiz_sets@, id)->0;
                        &&& q.id == id
                        &&& q.title == params.title
                        &&& q.description == params.description
                        &&& q.creator == signer->0
                        &&& q.creator_nickname == spec_get(old(self).users@, w)->0.nickname
                        &&& q.questions@.len() == params.questions@.len()
                        &&& (forall|j: int|
                            0 <= j < params.questions@.len() ==> question_built(
                                #[trigger] q.questions@[j],
                                params.questions@[j],
                                id,
                                j,
                            ))
                        &&& q.time_limit == params.time_limit
                        &&& q.start_time == start_micros
                        &&& q.end_time == end_micros
                        &&& q.created_at == now
                        &&& q.mode == (if params.mode@ == "public"@ {
                            QuizMode::Public
                        } else {
                            QuizMode::Registration
                        })
                        &&& q.start_mode == (if params.start_mode@ == "auto"@ {
                            QuizStartMode::Auto
                        } else {
                            QuizStartMode::Manual
                        })
                        &&& q.is_started == false
                        &&& q.registered_users@.len() == 0
                        &&& q.participant_count == 0
                    })
                    &&& (forall|id2: u64|
                        id2 != id ==> spec_get(final(self).quiz_sets@, id2) == spec_get(
                            old(self).quiz_sets@,
                            id2,
                        ))
                    &&& spec_get(final(self).user_created_quizzes@, w) is Some
                    &&& spec_get(final(self).user_created_quizzes@, w)->0@ == (match spec_get(
                        old(self).user_created_quizzes@,
                        w,
                    ) {
                        Some(v) => v@.push(id),
                        None => seq![id],
                    })
                    &&& (forall|w2: Seq<char>|
                        w2 != w ==> spec_get(final(self).user_created_quizzes@, w2) == spec_get(
                            old(self).user_created_quizzes@,
                            w2,
                        ))
                    &&& final(self).user_attempts == old(self).user_attempts
                    &&& final(self).quiz_events == old(self).quiz_events
                    &&& final(self).app_events == old(self).app_events
                    &&& final(self).user_participations == old(self).user_participations
                    &&& final(self).leaderboard == old(self).leaderboard
                    &&& final(self).users == old(self).users
                    &&& final(self).nickname_to_wallet == old(self).nickname_to_wallet
                    &&& final(self).quiz_participants == old(self).quiz_participants
                },
            },
    {
        proof {
            reveal_strlit("q");
            reveal_strlit("-");
        }
        let wallet = match signer {
            None => {
                return Err(QuizError::InsufficientPermissions);
            },
            Some(w) => w,
        };
        let nickname: String = match self.users.get(&wallet) {
            None => {
                return Err(QuizError::UserNotFound);
            },
            Some(u) => u.nickname.clone(),
        };
        let start_time_millis = match crate::numtext::parse_u64(params.start_time.as_str()) {
            None => {
                return Err(QuizError::InvalidParameters);
            },
            Some(v) => v,
        };
        if !(start_time_millis >= 1000000000 && start_time_millis <= 99999999999999) {
            return Err(QuizError::InvalidParameters);
        }
        let end_time_millis = match crate::numtext::parse_u64(params.end_time.as_str()) {
            None => {
                return Err(QuizError::InvalidParameters);
            },
            Some(v) => v,
        };
        if !(end_time_millis >= 1000000000 && end_time_millis <= 99999999999999) {
            return Err(QuizError::InvalidParameters);
        }
        let start_time = start_time_millis * 1000;
        let end_time = end_time_millis * 1000;
        if !(start_time > now) {
            return Err(QuizError::InvalidParameters);
        }
        if !(end_time > start_time) {
            return Err(QuizError::InvalidParameters);
        }
        if !(end_time - start_time <= HUNDRED_YEARS_MICROS) {
            return Err(QuizError::InvalidParameters);
        }
        let mode = if string_is(&params.mode, "public") {
            QuizMode::Public
        } else if string_is(&params.mode, "registration") {
            QuizMode::Registration
        } else {
            return Err(QuizError::InvalidQuizMode);
        };
        let start_mode = if string_is(&params.start_mode, "auto") {
            QuizStartMode::Auto
        } else if string_is(&params.start_mode, "manual") {
            QuizStartMode::Manual
        } else {
            return Err(QuizError::InvalidStartMode);
        };
        if self.next_quiz_id == u64::MAX {
            return Err(QuizError::InternalError);
        }
        let quiz_id = self.next_quiz_id;

        let ghost all_params = params.questions@;
        let mut remaining = params.questions;
        let mut questions: Vec<Question> = Vec::new();
        let mut index: usize = 0;
        let ghost n_questions = all_params.len();
        let total_questions = remaining.len();
        proof {
            assert(n_questions == total_questions);
            assert(remaining@ =~= all_params.subrange(0, n_questions as int));
        }
        while remaining.len() > 0
            invariant
                0 <= index,
                index + remaining@.len() == n_questions,
                remaining@ == all_params.subrange(index as int, n_questions as int),
                questions@.len() == index,
                forall|j: int|
                    0 <= j < index ==> question_built(
                        #[trigger] questions@[j],
                        all_params[j],
                        quiz_id,
                        j,
                    ),
                forall|j: int|
                    0 <= j < index ==> (#[trigger] questions@[j]).points == all_params[j].points,
            decreases remaining@.len(),
        {
            let qp = remaining.remove(0);
            proof {
                assert(qp == all_params[index as int]);
                assert(remaining@ =~= all_params.subrange(index + 1, n_questions as int));
            }
            let id_text = String::from_str("q").concat(
                crate::numtext::u64_to_string(quiz_id).as_str(),
            ).concat("-").concat(crate::numtext::u64_to_string(index as u64).as_str());
            proof {
                assert(id_text@ =~= question_id_text(quiz_id, index as int));
            }
            let question_type = if qp.correct_options.len() > 1 {
                proof {
                    reveal_strlit("checkbox");
                }
                String::from_str("checkbox")
            } else {
                proof {
                    reveal_strlit("radio");
                }
                String::from_str("radio")
            };
            let question = Question {
                id: id_text,
                text: qp.text,
                options: qp.options,
                correct_options: qp.correct_options,
                points: qp.points,
                question_type,
            };
            questions.push(question);
            index += 1;
        }
        proof {
            lemma_points_match(questions@, all_params);
        }

        let quiz_set = QuizSet {
            id: quiz_id,
            title: params.title,
            description: params.description,
            creator: wallet.clone(),
            creator_nickname: nickname,
            questions,
            time_limit: params.time_limit,
            start_time,
            end_time,
            created_at: now,
            mode,
            start_mode,
            is_started: false,
            registered_users: Vec::new(),
            participant_count: 0,
        };
        proof {
            assert forall|j: int| 0 <= j < self.quiz_sets@.len() implies (
            #[trigger] self.quiz_sets@[j]).0 != quiz_id by {
                assert(self.quiz_sets@[j].0 < self.next_quiz_id);
            }
            crate::kv::lemma_spec_get_none(self.quiz_sets@, quiz_id);
        }
        self.quiz_sets.insert(quiz_id, quiz_set);

        let mut created_quizzes: Vec<u64> = match self.user_created_quizzes.take(&wallet) {
            Some(v) => v,
            None => Vec::new(),
        };
        created_quizzes.push(quiz_id);
        self.user_created_quizzes.insert(wallet, created_quizzes);

        self.next_quiz_id = quiz_id + 1;
        proof {
            let post = *self;
            let pre = *old(self);
            assert forall|j1: int, j2: int|
                0 <= j1 < j2 < quiz_set.questions@.len() implies (
            #[trigger] quiz_set.questions@[j1]).id@ != (#[trigger] quiz_set.questions@[j2]).id@ by {
                if quiz_set.questions@[j1].id@ == quiz_set.questions@[j2].id@ {
                    let p = seq!['q'] + crate::numtext::dec_digits(quiz_id as nat) + seq!['-'];
                    let d1 = crate::numtext::dec_digits(j1 as nat);
                    let d2 = crate::numtext::dec_digits(j2 as nat);
                    assert(question_id_text(quiz_id, j1) == p + d1);
                    assert(question_id_text(quiz_id, j2) == p + d2);
                    assert((p + d1).len() == (p + d2).len());
                    assert forall|k: int| 0 <= k < d1.len() implies d1[k] == d2[k] by {
                        assert((p + d1)[p.len() + k] == d1[k]);
                        assert((p + d2)[p.len() + k] == d2[k]);
                    }
                    assert(d1 =~= d2);
                    crate::numtext::lemma_dec_digits_injective(j1 as nat, j2 as nat);
                }
            }
            assert forall|i: int| 0 <= i < post.quiz_sets@.len() implies {
                let (id, q) = #[trigger] post.quiz_sets@[i];
                &&& q.id == id
                &&& id < post.next_quiz_id
                &&& crate::quiz_state::total_points(q.questions@) <= u32::MAX
                &&& crate::quiz_state::question_ids_unique(q.questions@)
                &&& q.participant_count as int == (match spec_get(post.quiz_participants@, id) {
                    Some(ps) => ps@.len() as int,
                    None => 0,
                })
            } by {
                let (id, q) = post.quiz_sets@[i];
                if i < post.quiz_sets@.len() - 1 {
                    assert(post.quiz_sets@[i] == pre.quiz_sets@[i]);
                } else {
                    assert(post.quiz_sets@[i] == (quiz_id, quiz_set));
                    if crate::kv::has_key(post.quiz_participants@, quiz_id) {
                        let jp = choose|jp: int|
                            0 <= jp < post.quiz_participants@.len()
                                && #[trigger] post.quiz_participants@[jp].0 == quiz_id;
                        assert(has_key(pre.quiz_sets@, quiz_id));
                        let jq = choose|jq: int|
                            0 <= jq < pre.quiz_sets@.len() && #[trigger] pre.quiz_sets@[jq].0
                                == quiz_id;
                        assert(false);
                    }
                    crate::kv::lemma_spec_get_none(post.quiz_participants@, quiz_id);
                }
            }
            assert forall|i: int|
                0 <= i < post.quiz_participants@.len() implies has_key(
                post.quiz_sets@,
                (#[trigger] post.quiz_participants@[i]).0,
            ) by {
                let id = post.quiz_participants@[i].0;
                assert(has_key(pre.quiz_sets@, id));
                let j = choose|j: int|
                    0 <= j < pre.quiz_sets@.len() && #[trigger] pre.quiz_sets@[j].0 == id;
                assert(post.quiz_sets@[j] == pre.quiz_sets@[j]);
            }
        }
        Ok(())
    }
}

/// Whether `s` holds exactly the characters of `lit`.
pub fn string_is(s: &String, lit: &str) -> (r: bool)
    ensures
        r == (s@ == lit@),
{
    <String as PartialEq>::eq(s, &String::from_str(lit))
}

/// Question records built from parameters carry the parameters' points.
proof fn lemma_points_match(a: Seq<Question>, b: Seq<QuestionParams>)
    requires
        a.len() == b.len(),
        forall|j: int| 0 <= j < a.len() ==> (#[trigger] a[j]).points == b[j].points,
    ensures
        crate::quiz_state::total_points(a) == params_points(b),
    decreases a.len(),
{
    if a.len() > 0 {
        lemma_points_match(a.drop_last(), b.drop_last());
    }
}

/// A submitted option set answers a question exactly when, sorted, it equals
/// the question's correct option set: order never matters.
pub open spec fn answer_matches(selected: Seq<u32>, correct: Seq<u32>) -> bool {
    crate::sorting::sorted_u32(selected) == crate::sorting::sorted_u32(correct)
}

/// The option set submitted for question `i`: the last answer carrying that
/// question's identifier wins; an unanswered question holds the empty set.
pub open spec fn slot_for(questions: Seq<Question>, answers: Seq<AnswerOption>, i: int) -> Seq<
    u32,
>
    decreases answers.len(),
{
    if answers.len() == 0 {
        Seq::empty()
    } else if answers.last().question_id@ == questions[i].id@ {
        answers.last().selected_answers@
    } else {
        slot_for(questions, answers.drop_last(), i)
    }
}

/// The option sets submitted for each question, in question order.
pub open spec fn answer_slots(questions: Seq<Question>, answers: Seq<AnswerOption>) -> Seq<
    Seq<u32>,
> {
    Seq::new(questions.len(), |i: int| slot_for(questions, answers, i))
}

/// The score of the first `n` questions: each question awards its full points
/// exactly when its submitted option set matches its correct one.
pub open spec fn total_score_upto(
    questions: Seq<Question>,
    answers: Seq<AnswerOption>,
    n: int,
) -> int
    decreases n,
{
    if n <= 0 {
        0
    } else {
        total_score_upto(questions, answers, n - 1) + (if answer_matches(
            slot_for(questions, answers, n - 1),
            questions[n - 1].correct_options@,
        ) {
            questions[n - 1].points as int
        } else {
            0
        })
    }
}

/// The score of an attempt: the sum over all questions.
pub open spec fn total_score(questions: Seq<Question>, answers: Seq<AnswerOption>) -> int {
    total_score_upto(questions, answers, questions.len() as int)
}

/// The answer names a question of the quiz.
pub open spec fn known_answer(questions: Seq<Question>, a: AnswerOption) -> bool {
    exists|i: int| 0 <= i < questions.len() && (#[trigger] questions[i]).id@ == a.question_id@
}

/// Every submitted answer names a question of the quiz.
pub open spec fn all_answers_known(questions: Seq<Question>, answers: Seq<AnswerOption>) -> bool {
    forall|j: int| 0 <= j < answers.len() ==> known_answer(questions, #[trigger] answers[j])
}

/// Whether the identity is in the quiz's registered set.
pub open spec fn is_registered(q: QuizSet, w: Seq<char>) -> bool {
    exists|i: int| 0 <= i < q.registered_users@.len() && (#[trigger] q.registered_users@[i])@ == w
}

/// A submission to a not-yet-started quiz in automatic start mode whose start
/// time has passed starts the quiz as a side effect, even when the submission
/// itself is then rejected.
pub open spec fn auto_starts(q: QuizSet, now: u64) -> bool {
    !q.is_started && q.start_mode == QuizStartMode::Auto && now >= q.start_time
}

/// Why a submission is rejected, if it is: the checks in the order the engine
/// makes them.
pub open spec fn submit_rejection(
    s: QuizState,
    signer: Option<String>,
    params: SubmitAnswersParams,
    now: u64,
) -> Option<QuizError> {
    if signer is None {
        Some(QuizError::InsufficientPermissions)
    } else {
        let w = signer->0@;
        match spec_get(s.quiz_sets@, params.quiz_id) {
            None => Some(QuizError::QuizNotFound),
            Some(q) => {
                if !q.is_started && !auto_starts(q, now) {
                    Some(QuizError::QuizNotStarted)
                } else if !(now <= q.end_time) {
                    Some(QuizError::InvalidParameters)
                } else if spec_get(s.user_attempts@, (params.quiz_id, w)) is Some {
                    Some(QuizError::UserAlreadyAttempted)
                } else if spec_get(s.users@, w) is None {
                    Some(QuizError::UserNotFound)
                } else if spec_get(s.users@, w)->0.nickname@ != params.nickname@ {
                    Some(QuizError::InvalidParameters)
                } else if q.mode == QuizMode::Registration && !is_registered(q, w) {
                    Some(QuizError::UserNotRegistered)
                } else if params.answers@.len() != q.questions@.len() {
                    Some(QuizError::InvalidParameters)
                } else if !all_answers_known(q.questions@, params.answers@) {
                    Some(QuizError::InvalidParameters)
                } else {
                    None
                }
            },
        }
    }
}

/// The rejections that come before the auto-start side effect.
pub open spec fn early_submit_error(e: QuizError) -> bool {
    e == QuizError::InsufficientPermissions || e == QuizError::QuizNotFound || e
        == QuizError::QuizNotStarted
}

/// How a rejected submission may still have changed the ledger: the quiz it
/// names auto-started, and nothing else moved.
pub open spec fn after_auto_start(pre: QuizState, post: QuizState, quiz_id: u64, now: u64) -> bool {
    let q = spec_get(pre.quiz_sets@, quiz_id)->0;
    if spec_get(pre.quiz_sets@, quiz_id) is Some && auto_starts(q, now) {
        &&& spec_get(post.quiz_sets@, quiz_id) is Some
        &&& ({
            let q2 = spec_get(post.quiz_sets@, quiz_id)->0;
            &&& quiz_core_eq(q2, q)
            &&& q2.is_started == true
            &&& q2.registered_users@ == q.registered_users@
            &&& q2.participant_count == q.participant_count
        })
        &&& (forall|id2: u64|
            id2 != quiz_id ==> spec_get(post.quiz_sets@, id2) == spec_get(pre.quiz_sets@, id2))
        &&& post.user_attempts == pre.user_attempts
        &&& post.quiz_events == pre.quiz_events
        &&& post.app_events == pre.app_events
        &&& post.next_quiz_id == pre.next_quiz_id
        &&& post.user_participations == pre.user_participations
        &&& post.leaderboard == pre.leaderboard
        &&& post.users == pre.users
        &&& post.nickname_to_wallet == pre.nickname_to_wallet
        &&& post.user_created_quizzes == pre.user_created_quizzes
        &&& post.quiz_participants == pre.quiz_participants
    } else {
        post == pre
    }
}

/// The sum of the first `n` questions' points.
pub open spec fn total_points_upto(questions: Seq<Question>, n: int) -> int
    decreases n,
{
    if n <= 0 {
        0
    } else {
        total_points_upto(questions, n - 1) + questions[n - 1].points
    }
}

/// A prefix sum of points only reads the prefix.
proof fn lemma_points_upto_drop_last(questions: Seq<Question>, k: int)
    requires
        0 <= k <= questions.len() - 1,
    ensures
        total_points_upto(questions, k) == total_points_upto(questions.drop_last(), k),
    decreases k,
{
    if k > 0 {
        lemma_points_upto_drop_last(questions, k - 1);
    }
}

/// The prefix sum over all questions is the quiz's point total.
proof fn lemma_points_upto_total(questions: Seq<Question>)
    ensures
        total_points_upto(questions, questions.len() as int) == crate::quiz_state::total_points(
            questions,
        ),
    decreases questions.len(),
{
    if questions.len() > 0 {
        lemma_points_upto_total(questions.drop_last());
        lemma_points_upto_drop_last(questions, questions.len() - 1);
    }
}

/// No prefix scores more than its points.
proof fn lemma_score_le_points(questions: Seq<Question>, answers: Seq<AnswerOption>, n: int)
    requires
        n <= questions.len(),
    ensures
        0 <= total_score_upto(questions, answers, n),
        total_score_upto(questions, answers, n) <= total_points_upto(questions, n),
    decreases n,
{
    if n > 0 {
        lemma_score_le_points(questions, answers, n - 1);
    }
}

/// Prefix point sums grow with the prefix.
proof fn lemma_points_upto_mono(questions: Seq<Question>, a: int, b: int)
    requires
        a <= b,
    ensures
        total_points_upto(questions, a) <= total_points_upto(questions, b),
    decreases b - a,
{
    if a < b {
        lemma_points_upto_mono(questions, a, b - 1);
    }
}

/// Whether two option lists hold the same indices in the same order.
pub fn u32_vec_eq(a: &Vec<u32>, b: &Vec<u32>) -> (r: bool)
    ensures
        r == (a@ == b@),
{
    let n = a.len();
    if n != b.len() {
        return false;
    }
    let mut i: usize = 0;
    while i < n
        invariant
            0 <= i <= n,
            n == a@.len(),
            n == b@.len(),
            forall|j: int| 0 <= j < i ==> a@[j] == b@[j],
        decreases n - i,
    {
        if a[i] != b[i] {
            return false;
        }
        i += 1;
    }
    proof {
        assert(a@ =~= b@);
    }
    true
}

/// Whether some element of `v` holds the characters of `s`.
pub fn string_vec_contains(v: &Vec<String>, s: &String) -> (r: bool)
    ensures
        r == exists|i: int| 0 <= i < v@.len() && (#[trigger] v@[i])@ == s@,
{
    let n = v.len();
    let mut i: usize = 0;
    while i < n
        invariant
            0 <= i <= n,
            n == v@.len(),
            forall|j: int| 0 <= j < i ==> (#[trigger] v@[j])@ != s@,
        decreases n - i,
    {
        if <String as PartialEq>::eq(&v[i], s) {
            return true;
        }
        i += 1;
    }
    false
}

/// Replacing one quiz record with one that keeps its id, point total and
/// participant count preserves the ledger invariant, as long as nothing else
/// changed.
proof fn lemma_one_quiz_replaced(pre: QuizState, post: QuizState, quiz_id: u64)
    requires
        pre.wf(),
        post.maps_unique(),
        spec_get(pre.quiz_sets@, quiz_id) is Some,
        spec_get(post.quiz_sets@, quiz_id) is Some,
        ({
            let q = spec_get(pre.quiz_sets@, quiz_id)->0;
            let q2 = spec_get(post.quiz_sets@, quiz_id)->0;
            &&& q2.id == q.id
            &&& q2.questions@ == q.questions@
            &&& q2.participant_count == q.participant_count
        }),
        forall|k2: u64|
            k2 != quiz_id ==> spec_get(post.quiz_sets@, k2) == spec_get(pre.quiz_sets@, k2),
        forall|i: int|
            0 <= i < post.quiz_sets@.len() ==> has_key(pre.quiz_sets@, (
            #[trigger] post.quiz_sets@[i]).0),
        post.next_quiz_id == pre.next_quiz_id,
        post.user_attempts == pre.user_attempts,
        post.user_participations == pre.user_participations,
        post.leaderboard == pre.leaderboard,
        post.users == pre.users,
        post.nickname_to_wallet == pre.nickname_to_wallet,
        post.user_created_quizzes == pre.user_created_quizzes,
        post.quiz_participants == pre.quiz_participants,
    ensures
        post.wf(),
{
    assert forall|i: int| 0 <= i < post.quiz_sets@.len() implies {
        let (id, q) = #[trigger] post.quiz_sets@[i];
        &&& q.id == id
        &&& id < post.next_quiz_id
        &&& crate::quiz_state::total_points(q.questions@) <= u32::MAX
        &&& crate::quiz_state::question_ids_unique(q.questions@)
        &&& q.participant_count as int == (match spec_get(post.quiz_participants@, id) {
            Some(ps) => ps@.len() as int,
            None => 0,
        })
    } by {
        let (id, q) = post.quiz_sets@[i];
        crate::kv::lemma_spec_get_at(post.quiz_sets@, id, i);
        let qpre = spec_get(pre.quiz_sets@, id)->0;
        crate::kv::lemma_spec_get_index(pre.quiz_sets@, id);
        if id == quiz_id {
            lemma_total_points_eq(
                spec_get(pre.quiz_sets@, quiz_id)->0.questions@,
                q.questions@,
            );
        }
    }
    assert forall|i: int|
        0 <= i < post.quiz_participants@.len() implies has_key(
        post.quiz_sets@,
        (#[trigger] post.quiz_participants@[i]).0,
    ) by {
        let id = post.quiz_participants@[i].0;
        assert(has_key(pre.quiz_sets@, id));
        if id != quiz_id {
            assert(spec_get(post.quiz_sets@, id) == spec_get(pre.quiz_sets@, id));
            let j = choose|j: int| 0 <= j < pre.quiz_sets@.len() && #[trigger] pre.quiz_sets@[j].0
                == id;
            crate::kv::lemma_spec_get_at(pre.quiz_sets@, id, j);
        }
    }
}

/// Point totals depend only on the questions' point fields.
proof fn lemma_total_points_eq(a: Seq<Question>, b: Seq<Question>)
    requires
        a == b,
    ensures
        crate::quiz_state::total_points(a) == crate::quiz_state::total_points(b),
{
}

/// Copy a board row by row.
fn clone_entries(v: &Vec<LeaderboardEntry>) -> (r: Vec<LeaderboardEntry>)
    ensures
        r@ == v@,
{
    let mut out: Vec<LeaderboardEntry> = Vec::new();
    let n = v.len();
    let mut i: usize = 0;
    while i < n
        invariant
            0 <= i <= n,
            n == v@.len(),
            out@ == v@.subrange(0, i as int),
        decreases n - i,
    {
        out.push(v[i].clone());
        proof {
            assert(out@ =~= v@.subrange(0, i + 1));
        }
        i += 1;
    }
    proof {
        assert(v@.subrange(0, n as int) =~= v@);
    }
    out
}

impl QuizState {
    /// Submit answers for a quiz. The quiz must exist, be running (a quiz in
    /// automatic start mode whose start time has passed starts now, as a side
    /// effect that persists even if the submission is then rejected), and not
    /// have ended; the identity must not have attempted it, must carry the
    /// submitted display name, and under registration mode must be
    /// registered; the submission must answer every question, naming only
    /// questions of the quiz. Scoring compares each question's submitted
    /// option set with its correct set as unordered sets and awards full
    /// points on exact equality. The attempt is stored, logged, counted, and
    /// the quiz's leaderboard is recomputed.
    #[verifier::loop_isolation(false)]
    #[verifier::rlimit(50)]
    pub fn submit_answers(
        &mut self,
        signer: Option<String>,
        params: SubmitAnswersParams,
        now: u64,
    ) -> (r: Result<(), QuizError>)
        requires
            old(self).wf(),
            match spec_get(old(self).quiz_sets@, params.quiz_id) {
                Some(q) => q.participant_count < u32::MAX,
                None => true,
            },
        ensures
            final(self).wf(),
            match submit_rejection(*old(self), signer, params, now) {
                Some(e) => {
                    &&& r == Err::<(), QuizError>(e)
                    &&& (early_submit_error(e) ==> *final(self) == *old(self))
                    &&& (!early_submit_error(e) ==> after_auto_start(
                        *old(self),
                        *final(self),
                        params.quiz_id,
                        now,
                    ))
                },
                None => {
                    let q = spec_get(old(self).quiz_sets@, params.quiz_id)->0;
                    let w = signer->0;
                    let score = total_score(q.questions@, params.answers@);
                    &&& r == Ok::<(), QuizError>(())
                    &&& spec_get(final(self).user_attempts@, (params.quiz_id, w@)) is Some
                    &&& ({
                        let a = spec_get(final(self).user_attempts@, (params.quiz_id, w@))->0;
                        &&& a.quiz_id == params.quiz_id
                        &&& a.user@ == w@
                        &&& a.nickname == params.nickname
                        &&& a.answers.deep_view() == answer_slots(q.questions@, params.answers@)
                        &&& a.score as int == score
                        &&& a.time_taken == params.time_taken
                        &&& a.completed_at == now
                    })
                    &&& (forall|k2: (u64, Seq<char>)|
                        k2 != (params.quiz_id, w@) ==> spec_get(final(self).user_attempts@, k2)
                            == spec_get(old(self).user_attempts@, k2))
                    &&& spec_get(final(self).quiz_sets@, params.quiz_id) is Some
                    &&& ({
                        let q2 = spec_get(final(self).quiz_sets@, params.quiz_id)->0;
                        &&& quiz_core_eq(q2, q)
                        &&& q2.is_started == (q.is_started || auto_starts(q, now))
                        &&& q2.registered_users@ == q.registered_users@
                        &&& q2.participant_count == q.participant_count + 1
                    })
                    &&& (forall|id2: u64|
                        id2 != params.quiz_id ==> spec_get(final(self).quiz_sets@, id2)
                            == spec_get(old(self).quiz_sets@, id2))
                    &&& final(self).quiz_events@.len() == old(self).quiz_events@.len() + 1
                    &&& final(self).quiz_events@.drop_last() == old(self).quiz_events@
                    &&& crate::quiz_state::same_attempt(
                        final(self).quiz_events@.last(),
                        spec_get(final(self).user_attempts@, (params.quiz_id, w@))->0,
                    )
                    &&& spec_get(final(self).quiz_participants@, params.quiz_id) is Some
                    &&& spec_get(final(self).quiz_participants@, params.quiz_id)->0@ == (
                    match spec_get(old(self).quiz_participants@, params.quiz_id) {
                        Some(ps) => ps@.push(w),
                        None => seq![w],
                    })
                    &&& (forall|id2: u64|
                        id2 != params.quiz_id ==> spec_get(final(self).quiz_participants@, id2)
                            == spec_get(old(self).quiz_participants@, id2))
                    &&& spec_get(final(self).user_participations@, w@) is Some
                    &&& spec_get(final(self).user_participations@, w@)->0@ == (match spec_get(
                        old(self).user_participations@,
                        w@,
                    ) {
                        Some(v) => v@.push(params.quiz_id),
                        None => seq![params.quiz_id],
                    })
                    &&& (forall|w2: Seq<char>|
                        w2 != w@ ==> spec_get(final(self).user_participations@, w2) == spec_get(
                            old(self).user_participations@,
                            w2,
                        ))
                    &&& spec_get(final(self).leaderboard@, params.quiz_id) is Some
                    &&& ({
                        let es = spec_get(final(self).leaderboard@, params.quiz_id)->0;
                        &&& es@.to_multiset() == updated_entries(
                            board(old(self).leaderboard@, params.quiz_id),
                            w,
                            score as u32,
                        ).to_multiset()
                        &&& sorted_desc(es@)
                        &&& entries_unique(es@)
                        &&& exists|i: int|
                            0 <= i < es@.len() && (#[trigger] es@[i]).user@ == w@ && es@[i].score
                                as int == score
                    })
                    &&& (forall|id2: u64|
                        id2 != params.quiz_id ==> spec_get(final(self).leaderboard@, id2)
                            == spec_get(old(self).leaderboard@, id2))
                    &&& final(self).app_events == old(self).app_events
                    &&& final(self).next_quiz_id == old(self).next_quiz_id
                    &&& final(self).users == old(self).users
                    &&& final(self).nickname_to_wallet == old(self).nickname_to_wallet
                    &&& final(self).user_created_quizzes == old(self).user_created_quizzes
                },
            },
    {
        let wallet = match signer {
            None => {
                return Err(QuizError::InsufficientPermissions);
            },
            Some(w) => w,
        };
        let ghost w = wallet@;
        let quiz_id = params.quiz_id;
        let (is_started0, start_mode0, start_time0, end_time0, mode0) = match self.quiz_sets.get(
            &quiz_id,
        ) {
            None => {
                return Err(QuizError::QuizNotFound);
            },
            Some(q) => (q.is_started, q.start_mode, q.start_time, q.end_time, q.mode),
        };
        let auto_start = !is_started0 && start_mode0 == QuizStartMode::Auto && now >= start_time0;
        if !is_started0 && !auto_start {
            return Err(QuizError::QuizNotStarted);
        }
        if auto_start {
            let q = match self.quiz_sets.take(&quiz_id) {
                Some(q) => q,
                None => {
                    proof {
                        assert(false);
                    }
                    return Err(QuizError::InternalError);
                },
            };
            let started = QuizSet {
                id: q.id,
                title: q.title,
                description: q.description,
                creator: q.creator,
                creator_nickname: q.creator_nickname,
                questions: q.questions,
                time_limit: q.time_limit,
                start_time: q.start_time,
                end_time: q.end_time,
                created_at: q.created_at,
                mode: q.mode,
                start_mode: q.start_mode,
                is_started: true,
                registered_users: q.registered_users,
                participant_count: q.participant_count,
            };
            self.quiz_sets.insert(quiz_id, started);
            proof {
                lemma_one_quiz_replaced(*old(self), *self, quiz_id);
            }
        }
        let ghost mid = *self;
        proof {
            assert(after_auto_start(*old(self), mid, quiz_id, now));
        }
        if !(now <= end_time0) {
            return Err(QuizError::InvalidParameters);
        }
        let key = AttemptKey { quiz_id, user: wallet.clone() };
        if self.user_attempts.contains_key(&key) {
            return Err(QuizError::UserAlreadyAttempted);
        }
        let nickname_matches = match self.users.get(&wallet) {
            None => {
                return Err(QuizError::UserNotFound);
            },
            Some(u) => <String as PartialEq>::eq(&u.nickname, &params.nickname),
        };
        if !nickname_matches {
            return Err(QuizError::InvalidParameters);
        }
        if mode0 == QuizMode::Registration {
            let registered = match self.quiz_sets.get(&quiz_id) {
                Some(q) => string_vec_contains(&q.registered_users, &wallet),
                None => false,
            };
            if !registered {
                return Err(QuizError::UserNotRegistered);
            }
        }
        let ghost qpre = spec_get(old(self).quiz_sets@, quiz_id)->0;
        let ghost qseq = qpre.questions@;
        let ghost all_answers = params.answers@;

        let score: u32;
        let mut answers_by_index: Vec<Vec<u32>> = Vec::new();
        {
            let quiz = match self.quiz_sets.get(&quiz_id) {
                Some(q) => q,
                None => {
                    proof {
                        assert(false);
                    }
                    return Err(QuizError::InternalError);
                },
            };
            proof {
                assert(quiz.questions@ == qseq);
                crate::kv::lemma_spec_get_index(self.quiz_sets@, quiz_id);
                assert(crate::quiz_state::question_ids_unique(qseq));
            }
            let n_questions = quiz.questions.len();
            if params.answers.len() != n_questions {
                return Err(QuizError::InvalidParameters);
            }
            let mut k: usize = 0;
            while k < n_questions
                invariant
                    0 <= k <= n_questions,
                    answers_by_index@.len() == k,
                    forall|i2: int| 0 <= i2 < k ==> (#[trigger] answers_by_index@[i2])@ == Seq::<
                        u32,
                    >::empty(),
                decreases n_questions - k,
            {
                answers_by_index.push(Vec::new());
                k += 1;
            }
            proof {
                assert forall|i2: int| 0 <= i2 < n_questions implies (
                #[trigger] answers_by_index@[i2])@ == slot_for(
                    qseq,
                    all_answers.subrange(0, 0),
                    i2,
                ) by {
                    assert(all_answers.subrange(0, 0) =~= Seq::<AnswerOption>::empty());
                }
            }
            let mut remaining = params.answers;
            let mut j: usize = 0;
            let n_answers = remaining.len();
            proof {
                assert(remaining@ =~= all_answers.subrange(0, n_answers as int));
            }
            while remaining.len() > 0
                invariant
                    0 <= j,
                    j + remaining@.len() == n_answers,
                    remaining@ == all_answers.subrange(j as int, n_answers as int),
                    answers_by_index@.len() == n_questions,
                    forall|j2: int|
                        0 <= j2 < j ==> known_answer(qseq, #[trigger] all_answers[j2]),
                    forall|i2: int|
                        0 <= i2 < n_questions ==> (#[trigger] answers_by_index@[i2])@ == slot_for(
                            qseq,
                            all_answers.subrange(0, j as int),
                            i2,
                        ),
                decreases remaining@.len(),
            {
                let ans = remaining.remove(0);
                proof {
                    assert(ans == all_answers[j as int]);
                    assert(remaining@ =~= all_answers.subrange(j + 1, n_answers as int));
                }
                let mut idx: usize = 0;
                let mut found = false;
                while idx < n_questions && !found
                    invariant
                        0 <= idx <= n_questions,
                        !found ==> forall|k2: int|
                            0 <= k2 < idx ==> (#[trigger] qseq[k2]).id@ != ans.question_id@,
                        found ==> idx < n_questions && qseq[idx as int].id@ == ans.question_id@,
                    decreases n_questions - idx + (if found {
                        0int
                    } else {
                        1int
                    }),
                {
                    if <String as PartialEq>::eq(&quiz.questions[idx].id, &ans.question_id) {
                        found = true;
                    } else {
                        idx += 1;
                    }
                }
                if !found {
                    proof {
                        assert(!known_answer(qseq, all_answers[j as int]));
                        assert(!all_answers_known(qseq, all_answers));
                    }
                    return Err(QuizError::InvalidParameters);
                }
                let ghost pre_slots = answers_by_index@;
                let slot = clone_u32_vec(&ans.selected_answers);
                let dropped = answers_by_index.remove(idx);
                answers_by_index.insert(idx, slot);
                proof {
                    let prefix = all_answers.subrange(0, j as int);
                    let cur = all_answers.subrange(0, j + 1);
                    assert(cur.drop_last() =~= prefix);
                    assert(cur.last() == all_answers[j as int]);
                    assert(answers_by_index@ =~= pre_slots.update(
                        idx as int,
                        answers_by_index@[idx as int],
                    ));
                    assert forall|i2: int|
                        0 <= i2 < n_questions implies (#[trigger] answers_by_index@[i2])@
                        == slot_for(qseq, cur, i2) by {
                        if i2 == idx {
                            assert(answers_by_index@[i2]@ == ans.selected_answers@);
                        } else {
                            if qseq[i2].id@ == ans.question_id@ {
                                if i2 < idx {
                                    assert(qseq[i2].id@ != qseq[idx as int].id@);
                                } else {
                                    assert(qseq[idx as int].id@ != qseq[i2].id@);
                                }
                                assert(false);
                            }
                            assert(answers_by_index@[i2] == pre_slots[i2]);
                        }
                    }
                }
                j += 1;
            }
            proof {
                assert(all_answers.subrange(0, j as int) =~= all_answers);
                assert(all_answers_known(qseq, all_answers));
            }

            let mut acc: u32 = 0;
            let mut i: usize = 0;
            proof {
                lemma_points_upto_total(qseq);
                crate::kv::lemma_spec_get_index(mid.quiz_sets@, quiz_id);
            }
            while i < n_questions
                invariant
                    0 <= i <= n_questions,
                    acc as int == total_score_upto(qseq, all_answers, i as int),
                decreases n_questions - i,
            {
                let sorted_selected = crate::sorting::sort_u32(&answers_by_index[i]);
                let sorted_correct = crate::sorting::sort_u32(&quiz.questions[i].correct_options);
                proof {
                    lemma_score_le_points(qseq, all_answers, i as int);
                    lemma_score_le_points(qseq, all_answers, i + 1);
                    lemma_points_upto_mono(qseq, i + 1, n_questions as int);
                }
                if u32_vec_eq(&sorted_selected, &sorted_correct) {
                    acc = acc + quiz.questions[i].points;
                }
                i += 1;
            }
            score = acc;
        }

        let attempt = UserAttempt {
            quiz_id,
            user: wallet.clone(),
            nickname: params.nickname,
            answers: answers_by_index,
            score,
            time_taken: params.time_taken,
            completed_at: now,
        };
        proof {
            assert(attempt.answers.deep_view() =~~= answer_slots(qseq, all_answers));
        }
        self.quiz_events.push(crate::quiz_state::copy_attempt(&attempt));
        proof {
            assert(self.quiz_events@.drop_last() =~= mid.quiz_events@);
        }
        self.user_attempts.insert(AttemptKey { quiz_id, user: wallet.clone() }, attempt);

        let mut participants = match self.quiz_participants.take(&quiz_id) {
            Some(v) => v,
            None => Vec::new(),
        };
        proof {
            if exists|i2: int|
                0 <= i2 < participants@.len() && (#[trigger] participants@[i2])@ == w {
                let i2 = choose|i2: int|
                    0 <= i2 < participants@.len() && (#[trigger] participants@[i2])@ == w;
                crate::kv::lemma_spec_get_index(mid.quiz_participants@, quiz_id);
                assert(false);
            }
        }
        if !string_vec_contains(&participants, &wallet) {
            participants.push(wallet.clone());
        }
        self.quiz_participants.insert(quiz_id, participants);

        let q = match self.quiz_sets.take(&quiz_id) {
            Some(q) => q,
            None => {
                proof {
                    assert(false);
                }
                return Err(QuizError::InternalError);
            },
        };
        let counted = QuizSet {
            id: q.id,
            title: q.title,
            description: q.description,
            creator: q.creator,
            creator_nickname: q.creator_nickname,
            questions: q.questions,
            time_limit: q.time_limit,
            start_time: q.start_time,
            end_time: q.end_time,
            created_at: q.created_at,
            mode: q.mode,
            start_mode: q.start_mode,
            is_started: q.is_started,
            registered_users: q.registered_users,
            participant_count: q.participant_count + 1,
        };
        self.quiz_sets.insert(quiz_id, counted);

        let mut participations = match self.user_participations.take(&wallet) {
            Some(v) => v,
            None => Vec::new(),
        };
        participations.push(quiz_id);
        self.user_participations.insert(wallet.clone(), participations);

        proof {
            let post = *self;
            assert(post.users@ == mid.users@);
            assert(post.nickname_to_wallet@ == mid.nickname_to_wallet@);
            assert(post.nickname_index_bijective());
            assert forall|k2: (u64, Seq<char>)| k2 != (quiz_id, w) implies spec_get(
                post.user_attempts@,
                k2,
            ) == spec_get(mid.user_attempts@, k2) by {}
            assert forall|id2: u64| id2 != quiz_id implies spec_get(post.quiz_participants@, id2)
                == spec_get(mid.quiz_participants@, id2) by {}
            assert forall|id2: u64| id2 != quiz_id implies spec_get(post.quiz_sets@, id2)
                == spec_get(mid.quiz_sets@, id2) by {}
            // every quiz record still carries its invariants
            assert forall|i: int| 0 <= i < post.quiz_sets@.len() implies {
                let (id, q2) = #[trigger] post.quiz_sets@[i];
                &&& q2.id == id
                &&& id < post.next_quiz_id
                &&& crate::quiz_state::total_points(q2.questions@) <= u32::MAX
                &&& crate::quiz_state::question_ids_unique(q2.questions@)
                &&& q2.participant_count as int == (match spec_get(post.quiz_participants@, id) {
                    Some(ps) => ps@.len() as int,
                    None => 0,
                })
            } by {
                let (id, q2) = post.quiz_sets@[i];
                crate::kv::lemma_spec_get_at(post.quiz_sets@, id, i);
                crate::kv::lemma_spec_get_index(mid.quiz_sets@, id);
                if id == quiz_id {
                    lemma_total_points_eq(
                        spec_get(mid.quiz_sets@, quiz_id)->0.questions@,
                        q2.questions@,
                    );
                }
            }
            // every attempt carries its own key
            assert forall|i: int| 0 <= i < post.user_attempts@.len() implies {
                let (k2, a2) = #[trigger] post.user_attempts@[i];
                a2.quiz_id == k2.0 && a2.user@ == k2.1
            } by {
                if i < post.user_attempts@.len() - 1 {
                    assert(post.user_attempts@[i] == mid.user_attempts@[i]);
                }
            }
            // every listed participant has an attempt; lists stay duplicate-free
            assert forall|i: int| 0 <= i < post.quiz_participants@.len() implies {
                let (id, ps) = #[trigger] post.quiz_participants@[i];
                &&& has_key(post.quiz_sets@, id)
                &&& (forall|j2: int|
                    0 <= j2 < ps@.len() ==> spec_get(
                        post.user_attempts@,
                        (id, (#[trigger] ps@[j2])@),
                    ) is Some)
                &&& (forall|j1: int, j2: int|
                    0 <= j1 < j2 < ps@.len() ==> (#[trigger] ps@[j1])@ != (#[trigger] ps@[j2])@)
            } by {
                let (id, ps) = post.quiz_participants@[i];
                crate::kv::lemma_spec_get_at(post.quiz_participants@, id, i);
                assert(has_key(post.quiz_sets@, id)) by {
                    if id == quiz_id {
                        crate::kv::lemma_spec_get_index(post.quiz_sets@, quiz_id);
                    } else {
                        crate::kv::lemma_spec_get_index(mid.quiz_participants@, id);
                        crate::kv::lemma_spec_get_index(mid.quiz_sets@, id);
                        crate::kv::lemma_spec_get_index(post.quiz_sets@, id);
                    }
                }
                if id == quiz_id {
                    if spec_get(mid.quiz_participants@, quiz_id) is Some {
                        crate::kv::lemma_spec_get_index(mid.quiz_participants@, quiz_id);
                    }
                    assert forall|j2: int| 0 <= j2 < ps@.len() implies spec_get(
                        post.user_attempts@,
                        (id, (#[trigger] ps@[j2])@),
                    ) is Some by {
                        if j2 < ps@.len() - 1 {
                            assert((id, ps@[j2]@) != (quiz_id, w));
                        }
                    }
                } else {
                    crate::kv::lemma_spec_get_index(mid.quiz_participants@, id);
                    assert forall|j2: int| 0 <= j2 < ps@.len() implies spec_get(
                        post.user_attempts@,
                        (id, (#[trigger] ps@[j2])@),
                    ) is Some by {
                        assert((id, ps@[j2]@) != (quiz_id, w));
                    }
                }
            }
            assert(post.leaderboard@ == mid.leaderboard@);
            assert(post.leaderboards_ok());
            assert(post.wf());
        }
        let lb = self.update_leaderboard(quiz_id, &wallet, score);
        match lb {
            Ok(()) => Ok(()),
            Err(e) => Err(e),
        }
    }
}

/// Law: creation is owed success exactly when the submitting identity has a
/// profile, both timestamps parse with plausible magnitude, the window starts
/// in the future, ends after it starts, spans at most a hundred years, the
/// mode strings name modes, and the id counter has room.
pub proof fn lemma_valid_creation_accepted(
    s: QuizState,
    signer: Option<String>,
    params: CreateQuizParams,
    now: u64,
)
    requires
        signer is Some,
        spec_get(s.users@, signer->0@) is Some,
        crate::numtext::parse_u64_spec(params.start_time@) is Some,
        millis_plausible(crate::numtext::parse_u64_spec(params.start_time@)->0),
        crate::numtext::parse_u64_spec(params.end_time@) is Some,
        millis_plausible(crate::numtext::parse_u64_spec(params.end_time@)->0),
        crate::numtext::parse_u64_spec(params.start_time@)->0 * 1000 > now,
        crate::numtext::parse_u64_spec(params.end_time@)->0 * 1000
            > crate::numtext::parse_u64_spec(params.start_time@)->0 * 1000,
        crate::numtext::parse_u64_spec(params.end_time@)->0 * 1000
            - crate::numtext::parse_u64_spec(params.start_time@)->0 * 1000
            <= HUNDRED_YEARS_MICROS,
        params.mode@ == "public"@ || params.mode@ == "registration"@,
        params.start_mode@ == "auto"@ || params.start_mode@ == "manual"@,
        s.next_quiz_id != u64::MAX,
    ensures
        create_quiz_rejection(s, signer, params, now) is None,
{
}

/// Law: successful creations assign sequential ids. The two intermediate
/// states are related to their predecessors exactly as the contract of
/// `create_quiz` states: each stores its quiz under the id counter's value
/// and advances the counter by one, so the second quiz's id is one above the
/// first's; a ledger whose counter stands at its initial value hands out id
/// one first.
pub proof fn lemma_quiz_ids_sequential(s0: QuizState, s1: QuizState, s2: QuizState)
    requires
        s1.next_quiz_id == s0.next_quiz_id + 1,
        spec_get(s1.quiz_sets@, s0.next_quiz_id) is Some,
        spec_get(s1.quiz_sets@, s0.next_quiz_id)->0.id == s0.next_quiz_id,
        s2.next_quiz_id == s1.next_quiz_id + 1,
        spec_get(s2.quiz_sets@, s1.next_quiz_id) is Some,
        spec_get(s2.quiz_sets@, s1.next_quiz_id)->0.id == s1.next_quiz_id,
        forall|id2: u64|
            id2 != s1.next_quiz_id ==> spec_get(s2.quiz_sets@, id2) == spec_get(
                s1.quiz_sets@,
                id2,
            ),
    ensures
        spec_get(s2.quiz_sets@, s0.next_quiz_id) is Some,
        spec_get(s2.quiz_sets@, s1.next_quiz_id)->0.id == spec_get(
            s2.quiz_sets@,
            s0.next_quiz_id,
        )->0.id + 1,
        s0.next_quiz_id == 1 ==> spec_get(s2.quiz_sets@, 1) is Some && spec_get(
            s2.quiz_sets@,
            1,
        )->0.id == 1,
{
}

/// Law: a second submission for the same quiz and identity is rejected as
/// already attempted, and the first attempt record stays unchanged. The
/// premises name the inputs on which the second call reaches that check: the
/// quiz is running (or starts now) and has not ended at the time of the
/// second call.
pub proof fn lemma_second_attempt_rejected(
    s1: QuizState,
    s2: QuizState,
    signer: Option<String>,
    params2: SubmitAnswersParams,
    now2: u64,
)
    requires
        s1.wf(),
        signer is Some,
        spec_get(s1.user_attempts@, (params2.quiz_id, signer->0@)) is Some,
        spec_get(s1.quiz_sets@, params2.quiz_id) is Some,
        ({
            let q = spec_get(s1.quiz_sets@, params2.quiz_id)->0;
            (q.is_started || auto_starts(q, now2)) && now2 <= q.end_time
        }),
        after_auto_start(s1, s2, params2.quiz_id, now2),
    ensures
        submit_rejection(s1, signer, params2, now2) == Some(QuizError::UserAlreadyAttempted),
        spec_get(s2.user_attempts@, (params2.quiz_id, signer->0@)) == spec_get(
            s1.user_attempts@,
            (params2.quiz_id, signer->0@),
        ),
{
}

/// Law: comparing option sets sorted is comparing them as unordered sets; the
/// order in which options were selected never changes a question's score.
pub proof fn lemma_answer_matches_unordered(selected: Seq<u32>, correct: Seq<u32>)
    ensures
        answer_matches(selected, correct) <==> selected.to_multiset() == correct.to_multiset(),
{
    let leq = crate::sorting::u32_leq();
    assert(vstd::relations::total_ordering(leq));
    selected.lemma_sort_by_ensures(leq);
    correct.lemma_sort_by_ensures(leq);
    if selected.to_multiset() == correct.to_multiset() {
        vstd::seq_lib::lemma_sorted_unique(selected.sort_by(leq), correct.sort_by(leq), leq);
        assert(selected.sort_by(leq) =~= correct.sort_by(leq));
    }
}

/// Law: a stored leaderboard always has at most one row per identity and is
/// sorted by score descending.
pub proof fn lemma_leaderboard_invariant(s: QuizState, quiz_id: u64)
    requires
        s.wf(),
        spec_get(s.leaderboard@, quiz_id) is Some,
    ensures
        sorted_desc(spec_get(s.leaderboard@, quiz_id)->0@),
        entries_unique(spec_get(s.leaderboard@, quiz_id)->0@),
{
    crate::kv::lemma_spec_get_index(s.leaderboard@, quiz_id);
}

} // verus!
