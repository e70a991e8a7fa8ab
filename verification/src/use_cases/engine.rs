use vstd::prelude::*;
use crate::app_error::{resource_not_found, AppErrorView, AppResult};
use crate::entities::beta_applicant::BetaApplicant;
use crate::entities::leaderboard_entry::LeaderboardEntryView;
use crate::entities::progression_event_type::ProgressionEventType;
use crate::use_cases::badge::{
    clamp_score, eligible_badges_spec, evaluate_spec, lemma_evaluation_grants_all_eligible,
    lemma_insert_awards, lemma_insert_awards_adds_rows_of_user,
    lemma_insert_awards_keeps_other_scores, lemma_insert_held_changes_nothing,
    total_score_spec, BadgeAward, BadgeAwards, BadgeCondition, BadgeScore,
};
use crate::use_cases::beta_applicant::{
    applicant_of, create_outcome, generate_referral_code, has_public_key, identifiers_exhausted,
    is_referral_code, referral_count, supplied_code, Applicants, BetaApplicantDbView,
    CreateOutcome,
};
use crate::use_cases::leaderboard::{
    board_full, fresh_entry, has_key, has_user, is_member, lemma_ranked, lemma_with_score_keeps_wf, ranked,
    renumbered, with_score, Leaderboard,
};
use crate::use_cases::progression::ProgressionCounters;
use crate::use_cases::sync::{
    first_fault, reading_progress, sync_all_progressions, synced_awards, synced_counters,
    synced_grants_all, Reading, SourceReadings, SyncReport,
};

verus! {

/// The state of the whole engine as a mathematical value.
pub struct EngineView {
    pub applicants: Seq<BetaApplicantDbView>,
    pub counters: Map<(int, ProgressionEventType), int>,
    pub awards: Seq<BadgeAward>,
    pub board: Seq<LeaderboardEntryView>,
    pub conditions: Seq<BadgeCondition>,
    pub scores: Seq<BadgeScore>,
}

/// Every entry of the board belongs to an applicant, under the applicant's
/// own key.
pub open spec fn board_matches_applicants(
    board: Seq<LeaderboardEntryView>,
    applicants: Seq<BetaApplicantDbView>,
) -> bool {
    forall|i: int|
        0 <= i < board.len() ==> 1 <= (#[trigger] board[i]).user_id <= applicants.len()
            && applicants[board[i].user_id - 1].public_key == board[i].public_key
}

/// Every grant belongs to one of the `applicants` applicants.
pub open spec fn awards_belong_to_applicants(awards: Seq<BadgeAward>, applicants: nat) -> bool {
    forall|k: int| 0 <= k < awards.len() ==> 1 <= (#[trigger] awards[k]).user_id <= applicants
}

/// The score of every entry of the board is the sum of the scores of the
/// badges that its user holds, held within the range of a score. The user
/// `except` is left out; no user has the identifier 0.
pub open spec fn scores_match_badges(
    board: Seq<LeaderboardEntryView>,
    awards: Seq<BadgeAward>,
    scores: Seq<BadgeScore>,
    except: int,
) -> bool {
    forall|i: int|
        0 <= i < board.len() && (#[trigger] board[i]).user_id != except ==> board[i].total_score
            == clamp_score(total_score_spec(awards, scores, board[i].user_id))
}

/// The board after `user_id` joined: as it was where they are on it, else
/// with a fresh entry at the rank after the last.
pub open spec fn joined_board(
    board: Seq<LeaderboardEntryView>,
    user_id: i32,
    public_key: Seq<char>,
    created_at: i64,
) -> Seq<LeaderboardEntryView> {
    if is_member(board, user_id as int, public_key) {
        board
    } else {
        board.push(fresh_entry(user_id, public_key, board.len() + 1, created_at))
    }
}

/// The engine after the registration steps of a creation, the applicants
/// being `applicants` by then: the user is on the board, registration is
/// recorded with 1 and evaluated, and the score of the user on the board is
/// the sum of the scores of their badges.
pub open spec fn registered_engine(
    v: EngineView,
    applicants: Seq<BetaApplicantDbView>,
    user_id: i32,
    at: i64,
) -> EngineView {
    let awards = evaluate_spec(
        v.awards,
        v.conditions,
        user_id,
        ProgressionEventType::BetaApplicantCreated,
        1,
        at,
    );
    EngineView {
        applicants,
        counters: v.counters.insert(
            (user_id as int, ProgressionEventType::BetaApplicantCreated),
            1,
        ),
        awards,
        board: with_score(
            joined_board(
                v.board,
                user_id,
                applicants[user_id - 1].public_key,
                applicants[user_id - 1].created_at as i64,
            ),
            user_id as int,
            clamp_score(total_score_spec(awards, v.scores, user_id as int)),
        ),
        conditions: v.conditions,
        scores: v.scores,
    }
}

/// The error with which a sync ends on the readings of the two balance
/// sources, if it does: that of the first of them that reports a missing
/// setting. The count of referrals comes from the applicants and needs no
/// setting.
pub open spec fn balance_fault(catics: Reading, jup: Reading) -> Option<AppErrorView> {
    first_fault(catics, jup, Reading::Value(0))
}

/// The engine after a sync of `user_id` in which the two balance sources
/// counted `catics` and `jup`: the four counters are replaced, the badges of
/// the four sources are evaluated, and the score of the user on the board is
/// the sum of the scores of their badges.
pub open spec fn synced_engine(v: EngineView, user_id: i32, catics: int, jup: int, at: i64) -> EngineView {
    let referrals = referral_count(v.applicants, user_id as int) as int;
    let awards = synced_awards(v.awards, v.conditions, user_id, catics, jup, referrals, at, 4);
    EngineView {
        applicants: v.applicants,
        counters: synced_counters(v.counters, user_id as int, 1, catics, jup, referrals),
        awards,
        board: with_score(
            v.board,
            user_id as int,
            clamp_score(total_score_spec(awards, v.scores, user_id as int)),
        ),
        conditions: v.conditions,
        scores: v.scores,
    }
}

/// The progression and achievement engine: applicants, their progression
/// counters, the badges they hold and the leaderboard, kept consistent with
/// one another.
pub struct ProgressionEngine {
    applicants: Applicants,
    counters: ProgressionCounters,
    awards: BadgeAwards,
    leaderboard: Leaderboard,
    conditions: Vec<BadgeCondition>,
    scores: Vec<BadgeScore>,
}

impl View for ProgressionEngine {
    type V = EngineView;

    closed spec fn view(&self) -> EngineView {
        EngineView {
            applicants: self.applicants@,
            counters: self.counters@,
            awards: self.awards@,
            board: self.leaderboard@,
            conditions: self.conditions@,
            scores: self.scores@,
        }
    }
}

impl ProgressionEngine {
    /// The applicants, counters, grants and board are each in order, every
    /// entry of the board and every grant belongs to an applicant, and the
    /// scores on the board are those of the badges held.
    pub closed spec fn wf(&self) -> bool {
        self.consistent_but_for(0)
    }

    /// All of `wf` but that the score of `user_id` on the board may lag
    /// behind their badges.
    spec fn consistent_but_for(&self, user_id: int) -> bool {
        &&& self.applicants.wf()
        &&& self.counters.wf()
        &&& self.awards.wf()
        &&& self.leaderboard.wf()
        &&& board_matches_applicants(self.leaderboard@, self.applicants@)
        &&& awards_belong_to_applicants(self.awards@, self.applicants@.len())
        &&& scores_match_badges(self.leaderboard@, self.awards@, self.scores@, user_id)
    }

    /// What `wf` says of the state.
    pub proof fn lemma_wf(&self)
        requires
            self.wf(),
        ensures
            board_matches_applicants(self@.board, self@.applicants),
            awards_belong_to_applicants(self@.awards, self@.applicants.len()),
            scores_match_badges(self@.board, self@.awards, self@.scores, 0),
            crate::use_cases::badge::awards_unique(self@.awards),
            crate::use_cases::leaderboard::ranks_in_order(self@.board),
            crate::use_cases::leaderboard::users_distinct(self@.board),
            forall|i: int| 0 <= i < self@.applicants.len() ==> (#[trigger] self@.applicants[i]).id == i + 1,
    {
    }

    /// An engine without applicants, with the seeded badge rules and scores.
    pub fn new(conditions: Vec<BadgeCondition>, scores: Vec<BadgeScore>) -> (engine:
        ProgressionEngine)
        ensures
            engine.wf(),
            engine@ == (EngineView {
                applicants: Seq::empty(),
                counters: Map::empty(),
                awards: Seq::empty(),
                board: Seq::empty(),
                conditions: conditions@,
                scores: scores@,
            }),
    {
        ProgressionEngine {
            applicants: Applicants::new(),
            counters: ProgressionCounters::new(),
            awards: BadgeAwards::new(),
            leaderboard: Leaderboard::new(),
            conditions,
            scores,
        }
    }

    pub fn applicants(&self) -> (applicants: &Applicants)
        requires
            self.wf(),
        ensures
            applicants.wf(),
            applicants@ == self@.applicants,
    {
        &self.applicants
    }

    pub fn counters(&self) -> (counters: &ProgressionCounters)
        requires
            self.wf(),
        ensures
            counters.wf(),
            counters@ == self@.counters,
    {
        &self.counters
    }

    pub fn awards(&self) -> (awards: &BadgeAwards)
        requires
            self.wf(),
        ensures
            awards.wf(),
            awards@ == self@.awards,
    {
        &self.awards
    }

    pub fn leaderboard(&self) -> (leaderboard: &Leaderboard)
        requires
            self.wf(),
        ensures
            leaderboard.wf(),
            leaderboard@ == self@.board,
    {
        &self.leaderboard
    }

    /// Sets the score of `user_id` on the board to the sum of the scores of
    /// the badges they hold.
    fn refresh_score(&mut self, user_id: i32)
        requires
            old(self).consistent_but_for(user_id as int),
        ensures
            final(self).wf(),
            final(self)@ == (EngineView {
                board: with_score(
                    old(self)@.board,
                    user_id as int,
                    clamp_score(
                        total_score_spec(old(self)@.awards, old(self)@.scores, user_id as int),
                    ),
                ),
                ..old(self)@
            }),
    {
        let score = self.awards.total_score(&self.scores, user_id);
        proof {
            lemma_with_score_keeps_wf(self.leaderboard@, user_id as int, score as int);
        }
        let ghost board = self.leaderboard@;
        self.leaderboard.set_total_score(user_id, score);
        proof {
            let after = self.leaderboard@;
            assert forall|i: int| 0 <= i < after.len() implies 1 <= (#[trigger] after[i]).user_id
                <= self.applicants@.len() && self.applicants@[after[i].user_id - 1].public_key
                == after[i].public_key by {
                assert(after[i].user_id == board[i].user_id && after[i].public_key
                    == board[i].public_key);
            }
            assert forall|i: int| 0 <= i < after.len() implies (#[trigger] after[i]).total_score
                == clamp_score(total_score_spec(self.awards@, self.scores@, after[i].user_id)) by {
                assert(after[i].user_id == board[i].user_id);
                if board[i].user_id != user_id {
                    assert(after[i] == board[i]);
                }
            }
        }
    }

    fn sync_user(
        &mut self,
        user_id: i32,
        catics_balance: Reading,
        jup_staked: Reading,
        at: i64,
    ) -> (result: AppResult<SyncReport>)
        requires
            old(self).consistent_but_for(user_id as int),
            1 <= user_id <= old(self)@.applicants.len(),
            balance_fault(catics_balance, jup_staked) is None,
        ensures
            final(self).wf(),
            final(self)@ == synced_engine(
                old(self)@,
                user_id,
                reading_progress(catics_balance) as int,
                reading_progress(jup_staked) as int,
                at,
            ),
            result matches Ok(report) && sync_report(
                old(self)@,
                user_id,
                catics_balance,
                jup_staked,
                at,
                report,
            ),
    {
        let referrals = self.applicants.count_referrals(user_id);
        proof {
            crate::use_cases::beta_applicant::lemma_referral_count_bound(
                self.applicants@,
                user_id as int,
            );
        }
        let readings = SourceReadings {
            catics_balance,
            jup_staked,
            referral_count: Reading::Value(referrals as i32),
        };
        let ghost held = self.awards@;
        let report = match sync_all_progressions(
            &mut self.counters,
            &mut self.awards,
            &self.conditions,
            user_id,
            &readings,
            at,
        ) {
            Ok(report) => report,
            Err(e) => {
                return Err(e);
            },
        };
        proof {
            let catics = report.catics_balance as int;
            let jup = report.jup_staked as int;
            let count = report.referral_count as int;
            lemma_sync_touches_one_user(
                held,
                self.conditions@,
                user_id,
                catics,
                jup,
                count,
                at,
                self.applicants@.len(),
            );
            let board = self.leaderboard@;
            assert forall|i: int|
                0 <= i < board.len() && (#[trigger] board[i]).user_id
                    != user_id implies board[i].total_score == clamp_score(
                total_score_spec(self.awards@, self.scores@, board[i].user_id),
            ) by {
                lemma_sync_keeps_other_scores(
                    held,
                    self.conditions@,
                    user_id,
                    catics,
                    jup,
                    count,
                    at,
                    self.scores@,
                    board[i].user_id,
                );
            }
        }
        self.refresh_score(user_id);
        Ok(report)
    }

    /// Pulls the four progression sources for the applicant with key
    /// `public_key`, the two balances as the caller read them, and brings
    /// counters, badges and score up to date. A source that was unavailable
    /// counts 0 and holds up nothing. A missing setting ends the sync with
    /// its error before anything is looked up or changed. Nothing happens
    /// for a key that is not registered.
    pub fn sync_all(
        &mut self,
        public_key: &str,
        catics_balance: Reading,
        jup_staked: Reading,
        at: i64,
    ) -> (result: AppResult<Option<SyncReport>>)
        requires
            old(self).wf(),
        ensures
            final(self).wf(),
            result is Err <==> catics_balance is NotConfigured || jup_staked is NotConfigured,
            result matches Err(e) ==> balance_fault(catics_balance, jup_staked) == Some(e@)
                && final(self)@ == old(self)@,
            result matches Ok(report) ==> (report is Some <==> has_public_key(
                old(self)@.applicants,
                public_key@,
            )),
            result matches Ok(None) ==> final(self)@ == old(self)@,
            result matches Ok(Some(r)) ==> exists|id: i32|
                1 <= id <= old(self)@.applicants.len() && (#[trigger] old(self)@.applicants[id
                    - 1]).public_key == public_key@ && final(self)@ == synced_engine(
                    old(self)@,
                    id,
                    reading_progress(catics_balance) as int,
                    reading_progress(jup_staked) as int,
                    at,
                ) && sync_report(old(self)@, id, catics_balance, jup_staked, at, r),
    {
        match catics_balance.fault() {
            Some(e) => {
                return Err(e);
            },
            None => {},
        }
        match jup_staked.fault() {
            Some(e) => {
                return Err(e);
            },
            None => {},
        }
        match self.applicants.read_beta_applicant_by_public_key(public_key) {
            Ok(applicant) => {
                proof {
                    let i = choose|i: int|
                        0 <= i < self.applicants@.len() && applicant@ == applicant_of(
                            self.applicants@,
                            #[trigger] self.applicants@[i],
                        );
                    assert(applicant.id == i + 1);
                    assert(self.applicants@[applicant.id - 1].public_key == public_key@);
                }
                match self.sync_user(applicant.id, catics_balance, jup_staked, at) {
                    Ok(report) => Ok(Some(report)),
                    Err(e) => Err(e),
                }
            },
            Err(_) => Ok(None),
        }
    }

    /// Creates an applicant with the fresh referral code `new_referral_code`
    /// and takes them through registration: on the board, registration
    /// recorded and evaluated, then a full sync. An applicant who exists
    /// already is taken through the same steps again, which changes nothing
    /// that was done before. A step that fails ends the creation with its
    /// error and leaves the earlier steps done; so does a sync that finds a
    /// setting missing.
    pub fn create_with_code(
        &mut self,
        public_key: &str,
        referral_code: Option<&str>,
        new_referral_code: String,
        catics_balance: Reading,
        jup_staked: Reading,
        at: i64,
    ) -> (result: AppResult<BetaApplicant>)
        requires
            old(self).wf(),
        ensures
            final(self).wf(),
            creation_through(
                old(self)@,
                final(self)@,
                result,
                public_key@,
                supplied_code(referral_code),
                new_referral_code@,
                catics_balance,
                jup_staked,
                at,
            ),
    {
        let ghost board = self.leaderboard@;
        let ghost rows = self.applicants@;
        let applicant = match self.applicants.create_beta_applicant(
            public_key,
            referral_code,
            new_referral_code,
            at,
        ) {
            Ok(applicant) => applicant,
            Err(e) => {
                return Err(e);
            },
        };
        proof {
            let grown = self.applicants@;
            assert forall|i: int| 0 <= i < board.len() implies 1 <= (#[trigger] board[i]).user_id
                <= grown.len() && grown[board[i].user_id - 1].public_key
                == board[i].public_key by {
                if grown != rows {
                    assert(grown.drop_last()[board[i].user_id - 1] == grown[board[i].user_id - 1]);
                }
            }
            if grown != rows {
                assert(grown[grown.len() - 1] == grown.last());
            }
        }
        let ghost who = applicant;
        let ghost middle = self@;
        assert(middle == (EngineView { applicants: middle.applicants, ..old(self)@ }));
        let result = self.register(applicant, catics_balance, jup_staked, at);
        proof {
            let catics = catics_balance;
            let jup = jup_staked;
            assert(who.public_key@ == public_key@);
            assert(created_by(middle, self@, result, public_key@, catics, jup, at, who.id));
            assert(registered_engine(middle, self@.applicants, who.id, at) == registered_engine(
                old(self)@,
                self@.applicants,
                who.id,
                at,
            ));
            assert(created_by(old(self)@, self@, result, public_key@, catics, jup, at, who.id));
        }
        result
    }

    /// Creates an applicant as `create_with_code` does, with a fresh referral
    /// code that is drawn here: whatever code is drawn, the creation ends as
    /// it does for that code.
    pub fn create(
        &mut self,
        public_key: &str,
        referral_code: Option<&str>,
        catics_balance: Reading,
        jup_staked: Reading,
        at: i64,
    ) -> (result: AppResult<BetaApplicant>)
        requires
            old(self).wf(),
        ensures
            final(self).wf(),
            exists|code: Seq<char>|
                is_referral_code(code) && #[trigger] creation_through(
                    old(self)@,
                    final(self)@,
                    result,
                    public_key@,
                    supplied_code(referral_code),
                    code,
                    catics_balance,
                    jup_staked,
                    at,
                ),
    {
        let code = generate_referral_code();
        let ghost drawn = code@;
        let result = self.create_with_code(
            public_key,
            referral_code,
            code,
            catics_balance,
            jup_staked,
            at,
        );
        assert(creation_through(
            old(self)@,
            self@,
            result,
            public_key@,
            supplied_code(referral_code),
            drawn,
            catics_balance,
            jup_staked,
            at,
        ));
        result
    }

    fn register(
        &mut self,
        applicant: BetaApplicant,
        catics_balance: Reading,
        jup_staked: Reading,
        at: i64,
    ) -> (result: AppResult<BetaApplicant>)
        requires
            old(self).wf(),
            exists|i: int|
                0 <= i < old(self)@.applicants.len() && applicant@ == applicant_of(
                    old(self)@.applicants,
                    #[trigger] old(self)@.applicants[i],
                ),
        ensures
            final(self).wf(),
            registered_as(
                old(self)@,
                final(self)@,
                result,
                applicant,
                catics_balance,
                jup_staked,
                at,
            ),
    {
        let ghost start = self@;
        let ghost rows = self.applicants@;
        let ghost at_row = choose|i: int|
            0 <= i < rows.len() && applicant@ == applicant_of(rows, #[trigger] rows[i]);
        assert(applicant.id == at_row + 1);
        assert(rows[applicant.id - 1].public_key == applicant.public_key@);
        let user_id = applicant.id;
        let ghost board = self.leaderboard@;
        proof {
            if has_user(board, user_id as int) {
                let k = choose|k: int| 0 <= k < board.len() && (#[trigger] board[k]).user_id == user_id;
                assert(board[k].public_key == applicant.public_key@);
            }
            if has_key(board, applicant.public_key@) {
                let k = choose|k: int|
                    0 <= k < board.len() && (#[trigger] board[k]).public_key
                        == applicant.public_key@;
                let other = board[k].user_id - 1;
                assert(rows[other].public_key == rows[at_row].public_key);
                if other < at_row {
                    assert(rows[other].public_key != rows[at_row].public_key);
                }
                if at_row < other {
                    assert(rows[at_row].public_key != rows[other].public_key);
                }
                assert(board[k].user_id == user_id);
            }
        }
        match self.leaderboard.add_user(user_id, applicant.public_key.as_str(), applicant.created_at) {
            Ok(_) => {},
            Err(e) => {
                assert(e@ == board_full());
                return Err(e);
            },
        }
        proof {
            let joined = self.leaderboard@;
            assert(joined == joined_board(
                board,
                user_id,
                applicant.public_key@,
                applicant.created_at,
            ));
            assert forall|i: int| 0 <= i < joined.len() implies 1 <= (
            #[trigger] joined[i]).user_id <= rows.len() && rows[joined[i].user_id - 1].public_key
                == joined[i].public_key by {
                if i < board.len() {
                    assert(joined[i] == board[i]);
                }
            }
        }
        self.counters.record_progression_event(
            user_id,
            ProgressionEventType::BetaApplicantCreated,
            1,
        );
        let ghost held = self.awards@;
        let _ = self.awards.award_badge_if_eligible(
            &self.conditions,
            user_id,
            ProgressionEventType::BetaApplicantCreated,
            1,
            at,
        );
        proof {
            let joined = self.leaderboard@;
            lemma_evaluation_touches_one_user(
                held,
                self.conditions@,
                user_id,
                ProgressionEventType::BetaApplicantCreated,
                1,
                at,
                rows.len(),
            );
            assert forall|i: int|
                0 <= i < joined.len() && (#[trigger] joined[i]).user_id
                    != user_id implies joined[i].total_score == clamp_score(
                total_score_spec(self.awards@, self.scores@, joined[i].user_id),
            ) by {
                if i < board.len() {
                    assert(joined[i] == board[i]);
                }
                lemma_insert_awards_keeps_other_scores(
                    held,
                    user_id,
                    eligible_badges_spec(
                        self.conditions@,
                        ProgressionEventType::BetaApplicantCreated,
                        1,
                    ),
                    at,
                    self.scores@,
                    joined[i].user_id,
                );
            }
        }
        self.refresh_score(user_id);
        match catics_balance.fault() {
            Some(e) => {
                return Err(e);
            },
            None => {},
        }
        match jup_staked.fault() {
            Some(e) => {
                return Err(e);
            },
            None => {},
        }
        match self.sync_user(user_id, catics_balance, jup_staked, at) {
            Ok(_) => Ok(applicant),
            Err(e) => Err(e),
        }
    }

    /// Recomputes the persisted ranks of the board from the scores. Nothing
    /// else changes.
    pub fn recompute_ranks(&mut self)
        requires
            old(self).wf(),
        ensures
            final(self).wf(),
            final(self)@ == (EngineView {
                board: renumbered(ranked(old(self)@.board)),
                ..old(self)@
            }),
    {
        let ghost board = self.leaderboard@;
        self.leaderboard.recompute_ranks();
        proof {
            lemma_ranked(board);
            let order = ranked(board);
            let after = self.leaderboard@;
            assert forall|i: int| 0 <= i < after.len() implies 1 <= (#[trigger] after[i]).user_id
                <= self.applicants@.len() && self.applicants@[after[i].user_id - 1].public_key
                == after[i].public_key by {
                assert(after[i].user_id == order[i].user_id && after[i].public_key
                    == order[i].public_key);
                let j = choose|j: int| 0 <= j < board.len() && order[i] == board[j];
                assert(board[j].user_id == order[i].user_id);
            }
        }
    }

    /// Sets the e-mail address of the applicant with key `public_key`.
    pub fn update(&mut self, public_key: &str, email: &str) -> (result: AppResult<BetaApplicant>)
        requires
            old(self).wf(),
        ensures
            final(self).wf(),
            result is Ok <==> has_public_key(old(self)@.applicants, public_key@),
            result matches Err(e) ==> e@ == resource_not_found() && final(self)@ == old(self)@,
            result matches Ok(applicant) ==> exists|i: int|
                0 <= i < old(self)@.applicants.len() && (#[trigger] old(
                    self,
                )@.applicants[i]).public_key == public_key@ && final(self)@ == (EngineView {
                    applicants: old(self)@.applicants.update(
                        i,
                        BetaApplicantDbView { email: Some(email@), ..old(self)@.applicants[i] },
                    ),
                    ..old(self)@
                }) && applicant@ == applicant_of(final(self)@.applicants, final(self)@.applicants[i]),
    {
        let ghost rows = self.applicants@;
        let ghost board = self.leaderboard@;
        let result = self.applicants.update_beta_applicant(public_key, email);
        proof {
            let after = self.applicants@;
            assert forall|i: int| 0 <= i < board.len() implies 1 <= (#[trigger] board[i]).user_id
                <= after.len() && after[board[i].user_id - 1].public_key
                == board[i].public_key by {
                assert(after[board[i].user_id - 1].public_key == rows[board[i].user_id
                    - 1].public_key);
            }
        }
        result
    }

    /// Reads the applicant with key `public_key`.
    pub fn read(&self, public_key: &str) -> (result: AppResult<BetaApplicant>)
        requires
            self.wf(),
        ensures
            result is Ok <==> has_public_key(self@.applicants, public_key@),
            result matches Ok(applicant) ==> applicant.public_key@ == public_key@ && exists|i: int|
                0 <= i < self@.applicants.len() && applicant@ == applicant_of(
                    self@.applicants,
                    #[trigger] self@.applicants[i],
                ),
            result matches Err(e) ==> e@ == resource_not_found(),
    {
        self.applicants.read_beta_applicant_by_public_key(public_key)
    }

    /// The number of applicants.
    pub fn count(&self) -> (count: i64)
        requires
            self.wf(),
        ensures
            count == self@.applicants.len(),
    {
        self.applicants.count_beta_applicants()
    }
}

/// A sync converges: repeated with the same readings, at whatever time, it
/// leaves the engine as the first sync left it. No counter moves, no badge is
/// granted twice or at a new time, no score changes.
pub proof fn lemma_sync_is_convergent(
    v: EngineView,
    user_id: i32,
    catics: int,
    jup: int,
    at_first: i64,
    at_second: i64,
)
    ensures
        synced_engine(synced_engine(v, user_id, catics, jup, at_first), user_id, catics, jup, at_second)
            == synced_engine(v, user_id, catics, jup, at_first),
{
    reveal_with_fuel(synced_awards, 5);
    let referrals = referral_count(v.applicants, user_id as int) as int;
    let once = synced_engine(v, user_id, catics, jup, at_first);
    let twice = synced_engine(once, user_id, catics, jup, at_second);
    let c = v.conditions;
    let r1 = synced_awards(v.awards, c, user_id, catics, jup, referrals, at_first, 1);
    let r2 = synced_awards(v.awards, c, user_id, catics, jup, referrals, at_first, 2);
    let r3 = synced_awards(v.awards, c, user_id, catics, jup, referrals, at_first, 3);
    let r4 = synced_awards(v.awards, c, user_id, catics, jup, referrals, at_first, 4);
    lemma_evaluation_grants_all_eligible(
        v.awards,
        c,
        user_id,
        ProgressionEventType::BetaApplicantCreated,
        1,
        at_first,
    );
    lemma_evaluation_grants_all_eligible(
        r1,
        c,
        user_id,
        ProgressionEventType::CaticsBalanceCheck,
        catics,
        at_first,
    );
    lemma_evaluation_grants_all_eligible(
        r2,
        c,
        user_id,
        ProgressionEventType::JupStaked,
        jup,
        at_first,
    );
    lemma_evaluation_grants_all_eligible(
        r3,
        c,
        user_id,
        ProgressionEventType::ReferralCreated,
        referrals,
        at_first,
    );
    lemma_insert_held_changes_nothing(
        r4,
        user_id,
        eligible_badges_spec(c, ProgressionEventType::BetaApplicantCreated, 1),
        at_second,
    );
    lemma_insert_held_changes_nothing(
        r4,
        user_id,
        eligible_badges_spec(c, ProgressionEventType::CaticsBalanceCheck, catics),
        at_second,
    );
    lemma_insert_held_changes_nothing(
        r4,
        user_id,
        eligible_badges_spec(c, ProgressionEventType::JupStaked, jup),
        at_second,
    );
    lemma_insert_held_changes_nothing(
        r4,
        user_id,
        eligible_badges_spec(c, ProgressionEventType::ReferralCreated, referrals),
        at_second,
    );
    assert(once.awards == r4);
    assert(twice.awards == r4);
    assert(twice.counters =~= once.counters);
    assert(twice.board =~= once.board);
}

/// A sync of one user leaves the score of every other user as it is.
pub proof fn lemma_sync_keeps_other_scores(
    rows: Seq<BadgeAward>,
    conditions: Seq<BadgeCondition>,
    user_id: i32,
    catics: int,
    jup: int,
    referrals: int,
    at: i64,
    scores: Seq<BadgeScore>,
    other: int,
)
    requires
        other != user_id,
    ensures
        total_score_spec(
            synced_awards(rows, conditions, user_id, catics, jup, referrals, at, 4),
            scores,
            other,
        ) == total_score_spec(rows, scores, other),
{
    reveal_with_fuel(synced_awards, 5);
    let one = synced_awards(rows, conditions, user_id, catics, jup, referrals, at, 1);
    let two = synced_awards(rows, conditions, user_id, catics, jup, referrals, at, 2);
    let three = synced_awards(rows, conditions, user_id, catics, jup, referrals, at, 3);
    lemma_insert_awards_keeps_other_scores(
        rows,
        user_id,
        eligible_badges_spec(conditions, ProgressionEventType::BetaApplicantCreated, 1),
        at,
        scores,
        other,
    );
    lemma_insert_awards_keeps_other_scores(
        one,
        user_id,
        eligible_badges_spec(conditions, ProgressionEventType::CaticsBalanceCheck, catics),
        at,
        scores,
        other,
    );
    lemma_insert_awards_keeps_other_scores(
        two,
        user_id,
        eligible_badges_spec(conditions, ProgressionEventType::JupStaked, jup),
        at,
        scores,
        other,
    );
    lemma_insert_awards_keeps_other_scores(
        three,
        user_id,
        eligible_badges_spec(conditions, ProgressionEventType::ReferralCreated, referrals),
        at,
        scores,
        other,
    );
}

/// A sync of an applicant adds grants of that applicant only.
pub proof fn lemma_sync_touches_one_user(
    rows: Seq<BadgeAward>,
    conditions: Seq<BadgeCondition>,
    user_id: i32,
    catics: int,
    jup: int,
    referrals: int,
    at: i64,
    applicants: nat,
)
    requires
        awards_belong_to_applicants(rows, applicants),
        1 <= user_id <= applicants,
    ensures
        awards_belong_to_applicants(
            synced_awards(rows, conditions, user_id, catics, jup, referrals, at, 4),
            applicants,
        ),
{
    reveal_with_fuel(synced_awards, 5);
    let one = synced_awards(rows, conditions, user_id, catics, jup, referrals, at, 1);
    let two = synced_awards(rows, conditions, user_id, catics, jup, referrals, at, 2);
    let three = synced_awards(rows, conditions, user_id, catics, jup, referrals, at, 3);
    let four = synced_awards(rows, conditions, user_id, catics, jup, referrals, at, 4);
    lemma_evaluation_touches_one_user(
        rows,
        conditions,
        user_id,
        ProgressionEventType::BetaApplicantCreated,
        1,
        at,
        applicants,
    );
    lemma_evaluation_touches_one_user(
        one,
        conditions,
        user_id,
        ProgressionEventType::CaticsBalanceCheck,
        catics,
        at,
        applicants,
    );
    lemma_evaluation_touches_one_user(
        two,
        conditions,
        user_id,
        ProgressionEventType::JupStaked,
        jup,
        at,
        applicants,
    );
    lemma_evaluation_touches_one_user(
        three,
        conditions,
        user_id,
        ProgressionEventType::ReferralCreated,
        referrals,
        at,
        applicants,
    );
}

/// An evaluation of an applicant adds grants of that applicant only.
pub proof fn lemma_evaluation_touches_one_user(
    rows: Seq<BadgeAward>,
    conditions: Seq<BadgeCondition>,
    user_id: i32,
    event_type: ProgressionEventType,
    progress: int,
    at: i64,
    applicants: nat,
)
    requires
        awards_belong_to_applicants(rows, applicants),
        1 <= user_id <= applicants,
    ensures
        awards_belong_to_applicants(
            evaluate_spec(rows, conditions, user_id, event_type, progress, at),
            applicants,
        ),
{
    let eligible = eligible_badges_spec(conditions, event_type, progress);
    let after = evaluate_spec(rows, conditions, user_id, event_type, progress, at);
    lemma_insert_awards(rows, user_id, eligible, at, 0, 0);
    assert forall|k: int| 0 <= k < after.len() implies 1 <= (#[trigger] after[k]).user_id
        <= applicants by {
        if k < rows.len() {
            assert(after[k] == rows[k]);
        } else {
            lemma_insert_awards_adds_rows_of_user(rows, user_id, eligible, at, k);
        }
    }
}

/// What a sync of `user_id` reports: the progress used for each source,
/// which of the two balance sources were unavailable, and the badges granted.
pub open spec fn sync_report(
    before: EngineView,
    user_id: i32,
    catics: Reading,
    jup: Reading,
    at: i64,
    report: SyncReport,
) -> bool {
    &&& report.registration == 1
    &&& report.catics_balance == reading_progress(catics)
    &&& report.jup_staked == reading_progress(jup)
    &&& report.referral_count == referral_count(before.applicants, user_id as int)
    &&& report.catics_failed == (catics is Unavailable)
    &&& report.jup_failed == (jup is Unavailable)
    &&& !report.referral_failed
    &&& report.granted@ == synced_grants_all(
        before.awards,
        before.conditions,
        user_id,
        report.catics_balance as int,
        report.jup_staked as int,
        report.referral_count as int,
        at,
    )
}

/// What a creation that got as far as an applicant leaves behind, the
/// applicant having identifier `id`. Either the board had no rank left, and
/// then only the applicants changed. Or the applicant is through
/// registration and a setting of a balance source is missing, and then the
/// creation ends there with the error of that setting. Or the applicant is
/// through registration and a sync.
pub open spec fn created_by(
    before: EngineView,
    after: EngineView,
    result: AppResult<BetaApplicant>,
    public_key: Seq<char>,
    catics: Reading,
    jup: Reading,
    at: i64,
    id: i32,
) -> bool {
    &&& 1 <= id <= after.applicants.len()
    &&& after.applicants[id - 1].public_key == public_key
    &&& if !is_member(before.board, id as int, public_key) && before.board.len() >= u32::MAX {
        &&& result matches Err(e) && e@ == board_full()
        &&& after == (EngineView { applicants: after.applicants, ..before })
    } else if balance_fault(catics, jup) is Some {
        &&& result matches Err(e) && Some(e@) == balance_fault(catics, jup)
        &&& after == registered_engine(before, after.applicants, id, at)
    } else {
        &&& result matches Ok(applicant) && applicant@ == applicant_of(
            after.applicants,
            after.applicants[id - 1],
        )
        &&& after == synced_engine(
            registered_engine(before, after.applicants, id, at),
            id,
            reading_progress(catics) as int,
            reading_progress(jup) as int,
            at,
        )
    }
}

/// `created_by` for the applicant with key `public_key`.
pub open spec fn created_as(
    before: EngineView,
    after: EngineView,
    result: AppResult<BetaApplicant>,
    public_key: Seq<char>,
    catics: Reading,
    jup: Reading,
    at: i64,
) -> bool {
    exists|id: i32| created_by(before, after, result, public_key, catics, jup, at, id)
}

/// What a creation with the fresh referral code `new_referral_code` leaves
/// behind and returns. Where no applicant comes of it, nothing has changed.
/// Where one does, new or there already, the applicants are as the creation
/// of the applicant leaves them, and the rest is as `created_as` says.
pub open spec fn creation_through(
    before: EngineView,
    after: EngineView,
    result: AppResult<BetaApplicant>,
    public_key: Seq<char>,
    referral_code: Option<Seq<char>>,
    new_referral_code: Seq<char>,
    catics: Reading,
    jup: Reading,
    at: i64,
) -> bool {
    match create_outcome(before.applicants, public_key, referral_code, new_referral_code) {
        CreateOutcome::UnknownReferralCode => {
            &&& after == before
            &&& result matches Err(e) && e@ == resource_not_found()
        },
        CreateOutcome::Collision => {
            &&& after == before
            &&& result matches Err(e) && e@ == resource_not_found()
        },
        CreateOutcome::Full => {
            &&& after == before
            &&& result matches Err(e) && e@ == identifiers_exhausted()
        },
        CreateOutcome::Existing => {
            &&& after.applicants == before.applicants
            &&& created_as(before, after, result, public_key, catics, jup, at)
        },
        CreateOutcome::Inserted => {
            &&& after.applicants.len() == before.applicants.len() + 1
            &&& after.applicants.drop_last() == before.applicants
            &&& after.applicants.last().id == before.applicants.len() + 1
            &&& after.applicants.last().public_key == public_key
            &&& after.applicants.last().email is None
            &&& after.applicants.last().created_at == at
            &&& after.applicants.last().referral_code == new_referral_code
            &&& match referral_code {
                Some(code) => after.applicants.last().referred_by_id matches Some(r) && 1 <= r
                    <= before.applicants.len() && before.applicants[r - 1].referral_code == code,
                None => after.applicants.last().referred_by_id is None,
            }
            &&& created_as(before, after, result, public_key, catics, jup, at)
        },
    }
}

/// `created_by` for a given applicant, the applicants staying as they are.
pub open spec fn registered_as(
    before: EngineView,
    after: EngineView,
    result: AppResult<BetaApplicant>,
    applicant: BetaApplicant,
    catics: Reading,
    jup: Reading,
    at: i64,
) -> bool {
    &&& after.applicants == before.applicants
    &&& created_by(before, after, result, applicant.public_key@, catics, jup, at, applicant.id)
    &&& result matches Ok(a) ==> a == applicant
}

} // verus!
