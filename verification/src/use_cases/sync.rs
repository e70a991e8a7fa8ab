use vstd::prelude::*;
use vstd::string::StringExecFns;
use crate::app_error::{AppError, AppErrorView, AppResult};
use crate::entities::progression_event_type::ProgressionEventType;
use crate::use_cases::badge::{
    eligible_badges_spec, evaluate_spec, has_award, lemma_award_iff_threshold_met, newly_awarded,
    BadgeAward, BadgeAwards, BadgeCondition,
};
use crate::use_cases::progression::ProgressionCounters;

verus! {

/// The four sources that a sync pulls, each feeding one kind of event.
#[derive(Debug, Clone, Copy, PartialEq, Eq, Structural)]
pub enum SyncSource {
    Registration,
    CaticsBalance,
    JupStaked,
    Referrals,
}

impl SyncSource {
    pub open spec fn spec_event_type(self) -> ProgressionEventType {
        match self {
            SyncSource::Registration => ProgressionEventType::BetaApplicantCreated,
            SyncSource::CaticsBalance => ProgressionEventType::CaticsBalanceCheck,
            SyncSource::JupStaked => ProgressionEventType::JupStaked,
            SyncSource::Referrals => ProgressionEventType::ReferralCreated,
        }
    }

    /// The kind of event under which the source is recorded and evaluated.
    pub fn event_type(&self) -> (kind: ProgressionEventType)
        ensures
            kind == self.spec_event_type(),
    {
        match self {
            SyncSource::Registration => ProgressionEventType::BetaApplicantCreated,
            SyncSource::CaticsBalance => ProgressionEventType::CaticsBalanceCheck,
            SyncSource::JupStaked => ProgressionEventType::JupStaked,
            SyncSource::Referrals => ProgressionEventType::ReferralCreated,
        }
    }
}

/// Where one source stands within one sync.
#[derive(Debug, Clone, Copy, PartialEq, Eq, Structural)]
pub enum SourceState {
    Pending,
    Fetched(i32),
    FetchFailed,
    Recorded(i32),
    RecordedAsZero,
    Evaluated(i32),
    /// A setting that the source needs is missing. The source goes no
    /// further, and the sync it belongs to ends with an error.
    NotConfigured,
}

/// What the caller reports back after carrying out an action.
#[derive(Debug, Clone, Copy, PartialEq, Eq, Structural)]
pub enum SourceEvent {
    FetchSucceeded(i32),
    /// The source could not be reached or refused to answer.
    FetchFailed,
    /// The source cannot even be asked: a setting that it needs is missing.
    NotConfigured,
    RecordSucceeded,
    RecordFailed,
    EvaluationDone,
}

/// What the caller has to do next for a source.
#[derive(Debug, Clone, Copy, PartialEq, Eq, Structural)]
pub enum SourceAction {
    Fetch,
    Record(i32),
    Evaluate(i32),
    Finished,
    /// End the sync with the error of the missing setting.
    Fail,
}

impl SourceState {
    pub open spec fn spec_next_action(self) -> SourceAction {
        match self {
            SourceState::Pending => SourceAction::Fetch,
            SourceState::Fetched(v) => SourceAction::Record(v),
            SourceState::FetchFailed => SourceAction::Record(0),
            SourceState::Recorded(v) => SourceAction::Evaluate(v),
            SourceState::RecordedAsZero => SourceAction::Evaluate(0),
            SourceState::Evaluated(_) => SourceAction::Finished,
            SourceState::NotConfigured => SourceAction::Fail,
        }
    }

    /// The state that follows `self` on `event`; `None` where the event does
    /// not answer the action that `self` asks for.
    pub open spec fn spec_advance(self, event: SourceEvent) -> Option<SourceState> {
        match (self, event) {
            (SourceState::Pending, SourceEvent::FetchSucceeded(v)) => Some(SourceState::Fetched(v)),
            (SourceState::Pending, SourceEvent::FetchFailed) => Some(SourceState::FetchFailed),
            (SourceState::Pending, SourceEvent::NotConfigured) => Some(SourceState::NotConfigured),
            (SourceState::Fetched(v), SourceEvent::RecordSucceeded) => Some(
                SourceState::Recorded(v),
            ),
            (SourceState::Fetched(_), SourceEvent::RecordFailed) => Some(
                SourceState::RecordedAsZero,
            ),
            (SourceState::FetchFailed, SourceEvent::RecordSucceeded) => Some(
                SourceState::RecordedAsZero,
            ),
            (SourceState::FetchFailed, SourceEvent::RecordFailed) => Some(
                SourceState::RecordedAsZero,
            ),
            (SourceState::Recorded(v), SourceEvent::EvaluationDone) => Some(
                SourceState::Evaluated(v),
            ),
            (SourceState::RecordedAsZero, SourceEvent::EvaluationDone) => Some(
                SourceState::Evaluated(0),
            ),
            _ => None,
        }
    }

    /// The action that the state asks for. A failed fetch asks for 0 to be
    /// recorded, and whatever was recorded is what gets evaluated. A missing
    /// setting asks for the sync to be ended.
    pub fn next_action(&self) -> (action: SourceAction)
        ensures
            action == self.spec_next_action(),
    {
        match self {
            SourceState::Pending => SourceAction::Fetch,
            SourceState::Fetched(v) => SourceAction::Record(*v),
            SourceState::FetchFailed => SourceAction::Record(0),
            SourceState::Recorded(v) => SourceAction::Evaluate(*v),
            SourceState::RecordedAsZero => SourceAction::Evaluate(0),
            SourceState::Evaluated(_) => SourceAction::Finished,
            SourceState::NotConfigured => SourceAction::Fail,
        }
    }

    /// Moves the source on by one event. A source that is unavailable, or a
    /// store that fails while recording, never ends the source: it goes on
    /// with 0. A missing setting does end it, before anything is recorded.
    pub fn advance(&self, event: SourceEvent) -> (next: Option<SourceState>)
        ensures
            next == self.spec_advance(event),
    {
        match (self, event) {
            (SourceState::Pending, SourceEvent::FetchSucceeded(v)) => Some(SourceState::Fetched(v)),
            (SourceState::Pending, SourceEvent::FetchFailed) => Some(SourceState::FetchFailed),
            (SourceState::Pending, SourceEvent::NotConfigured) => Some(SourceState::NotConfigured),
            (SourceState::Fetched(v), SourceEvent::RecordSucceeded) => Some(
                SourceState::Recorded(*v),
            ),
            (SourceState::Fetched(_), SourceEvent::RecordFailed) => Some(
                SourceState::RecordedAsZero,
            ),
            (SourceState::FetchFailed, SourceEvent::RecordSucceeded) => Some(
                SourceState::RecordedAsZero,
            ),
            (SourceState::FetchFailed, SourceEvent::RecordFailed) => Some(
                SourceState::RecordedAsZero,
            ),
            (SourceState::Recorded(v), SourceEvent::EvaluationDone) => Some(
                SourceState::Evaluated(*v),
            ),
            (SourceState::RecordedAsZero, SourceEvent::EvaluationDone) => Some(
                SourceState::Evaluated(0),
            ),
            _ => None,
        }
    }

    /// Whether the source is through: fetched, recorded and evaluated.
    pub fn is_finished(&self) -> (done: bool)
        ensures
            done == (self.spec_next_action() == SourceAction::Finished),
            done == (*self is Evaluated),
    {
        match self {
            SourceState::Evaluated(_) => true,
            _ => false,
        }
    }
}

/// Unless a setting is missing, a source is through after three events
/// whatever happens, and it is then evaluated with the fetched value if both
/// the fetch and the recording succeeded, and with 0 otherwise.
pub proof fn lemma_source_always_completes(fetch: SourceEvent, record: SourceEvent)
    requires
        fetch is FetchSucceeded || fetch is FetchFailed,
        record is RecordSucceeded || record is RecordFailed,
    ensures
        SourceState::Pending.spec_advance(fetch) is Some,
        SourceState::Pending.spec_advance(fetch)->0.spec_advance(record) is Some,
        SourceState::Pending.spec_advance(fetch)->0.spec_advance(record)->0.spec_advance(
            SourceEvent::EvaluationDone,
        ) == Some(
            SourceState::Evaluated(
                if fetch is FetchSucceeded && record is RecordSucceeded {
                    fetch->FetchSucceeded_0
                } else {
                    0
                },
            ),
        ),
{
}

/// A missing setting ends a source at once. It is reported for a pending
/// source only; the source then asks for the sync to be ended, takes no
/// further event, and so is never recorded or evaluated, not even with 0.
pub proof fn lemma_missing_setting_ends_the_source(state: SourceState, event: SourceEvent)
    ensures
        SourceState::Pending.spec_advance(SourceEvent::NotConfigured) == Some(
            SourceState::NotConfigured,
        ),
        SourceState::NotConfigured.spec_next_action() == SourceAction::Fail,
        SourceState::NotConfigured.spec_advance(event) is None,
        state.spec_advance(SourceEvent::NotConfigured) is Some ==> state is Pending,
        state.spec_advance(event) == Some(SourceState::NotConfigured) ==> state is Pending
            && event is NotConfigured,
        state.spec_next_action() is Record || state.spec_next_action() is Evaluate ==> !(
        state is NotConfigured),
{
}

/// What a source gave in one sync.
#[derive(Debug, Clone, PartialEq, Eq)]
pub enum Reading {
    /// The source answered with this progress.
    Value(i32),
    /// The source could not be reached or refused to answer. It counts 0,
    /// and the sync goes on.
    Unavailable,
    /// A setting that the source needs is missing; this is its name. Nothing
    /// stands in for the reading, and the sync ends.
    NotConfigured(String),
}

/// The error for a missing setting with the name `name`.
pub open spec fn missing_setting(name: Seq<char>) -> AppErrorView {
    AppErrorView::Internal(name + " not set"@)
}

/// The progress that a reading stands for: its value, and 0 where the source
/// was unavailable. A reading that reports a missing setting stands for no
/// progress at all.
pub open spec fn reading_progress(reading: Reading) -> i32 {
    match reading {
        Reading::Value(v) => v,
        Reading::Unavailable => 0,
        Reading::NotConfigured(_) => arbitrary(),
    }
}

impl Reading {
    /// The progress to record and evaluate for the reading, if it stands for
    /// one.
    pub open spec fn spec_progress(self) -> Option<i32> {
        match self {
            Reading::Value(v) => Some(v),
            Reading::Unavailable => Some(0),
            Reading::NotConfigured(_) => None,
        }
    }

    /// The error that the reading ends the sync with, if it does.
    pub open spec fn spec_fault(self) -> Option<AppErrorView> {
        match self {
            Reading::NotConfigured(name) => Some(missing_setting(name@)),
            _ => None,
        }
    }

    /// What the reading reports to the source that is waiting for it.
    pub open spec fn spec_event(self) -> SourceEvent {
        match self {
            Reading::Value(v) => SourceEvent::FetchSucceeded(v),
            Reading::Unavailable => SourceEvent::FetchFailed,
            Reading::NotConfigured(_) => SourceEvent::NotConfigured,
        }
    }

    /// The value to record and evaluate for the reading: its value, 0 for a
    /// source that was unavailable, and none for a missing setting.
    pub fn progress(&self) -> (progress: Option<i32>)
        ensures
            progress == self.spec_progress(),
            progress matches Some(v) ==> v == reading_progress(*self),
    {
        match self {
            Reading::Value(v) => Some(*v),
            Reading::Unavailable => Some(0),
            Reading::NotConfigured(_) => None,
        }
    }

    /// The error of a missing setting, where the reading reports one.
    pub fn fault(&self) -> (fault: Option<AppError>)
        ensures
            match fault {
                Some(e) => self.spec_fault() == Some(e@),
                None => self.spec_fault() is None,
            },
    {
        match self {
            Reading::NotConfigured(name) => Some(
                AppError::Internal(name.clone().concat(" not set")),
            ),
            _ => None,
        }
    }

    /// The event with which the reading is reported to its source.
    pub fn event(&self) -> (event: SourceEvent)
        ensures
            event == self.spec_event(),
    {
        match self {
            Reading::Value(v) => SourceEvent::FetchSucceeded(*v),
            Reading::Unavailable => SourceEvent::FetchFailed,
            Reading::NotConfigured(_) => SourceEvent::NotConfigured,
        }
    }
}

/// A reading is reported to its source as what it is. A reading that stands
/// for a progress moves the source on to recording exactly that progress,
/// which is 0 for a source that was unavailable; a reading that reports a
/// missing setting, and no other, ends the source.
pub proof fn lemma_reading_moves_its_source(reading: Reading)
    ensures
        SourceState::Pending.spec_advance(reading.spec_event()) is Some,
        reading.spec_fault() is Some <==> reading is NotConfigured,
        reading.spec_fault() is Some <==> reading.spec_progress() is None,
        reading.spec_fault() is Some <==> SourceState::Pending.spec_advance(
            reading.spec_event(),
        )->0.spec_next_action() == SourceAction::Fail,
        reading.spec_progress() matches Some(progress) ==> SourceState::Pending.spec_advance(
            reading.spec_event(),
        )->0.spec_next_action() == SourceAction::Record(progress) && progress == reading_progress(
            reading,
        ),
{
}

/// The error with which a sync ends on these readings, if it does: that of
/// the first reading, in the order of the sources, that reports a missing
/// setting.
pub open spec fn first_fault(catics: Reading, jup: Reading, referrals: Reading) -> Option<
    AppErrorView,
> {
    if catics.spec_fault() is Some {
        catics.spec_fault()
    } else if jup.spec_fault() is Some {
        jup.spec_fault()
    } else {
        referrals.spec_fault()
    }
}

/// What the three outside sources gave in one sync; registration needs no
/// reading, it always counts 1.
pub struct SourceReadings {
    pub catics_balance: Reading,
    pub jup_staked: Reading,
    pub referral_count: Reading,
}

impl SourceReadings {
    pub open spec fn spec_fault(self) -> Option<AppErrorView> {
        first_fault(self.catics_balance, self.jup_staked, self.referral_count)
    }

    /// The error with which a sync ends on these readings, if it does.
    pub fn fault(&self) -> (fault: Option<AppError>)
        ensures
            match fault {
                Some(e) => self.spec_fault() == Some(e@),
                None => self.spec_fault() is None,
            },
    {
        match self.catics_balance.fault() {
            Some(e) => Some(e),
            None => match self.jup_staked.fault() {
                Some(e) => Some(e),
                None => self.referral_count.fault(),
            },
        }
    }
}

/// What one sync used for each source and which badges it granted.
#[derive(Debug, Clone, PartialEq, Eq)]
pub struct SyncReport {
    pub registration: i32,
    pub catics_balance: i32,
    pub jup_staked: i32,
    pub referral_count: i32,
    pub catics_failed: bool,
    pub jup_failed: bool,
    pub referral_failed: bool,
    pub granted: Vec<i32>,
}

/// The counters after a sync of `user_id` with the four progress values.
pub open spec fn synced_counters(
    counters: Map<(int, ProgressionEventType), int>,
    user_id: int,
    registration: int,
    catics: int,
    jup: int,
    referrals: int,
) -> Map<(int, ProgressionEventType), int> {
    counters.insert((user_id, ProgressionEventType::BetaApplicantCreated), registration).insert(
        (user_id, ProgressionEventType::CaticsBalanceCheck),
        catics,
    ).insert((user_id, ProgressionEventType::JupStaked), jup).insert(
        (user_id, ProgressionEventType::ReferralCreated),
        referrals,
    )
}

/// The award rows after the first `n` of the four evaluations of a sync.
pub open spec fn synced_awards(
    rows: Seq<BadgeAward>,
    conditions: Seq<BadgeCondition>,
    user_id: i32,
    catics: int,
    jup: int,
    referrals: int,
    at: i64,
    n: nat,
) -> Seq<BadgeAward>
    decreases n,
{
    if n == 0 {
        rows
    } else {
        let before = synced_awards(
            rows,
            conditions,
            user_id,
            catics,
            jup,
            referrals,
            at,
            (n - 1) as nat,
        );
        if n == 1 {
            evaluate_spec(
                before,
                conditions,
                user_id,
                ProgressionEventType::BetaApplicantCreated,
                1,
                at,
            )
        } else if n == 2 {
            evaluate_spec(
                before,
                conditions,
                user_id,
                ProgressionEventType::CaticsBalanceCheck,
                catics,
                at,
            )
        } else if n == 3 {
            evaluate_spec(before, conditions, user_id, ProgressionEventType::JupStaked, jup, at)
        } else if n == 4 {
            evaluate_spec(
                before,
                conditions,
                user_id,
                ProgressionEventType::ReferralCreated,
                referrals,
                at,
            )
        } else {
            before
        }
    }
}

/// The badges that the `n`-th of the four evaluations of a sync grants.
pub open spec fn synced_grants(
    rows: Seq<BadgeAward>,
    conditions: Seq<BadgeCondition>,
    user_id: i32,
    catics: int,
    jup: int,
    referrals: int,
    at: i64,
    n: nat,
) -> Seq<i32> {
    let before = synced_awards(rows, conditions, user_id, catics, jup, referrals, at, (n - 1) as nat);
    let (kind, progress) = if n == 1 {
        (ProgressionEventType::BetaApplicantCreated, 1)
    } else if n == 2 {
        (ProgressionEventType::CaticsBalanceCheck, catics)
    } else if n == 3 {
        (ProgressionEventType::JupStaked, jup)
    } else {
        (ProgressionEventType::ReferralCreated, referrals)
    };
    newly_awarded(before, user_id, eligible_badges_spec(conditions, kind, progress), at)
}

/// The badges that a sync grants, in the order of its four evaluations.
pub open spec fn synced_grants_all(
    rows: Seq<BadgeAward>,
    conditions: Seq<BadgeCondition>,
    user_id: i32,
    catics: int,
    jup: int,
    referrals: int,
    at: i64,
) -> Seq<i32> {
    synced_grants(rows, conditions, user_id, catics, jup, referrals, at, 1) + synced_grants(
        rows,
        conditions,
        user_id,
        catics,
        jup,
        referrals,
        at,
        2,
    ) + synced_grants(rows, conditions, user_id, catics, jup, referrals, at, 3) + synced_grants(
        rows,
        conditions,
        user_id,
        catics,
        jup,
        referrals,
        at,
        4,
    )
}

/// The sources are kept apart. What a sync records for a source is the
/// progress of that source, whatever became of the others; and a badge with
/// a rule that the progress of one source meets is held after the sync,
/// whatever the others counted.
pub proof fn lemma_sync_isolates_sources(
    counters: Map<(int, ProgressionEventType), int>,
    rows: Seq<BadgeAward>,
    conditions: Seq<BadgeCondition>,
    user_id: i32,
    catics: int,
    jup: int,
    referrals: int,
    at: i64,
    rule: int,
)
    requires
        0 <= rule < conditions.len(),
        conditions[rule].applies(ProgressionEventType::BetaApplicantCreated, 1)
            || conditions[rule].applies(ProgressionEventType::CaticsBalanceCheck, catics)
            || conditions[rule].applies(ProgressionEventType::JupStaked, jup)
            || conditions[rule].applies(ProgressionEventType::ReferralCreated, referrals),
    ensures
        synced_counters(counters, user_id as int, 1, catics, jup, referrals)[(
            user_id as int,
            ProgressionEventType::BetaApplicantCreated,
        )] == 1,
        synced_counters(counters, user_id as int, 1, catics, jup, referrals)[(
            user_id as int,
            ProgressionEventType::CaticsBalanceCheck,
        )] == catics,
        synced_counters(counters, user_id as int, 1, catics, jup, referrals)[(
            user_id as int,
            ProgressionEventType::JupStaked,
        )] == jup,
        synced_counters(counters, user_id as int, 1, catics, jup, referrals)[(
            user_id as int,
            ProgressionEventType::ReferralCreated,
        )] == referrals,
        has_award(
            synced_awards(rows, conditions, user_id, catics, jup, referrals, at, 4),
            user_id as int,
            conditions[rule].badge_id as int,
        ),
{
    reveal_with_fuel(synced_awards, 5);
    let badge = conditions[rule].badge_id;
    let one = synced_awards(rows, conditions, user_id, catics, jup, referrals, at, 1);
    let two = synced_awards(rows, conditions, user_id, catics, jup, referrals, at, 2);
    let three = synced_awards(rows, conditions, user_id, catics, jup, referrals, at, 3);
    lemma_award_iff_threshold_met(
        rows,
        conditions,
        user_id,
        ProgressionEventType::BetaApplicantCreated,
        1,
        at,
        badge,
    );
    lemma_award_iff_threshold_met(
        one,
        conditions,
        user_id,
        ProgressionEventType::CaticsBalanceCheck,
        catics,
        at,
        badge,
    );
    lemma_award_iff_threshold_met(
        two,
        conditions,
        user_id,
        ProgressionEventType::JupStaked,
        jup,
        at,
        badge,
    );
    lemma_award_iff_threshold_met(
        three,
        conditions,
        user_id,
        ProgressionEventType::ReferralCreated,
        referrals,
        at,
        badge,
    );
    assert(conditions[rule].badge_id == badge);
}

/// What a sync that is not ended by a missing setting leaves behind and
/// reports: the four counters replaced, the badges of the four sources
/// evaluated in turn, a source that was unavailable counting 0.
pub open spec fn sync_outcome(
    counters_before: Map<(int, ProgressionEventType), int>,
    counters_after: Map<(int, ProgressionEventType), int>,
    awards_before: Seq<BadgeAward>,
    awards_after: Seq<BadgeAward>,
    conditions: Seq<BadgeCondition>,
    user_id: i32,
    readings: SourceReadings,
    at: i64,
    report: SyncReport,
) -> bool {
    let catics = reading_progress(readings.catics_balance) as int;
    let jup = reading_progress(readings.jup_staked) as int;
    let referrals = reading_progress(readings.referral_count) as int;
    &&& report.registration == 1
    &&& report.catics_balance == catics
    &&& report.jup_staked == jup
    &&& report.referral_count == referrals
    &&& report.catics_failed == (readings.catics_balance is Unavailable)
    &&& report.jup_failed == (readings.jup_staked is Unavailable)
    &&& report.referral_failed == (readings.referral_count is Unavailable)
    &&& counters_after == synced_counters(counters_before, user_id as int, 1, catics, jup, referrals)
    &&& awards_after == synced_awards(
        awards_before,
        conditions,
        user_id,
        catics,
        jup,
        referrals,
        at,
        4,
    )
    &&& report.granted@ == synced_grants_all(
        awards_before,
        conditions,
        user_id,
        catics,
        jup,
        referrals,
        at,
    )
}

/// The sync orchestrator. Takes what the sources gave for `user_id`, records
/// the four counters, then evaluates the badges once per source with the
/// value that was recorded for it. A source that was unavailable counts 0 and
/// touches no other source. A missing setting is no such failure: it ends the
/// sync with its error before anything is recorded or evaluated.
pub fn sync_all_progressions(
    counters: &mut ProgressionCounters,
    awards: &mut BadgeAwards,
    conditions: &Vec<BadgeCondition>,
    user_id: i32,
    readings: &SourceReadings,
    at: i64,
) -> (result: AppResult<SyncReport>)
    requires
        old(counters).wf(),
        old(awards).wf(),
    ensures
        final(counters).wf(),
        final(awards).wf(),
        result is Err <==> readings.catics_balance is NotConfigured
            || readings.jup_staked is NotConfigured || readings.referral_count is NotConfigured,
        result matches Err(e) ==> readings.spec_fault() == Some(e@) && final(counters)@ == old(
            counters,
        )@ && final(awards)@ == old(awards)@,
        result matches Ok(report) ==> sync_outcome(
            old(counters)@,
            final(counters)@,
            old(awards)@,
            final(awards)@,
            conditions@,
            user_id,
            *readings,
            at,
            report,
        ),
{
    match readings.fault() {
        Some(e) => {
            return Err(e);
        },
        None => {},
    }
    let registration: i32 = 1;
    let catics: i32 = match readings.catics_balance.progress() {
        Some(v) => v,
        None => 0,
    };
    let jup: i32 = match readings.jup_staked.progress() {
        Some(v) => v,
        None => 0,
    };
    let referrals: i32 = match readings.referral_count.progress() {
        Some(v) => v,
        None => 0,
    };

    counters.record_progression_event(
        user_id,
        SyncSource::Registration.event_type(),
        registration,
    );
    counters.record_progression_event(user_id, SyncSource::CaticsBalance.event_type(), catics);
    counters.record_progression_event(user_id, SyncSource::JupStaked.event_type(), jup);
    counters.record_progression_event(user_id, SyncSource::Referrals.event_type(), referrals);

    proof {
        reveal_with_fuel(synced_awards, 5);
    }
    let mut granted = awards.award_badge_if_eligible(
        conditions,
        user_id,
        SyncSource::Registration.event_type(),
        registration,
        at,
    );
    let mut second = awards.award_badge_if_eligible(
        conditions,
        user_id,
        SyncSource::CaticsBalance.event_type(),
        catics,
        at,
    );
    let mut third = awards.award_badge_if_eligible(
        conditions,
        user_id,
        SyncSource::JupStaked.event_type(),
        jup,
        at,
    );
    let mut fourth = awards.award_badge_if_eligible(
        conditions,
        user_id,
        SyncSource::Referrals.event_type(),
        referrals,
        at,
    );
    granted.append(&mut second);
    granted.append(&mut third);
    granted.append(&mut fourth);

    Ok(
        SyncReport {
            registration,
            catics_balance: catics,
            jup_staked: jup,
            referral_count: referrals,
            catics_failed: matches!(readings.catics_balance, Reading::Unavailable),
            jup_failed: matches!(readings.jup_staked, Reading::Unavailable),
            referral_failed: matches!(readings.referral_count, Reading::Unavailable),
            granted,
        },
    )
}

} // verus!
