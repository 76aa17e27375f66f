//! Sequential batch processing of logins: one lookup/fetch/aggregate
//! cycle per login, inter-request pacing, per-login error isolation,
//! and escalation of failures that poison the whole run.
//!
//! The runner holds the decisions only. The caller performs each
//! requested action (the HTTP transfer, the pause) and hands the
//! outcome back; every transition and its effect on the recorded
//! results is specified here.

use vstd::prelude::*;

verus! {

use crate::error::LogtimeError;
use crate::intervals::Location;
use crate::intervals::spec_intervals_of;
use crate::intervals::spec_total_seconds;
use crate::intervals::spec_capped_u64;
use crate::request::User;
use crate::request::spec_is_success;

/// What one processed login came to: its aggregated seconds, or a
/// recoverable per-login failure.
#[derive(Clone, Copy, PartialEq, Eq, Structural, Debug)]
pub enum Outcome {
    Seconds(u64),
    UnknownLogin,
    TransportError { status: u16 },
}

/// One record per processed login, in input order; never retried
/// after computed.
#[derive(Clone, PartialEq, Eq, Debug)]
pub struct AggregateResult {
    pub login: String,
    pub outcome: Outcome,
}

/// Where the runner stands: about to look up the current login,
/// about to fetch intervals for its resolved user, pausing before
/// the next login, finished, or aborted by a fatal failure.
#[derive(Clone, Copy, PartialEq, Eq, Structural, Debug)]
pub enum Phase {
    Lookup,
    Fetch { user_id: u32 },
    Pause,
    Done,
    Aborted,
}

/// The next action the caller is asked to perform.
#[derive(Clone, PartialEq, Eq, Debug)]
pub enum Action {
    /// Issue the filtered user-list query for this login and report
    /// the status and decoded body through `on_lookup_reply`.
    Lookup { login: String },
    /// Issue the interval-list query for this user and report the
    /// status and decoded body through `on_fetch_reply`.
    Fetch { user_id: u32 },
    /// Wait the fixed inter-request pause, then call `pause_done`.
    Pause,
    /// The batch is complete or aborted; stop.
    Finished,
}

/// The batch state: the ordered logins, the index of the login in
/// hand, the phase, the results so far, and the fatal error of an
/// aborted run.
#[derive(Debug)]
pub struct BatchRunner {
    pub logins: Vec<String>,
    pub idx: usize,
    pub phase: Phase,
    pub results: Vec<AggregateResult>,
    pub fatal: Option<LogtimeError>,
}

impl BatchRunner {
    /// The state invariant: the index and result count track the
    /// phase, and every recorded result carries the login at its own
    /// input position — input order is preserved.
    pub open spec fn wf(self) -> bool {
        &&& match self.phase {
            Phase::Lookup | Phase::Fetch { .. } => {
                &&& self.idx < self.logins@.len()
                &&& self.results@.len() == self.idx
                &&& self.fatal is None
            },
            Phase::Pause => {
                &&& 1 <= self.idx < self.logins@.len()
                &&& self.results@.len() == self.idx
                &&& self.fatal is None
            },
            Phase::Done => {
                &&& self.idx == self.logins@.len()
                &&& self.results@.len() == self.logins@.len()
                &&& self.fatal is None
            },
            Phase::Aborted => self.fatal is Some && self.results@.len() <= self.logins@.len(),
        }
        &&& forall|i: int|
            0 <= i < self.results@.len() ==> #[trigger] self.results@[i].login@
                == self.logins@[i]@
    }

    /// Starts a batch over the given logins.
    pub fn new(logins: Vec<String>) -> (r: BatchRunner)
        ensures
            r.wf(),
            r.logins@ == logins@,
            r.results@.len() == 0,
            r.fatal is None,
            r.idx == 0,
            logins@.len() == 0 ==> r.phase == Phase::Done,
            logins@.len() > 0 ==> r.phase == Phase::Lookup,
    {
        let phase = if logins.len() == 0 {
            Phase::Done
        } else {
            Phase::Lookup
        };
        BatchRunner { logins, idx: 0, phase, results: Vec::new(), fatal: None }
    }

    /// The action the caller is asked to perform next. An aborted or
    /// completed batch asks for nothing more: no further login is
    /// attempted.
    pub fn next_action(&self) -> (a: Action)
        requires
            self.wf(),
        ensures
            match self.phase {
                Phase::Lookup => a matches Action::Lookup { login } && login@
                    == self.logins@[self.idx as int]@,
                Phase::Fetch { user_id } => a == (Action::Fetch { user_id }),
                Phase::Pause => a == Action::Pause,
                Phase::Done => a == Action::Finished,
                Phase::Aborted => a == Action::Finished,
            },
    {
        match self.phase {
            Phase::Lookup => Action::Lookup { login: self.logins[self.idx].clone() },
            Phase::Fetch { user_id } => Action::Fetch { user_id },
            Phase::Pause => Action::Pause,
            Phase::Done => Action::Finished,
            Phase::Aborted => Action::Finished,
        }
    }

    /// Records one outcome for the login in hand and moves to the
    /// next login, pausing first unless the batch is finished: no
    /// pause follows the last login.
    fn record_outcome(&mut self, outcome: Outcome)
        requires
            old(self).wf(),
            old(self).phase matches Phase::Lookup || old(self).phase matches Phase::Fetch { .. },
        ensures
            final(self).wf(),
            final(self).logins == old(self).logins,
            spec_step_recorded(*old(self), *final(self), outcome),
    {
        let n = self.logins.len();
        let login = self.logins[self.idx].clone();
        self.results.push(AggregateResult { login, outcome });
        self.idx = self.idx + 1;
        if self.idx < n {
            self.phase = Phase::Pause;
        } else {
            self.phase = Phase::Done;
        }
    }

    /// Aborts the whole batch with a fatal error.
    fn abort_with(&mut self, e: LogtimeError)
        requires
            old(self).wf(),
            old(self).phase matches Phase::Lookup || old(self).phase matches Phase::Fetch { .. },
        ensures
            final(self).wf(),
            final(self).logins == old(self).logins,
            spec_aborted_with(*old(self), *final(self), e),
    {
        self.fatal = Some(e);
        self.phase = Phase::Aborted;
    }

    /// Feeds back the user-lookup reply for the login in hand.
    ///
    /// A 401 always aborts the batch: the token is unusable for every
    /// later login too. Any other non-success status on the very
    /// first call of the batch also aborts; later it is recorded as a
    /// per-login failure and the batch continues. An uninterpretable
    /// body aborts. An empty user list is the expected bad-login
    /// case: recorded, and the batch continues. Otherwise the first
    /// matching user is taken and its intervals are fetched next.
    pub fn on_lookup_reply(&mut self, status: u16, users: Option<Vec<User>>)
        requires
            old(self).wf(),
            old(self).phase == Phase::Lookup,
        ensures
            final(self).wf(),
            final(self).logins == old(self).logins,
            status == 401 ==> spec_aborted_with(
                *old(self),
                *final(self),
                LogtimeError::AuthenticationFailed { status: 401 },
            ),
            !spec_is_success(status) && status != 401 && old(self).idx == 0 ==> spec_aborted_with(
                *old(self),
                *final(self),
                LogtimeError::TransportError { status },
            ),
            !spec_is_success(status) && status != 401 && old(self).idx > 0 ==> spec_step_recorded(
                *old(self),
                *final(self),
                Outcome::TransportError { status },
            ),
            spec_is_success(status) ==> match users {
                None => spec_aborted_with(
                    *old(self),
                    *final(self),
                    LogtimeError::MalformedResponse,
                ),
                Some(us) => {
                    if us@.len() == 0 {
                        spec_step_recorded(*old(self), *final(self), Outcome::UnknownLogin)
                    } else {
                        &&& final(self).phase == (Phase::Fetch { user_id: us@[0].id })
                        &&& final(self).results == old(self).results
                        &&& final(self).idx == old(self).idx
                        &&& final(self).fatal is None
                    }
                },
            },
    {
        let login_ref: &String = &self.logins[self.idx];
        let r = crate::request::interpret_users_response(status, users, login_ref.as_str());
        match r {
            Ok(user) => {
                self.phase = Phase::Fetch { user_id: user.id };
            },
            Err(e) => match e {
                LogtimeError::UnknownLogin { .. } => self.record_outcome(Outcome::UnknownLogin),
                LogtimeError::TransportError { status: s } => {
                    if self.idx == 0 {
                        self.abort_with(LogtimeError::TransportError { status: s });
                    } else {
                        self.record_outcome(Outcome::TransportError { status: s });
                    }
                },
                other => self.abort_with(other),
            },
        }
    }

    /// Feeds back the interval-fetch reply for the login in hand.
    ///
    /// A 401 aborts the batch wherever it occurs, while any other
    /// non-success status (a 404, say) is a per-login failure and the
    /// batch continues. An interpretable body is aggregated into the
    /// login's total seconds; an uninterpretable one aborts.
    pub fn on_fetch_reply(&mut self, status: u16, locations: Option<Vec<Location>>)
        requires
            old(self).wf(),
            old(self).phase matches Phase::Fetch { .. },
        ensures
            final(self).wf(),
            final(self).logins == old(self).logins,
            status == 401 ==> spec_aborted_with(
                *old(self),
                *final(self),
                LogtimeError::AuthenticationFailed { status: 401 },
            ),
            !spec_is_success(status) && status != 401 ==> spec_step_recorded(
                *old(self),
                *final(self),
                Outcome::TransportError { status },
            ),
            spec_is_success(status) ==> match locations {
                None => spec_aborted_with(
                    *old(self),
                    *final(self),
                    LogtimeError::MalformedResponse,
                ),
                Some(locs) => match spec_intervals_of(locs@) {
                    None => spec_aborted_with(
                        *old(self),
                        *final(self),
                        LogtimeError::MalformedResponse,
                    ),
                    Some(ivs) => spec_step_recorded(
                        *old(self),
                        *final(self),
                        Outcome::Seconds(spec_capped_u64(spec_total_seconds(ivs)) as u64),
                    ),
                },
            },
    {
        let r = crate::request::interpret_locations_response(status, locations);
        match r {
            Ok(intervals) => {
                let secs = crate::intervals::sum_time(&intervals);
                self.record_outcome(Outcome::Seconds(secs));
            },
            Err(e) => match e {
                LogtimeError::TransportError { status: s } => {
                    self.record_outcome(Outcome::TransportError { status: s });
                },
                other => self.abort_with(other),
            },
        }
    }

    /// The caller reports the inter-request pause as observed; the
    /// next login's lookup follows.
    pub fn pause_done(&mut self)
        requires
            old(self).wf(),
            old(self).phase == Phase::Pause,
        ensures
            final(self).wf(),
            final(self).logins == old(self).logins,
            final(self).results == old(self).results,
            final(self).idx == old(self).idx,
            final(self).fatal is None,
            final(self).phase == Phase::Lookup,
    {
        self.phase = Phase::Lookup;
    }
}

/// Results come in input order: the record at each position carries
/// the login that stood at the same position of the input, whether
/// it records a total or a per-login failure.
pub proof fn lemma_results_preserve_input_order(r: BatchRunner)
    requires
        r.wf(),
    ensures
        r.results@.len() <= r.logins@.len(),
        forall|i: int|
            0 <= i < r.results@.len() ==> #[trigger] r.results@[i].login@ == r.logins@[i]@,
{
}

/// One outcome was recorded for the login in hand and the runner
/// moved on: pausing before the next login, or done after the last.
pub open spec fn spec_step_recorded(pre: BatchRunner, post: BatchRunner, oc: Outcome) -> bool {
    &&& post.results@.len() == pre.results@.len() + 1
    &&& forall|i: int| 0 <= i < pre.results@.len() ==> post.results@[i] == pre.results@[i]
    &&& post.results@.last().login@ == pre.logins@[pre.idx as int]@
    &&& post.results@.last().outcome == oc
    &&& post.idx == pre.idx + 1
    &&& post.fatal is None
    &&& post.phase == (if pre.idx + 1 < pre.logins@.len() {
        Phase::Pause
    } else {
        Phase::Done
    })
}

/// The batch was aborted by a fatal error: the results so far stand,
/// and no further login is attempted.
pub open spec fn spec_aborted_with(pre: BatchRunner, post: BatchRunner, e: LogtimeError) -> bool {
    &&& post.phase == Phase::Aborted
    &&& post.fatal == Some(e)
    &&& post.results == pre.results
    &&& post.idx == pre.idx
}

} // verus!
