use vstd::prelude::*;
use crate::text::has_prefix;
use crate::text::starts_with;

verus! {

/// What one request came back with, as far as the run's decisions go.
pub enum Response {
    /// A success status; the value of the `Content-Type` header, if any.
    Delivered { content_type: Option<String> },
    /// An error status from the server.
    Status { code: u16 },
    /// No answer: the connection, a timeout or another transport failure.
    Transport,
}

/// What the run does with a response.
#[derive(Clone, Copy, Debug, PartialEq, Eq, Structural)]
pub enum Verdict {
    /// Write the body to its file and count the month as done.
    Save,
    /// The server sent a page instead of data: stop the run here.
    StopRun,
    /// The server refused the request: the run fails with this status code.
    Fail { code: u16 },
    /// A transient failure: go on with the next month.
    Skip,
}

/// Data comes with a content type that begins with `application`; anything
/// else is a page that reports a problem with the request.
pub open spec fn is_data_type(content_type: Option<String>) -> bool {
    match content_type {
        Some(t) => has_prefix(t@, "application"@),
        None => false,
    }
}

pub open spec fn verdict_of(r: Response) -> Verdict {
    match r {
        Response::Delivered { content_type } => if is_data_type(content_type) {
            Verdict::Save
        } else {
            Verdict::StopRun
        },
        Response::Status { code } => Verdict::Fail { code },
        Response::Transport => Verdict::Skip,
    }
}

/// Decides what to do with a response.
pub fn classify(r: &Response) -> (v: Verdict)
    ensures
        v == verdict_of(*r),
{
    match r {
        Response::Delivered { content_type } => {
            let data = match content_type {
                Some(t) => starts_with(t.as_str(), "application"),
                None => false,
            };
            if data {
                Verdict::Save
            } else {
                Verdict::StopRun
            }
        },
        Response::Status { code } => Verdict::Fail { code: *code },
        Response::Transport => Verdict::Skip,
    }
}

/// Where a run stands.
#[derive(Clone, Copy, Debug, PartialEq, Eq, Structural)]
pub enum RunStatus {
    /// Months remain to be fetched.
    Running,
    /// Every month of the range was attempted.
    Completed,
    /// The server sent a page instead of data; later months were not attempted.
    Stopped,
    /// The server refused the request for this month with this status code.
    Failed { year: u16, month: u8, code: u16 },
}

/// The progress of a run over every month of a range of years, in order:
/// January to December of the first year, then of the next, and so on.
/// Months are numbered by `position`, from zero.
#[derive(Clone, Copy, Debug, PartialEq, Eq, Structural)]
pub struct Run {
    pub start_year: u16,
    pub end_year: u16,
    /// How many months have been handled: saved or skipped.
    pub position: u32,
    /// How many months were saved.
    pub saved: u32,
    /// How many requests were made.
    pub attempts: u32,
    pub status: RunStatus,
}

pub open spec fn month_count(start_year: int, end_year: int) -> int {
    12 * (end_year - start_year + 1)
}

impl Run {
    pub open spec fn total(self) -> int {
        month_count(self.start_year as int, self.end_year as int)
    }

    pub open spec fn year_at(self, k: int) -> int {
        self.start_year + k / 12
    }

    pub open spec fn month_at(self, k: int) -> int {
        k % 12 + 1
    }

    pub open spec fn wf(self) -> bool {
        &&& self.start_year <= self.end_year
        &&& self.saved <= self.position <= self.total()
        &&& match self.status {
            RunStatus::Running => self.position < self.total() && self.attempts == self.position,
            RunStatus::Completed => self.position == self.total() && self.attempts
                == self.position,
            RunStatus::Stopped => self.position < self.total() && self.attempts == self.position
                + 1,
            RunStatus::Failed { year, month, code } => {
                &&& self.position < self.total()
                &&& self.attempts == self.position + 1
                &&& year == self.year_at(self.position as int)
                &&& month == self.month_at(self.position as int)
            },
        }
    }

    pub open spec fn initial(start_year: u16, end_year: u16) -> Run {
        Run { start_year, end_year, position: 0, saved: 0, attempts: 0, status: RunStatus::Running }
    }

    /// The status after the month at `position` is handled without abort.
    pub open spec fn status_past(self, position: int) -> RunStatus {
        if position == self.total() {
            RunStatus::Completed
        } else {
            RunStatus::Running
        }
    }

    /// The run once the current month has had verdict `v`; a finished run
    /// does not change.
    pub open spec fn after(self, v: Verdict) -> Run {
        if !(self.status is Running) {
            self
        } else {
            match v {
                Verdict::Save => Run {
                    position: (self.position + 1) as u32,
                    saved: (self.saved + 1) as u32,
                    attempts: (self.attempts + 1) as u32,
                    status: self.status_past(self.position + 1),
                    ..self
                },
                Verdict::Skip => Run {
                    position: (self.position + 1) as u32,
                    attempts: (self.attempts + 1) as u32,
                    status: self.status_past(self.position + 1),
                    ..self
                },
                Verdict::StopRun => Run {
                    attempts: (self.attempts + 1) as u32,
                    status: RunStatus::Stopped,
                    ..self
                },
                Verdict::Fail { code } => Run {
                    attempts: (self.attempts + 1) as u32,
                    status: RunStatus::Failed {
                        year: self.year_at(self.position as int) as u16,
                        month: self.month_at(self.position as int) as u8,
                        code,
                    },
                    ..self
                },
            }
        }
    }

    /// The run once the verdicts of `vs` were recorded, one after another.
    pub open spec fn replay(self, vs: Seq<Verdict>) -> Run
        decreases vs.len(),
    {
        if vs.len() == 0 {
            self
        } else {
            self.after(vs[0]).replay(vs.drop_first())
        }
    }

    /// Starts a run over every month from January of `start_year` to
    /// December of `end_year`.
    pub fn new(start_year: u16, end_year: u16) -> (r: Run)
        requires
            start_year <= end_year,
        ensures
            r == Run::initial(start_year, end_year),
            r.wf(),
    {
        Run { start_year, end_year, position: 0, saved: 0, attempts: 0, status: RunStatus::Running }
    }

    /// How many months the run covers.
    pub fn total_months(&self) -> (r: u32)
        requires
            self.wf(),
        ensures
            r == self.total(),
    {
        12 * ((self.end_year - self.start_year) as u32 + 1)
    }

    /// Whether the run has ended, completed or not.
    pub fn is_finished(&self) -> (r: bool)
        ensures
            r == !(self.status is Running),
    {
        !matches!(self.status, RunStatus::Running)
    }

    /// The year and month to fetch next, while the run goes on.
    pub fn pending(&self) -> (r: Option<(u16, u8)>)
        requires
            self.wf(),
        ensures
            self.status is Running ==> r == Some(
                (
                    self.year_at(self.position as int) as u16,
                    self.month_at(self.position as int) as u8,
                ),
            ),
            self.status is Running ==> self.start_year <= self.year_at(self.position as int)
                <= self.end_year,
            !(self.status is Running) ==> r is None,
    {
        if self.is_finished() {
            return None;
        }
        proof {
            lemma_year_in_range(*self, self.position as int);
        }
        let year = self.start_year + (self.position / 12) as u16;
        let month = (self.position % 12 + 1) as u8;
        Some((year, month))
    }

    /// Records the verdict on the current month.
    pub fn record(&mut self, v: Verdict)
        requires
            old(self).wf(),
        ensures
            *final(self) == old(self).after(v),
            final(self).wf(),
    {
        if self.is_finished() {
            return;
        }
        proof {
            lemma_year_in_range(*self, self.position as int);
        }
        let total = self.total_months();
        match v {
            Verdict::Save => {
                self.position = self.position + 1;
                self.saved = self.saved + 1;
                self.attempts = self.attempts + 1;
                if self.position == total {
                    self.status = RunStatus::Completed;
                }
            },
            Verdict::Skip => {
                self.position = self.position + 1;
                self.attempts = self.attempts + 1;
                if self.position == total {
                    self.status = RunStatus::Completed;
                }
            },
            Verdict::StopRun => {
                self.attempts = self.attempts + 1;
                self.status = RunStatus::Stopped;
            },
            Verdict::Fail { code } => {
                let year = self.start_year + (self.position / 12) as u16;
                let month = (self.position % 12 + 1) as u8;
                self.attempts = self.attempts + 1;
                self.status = RunStatus::Failed { year, month, code };
            },
        }
    }
}

proof fn lemma_year_in_range(r: Run, k: int)
    requires
        r.start_year <= r.end_year,
        0 <= k < r.total(),
    ensures
        r.start_year <= r.year_at(k) <= r.end_year,
        1 <= r.month_at(k) <= 12,
        r.total() <= 12 * 0x10000,
{
    let span = r.end_year - r.start_year + 1;
    assert(k / 12 < span) by (nonlinear_arith)
        requires
            0 <= k < 12 * span,
    ;
}

/// How many of the verdicts are `Save`.
pub open spec fn saves_in(vs: Seq<Verdict>) -> nat
    decreases vs.len(),
{
    if vs.len() == 0 {
        0
    } else {
        (if vs[0] is Save {
            1nat
        } else {
            0nat
        }) + saves_in(vs.drop_first())
    }
}

pub open spec fn no_abort(vs: Seq<Verdict>) -> bool {
    forall|i: int| 0 <= i < vs.len() ==> (#[trigger] vs[i] is Save || vs[i] is Skip)
}

/// A finished run stays as it is, whatever is recorded after.
pub proof fn lemma_finished_run_stays(r: Run, vs: Seq<Verdict>)
    requires
        !(r.status is Running),
    ensures
        r.replay(vs) == r,
    decreases vs.len(),
{
    if vs.len() > 0 {
        lemma_finished_run_stays(r.after(vs[0]), vs.drop_first());
    }
}

proof fn lemma_no_abort_from(r: Run, vs: Seq<Verdict>)
    requires
        r.wf(),
        r.status is Running,
        vs.len() == r.total() - r.position,
        no_abort(vs),
    ensures
        r.replay(vs).status == RunStatus::Completed,
        r.replay(vs).attempts == r.total(),
        r.replay(vs).saved == r.saved + saves_in(vs),
    decreases vs.len(),
{
    let next = r.after(vs[0]);
    let rest = vs.drop_first();
    assert(vs[0] is Save || vs[0] is Skip);
    if next.status is Running {
        assert(no_abort(rest)) by {
            assert forall|i: int| 0 <= i < rest.len() implies (#[trigger] rest[i] is Save
                || rest[i] is Skip) by {
                assert(rest[i] == vs[i + 1]);
            }
        }
        lemma_no_abort_from(next, rest);
    } else {
        assert(rest.len() == 0);
        assert(saves_in(rest) == 0);
    }
}

/// A run in which no request is answered by a page or an error status
/// attempts every month of the range exactly once, ends completed, and
/// counts as saved exactly the months whose data was saved.
pub proof fn lemma_run_without_abort(start_year: u16, end_year: u16, vs: Seq<Verdict>)
    requires
        start_year <= end_year,
        vs.len() == month_count(start_year as int, end_year as int),
        no_abort(vs),
    ensures
        Run::initial(start_year, end_year).replay(vs).status == RunStatus::Completed,
        Run::initial(start_year, end_year).replay(vs).attempts == month_count(
            start_year as int,
            end_year as int,
        ),
        Run::initial(start_year, end_year).replay(vs).saved == saves_in(vs),
{
    lemma_no_abort_from(Run::initial(start_year, end_year), vs);
}

proof fn lemma_saves_in_all(vs: Seq<Verdict>)
    requires
        forall|i: int| 0 <= i < vs.len() ==> #[trigger] vs[i] == Verdict::Save,
    ensures
        saves_in(vs) == vs.len(),
    decreases vs.len(),
{
    if vs.len() > 0 {
        assert forall|i: int| 0 <= i < vs.drop_first().len() implies #[trigger] vs.drop_first()[i]
            == Verdict::Save by {
            assert(vs.drop_first()[i] == vs[i + 1]);
        }
        lemma_saves_in_all(vs.drop_first());
    }
}

proof fn lemma_saves_in_one_skip(vs: Seq<Verdict>, k: int)
    requires
        0 <= k < vs.len(),
        vs[k] == Verdict::Skip,
        forall|i: int| 0 <= i < vs.len() && i != k ==> #[trigger] vs[i] == Verdict::Save,
    ensures
        saves_in(vs) == vs.len() - 1,
    decreases vs.len(),
{
    let rest = vs.drop_first();
    if k == 0 {
        assert forall|i: int| 0 <= i < rest.len() implies #[trigger] rest[i] == Verdict::Save by {
            assert(rest[i] == vs[i + 1]);
        }
        lemma_saves_in_all(rest);
    } else {
        assert forall|i: int| 0 <= i < rest.len() && i != k - 1 implies #[trigger] rest[i]
            == Verdict::Save by {
            assert(rest[i] == vs[i + 1]);
        }
        assert(rest[k - 1] == vs[k]);
        lemma_saves_in_one_skip(rest, k - 1);
    }
}

/// When every request succeeds, a run makes twelve requests for each year
/// of the range, and saves as many months.
pub proof fn lemma_full_success(start_year: u16, end_year: u16)
    requires
        start_year <= end_year,
    ensures
        ({
            let n = month_count(start_year as int, end_year as int);
            let done = Run::initial(start_year, end_year).replay(Seq::new(n as nat, |i: int| Verdict::Save));
            &&& done.status == RunStatus::Completed
            &&& done.attempts == n
            &&& done.saved == n
        }),
{
    let n = month_count(start_year as int, end_year as int);
    let vs = Seq::new(n as nat, |i: int| Verdict::Save);
    lemma_saves_in_all(vs);
    lemma_run_without_abort(start_year, end_year, vs);
}

/// A transient failure on one month skips that month only: the run goes on
/// to the next month, completes every remaining one, and counts one month
/// fewer as saved.
pub proof fn lemma_transient_failure_skipped(start_year: u16, end_year: u16, vs: Seq<Verdict>, k: int)
    requires
        start_year <= end_year,
        vs.len() == month_count(start_year as int, end_year as int),
        0 <= k < vs.len(),
        vs[k] == Verdict::Skip,
        forall|i: int| 0 <= i < vs.len() && i != k ==> #[trigger] vs[i] == Verdict::Save,
    ensures
        k + 1 < vs.len() ==> ({
            let next = Run::initial(start_year, end_year).replay(vs.take(k + 1));
            &&& next.status == RunStatus::Running
            &&& next.position == k + 1
            &&& next.saved == k
        }),
        Run::initial(start_year, end_year).replay(vs).status == RunStatus::Completed,
        Run::initial(start_year, end_year).replay(vs).attempts == vs.len(),
        Run::initial(start_year, end_year).replay(vs).saved == vs.len() - 1,
{
    assert(no_abort(vs)) by {
        assert forall|i: int| 0 <= i < vs.len() implies (#[trigger] vs[i] is Save || vs[i] is Skip) by {
            if i != k {
                assert(vs[i] == Verdict::Save);
            }
        }
    }
    lemma_saves_in_one_skip(vs, k);
    lemma_run_without_abort(start_year, end_year, vs);
    if k + 1 < vs.len() {
        lemma_prefix_no_abort(Run::initial(start_year, end_year), vs.take(k + 1));
        assert forall|i: int| 0 <= i < k + 1 && i != k implies #[trigger] vs.take(k + 1)[i]
            == Verdict::Save by {
            assert(vs.take(k + 1)[i] == vs[i]);
        }
        lemma_saves_in_one_skip(vs.take(k + 1), k);
    }
}

proof fn lemma_prefix_no_abort(r: Run, vs: Seq<Verdict>)
    requires
        r.wf(),
        r.status is Running,
        vs.len() < r.total() - r.position,
        forall|i: int| 0 <= i < vs.len() ==> (#[trigger] vs[i] is Save || vs[i] is Skip),
    ensures
        r.replay(vs).status == RunStatus::Running,
        r.replay(vs).position == r.position + vs.len(),
        r.replay(vs).saved == r.saved + saves_in(vs),
    decreases vs.len(),
{
    if vs.len() > 0 {
        let rest = vs.drop_first();
        assert(vs[0] is Save || vs[0] is Skip);
        assert forall|i: int| 0 <= i < rest.len() implies (#[trigger] rest[i] is Save
            || rest[i] is Skip) by {
            assert(rest[i] == vs[i + 1]);
        }
        lemma_prefix_no_abort(r.after(vs[0]), rest);
    }
}

/// A page served with a success status, whatever its content type unless
/// it begins with `application`, stops the run at once: nothing is saved
/// for that month and no later month is requested.
pub proof fn lemma_page_stops_run(r: Run, content_type: Option<String>, vs: Seq<Verdict>)
    requires
        r.wf(),
        r.status is Running,
        !is_data_type(content_type),
    ensures
        verdict_of(Response::Delivered { content_type }) == Verdict::StopRun,
        r.after(Verdict::StopRun).status == RunStatus::Stopped,
        r.after(Verdict::StopRun).saved == r.saved,
        r.after(Verdict::StopRun).attempts == r.attempts + 1,
        r.after(Verdict::StopRun).replay(vs) == r.after(Verdict::StopRun),
{
    lemma_finished_run_stays(r.after(Verdict::StopRun), vs);
}

/// An error status fails the run at once, naming the month requested and the
/// status code; no later month is requested.
pub proof fn lemma_error_status_fails_run(r: Run, code: u16, vs: Seq<Verdict>)
    requires
        r.wf(),
        r.status is Running,
    ensures
        verdict_of(Response::Status { code }) == (Verdict::Fail { code }),
        r.after(Verdict::Fail { code }).status == (RunStatus::Failed {
            year: r.year_at(r.position as int) as u16,
            month: r.month_at(r.position as int) as u8,
            code,
        }),
        r.after(Verdict::Fail { code }).saved == r.saved,
        r.after(Verdict::Fail { code }).attempts == r.attempts + 1,
        r.after(Verdict::Fail { code }).replay(vs) == r.after(Verdict::Fail { code }),
{
    lemma_finished_run_stays(r.after(Verdict::Fail { code }), vs);
}

} // verus!
