//! Cron scheduling: expression normalization, the persistent job table's
//! logic, and rescheduling after a run.
//!
//! The table itself is modelled here and verified; storage mirrors it. The
//! next firing time of an expression comes from the cron crate through one
//! trusted item.

use vstd::prelude::*;

use crate::strings::{concat_str, is_space, is_space_char, trim_chars, trim_spec};

verus! {

broadcast use vstd::seq_lib::group_to_multiset_ensures;

/// A scheduled job, timestamps in unix seconds (UTC).
#[derive(Clone, Debug)]
pub struct CronJob {
    pub id: String,
    pub expression: String,
    pub command: String,
    pub created_at: i64,
    pub next_run: i64,
    pub last_run: Option<i64>,
    pub last_status: Option<String>,
    pub last_output: Option<String>,
}

/// Ghost model of a job record.
pub struct JobModel {
    pub id: Seq<char>,
    pub expression: Seq<char>,
    pub command: Seq<char>,
    pub created_at: int,
    pub next_run: int,
    pub last_run: Option<int>,
    pub last_status: Option<Seq<char>>,
    pub last_output: Option<Seq<char>>,
}

impl View for CronJob {
    type V = JobModel;

    open spec fn view(&self) -> JobModel {
        JobModel {
            id: self.id@,
            expression: self.expression@,
            command: self.command@,
            created_at: self.created_at as int,
            next_run: self.next_run as int,
            last_run: match self.last_run {
                Some(t) => Some(t as int),
                None => None,
            },
            last_status: match &self.last_status {
                Some(s) => Some(s@),
                None => None,
            },
            last_output: match &self.last_output {
                Some(s) => Some(s@),
                None => None,
            },
        }
    }
}

impl CronJob {
    /// A copy whose model equals this job's model.
    pub fn duplicate(&self) -> (r: CronJob)
        ensures
            r@ == self@,
    {
        CronJob {
            id: self.id.clone(),
            expression: self.expression.clone(),
            command: self.command.clone(),
            created_at: self.created_at,
            next_run: self.next_run,
            last_run: self.last_run,
            last_status: match &self.last_status {
                Some(s) => Some(s.clone()),
                None => None,
            },
            last_output: match &self.last_output {
                Some(s) => Some(s.clone()),
                None => None,
            },
        }
    }
}

/// Why a cron operation was refused.
#[derive(Clone, Debug)]
pub enum CronError {
    /// The expression does not split into 5, 6 or 7 fields; the count found.
    BadFieldCount(usize),
    /// The expression does not parse, or never fires in the future.
    Unschedulable,
    /// No job with the given id.
    NotFound,
    /// A job with the given id already exists.
    DuplicateId,
}

/// Count of whitespace-separated fields: the number of positions that start
/// a maximal run of non-space characters.
pub open spec fn field_count(s: Seq<char>) -> nat {
    Seq::new(s.len(), |i: int| i).filter(
        |i: int| !is_space_char(s[i]) && (i == 0 || is_space_char(s[i - 1])),
    ).len()
}

/// What normalization yields: a trimmed 5-field expression gains a leading
/// seconds field `"0 "`; 6- and 7-field expressions pass through trimmed.
pub open spec fn normalized_spec(s: Seq<char>) -> Seq<char> {
    if field_count(trim_spec(s)) == 5 {
        "0 "@ + trim_spec(s)
    } else {
        trim_spec(s)
    }
}

/// Normalize a cron expression to the 6/7-field form with seconds.
///
/// Accepts 5, 6 or 7 whitespace-separated fields; 5-field input is promoted
/// by prepending a zero seconds field. Any other count is rejected, and the
/// count found is reported.
pub fn normalize_expression(expression: &str) -> (r: Result<String, CronError>)
    ensures
        ({
            let n = field_count(trim_spec(expression@));
            match r {
                Ok(e) => (n == 5 || n == 6 || n == 7) && e@ == normalized_spec(expression@),
                Err(e) => !(n == 5 || n == 6 || n == 7) && (e matches CronError::BadFieldCount(c)
                    && c == n),
            }
        }),
{
    let chars = crate::strings::str_chars(expression);
    let t = trim_chars(&chars);
    let n = t.len();
    let mut count: usize = 0;
    let mut i: usize = 0;
    while i < n
        invariant
            n == t@.len(),
            i <= n,
            count == field_count_upto(t@, i as int),
            count <= i,
        decreases n - i,
    {
        proof {
            lemma_field_count_step(t@, i as int);
        }
        let starts = !is_space(t[i]) && (i == 0 || is_space(t[i - 1]));
        if starts {
            count = count + 1;
        }
        i = i + 1;
    }
    proof {
        lemma_field_count_full(t@);
    }
    let trimmed = crate::strings::chars_to_string(&t);
    if count == 5 {
        Ok(concat_str("0 ", trimmed.as_str()))
    } else if count == 6 || count == 7 {
        Ok(trimmed)
    } else {
        Err(CronError::BadFieldCount(count))
    }
}

/// The field starts among positions `[0, m)` of `s`.
pub open spec fn field_count_upto(s: Seq<char>, m: int) -> nat {
    Seq::new(s.len(), |i: int| i).take(m).filter(
        |i: int| !is_space_char(s[i]) && (i == 0 || is_space_char(s[i - 1])),
    ).len()
}

proof fn lemma_field_count_step(s: Seq<char>, i: int)
    requires
        0 <= i < s.len(),
    ensures
        field_count_upto(s, i + 1) == field_count_upto(s, i) + (if !is_space_char(s[i]) && (i == 0
            || is_space_char(s[i - 1])) {
            1int
        } else {
            0int
        }),
{
    reveal_with_fuel(Seq::filter, 2);
    let idxs = Seq::new(s.len(), |j: int| j);
    assert(idxs.take(i + 1).drop_last() =~= idxs.take(i));
    assert(idxs.take(i + 1).last() == i);
}

proof fn lemma_field_count_full(s: Seq<char>)
    ensures
        field_count_upto(s, s.len() as int) == field_count(s),
{
    let idxs = Seq::new(s.len(), |j: int| j);
    assert(idxs.take(s.len() as int) =~= idxs);
}

/// The last unix second chrono can represent (23:59:59 of the last day of
/// year 262142). Schedule searches must start strictly below it: the cron
/// crate begins its search at the following second, and chrono's datetime
/// addition panics past its maximum.
pub const MAX_SCHEDULE_INSTANT: i64 = 8210266876799;

/// The first firing time of the normalized expression `expr` strictly
/// after the instant `from` (unix seconds, UTC), or nothing when the
/// expression does not parse or never fires again.
pub uninterp spec fn cron_next_after(expr: Seq<char>, from: int) -> Option<int>;

/// Relies on the cron crate's `Schedule` (`from_str`, then `after(..).next()`)
/// with chrono's unix-time conversions: the result is determined by the
/// expression and the start instant alone, and any firing time returned is
/// strictly after the start. The start must lie strictly below chrono's
/// maximum instant, since the search adds one second to it before looking.
#[verifier::external_body]
fn schedule_next_after(expr: &str, from: i64) -> (r: Option<i64>)
    requires
        from < MAX_SCHEDULE_INSTANT,
    ensures
        r matches Some(t) ==> Some(t as int) == cron_next_after(expr@, from as int) && t > from,
        r is None ==> cron_next_after(expr@, from as int) is None,
{
    let schedule = match <cron::Schedule as std::str::FromStr>::from_str(expr) {
        Ok(s) => s,
        Err(_) => return None,
    };
    let dt = match chrono::DateTime::<chrono::Utc>::from_timestamp(from, 0) {
        Some(d) => d,
        None => return None,
    };
    schedule.after(&dt).next().map(|d| d.timestamp())
}

/// Compute the next run time for a raw expression from `from`:
/// normalization followed by the schedule search.
pub fn next_run_for(expression: &str, from: i64) -> (r: Result<i64, CronError>)
    requires
        from < MAX_SCHEDULE_INSTANT,
    ensures
        ({
            let n = field_count(trim_spec(expression@));
            let fire = cron_next_after(normalized_spec(expression@), from as int);
            match r {
                Ok(t) => (n == 5 || n == 6 || n == 7) && Some(t as int) == fire && t > from,
                Err(e) => match e {
                    CronError::BadFieldCount(c) => !(n == 5 || n == 6 || n == 7) && c == n,
                    CronError::Unschedulable => (n == 5 || n == 6 || n == 7) && fire is None,
                    _ => false,
                },
            }
        }),
{
    let normalized = match normalize_expression(expression) {
        Ok(e) => e,
        Err(e) => {
            return Err(e);
        },
    };
    match schedule_next_after(normalized.as_str(), from) {
        Some(t) => Ok(t),
        None => Err(CronError::Unschedulable),
    }
}

/// The models of a job vector.
pub open spec fn job_models(v: Seq<CronJob>) -> Seq<JobModel> {
    v.map_values(|j: CronJob| j@)
}

/// The first position holding the job with this id, or `-1`.
pub open spec fn find_job(s: Seq<JobModel>, id: Seq<char>) -> int
    decreases s.len(),
{
    if s.len() == 0 {
        -1
    } else if s[0].id == id {
        0
    } else {
        let r = find_job(s.drop_first(), id);
        if r < 0 {
            -1
        } else {
            r + 1
        }
    }
}

/// Facts about `find_job`: a non-negative result points at the id, and a
/// negative one means no element carries it.
pub proof fn lemma_find_job(s: Seq<JobModel>, id: Seq<char>)
    ensures
        find_job(s, id) >= 0 ==> {
            &&& find_job(s, id) < s.len()
            &&& s[find_job(s, id)].id == id
            &&& forall|j: int| 0 <= j < find_job(s, id) ==> (#[trigger] s[j]).id != id
        },
        find_job(s, id) < 0 ==> forall|j: int| 0 <= j < s.len() ==> (#[trigger] s[j]).id != id,
    decreases s.len(),
{
    if s.len() > 0 && s[0].id != id {
        lemma_find_job(s.drop_first(), id);
        assert(forall|j: int| 1 <= j < s.len() ==> s.drop_first()[j - 1] == #[trigger] s[j]);
    }
}

/// The in-memory model of the persistent job table. Ids are unique; the
/// storage layer mirrors exactly what these operations say.
pub struct CronTable {
    pub jobs: Vec<CronJob>,
}

impl CronTable {
    /// The table as a sequence of job models, in insertion order.
    pub open spec fn model(&self) -> Seq<JobModel> {
        job_models(self.jobs@)
    }

    /// Ids are unique.
    pub open spec fn wf(&self) -> bool {
        forall|i: int, j: int|
            0 <= i < j < self.model().len() ==> (#[trigger] self.model()[i]).id != (
            #[trigger] self.model()[j]).id
    }

    /// An empty table.
    pub fn new() -> (t: CronTable)
        ensures
            t.wf(),
            t.model() =~= Seq::<JobModel>::empty(),
    {
        let t = CronTable { jobs: Vec::new() };
        proof {
            assert(t.model() =~= Seq::<JobModel>::empty());
        }
        t
    }

    /// Find the position of a job by id.
    fn position_of(&self, id: &str) -> (r: Option<usize>)
        ensures
            match r {
                Some(i) => i == find_job(self.model(), id@) && i < self.model().len(),
                None => find_job(self.model(), id@) < 0,
            },
    {
        proof {
            lemma_find_job(self.model(), id@);
        }
        let n = self.jobs.len();
        let mut i: usize = 0;
        while i < n
            invariant
                n == self.model().len(),
                i <= n,
                forall|j: int| 0 <= j < i ==> (#[trigger] self.model()[j]).id != id@,
            decreases n - i,
        {
            if crate::strings::str_eq(self.jobs[i].id.as_str(), id) {
                proof {
                    lemma_find_job(self.model(), id@);
                    let f = find_job(self.model(), id@);
                    assert(self.model()[i as int].id == id@);
                    if f < 0 {
                        assert(self.model()[i as int].id != id@);
                    } else if f < i {
                        assert(self.model()[f].id != id@);
                    } else if f > i {
                        assert(self.model()[i as int].id != id@);
                    }
                }
                return Some(i);
            }
            i = i + 1;
        }
        None
    }

    /// Add a job with the given fresh id: compute the first firing time
    /// strictly after `now`, insert the row, and return the full record.
    ///
    /// Rejected when the id is taken, when the expression has a wrong field
    /// count, and when it parses to no future firing time.
    pub fn add_job(&mut self, now: i64, id: &str, expression: &str, command: &str) -> (r: Result<
        CronJob,
        CronError,
    >)
        requires
            old(self).wf(),
            now < MAX_SCHEDULE_INSTANT,
        ensures
            final(self).wf(),
            ({
                let n = field_count(trim_spec(expression@));
                let fire = cron_next_after(normalized_spec(expression@), now as int);
                match r {
                    Ok(job) => {
                        &&& find_job(old(self).model(), id@) < 0
                        &&& (n == 5 || n == 6 || n == 7)
                        &&& Some(job.next_run as int) == fire
                        &&& job.next_run > now
                        &&& job@.id == id@
                        &&& job@.expression == expression@
                        &&& job@.command == command@
                        &&& job@.created_at == now as int
                        &&& job@.last_run is None
                        &&& job@.last_status is None
                        &&& job@.last_output is None
                        &&& final(self).model() == old(self).model().push(job@)
                    },
                    Err(e) => {
                        &&& final(self).model() == old(self).model()
                        &&& match e {
                            CronError::DuplicateId => find_job(old(self).model(), id@) >= 0,
                            CronError::BadFieldCount(c) => !(n == 5 || n == 6 || n == 7) && c == n,
                            CronError::Unschedulable => (n == 5 || n == 6 || n == 7)
                                && fire is None,
                            _ => false,
                        }
                    },
                }
            }),
    {
        match self.position_of(id) {
            Some(_) => {
                return Err(CronError::DuplicateId);
            },
            None => {},
        }
        let next_run = match next_run_for(expression, now) {
            Ok(t) => t,
            Err(e) => {
                return Err(e);
            },
        };
        let job = CronJob {
            id: id.to_owned(),
            expression: expression.to_owned(),
            command: command.to_owned(),
            created_at: now,
            next_run,
            last_run: None,
            last_status: None,
            last_output: None,
        };
        let out = job.duplicate();
        let ghost prev = self.jobs@;
        self.jobs.push(job);
        proof {
            assert(self.model() =~= job_models(prev).push(self.jobs@[prev.len() as int]@));
            lemma_find_job(job_models(prev), id@);
            assert(forall|i: int|
                0 <= i < prev.len() ==> (#[trigger] job_models(prev)[i]).id != id@);
        }
        Ok(out)
    }

    /// Remove the job with this id; an unknown id is reported.
    pub fn remove_job(&mut self, id: &str) -> (r: Result<(), CronError>)
        requires
            old(self).wf(),
        ensures
            final(self).wf(),
            ({
                let at = find_job(old(self).model(), id@);
                match r {
                    Ok(()) => at >= 0 && final(self).model() == old(self).model().remove(at),
                    Err(e) => e is NotFound && at < 0 && final(self).model() == old(self).model(),
                }
            }),
    {
        match self.position_of(id) {
            Some(i) => {
                let ghost prev = self.jobs@;
                self.jobs.remove(i);
                proof {
                    assert(self.model() =~= job_models(prev).remove(i as int));
                }
                Ok(())
            },
            None => Err(CronError::NotFound),
        }
    }

    /// Record the outcome of one firing: recompute the next run from `now`
    /// (not from the stale scheduled time, avoiding catch-up storms), and
    /// store the run time, status and output.
    pub fn reschedule_after_run(&mut self, id: &str, success: bool, output: &str, now: i64) -> (r:
        Result<(), CronError>)
        requires
            old(self).wf(),
            now < MAX_SCHEDULE_INSTANT,
        ensures
            final(self).wf(),
            ({
                let at = find_job(old(self).model(), id@);
                match r {
                    Ok(()) => {
                        &&& at >= 0
                        &&& final(self).model().len() == old(self).model().len()
                        &&& (forall|j: int|
                            0 <= j < old(self).model().len() && j != at ==> final(self).model()[j]
                                == #[trigger] old(self).model()[j])
                        &&& ({
                            let e = final(self).model()[at];
                            let o = old(self).model()[at];
                            &&& e.id == o.id
                            &&& e.expression == o.expression
                            &&& e.command == o.command
                            &&& e.created_at == o.created_at
                            &&& Some(e.next_run) == cron_next_after(
                                normalized_spec(o.expression),
                                now as int,
                            )
                            &&& e.next_run > now
                            &&& e.last_run == Some(now as int)
                            &&& e.last_status == Some(if success {
                                "ok"@
                            } else {
                                "error"@
                            })
                            &&& e.last_output == Some(output@)
                        })
                    },
                    Err(e) => final(self).model() == old(self).model() && (match e {
                        CronError::NotFound => at < 0,
                        CronError::BadFieldCount(c) => at >= 0 && ({
                            let n = field_count(trim_spec(old(self).model()[at].expression));
                            !(n == 5 || n == 6 || n == 7) && c == n
                        }),
                        CronError::Unschedulable => at >= 0 && ({
                            let n = field_count(trim_spec(old(self).model()[at].expression));
                            (n == 5 || n == 6 || n == 7) && cron_next_after(
                                normalized_spec(old(self).model()[at].expression),
                                now as int,
                            ) is None
                        }),
                        _ => false,
                    }),
                }
            }),
    {
        let i = match self.position_of(id) {
            Some(i) => i,
            None => {
                return Err(CronError::NotFound);
            },
        };
        let next_run = match next_run_for(self.jobs[i].expression.as_str(), now) {
            Ok(t) => t,
            Err(e) => {
                return Err(e);
            },
        };
        let status: &str = if success {
            "ok"
        } else {
            "error"
        };
        let updated = CronJob {
            id: self.jobs[i].id.clone(),
            expression: self.jobs[i].expression.clone(),
            command: self.jobs[i].command.clone(),
            created_at: self.jobs[i].created_at,
            next_run,
            last_run: Some(now),
            last_status: Some(status.to_owned()),
            last_output: Some(output.to_owned()),
        };
        let ghost prev = self.jobs@;
        self.jobs[i] = updated;
        proof {
            assert(forall|j: int|
                0 <= j < prev.len() && j != i ==> final(self).model()[j] == #[trigger] job_models(
                    prev,
                )[j]);
            assert(self.model()[i as int].id == job_models(prev)[i as int].id);
            assert forall|a: int, b: int| 0 <= a < b < self.model().len() implies (
            #[trigger] self.model()[a]).id != (#[trigger] self.model()[b]).id by {
                assert(job_models(prev)[a].id != job_models(prev)[b].id);
            }
        }
        Ok(())
    }

    /// All jobs, ordered by next run time ascending.
    pub fn list_jobs(&self) -> (r: Vec<CronJob>)
        ensures
            sorted_by_next_run(job_models(r@)),
            job_models(r@).to_multiset() == self.model().to_multiset(),
    {
        let mut all: Vec<CronJob> = Vec::new();
        let n = self.jobs.len();
        let mut i: usize = 0;
        while i < n
            invariant
                n == self.jobs@.len(),
                i <= n,
                job_models(all@) == self.model().take(i as int),
            decreases n - i,
        {
            let d = self.jobs[i].duplicate();
            let ghost before = all@;
            all.push(d);
            i = i + 1;
            proof {
                assert(all@ == before.push(d));
                assert(job_models(all@) =~= job_models(before).push(d@));
                assert(self.model().take(i as int) =~= self.model().take(i as int - 1).push(
                    self.model()[i - 1],
                ));
            }
        }
        proof {
            assert(self.model().take(n as int) =~= self.model());
        }
        sort_jobs_by_next_run(all)
    }

    /// The jobs due at `now` — scheduled time reached — ordered by next
    /// run time ascending.
    pub fn due_jobs(&self, now: i64) -> (r: Vec<CronJob>)
        ensures
            sorted_by_next_run(job_models(r@)),
            job_models(r@).to_multiset() == self.model().filter(
                |j: JobModel| j.next_run <= now as int,
            ).to_multiset(),
    {
        let mut due: Vec<CronJob> = Vec::new();
        let n = self.jobs.len();
        let mut i: usize = 0;
        while i < n
            invariant
                n == self.jobs@.len(),
                i <= n,
                job_models(due@) == self.model().take(i as int).filter(
                    |j: JobModel| j.next_run <= now as int,
                ),
            decreases n - i,
        {
            proof {
                reveal_with_fuel(Seq::filter, 2);
                assert(self.model().take(i as int + 1).drop_last() =~= self.model().take(i as int));
                assert(self.model().take(i as int + 1).last() == self.model()[i as int]);
            }
            if self.jobs[i].next_run <= now {
                let ghost before = due@;
                due.push(self.jobs[i].duplicate());
                proof {
                    assert(job_models(due@) =~= job_models(before).push(self.model()[i as int]));
                }
            }
            i = i + 1;
        }
        proof {
            assert(self.model().take(n as int) =~= self.model());
        }
        sort_jobs_by_next_run(due)
    }
}

/// Ordered by scheduled time, earliest first.
pub open spec fn sorted_by_next_run(s: Seq<JobModel>) -> bool {
    forall|i: int, j: int| 0 <= i < j < s.len() ==> (#[trigger] s[i]).next_run <= (
    #[trigger] s[j]).next_run
}

/// Inserting an element anywhere adds it to the multiset.
proof fn lemma_insert_to_multiset(s: Seq<JobModel>, p: int, x: JobModel)
    requires
        0 <= p <= s.len(),
    ensures
        s.insert(p, x).to_multiset() == s.to_multiset().insert(x),
{
    let t = s.insert(p, x);
    assert(t.remove(p) =~= s);
    assert(t[p] == x);
    assert(t.to_multiset().contains(x));
    assert(t.remove(p).to_multiset() =~= t.to_multiset().remove(x));
    assert(t.to_multiset() =~= s.to_multiset().insert(x)) by {
        assert(forall|a: JobModel|
            #![all_triggers]
            t.to_multiset().count(a) == s.to_multiset().insert(x).count(a)) by {
            assert(forall|a: JobModel|
                #![all_triggers]
                s.to_multiset().count(a) == t.to_multiset().remove(x).count(a));
        }
    }
}

/// Sort a job vector by scheduled time, by insertion into a sorted prefix.
fn sort_jobs_by_next_run(v: Vec<CronJob>) -> (r: Vec<CronJob>)
    ensures
        sorted_by_next_run(job_models(r@)),
        job_models(r@).to_multiset() == job_models(v@).to_multiset(),
{
    let mut out: Vec<CronJob> = Vec::new();
    let n = v.len();
    let mut i: usize = 0;
    while i < n
        invariant
            n == v@.len(),
            i <= n,
            sorted_by_next_run(job_models(out@)),
            job_models(out@).to_multiset() == job_models(v@).take(i as int).to_multiset(),
        decreases n - i,
    {
        let item = v[i].duplicate();
        let m = out.len();
        let mut p: usize = 0;
        while p < m && out[p].next_run <= item.next_run
            invariant
                n == v@.len(),
                i < n,
                m == out@.len(),
                p <= m,
                item@ == v@[i as int]@,
                forall|k: int| 0 <= k < p ==> (#[trigger] job_models(out@)[k]).next_run
                    <= item@.next_run,
            decreases m - p,
        {
            p = p + 1;
        }
        let ghost before = out@;
        let ghost pos = p as int;
        out.insert(p, item);
        i = i + 1;
        proof {
            assert(job_models(out@) =~= job_models(before).insert(pos, v@[i - 1]@));
            lemma_insert_to_multiset(job_models(before), pos, v@[i - 1]@);
            let x = v@[i - 1]@;
            let base = job_models(v@).take(i as int - 1);
            assert(job_models(v@).take(i as int) =~= base.push(x));
            assert(base.push(x).to_multiset() =~= base.to_multiset().insert(x));
            assert(job_models(out@).to_multiset() == job_models(before).to_multiset().insert(x));
            // Sortedness: entries before the slot are no later, those after
            // were no earlier than the first such entry.
            let s2 = job_models(out@);
            assert forall|a: int, b: int| 0 <= a < b < s2.len() implies (
            #[trigger] s2[a]).next_run <= (#[trigger] s2[b]).next_run by {
                let s1 = job_models(before);
                if a < pos && b == pos {
                } else if a == pos && b > pos {
                    assert(s1[pos] == s2[b] || s1[b - 1] == s2[b]);
                    assert(s2[b] == s1[b - 1]);
                    assert(!(s1[pos].next_run <= v@[i - 1]@.next_run));
                    assert(s1[pos].next_run <= s1[b - 1].next_run || pos == b - 1);
                } else if a < pos && b > pos {
                    assert(s2[a] == s1[a] && s2[b] == s1[b - 1]);
                } else if a > pos && b > pos {
                    assert(s2[a] == s1[a - 1] && s2[b] == s1[b - 1]);
                } else {
                    assert(a < pos && b < pos);
                    assert(s2[a] == s1[a] && s2[b] == s1[b]);
                }
            }
        }
    }
    proof {
        assert(job_models(v@.take(n as int)) =~= job_models(v@));
        assert(job_models(v@).take(n as int) =~= job_models(v@));
    }
    out
}

/// Add → remove round trip: adding a job under a fresh id and then removing
/// that id leaves the table's model exactly as it was.
pub proof fn lemma_add_remove_round_trip(s: Seq<JobModel>, job: JobModel)
    requires
        find_job(s, job.id) < 0,
    ensures
        find_job(s.push(job), job.id) == s.len(),
        s.push(job).remove(find_job(s.push(job), job.id)) == s,
    decreases s.len(),
{
    lemma_find_job(s, job.id);
    lemma_find_push(s, job);
    assert(s.push(job).remove(s.len() as int) =~= s);
}

/// Pushing a job with a fresh id puts it at the end of the search order.
proof fn lemma_find_push(s: Seq<JobModel>, job: JobModel)
    requires
        forall|j: int| 0 <= j < s.len() ==> (#[trigger] s[j]).id != job.id,
    ensures
        find_job(s.push(job), job.id) == s.len(),
    decreases s.len(),
{
    if s.len() == 0 {
        assert(s.push(job)[0] == job);
    } else {
        assert(s.push(job)[0] == s[0]);
        assert(s.push(job).drop_first() =~= s.drop_first().push(job));
        assert(forall|j: int|
            0 <= j < s.drop_first().len() ==> (#[trigger] s.drop_first()[j]).id != job.id) by {
            assert(forall|j: int|
                0 <= j < s.drop_first().len() ==> s.drop_first()[j] == #[trigger] s[j + 1]);
        }
        lemma_find_push(s.drop_first(), job);
    }
}

} // verus!

