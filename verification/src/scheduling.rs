use vstd::prelude::*;
use vstd::string::*;
use std::str::FromStr;
use crate::config::Config;
use crate::error::{CustomError, CustomResult};

verus! {

/// What the program is asked to do when a schedule fires or the operator
/// says so.
#[derive(Clone, Copy, Debug, PartialEq, Eq, Structural)]
pub enum JobTask {
    RefreshTokenTask,
    /// Fetch so many items.
    DownloadFilesTask(i32),
    /// Look so many days back for at least so many items.
    SearchFilesTask(i32, usize),
}

/// The schedule of the `cron` crate: the times at which something is due.
/// It is carried from where it is read to where it is handed on; nothing in
/// it is looked at.
#[verifier::external_type_specification]
#[verifier::external_body]
pub struct ExSchedule(cron::Schedule);

/// A task and the times at which it is due.
pub struct ScheduledJob {
    pub schedule: cron::Schedule,
    pub task: JobTask,
}

/// Whether the character is one that a schedule may have between its
/// parts.
pub open spec fn is_blank(c: char) -> bool {
    c == ' ' || c == '\t' || c == '\r' || c == '\n'
}

/// Whether the character is a digit.
pub open spec fn is_digit(c: char) -> bool {
    '0' <= c && c <= '9'
}

/// The first place at or after `i` that holds no blank.
pub open spec fn skip_blanks(text: Seq<char>, i: int) -> int
    decreases text.len() - i,
{
    if 0 <= i < text.len() && is_blank(text[i]) {
        skip_blanks(text, i + 1)
    } else {
        i
    }
}

/// Whether the digits that start at `i` are zeros all.
pub open spec fn zeros_only(text: Seq<char>, i: int) -> bool
    decreases text.len() - i,
{
    if 0 <= i < text.len() && is_digit(text[i]) {
        text[i] == '0' && zeros_only(text, i + 1)
    } else {
        true
    }
}

/// Whether a stroke at `i` is followed, after blanks, by a number that is
/// zero.
pub open spec fn zero_step_at(text: Seq<char>, i: int) -> bool {
    let digits = skip_blanks(text, i + 1);
    &&& text[i] == '/'
    &&& 0 <= digits < text.len()
    &&& is_digit(text[digits])
    &&& zeros_only(text, digits)
}

/// Whether the schedule `text` asks somewhere for every zeroth time: a
/// step that no schedule can take.
pub open spec fn has_zero_step(text: Seq<char>) -> bool {
    exists|i: int| 0 <= i < text.len() && #[trigger] zero_step_at(text, i)
}

/// Whether `cron` takes `expression` for a schedule.
pub uninterp spec fn cron_accepts(expression: Seq<char>) -> bool;

/// Has `Schedule::from_str` of the `cron` crate read `expression`. Claimed:
/// a schedule comes back on the expressions that `cron_accepts` names and on
/// no others. An expression with a step of zero is kept from the call, which
/// does not return on it.
#[verifier::external_body]
fn parse_cron(expression: &str) -> (schedule: Option<cron::Schedule>)
    requires
        !has_zero_step(expression@),
    ensures
        schedule is Some <==> cron_accepts(expression@),
{
    match cron::Schedule::from_str(expression) {
        Ok(schedule) => Some(schedule),
        Err(_) => None,
    }
}

/// Whether `text` is a schedule that can be kept: it asks for no step of
/// zero, and `cron` takes it.
pub open spec fn valid_schedule(text: Seq<char>) -> bool {
    !has_zero_step(text) && cron_accepts(text)
}

/// What is said of a schedule that cannot be kept.
pub open spec fn invalid_schedule_message() -> Seq<char> {
    "invalid expression: Invalid cron expression."@
}

/// The characters of `text`, one for one.
fn chars_of(text: &str) -> (chars: Vec<char>)
    ensures
        chars@ == text@,
{
    let len = text.unicode_len();
    let mut chars: Vec<char> = Vec::new();
    let mut i: usize = 0;
    while i < len
        invariant
            len == text@.len(),
            0 <= i <= len,
            chars@ == text@.take(i as int),
        decreases len - i,
    {
        chars.push(text.get_char(i));
        assert(chars@ =~= text@.take(i + 1));
        i += 1;
    }
    assert(text@.take(len as int) =~= text@);
    chars
}

/// Whether the character is a blank.
fn blank(c: char) -> (b: bool)
    ensures
        b == is_blank(c),
{
    c == ' ' || c == '\t' || c == '\r' || c == '\n'
}

/// Whether the character is a digit.
fn digit(c: char) -> (b: bool)
    ensures
        b == is_digit(c),
{
    '0' <= c && c <= '9'
}

/// Whether a stroke at `i` is followed, after blanks, by a number that is
/// zero.
fn zero_step_follows(text: &Vec<char>, i: usize) -> (found: bool)
    requires
        i < text@.len(),
    ensures
        found == zero_step_at(text@, i as int),
{
    if text[i] != '/' {
        return false;
    }
    let len = text.len();
    let mut j: usize = i + 1;
    while j < len && blank(text[j])
        invariant
            len == text@.len(),
            i < j <= len,
            skip_blanks(text@, i + 1) == skip_blanks(text@, j as int),
        decreases len - j,
    {
        j += 1;
    }
    if j >= len || !digit(text[j]) {
        return false;
    }
    assert(skip_blanks(text@, i + 1) == j);
    let mut k: usize = j;
    while k < len && digit(text[k])
        invariant
            len == text@.len(),
            i < j <= k <= len,
            j < len,
            skip_blanks(text@, i + 1) == j,
            zeros_only(text@, j as int) == zeros_only(text@, k as int),
        decreases len - k,
    {
        if text[k] != '0' {
            assert(!zeros_only(text@, k as int));
            return false;
        }
        assert(zeros_only(text@, k as int) == zeros_only(text@, k + 1));
        k += 1;
    }
    true
}

/// Whether the schedule `expression` asks somewhere for a step of zero.
pub fn asks_zero_step(expression: &str) -> (found: bool)
    ensures
        found == has_zero_step(expression@),
{
    let text = chars_of(expression);
    let mut i: usize = 0;
    while i < text.len()
        invariant
            text@ == expression@,
            0 <= i <= text@.len(),
            forall|j: int| 0 <= j < i ==> !#[trigger] zero_step_at(text@, j),
        decreases text.len() - i,
    {
        if zero_step_follows(&text, i) {
            return true;
        }
        i += 1;
    }
    false
}

/// Reads one schedule. One that cannot be kept is refused in the words of
/// `invalid_schedule_message`.
pub fn parse_schedule(expression: &str) -> (schedule: CustomResult<cron::Schedule>)
    ensures
        schedule is Ok <==> valid_schedule(expression@),
        schedule matches Err(e) ==> e matches CustomError::Message(text) && text@
            == invalid_schedule_message(),
{
    if asks_zero_step(expression) {
        return Err(CustomError::Message("invalid expression: Invalid cron expression.".to_owned()));
    }
    match parse_cron(expression) {
        Some(schedule) => Ok(schedule),
        None => Err(
            CustomError::Message("invalid expression: Invalid cron expression.".to_owned()),
        ),
    }
}

/// The tasks of the three jobs that `config` asks for, in the order in
/// which they are set up: the token is renewed, new items are looked for,
/// items are fetched.
pub open spec fn job_tasks(config: Config) -> Seq<JobTask> {
    seq![
        JobTask::RefreshTokenTask,
        JobTask::SearchFilesTask(config.search_days_back, config.search_limit),
        JobTask::DownloadFilesTask(config.download_files_parallel),
    ]
}

/// Whether the three schedules of `config` can be kept.
pub open spec fn schedules_valid(config: Config) -> bool {
    &&& valid_schedule(config.refresh_token_schedule@)
    &&& valid_schedule(config.search_new_items_schedule@)
    &&& valid_schedule(config.download_photos_schedule@)
}

/// The tasks of `jobs`, one for one.
pub open spec fn tasks_of(jobs: Seq<ScheduledJob>) -> Seq<JobTask> {
    jobs.map_values(|job: ScheduledJob| job.task)
}

/// The jobs that `config` asks for, each with its schedule as read. They
/// are refused together where one of the schedules cannot be kept.
pub fn scheduled_jobs(config: &Config) -> (jobs: CustomResult<Vec<ScheduledJob>>)
    ensures
        match jobs {
            Ok(planned) => schedules_valid(*config) && tasks_of(planned@) == job_tasks(*config),
            Err(e) => !schedules_valid(*config) && e.message() == invalid_schedule_message(),
        },
{
    let refresh_task_schedule = match parse_schedule(config.refresh_token_schedule.as_str()) {
        Ok(schedule) => schedule,
        Err(e) => { return Err(e); },
    };
    let search_task_schedule = match parse_schedule(config.search_new_items_schedule.as_str()) {
        Ok(schedule) => schedule,
        Err(e) => { return Err(e); },
    };
    let download_task_schedule = match parse_schedule(config.download_photos_schedule.as_str()) {
        Ok(schedule) => schedule,
        Err(e) => { return Err(e); },
    };
    let mut jobs: Vec<ScheduledJob> = Vec::new();
    jobs.push(ScheduledJob { schedule: refresh_task_schedule, task: JobTask::RefreshTokenTask });
    jobs.push(
        ScheduledJob {
            schedule: search_task_schedule,
            task: JobTask::SearchFilesTask(config.search_days_back, config.search_limit),
        },
    );
    jobs.push(
        ScheduledJob {
            schedule: download_task_schedule,
            task: JobTask::DownloadFilesTask(config.download_files_parallel),
        },
    );
    assert(tasks_of(jobs@) =~= job_tasks(*config));
    Ok(jobs)
}

} // verus!
