//! Decisions of the admin panel: how table cells are edited, the deployment
//! state machine and its button, the remote host's label, the monitoring
//! periods, and how scheduled job records are read.

use crate::text::{digit_value, digits_value, starts_with, str_eq};
use std::fmt::Write;
use vstd::prelude::*;
use vstd::string::*;

verus! {

/// A column of a table, as the database explorer shows it.
#[derive(Clone, Debug)]
pub struct ColumnSchema {
    pub name: String,
    pub rust_type: String,
    pub glue_type: String,
    pub key: bool,
}

/// The input type for a column of gluesql type `glue_type`.
pub open spec fn input_type_of(glue_type: Seq<char>) -> Seq<char> {
    if glue_type == "BOOLEAN"@ {
        "checkbox"@
    } else if "UINT"@.is_prefix_of(glue_type) || "INT"@.is_prefix_of(glue_type) || "F"@.is_prefix_of(
        glue_type,
    ) {
        "number"@
    } else if glue_type == "U64"@ || glue_type == "U8"@ || glue_type == "F64"@ {
        "number"@
    } else {
        "text"@
    }
}

/// The HTML input type used to edit a column.
pub fn column_input_type(column: &ColumnSchema) -> (r: &'static str)
    ensures
        r@ == input_type_of(column.glue_type@),
{
    let t = column.glue_type.as_str();
    if str_eq(t, "BOOLEAN") {
        "checkbox"
    } else if starts_with(t, "UINT") || starts_with(t, "INT") || starts_with(t, "F") {
        "number"
    } else if str_eq(t, "U64") || str_eq(t, "U8") || str_eq(t, "F64") {
        "number"
    } else {
        "text"
    }
}

/// The page of a table that the explorer asks for: from `offset` (default
/// 0), `limit` rows (default 20).
pub fn page_params(offset: Option<usize>, limit: Option<usize>) -> (r: (usize, usize))
    ensures
        r.0 == (match offset { Some(o) => o, None => 0 }),
        r.1 == (match limit { Some(l) => l, None => 20 }),
{
    let o = match offset {
        Some(o) => o,
        None => 0,
    };
    let l = match limit {
        Some(l) => l,
        None => 20,
    };
    (o, l)
}

/// The value of the row's primary key: the value of the first key column
/// (columns and values are paired in order).
pub open spec fn key_value_of(columns: Seq<ColumnSchema>, values: Seq<String>) -> Option<Seq<char>>
    decreases columns.len(),
{
    if columns.len() == 0 || values.len() == 0 {
        None
    } else if columns[0].key {
        Some(values[0]@)
    } else {
        key_value_of(columns.drop_first(), values.drop_first())
    }
}

/// The primary key of a row shown by the explorer, none when no column is a
/// key.
pub fn row_key_value(columns: &Vec<ColumnSchema>, values: &Vec<String>) -> (r: Option<String>)
    ensures
        r matches Some(v) ==> key_value_of(columns@, values@) == Some(v@),
        r is None ==> key_value_of(columns@, values@) is None,
{
    let mut i: usize = 0;
    assert(columns@.skip(0) =~= columns@);
    assert(values@.skip(0) =~= values@);
    while i < columns.len() && i < values.len()
        invariant
            i <= columns@.len(),
            i <= values@.len(),
            key_value_of(columns@.skip(i as int), values@.skip(i as int)) == key_value_of(
                columns@,
                values@,
            ),
        decreases columns.len() - i,
    {
        proof {
            assert(columns@.skip(i as int)[0] == columns@[i as int]);
            assert(values@.skip(i as int)[0] == values@[i as int]);
            assert(columns@.skip(i as int).drop_first() =~= columns@.skip(i + 1));
            assert(values@.skip(i as int).drop_first() =~= values@.skip(i + 1));
        }
        if columns[i].key {
            return Some(values[i].clone());
        }
        i = i + 1;
    }
    None
}

/// The element id of a row in the explorer: a prefix (`a` when shown, `key`
/// when edited) followed by the row's first value.
pub fn row_selector(prefix: &str, values: &Vec<String>) -> (r: String)
    requires
        values@.len() > 0,
    ensures
        r@ == prefix@ + values@[0]@,
{
    let mut s = String::from_str(prefix);
    s.append(values[0].as_str());
    s
}

/// The address of the editor of the row with key `id` in the table at
/// `table_path`.
pub fn edit_url(table_path: &str, id: &str) -> (r: String)
    ensures
        r@ == table_path@ + "/"@ + id@,
{
    let mut s = String::from_str(table_path);
    s.append("/");
    s.append(id);
    s
}

/// The attributes of the input that edits one cell.
#[derive(Clone, Debug)]
pub struct EditCell {
    pub input_type: &'static str,
    pub name: String,
    pub value: String,
    pub readonly: bool,
    pub checked: bool,
    pub onchange: Option<&'static str>,
}

/// The input that edits a cell holding `value`: keys are read-only, a
/// checkbox is ticked when the value is `true` and writes back `true` or
/// `false` when toggled.
pub fn edit_cell(schema: &ColumnSchema, value: &String) -> (r: EditCell)
    ensures
        r.input_type@ == input_type_of(schema.glue_type@),
        r.name@ == schema.name@,
        r.value@ == value@,
        r.readonly == schema.key,
        r.checked == (value@ == "true"@),
        (r.onchange is Some) == (input_type_of(schema.glue_type@) == "checkbox"@),
        r.onchange matches Some(s) ==> s@ == "this.value = this.checked ? 'true' : 'false'"@,
{
    let input_type = column_input_type(schema);
    let checked = str_eq(value.as_str(), "true");
    let onchange = if str_eq(input_type, "checkbox") {
        Some("this.value = this.checked ? 'true' : 'false'")
    } else {
        None
    };
    EditCell {
        input_type,
        name: schema.name.clone(),
        value: value.clone(),
        readonly: schema.key,
        checked,
        onchange,
    }
}

/// Where a deployment to the remote host stands.
#[derive(Debug, PartialEq, Eq, Clone, Copy)]
pub enum DeploymentState {
    Idle,
    Building,
    Connecting,
    Uploading,
    Success,
    Failure,
    Already,
}

/// What the deploy button shows.
#[derive(Debug, Clone, Copy)]
pub struct DeployButton {
    pub label: &'static str,
    pub running: bool,
    pub trigger: &'static str,
}

/// Whether a deployment is under way.
pub open spec fn deploying(state: DeploymentState) -> bool {
    state is Building || state is Connecting || state is Uploading
}

impl DeploymentState {
    /// The state after a request to deploy, and whether a deployment starts.
    pub open spec fn after_request(self) -> (DeploymentState, bool) {
        if self is Idle {
            (DeploymentState::Building, true)
        } else {
            (self, false)
        }
    }

    /// The state after the release build ends.
    pub open spec fn after_build(self, built: bool) -> DeploymentState {
        if built {
            DeploymentState::Connecting
        } else {
            DeploymentState::Failure
        }
    }

    /// The state once the remote host is reached.
    pub open spec fn after_connect(self) -> DeploymentState {
        DeploymentState::Uploading
    }

    /// The state after the upload ends.
    pub open spec fn after_upload(self, uploaded: bool) -> DeploymentState {
        if uploaded {
            DeploymentState::Success
        } else {
            DeploymentState::Failure
        }
    }

    /// The state at start-up: a process that was itself deployed cannot
    /// deploy again.
    pub fn initial(deployed: bool) -> (r: Self)
        ensures
            r == (if deployed { DeploymentState::Already } else { DeploymentState::Idle }),
    {
        if deployed {
            DeploymentState::Already
        } else {
            DeploymentState::Idle
        }
    }

    pub fn already(self) -> (r: bool)
        ensures
            r == (self is Already),
    {
        match self {
            DeploymentState::Already => true,
            _ => false,
        }
    }

    /// Whether a new deployment may start.
    pub fn ready(self) -> (r: bool)
        ensures
            r == (self is Idle || self is Success || self is Failure),
    {
        !self.already() && match self {
            DeploymentState::Idle | DeploymentState::Success | DeploymentState::Failure => true,
            _ => false,
        }
    }

    /// The deploy button, none for a deployed process; while a deployment
    /// runs the button is disabled and refreshes itself every second.
    pub fn button(self) -> (r: Option<DeployButton>)
        ensures
            (r is None) == (self is Already),
            r matches Some(b) ==> {
                &&& b.running == deploying(self)
                &&& b.trigger@ == (if deploying(self) { "load delay:1s"@ } else { "click"@ })
                &&& b.label@ == (match self {
                    DeploymentState::Building => "Building"@,
                    DeploymentState::Connecting => "Connecting"@,
                    DeploymentState::Uploading => "Uploading"@,
                    DeploymentState::Failure => "Failed. Retry?"@,
                    DeploymentState::Idle => "Deploy"@,
                    _ => "Deployed!"@,
                })
            },
    {
        let label = match self {
            DeploymentState::Building => "Building",
            DeploymentState::Connecting => "Connecting",
            DeploymentState::Uploading => "Uploading",
            DeploymentState::Failure => "Failed. Retry?",
            DeploymentState::Idle => "Deploy",
            DeploymentState::Success => "Deployed!",
            DeploymentState::Already => {
                return None;
            },
        };
        let running = match self {
            DeploymentState::Building | DeploymentState::Connecting | DeploymentState::Uploading => true,
            _ => false,
        };
        let trigger = if running {
            "load delay:1s"
        } else {
            "click"
        };
        Some(DeployButton { label, running, trigger })
    }

    /// A request to deploy: an idle host starts building (the flag tells the
    /// caller to start the job); otherwise nothing changes.
    pub fn on_deploy_request(self) -> (r: (DeploymentState, bool))
        ensures
            self is Idle ==> r == (DeploymentState::Building, true),
            !(self is Idle) ==> r == (self, false),
            r == self.after_request(),
    {
        match self {
            DeploymentState::Idle => (DeploymentState::Building, true),
            _ => (self, false),
        }
    }

    /// The state once the release build ends: a failed build fails the
    /// deployment, a successful one goes on to connect to the remote host.
    pub fn on_build_finished(self, built: bool) -> (r: DeploymentState)
        ensures
            r == (if built { DeploymentState::Connecting } else { DeploymentState::Failure }),
            r == self.after_build(built),
    {
        if built {
            DeploymentState::Connecting
        } else {
            DeploymentState::Failure
        }
    }

    /// The state once the upload to the remote host ends.
    pub fn on_upload_finished(self, uploaded: bool) -> (r: DeploymentState)
        ensures
            r == (if uploaded { DeploymentState::Success } else { DeploymentState::Failure }),
            r == self.after_upload(uploaded),
    {
        if uploaded {
            DeploymentState::Success
        } else {
            DeploymentState::Failure
        }
    }

    /// The state once the remote host is reached: the binary is uploaded.
    pub fn on_connected(self) -> (r: DeploymentState)
        ensures
            r == self.after_connect(),
    {
        DeploymentState::Uploading
    }
}

/// The deploy button runs (disabled, refreshing itself every second) exactly
/// while a deployment is under way: in the state a request starts from an
/// idle host, after a successful build while the remote host is reached,
/// and during the upload. It rests when idle, after a failure (of the build
/// or the upload), after success, and a deployed process has none.
pub proof fn lemma_button_runs_while_deploying(s: DeploymentState, built: bool, uploaded: bool)
    ensures
        deploying(DeploymentState::Idle.after_request().0),
        deploying(s.after_build(true)),
        deploying(s.after_connect()),
        !deploying(s.after_build(false)),
        !deploying(s.after_upload(uploaded)),
        !deploying(DeploymentState::Idle),
        !deploying(DeploymentState::Already),
        deploying(s) <==> (exists|t: DeploymentState|
            s == t.after_build(true) || s == t.after_connect() || s == DeploymentState::Idle.after_request().0),
{
    if deploying(s) {
        assert(s == s.after_build(true) || s == s.after_connect() || s
            == DeploymentState::Idle.after_request().0);
    }
}

/// Where the remote host's deployment stands.
#[derive(Debug, PartialEq, Eq, Clone, Copy)]
pub enum RemoteState {
    Idle,
    Building,
    Uploading,
    Failure,
    Success,
}

/// The label of the remote host's deploy control, and whether a deployment
/// is running (the control is then a plain label).
pub fn remote_label(state: RemoteState, running_deployment: bool) -> (r: (&'static str, bool))
    ensures
        r.1 == (state is Building || state is Uploading),
        r.0@ == (match state {
            RemoteState::Idle => if running_deployment { "Update"@ } else { "Deploy"@ },
            RemoteState::Building => "Building..."@,
            RemoteState::Uploading => "Uploading..."@,
            RemoteState::Failure => "Failed. Retry?"@,
            RemoteState::Success => "Deployed!"@,
        }),
{
    let deploying = match state {
        RemoteState::Building | RemoteState::Uploading => true,
        _ => false,
    };
    let message = match state {
        RemoteState::Idle => if running_deployment {
            "Update"
        } else {
            "Deploy"
        },
        RemoteState::Building => "Building...",
        RemoteState::Uploading => "Uploading...",
        RemoteState::Failure => "Failed. Retry?",
        RemoteState::Success => "Deployed!",
    };
    (message, deploying)
}

/// The length, in minutes, of a monitoring period name; unknown names mean
/// fifteen minutes.
pub open spec fn period_minutes_of(period: Seq<char>) -> i64 {
    if period == "5m"@ { 5 }
    else if period == "15m"@ { 15 }
    else if period == "30m"@ { 30 }
    else if period == "1h"@ { 60 }
    else if period == "2h"@ { 120 }
    else if period == "6h"@ { 360 }
    else if period == "12h"@ { 720 }
    else if period == "24h"@ { 1440 }
    else { 15 }
}

/// The named monitoring periods.
pub open spec fn is_period_name(period: Seq<char>) -> bool {
    period == "5m"@ || period == "15m"@ || period == "30m"@ || period == "1h"@ || period == "2h"@
        || period == "6h"@ || period == "12h"@ || period == "24h"@
}

proof fn lemma_digits_one(a: char)
    ensures
        digits_value(seq![a]) == digit_value(a),
{
    assert(seq![a].drop_last() =~= Seq::<char>::empty());
    assert(seq![a].last() == a);
    assert(digits_value(Seq::<char>::empty()) == 0);
}

proof fn lemma_digits_two(a: char, b: char)
    ensures
        digits_value(seq![a, b]) == digit_value(a) * 10 + digit_value(b),
{
    assert(seq![a, b].drop_last() =~= seq![a]);
    assert(seq![a, b].last() == b);
    lemma_digits_one(a);
}

/// Each named period lasts the number its name starts with, counted in
/// minutes (`m`) or hours (`h`); any other name means fifteen minutes.
pub proof fn lemma_period_lengths(period: Seq<char>)
    ensures
        is_period_name(period) ==> period.len() >= 2 && period_minutes_of(period) == digits_value(
            period.drop_last(),
        ) * (if period.last() == 'h' { 60int } else { 1int }),
        is_period_name(period) ==> period.last() == 'h' || period.last() == 'm',
        !is_period_name(period) ==> period_minutes_of(period) == 15,
{
    reveal_strlit("5m");
    reveal_strlit("15m");
    reveal_strlit("30m");
    reveal_strlit("1h");
    reveal_strlit("2h");
    reveal_strlit("6h");
    reveal_strlit("12h");
    reveal_strlit("24h");
    if period == "5m"@ {
        assert(period =~= seq!['5', 'm']);
        assert(period.drop_last() =~= seq!['5']);
        lemma_digits_one('5');
    }
    if period == "15m"@ {
        assert(period =~= seq!['1', '5', 'm']);
        assert(period.drop_last() =~= seq!['1', '5']);
        lemma_digits_two('1', '5');
    }
    if period == "30m"@ {
        assert(period =~= seq!['3', '0', 'm']);
        assert(period.drop_last() =~= seq!['3', '0']);
        lemma_digits_two('3', '0');
    }
    if period == "1h"@ {
        assert(period =~= seq!['1', 'h']);
        assert(period.drop_last() =~= seq!['1']);
        lemma_digits_one('1');
    }
    if period == "2h"@ {
        assert(period =~= seq!['2', 'h']);
        assert(period.drop_last() =~= seq!['2']);
        lemma_digits_one('2');
    }
    if period == "6h"@ {
        assert(period =~= seq!['6', 'h']);
        assert(period.drop_last() =~= seq!['6']);
        lemma_digits_one('6');
    }
    if period == "12h"@ {
        assert(period =~= seq!['1', '2', 'h']);
        assert(period.drop_last() =~= seq!['1', '2']);
        lemma_digits_two('1', '2');
    }
    if period == "24h"@ {
        assert(period =~= seq!['2', '4', 'h']);
        assert(period.drop_last() =~= seq!['2', '4']);
        lemma_digits_two('2', '4');
    }
}

/// How far back, in minutes, the monitoring chart of `period` reaches.
pub fn period_minutes(period: &str) -> (r: i64)
    ensures
        r == period_minutes_of(period@),
{
    if str_eq(period, "5m") { 5 }
    else if str_eq(period, "15m") { 15 }
    else if str_eq(period, "30m") { 30 }
    else if str_eq(period, "1h") { 60 }
    else if str_eq(period, "2h") { 120 }
    else if str_eq(period, "6h") { 360 }
    else if str_eq(period, "12h") { 720 }
    else if str_eq(period, "24h") { 1440 }
    else { 15 }
}

/// The period a monitoring query asks for: what follows `period=` at its
/// start, else fifteen minutes.
pub fn requested_period(query: &str) -> (r: String)
    ensures
        r@ == (if "period="@.is_prefix_of(query@) {
            query@.skip(7)
        } else {
            "15m"@
        }),
{
    proof {
        reveal_strlit("period=");
    }
    if starts_with(query, "period=") {
        let n = query.unicode_len();
        String::from_str(query.substring_char(7, n))
    } else {
        String::from_str("15m")
    }
}

/// The statement that deletes the system stats older than `cutoff` (a
/// formatted timestamp).
pub fn cleanup_sql(cutoff: &str) -> (r: String)
    ensures
        r@ == "DELETE FROM SystemStat WHERE timestamp < '"@ + cutoff@ + "'"@,
{
    let mut s = String::from_str("DELETE FROM SystemStat WHERE timestamp < '");
    s.append(cutoff);
    s.append("'");
    s
}

/// The text chrono writes for the UTC time `millis` milliseconds after the
/// epoch, following the strftime `pattern`; `None` when the time is out of
/// chrono's range or the pattern is not valid.
pub uninterp spec fn chrono_utc_text(millis: i64, pattern: Seq<char>) -> Option<Seq<char>>;

/// Calls chrono's `DateTime::from_timestamp_millis` and writes the UTC time
/// with `format(pattern)`. Claimed: the text depends on the two arguments
/// alone (no locale or time zone is read); what it is, is only named. An
/// invalid pattern gives `None` here rather than the panic of `to_string`.
#[verifier::external_body]
fn format_utc_millis(millis: i64, pattern: &str) -> (r: Option<String>)
    ensures
        r is Some <==> chrono_utc_text(millis, pattern@) is Some,
        r matches Some(t) ==> chrono_utc_text(millis, pattern@) == Some(t@),
{
    match chrono::DateTime::from_timestamp_millis(millis) {
        Some(t) => {
            let mut text = String::new();
            match write!(text, "{}", t.naive_utc().format(pattern)) {
                Ok(()) => Some(text),
                Err(_) => None,
            }
        },
        None => None,
    }
}

/// A day, in milliseconds.
pub const MILLIS_PER_DAY: i64 = 86_400_000;

/// The statement that removes the system stats recorded more than a day
/// before `now_millis` (milliseconds since the epoch, UTC); the cutoff is
/// written to the second. `None` when that cutoff is out of chrono's range.
pub fn cleanup_old_stats_sql(now_millis: i64) -> (r: Option<String>)
    ensures
        now_millis < i64::MIN + MILLIS_PER_DAY ==> r is None,
        now_millis >= i64::MIN + MILLIS_PER_DAY ==> match chrono_utc_text(
            (now_millis - MILLIS_PER_DAY) as i64,
            "%Y-%m-%d %H:%M:%S"@,
        ) {
            Some(c) => r matches Some(s) && s@ == "DELETE FROM SystemStat WHERE timestamp < '"@ + c
                + "'"@,
            None => r is None,
        },
{
    if now_millis < i64::MIN + MILLIS_PER_DAY {
        return None;
    }
    match format_utc_millis(now_millis - MILLIS_PER_DAY, "%Y-%m-%d %H:%M:%S") {
        Some(cutoff) => Some(cleanup_sql(cutoff.as_str())),
        None => None,
    }
}

/// The number of system stats a cleanup removed, from the store's reply:
/// the count of affected rows when the reply reports one, else nothing.
pub fn cleanup_count(affected: Option<usize>) -> (r: usize)
    ensures
        r == (match affected {
            Some(n) => n,
            None => 0,
        }),
{
    match affected {
        Some(n) => n,
        None => 0,
    }
}

/// The record of one run of a scheduled job; times are in milliseconds.
#[derive(Clone, Debug)]
pub struct ScheduledJobRecord {
    pub id: u128,
    pub name: String,
    pub start: i64,
    pub end: Option<i64>,
    pub error: Option<String>,
}

/// How a run of a scheduled job went.
#[derive(Clone, Copy, Debug, PartialEq, Eq)]
pub enum JobOutcome {
    InProgress,
    Succeeded { duration_ms: u64 },
    Failed,
}

impl ScheduledJobRecord {
    /// A run without an end is still in progress; one that ended without an
    /// error succeeded after the time between its start and end; one that
    /// ended with an error failed.
    pub fn outcome(&self) -> (r: JobOutcome)
        ensures
            match self.end {
                None => r is InProgress,
                Some(e) => if self.error is None {
                    r == (JobOutcome::Succeeded {
                        duration_ms: (if e >= self.start { e - self.start } else { self.start - e }) as u64,
                    })
                } else {
                    r is Failed
                },
            },
    {
        match self.end {
            None => JobOutcome::InProgress,
            Some(e) => match self.error {
                None => {
                    let d: i128 = (e as i128) - (self.start as i128);
                    let a: i128 = if d >= 0 { d } else { -d };
                    JobOutcome::Succeeded { duration_ms: a as u64 }
                },
                Some(_) => JobOutcome::Failed,
            },
        }
    }
}

/// The counts kept for one scheduled job: runs in progress, runs that
/// succeeded, and the end time and error of each failed run.
#[derive(Clone, Debug)]
pub struct JobCounts {
    pub in_progress: u32,
    pub finished_successfully: u32,
    pub errors: Vec<(i64, String)>,
}

impl JobCounts {
    pub fn new() -> (r: Self)
        ensures
            r.in_progress == 0,
            r.finished_successfully == 0,
            r.errors@.len() == 0,
    {
        JobCounts { in_progress: 0, finished_successfully: 0, errors: Vec::new() }
    }

    /// Counts one run of the job: a run in progress, a success (whose
    /// duration is returned, for the average), or a failure (whose end and
    /// error are kept).
    pub fn add_run(&mut self, run: ScheduledJobRecord) -> (r: Option<u64>)
        requires
            run.end is None ==> old(self).in_progress < u32::MAX,
            run.end is Some && run.error is None ==> old(self).finished_successfully < u32::MAX,
        ensures
            match run.end {
                None => r is None && final(self).in_progress == old(self).in_progress + 1
                    && final(self).finished_successfully == old(self).finished_successfully
                    && final(self).errors@ == old(self).errors@,
                Some(e) => match run.error {
                    None => r == Some(
                        (if e >= run.start { e - run.start } else { run.start - e }) as u64,
                    ) && final(self).in_progress == old(self).in_progress
                        && final(self).finished_successfully == old(self).finished_successfully + 1
                        && final(self).errors@ == old(self).errors@,
                    Some(err) => r is None && final(self).in_progress == old(self).in_progress
                        && final(self).finished_successfully == old(self).finished_successfully
                        && final(self).errors@ == old(self).errors@.push((e, err)),
                },
            },
    {
        match run.outcome() {
            JobOutcome::InProgress => {
                self.in_progress = self.in_progress + 1;
                None
            },
            JobOutcome::Succeeded { duration_ms } => {
                self.finished_successfully = self.finished_successfully + 1;
                Some(duration_ms)
            },
            JobOutcome::Failed => {
                match (run.end, run.error) {
                    (Some(e), Some(err)) => {
                        self.errors.push((e, err));
                    },
                    _ => {},
                }
                None
            },
        }
    }
}

/// Where the next page of the latest logs starts: none when this page came
/// back empty.
pub fn next_info_offset(offset: usize, lines_on_page: usize) -> (r: Option<usize>)
    requires
        lines_on_page > 0 ==> offset + 20 <= usize::MAX,
    ensures
        r == (if lines_on_page > 0 { Some((offset + 20) as usize) } else { None::<usize> }),
{
    if lines_on_page > 0 {
        Some(offset + 20)
    } else {
        None
    }
}

} // verus!
