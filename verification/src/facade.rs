//! The cache-aware execution façade: computes each query's fingerprint,
//! decides per call whether to consult and populate the cache, and applies
//! the write-invalidation policy — every successful mutating operation
//! clears the whole cache so a later read can never silently return
//! pre-write data.

use vstd::prelude::*;
use vstd::string::StringExecFns;
use crate::cache::{spec_lookup, spec_prune, CommandCache, EntryModel};
use crate::text::{join_strings, spec_dec, spec_join, u32_to_string};
use crate::types::{CommandResult, ResultModel};

verus! {

/// Runs one operation against the external data source and reports its
/// outcome. Nothing is assumed about what an implementation returns: every
/// contract built on top holds for every possible outcome. The application
/// implements this by invoking the external command-line tool; tests
/// implement it with scripted results.
pub trait Executor {
    fn execute(&mut self, args: &Vec<String>) -> CommandResult;
}

/// The fingerprint of a query: its argument tokens joined with single
/// spaces. Identical argument lists always give identical keys.
pub open spec fn spec_args_key(args: Seq<Seq<char>>) -> Seq<char> {
    spec_join(args, seq![' '])
}

/// Joins the argument tokens into the query's cache key.
pub fn args_cache_key(args: &Vec<String>) -> (s: String)
    ensures
        s@ == spec_args_key(args.deep_view()),
{
    proof {
        reveal_strlit(" ");
        assert(" "@ =~= seq![' ']);
    }
    join_strings(args, " ")
}

/// What one cacheable read leaves behind, whatever the executor returned:
/// on a fresh hit the cached result comes back and nothing changes; on a
/// miss the result `r` is the executor's, any stale entry under the key is
/// pruned, and `r` was stored under the key exactly when it reports
/// success — a failure is never cached.
pub open spec fn spec_cached_read_post(
    m0: Map<Seq<char>, EntryModel>,
    m1: Map<Seq<char>, EntryModel>,
    key: Seq<char>,
    r: ResultModel,
    now_ms: u64,
    ttl_ms: u64,
) -> bool {
    match spec_lookup(m0, key, now_ms, ttl_ms) {
        Some(v) => r == v && m1 == m0,
        None => {
            let pruned = spec_prune(m0, key, now_ms, ttl_ms);
            &&& r.success ==> m1 == pruned.insert(
                key,
                EntryModel { result: r, inserted_at_ms: now_ms },
            )
            &&& !r.success ==> m1 == pruned
        },
    }
}

/// Executes a query, consulting the cache when `use_cache` holds. A
/// non-cacheable call goes straight to the executor and leaves the cache
/// untouched. A cacheable call is answered from the cache on a fresh hit;
/// on a miss the executor runs and its result is stored only if it
/// reported success, so a transient failure is retried on the next
/// identical call instead of sticking for the time-to-live window.
pub fn execute_tock_command_cached<E: Executor>(
    executor: &mut E,
    cache: &mut CommandCache,
    args: &Vec<String>,
    use_cache: bool,
    now_ms: u64,
) -> (r: CommandResult)
    requires
        old(cache).wf(),
    ensures
        final(cache).wf(),
        final(cache).spec_ttl_ms() == old(cache).spec_ttl_ms(),
        !use_cache ==> final(cache)@ == old(cache)@,
        use_cache ==> spec_cached_read_post(
            old(cache)@,
            final(cache)@,
            spec_args_key(args.deep_view()),
            r@,
            now_ms,
            old(cache).spec_ttl_ms(),
        ),
{
    if use_cache {
        let cache_key = args_cache_key(args);
        match cache.get(cache_key.as_str(), now_ms) {
            Some(cached_result) => cached_result,
            None => {
                let result = executor.execute(args);
                if result.success {
                    cache.set(cache_key, result.duplicate(), now_ms);
                }
                result
            },
        }
    } else {
        executor.execute(args)
    }
}

/// Argument tokens of a `start` request.
pub open spec fn spec_start_args(
    project: Seq<char>,
    description: Seq<char>,
    time: Option<Seq<char>>,
) -> Seq<Seq<char>> {
    let base = seq!["start"@, "-p"@, project, "-d"@, description];
    match time {
        Some(t) => base + seq!["-t"@, t],
        None => base,
    }
}

/// Builds the argument tokens of a `start` request.
pub fn start_args(project: &String, description: &String, time: &Option<String>) -> (args: Vec<
    String,
>)
    ensures
        args.deep_view() == spec_start_args(project@, description@, time.deep_view()),
{
    let mut args: Vec<String> = Vec::new();
    args.push(String::from_str("start"));
    args.push(String::from_str("-p"));
    args.push(project.clone());
    args.push(String::from_str("-d"));
    args.push(description.clone());
    match time {
        Some(t) => {
            args.push(String::from_str("-t"));
            args.push(t.clone());
            proof {
                assert(args.deep_view() =~= spec_start_args(
                    project@,
                    description@,
                    time.deep_view(),
                ));
            }
        },
        None => {
            proof {
                assert(args.deep_view() =~= spec_start_args(
                    project@,
                    description@,
                    time.deep_view(),
                ));
            }
        },
    }
    args
}

/// Argument tokens of a `stop` request.
pub open spec fn spec_stop_args(time: Option<Seq<char>>) -> Seq<Seq<char>> {
    match time {
        Some(t) => seq!["stop"@, "-t"@, t],
        None => seq!["stop"@],
    }
}

/// Builds the argument tokens of a `stop` request.
pub fn stop_args(time: &Option<String>) -> (args: Vec<String>)
    ensures
        args.deep_view() == spec_stop_args(time.deep_view()),
{
    let mut args: Vec<String> = Vec::new();
    args.push(String::from_str("stop"));
    match time {
        Some(t) => {
            args.push(String::from_str("-t"));
            args.push(t.clone());
            proof {
                assert(args.deep_view() =~= spec_stop_args(time.deep_view()));
            }
        },
        None => {
            proof {
                assert(args.deep_view() =~= spec_stop_args(time.deep_view()));
            }
        },
    }
    args
}

/// Argument tokens of an `add` request: an explicit end time wins over a
/// duration; with neither, only the start is passed.
pub open spec fn spec_add_args(
    project: Seq<char>,
    description: Seq<char>,
    start: Seq<char>,
    end: Option<Seq<char>>,
    duration: Option<Seq<char>>,
) -> Seq<Seq<char>> {
    let base = seq!["add"@, "-p"@, project, "-d"@, description, "-s"@, start];
    match end {
        Some(e) => base + seq!["-e"@, e],
        None => match duration {
            Some(dur) => base + seq!["--duration"@, dur],
            None => base,
        },
    }
}

/// Builds the argument tokens of an `add` request.
pub fn add_args(
    project: &String,
    description: &String,
    start: &String,
    end: &Option<String>,
    duration: &Option<String>,
) -> (args: Vec<String>)
    ensures
        args.deep_view() == spec_add_args(
            project@,
            description@,
            start@,
            end.deep_view(),
            duration.deep_view(),
        ),
{
    let ghost target = spec_add_args(
        project@,
        description@,
        start@,
        end.deep_view(),
        duration.deep_view(),
    );
    let mut args: Vec<String> = Vec::new();
    args.push(String::from_str("add"));
    args.push(String::from_str("-p"));
    args.push(project.clone());
    args.push(String::from_str("-d"));
    args.push(description.clone());
    args.push(String::from_str("-s"));
    args.push(start.clone());
    match end {
        Some(e) => {
            args.push(String::from_str("-e"));
            args.push(e.clone());
            proof {
                assert(args.deep_view() =~= target);
            }
        },
        None => {
            match duration {
                Some(dur) => {
                    args.push(String::from_str("--duration"));
                    args.push(dur.clone());
                    proof {
                        assert(args.deep_view() =~= target);
                    }
                },
                None => {
                    proof {
                        assert(args.deep_view() =~= target);
                    }
                },
            }
        },
    }
    args
}

/// Argument tokens of a `continue` request: the optional entry index in
/// decimal, then the optional description, project and time flags.
pub open spec fn spec_continue_args(
    index: Option<u32>,
    description: Option<Seq<char>>,
    project: Option<Seq<char>>,
    time: Option<Seq<char>>,
) -> Seq<Seq<char>> {
    let base = seq!["continue"@];
    let with_index = match index {
        Some(idx) => base + seq![spec_dec(idx as nat)],
        None => base,
    };
    let with_description = match description {
        Some(d) => with_index + seq!["-d"@, d],
        None => with_index,
    };
    let with_project = match project {
        Some(p) => with_description + seq!["-p"@, p],
        None => with_description,
    };
    match time {
        Some(t) => with_project + seq!["-t"@, t],
        None => with_project,
    }
}

/// Builds the argument tokens of a `continue` request.
pub fn continue_args(
    index: &Option<u32>,
    description: &Option<String>,
    project: &Option<String>,
    time: &Option<String>,
) -> (args: Vec<String>)
    ensures
        args.deep_view() == spec_continue_args(
            *index,
            description.deep_view(),
            project.deep_view(),
            time.deep_view(),
        ),
{
    let ghost target = spec_continue_args(
        *index,
        description.deep_view(),
        project.deep_view(),
        time.deep_view(),
    );
    let mut args: Vec<String> = Vec::new();
    args.push(String::from_str("continue"));
    match index {
        Some(idx) => {
            args.push(u32_to_string(*idx));
        },
        None => {},
    }
    match description {
        Some(d) => {
            args.push(String::from_str("-d"));
            args.push(d.clone());
        },
        None => {},
    }
    match project {
        Some(p) => {
            args.push(String::from_str("-p"));
            args.push(p.clone());
        },
        None => {},
    }
    match time {
        Some(t) => {
            args.push(String::from_str("-t"));
            args.push(t.clone());
        },
        None => {},
    }
    proof {
        assert(args.deep_view() =~= target);
    }
    args
}

/// Argument tokens of the current-status query.
pub open spec fn spec_current_args() -> Seq<Seq<char>> {
    seq!["current"@]
}

/// Reports the activity currently being tracked; a cacheable read.
pub fn get_current_activity<E: Executor>(
    executor: &mut E,
    cache: &mut CommandCache,
    now_ms: u64,
) -> (r: CommandResult)
    requires
        old(cache).wf(),
    ensures
        final(cache).wf(),
        final(cache).spec_ttl_ms() == old(cache).spec_ttl_ms(),
        spec_cached_read_post(
            old(cache)@,
            final(cache)@,
            spec_args_key(spec_current_args()),
            r@,
            now_ms,
            old(cache).spec_ttl_ms(),
        ),
{
    let mut args: Vec<String> = Vec::new();
    args.push(String::from_str("current"));
    proof {
        assert(args.deep_view() =~= spec_current_args());
    }
    execute_tock_command_cached(executor, cache, &args, true, now_ms)
}

/// Argument tokens of the recent-activities query: the count, when given,
/// is passed in decimal.
pub open spec fn spec_recent_args(number: Option<u32>) -> Seq<Seq<char>> {
    match number {
        Some(n) => seq!["last"@, "-n"@, spec_dec(n as nat)],
        None => seq!["last"@],
    }
}

/// Lists the most recent activities; a cacheable read.
pub fn get_recent_activities<E: Executor>(
    executor: &mut E,
    cache: &mut CommandCache,
    number: &Option<u32>,
    now_ms: u64,
) -> (r: CommandResult)
    requires
        old(cache).wf(),
    ensures
        final(cache).wf(),
        final(cache).spec_ttl_ms() == old(cache).spec_ttl_ms(),
        spec_cached_read_post(
            old(cache)@,
            final(cache)@,
            spec_args_key(spec_recent_args(*number)),
            r@,
            now_ms,
            old(cache).spec_ttl_ms(),
        ),
{
    let mut args: Vec<String> = Vec::new();
    args.push(String::from_str("last"));
    match number {
        Some(n) => {
            args.push(String::from_str("-n"));
            args.push(u32_to_string(*n));
        },
        None => {},
    }
    proof {
        assert(args.deep_view() =~= spec_recent_args(*number));
    }
    execute_tock_command_cached(executor, cache, &args, true, now_ms)
}

/// Argument tokens of a report query: `"today"` and `"yesterday"` select
/// the relative flags, `"date"` passes the given date when one is present;
/// anything else asks for the plain report.
pub open spec fn spec_report_args(date_type: Seq<char>, date: Option<Seq<char>>) -> Seq<
    Seq<char>,
> {
    if date_type == "today"@ {
        seq!["report"@, "--today"@]
    } else if date_type == "yesterday"@ {
        seq!["report"@, "--yesterday"@]
    } else if date_type == "date"@ {
        match date {
            Some(d) => seq!["report"@, "--date"@, d],
            None => seq!["report"@],
        }
    } else {
        seq!["report"@]
    }
}

/// Fetches a report for today, yesterday or a named date; a cacheable
/// read.
pub fn get_report<E: Executor>(
    executor: &mut E,
    cache: &mut CommandCache,
    date_type: &String,
    date: &Option<String>,
    now_ms: u64,
) -> (r: CommandResult)
    requires
        old(cache).wf(),
    ensures
        final(cache).wf(),
        final(cache).spec_ttl_ms() == old(cache).spec_ttl_ms(),
        spec_cached_read_post(
            old(cache)@,
            final(cache)@,
            spec_args_key(spec_report_args(date_type@, date.deep_view())),
            r@,
            now_ms,
            old(cache).spec_ttl_ms(),
        ),
{
    let ghost target = spec_report_args(date_type@, date.deep_view());
    let mut args: Vec<String> = Vec::new();
    args.push(String::from_str("report"));
    let today = String::from_str("today");
    let yesterday = String::from_str("yesterday");
    let by_date = String::from_str("date");
    if *date_type == today {
        args.push(String::from_str("--today"));
    } else if *date_type == yesterday {
        args.push(String::from_str("--yesterday"));
    } else if *date_type == by_date {
        match date {
            Some(d) => {
                args.push(String::from_str("--date"));
                args.push(d.clone());
            },
            None => {},
        }
    }
    proof {
        assert(args.deep_view() =~= target);
    }
    execute_tock_command_cached(executor, cache, &args, true, now_ms)
}

/// Argument tokens of a single-day report query.
pub open spec fn spec_date_report_args(date: Seq<char>) -> Seq<Seq<char>> {
    seq!["report"@, "--date"@, date]
}

/// Builds the argument tokens of a single-day report query.
pub fn date_report_args(date: &String) -> (args: Vec<String>)
    ensures
        args.deep_view() == spec_date_report_args(date@),
{
    let mut args: Vec<String> = Vec::new();
    args.push(String::from_str("report"));
    args.push(String::from_str("--date"));
    args.push(date.clone());
    proof {
        assert(args.deep_view() =~= spec_date_report_args(date@));
    }
    args
}

/// Fetches the report for one named date; a cacheable read.
pub fn get_activities_for_date<E: Executor>(
    executor: &mut E,
    cache: &mut CommandCache,
    date: &String,
    now_ms: u64,
) -> (r: CommandResult)
    requires
        old(cache).wf(),
    ensures
        final(cache).wf(),
        final(cache).spec_ttl_ms() == old(cache).spec_ttl_ms(),
        spec_cached_read_post(
            old(cache)@,
            final(cache)@,
            spec_args_key(spec_date_report_args(date@)),
            r@,
            now_ms,
            old(cache).spec_ttl_ms(),
        ),
{
    let args = date_report_args(date);
    execute_tock_command_cached(executor, cache, &args, true, now_ms)
}

/// What every mutating operation guarantees: on success the whole cache
/// has been invalidated (coarse write-invalidation), on failure it is
/// exactly as it was.
pub open spec fn spec_write_post(
    m0: Map<Seq<char>, EntryModel>,
    m1: Map<Seq<char>, EntryModel>,
    r: ResultModel,
) -> bool {
    &&& r.success ==> m1 == Map::<Seq<char>, EntryModel>::empty()
    &&& !r.success ==> m1 == m0
}

/// Starts tracking an activity. A successful write invalidates the whole
/// cache, so no later read returns pre-write cached data.
pub fn start_activity<E: Executor>(
    executor: &mut E,
    cache: &mut CommandCache,
    project: &String,
    description: &String,
    time: &Option<String>,
) -> (r: CommandResult)
    requires
        old(cache).wf(),
    ensures
        final(cache).wf(),
        final(cache).spec_ttl_ms() == old(cache).spec_ttl_ms(),
        spec_write_post(old(cache)@, final(cache)@, r@),
{
    let args = start_args(project, description, time);
    let result = executor.execute(&args);
    if result.success {
        cache.invalidate();
    }
    result
}

/// Stops the running activity; a successful write invalidates the whole
/// cache.
pub fn stop_activity<E: Executor>(
    executor: &mut E,
    cache: &mut CommandCache,
    time: &Option<String>,
) -> (r: CommandResult)
    requires
        old(cache).wf(),
    ensures
        final(cache).wf(),
        final(cache).spec_ttl_ms() == old(cache).spec_ttl_ms(),
        spec_write_post(old(cache)@, final(cache)@, r@),
{
    let args = stop_args(time);
    let result = executor.execute(&args);
    if result.success {
        cache.invalidate();
    }
    result
}

/// Records a finished activity; a successful write invalidates the whole
/// cache.
pub fn add_activity<E: Executor>(
    executor: &mut E,
    cache: &mut CommandCache,
    project: &String,
    description: &String,
    start: &String,
    end: &Option<String>,
    duration: &Option<String>,
) -> (r: CommandResult)
    requires
        old(cache).wf(),
    ensures
        final(cache).wf(),
        final(cache).spec_ttl_ms() == old(cache).spec_ttl_ms(),
        spec_write_post(old(cache)@, final(cache)@, r@),
{
    let args = add_args(project, description, start, end, duration);
    let result = executor.execute(&args);
    if result.success {
        cache.invalidate();
    }
    result
}

/// Resumes an earlier activity; a successful write invalidates the whole
/// cache.
pub fn continue_activity<E: Executor>(
    executor: &mut E,
    cache: &mut CommandCache,
    index: &Option<u32>,
    description: &Option<String>,
    project: &Option<String>,
    time: &Option<String>,
) -> (r: CommandResult)
    requires
        old(cache).wf(),
    ensures
        final(cache).wf(),
        final(cache).spec_ttl_ms() == old(cache).spec_ttl_ms(),
        spec_write_post(old(cache)@, final(cache)@, r@),
{
    let args = continue_args(index, description, project, time);
    let result = executor.execute(&args);
    if result.success {
        cache.invalidate();
    }
    result
}

} // verus!
