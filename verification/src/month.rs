//! The month aggregator: decomposes a (year, month) request into one
//! cacheable query per calendar day, merges the non-empty results under
//! date headers, reports the merged artifact as a success even when empty,
//! and caches it under the month's own key.

use vstd::prelude::*;
use vstd::string::StringExecFns;
use crate::cache::{spec_lookup, CommandCache, EntryModel};
use crate::calendar::{
    date_le, date_succ_opt, format_date, month_first_day, month_last_day, spec_date_str,
    spec_date_succ, spec_days_in_month, valid_date, Date, MAX_YEAR, MIN_YEAR,
};
use crate::facade::{
    date_report_args, execute_tock_command_cached, spec_args_key, spec_date_report_args, Executor,
};
use crate::text::{blank, is_blank, join_strings, spec_dec, spec_join, u32_to_string};
use crate::types::{CommandResult, ResultModel};

verus! {

/// The month's own cache fingerprint, namespaced apart from every per-day
/// query key.
pub open spec fn spec_month_key(year: u32, month: u32) -> Seq<char> {
    "month_report_"@ + spec_dec(year as nat) + "_"@ + spec_dec(month as nat)
}

/// Builds the month's cache key.
pub fn month_cache_key(year: u32, month: u32) -> (s: String)
    ensures
        s@ == spec_month_key(year, month),
{
    let mut s = String::from_str("month_report_");
    let y = u32_to_string(year);
    s.append(y.as_str());
    s.append("_");
    let m = u32_to_string(month);
    s.append(m.as_str());
    proof {
        assert(s@ =~= spec_month_key(year, month));
    }
    s
}

/// The error text for a year outside the accepted range, naming the year.
pub open spec fn spec_invalid_year_msg(year: u32) -> Seq<char> {
    "Invalid year: "@ + spec_dec(year as nat) + ". Year must be between 1900 and 3000."@
}

/// Renders the invalid-year error text.
pub fn invalid_year_msg(year: u32) -> (s: String)
    ensures
        s@ == spec_invalid_year_msg(year),
{
    let mut s = String::from_str("Invalid year: ");
    let y = u32_to_string(year);
    s.append(y.as_str());
    s.append(". Year must be between 1900 and 3000.");
    proof {
        assert(s@ =~= spec_invalid_year_msg(year));
    }
    s
}

/// The error text for a month outside the accepted range, naming the
/// month.
pub open spec fn spec_invalid_month_msg(month: u32) -> Seq<char> {
    "Invalid month: "@ + spec_dec(month as nat) + ". Month must be between 1 and 12."@
}

/// Renders the invalid-month error text.
pub fn invalid_month_msg(month: u32) -> (s: String)
    ensures
        s@ == spec_invalid_month_msg(month),
{
    let mut s = String::from_str("Invalid month: ");
    let m = u32_to_string(month);
    s.append(m.as_str());
    s.append(". Month must be between 1 and 12.");
    proof {
        assert(s@ =~= spec_invalid_month_msg(month));
    }
    s
}

/// One day's contribution to the merged report: a date header line
/// followed by the day's output.
pub open spec fn spec_day_section(date_str: Seq<char>, output: Seq<char>) -> Seq<char> {
    "=== "@ + date_str + " ===\n"@ + output
}

/// Whether a day's result contributes to the merged report: it succeeded
/// and its output is not just whitespace.
pub open spec fn spec_contributes(r: ResultModel) -> bool {
    r.success && !blank(r.output)
}

/// The sections of days `1..=upto` of the month, in day order, given the
/// per-day results `rs` (`rs[d - 1]` belongs to day `d`). A day whose
/// result failed or was blank contributes nothing and costs nothing.
pub open spec fn spec_sections(year: u32, month: u32, rs: Seq<ResultModel>, upto: int) -> Seq<
    Seq<char>,
>
    decreases upto,
{
    if upto <= 0 {
        Seq::empty()
    } else {
        let pre = spec_sections(year, month, rs, upto - 1);
        let r = rs[upto - 1];
        if spec_contributes(r) {
            pre.push(
                spec_day_section(
                    spec_date_str(Date { year, month, day: upto as u32 }),
                    r.output,
                ),
            )
        } else {
            pre
        }
    }
}

/// The month's merged output: every day's contributed section, joined with
/// one blank line; the empty text when no day contributed.
pub open spec fn spec_month_output(year: u32, month: u32, rs: Seq<ResultModel>) -> Seq<char> {
    spec_join(
        spec_sections(year, month, rs, spec_days_in_month(year as int, month as int)),
        "\n\n"@,
    )
}

proof fn lemma_sections_extend(year: u32, month: u32, rs: Seq<ResultModel>, r: ResultModel, upto: int)
    requires
        0 <= upto <= rs.len(),
    ensures
        spec_sections(year, month, rs.push(r), upto) == spec_sections(year, month, rs, upto),
    decreases upto,
{
    if upto > 0 {
        lemma_sections_extend(year, month, rs, r, upto - 1);
    }
}

/// Whether the year and month are inside the accepted request range.
pub open spec fn spec_valid_request(year: u32, month: u32) -> bool {
    MIN_YEAR <= year <= MAX_YEAR && 1 <= month <= 12
}

/// The cache fingerprint of day `d`'s query within the month.
pub open spec fn spec_day_key(year: u32, month: u32, d: int) -> Seq<char> {
    spec_args_key(spec_date_report_args(spec_date_str(Date { year, month, day: d as u32 })))
}

/// Whether `k` is the fingerprint of one of the month's day queries.
pub open spec fn spec_is_month_day_key(year: u32, month: u32, k: Seq<char>) -> bool {
    exists|d: int|
        1 <= d <= spec_days_in_month(year as int, month as int) && k == #[trigger] spec_day_key(
            year,
            month,
            d,
        )
}

/// Produces the merged report for one calendar month. The year must lie in
/// [1900, 3000] and the month in [1, 12]; otherwise the request fails with
/// an error naming the offending field and the cache is untouched. A fresh
/// cached month is returned as is. Otherwise every day of the month is
/// queried through the cache-aware façade — a failed or blank day
/// contributes nothing and does not abort the iteration — and the merged
/// artifact, always a success (an empty month is not an error), is cached
/// under the month's key.
pub fn get_activities_for_month<E: Executor>(
    executor: &mut E,
    cache: &mut CommandCache,
    year: u32,
    month: u32,
    now_ms: u64,
) -> (r: CommandResult)
    requires
        old(cache).wf(),
    ensures
        final(cache).wf(),
        final(cache).spec_ttl_ms() == old(cache).spec_ttl_ms(),
        !(MIN_YEAR <= year <= MAX_YEAR) ==> !r@.success && r@.output.len() == 0 && r@.error
            == Some(spec_invalid_year_msg(year)) && final(cache)@ == old(cache)@,
        (MIN_YEAR <= year <= MAX_YEAR) && !(1 <= month <= 12) ==> !r@.success && r@.output.len()
            == 0 && r@.error == Some(spec_invalid_month_msg(month)) && final(cache)@ == old(
            cache,
        )@,
        spec_valid_request(year, month) ==> (match spec_lookup(
            old(cache)@,
            spec_month_key(year, month),
            now_ms,
            old(cache).spec_ttl_ms(),
        ) {
            Some(v) => r@ == v && final(cache)@ == old(cache)@,
            None => {
                &&& r@.success
                &&& r@.error is None
                &&& exists|rs: Seq<ResultModel>|
                    rs.len() == spec_days_in_month(year as int, month as int) && r@.output
                        == #[trigger] spec_month_output(year, month, rs)
                &&& final(cache)@.contains_key(spec_month_key(year, month))
                &&& final(cache)@[spec_month_key(year, month)] == EntryModel {
                    result: r@,
                    inserted_at_ms: now_ms,
                }
                &&& forall|k: Seq<char>| #[trigger] final(cache)@.contains_key(k) ==> k
                    == spec_month_key(year, month) || spec_is_month_day_key(year, month, k)
                    || old(cache)@.contains_key(k)
                &&& forall|k: Seq<char>|
                    #[trigger] old(cache)@.contains_key(k) && k != spec_month_key(year, month)
                        && !spec_is_month_day_key(year, month, k)
                        ==> final(cache)@.contains_key(k) && final(cache)@[k] == old(cache)@[k]
            },
        }),
{
    if year < MIN_YEAR || year > MAX_YEAR {
        return CommandResult {
            success: false,
            output: String::new(),
            error: Some(invalid_year_msg(year)),
        };
    }
    if month < 1 || month > 12 {
        return CommandResult {
            success: false,
            output: String::new(),
            error: Some(invalid_month_msg(month)),
        };
    }
    let first_day = month_first_day(year, month);
    let last_day = month_last_day(year, month);

    let cache_key = month_cache_key(year, month);
    match cache.get(cache_key.as_str(), now_ms) {
        Some(cached_result) => {
            return cached_result;
        },
        None => {},
    }

    let ghost dim = spec_days_in_month(year as int, month as int);
    let ghost ttl0 = cache.spec_ttl_ms();
    let ghost m0 = cache@;
    let mut sections: Vec<String> = Vec::new();
    let ghost mut day_results: Seq<ResultModel> = Seq::empty();
    let mut current_date = first_day;

    while date_le(current_date, last_day)
        invariant
            cache.wf(),
            cache.spec_ttl_ms() == ttl0,
            MIN_YEAR <= year <= MAX_YEAR,
            1 <= month <= 12,
            dim == spec_days_in_month(year as int, month as int),
            1 <= dim <= 31,
            last_day == (Date { year, month, day: dim as u32 }),
            day_results.len() <= dim,
            day_results.len() < dim ==> current_date == (Date {
                year,
                month,
                day: (day_results.len() + 1) as u32,
            }),
            day_results.len() == dim ==> current_date == spec_date_succ(last_day),
            valid_date(current_date),
            sections.deep_view() == spec_sections(
                year,
                month,
                day_results,
                day_results.len() as int,
            ),
            forall|k: Seq<char>| #[trigger] cache@.contains_key(k) ==> m0.contains_key(k) || (
            exists|d: int| 1 <= d <= day_results.len() && k == #[trigger] spec_day_key(
                year,
                month,
                d,
            )),
            forall|k: Seq<char>|
                #[trigger] m0.contains_key(k) && !spec_is_month_day_key(year, month, k)
                    ==> cache@.contains_key(k) && cache@[k] == m0[k],
        ensures
            day_results.len() == dim,
            sections.deep_view() == spec_sections(year, month, day_results, dim),
            cache.wf(),
            cache.spec_ttl_ms() == ttl0,
            forall|k: Seq<char>| #[trigger] cache@.contains_key(k) ==> m0.contains_key(k)
                || spec_is_month_day_key(year, month, k),
            forall|k: Seq<char>|
                #[trigger] m0.contains_key(k) && !spec_is_month_day_key(year, month, k)
                    ==> cache@.contains_key(k) && cache@[k] == m0[k],
        decreases dim - day_results.len(),
    {
        let date_str = format_date(current_date);
        let args = date_report_args(&date_str);
        let ghost m_before = cache@;
        let ghost day_index: int = day_results.len() as int + 1;
        let result = execute_tock_command_cached(executor, cache, &args, true, now_ms);
        proof {
            assert(spec_args_key(args.deep_view()) == spec_day_key(year, month, day_index));
            assert(spec_is_month_day_key(year, month, spec_day_key(year, month, day_index)));
            assert forall|k: Seq<char>| #[trigger] cache@.contains_key(k) implies
                m0.contains_key(k) || (exists|d: int|
                    1 <= d <= day_index && k == #[trigger] spec_day_key(year, month, d)) by {
                if k != spec_day_key(year, month, day_index) {
                    assert(m_before.contains_key(k));
                }
            }
            assert forall|k: Seq<char>|
                #[trigger] m0.contains_key(k) && !spec_is_month_day_key(year, month, k) implies
                cache@.contains_key(k) && cache@[k] == m0[k] by {
                assert(k != spec_day_key(year, month, day_index));
                assert(m_before.contains_key(k) && m_before[k] == m0[k]);
            }
        }

        if result.success && !is_blank(result.output.as_str()) {
            let mut section = String::from_str("=== ");
            section.append(date_str.as_str());
            section.append(" ===\n");
            section.append(result.output.as_str());
            proof {
                assert(section@ =~= spec_day_section(spec_date_str(current_date), result@.output));
            }
            sections.push(section);
        }
        proof {
            lemma_sections_extend(year, month, day_results, result@, day_results.len() as int);
            day_results = day_results.push(result@);
            assert(sections.deep_view() =~= spec_sections(
                year,
                month,
                day_results,
                day_results.len() as int,
            ));
        }

        match date_succ_opt(current_date) {
            Some(next_date) => {
                current_date = next_date;
            },
            None => {
                // Unreachable for a validated month: every date up to the
                // last day of year MAX_YEAR steps forward successfully.
                break;
            },
        }
    }

    let combined_output = join_strings(&sections, "\n\n");
    let result = CommandResult { success: true, output: combined_output, error: None };
    proof {
        assert(result@.output == spec_month_output(year, month, day_results));
    }
    let ghost m1 = cache@;
    cache.set(cache_key, result.duplicate(), now_ms);
    proof {
        assert forall|k: Seq<char>| #[trigger] cache@.contains_key(k) implies
            k == spec_month_key(year, month) || spec_is_month_day_key(year, month, k) || old(
                cache,
            )@.contains_key(k) by {
            if k != spec_month_key(year, month) {
                assert(m1.contains_key(k));
                if !spec_is_month_day_key(year, month, k) {
                    assert(m0.contains_key(k));
                }
            }
        }
        assert forall|k: Seq<char>|
            #[trigger] old(cache)@.contains_key(k) && k != spec_month_key(year, month)
                && !spec_is_month_day_key(year, month, k) implies cache@.contains_key(k)
            && cache@[k] == old(cache)@[k] by {
            assert(m0.contains_key(k) && m0[k] == old(cache)@[k]);
            assert(m1.contains_key(k) && m1[k] == m0[k]);
        }
    }
    result
}

/// Law: a month in which no day contributed — every day's query failed or
/// produced only whitespace — merges to the empty output (and the month is
/// still reported as a success by the aggregator).
pub proof fn lemma_empty_month_output(year: u32, month: u32, rs: Seq<ResultModel>)
    requires
        rs.len() == spec_days_in_month(year as int, month as int),
        forall|d: int| 0 <= d < rs.len() ==> !spec_contributes(#[trigger] rs[d]),
    ensures
        spec_month_output(year, month, rs) == Seq::<char>::empty(),
{
    lemma_sections_all_skipped(year, month, rs, rs.len() as int);
}

proof fn lemma_sections_all_skipped(year: u32, month: u32, rs: Seq<ResultModel>, upto: int)
    requires
        0 <= upto <= rs.len(),
        forall|d: int| 0 <= d < upto ==> !spec_contributes(#[trigger] rs[d]),
    ensures
        spec_sections(year, month, rs, upto).len() == 0,
    decreases upto,
{
    if upto > 0 {
        lemma_sections_all_skipped(year, month, rs, upto - 1);
    }
}

/// Law: days contribute independently. If day `d`'s own result succeeded
/// with non-blank output, its section is in the month's section list, no
/// matter what any other day — earlier or later, failed or not — returned:
/// a failed day never aborts the aggregation.
pub proof fn lemma_failed_day_does_not_abort(
    year: u32,
    month: u32,
    rs: Seq<ResultModel>,
    d: int,
)
    requires
        1 <= d <= rs.len(),
        spec_contributes(rs[d - 1]),
    ensures
        spec_sections(year, month, rs, rs.len() as int).contains(
            spec_day_section(
                spec_date_str(Date { year, month, day: d as u32 }),
                rs[d - 1].output,
            ),
        ),
{
    lemma_day_section_member(year, month, rs, d, rs.len() as int);
}

proof fn lemma_day_section_member(year: u32, month: u32, rs: Seq<ResultModel>, d: int, upto: int)
    requires
        1 <= d <= upto <= rs.len(),
        spec_contributes(rs[d - 1]),
    ensures
        spec_sections(year, month, rs, upto).contains(
            spec_day_section(
                spec_date_str(Date { year, month, day: d as u32 }),
                rs[d - 1].output,
            ),
        ),
    decreases upto,
{
    let sect = spec_day_section(
        spec_date_str(Date { year, month, day: d as u32 }),
        rs[d - 1].output,
    );
    if d == upto {
        let pre = spec_sections(year, month, rs, upto - 1);
        assert(spec_sections(year, month, rs, upto)[pre.len() as int] == sect);
    } else {
        lemma_day_section_member(year, month, rs, d, upto - 1);
        let pre = spec_sections(year, month, rs, upto - 1);
        let i = choose|i: int| 0 <= i < pre.len() && pre[i] == sect;
        assert(spec_sections(year, month, rs, upto)[i] == sect);
    }
}

} // verus!
