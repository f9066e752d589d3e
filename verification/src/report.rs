//! Pure decision logic for saving and sending reports: which query a save
//! request turns into, what the saved file is called, which configured
//! route a send targets, and the URL and size checks made before a network
//! call. The file and network work itself stays with the application; it
//! hands plain values in and takes plain values back.

use vstd::prelude::*;
use vstd::string::StringExecFns;
use crate::text::{starts_with, str_starts_with};
use crate::types::{ApiRoute, CommandResult};

verus! {

/// Largest accepted response body from a configured endpoint, in bytes.
pub const MAX_RESPONSE_BYTES: u64 = 10000000;

/// The query a save request turns into, or the error text when the
/// request is incomplete: a `"date"` request needs its date, a `"range"`
/// request both bounds (only the start is queried), and the type must be
/// one of the four known ones.
pub open spec fn spec_save_report_plan(
    date_type: Seq<char>,
    date: Option<Seq<char>>,
    start_date: Option<Seq<char>>,
    end_date: Option<Seq<char>>,
) -> Result<Seq<Seq<char>>, Seq<char>> {
    if date_type == "today"@ {
        Ok(seq!["report"@, "--today"@])
    } else if date_type == "yesterday"@ {
        Ok(seq!["report"@, "--yesterday"@])
    } else if date_type == "date"@ {
        match date {
            Some(d) => Ok(seq!["report"@, "--date"@, d]),
            None => Err("Date is required for date type report"@),
        }
    } else if date_type == "range"@ {
        match (start_date, end_date) {
            (Some(s), Some(_e)) => Ok(seq!["report"@, "--date"@, s]),
            _ => Err("Start and end dates are required for range report"@),
        }
    } else {
        Err("Invalid date type"@)
    }
}

/// Builds the report query for a save request, or the failure to hand
/// back when the request is incomplete.
pub fn save_report_args(
    date_type: &String,
    date: &Option<String>,
    start_date: &Option<String>,
    end_date: &Option<String>,
) -> (r: Result<Vec<String>, CommandResult>)
    ensures
        (match r {
            Ok(args) => spec_save_report_plan(
                date_type@,
                date.deep_view(),
                start_date.deep_view(),
                end_date.deep_view(),
            ) == Ok::<Seq<Seq<char>>, Seq<char>>(args.deep_view()),
            Err(e) => {
                &&& spec_save_report_plan(
                    date_type@,
                    date.deep_view(),
                    start_date.deep_view(),
                    end_date.deep_view(),
                ) matches Err(m) && e@.error == Some(m)
                &&& !e@.success
                &&& e@.output.len() == 0
            },
        }),
{
    let ghost plan = spec_save_report_plan(
        date_type@,
        date.deep_view(),
        start_date.deep_view(),
        end_date.deep_view(),
    );
    let today = String::from_str("today");
    let yesterday = String::from_str("yesterday");
    let by_date = String::from_str("date");
    let range = String::from_str("range");
    let mut args: Vec<String> = Vec::new();
    args.push(String::from_str("report"));
    if *date_type == today {
        args.push(String::from_str("--today"));
        proof {
            assert(plan == Ok::<Seq<Seq<char>>, Seq<char>>(args.deep_view())) by {
                assert(args.deep_view() =~= seq!["report"@, "--today"@]);
            }
        }
        Ok(args)
    } else if *date_type == yesterday {
        args.push(String::from_str("--yesterday"));
        proof {
            assert(plan == Ok::<Seq<Seq<char>>, Seq<char>>(args.deep_view())) by {
                assert(args.deep_view() =~= seq!["report"@, "--yesterday"@]);
            }
        }
        Ok(args)
    } else if *date_type == by_date {
        match date {
            Some(d) => {
                args.push(String::from_str("--date"));
                args.push(d.clone());
                proof {
                    assert(plan == Ok::<Seq<Seq<char>>, Seq<char>>(args.deep_view())) by {
                        assert(args.deep_view() =~= seq!["report"@, "--date"@, d@]);
                    }
                }
                Ok(args)
            },
            None => Err(
                CommandResult {
                    success: false,
                    output: String::new(),
                    error: Some(String::from_str("Date is required for date type report")),
                },
            ),
        }
    } else if *date_type == range {
        match (start_date, end_date) {
            (Some(s), Some(_e)) => {
                args.push(String::from_str("--date"));
                args.push(s.clone());
                proof {
                    assert(plan == Ok::<Seq<Seq<char>>, Seq<char>>(args.deep_view())) by {
                        assert(args.deep_view() =~= seq!["report"@, "--date"@, s@]);
                    }
                }
                Ok(args)
            },
            _ => Err(
                CommandResult {
                    success: false,
                    output: String::new(),
                    error: Some(
                        String::from_str("Start and end dates are required for range report"),
                    ),
                },
            ),
        }
    } else {
        Err(
            CommandResult {
                success: false,
                output: String::new(),
                error: Some(String::from_str("Invalid date type")),
            },
        )
    }
}

/// The name of the file a report is saved under. `local_date` is the
/// calendar date the caller renders for the relative request types:
/// today's date for `"today"`, yesterday's for `"yesterday"`.
pub open spec fn spec_report_filename(
    date_type: Seq<char>,
    date: Option<Seq<char>>,
    start_date: Option<Seq<char>>,
    end_date: Option<Seq<char>>,
    local_date: Seq<char>,
) -> Seq<char> {
    if date_type == "today"@ || date_type == "yesterday"@ {
        local_date + "_tock.txt"@
    } else if date_type == "date"@ {
        match date {
            Some(d) => d + "_tock.txt"@,
            None => "report_tock.txt"@,
        }
    } else if date_type == "range"@ {
        match (start_date, end_date) {
            (Some(s), Some(e)) => s + "_"@ + e + "_tock.txt"@,
            _ => "range_tock.txt"@,
        }
    } else {
        "report_tock.txt"@
    }
}

/// Renders the file name a report is saved under.
pub fn report_filename(
    date_type: &String,
    date: &Option<String>,
    start_date: &Option<String>,
    end_date: &Option<String>,
    local_date: &String,
) -> (s: String)
    ensures
        s@ == spec_report_filename(
            date_type@,
            date.deep_view(),
            start_date.deep_view(),
            end_date.deep_view(),
            local_date@,
        ),
{
    let ghost target = spec_report_filename(
        date_type@,
        date.deep_view(),
        start_date.deep_view(),
        end_date.deep_view(),
        local_date@,
    );
    let today = String::from_str("today");
    let yesterday = String::from_str("yesterday");
    let by_date = String::from_str("date");
    let range = String::from_str("range");
    if *date_type == today || *date_type == yesterday {
        let mut s = local_date.clone();
        s.append("_tock.txt");
        proof {
            assert(s@ =~= target);
        }
        s
    } else if *date_type == by_date {
        match date {
            Some(d) => {
                let mut s = d.clone();
                s.append("_tock.txt");
                proof {
                    assert(s@ =~= target);
                }
                s
            },
            None => String::from_str("report_tock.txt"),
        }
    } else if *date_type == range {
        match (start_date, end_date) {
            (Some(st), Some(en)) => {
                let mut s = st.clone();
                s.append("_");
                s.append(en.as_str());
                s.append("_tock.txt");
                proof {
                    assert(s@ =~= target);
                }
                s
            },
            _ => String::from_str("range_tock.txt"),
        }
    } else {
        String::from_str("report_tock.txt")
    }
}

/// Checks a target URL before any network call is made: it must start
/// with `http://` or `https://`. Yields the failure to hand back when it
/// does not, nothing when it is acceptable.
pub fn validate_api_url(url: &String) -> (r: Option<CommandResult>)
    ensures
        r is None <==> (starts_with(url@, "http://"@) || starts_with(url@, "https://"@)),
        r matches Some(e) ==> !e@.success && e@.output.len() == 0 && e@.error == Some(
            "Invalid URL: must start with http:// or https://"@,
        ),
{
    if str_starts_with(url.as_str(), "http://") || str_starts_with(url.as_str(), "https://") {
        None
    } else {
        Some(
            CommandResult {
                success: false,
                output: String::new(),
                error: Some(String::from_str("Invalid URL: must start with http:// or https://")),
            },
        )
    }
}

/// Whether a response body of `len` bytes is within the accepted limit.
pub fn response_size_ok(len: u64) -> (r: bool)
    ensures
        r == (len <= MAX_RESPONSE_BYTES),
{
    len <= MAX_RESPONSE_BYTES
}

/// The position of the first configured route carrying the given
/// identifier, if any does.
pub fn find_api_route(routes: &Vec<ApiRoute>, api_route_id: i64) -> (r: Option<usize>)
    ensures
        r matches Some(i) ==> i < routes@.len() && routes@[i as int].id == Some(api_route_id)
            && (forall|j: int| 0 <= j < i ==> #[trigger] routes@[j].id != Some(api_route_id)),
        r is None ==> forall|j: int|
            0 <= j < routes@.len() ==> #[trigger] routes@[j].id != Some(api_route_id),
{
    let mut idx: usize = 0;
    while idx < routes.len()
        invariant
            idx <= routes@.len(),
            forall|j: int| 0 <= j < idx ==> #[trigger] routes@[j].id != Some(api_route_id),
        decreases routes@.len() - idx,
    {
        let hit = match routes[idx].id {
            Some(v) => v == api_route_id,
            None => false,
        };
        if hit {
            return Some(idx);
        }
        idx = idx + 1;
    }
    None
}

/// The message reported after a monthly report reached the named route.
pub open spec fn spec_sent_report_msg(name: Seq<char>) -> Seq<char> {
    "Monthly report sent successfully to "@ + name
}

/// Renders the success message for a delivered monthly report.
pub fn sent_report_msg(name: &String) -> (s: String)
    ensures
        s@ == spec_sent_report_msg(name@),
{
    let mut s = String::from_str("Monthly report sent successfully to ");
    s.append(name.as_str());
    s
}

} // verus!
