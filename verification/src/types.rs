//! Plain data carried through the cache and the command façade.

use vstd::prelude::*;

verus! {

/// Abstract value of a [`CommandResult`]: the success flag, the output text
/// and the optional error text, with the strings as character sequences.
pub struct ResultModel {
    pub success: bool,
    pub output: Seq<char>,
    pub error: Option<Seq<char>>,
}

/// Outcome of one external query or mutation: a success flag, the textual
/// output, and optional error text. Failures are always represented as data
/// (`success == false` plus error text), never as unwound control flow.
#[derive(Debug)]
pub struct CommandResult {
    pub success: bool,
    pub output: String,
    pub error: Option<String>,
}

impl View for CommandResult {
    type V = ResultModel;

    open spec fn view(&self) -> ResultModel {
        ResultModel {
            success: self.success,
            output: self.output@,
            error: match self.error {
                Some(ref e) => Some(e@),
                None => None,
            },
        }
    }
}

impl CommandResult {
    /// Deep copy; the cache hands out copies so that its internal state can
    /// never be mutated through a caller's handle.
    pub fn duplicate(&self) -> (r: CommandResult)
        ensures
            r@ == self@,
    {
        CommandResult {
            success: self.success,
            output: self.output.clone(),
            error: match self.error {
                Some(ref e) => Some(e.clone()),
                None => None,
            },
        }
    }
}

/// One tracked activity as reported by the external tool.
#[derive(Debug)]
pub struct Activity {
    pub project: String,
    pub description: String,
    pub start_time: Option<String>,
    pub end_time: Option<String>,
    pub duration: Option<String>,
}

/// A project/description pair the user marked as a favorite.
#[derive(Debug)]
pub struct FavoriteProject {
    pub id: Option<i64>,
    pub name: String,
    pub description: String,
    pub created_at: String,
}

/// A user-configured endpoint that project lists can be fetched from or
/// reports sent to.
#[derive(Debug)]
pub struct ApiRoute {
    pub id: Option<i64>,
    pub name: String,
    pub url: String,
    pub enabled: bool,
    pub created_at: String,
}

/// Settings for automatic report sending.
#[derive(Debug)]
pub struct ReportSettings {
    pub id: Option<i64>,
    pub auto_send_enabled: bool,
    pub selected_api_route_id: Option<i64>,
    pub last_sent_at: Option<String>,
    pub updated_at: String,
}

/// A project fetched from a configured endpoint and kept locally.
#[derive(Debug)]
pub struct CachedProject {
    pub id: Option<i64>,
    pub name: String,
    pub description: String,
    pub source_api_route_id: Option<i64>,
    pub last_synced: String,
}

/// One month of calendar data kept locally, keyed by `"YYYY-MM"`.
#[derive(Debug)]
pub struct CalendarCache {
    pub id: Option<i64>,
    pub year_month: String,
    pub data: String,
    pub cached_at: String,
}

} // verus!
