//! Presentation of build pipelines: status words and icons, summaries of
//! steps, elapsed time, sort fields, and the path of a listing request.

use vstd::prelude::*;
use vstd::string::*;
use crate::decimal::{decimal_text, to_decimal, to_two_digits, two_digit_text};
use crate::text::{join, joined, strip_prefix, text_eq, texts, to_uppercase, uppercase, without_prefix};
use std::time::Instant;
use url::form_urlencoded;

verus! {

/// Declares `std::time::Instant`, a reading of the monotonic clock.
#[verifier::external_type_specification]
#[verifier::external_body]
pub struct ExInstant(std::time::Instant);

/// The whole seconds since `start`, by `Instant::elapsed`. The result
/// depends on the clock, so nothing is claimed about it.
#[verifier::external_body]
fn elapsed_seconds(start: Instant) -> (r: u64) {
    start.elapsed().as_secs()
}

/// The query string that `url::form_urlencoded::Serializer` makes of the
/// pairs, taken in order.
pub uninterp spec fn form_encoded(pairs: Seq<(Seq<char>, Seq<char>)>) -> Seq<char>;

/// The names and values of the pairs as texts.
pub open spec fn pair_texts(pairs: Seq<(String, String)>) -> Seq<(Seq<char>, Seq<char>)> {
    Seq::new(pairs.len(), |i: int| (pairs[i].0@, pairs[i].1@))
}

/// Serialises the pairs as a query string with
/// `url::form_urlencoded::Serializer`: a serializer on an empty string
/// takes the pairs, in order, through `extend_pairs`, and `finish` gives the
/// text. The result depends on the pairs alone and is named
/// [`form_encoded`].
#[verifier::external_body]
fn form_encode(pairs: &Vec<(String, String)>) -> (r: String)
    ensures
        r@ == form_encoded(pair_texts(pairs@)),
{
    form_urlencoded::Serializer::new(String::new()).extend_pairs(pairs).finish()
}

/// The result of a state, where it has ended.
#[derive(Debug, Clone, PartialEq, Eq)]
pub struct StateResult {
    pub name: String,
}

/// The state of a pipeline or of a step: its name and, once it has ended,
/// its result.
#[derive(Debug, Clone, PartialEq, Eq)]
pub struct PipelineState {
    pub name: String,
    pub result: Option<StateResult>,
}

/// What a pipeline was run on.
#[derive(Debug, Clone, PartialEq, Eq)]
pub struct Target {
    pub ref_name: Option<String>,
    pub target_type: Option<String>,
}

/// A pipeline as the server describes it.
#[derive(Debug, Clone, PartialEq, Eq)]
pub struct Pipeline {
    pub uuid: String,
    pub build_number: Option<i64>,
    pub state: Option<PipelineState>,
    pub created_on: Option<String>,
    pub completed_on: Option<String>,
    pub target: Option<Target>,
}

/// A step of a pipeline as the server describes it.
#[derive(Debug, Clone, PartialEq, Eq)]
pub struct PipelineStep {
    pub uuid: String,
    pub name: Option<String>,
    pub state: Option<PipelineState>,
}

/// A step as it is shown: its name and its status word.
#[derive(Debug, Clone, PartialEq, Eq)]
pub struct StepInfo {
    pub name: String,
    pub status: String,
}

/// The icon for a status word in upper case.
pub open spec fn icon_of(upper: Seq<char>) -> Seq<char> {
    if upper == "SUCCESSFUL"@ || upper == "COMPLETED"@ {
        "✅"@
    } else if upper == "IN_PROGRESS"@ || upper == "RUNNING"@ {
        "🔄"@
    } else if upper == "FAILED"@ || upper == "ERROR"@ {
        "❌"@
    } else if upper == "STOPPED"@ {
        "⏹"@
    } else if upper == "PENDING"@ || upper == "NOT_RUN"@ {
        "⏳"@
    } else if upper == "PAUSED"@ {
        "⏸"@
    } else {
        "❓"@
    }
}

/// A status word in upper case names a state that will not change.
pub open spec fn terminal(upper: Seq<char>) -> bool {
    upper == "SUCCESSFUL"@ || upper == "FAILED"@ || upper == "STOPPED"@ || upper == "ERROR"@
        || upper == "EXPIRED"@ || upper == "COMPLETED"@
}

/// The status word of a state: the name of its result where it has one,
/// else its own name; `UNKNOWN` without a state.
pub open spec fn status_word(state: Option<PipelineState>) -> Seq<char> {
    match state {
        Some(state) => match state.result {
            Some(result) => result.name@,
            None => state.name@,
        },
        None => "UNKNOWN"@,
    }
}

/// The icon for a status word that is already in upper case.
pub fn icon_for(upper: &str) -> (r: &'static str)
    ensures
        r@ == icon_of(upper@),
{
    if text_eq(upper, "SUCCESSFUL") || text_eq(upper, "COMPLETED") {
        "✅"
    } else if text_eq(upper, "IN_PROGRESS") || text_eq(upper, "RUNNING") {
        "🔄"
    } else if text_eq(upper, "FAILED") || text_eq(upper, "ERROR") {
        "❌"
    } else if text_eq(upper, "STOPPED") {
        "⏹"
    } else if text_eq(upper, "PENDING") || text_eq(upper, "NOT_RUN") {
        "⏳"
    } else if text_eq(upper, "PAUSED") {
        "⏸"
    } else {
        "❓"
    }
}

/// The icon for a status word, whatever its case.
pub fn get_status_icon(status: &str) -> (r: &'static str)
    ensures
        r@ == icon_of(uppercase(status@)),
{
    let upper = to_uppercase(status);
    icon_for(upper.as_str())
}

/// Whether a status word that is already in upper case names a state that
/// will not change.
pub fn is_terminal_word(upper: &str) -> (r: bool)
    ensures
        r == terminal(upper@),
{
    text_eq(upper, "SUCCESSFUL") || text_eq(upper, "FAILED") || text_eq(upper, "STOPPED")
        || text_eq(upper, "ERROR") || text_eq(upper, "EXPIRED") || text_eq(upper, "COMPLETED")
}

/// Whether a status word, whatever its case, names a state that will not
/// change.
pub fn is_terminal_state(status: &str) -> (r: bool)
    ensures
        r == terminal(uppercase(status@)),
{
    let upper = to_uppercase(status);
    is_terminal_word(upper.as_str())
}

fn word_of(state: &Option<PipelineState>) -> (r: String)
    ensures
        r@ == status_word(*state),
{
    match state {
        Some(state) => match &state.result {
            Some(result) => result.name.clone(),
            None => state.name.clone(),
        },
        None => String::from_str("UNKNOWN"),
    }
}

/// The status word of a step.
pub fn get_step_status(step: &PipelineStep) -> (r: String)
    ensures
        r@ == status_word(step.state),
{
    word_of(&step.state)
}

/// The status word of a pipeline.
pub fn get_pipeline_status(pipeline: &Pipeline) -> (r: String)
    ensures
        r@ == status_word(pipeline.state),
{
    word_of(&pipeline.state)
}

/// A step as one entry of a summary: its name, a space, and its icon.
pub open spec fn step_text(step: StepInfo) -> Seq<char> {
    step.name@ + " "@ + icon_of(uppercase(step.status@))
}

/// The entries of a summary.
pub open spec fn step_texts(steps: Seq<StepInfo>) -> Seq<Seq<char>> {
    Seq::new(steps.len(), |i: int| step_text(steps[i]))
}

/// The steps on one line: each with its icon, ` | ` between them.
pub fn format_steps_summary(steps: &[StepInfo]) -> (r: String)
    ensures
        r@ == joined(step_texts(steps@), " | "@),
{
    let n = steps.len();
    let mut parts: Vec<String> = Vec::new();
    let mut i: usize = 0;
    while i < n
        invariant
            i <= n,
            n == steps@.len(),
            parts@.len() == i,
            forall|j: int| 0 <= j < i ==> (#[trigger] parts@[j])@ == step_text(steps@[j]),
        decreases n - i,
    {
        let icon = get_status_icon(steps[i].status.as_str());
        let part = steps[i].name.clone().concat(" ").concat(icon);
        parts.push(part);
        i = i + 1;
    }
    proof {
        assert(texts(parts@) =~= step_texts(steps@));
    }
    join(&parts, " | ")
}

/// A time span of `secs` seconds as `MM:SS`, or as `HH:MM:SS` from one
/// hour on. Each part has at least two digits.
pub open spec fn elapsed_text(secs: u64) -> Seq<char> {
    let mins = secs / 60;
    let hours = mins / 60;
    if hours > 0 {
        two_digit_text(hours as nat) + ":"@ + two_digit_text((mins % 60) as nat) + ":"@
            + two_digit_text((secs % 60) as nat)
    } else {
        two_digit_text(mins as nat) + ":"@ + two_digit_text((secs % 60) as nat)
    }
}

/// Writes a time span given in seconds.
pub fn format_seconds(secs: u64) -> (r: String)
    ensures
        r@ == elapsed_text(secs),
{
    let mins = secs / 60;
    let hours = mins / 60;
    if hours > 0 {
        to_two_digits(hours).concat(":").concat(to_two_digits(mins % 60).as_str()).concat(
            ":",
        ).concat(to_two_digits(secs % 60).as_str())
    } else {
        to_two_digits(mins).concat(":").concat(to_two_digits(secs % 60).as_str())
    }
}

/// Writes the time that has passed since `start`, read off the clock once.
pub fn format_elapsed(start: Instant) -> (r: String)
    ensures
        exists|secs: u64| r@ == elapsed_text(secs),
{
    format_seconds(elapsed_seconds(start))
}

/// A field by which pipelines can be sorted; a leading `-` reverses the
/// order.
pub open spec fn is_sort_field(sort: Seq<char>) -> bool {
    sort == "created_on"@ || sort == "-created_on"@ || sort == "updated_on"@ || sort
        == "-updated_on"@ || sort == "build_number"@ || sort == "-build_number"@ || sort
        == "state.name"@ || sort == "-state.name"@
}

/// What is said of a sort field that does not exist.
pub open spec fn sort_field_complaint(sort: Seq<char>) -> Seq<char> {
    "Invalid sort field '"@ + sort
        + "'. Valid options: created_on, -created_on, updated_on, -updated_on, build_number, -build_number, state.name, -state.name"@
}

/// Accepts a sort field that exists, and says of any other text which
/// fields there are.
pub fn validate_sort_field(sort: &str) -> (r: Result<(), String>)
    ensures
        match r {
            Ok(()) => is_sort_field(sort@),
            Err(message) => !is_sort_field(sort@) && message@ == sort_field_complaint(sort@),
        },
{
    if text_eq(sort, "created_on") || text_eq(sort, "-created_on") || text_eq(sort, "updated_on")
        || text_eq(sort, "-updated_on") || text_eq(sort, "build_number") || text_eq(
        sort,
        "-build_number",
    ) || text_eq(sort, "state.name") || text_eq(sort, "-state.name") {
        Ok(())
    } else {
        Err(
            String::from_str("Invalid sort field '").concat(sort).concat(
                "'. Valid options: created_on, -created_on, updated_on, -updated_on, build_number, -build_number, state.name, -state.name",
            ),
        )
    }
}

/// The branch to filter by: the one given, unless it is empty.
pub open spec fn branch_filter(branch: Option<&str>) -> Option<Seq<char>> {
    match branch {
        Some(name) => if name@.len() > 0 {
            Some(name@)
        } else {
            None
        },
        None => None,
    }
}

/// The parameters of a first listing request: the page size, the sort
/// field, and a filter on the branch where one is asked for.
pub open spec fn listing_pairs(page_size: usize, sort: Seq<char>, branch: Option<Seq<char>>) -> Seq<
    (Seq<char>, Seq<char>),
> {
    let base = seq![("pagelen"@, decimal_text(page_size as nat)), ("sort"@, sort)];
    match branch {
        Some(name) => base.push(("q"@, "target.ref_name=\""@ + name + "\""@)),
        None => base,
    }
}

/// The path of a listing request. A link to the next page is used as it
/// is, without the host of the API; the first page is asked for by
/// workspace and repository, with the parameters as a query string.
pub open spec fn request_path(
    next_url: Option<String>,
    workspace: Seq<char>,
    repo_slug: Seq<char>,
    page_size: usize,
    sort: Seq<char>,
    branch: Option<Seq<char>>,
) -> Seq<char> {
    match next_url {
        Some(url) => without_prefix(url@, "https://api.bitbucket.org"@),
        None => "/2.0/repositories/"@ + workspace + "/"@ + repo_slug + "/pipelines?"@
            + form_encoded(listing_pairs(page_size, sort, branch)),
    }
}

/// Builds the path of a listing request.
pub fn build_request_path(
    next_url: &Option<String>,
    workspace: &str,
    repo_slug: &str,
    page_size: usize,
    sort: &str,
    branch: Option<&str>,
) -> (r: String)
    ensures
        r@ == request_path(
            *next_url,
            workspace@,
            repo_slug@,
            page_size,
            sort@,
            branch_filter(branch),
        ),
{
    match next_url {
        Some(url) => String::from_str(strip_prefix(url.as_str(), "https://api.bitbucket.org")),
        None => {
            let mut pairs: Vec<(String, String)> = Vec::new();
            pairs.push((String::from_str("pagelen"), to_decimal(page_size as u64)));
            pairs.push((String::from_str("sort"), String::from_str(sort)));
            match branch {
                Some(name) => {
                    if name.unicode_len() > 0 {
                        let filter = String::from_str("target.ref_name=\"").concat(name).concat(
                            "\"",
                        );
                        pairs.push((String::from_str("q"), filter));
                    }
                },
                None => {},
            }
            proof {
                assert(pair_texts(pairs@) =~= listing_pairs(
                    page_size,
                    sort@,
                    branch_filter(branch),
                ));
            }
            let query = form_encode(&pairs);
            String::from_str("/2.0/repositories/").concat(workspace).concat("/").concat(
                repo_slug,
            ).concat("/pipelines?").concat(query.as_str())
        },
    }
}

} // verus!
