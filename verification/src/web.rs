//! The dashboard's state and the links and form targets it renders.
use vstd::prelude::*;
use vstd::string::*;
use crate::config::Catalog;
use crate::text::{decimal, lemma_trim_end_char, str_eq, trim_end_char, trim_end_matches_char, u64_to_decimal};

verus! {

/// What `urlencoding::encode` returns for a string.
pub uninterp spec fn spec_url_encode(s: Seq<char>) -> Seq<char>;

/// A character `urlencoding::encode` leaves as it is: ASCII letters and
/// digits, `-`, `_`, `.` and `~`.
pub open spec fn is_unreserved_char(c: char) -> bool {
    ('0' <= c <= '9') || ('A' <= c <= 'Z') || ('a' <= c <= 'z') || c == '-' || c == '_' || c == '.' || c == '~'
}

/// Every character of `s` is one that encoding leaves as it is.
pub open spec fn all_unreserved(s: Seq<char>) -> bool {
    forall|i: int| 0 <= i < s.len() ==> is_unreserved_char(#[trigger] s[i])
}

/// A character `urlencoding::encode` leaves in its output: ASCII letters and
/// digits, `-`, `_`, `.`, `~`, and the `%` that starts an escape.
pub open spec fn is_url_safe_char(c: char) -> bool {
    ('0' <= c <= '9') || ('A' <= c <= 'Z') || ('a' <= c <= 'z') || c == '-' || c == '_' || c == '.' || c == '~'
        || c == '%'
}

/// Calls `urlencoding::encode`, which percent-encodes every byte except
/// ASCII alphanumerics and `-`, `_`, `.`, `~` (escapes are `%` and two
/// uppercase hex digits). The contract names the result, claims that
/// every character of it is one of those or `%`, and that a string made
/// only of those characters comes back unchanged; the escaping itself is
/// left unstated.
#[verifier::external_body]
fn url_encode(s: &str) -> (r: String)
    ensures
        r@ == spec_url_encode(s@),
        forall|i: int| 0 <= i < r@.len() ==> is_url_safe_char(#[trigger] r@[i]),
        all_unreserved(s@) ==> r@ == s@,
{
    urlencoding::encode(s).into_owned()
}

/// The dashboard's storage, registered catalog and public URL prefix.
pub struct OxanaWebState<S> {
    pub storage: S,
    pub catalog: Catalog,
    pub base_path: String,
}

impl<S> OxanaWebState<S> {
    /// The state for a dashboard mounted at `base_path`; trailing slashes
    /// are dropped, so that links are `<base_path>/<page>`.
    pub fn new(storage: S, catalog: Catalog, base_path: String) -> (r: OxanaWebState<S>)
        ensures
            r.base_path@ == trim_end_char(base_path@, '/'),
            r.storage == storage,
            r.catalog == catalog,
    {
        let base = trim_end_matches_char(base_path.as_str(), '/');
        OxanaWebState { storage, catalog, base_path: base }
    }
}

/// The stored base path never ends in `/`, and is the given path without
/// its trailing slashes: a prefix of it followed only by slashes.
pub proof fn lemma_base_path_normalized(base_path: Seq<char>)
    ensures
        trim_end_char(base_path, '/').len() == 0 || trim_end_char(base_path, '/').last() != '/',
        trim_end_char(base_path, '/') =~= base_path.take(trim_end_char(base_path, '/').len() as int),
        forall|j: int| trim_end_char(base_path, '/').len() <= j < base_path.len() ==> base_path[j] == '/',
{
    lemma_trim_end_char(base_path, '/');
}

/// `base` followed by `parts`, as a new string.
fn concat3(a: &str, b: &str, c: &str) -> (r: String)
    ensures
        r@ == a@ + b@ + c@,
{
    String::from_str(a).concat(b).concat(c)
}

/// The page of a queue: `<base>/queues/<encoded queue>`.
pub fn queue_path(base_path: &str, queue: &str) -> (r: String)
    ensures
        r@ == base_path@ + "/queues/"@ + spec_url_encode(queue@),
        all_unreserved(queue@) ==> r@ == base_path@ + "/queues/"@ + queue@,
{
    let q = url_encode(queue);
    concat3(base_path, "/queues/", q.as_str())
}

/// A queue control: `<base>/queues/<encoded queue>/<action>`, for `pause`,
/// `unpause`, `concurrency` and `wipe`.
pub fn queue_action_path(base_path: &str, queue: &str, action: &str) -> (r: String)
    ensures
        r@ == base_path@ + "/queues/"@ + spec_url_encode(queue@) + "/"@ + action@,
        all_unreserved(queue@) ==> r@ == base_path@ + "/queues/"@ + queue@ + "/"@ + action@,
{
    let q = url_encode(queue);
    concat3(base_path, "/queues/", q.as_str()).concat("/").concat(action)
}

/// The page of a job: `<base>/jobs/<encoded job id>`.
pub fn job_path(base_path: &str, job_id: &str) -> (r: String)
    ensures
        r@ == base_path@ + "/jobs/"@ + spec_url_encode(job_id@),
        all_unreserved(job_id@) ==> r@ == base_path@ + "/jobs/"@ + job_id@,
{
    let id = url_encode(job_id);
    concat3(base_path, "/jobs/", id.as_str())
}

/// The form target that deletes a job from a queue:
/// `<base>/queues/<encoded queue>/jobs/<encoded job id>/delete`.
pub fn delete_job_path(base_path: &str, queue: &str, job_id: &str) -> (r: String)
    ensures
        r@ == base_path@ + "/queues/"@ + spec_url_encode(queue@) + "/jobs/"@ + spec_url_encode(job_id@)
            + "/delete"@,
        all_unreserved(queue@) && all_unreserved(job_id@) ==> r@ == base_path@ + "/queues/"@ + queue@ + "/jobs/"@
            + job_id@ + "/delete"@,
{
    let q = url_encode(queue);
    let id = url_encode(job_id);
    concat3(base_path, "/queues/", q.as_str()).concat("/jobs/").concat(id.as_str()).concat("/delete")
}

/// The metrics page of a worker: `<base>/metrics/job?worker=<encoded name>`.
pub fn worker_metrics_path(base_path: &str, worker: &str) -> (r: String)
    ensures
        r@ == base_path@ + "/metrics/job?worker="@ + spec_url_encode(worker@),
        all_unreserved(worker@) ==> r@ == base_path@ + "/metrics/job?worker="@ + worker@,
{
    let w = url_encode(worker);
    concat3(base_path, "/metrics/job?worker=", w.as_str())
}

/// An encoded segment holds no `/`, `?`, `#` or `&`: a link keeps its
/// queue or job id in one path segment, whatever the id holds.
pub proof fn lemma_encoded_segment_is_one_segment(encoded: Seq<char>)
    requires
        forall|i: int| 0 <= i < encoded.len() ==> is_url_safe_char(#[trigger] encoded[i]),
    ensures
        !encoded.contains('/'),
        !encoded.contains('?'),
        !encoded.contains('#'),
        !encoded.contains('&'),
{
}

} // verus!

verus! {

/// `s` with each `<` written as the JSON escape `\u003c`.
pub open spec fn escape_lt(s: Seq<char>) -> Seq<char>
    decreases s.len(),
{
    if s.len() == 0 {
        Seq::empty()
    } else {
        escape_lt(s.drop_last()) + if s.last() == '<' {
            "\\u003c"@
        } else {
            seq![s.last()]
        }
    }
}

/// JSON placed in a script element: every `<` is replaced by the JSON
/// escape `\u003c`, so that the JSON cannot close the element.
pub fn chart_json(json: &str) -> (r: String)
    ensures
        r@ == escape_lt(json@),
{
    let n = crate::text::char_count(json);
    let mut out = String::new();
    let mut i: usize = 0;
    while i < n
        invariant
            n == json@.len(),
            i <= n,
            out@ == escape_lt(json@.take(i as int)),
        decreases n - i,
    {
        proof {
            assert(json@.take(i + 1).drop_last() =~= json@.take(i as int));
            assert(json@.take(i + 1).last() == json@[i as int]);
        }
        if json.get_char(i) == '<' {
            out.append("\\u003c");
        } else {
            out.append(json.substring_char(i, i + 1));
            proof {
                assert(json@.subrange(i as int, i + 1) =~= seq![json@[i as int]]);
            }
        }
        i = i + 1;
    }
    proof {
        assert(json@.take(n as int) =~= json@);
    }
    out
}

/// The escaped JSON holds no `<`.
pub proof fn lemma_escaped_json_has_no_lt(s: Seq<char>)
    ensures
        !escape_lt(s).contains('<'),
    decreases s.len(),
{
    reveal_strlit("\\u003c");
    if s.len() > 0 {
        lemma_escaped_json_has_no_lt(s.drop_last());
        let prev = escape_lt(s.drop_last());
        let tail = if s.last() == '<' {
            "\\u003c"@
        } else {
            seq![s.last()]
        };
        assert forall|i: int| 0 <= i < escape_lt(s).len() implies escape_lt(s)[i] != '<' by {
            if i < prev.len() {
                assert(escape_lt(s)[i] == prev[i]);
            } else {
                assert(escape_lt(s)[i] == tail[i - prev.len()]);
            }
        }
    }
}

/// The link of the dashboard's overview tab: the base path, or `/` when the
/// dashboard is mounted at the root.
pub fn overview_href(base_path: &str) -> (r: &str)
    ensures
        base_path@.len() == 0 ==> r@ == "/"@,
        base_path@.len() > 0 ==> r@ == base_path@,
{
    if base_path.is_empty() {
        "/"
    } else {
        base_path
    }
}

/// A tab of the dashboard's navigation bar.
pub struct NavTab {
    pub label: &'static str,
    pub href: String,
    pub active: bool,
}

/// The pages of the navigation bar, in order; the overview is the root.
pub open spec fn nav_paths() -> Seq<Seq<char>> {
    seq![
        ""@,
        "/busy"@,
        "/queues"@,
        "/metrics"@,
        "/cron"@,
        "/on-demand"@,
        "/scheduled"@,
        "/retries"@,
        "/dead"@,
    ]
}

/// The labels of the navigation bar, in the order of [`nav_paths`].
pub open spec fn nav_labels() -> Seq<Seq<char>> {
    seq![
        "Overview"@,
        "Busy"@,
        "Queues"@,
        "Metrics"@,
        "Cron"@,
        "On-Demand"@,
        "Scheduled"@,
        "Retries"@,
        "Dead"@,
    ]
}

/// Where a tab links: the base path and the page, except that the overview
/// of a dashboard at the root links to `/`.
pub open spec fn nav_href(base_path: Seq<char>, path: Seq<char>) -> Seq<char> {
    if path.len() == 0 && base_path.len() == 0 {
        "/"@
    } else {
        base_path + path
    }
}

fn nav_tab(base_path: &str, active_tab: &str, label: &'static str, path: &'static str) -> (r: NavTab)
    requires
        path@.len() > 0,
    ensures
        r.label@ == label@,
        r.href@ == base_path@ + path@,
        r.active == (active_tab@ == path@),
{
    NavTab { label, href: String::from_str(base_path).concat(path), active: str_eq(active_tab, path) }
}

/// The navigation bar: one tab per page, in order, each linking to its page
/// under `base_path`, and active when it is the page being shown.
pub fn navigation_tabs(base_path: &str, active_tab: &str) -> (r: Vec<NavTab>)
    ensures
        r@.len() == nav_paths().len(),
        forall|i: int|
            0 <= i < r@.len() ==> {
                &&& (#[trigger] r@[i]).label@ == nav_labels()[i]
                &&& r@[i].href@ == nav_href(base_path@, nav_paths()[i])
                &&& r@[i].active == (active_tab@ == nav_paths()[i])
            },
{
    proof {
        reveal_strlit("");
        reveal_strlit("/");
        reveal_strlit("/busy");
        reveal_strlit("/queues");
        reveal_strlit("/metrics");
        reveal_strlit("/cron");
        reveal_strlit("/on-demand");
        reveal_strlit("/scheduled");
        reveal_strlit("/retries");
        reveal_strlit("/dead");
    }
    let mut tabs: Vec<NavTab> = Vec::new();
    let overview = overview_href(base_path);
    tabs.push(NavTab { label: "Overview", href: String::from_str(overview), active: str_eq(active_tab, "") });
    proof {
        assert(base_path@ + ""@ =~= base_path@);
    }
    tabs.push(nav_tab(base_path, active_tab, "Busy", "/busy"));
    tabs.push(nav_tab(base_path, active_tab, "Queues", "/queues"));
    tabs.push(nav_tab(base_path, active_tab, "Metrics", "/metrics"));
    tabs.push(nav_tab(base_path, active_tab, "Cron", "/cron"));
    tabs.push(nav_tab(base_path, active_tab, "On-Demand", "/on-demand"));
    tabs.push(nav_tab(base_path, active_tab, "Scheduled", "/scheduled"));
    tabs.push(nav_tab(base_path, active_tab, "Retries", "/retries"));
    tabs.push(nav_tab(base_path, active_tab, "Dead", "/dead"));
    tabs
}

/// The classes of a navigation tab.
pub open spec fn spec_tab_class(active: bool) -> Seq<char> {
    if active {
        "px-4 py-2 text-sm font-medium text-white border-b-2 border-blue-500"@
    } else {
        "px-4 py-2 text-sm font-medium text-gray-400 border-b-2 border-transparent hover:text-gray-200 hover:border-gray-600"@
    }
}

/// The classes of a navigation tab: highlighted when active.
pub fn tab_class(active: bool) -> (r: &'static str)
    ensures
        r@ == spec_tab_class(active),
{
    if active {
        "px-4 py-2 text-sm font-medium text-white border-b-2 border-blue-500"
    } else {
        "px-4 py-2 text-sm font-medium text-gray-400 border-b-2 border-transparent hover:text-gray-200 hover:border-gray-600"
    }
}

/// The style rule that sets the width of chart tooltips, in `rem`.
pub fn chart_tooltip_css(tooltip_min_width: usize) -> (r: String)
    ensures
        r@ == ":root { --chart-tooltip-min-width: "@ + decimal(tooltip_min_width as nat) + "rem; }"@,
{
    let width = u64_to_decimal(tooltip_min_width as u64);
    String::from_str(":root { --chart-tooltip-min-width: ").concat(width.as_str()).concat("rem; }")
}

/// The three job lists of the dashboard.
#[derive(Clone, Copy, Debug, PartialEq, Eq, Structural)]
pub enum JobListKind {
    Scheduled,
    Retries,
    Dead,
}

/// The form targets of a job list's bulk controls: a non-empty dead list
/// can be revived and wiped, a non-empty retry list retried now; other
/// lists have none.
pub fn job_list_controls(base_path: &str, kind: JobListKind, total: usize) -> (r: Vec<String>)
    ensures
        total == 0 || kind is Scheduled ==> r@.len() == 0,
        total > 0 && kind is Dead ==> r@.len() == 2 && r@[0]@ == base_path@ + "/dead/revive_all"@ && r@[1]@
            == base_path@ + "/dead/wipe"@,
        total > 0 && kind is Retries ==> r@.len() == 1 && r@[0]@ == base_path@ + "/retries/retry_all_now"@,
{
    let mut out: Vec<String> = Vec::new();
    if total > 0 {
        match kind {
            JobListKind::Dead => {
                out.push(String::from_str(base_path).concat("/dead/revive_all"));
                out.push(String::from_str(base_path).concat("/dead/wipe"));
            },
            JobListKind::Retries => {
                out.push(String::from_str(base_path).concat("/retries/retry_all_now"));
            },
            JobListKind::Scheduled => {},
        }
    }
    out
}

} // verus!
