//! Pages of jobs in the dashboard's job lists.
use vstd::prelude::*;
use vstd::string::*;
use crate::text::{decimal, u64_to_decimal};

verus! {

/// The number of jobs shown per page.
pub const JOBS_PER_PAGE: usize = 50;

/// How many jobs to read from a queue listing, and from which position.
#[derive(Clone, Copy, Debug, PartialEq, Eq)]
pub struct QueueListOpts {
    pub count: usize,
    pub offset: usize,
}

/// The page number actually shown: pages are counted from 1, and 0 means 1.
pub open spec fn effective_page(page: usize) -> int {
    if page == 0 {
        1
    } else {
        page as int
    }
}

/// The position of the first job of a page.
pub open spec fn page_offset(page: usize) -> int {
    (effective_page(page) - 1) * JOBS_PER_PAGE
}

/// The one-based position of the first job shown on page `number`.
pub open spec fn spec_range_start(number: usize) -> int {
    (number - 1) * JOBS_PER_PAGE + 1
}

/// The one-based position of the last job shown on page `number` holding
/// `len` jobs, out of `total`.
pub open spec fn spec_range_end(number: usize, len: int, total: usize) -> int {
    let end = (number - 1) * JOBS_PER_PAGE + len;
    if end < total {
        end
    } else {
        total as int
    }
}

/// One page of jobs: at most [`JOBS_PER_PAGE`] jobs, the page number, the
/// total number of jobs, and whether a further page exists.
pub struct JobPage<J> {
    pub jobs: Vec<J>,
    pub number: usize,
    pub total: usize,
    pub has_next: bool,
}

impl<J> JobPage<J> {
    /// The listing that fetches page `page`: one job more than a page holds,
    /// so that a further page can be detected, starting at the page's first
    /// job.
    pub fn list_opts(page: usize) -> (opts: QueueListOpts)
        requires
            page_offset(page) <= usize::MAX,
        ensures
            opts.count == JOBS_PER_PAGE + 1,
            opts.offset == page_offset(page),
    {
        let number: usize = if page < 1 {
            1
        } else {
            page
        };
        QueueListOpts { count: JOBS_PER_PAGE + 1, offset: (number - 1) * JOBS_PER_PAGE }
    }

    /// A page built from the jobs fetched with [`JobPage::list_opts`]: the
    /// first [`JOBS_PER_PAGE`] of them, and whether more were fetched.
    pub fn new(page: usize, total: usize, jobs: Vec<J>) -> (r: JobPage<J>)
        ensures
            r.has_next == (jobs@.len() > JOBS_PER_PAGE),
            r.jobs@ == if jobs@.len() > JOBS_PER_PAGE {
                jobs@.take(JOBS_PER_PAGE as int)
            } else {
                jobs@
            },
            r.number == effective_page(page),
            r.total == total,
    {
        let mut jobs = jobs;
        let has_next = jobs.len() > JOBS_PER_PAGE;
        jobs.truncate(JOBS_PER_PAGE);
        let number: usize = if page < 1 {
            1
        } else {
            page
        };
        JobPage { jobs, number, total, has_next }
    }

    /// The one-based position of the first job on the page.
    pub fn range_start(&self) -> (r: usize)
        requires
            self.number >= 1,
            spec_range_start(self.number) <= usize::MAX,
        ensures
            r == spec_range_start(self.number),
    {
        (self.number - 1) * JOBS_PER_PAGE + 1
    }

    /// The link to the previous page, when the page is not the first:
    /// `?page=<number - 1>`.
    pub fn prev_href(&self) -> (r: Option<String>)
        ensures
            self.number > 1 ==> r is Some && r->0@ == "?page="@ + decimal((self.number - 1) as nat),
            self.number <= 1 ==> r is None,
    {
        if self.number > 1 {
            let n = u64_to_decimal((self.number - 1) as u64);
            Some(String::from_str("?page=").concat(n.as_str()))
        } else {
            None
        }
    }

    /// The link to the next page, when a further page exists:
    /// `?page=<number + 1>`.
    pub fn next_href(&self) -> (r: Option<String>)
        requires
            self.has_next ==> self.number < usize::MAX,
        ensures
            self.has_next ==> r is Some && r->0@ == "?page="@ + decimal((self.number + 1) as nat),
            !self.has_next ==> r is None,
    {
        if self.has_next {
            let n = u64_to_decimal((self.number + 1) as u64);
            Some(String::from_str("?page=").concat(n.as_str()))
        } else {
            None
        }
    }

    /// The one-based position of the last job on the page, capped at the
    /// total.
    pub fn range_end(&self) -> (r: usize)
        requires
            self.number >= 1,
            (self.number - 1) * JOBS_PER_PAGE + self.jobs@.len() <= usize::MAX,
        ensures
            r == spec_range_end(self.number, self.jobs@.len() as int, self.total),
    {
        let end = (self.number - 1) * JOBS_PER_PAGE + self.jobs.len();
        if end < self.total {
            end
        } else {
            self.total
        }
    }
}

/// A page shows its jobs' positions: when the total covers the page, the
/// range from its first to its last position holds exactly as many
/// positions as the page has jobs; and page `n + 1` starts right after
/// page `n`'s full range.
pub proof fn lemma_page_range_counts_jobs(number: usize, len: int, total: usize)
    requires
        number >= 1,
        0 <= len <= JOBS_PER_PAGE,
        (number - 1) * JOBS_PER_PAGE + len <= total,
    ensures
        spec_range_end(number, len, total) - spec_range_start(number) + 1 == len,
        spec_range_start(number) + JOBS_PER_PAGE == (number as int) * JOBS_PER_PAGE + 1,
{
}

/// The listing of page `p` fetches exactly the positions that page `p`
/// shows, followed by one look-ahead position.
pub proof fn lemma_list_opts_match_range(page: usize)
    requires
        page >= 1,
    ensures
        page_offset(page) + 1 == spec_range_start(page),
{
}

} // verus!
