use oxana::config::Config;
use oxana::pagination::{JobPage, JOBS_PER_PAGE};
use oxana::web::{
    chart_json, chart_tooltip_css, delete_job_path, job_list_controls, JobListKind, job_path, navigation_tabs, overview_href,
    queue_action_path, queue_path, tab_class, worker_metrics_path, OxanaWebState,
};

#[test]
fn list_opts_fetch_one_extra_job_from_the_page_start() {
    let opts = JobPage::<u32>::list_opts(0);
    assert_eq!((opts.count, opts.offset), (JOBS_PER_PAGE + 1, 0));
    let opts = JobPage::<u32>::list_opts(1);
    assert_eq!((opts.count, opts.offset), (51, 0));
    let opts = JobPage::<u32>::list_opts(3);
    assert_eq!((opts.count, opts.offset), (51, 100));
}

#[test]
fn pages_truncate_and_report_their_range() {
    let page = JobPage::new(2, 120, (0..51u32).collect());
    assert!(page.has_next);
    assert_eq!(page.jobs.len(), 50);
    assert_eq!(page.jobs[49], 49);
    assert_eq!(page.number, 2);
    assert_eq!(page.range_start(), 51);
    assert_eq!(page.range_end(), 100);

    let page = JobPage::new(3, 120, (0..20u32).collect());
    assert!(!page.has_next);
    assert_eq!(page.range_start(), 101);
    assert_eq!(page.range_end(), 120);

    let page = JobPage::new(0, 7, (0..7u32).collect());
    assert_eq!(page.number, 1);
    assert_eq!((page.range_start(), page.range_end()), (1, 7));

    // The total caps the end even when more jobs were read.
    let page = JobPage::new(1, 3, (0..5u32).collect());
    assert_eq!(page.range_end(), 3);
}

#[test]
fn base_path_drops_trailing_slashes() {
    let catalog = Config::<()>::new().catalog();
    let state = OxanaWebState::new((), catalog, "/admin/oxana//".to_string());
    assert_eq!(state.base_path, "/admin/oxana");
    let state = OxanaWebState::new((), Config::<()>::new().catalog(), "/".to_string());
    assert_eq!(state.base_path, "");
    let state = OxanaWebState::new((), Config::<()>::new().catalog(), String::new());
    assert_eq!(state.base_path, "");
}

#[test]
fn links_encode_queue_and_job_ids_as_single_segments() {
    let queue = "tenant#acme/space & more";
    assert_eq!(
        queue_path("/admin", queue),
        "/admin/queues/tenant%23acme%2Fspace%20%26%20more"
    );
    assert_eq!(
        queue_action_path("/admin", queue, "pause"),
        "/admin/queues/tenant%23acme%2Fspace%20%26%20more/pause"
    );
    assert_eq!(job_path("/admin/oxana", "missing/job"), "/admin/oxana/jobs/missing%2Fjob");
    assert_eq!(
        delete_job_path("", "default", "a b"),
        "/queues/default/jobs/a%20b/delete"
    );
    assert_eq!(
        worker_metrics_path("", "demo::Worker"),
        "/metrics/job?worker=demo%3A%3AWorker"
    );
    assert_eq!(queue_path("", "plain-name_1.x~"), "/queues/plain-name_1.x~");
}

#[test]
fn navigation_marks_the_page_shown_and_links_under_the_base() {
    let tabs = navigation_tabs("/oxana", "/dead");
    let labels: Vec<&str> = tabs.iter().map(|tab| tab.label).collect();
    assert_eq!(
        labels,
        vec!["Overview", "Busy", "Queues", "Metrics", "Cron", "On-Demand", "Scheduled", "Retries", "Dead"]
    );
    let hrefs: Vec<&str> = tabs.iter().map(|tab| tab.href.as_str()).collect();
    assert_eq!(
        hrefs,
        vec![
            "/oxana",
            "/oxana/busy",
            "/oxana/queues",
            "/oxana/metrics",
            "/oxana/cron",
            "/oxana/on-demand",
            "/oxana/scheduled",
            "/oxana/retries",
            "/oxana/dead"
        ]
    );
    let active: Vec<bool> = tabs.iter().map(|tab| tab.active).collect();
    assert_eq!(active, vec![false, false, false, false, false, false, false, false, true]);

    let root = navigation_tabs("", "");
    assert_eq!(root[0].href, "/");
    assert!(root[0].active);
    assert_eq!(root[1].href, "/busy");
    assert!(root.iter().skip(1).all(|tab| !tab.active));
    assert_eq!(overview_href(""), "/");
    assert_eq!(overview_href("/admin"), "/admin");
}

#[test]
fn tab_classes_highlight_the_active_tab() {
    assert_eq!(tab_class(true), "px-4 py-2 text-sm font-medium text-white border-b-2 border-blue-500");
    assert_eq!(
        tab_class(false),
        "px-4 py-2 text-sm font-medium text-gray-400 border-b-2 border-transparent hover:text-gray-200 hover:border-gray-600"
    );
}

#[test]
fn chart_data_cannot_close_its_script_element() {
    let payload = r#"{"label":"</script><script>alert('queue')</script>"}"#;
    let escaped = chart_json(payload);
    assert!(!escaped.contains('<'));
    assert_eq!(
        escaped,
        r#"{"label":"\u003c/script>\u003cscript>alert('queue')\u003c/script>"}"#
    );
    assert_eq!(chart_tooltip_css(12), ":root { --chart-tooltip-min-width: 12rem; }");
}

#[test]
fn page_links_point_to_the_neighbouring_pages() {
    let first = JobPage::new(1, 120, (0..51u32).collect());
    assert_eq!(first.prev_href(), None);
    assert_eq!(first.next_href(), Some("?page=2".to_string()));
    let last = JobPage::new(3, 120, (0..20u32).collect());
    assert_eq!(last.prev_href(), Some("?page=2".to_string()));
    assert_eq!(last.next_href(), None);
    let zero = JobPage::<u32>::new(0, 0, Vec::new());
    assert_eq!(zero.prev_href(), None);
    assert_eq!(zero.next_href(), None);
}

#[test]
fn bulk_controls_follow_the_list_and_its_size() {
    assert_eq!(
        job_list_controls("/oxana", JobListKind::Dead, 3),
        vec!["/oxana/dead/revive_all".to_string(), "/oxana/dead/wipe".to_string()]
    );
    assert_eq!(
        job_list_controls("", JobListKind::Retries, 1),
        vec!["/retries/retry_all_now".to_string()]
    );
    assert!(job_list_controls("/oxana", JobListKind::Dead, 0).is_empty());
    assert!(job_list_controls("/oxana", JobListKind::Scheduled, 9).is_empty());
}
