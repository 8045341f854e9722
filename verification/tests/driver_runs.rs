use lotto_scraper::driver::{PageOutcome, RunState, apply_outcome, finish_status, log_fetch_status};
use lotto_scraper::extract::{
    LabelValue, LaosPage, LaosRow, PageResult, ThaiArticle, ThaiPage, extract_laos, extract_thai,
};
use lotto_scraper::models::{LottoResult, LottoType, TaskStatus};

fn article(date: &str, p1: Option<&str>, p2: Option<&str>) -> ThaiArticle {
    let mut entries = Vec::new();
    if let Some(v) = p1 {
        entries.push(LabelValue { label: "รางวัลที่ 1".to_string(), value: v.to_string() });
    }
    if let Some(v) = p2 {
        entries.push(LabelValue { label: "เลขท้าย 2 ตัว".to_string(), value: v.to_string() });
    }
    ThaiArticle { date: Some(date.to_string()), entries }
}

fn page_outcome(records: Vec<LottoResult>, next_url: Option<&str>) -> PageOutcome {
    PageOutcome::Page(PageResult { records, next_url: next_url.map(|u| u.to_string()) })
}

fn rec(date: &str) -> LottoResult {
    LottoResult { draw_date: date.to_string(), prize1: "1".to_string(), prize2: "2".to_string() }
}

#[test]
fn driver_visits_chain_in_order_and_terminates() {
    // Three pages, each naming the next; the driver fetches each
    // exactly once, in link order, then stops.
    let mut ts = TaskStatus::new();
    let mut run = RunState {
        current_url: Some("u0".to_string()),
        collected: Vec::new(),
    };
    let script = vec![
        (vec![rec("a")], Some("u1")),
        (vec![rec("b"), rec("c")], Some("u2")),
        (vec![rec("d")], None),
    ];
    let mut fetched = Vec::new();
    let mut step = 0;
    while let Some(url) = run.current_url.clone() {
        log_fetch_status(&mut ts, &url);
        fetched.push(url.clone());
        let (records, next) = script[step].clone();
        step += 1;
        apply_outcome(&mut ts, &mut run, &url, page_outcome(records, next));
    }
    assert_eq!(fetched, vec!["u0", "u1", "u2"]);
    let dates: Vec<&str> = run.collected.iter().map(|r| r.draw_date.as_str()).collect();
    assert_eq!(dates, vec!["a", "b", "c", "d"]);
    finish_status(&mut ts, run, LottoType::Laos);
    assert!(!ts.is_running);
    assert_eq!(ts.results.len(), 4);
}

#[test]
fn failure_at_page_k_keeps_exactly_prior_records() {
    // Pages 1 and 2 succeed, page 3 fails: the records are exactly
    // those of pages 1 and 2, and the run ends.
    let mut ts = TaskStatus::new();
    let mut run = RunState { current_url: Some("u0".to_string()), collected: Vec::new() };

    let url = run.current_url.clone().unwrap();
    log_fetch_status(&mut ts, &url);
    apply_outcome(&mut ts, &mut run, &url, page_outcome(vec![rec("a")], Some("u1")));

    let url = run.current_url.clone().unwrap();
    assert_eq!(url, "u1");
    log_fetch_status(&mut ts, &url);
    apply_outcome(&mut ts, &mut run, &url, page_outcome(vec![rec("b")], Some("u2")));

    let url = run.current_url.clone().unwrap();
    assert_eq!(url, "u2");
    log_fetch_status(&mut ts, &url);
    apply_outcome(
        &mut ts,
        &mut run,
        &url,
        PageOutcome::Failed("connection reset".to_string()),
    );

    assert!(run.current_url.is_none());
    let dates: Vec<&str> = run.collected.iter().map(|r| r.draw_date.as_str()).collect();
    assert_eq!(dates, vec!["a", "b"]);

    finish_status(&mut ts, run, LottoType::Thai);
    assert!(!ts.is_running);
    assert_eq!(ts.results.len(), 2);
    // fetch, fetch, fetch, error, completion
    assert_eq!(ts.progress.len(), 5);
    assert!(ts.progress[3].contains("u2"));
    assert!(ts.progress[3].contains("connection reset"));
}

#[test]
fn thai_two_pages_scenario() {
    // Page 1: two complete articles and a next link. Page 2: one
    // article missing the last-two-digits field and no next link.
    // Expected: exactly the two page-1 records, the run ended, and
    // three progress lines (two fetches and the completion).
    let page1 = ThaiPage {
        articles: vec![
            article("2024-01-01", Some("111111"), Some("11")),
            article("2024-01-17", Some("222222"), Some("22")),
        ],
        next_href: Some("page2".to_string()),
    };
    let page2 = ThaiPage {
        articles: vec![article("2024-02-01", Some("333333"), None)],
        next_href: None,
    };

    let mut ts = TaskStatus::new();
    let mut run = RunState { current_url: Some("page1".to_string()), collected: Vec::new() };

    let mut step = 0;
    while let Some(url) = run.current_url.clone() {
        log_fetch_status(&mut ts, &url);
        let page = if step == 0 { &page1 } else { &page2 };
        step += 1;
        let pr = extract_thai(page);
        apply_outcome(&mut ts, &mut run, &url, PageOutcome::Page(pr));
    }
    finish_status(&mut ts, run, LottoType::Thai);

    assert_eq!(ts.results.len(), 2);
    assert_eq!(ts.results[0].draw_date, "2024-01-01");
    assert_eq!(ts.results[1].draw_date, "2024-01-17");
    assert!(!ts.is_running);
    assert_eq!(ts.progress.len(), 3);
    assert!(ts.progress[0].contains("page1"));
    assert!(ts.progress[1].contains("page2"));
}

#[test]
fn laos_structural_change_ends_run_with_prior_records() {
    // Page 1 yields a record and links on; page 2 has three row
    // blocks beyond the header, all with an empty first prize, which
    // is a structural-change error: the run ends keeping page 1's
    // records only.
    let page1 = LaosPage {
        rows: vec![
            LaosRow { cells: vec!["h1".into(), "h2".into(), "h3".into()] },
            LaosRow { cells: vec!["x | 01-02-2024".into(), "123".into(), "45".into()] },
        ],
        anchors: vec![lotto_scraper::extract::Anchor {
            label: Some("หน้าต่อไป".to_string()),
            href: Some("/p2".to_string()),
        }],
    };
    let page2 = LaosPage {
        rows: vec![
            LaosRow { cells: vec!["h1".into(), "h2".into(), "h3".into()] },
            LaosRow { cells: vec!["x | 02-02-2024".into(), "".into(), "45".into()] },
            LaosRow { cells: vec!["x | 03-02-2024".into(), "".into(), "46".into()] },
            LaosRow { cells: vec!["x | 04-02-2024".into(), "".into(), "47".into()] },
        ],
        anchors: vec![],
    };

    let mut ts = TaskStatus::new();
    let mut run = RunState {
        current_url: Some("https://example.net/p1".to_string()),
        collected: Vec::new(),
    };

    let mut step = 0;
    while let Some(url) = run.current_url.clone() {
        log_fetch_status(&mut ts, &url);
        let page = if step == 0 { &page1 } else { &page2 };
        step += 1;
        let outcome = match extract_laos(page, &url) {
            Ok(pr) => PageOutcome::Page(pr),
            Err(e) => PageOutcome::Failed(e.message()),
        };
        apply_outcome(&mut ts, &mut run, &url, outcome);
    }
    assert_eq!(step, 2);
    let dates: Vec<&str> = run.collected.iter().map(|r| r.draw_date.as_str()).collect();
    assert_eq!(dates, vec!["01-02-2024"]);
    finish_status(&mut ts, run, LottoType::Laos);
    assert_eq!(ts.results.len(), 1);
    assert!(!ts.is_running);
    // fetch p1, fetch p2, structural error, completion
    assert_eq!(ts.progress.len(), 4);
    assert!(ts.progress[2].contains("โครงสร้าง HTML อาจมีการเปลี่ยนแปลง"));
}

#[test]
fn progress_lines_have_expected_shape() {
    let mut ts = TaskStatus::new();
    log_fetch_status(&mut ts, "https://example.net/p1");
    assert_eq!(ts.progress.len(), 1);
    assert_eq!(ts.progress[0], "📄 กำลังดึงข้อมูลหน้า: https://example.net/p1");

    let mut run = RunState { current_url: Some("u".to_string()), collected: Vec::new() };
    apply_outcome(&mut ts, &mut run, "u", PageOutcome::Failed("timeout".to_string()));
    assert_eq!(
        ts.progress[1],
        "⚠️ เกิดข้อผิดพลาดในการดึงข้อมูลหน้า u: timeout"
    );

    finish_status(&mut ts, run, LottoType::Thai);
    assert_eq!(ts.progress[2], "✅ การดึงข้อมูลสลาก ไทยเสร็จสมบูรณ์");
}

#[test]
fn run_state_starts_at_fixed_source_address() {
    let thai = RunState::new(LottoType::Thai);
    assert_eq!(thai.current_url.as_deref(), Some("https://news.sanook.com/lotto/archive/"));
    assert!(thai.collected.is_empty());
    let laos = RunState::new(LottoType::Laos);
    assert_eq!(laos.current_url.as_deref(), Some("https://expserve.com/backward/laosdevelops"));
}
