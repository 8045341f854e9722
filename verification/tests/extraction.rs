use lotto_scraper::extract::{
    Anchor, ExtractError, LabelValue, LaosPage, LaosRow, ThaiArticle, ThaiPage, extract_laos,
    extract_thai,
};

fn lv(label: &str, value: &str) -> LabelValue {
    LabelValue { label: label.to_string(), value: value.to_string() }
}

fn laos_row(cells: &[&str]) -> LaosRow {
    LaosRow { cells: cells.iter().map(|c| c.to_string()).collect() }
}

#[test]
fn thai_article_with_both_fields_yields_record() {
    let page = ThaiPage {
        articles: vec![ThaiArticle {
            date: Some("2024-01-17".to_string()),
            entries: vec![
                lv("รางวัลที่ 1", " 123456 "),
                lv("เลขท้าย 2 ตัว", " 57 "),
            ],
        }],
        next_href: None,
    };
    let r = extract_thai(&page);
    assert_eq!(r.records.len(), 1);
    assert_eq!(r.records[0].draw_date, "2024-01-17");
    assert_eq!(r.records[0].prize1, "123456");
    assert_eq!(r.records[0].prize2, "57");
    assert!(r.next_url.is_none());
}

#[test]
fn thai_article_missing_one_field_is_dropped() {
    let page = ThaiPage {
        articles: vec![ThaiArticle {
            date: Some("2024-02-01".to_string()),
            entries: vec![lv("รางวัลที่ 1", "654321")],
        }],
        next_href: Some("/page2".to_string()),
    };
    let r = extract_thai(&page);
    assert_eq!(r.records.len(), 0);
    assert_eq!(r.next_url.as_deref(), Some("/page2"));
}

#[test]
fn thai_missing_date_becomes_unknown() {
    let page = ThaiPage {
        articles: vec![ThaiArticle {
            date: None,
            entries: vec![lv("รางวัลที่ 1", "1"), lv("เลขท้าย 2 ตัว", "2")],
        }],
        next_href: None,
    };
    let r = extract_thai(&page);
    assert_eq!(r.records.len(), 1);
    assert_eq!(r.records[0].draw_date, "Unknown");
}

#[test]
fn thai_later_matching_label_overwrites_earlier() {
    let page = ThaiPage {
        articles: vec![ThaiArticle {
            date: Some("d".to_string()),
            entries: vec![
                lv("รางวัลที่ 1", "first"),
                lv("เลขท้าย 2 ตัว", "second"),
                lv("ผลรางวัลที่ 1 ล่าสุด", "third"),
            ],
        }],
        next_href: None,
    };
    let r = extract_thai(&page);
    assert_eq!(r.records.len(), 1);
    assert_eq!(r.records[0].prize1, "third");
    assert_eq!(r.records[0].prize2, "second");
}

#[test]
fn laos_rows_extract_after_header() {
    let page = LaosPage {
        rows: vec![
            laos_row(&["วันที่", "3 ตัว", "2 ตัว"]),
            laos_row(&["งวดวันที่ | 01-02-2024", " 123 ", " 45 "]),
            laos_row(&["งวดวันที่ | 05-02-2024", " 678 ", " 90 "]),
        ],
        anchors: vec![],
    };
    let r = extract_laos(&page, "https://example.net/a/b").expect("extraction succeeds");
    assert_eq!(r.records.len(), 2);
    assert_eq!(r.records[0].draw_date, "01-02-2024");
    assert_eq!(r.records[0].prize1, "123");
    assert_eq!(r.records[0].prize2, "45");
    assert_eq!(r.records[1].draw_date, "05-02-2024");
    assert!(r.next_url.is_none());
}

#[test]
fn laos_row_with_empty_prize_is_excluded() {
    // An empty prize1 or prize2 drops the row even with a non-empty date.
    let page = LaosPage {
        rows: vec![
            laos_row(&["h1", "h2", "h3"]),
            laos_row(&["x | 01-02-2024", "   ", "45"]),
            laos_row(&["x | 02-02-2024", "123", ""]),
            laos_row(&["x | 03-02-2024", "777", "88"]),
        ],
        anchors: vec![],
    };
    let r = extract_laos(&page, "https://example.net/").expect("extraction succeeds");
    assert_eq!(r.records.len(), 1);
    assert_eq!(r.records[0].prize1, "777");
}

#[test]
fn laos_sentinel_row_is_excluded() {
    // The "no draw held" sentinel drops the row even when all fields
    // are populated.
    let page = LaosPage {
        rows: vec![
            laos_row(&["h1", "h2", "h3"]),
            laos_row(&["x | 01-02-2024", " งดออกผล ", "45"]),
            laos_row(&["x | 03-02-2024", "777", "88"]),
        ],
        anchors: vec![],
    };
    let r = extract_laos(&page, "https://example.net/").expect("extraction succeeds");
    assert_eq!(r.records.len(), 1);
    assert_eq!(r.records[0].draw_date, "03-02-2024");
}

#[test]
fn laos_short_row_is_skipped_silently() {
    let page = LaosPage {
        rows: vec![
            laos_row(&["h1", "h2", "h3"]),
            laos_row(&["only one cell"]),
            laos_row(&["x | 04-02-2024", "111", "22"]),
        ],
        anchors: vec![],
    };
    let r = extract_laos(&page, "https://example.net/").expect("extraction succeeds");
    assert_eq!(r.records.len(), 1);
}

#[test]
fn laos_populated_page_with_no_survivors_is_structural_error() {
    let page = LaosPage {
        rows: vec![
            laos_row(&["h1", "h2", "h3"]),
            laos_row(&["x | 01-02-2024", "", "45"]),
            laos_row(&["x | 02-02-2024", "", "46"]),
            laos_row(&["x | 03-02-2024", "", "47"]),
        ],
        anchors: vec![],
    };
    let r = extract_laos(&page, "https://example.net/");
    assert!(matches!(r, Err(ExtractError::StructureChanged)));
}

#[test]
fn laos_header_only_page_is_not_structural_error() {
    let page = LaosPage { rows: vec![laos_row(&["h1", "h2", "h3"])], anchors: vec![] };
    let r = extract_laos(&page, "https://example.net/").expect("extraction succeeds");
    assert_eq!(r.records.len(), 0);
}

#[test]
fn laos_empty_page_is_not_structural_error() {
    let page = LaosPage { rows: vec![], anchors: vec![] };
    let r = extract_laos(&page, "https://example.net/").expect("extraction succeeds");
    assert_eq!(r.records.len(), 0);
    assert!(r.next_url.is_none());
}

#[test]
fn laos_next_link_resolves_against_base() {
    // The resolved link must be absolute: handing the href back
    // unchanged would fail this test.
    let page = LaosPage {
        rows: vec![],
        anchors: vec![
            Anchor { label: Some("อื่นๆ".to_string()), href: Some("/other".to_string()) },
            Anchor { label: Some(" หน้าต่อไป ".to_string()), href: Some("c.png".to_string()) },
            Anchor { label: Some("หน้าต่อไป".to_string()), href: Some("later".to_string()) },
        ],
    };
    let r = extract_laos(&page, "https://example.net/a/b.html").expect("extraction succeeds");
    assert_eq!(r.next_url.as_deref(), Some("https://example.net/a/c.png"));
}

#[test]
fn laos_labelled_anchor_without_href_is_passed_over() {
    let page = LaosPage {
        rows: vec![],
        anchors: vec![
            Anchor { label: Some("หน้าต่อไป".to_string()), href: None },
            Anchor { label: Some("หน้าต่อไป".to_string()), href: Some("/p2".to_string()) },
        ],
    };
    let r = extract_laos(&page, "https://example.net/a/").expect("extraction succeeds");
    assert_eq!(r.next_url.as_deref(), Some("https://example.net/p2"));
}

#[test]
fn laos_unresolvable_next_link_is_an_error() {
    let page = LaosPage {
        rows: vec![
            laos_row(&["h1", "h2", "h3"]),
            laos_row(&["x | 01-02-2024", "123", "45"]),
        ],
        anchors: vec![Anchor {
            label: Some("หน้าต่อไป".to_string()),
            href: Some("p2".to_string()),
        }],
    };
    let r = extract_laos(&page, "not a base url");
    assert!(matches!(r, Err(ExtractError::InvalidNextUrl)));
}
