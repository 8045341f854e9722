//! Source adapters: one extraction strategy per supported site layout.
//!
//! A fetched document is handed to the library as plain data — the
//! element texts and attributes that the strategies read — and each
//! adapter turns it into zero or more [`LottoResult`] records plus an
//! optional next-page link.

use vstd::prelude::*;
use vstd::string::*;
use crate::models::{LottoResult, LottoResultView};
use crate::text::{
    spec_trim, spec_contains, spec_after_last, trim_str, contains_sub, after_last, str_eq,
};
use crate::links::{joined_url, join_against};

verus! {

/// One label/value pair from an article's result list.
pub struct LabelValue {
    pub label: String,
    pub value: String,
}

/// Mathematical value of a [`LabelValue`].
pub ghost struct LabelValueView {
    pub label: Seq<char>,
    pub value: Seq<char>,
}

impl View for LabelValue {
    type V = LabelValueView;

    open spec fn view(&self) -> LabelValueView {
        LabelValueView { label: self.label@, value: self.value@ }
    }
}

/// One draw "article" block of the article/list layout: the date
/// attribute of its time element, if any, and its label/value pairs in
/// document order.
pub struct ThaiArticle {
    pub date: Option<String>,
    pub entries: Vec<LabelValue>,
}

/// Mathematical value of a [`ThaiArticle`].
pub ghost struct ThaiArticleView {
    pub date: Option<Seq<char>>,
    pub entries: Seq<LabelValueView>,
}

impl View for ThaiArticle {
    type V = ThaiArticleView;

    open spec fn view(&self) -> ThaiArticleView {
        ThaiArticleView {
            date: match self.date {
                Some(d) => Some(d@),
                None => None,
            },
            entries: self.entries@.map_values(|e: LabelValue| e@),
        }
    }
}

/// A fetched document of the article/list layout, reduced to what the
/// adapter reads: the article blocks and the href of the designated
/// "next" pagination anchor, if present.
pub struct ThaiPage {
    pub articles: Vec<ThaiArticle>,
    pub next_href: Option<String>,
}

/// Mathematical value of a [`ThaiPage`].
pub ghost struct ThaiPageView {
    pub articles: Seq<ThaiArticleView>,
    pub next_href: Option<Seq<char>>,
}

impl View for ThaiPage {
    type V = ThaiPageView;

    open spec fn view(&self) -> ThaiPageView {
        ThaiPageView {
            articles: self.articles@.map_values(|a: ThaiArticle| a@),
            next_href: match self.next_href {
                Some(h) => Some(h@),
                None => None,
            },
        }
    }
}

/// One qualifying row block of the grid/table layout: the texts of its
/// column cells in order.
pub struct LaosRow {
    pub cells: Vec<String>,
}

impl View for LaosRow {
    type V = Seq<Seq<char>>;

    open spec fn view(&self) -> Seq<Seq<char>> {
        self.cells@.map_values(|s: String| s@)
    }
}

/// One anchor element of the grid/table layout: the text of its button
/// label span, if it has one, and its href attribute, if present.
pub struct Anchor {
    pub label: Option<String>,
    pub href: Option<String>,
}

/// Mathematical value of an [`Anchor`].
pub ghost struct AnchorView {
    pub label: Option<Seq<char>>,
    pub href: Option<Seq<char>>,
}

impl View for Anchor {
    type V = AnchorView;

    open spec fn view(&self) -> AnchorView {
        AnchorView {
            label: match self.label {
                Some(l) => Some(l@),
                None => None,
            },
            href: match self.href {
                Some(h) => Some(h@),
                None => None,
            },
        }
    }
}

/// A fetched document of the grid/table layout, reduced to what the
/// adapter reads: the qualifying row blocks (the first one is the
/// header) and all anchors of the document in order.
pub struct LaosPage {
    pub rows: Vec<LaosRow>,
    pub anchors: Vec<Anchor>,
}

/// Mathematical value of a [`LaosPage`].
pub ghost struct LaosPageView {
    pub rows: Seq<Seq<Seq<char>>>,
    pub anchors: Seq<AnchorView>,
}

impl View for LaosPage {
    type V = LaosPageView;

    open spec fn view(&self) -> LaosPageView {
        LaosPageView {
            rows: self.rows@.map_values(|r: LaosRow| r@),
            anchors: self.anchors@.map_values(|a: Anchor| a@),
        }
    }
}

/// What one page contributes to a run: the records extracted from it
/// and the address of the next page, if the page links to one.
pub struct PageResult {
    pub records: Vec<LottoResult>,
    pub next_url: Option<String>,
}

/// Mathematical value of a [`PageResult`].
pub ghost struct PageResultView {
    pub records: Seq<LottoResultView>,
    pub next_url: Option<Seq<char>>,
}

impl View for PageResult {
    type V = PageResultView;

    open spec fn view(&self) -> PageResultView {
        PageResultView {
            records: self.records@.map_values(|x: LottoResult| x@),
            next_url: match self.next_url {
                Some(u) => Some(u@),
                None => None,
            },
        }
    }
}

/// A total extraction failure; row-level anomalies are never errors.
#[derive(Clone, Copy, PartialEq, Eq, Structural, Debug)]
pub enum ExtractError {
    /// The page plainly contains data rows, yet none could be parsed
    /// into a record: the site's markup has likely changed.
    StructureChanged,
    /// The next-page link could not be resolved against the current
    /// page's address.
    InvalidNextUrl,
}

impl ExtractError {
    /// A human-readable description, recorded in the progress log.
    pub fn message(&self) -> (r: String)
        ensures
            self is StructureChanged ==> r@ == structure_changed_message(),
            self is InvalidNextUrl ==> r@ == invalid_next_url_message(),
    {
        match self {
            ExtractError::StructureChanged => String::from_str(
                "ไม่สามารถแยกวิเคราะห์ผลลัพธ์ใดๆ ได้ แม้ว่าจะพบแถวก็ตาม โครงสร้าง HTML อาจมีการเปลี่ยนแปลง",
            ),
            ExtractError::InvalidNextUrl => String::from_str(
                "ไม่สามารถแปลงลิงก์หน้าต่อไปเป็น URL ที่สมบูรณ์ได้",
            ),
        }
    }
}

/// Progress-log text for a structural-change failure.
pub open spec fn structure_changed_message() -> Seq<char> {
    "ไม่สามารถแยกวิเคราะห์ผลลัพธ์ใดๆ ได้ แม้ว่าจะพบแถวก็ตาม โครงสร้าง HTML อาจมีการเปลี่ยนแปลง"@
}

/// Progress-log text for an unresolvable next-page link.
pub open spec fn invalid_next_url_message() -> Seq<char> {
    "ไม่สามารถแปลงลิงก์หน้าต่อไปเป็น URL ที่สมบูรณ์ได้"@
}

/// The label marking a row's first-prize value.
pub open spec fn first_prize_label() -> Seq<char> {
    "รางวัลที่ 1"@
}

/// The label marking a row's last-two-digits value.
pub open spec fn last_two_label() -> Seq<char> {
    "เลขท้าย 2 ตัว"@
}

/// The date recorded when an article block carries no date attribute.
pub open spec fn unknown_date() -> Seq<char> {
    "Unknown"@
}

/// The sentinel first-prize text meaning "no draw was held".
pub open spec fn no_draw_sentinel() -> Seq<char> {
    "งดออกผล"@
}

/// The visible label of the localized "next page" button.
pub open spec fn next_page_label() -> Seq<char> {
    "หน้าต่อไป"@
}

/// The trimmed value of the last entry whose label mentions the
/// first prize, if any. Later entries overwrite earlier ones.
pub open spec fn thai_prize1(entries: Seq<LabelValueView>) -> Option<Seq<char>>
    decreases entries.len(),
{
    if entries.len() == 0 {
        None
    } else if spec_contains(entries.last().label, first_prize_label()) {
        Some(spec_trim(entries.last().value))
    } else {
        thai_prize1(entries.drop_last())
    }
}

/// The trimmed value of the last entry whose label mentions the
/// last-two-digits prize — unless that label also mentions the first
/// prize, which takes precedence and claims the entry.
pub open spec fn thai_prize2(entries: Seq<LabelValueView>) -> Option<Seq<char>>
    decreases entries.len(),
{
    if entries.len() == 0 {
        None
    } else if spec_contains(entries.last().label, last_two_label()) && !spec_contains(
        entries.last().label,
        first_prize_label(),
    ) {
        Some(spec_trim(entries.last().value))
    } else {
        thai_prize2(entries.drop_last())
    }
}

/// The draw date of an article: its date attribute as published, or the
/// fixed placeholder when the attribute is missing.
pub open spec fn thai_date(date: Option<Seq<char>>) -> Seq<char> {
    match date {
        Some(d) => d,
        None => unknown_date(),
    }
}

/// The record an article yields: present only when both prize fields
/// were found; articles missing either are silently dropped.
pub open spec fn thai_article_record(a: ThaiArticleView) -> Option<LottoResultView> {
    match (thai_prize1(a.entries), thai_prize2(a.entries)) {
        (Some(p1), Some(p2)) => Some(
            LottoResultView { draw_date: thai_date(a.date), prize1: p1, prize2: p2 },
        ),
        _ => None,
    }
}

/// A maybe-record as a sequence of zero or one records.
pub open spec fn opt_record(o: Option<LottoResultView>) -> Seq<LottoResultView> {
    match o {
        Some(r) => seq![r],
        None => Seq::<LottoResultView>::empty(),
    }
}

/// All records of an article/list page, in document order.
pub open spec fn thai_records(articles: Seq<ThaiArticleView>) -> Seq<LottoResultView>
    decreases articles.len(),
{
    if articles.len() == 0 {
        Seq::<LottoResultView>::empty()
    } else {
        thai_records(articles.drop_last()) + opt_record(thai_article_record(articles.last()))
    }
}

/// The record a grid row yields. A row with fewer than three cells, an
/// empty date, an empty prize, or the "no draw held" sentinel as its
/// first prize yields none. The date is the part of cell 0 after the
/// last `'|'`, trimmed; the prizes are cells 1 and 2, trimmed.
pub open spec fn laos_row_record(cells: Seq<Seq<char>>) -> Option<LottoResultView> {
    if cells.len() < 3 {
        None
    } else {
        let date = spec_trim(spec_after_last(cells[0], '|'));
        let p1 = spec_trim(cells[1]);
        let p2 = spec_trim(cells[2]);
        if date.len() == 0 || p1.len() == 0 || p2.len() == 0 || p1 == no_draw_sentinel() {
            None
        } else {
            Some(LottoResultView { draw_date: date, prize1: p1, prize2: p2 })
        }
    }
}

/// All records of a grid/table page: every row beyond the first
/// (header) row that yields a record, in document order.
pub open spec fn laos_records(rows: Seq<Seq<Seq<char>>>) -> Seq<LottoResultView>
    decreases rows.len(),
{
    if rows.len() <= 1 {
        Seq::<LottoResultView>::empty()
    } else {
        laos_records(rows.drop_last()) + opt_record(laos_row_record(rows.last()))
    }
}

/// A grid page looks populated (more than one row block) but no row
/// survived extraction: the markup has likely changed.
pub open spec fn laos_structural_error(rows: Seq<Seq<Seq<char>>>) -> bool {
    laos_records(rows).len() == 0 && rows.len() > 1
}

/// The href of the first anchor whose visible button label, trimmed,
/// equals the localized "next page" text and that carries an href.
pub open spec fn laos_next_href(anchors: Seq<AnchorView>) -> Option<Seq<char>>
    decreases anchors.len(),
{
    if anchors.len() == 0 {
        None
    } else {
        let a = anchors.first();
        if a.label is Some && spec_trim(a.label->0) == next_page_label() && a.href is Some {
            Some(a.href->0)
        } else {
            laos_next_href(anchors.drop_first())
        }
    }
}

/// A grid row whose first or second prize is empty after trimming is
/// excluded from the output, regardless of a non-empty date.
pub proof fn lemma_empty_prize_row_excluded(cells: Seq<Seq<char>>)
    requires
        spec_trim(cells[1]).len() == 0 || spec_trim(cells[2]).len() == 0,
    ensures
        laos_row_record(cells) is None,
{
}

/// A grid row whose first prize equals the "no draw held" sentinel is
/// excluded even when every other field is populated.
pub proof fn lemma_sentinel_row_excluded(cells: Seq<Seq<char>>)
    requires
        spec_trim(cells[1]) == no_draw_sentinel(),
    ensures
        laos_row_record(cells) is None,
{
}

/// Scans one article's entries for the two prize fields.
fn thai_article_prizes(entries: &Vec<LabelValue>) -> (r: (Option<String>, Option<String>))
    ensures
        (match r.0 {
            Some(s) => Some(s@),
            None => None,
        }) == thai_prize1(entries@.map_values(|e: LabelValue| e@)),
        (match r.1 {
            Some(s) => Some(s@),
            None => None,
        }) == thai_prize2(entries@.map_values(|e: LabelValue| e@)),
{
    let ghost all = entries@.map_values(|e: LabelValue| e@);
    let mut p1: Option<String> = None;
    let mut p2: Option<String> = None;
    let n = entries.len();
    for i in 0..n
        invariant
            n == entries.len(),
            all == entries@.map_values(|e: LabelValue| e@),
            (match p1 {
                Some(s) => Some(s@),
                None => None,
            }) == thai_prize1(all.take(i as int)),
            (match p2 {
                Some(s) => Some(s@),
                None => None,
            }) == thai_prize2(all.take(i as int)),
    {
        let e = &entries[i];
        proof {
            assert(all.take(i + 1).drop_last() =~= all.take(i as int));
            assert(all.take(i + 1).last() == all[i as int]);
        }
        if contains_sub(e.label.as_str(), "รางวัลที่ 1") {
            p1 = Some(trim_str(e.value.as_str()));
        } else if contains_sub(e.label.as_str(), "เลขท้าย 2 ตัว") {
            p2 = Some(trim_str(e.value.as_str()));
        }
    }
    proof {
        assert(all.take(n as int) =~= all);
    }
    (p1, p2)
}

/// Article/list extraction: emits a record for every article block
/// where both prize fields were found, and reports the next-page href
/// as the page gives it. Never fails.
pub fn extract_thai(page: &ThaiPage) -> (r: PageResult)
    ensures
        r@.records == thai_records(page@.articles),
        r@.next_url == page@.next_href,
{
    let ghost arts = page@.articles;
    let mut records: Vec<LottoResult> = Vec::new();
    let n = page.articles.len();
    for i in 0..n
        invariant
            n == page.articles.len(),
            arts == page@.articles,
            records@.map_values(|x: LottoResult| x@) == thai_records(arts.take(i as int)),
    {
        let article = &page.articles[i];
        proof {
            assert(arts.take(i + 1).drop_last() =~= arts.take(i as int));
            assert(arts.take(i + 1).last() == arts[i as int]);
        }
        let (p1, p2) = thai_article_prizes(&article.entries);
        match (p1, p2) {
            (Some(first_prize), Some(last_two)) => {
                let draw_date = match &article.date {
                    Some(d) => d.clone(),
                    None => String::from_str("Unknown"),
                };
                let rec = LottoResult { draw_date, prize1: first_prize, prize2: last_two };
                records.push(rec);
                proof {
                    assert(records@.map_values(|x: LottoResult| x@) =~= thai_records(
                        arts.take(i as int),
                    ).push(records@.last()@));
                    assert(thai_records(arts.take(i + 1)) =~= thai_records(arts.take(i as int)).push(
                        thai_article_record(arts[i as int])->0,
                    ));
                }
            },
            _ => {
                proof {
                    assert(thai_records(arts.take(i + 1)) =~= thai_records(arts.take(i as int)));
                }
            },
        }
    }
    proof {
        assert(arts.take(n as int) =~= arts);
    }
    let next_url = match &page.next_href {
        Some(h) => Some(h.clone()),
        None => None,
    };
    PageResult { records, next_url }
}

/// Extracts the record of one grid row, if the row yields one.
fn laos_row_extract(row: &LaosRow) -> (r: Option<LottoResult>)
    ensures
        (match r {
            Some(x) => Some(x@),
            None => None,
        }) == laos_row_record(row@),
{
    if row.cells.len() < 3 {
        return None;
    }
    let date = trim_str(after_last(row.cells[0].as_str(), '|').as_str());
    let p1 = trim_str(row.cells[1].as_str());
    let p2 = trim_str(row.cells[2].as_str());
    if date.as_str().unicode_len() == 0 || p1.as_str().unicode_len() == 0
        || p2.as_str().unicode_len() == 0 || str_eq(p1.as_str(), "งดออกผล") {
        return None;
    }
    Some(LottoResult { draw_date: date, prize1: p1, prize2: p2 })
}

/// Finds the first "next page" anchor href of a grid page.
fn laos_find_next(anchors: &Vec<Anchor>) -> (r: Option<String>)
    ensures
        (match r {
            Some(s) => Some(s@),
            None => None,
        }) == laos_next_href(anchors@.map_values(|a: Anchor| a@)),
{
    let ghost all = anchors@.map_values(|a: Anchor| a@);
    proof {
        assert(all.skip(0) =~= all);
    }
    let n = anchors.len();
    let mut i: usize = 0;
    while i < n
        invariant
            n == anchors.len(),
            all == anchors@.map_values(|a: Anchor| a@),
            0 <= i <= n,
            laos_next_href(all) == laos_next_href(all.skip(i as int)),
        decreases n - i,
    {
        proof {
            assert(all.skip(i as int).first() == all[i as int]);
            assert(all.skip(i as int).drop_first() =~= all.skip(i + 1));
        }
        let a = &anchors[i];
        let matched = match &a.label {
            Some(l) => {
                let t = trim_str(l.as_str());
                str_eq(t.as_str(), "หน้าต่อไป")
            },
            None => false,
        };
        if matched {
            match &a.href {
                Some(h) => {
                    return Some(h.clone());
                },
                None => {},
            }
        }
        i = i + 1;
    }
    proof {
        assert(all.skip(n as int) =~= Seq::<AnchorView>::empty());
    }
    None
}

/// Grid/table extraction. Emits a record per surviving row beyond the
/// header; fails when the page looks populated but nothing survived, or
/// when a found next-page link cannot be resolved to an absolute URL
/// against the current page's address. With no next-page anchor and no
/// structural change, extraction always succeeds.
pub fn extract_laos(page: &LaosPage, base_url: &str) -> (r: Result<PageResult, ExtractError>)
    ensures
        match r {
            Ok(pr) => {
                &&& !laos_structural_error(page@.rows)
                &&& pr@.records == laos_records(page@.rows)
                &&& match laos_next_href(page@.anchors) {
                    None => pr@.next_url is None,
                    Some(h) => pr@.next_url matches Some(u) && u == joined_url(base_url@, h),
                }
            },
            Err(e) => match e {
                ExtractError::StructureChanged => laos_structural_error(page@.rows),
                ExtractError::InvalidNextUrl => !laos_structural_error(page@.rows)
                    && laos_next_href(page@.anchors) is Some,
            },
        },
        !laos_structural_error(page@.rows) && laos_next_href(page@.anchors) is None ==> r is Ok,
{
    let ghost rws = page@.rows;
    let mut records: Vec<LottoResult> = Vec::new();
    let n = page.rows.len();
    if n > 1 {
        let mut i: usize = 1;
        while i < n
            invariant
                n == page.rows.len(),
                rws == page@.rows,
                1 <= i <= n,
                records@.map_values(|x: LottoResult| x@) == laos_records(rws.take(i as int)),
            decreases n - i,
        {
            proof {
                assert(rws.take(i + 1).drop_last() =~= rws.take(i as int));
                assert(rws.take(i + 1).last() == rws[i as int]);
            }
            match laos_row_extract(&page.rows[i]) {
                Some(rec) => {
                    records.push(rec);
                    proof {
                        assert(records@.map_values(|x: LottoResult| x@) =~= laos_records(
                            rws.take(i as int),
                        ).push(laos_row_record(rws[i as int])->0));
                        assert(laos_records(rws.take(i + 1)) =~= laos_records(
                            rws.take(i as int),
                        ).push(laos_row_record(rws[i as int])->0));
                    }
                },
                None => {
                    proof {
                        assert(laos_records(rws.take(i + 1)) =~= laos_records(rws.take(i as int)));
                    }
                },
            }
            i = i + 1;
        }
        proof {
            assert(rws.take(n as int) =~= rws);
        }
    } else {
        proof {
            assert(laos_records(rws) =~= Seq::<LottoResultView>::empty());
        }
    }
    if records.len() == 0 && page.rows.len() > 1 {
        return Err(ExtractError::StructureChanged);
    }
    proof {
        if records@.map_values(|x: LottoResult| x@).len() > 0 {
            assert(laos_records(rws).len() > 0);
        }
    }
    let next_url = match laos_find_next(&page.anchors) {
        Some(href) => {
            match join_against(base_url, href.as_str()) {
                Some(u) => Some(u),
                None => {
                    return Err(ExtractError::InvalidNextUrl);
                },
            }
        },
        None => None,
    };
    Ok(PageResult { records, next_url })
}

} // verus!
