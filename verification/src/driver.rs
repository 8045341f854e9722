//! The pagination driver's state machine.
//!
//! A run holds one state variable — the address of the page to fetch
//! next — plus the records accumulated so far. Fetching itself is the
//! caller's collaborator; the decisions (what a page outcome does to
//! the run, what is logged, how the run ends) live here and are
//! verified. The laws at the end state the driver's global behaviour:
//! every page of a link chain is visited exactly once in link order,
//! and a failure at page *k* keeps exactly the records of the pages
//! before it.

use vstd::prelude::*;
use vstd::string::*;
use crate::models::{LottoResult, LottoResultView, LottoType, TaskStatus, spec_display_name};
use crate::extract::PageResult;

verus! {

/// The fixed politeness delay between consecutive page fetches, in
/// milliseconds. A configuration constant, not runtime-configurable.
pub const POLITENESS_DELAY_MS: u64 = 500;

/// Progress line recording that a page is being fetched.
pub open spec fn fetch_line(url: Seq<char>) -> Seq<char> {
    "📄 กำลังดึงข้อมูลหน้า: "@ + url
}

/// Progress line recording a fatal fetch or extraction failure.
pub open spec fn error_line(url: Seq<char>, message: Seq<char>) -> Seq<char> {
    "⚠️ เกิดข้อผิดพลาดในการดึงข้อมูลหน้า "@ + url + ": "@ + message
}

/// Progress line seeded when a run starts.
pub open spec fn start_line(kind: LottoType) -> Seq<char> {
    "🚀 กำลังเริ่มโปรแกรมดึงข้อมูลสำหรับสลาก "@ + spec_display_name(kind) + "..."@
}

/// Progress line appended once a run ends, success or failure.
pub open spec fn done_line(kind: LottoType) -> Seq<char> {
    "✅ การดึงข้อมูลสลาก "@ + spec_display_name(kind) + "เสร็จสมบูรณ์"@
}

/// Builds the fetch progress line for `url`.
pub fn make_fetch_line(url: &str) -> (r: String)
    ensures
        r@ == fetch_line(url@),
{
    String::from_str("📄 กำลังดึงข้อมูลหน้า: ").concat(url)
}

/// Builds the error progress line for a failure at `url`.
pub fn make_error_line(url: &str, message: &str) -> (r: String)
    ensures
        r@ == error_line(url@, message@),
{
    String::from_str("⚠️ เกิดข้อผิดพลาดในการดึงข้อมูลหน้า ").concat(url).concat(": ").concat(
        message,
    )
}

/// Builds the starting progress line for a run on `kind`.
pub fn make_start_line(kind: LottoType) -> (r: String)
    ensures
        r@ == start_line(kind),
{
    String::from_str("🚀 กำลังเริ่มโปรแกรมดึงข้อมูลสำหรับสลาก ").concat(
        kind.display_name().as_str(),
    ).concat("...")
}

/// Builds the completion progress line for a run on `kind`.
pub fn make_done_line(kind: LottoType) -> (r: String)
    ensures
        r@ == done_line(kind),
{
    String::from_str("✅ การดึงข้อมูลสลาก ").concat(kind.display_name().as_str()).concat(
        "เสร็จสมบูรณ์",
    )
}

/// Mathematical value of a [`RunState`].
pub ghost struct RunStateView {
    pub current_url: Option<Seq<char>>,
    pub collected: Seq<LottoResultView>,
}

/// The pagination driver's in-flight state: the address to fetch next
/// (absent once the run has ended) and the records accumulated from
/// the pages visited so far.
pub struct RunState {
    pub current_url: Option<String>,
    pub collected: Vec<LottoResult>,
}

impl View for RunState {
    type V = RunStateView;

    open spec fn view(&self) -> RunStateView {
        RunStateView {
            current_url: match self.current_url {
                Some(u) => Some(u@),
                None => None,
            },
            collected: self.collected@.map_values(|x: LottoResult| x@),
        }
    }
}

impl RunState {
    /// A fresh run, about to fetch the fixed start address of `kind`.
    pub fn new(kind: LottoType) -> (r: RunState)
        ensures
            r@.current_url == Some(crate::models::spec_start_url(kind)),
            r@.collected == Seq::<LottoResultView>::empty(),
    {
        let r = RunState { current_url: Some(kind.start_url()), collected: Vec::new() };
        proof {
            assert(r@.collected =~= Seq::<LottoResultView>::empty());
        }
        r
    }
}

/// Mathematical value of a [`PageOutcome`].
pub ghost enum PageOutcomeView {
    Page { records: Seq<LottoResultView>, next_url: Option<Seq<char>> },
    Failed { message: Seq<char> },
}

/// What one iteration of the fetch → extract loop produced: either a
/// successfully extracted page, or the description of the fetch or
/// extraction failure that ends the run.
pub enum PageOutcome {
    Page(PageResult),
    Failed(String),
}

impl View for PageOutcome {
    type V = PageOutcomeView;

    open spec fn view(&self) -> PageOutcomeView {
        match self {
            PageOutcome::Page(pr) => PageOutcomeView::Page {
                records: pr@.records,
                next_url: pr@.next_url,
            },
            PageOutcome::Failed(m) => PageOutcomeView::Failed { message: m@ },
        }
    }
}

/// How one page outcome transforms the run state: a page appends its
/// records and moves on to its next link (absent ⇒ natural
/// termination); a failure ends the run and keeps what was collected.
pub open spec fn step_state(run: RunStateView, out: PageOutcomeView) -> RunStateView {
    match out {
        PageOutcomeView::Page { records, next_url } => RunStateView {
            current_url: next_url,
            collected: run.collected + records,
        },
        PageOutcomeView::Failed { .. } => RunStateView {
            current_url: None,
            collected: run.collected,
        },
    }
}

/// The progress lines one outcome appends after the fetch line: none
/// for a page, the error line for a failure.
pub open spec fn step_log(url: Seq<char>, out: PageOutcomeView) -> Seq<Seq<char>> {
    match out {
        PageOutcomeView::Page { .. } => Seq::<Seq<char>>::empty(),
        PageOutcomeView::Failed { message } => seq![error_line(url, message)],
    }
}

/// Appends the progress line recording that `url` is being fetched.
/// Nothing else of the status changes.
pub fn log_fetch_status(ts: &mut TaskStatus, url: &str)
    ensures
        final(ts)@.progress == old(ts)@.progress.push(fetch_line(url@)),
        final(ts)@.is_running == old(ts)@.is_running,
        final(ts)@.lotto_type == old(ts)@.lotto_type,
        final(ts)@.results == old(ts)@.results,
{
    let line = make_fetch_line(url);
    ts.progress.push(line);
    proof {
        assert(final(ts)@.progress =~= old(ts)@.progress.push(fetch_line(url@)));
    }
}

/// Applies one page outcome to the run and to the shared status: the
/// run steps as [`step_state`] says, and the progress log grows by
/// exactly [`step_log`]. The rest of the status is untouched.
pub fn apply_outcome(ts: &mut TaskStatus, run: &mut RunState, url: &str, outcome: PageOutcome)
    ensures
        final(run)@ == step_state(old(run)@, outcome@),
        final(ts)@.progress == old(ts)@.progress + step_log(url@, outcome@),
        final(ts)@.is_running == old(ts)@.is_running,
        final(ts)@.lotto_type == old(ts)@.lotto_type,
        final(ts)@.results == old(ts)@.results,
{
    match outcome {
        PageOutcome::Page(pr) => {
            let PageResult { records, next_url } = pr;
            let mut incoming = records;
            run.collected.append(&mut incoming);
            run.current_url = next_url;
            proof {
                assert(final(run)@.collected =~= old(run)@.collected + pr@.records);
                assert(final(ts)@.progress =~= old(ts)@.progress + Seq::<Seq<char>>::empty());
            }
        },
        PageOutcome::Failed(message) => {
            run.current_url = None;
            let line = make_error_line(url, message.as_str());
            ts.progress.push(line);
            proof {
                assert(final(ts)@.progress =~= old(ts)@.progress + seq![
                    error_line(url@, message@),
                ]);
            }
        },
    }
}

/// Ends the run: the accumulated records replace the published results
/// wholesale, the completion line is appended, and the running flag is
/// cleared. The selected source kind is retained for display.
pub fn finish_status(ts: &mut TaskStatus, run: RunState, kind: LottoType)
    ensures
        final(ts)@.results == run@.collected,
        final(ts)@.progress == old(ts)@.progress.push(done_line(kind)),
        !final(ts)@.is_running,
        final(ts)@.lotto_type == old(ts)@.lotto_type,
{
    ts.results = run.collected;
    let line = make_done_line(kind);
    ts.progress.push(line);
    ts.is_running = false;
    proof {
        assert(final(ts)@.progress =~= old(ts)@.progress.push(done_line(kind)));
    }
}

/// Ends a run that could not even begin its loop: records the given
/// line and clears the running flag, leaving results as they were.
pub fn abort_status(ts: &mut TaskStatus, line: String)
    ensures
        final(ts)@.progress == old(ts)@.progress.push(line@),
        !final(ts)@.is_running,
        final(ts)@.lotto_type == old(ts)@.lotto_type,
        final(ts)@.results == old(ts)@.results,
{
    ts.progress.push(line);
    ts.is_running = false;
    proof {
        assert(final(ts)@.progress =~= old(ts)@.progress.push(line@));
    }
}

/// The run state after the driver's loop has consumed the outcomes of
/// `script`, one per fetched page, stopping early once no address is
/// left to fetch.
pub open spec fn drive_state(run: RunStateView, script: Seq<PageOutcomeView>) -> RunStateView
    decreases script.len(),
{
    if run.current_url is None || script.len() == 0 {
        run
    } else {
        drive_state(step_state(run, script.first()), script.drop_first())
    }
}

/// The addresses the driver fetches, in order, while consuming
/// `script`.
pub open spec fn drive_visited(run: RunStateView, script: Seq<PageOutcomeView>) -> Seq<Seq<char>>
    decreases script.len(),
{
    match run.current_url {
        None => Seq::<Seq<char>>::empty(),
        Some(u) => if script.len() == 0 {
            seq![u]
        } else {
            seq![u] + drive_visited(step_state(run, script.first()), script.drop_first())
        },
    }
}

/// The progress lines the driver appends while consuming `script`:
/// for each visited address, its fetch line, then whatever its outcome
/// logs. Progress entries therefore appear in fetch order.
pub open spec fn drive_log(run: RunStateView, script: Seq<PageOutcomeView>) -> Seq<Seq<char>>
    decreases script.len(),
{
    match run.current_url {
        None => Seq::<Seq<char>>::empty(),
        Some(u) => if script.len() == 0 {
            seq![fetch_line(u)]
        } else {
            seq![fetch_line(u)] + step_log(u, script.first()) + drive_log(
                step_state(run, script.first()),
                script.drop_first(),
            )
        },
    }
}

/// The records of one outcome: what the page contributed, nothing for
/// a failure.
pub open spec fn records_of(out: PageOutcomeView) -> Seq<LottoResultView> {
    match out {
        PageOutcomeView::Page { records, .. } => records,
        PageOutcomeView::Failed { .. } => Seq::<LottoResultView>::empty(),
    }
}

/// The concatenation of the records of all outcomes of `script`, in
/// order.
pub open spec fn concat_records(script: Seq<PageOutcomeView>) -> Seq<LottoResultView>
    decreases script.len(),
{
    if script.len() == 0 {
        Seq::<LottoResultView>::empty()
    } else {
        records_of(script.first()) + concat_records(script.drop_first())
    }
}

/// A page chain: the first `k` outcomes are pages, and page `i` links
/// to `urls[i + 1]`.
pub open spec fn chained(urls: Seq<Seq<char>>, script: Seq<PageOutcomeView>, k: int) -> bool {
    &&& script.len() == urls.len()
    &&& forall|i: int|
        0 <= i < k ==> ((#[trigger] script[i]) matches PageOutcomeView::Page { next_url, .. }
            && next_url == Some(urls[i + 1]))
}

proof fn lemma_drive_chain(run: RunStateView, urls: Seq<Seq<char>>, script: Seq<PageOutcomeView>)
    requires
        urls.len() > 0,
        chained(urls, script, urls.len() - 1),
        script.last() matches PageOutcomeView::Page { next_url, .. } && next_url is None,
        run.current_url == Some(urls[0]),
    ensures
        drive_visited(run, script) == urls,
        drive_state(run, script).collected == run.collected + concat_records(script),
        drive_state(run, script).current_url is None,
        drive_log(run, script) == urls.map_values(|u: Seq<char>| fetch_line(u)),
    decreases urls.len(),
{
    let out = script.first();
    let next = step_state(run, out);
    if urls.len() == 1 {
        assert(out matches PageOutcomeView::Page { next_url, .. } && next_url is None);
        assert(next.current_url is None);
        assert(drive_state(next, script.drop_first()) == next);
        assert(drive_visited(next, script.drop_first()) == Seq::<Seq<char>>::empty());
        assert(drive_visited(run, script) == seq![urls[0]] + drive_visited(
            next,
            script.drop_first(),
        ));
        assert(drive_visited(run, script) =~= urls);
        assert(concat_records(script.drop_first()) =~= Seq::<LottoResultView>::empty());
        assert(next.collected =~= run.collected + concat_records(script));
        assert(drive_log(next, script.drop_first()) == Seq::<Seq<char>>::empty());
        assert(drive_log(run, script) =~= urls.map_values(|u: Seq<char>| fetch_line(u)));
    } else {
        assert(out matches PageOutcomeView::Page { next_url, .. } && next_url == Some(urls[1]));
        let urls2 = urls.drop_first();
        let script2 = script.drop_first();
        assert(chained(urls2, script2, urls2.len() - 1)) by {
            assert(forall|i: int|
                0 <= i < urls2.len() - 1 ==> script2[i] == script[i + 1] && urls2[i + 1] == urls[i
                    + 2]);
        }
        assert(script2.last() == script.last());
        assert(next.current_url == Some(urls2[0]));
        lemma_drive_chain(next, urls2, script2);
        assert(drive_visited(run, script) =~= urls);
        assert(next.collected + concat_records(script2) =~= run.collected + concat_records(script));
        assert(drive_log(run, script) =~= urls.map_values(|u: Seq<char>| fetch_line(u)));
    }
}

/// For every sequence of pages in which each page names the next
/// page's address and the last names none, the driver visits every
/// page exactly once, in link order, terminates, and ends the run with
/// the records of all pages concatenated in visit order. The progress
/// lines it appends are exactly the fetch lines, in fetch order.
pub proof fn lemma_driver_visits_every_page_once(
    init: RunStateView,
    urls: Seq<Seq<char>>,
    script: Seq<PageOutcomeView>,
)
    requires
        urls.len() > 0,
        chained(urls, script, urls.len() - 1),
        script.last() matches PageOutcomeView::Page { next_url, .. } && next_url is None,
        init.current_url == Some(urls[0]),
        init.collected == Seq::<LottoResultView>::empty(),
    ensures
        drive_visited(init, script) == urls,
        drive_state(init, script).current_url is None,
        drive_state(init, script).collected == concat_records(script),
        drive_log(init, script) == urls.map_values(|u: Seq<char>| fetch_line(u)),
{
    lemma_drive_chain(init, urls, script);
    assert(init.collected + concat_records(script) =~= concat_records(script));
}

proof fn lemma_drive_failure(
    run: RunStateView,
    urls: Seq<Seq<char>>,
    script: Seq<PageOutcomeView>,
    k: int,
)
    requires
        0 <= k < script.len(),
        chained(urls, script, k),
        script[k] is Failed,
        run.current_url == Some(urls[0]),
    ensures
        drive_visited(run, script) == urls.take(k + 1),
        drive_state(run, script).collected == run.collected + concat_records(script.take(k)),
        drive_state(run, script).current_url is None,
        drive_log(run, script) == urls.take(k + 1).map_values(|u: Seq<char>| fetch_line(u)).push(
            error_line(urls[k], script[k]->message),
        ),
    decreases k,
{
    let out = script.first();
    let next = step_state(run, out);
    if k == 0 {
        assert(out is Failed);
        assert(next.current_url is None);
        assert(drive_state(next, script.drop_first()) == next);
        assert(drive_visited(next, script.drop_first()) == Seq::<Seq<char>>::empty());
        assert(drive_visited(run, script) == seq![urls[0]] + drive_visited(
            next,
            script.drop_first(),
        ));
        assert(drive_visited(run, script) =~= urls.take(1));
        assert(concat_records(script.take(0)) =~= Seq::<LottoResultView>::empty());
        assert(next.collected =~= run.collected + concat_records(script.take(0)));
        assert(drive_log(next, script.drop_first()) == Seq::<Seq<char>>::empty());
        assert(drive_log(run, script) =~= urls.take(1).map_values(|u: Seq<char>| fetch_line(
            u,
        )).push(error_line(urls[0], script[0]->message)));
    } else {
        assert(out matches PageOutcomeView::Page { next_url, .. } && next_url == Some(urls[1]));
        let urls2 = urls.drop_first();
        let script2 = script.drop_first();
        assert(chained(urls2, script2, k - 1)) by {
            assert(forall|i: int|
                0 <= i < k - 1 ==> script2[i] == script[i + 1] && urls2[i + 1] == urls[i + 2]);
        }
        assert(script2[k - 1] == script[k]);
        assert(next.current_url == Some(urls2[0]));
        lemma_drive_failure(next, urls2, script2, k - 1);
        assert(urls2.take(k) =~= urls.take(k + 1).drop_first());
        assert(drive_visited(run, script) =~= urls.take(k + 1));
        assert(script2.take(k - 1) =~= script.take(k).drop_first());
        assert(next.collected + concat_records(script2.take(k - 1)) =~= run.collected
            + concat_records(script.take(k)));
        assert(script2[k - 1] == script[k] && urls2[k - 1] == urls[k]);
        assert(drive_log(run, script) =~= urls.take(k + 1).map_values(|u: Seq<char>| fetch_line(
            u,
        )).push(error_line(urls[k], script[k]->message)));
    }
}

/// On a fetch or extraction failure at page *k* of a chain, the run
/// ends with exactly the concatenated records of pages 1 .. k−1: no
/// partial page-*k* records are included, and no page after *k* is
/// visited. The progress lines are the fetch lines in fetch order,
/// closed by the error line of the failed page.
pub proof fn lemma_failure_keeps_prior_records(
    init: RunStateView,
    urls: Seq<Seq<char>>,
    script: Seq<PageOutcomeView>,
    k: int,
)
    requires
        0 <= k < script.len(),
        chained(urls, script, k),
        script[k] is Failed,
        init.current_url == Some(urls[0]),
        init.collected == Seq::<LottoResultView>::empty(),
    ensures
        drive_state(init, script).collected == concat_records(script.take(k)),
        drive_state(init, script).current_url is None,
        drive_visited(init, script) == urls.take(k + 1),
        drive_log(init, script) == urls.take(k + 1).map_values(|u: Seq<char>| fetch_line(u)).push(
            error_line(urls[k], script[k]->message),
        ),
{
    lemma_drive_failure(init, urls, script, k);
    assert(init.collected + concat_records(script.take(k)) =~= concat_records(script.take(k)));
}

} // verus!
