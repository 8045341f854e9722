//! Core data types: draw records, the shared task status, source kinds,
//! and the request shapes of the control surface.

use vstd::prelude::*;
use vstd::string::*;

verus! {

/// Mathematical value of a [`LottoResult`]: the three published strings.
pub ghost struct LottoResultView {
    pub draw_date: Seq<char>,
    pub prize1: Seq<char>,
    pub prize2: Seq<char>,
}

/// A single historical lottery draw as published by a source site.
///
/// `prize1` and `prize2` are generic: for the article-layout source they
/// hold the first prize and the last-two-digits prize, for the grid-layout
/// source the 3-digit and 2-digit prizes. A record is immutable once a
/// source adapter has built it from one document row.
#[derive(Clone, Debug)]
pub struct LottoResult {
    pub draw_date: String,
    pub prize1: String,
    pub prize2: String,
}

impl View for LottoResult {
    type V = LottoResultView;

    open spec fn view(&self) -> LottoResultView {
        LottoResultView {
            draw_date: self.draw_date@,
            prize1: self.prize1@,
            prize2: self.prize2@,
        }
    }
}

impl LottoResult {
    /// An exact copy of the record.
    pub fn duplicate(&self) -> (r: LottoResult)
        ensures
            r@ == self@,
    {
        LottoResult {
            draw_date: self.draw_date.clone(),
            prize1: self.prize1.clone(),
            prize2: self.prize2.clone(),
        }
    }
}

/// Copies a list of records element by element.
pub fn duplicate_results(results: &Vec<LottoResult>) -> (r: Vec<LottoResult>)
    ensures
        r@.map_values(|x: LottoResult| x@) == results@.map_values(|x: LottoResult| x@),
{
    let mut out: Vec<LottoResult> = Vec::new();
    let n = results.len();
    for i in 0..n
        invariant
            n == results.len(),
            out@.len() == i,
            forall|j: int| 0 <= j < i ==> out@[j]@ == results@[j]@,
    {
        out.push(results[i].duplicate());
    }
    proof {
        assert(out@.map_values(|x: LottoResult| x@) =~= results@.map_values(
            |x: LottoResult| x@,
        ));
    }
    out
}

/// Copies a list of strings element by element.
pub fn duplicate_lines(lines: &Vec<String>) -> (r: Vec<String>)
    ensures
        r@.map_values(|s: String| s@) == lines@.map_values(|s: String| s@),
{
    let mut out: Vec<String> = Vec::new();
    let n = lines.len();
    for i in 0..n
        invariant
            n == lines.len(),
            out@.len() == i,
            forall|j: int| 0 <= j < i ==> out@[j]@ == lines@[j]@,
    {
        out.push(lines[i].clone());
    }
    proof {
        assert(out@.map_values(|s: String| s@) =~= lines@.map_values(|s: String| s@));
    }
    out
}

/// Mathematical value of a [`TaskStatus`].
pub ghost struct TaskStatusView {
    pub is_running: bool,
    pub lotto_type: Option<Seq<char>>,
    pub progress: Seq<Seq<char>>,
    pub results: Seq<LottoResultView>,
}

/// State of the current or most recent crawl run, shared between the
/// background driver and the foreground status poller.
///
/// `progress` is the ordered, append-only log of the current run;
/// `results` is replaced wholesale when the run ends.
#[derive(Clone)]
pub struct TaskStatus {
    pub is_running: bool,
    pub lotto_type: Option<String>,
    pub progress: Vec<String>,
    pub results: Vec<LottoResult>,
}

impl View for TaskStatus {
    type V = TaskStatusView;

    open spec fn view(&self) -> TaskStatusView {
        TaskStatusView {
            is_running: self.is_running,
            lotto_type: match self.lotto_type {
                Some(s) => Some(s@),
                None => None,
            },
            progress: self.progress@.map_values(|s: String| s@),
            results: self.results@.map_values(|x: LottoResult| x@),
        }
    }
}

impl TaskStatus {
    /// Creates the initial, idle task status.
    pub fn new() -> (r: TaskStatus)
        ensures
            !r@.is_running,
            r@.lotto_type is None,
            r@.progress == Seq::<Seq<char>>::empty(),
            r@.results == Seq::<LottoResultView>::empty(),
    {
        let r = TaskStatus {
            is_running: false,
            lotto_type: None,
            progress: Vec::new(),
            results: Vec::new(),
        };
        proof {
            assert(r@.progress =~= Seq::<Seq<char>>::empty());
            assert(r@.results =~= Seq::<LottoResultView>::empty());
        }
        r
    }

    /// A copy of the status, equal to the original as a value. This is the
    /// snapshot that the status poller receives: reading never mutates.
    pub fn duplicate(&self) -> (r: TaskStatus)
        ensures
            r@ == self@,
    {
        let lotto_type = match &self.lotto_type {
            Some(s) => Some(s.clone()),
            None => None,
        };
        let r = TaskStatus {
            is_running: self.is_running,
            lotto_type,
            progress: duplicate_lines(&self.progress),
            results: duplicate_results(&self.results),
        };
        r
    }
}

/// Which archive site a run crawls. Selected by the caller at run start
/// and retained for display after the run ends.
#[derive(Clone, Copy, PartialEq, Eq, Structural, Debug)]
pub enum LottoType {
    Thai,
    Laos,
}

/// The display name of a source kind, as shown in progress lines.
pub open spec fn spec_display_name(t: LottoType) -> Seq<char> {
    match t {
        LottoType::Thai => "ไทย"@,
        LottoType::Laos => "ลาว"@,
    }
}

/// The fixed start address of a source kind. These are configuration
/// constants, not runtime-configurable.
pub open spec fn spec_start_url(t: LottoType) -> Seq<char> {
    match t {
        LottoType::Thai => "https://news.sanook.com/lotto/archive/"@,
        LottoType::Laos => "https://expserve.com/backward/laosdevelops"@,
    }
}

impl LottoType {
    /// Human-readable name of the source, used in progress lines.
    pub fn display_name(&self) -> (r: String)
        ensures
            r@ == spec_display_name(*self),
    {
        match self {
            LottoType::Thai => String::from_str("ไทย"),
            LottoType::Laos => String::from_str("ลาว"),
        }
    }

    /// The fixed address where pagination for this source begins.
    pub fn start_url(&self) -> (r: String)
        ensures
            r@ == spec_start_url(*self),
    {
        match self {
            LottoType::Thai => String::from_str("https://news.sanook.com/lotto/archive/"),
            LottoType::Laos => String::from_str("https://expserve.com/backward/laosdevelops"),
        }
    }
}

/// Body of a request to start a new crawl run.
pub struct StartScrapeRequest {
    pub lotto_type: LottoType,
}

/// The numeric-prediction heuristic a caller asks for.
#[derive(Clone, Copy, PartialEq, Eq, Structural, Debug)]
pub enum AnalysisMethod {
    ComprehensiveStatistics,
    Numerology,
    MlDecisionTree,
    MarkovChain,
}

/// Body of a request to analyse a list of drawn numbers.
pub struct AnalyzeRequest {
    pub numbers: Vec<String>,
    pub method: AnalysisMethod,
}

} // verus!
