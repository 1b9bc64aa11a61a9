//! The analysis orchestrator: runs the pattern registry and the level
//! detector over one series and assembles the result, and batches that
//! evaluation over many instruments.

use vstd::prelude::*;

use crate::analysis_model::{AnalyzedStock, FundsAnalysisParams};
use crate::bar::{series_wf, DailyBar};
use crate::instrument::{Instrument, InstrumentKind};
use crate::stock_calculate::{first_resistance_support_price, spec_resistance, spec_support};
use crate::stock_pattern::{
    get_candlestick_patterns, get_ma_patterns, spec_candlestick_patterns, spec_ma_patterns,
    spec_pattern_matches, spec_pattern_name, StockPattern,
};

verus! {

/// How many matched patterns make an analysis outcome worth reporting.
pub const FOCUS_PATTERN_MIN: usize = 2;

/// The names of the classifiers in `list` that match the series, in list
/// order.
pub open spec fn spec_matched_names(
    list: Seq<StockPattern>,
    kind: InstrumentKind,
    s: Seq<DailyBar>,
) -> Seq<Seq<char>>
    decreases list.len(),
{
    if list.len() == 0 {
        Seq::empty()
    } else {
        let rest = spec_matched_names(list.drop_last(), kind, s);
        if spec_pattern_matches(list.last(), kind, s) {
            rest.push(spec_pattern_name(list.last()))
        } else {
            rest
        }
    }
}

proof fn lemma_matched_names_step(
    list: Seq<StockPattern>,
    kind: InstrumentKind,
    s: Seq<DailyBar>,
    k: int,
)
    requires
        0 <= k < list.len(),
    ensures
        spec_matched_names(list.take(k + 1), kind, s) == if spec_pattern_matches(list[k], kind, s) {
            spec_matched_names(list.take(k), kind, s).push(spec_pattern_name(list[k]))
        } else {
            spec_matched_names(list.take(k), kind, s)
        },
{
    assert(list.take(k + 1).drop_last() =~= list.take(k));
    assert(list.take(k + 1).last() == list[k]);
}

/// The pattern names an analysis reports: every matching candlestick name
/// in registry order and then, only when that list is non-empty, every
/// matching trend name appended.
pub open spec fn spec_analysis_patterns(kind: InstrumentKind, s: Seq<DailyBar>) -> Seq<Seq<char>> {
    let candles = spec_matched_names(spec_candlestick_patterns(), kind, s);
    if candles.len() == 0 {
        candles
    } else {
        candles + spec_matched_names(spec_ma_patterns(), kind, s)
    }
}

/// Everything `analyze` promises of its result: nothing for a series of
/// fewer than two bars, and otherwise a record carrying the instrument's
/// code and name, the latest close, the two levels, and exactly the
/// matched pattern names in evaluation order.
pub open spec fn spec_analyze_conforms(
    stock: Instrument,
    s: Seq<DailyBar>,
    r: Option<AnalyzedStock>,
) -> bool {
    if s.len() < 2 {
        r is None
    } else {
        match r {
            None => false,
            Some(a) => {
                &&& a.code@ == stock.code@
                &&& a.name@ == stock.name@
                &&& a.current == s.last().close
                &&& a.resistance as int == spec_resistance(s)
                &&& a.support as int == spec_support(s)
                &&& a.pattern.deep_view() == spec_analysis_patterns(stock.kind, s)
            },
        }
    }
}

/// Analyzes one instrument's series: evaluates the candlestick registry,
/// then — only when a candlestick matched — the trend registry, computes
/// support and resistance, and assembles the record. Returns nothing when
/// the series has fewer than two bars: that is "no result", not an error,
/// so batch callers can skip silently.
#[verifier::loop_isolation(false)]
pub fn analyze(stock: &Instrument, prices: &[DailyBar]) -> (r: Option<AnalyzedStock>)
    requires
        series_wf(prices@),
    ensures
        spec_analyze_conforms(*stock, prices@, r),
        r is Some <==> prices@.len() >= 2,
{
    let len = prices.len();
    if len < 2 {
        return None;
    }
    let candlestick_patterns = get_candlestick_patterns();
    let ma_patterns = get_ma_patterns();
    let ghost candles = spec_matched_names(spec_candlestick_patterns(), stock.kind, prices@);
    let mut match_patterns: Vec<String> = Vec::new();
    let mut k: usize = 0;
    proof {
        assert(spec_candlestick_patterns().take(0) =~= Seq::<StockPattern>::empty());
    }
    while k < candlestick_patterns.len()
        invariant
            k <= spec_candlestick_patterns().len(),
            match_patterns.deep_view() == spec_matched_names(
                spec_candlestick_patterns().take(k as int),
                stock.kind,
                prices@,
            ),
        decreases spec_candlestick_patterns().len() - k,
    {
        let p = candlestick_patterns[k];
        let ghost old_dv = match_patterns.deep_view();
        proof {
            lemma_matched_names_step(spec_candlestick_patterns(), stock.kind, prices@, k as int);
        }
        if p.is_match(stock, prices) {
            let pattern_name = p.name();
            match_patterns.push(pattern_name);
            proof {
                assert(match_patterns.deep_view() =~= old_dv.push(spec_pattern_name(p)));
            }
        }
        k = k + 1;
    }
    proof {
        assert(spec_candlestick_patterns().take(spec_candlestick_patterns().len() as int)
            =~= spec_candlestick_patterns());
    }
    if match_patterns.len() > 0 {
        let mut k2: usize = 0;
        proof {
            assert(spec_ma_patterns().take(0) =~= Seq::<StockPattern>::empty());
            assert(match_patterns.deep_view() =~= candles + spec_matched_names(
                spec_ma_patterns().take(0),
                stock.kind,
                prices@,
            ));
        }
        while k2 < ma_patterns.len()
            invariant
                k2 <= spec_ma_patterns().len(),
                match_patterns.deep_view() == candles + spec_matched_names(
                    spec_ma_patterns().take(k2 as int),
                    stock.kind,
                    prices@,
                ),
            decreases spec_ma_patterns().len() - k2,
        {
            let p = ma_patterns[k2];
            let ghost old_dv = match_patterns.deep_view();
            proof {
                lemma_matched_names_step(spec_ma_patterns(), stock.kind, prices@, k2 as int);
            }
            if p.is_match(stock, prices) {
                let pattern_name = p.name();
                match_patterns.push(pattern_name);
                proof {
                    assert(match_patterns.deep_view() =~= old_dv.push(spec_pattern_name(p)));
                }
            }
            k2 = k2 + 1;
        }
        proof {
            assert(spec_ma_patterns().take(spec_ma_patterns().len() as int)
                =~= spec_ma_patterns());
        }
    }
    let levels = first_resistance_support_price(prices);
    let current = prices[len - 1].close;
    Some(
        AnalyzedStock {
            code: stock.code.clone(),
            name: stock.name.clone(),
            current,
            support: levels.1,
            resistance: levels.0,
            pattern: match_patterns,
        },
    )
}

proof fn lemma_matched_names_of_unmatched(
    list: Seq<StockPattern>,
    kind: InstrumentKind,
    s: Seq<DailyBar>,
)
    requires
        forall|k: int| 0 <= k < list.len() ==> !spec_pattern_matches(#[trigger] list[k], kind, s),
    ensures
        spec_matched_names(list, kind, s) == Seq::<Seq<char>>::empty(),
    decreases list.len(),
{
    if list.len() > 0 {
        lemma_matched_names_of_unmatched(list.drop_last(), kind, s);
    }
}

/// No-trade exclusion law at the analysis level: when the latest bar has
/// no price range, the analysis reports no pattern at all — no
/// candlestick matches, so the trend set is never consulted.
pub proof fn lemma_no_trade_reports_no_patterns(kind: InstrumentKind, s: Seq<DailyBar>)
    requires
        s.len() >= 1,
        s.last().spec_is_no_trade(),
    ensures
        spec_analysis_patterns(kind, s) == Seq::<Seq<char>>::empty(),
{
    crate::stock_pattern::lemma_no_trade_excludes_candlesticks(kind, s);
    lemma_matched_names_of_unmatched(spec_candlestick_patterns(), kind, s);
}

/// Idempotence law: analysis is a pure function of its inputs. Any two
/// results that conform to `analyze`'s contract for the same instrument
/// and the same series agree field for field, down to every byte of every
/// pattern name.
pub proof fn lemma_analyze_deterministic(
    stock: Instrument,
    s: Seq<DailyBar>,
    r1: Option<AnalyzedStock>,
    r2: Option<AnalyzedStock>,
)
    requires
        spec_analyze_conforms(stock, s, r1),
        spec_analyze_conforms(stock, s, r2),
    ensures
        match (r1, r2) {
            (Some(a), Some(b)) => {
                &&& a.code@ == b.code@
                &&& a.name@ == b.name@
                &&& a.current == b.current
                &&& a.support == b.support
                &&& a.resistance == b.resistance
                &&& a.pattern.deep_view() == b.pattern.deep_view()
            },
            (None, None) => true,
            _ => false,
        },
{
}

/// The instrument is selected by the code filter: always when there is no
/// filter, else exactly when the codes agree.
pub open spec fn spec_selected(code: Option<String>, stock: Instrument) -> bool {
    match code {
        None => true,
        Some(c) => c@ == stock.code@,
    }
}

/// The analysis of this instrument is worth reporting: the series is long
/// enough and at least `FOCUS_PATTERN_MIN` patterns matched.
pub open spec fn spec_is_focus(stock: Instrument, s: Seq<DailyBar>) -> bool {
    s.len() >= 2 && spec_analysis_patterns(stock.kind, s).len() >= FOCUS_PATTERN_MIN as int
}

/// Positions, in order, of the first `n` items that pass the code filter
/// and whose analysis is worth reporting.
pub open spec fn spec_focus_indices(
    items: Seq<(Instrument, Vec<DailyBar>)>,
    code: Option<String>,
    n: int,
) -> Seq<int>
    decreases n,
{
    if n <= 0 {
        Seq::empty()
    } else {
        let rest = spec_focus_indices(items, code, n - 1);
        if spec_selected(code, items[n - 1].0) && spec_is_focus(items[n - 1].0, items[n - 1].1@) {
            rest.push(n - 1)
        } else {
            rest
        }
    }
}

/// Analyzes a batch of instruments — for example an index's constituents
/// — and keeps, in input order, the results where at least
/// `FOCUS_PATTERN_MIN` patterns matched.
#[verifier::loop_isolation(false)]
pub fn analyze_batch(items: &Vec<(Instrument, Vec<DailyBar>)>) -> (r: Vec<AnalyzedStock>)
    requires
        forall|i: int| 0 <= i < items@.len() ==> series_wf((#[trigger] items@[i]).1@),
    ensures
        r@.len() == spec_focus_indices(items@, None, items@.len() as int).len(),
        forall|t: int|
            0 <= t < r@.len() ==> spec_analyze_conforms(
                items@[spec_focus_indices(items@, None, items@.len() as int)[t]].0,
                items@[spec_focus_indices(items@, None, items@.len() as int)[t]].1@,
                Some(#[trigger] r@[t]),
            ),
{
    let mut focus_stocks: Vec<AnalyzedStock> = Vec::new();
    let mut k: usize = 0;
    while k < items.len()
        invariant
            k <= items@.len(),
            focus_stocks@.len() == spec_focus_indices(items@, None, k as int).len(),
            forall|t: int|
                0 <= t < focus_stocks@.len() ==> spec_analyze_conforms(
                    items@[spec_focus_indices(items@, None, k as int)[t]].0,
                    items@[spec_focus_indices(items@, None, k as int)[t]].1@,
                    Some(#[trigger] focus_stocks@[t]),
                ),
        decreases items@.len() - k,
    {
        let item = &items[k];
        let ghost prev = spec_focus_indices(items@, None, k as int);
        let result = analyze(&item.0, item.1.as_slice());
        if let Some(analyzed) = result {
            if analyzed.pattern.len() >= FOCUS_PATTERN_MIN {
                focus_stocks.push(analyzed);
            }
        }
        proof {
            assert(spec_focus_indices(items@, None, k + 1) == if spec_selected(
                None,
                items@[k as int].0,
            ) && spec_is_focus(items@[k as int].0, items@[k as int].1@) {
                prev.push(k as int)
            } else {
                prev
            });
        }
        k = k + 1;
    }
    focus_stocks
}

/// Analyzes the fund universe: keeps only the funds selected by the
/// parameters' code filter, and of those, in input order, the results
/// where at least `FOCUS_PATTERN_MIN` patterns matched.
#[verifier::loop_isolation(false)]
pub fn analyze_funds(params: &FundsAnalysisParams, items: &Vec<(Instrument, Vec<DailyBar>)>) -> (r:
    Vec<AnalyzedStock>)
    requires
        forall|i: int| 0 <= i < items@.len() ==> series_wf((#[trigger] items@[i]).1@),
    ensures
        r@.len() == spec_focus_indices(items@, params.code, items@.len() as int).len(),
        forall|t: int|
            0 <= t < r@.len() ==> spec_analyze_conforms(
                items@[spec_focus_indices(items@, params.code, items@.len() as int)[t]].0,
                items@[spec_focus_indices(items@, params.code, items@.len() as int)[t]].1@,
                Some(#[trigger] r@[t]),
            ),
{
    let mut focus_stocks: Vec<AnalyzedStock> = Vec::new();
    let mut k: usize = 0;
    while k < items.len()
        invariant
            k <= items@.len(),
            focus_stocks@.len() == spec_focus_indices(items@, params.code, k as int).len(),
            forall|t: int|
                0 <= t < focus_stocks@.len() ==> spec_analyze_conforms(
                    items@[spec_focus_indices(items@, params.code, k as int)[t]].0,
                    items@[spec_focus_indices(items@, params.code, k as int)[t]].1@,
                    Some(#[trigger] focus_stocks@[t]),
                ),
        decreases items@.len() - k,
    {
        let item = &items[k];
        let ghost prev = spec_focus_indices(items@, params.code, k as int);
        let selected = match &params.code {
            None => true,
            Some(c) => *c == item.0.code,
        };
        if selected {
            let result = analyze(&item.0, item.1.as_slice());
            if let Some(analyzed) = result {
                if analyzed.pattern.len() >= FOCUS_PATTERN_MIN {
                    focus_stocks.push(analyzed);
                }
            }
        }
        proof {
            assert(spec_focus_indices(items@, params.code, k + 1) == if spec_selected(
                params.code,
                items@[k as int].0,
            ) && spec_is_focus(items@[k as int].0, items@[k as int].1@) {
                prev.push(k as int)
            } else {
                prev
            });
        }
        k = k + 1;
    }
    focus_stocks
}

} // verus!
