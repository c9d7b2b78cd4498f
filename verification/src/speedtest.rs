//! The comparative speed-test engine: metric records, ping-round
//! aggregation, query parsing, the recommendation, and the final result.
//!
//! The engine runs identical operations over the proxy path and the
//! direct path and compares them.  All network calls are made by the
//! surrounding application, which hands their outcomes (elapsed time or
//! error) back to the functions here; every aggregation and decision is
//! taken in verified code.

use vstd::prelude::*;
use vstd::arithmetic::div_mod::lemma_div_is_ordered;
use vstd::arithmetic::div_mod::lemma_div_multiples_vanish;
use vstd::arithmetic::div_mod::lemma_div_pos_is_pos;
use vstd::string::StrSliceExecFns;
use vstd::string::StringExecFns;

use crate::proxy::DetectedProxy;
use crate::strutil::dec_digits;
use crate::strutil::split_char_spec;
use crate::strutil::split_on_char;
use crate::strutil::str_eq;
use crate::strutil::trim_str;
use crate::strutil::trimmed;
use crate::strutil::u64_to_dec;
use crate::strutil::usize_to_dec;

verus! {

/// One code snippet of a search-result preview.
#[derive(Debug, PartialEq)]
pub struct SearchResultSnippet {
    /// The file the snippet comes from.
    pub file_path: String,
    /// The matched snippet, truncated for display.
    pub snippet: String,
    /// The snippet's starting line, when known.
    pub line_number: Option<u32>,
}

/// A preview of search results, for display beside the timing.
#[derive(Debug, PartialEq)]
pub struct SearchResultPreview {
    /// How many matches the search reported.
    pub total_matches: usize,
    /// At most a few leading snippets.
    pub snippets: Vec<SearchResultSnippet>,
    /// The length of the raw response, in characters.
    pub response_length: usize,
}

/// One measured metric of a speed test.
#[derive(Debug, PartialEq)]
pub struct SpeedTestMetric {
    /// A display name.
    pub name: String,
    /// `"ping"`, `"search"`, `"upload_single"` or `"upload_project"`.
    pub metric_type: String,
    /// Elapsed milliseconds over the proxy path, when measured.
    pub proxy_time_ms: Option<u64>,
    /// Elapsed milliseconds over the direct path, when measured.
    pub direct_time_ms: Option<u64>,
    /// Whether every part of this metric succeeded.
    pub success: bool,
    /// The accumulated error messages, when any part failed.
    pub error: Option<String>,
    /// A search-result preview, for search metrics only.
    pub search_result_preview: Option<SearchResultPreview>,
}

impl SpeedTestMetric {
    /// A fresh, successful metric with no measurements yet.
    pub fn new(name: String, metric_type: String) -> (r: SpeedTestMetric)
        ensures
            r.name == name,
            r.metric_type == metric_type,
            r.proxy_time_ms is None,
            r.direct_time_ms is None,
            r.success,
            r.error is None,
            r.search_result_preview is None,
    {
        SpeedTestMetric {
            name,
            metric_type,
            proxy_time_ms: None,
            direct_time_ms: None,
            success: true,
            error: None,
            search_result_preview: None,
        }
    }
}

/// The stage of a running speed test.
#[derive(Clone, Copy, Debug, PartialEq, Eq, Structural)]
pub enum SpeedTestStageStatus {
    /// Not started yet.
    Pending,
    /// In progress.
    Running,
    /// Finished successfully.
    Completed,
    /// Finished in failure.
    Failed,
}

/// A progress event of a running speed test, for live display.
#[derive(Debug, PartialEq)]
pub struct SpeedTestProgress {
    /// The stage number.
    pub stage: u8,
    /// The stage's display name.
    pub stage_name: String,
    /// Overall percentage, `0` to `100`.
    pub percentage: u8,
    /// The stage's state.
    pub status: SpeedTestStageStatus,
    /// A short summary of the stage's key figures.
    pub detail: Option<String>,
    /// A finer-grained step name, when one applies.
    pub sub_step: Option<String>,
}

/// The full outcome of one speed test.
#[derive(Debug)]
pub struct ProxySpeedTestResult {
    /// `"proxy"`, `"direct"` or `"compare"`.
    pub mode: String,
    /// The proxy tested, in proxy or compare mode.
    pub proxy_info: Option<DetectedProxy>,
    /// The measured metrics, in execution order.
    pub metrics: Vec<SpeedTestMetric>,
    /// When the test ran, as an RFC 3339 timestamp.
    pub timestamp: String,
    /// The overall recommendation line.
    pub recommendation: String,
    /// Whether every metric succeeded.
    pub success: bool,
}

/// Which paths a test mode exercises: proxy, direct, or both in compare
/// mode.
pub fn mode_flags(mode: &str) -> (r: (bool, bool))
    ensures
        r.0 == (mode@ == "proxy"@ || mode@ == "compare"@),
        r.1 == (mode@ == "direct"@ || mode@ == "compare"@),
{
    let compare: bool = str_eq(mode, "compare");
    (str_eq(mode, "proxy") || compare, str_eq(mode, "direct") || compare)
}

// ---------------------------------------------------------------------------
// Error accumulation
// ---------------------------------------------------------------------------

/// An error slot with one more message: messages accumulate line by
/// line.
pub open spec fn append_error_spec(dst: Option<Seq<char>>, msg: Seq<char>) -> Seq<char> {
    match dst {
        None => msg,
        Some(s) => s + seq!['\n'] + msg,
    }
}

/// The view of an optional string.
pub open spec fn opt_view(s: Option<String>) -> Option<Seq<char>> {
    match s {
        Some(x) => Some(x@),
        None => None,
    }
}

/// Adds one message to an error slot: the first message fills the slot,
/// later ones are appended on new lines.
pub fn append_error(dst: &mut Option<String>, msg: String)
    ensures
        ({
            let r = *final(dst);
            r matches Some(s) && s@ == append_error_spec(opt_view(*old(dst)), msg@)
        }),
{
    match dst {
        Some(s) => {
            s.append("\n");
            s.append(msg.as_str());
            proof {
                reveal_strlit("\n");
                assert("\n"@ =~= seq!['\n']);
            }
        },
        None => {
            *dst = Some(msg);
        },
    }
}

// ---------------------------------------------------------------------------
// Ping-round aggregation
// ---------------------------------------------------------------------------

/// How many rounds succeeded.
pub open spec fn rounds_ok_count(s: Seq<Result<u64, String>>) -> int
    decreases s.len(),
{
    if s.len() == 0 {
        0
    } else {
        rounds_ok_count(s.drop_last()) + (if s.last() is Ok {
            1int
        } else {
            0
        })
    }
}

/// The sum of the successful rounds' times.
pub open spec fn rounds_ok_sum(s: Seq<Result<u64, String>>) -> int
    decreases s.len(),
{
    if s.len() == 0 {
        0
    } else {
        rounds_ok_sum(s.drop_last()) + (if s.last() is Ok {
            s.last()->Ok_0 as int
        } else {
            0
        })
    }
}

/// The error of the last failed round, if any round failed.
pub open spec fn rounds_last_error(s: Seq<Result<u64, String>>) -> Option<Seq<char>>
    decreases s.len(),
{
    if s.len() == 0 {
        None
    } else if s.last() is Err {
        Some(s.last()->Err_0@)
    } else {
        rounds_last_error(s.drop_last())
    }
}

/// The success count never exceeds the number of rounds, and the time
/// sum never exceeds count times the largest time.
proof fn lemma_rounds_bounds(s: Seq<Result<u64, String>>)
    ensures
        0 <= rounds_ok_count(s) <= s.len(),
        0 <= rounds_ok_sum(s) <= rounds_ok_count(s) * (u64::MAX as int),
    decreases s.len(),
{
    if s.len() > 0 {
        lemma_rounds_bounds(s.drop_last());
        let c = rounds_ok_count(s.drop_last());
        assert((c + 1) * (u64::MAX as int) == c * (u64::MAX as int) + u64::MAX as int)
            by (nonlinear_arith);
    }
}

/// The average of a sum bounded by `cnt * m` is at most `m`.
proof fn lemma_avg_bound(sum: int, cnt: int, m: int)
    requires
        cnt >= 1,
        m >= 0,
        0 <= sum <= cnt * m,
    ensures
        0 <= sum / cnt <= m,
{
    lemma_div_pos_is_pos(sum, cnt);
    lemma_div_is_ordered(sum, cnt * m, cnt);
    assert(cnt * m == m * cnt) by (nonlinear_arith);
    lemma_div_multiples_vanish(m, cnt);
}

/// The aggregate of a run of ping rounds.
#[derive(Debug, PartialEq)]
pub struct PingSummary {
    /// The average over the successful rounds, when any succeeded.
    pub average_ms: Option<u64>,
    /// How many rounds succeeded.
    pub ok_rounds: usize,
    /// The last error seen, when any round failed.
    pub last_error: Option<String>,
}

/// Aggregates ping rounds: the average of the successful rounds' times
/// and the last error.  A failed round is recorded, never fatal.
pub fn summarize_rounds(outcomes: &Vec<Result<u64, String>>) -> (r: PingSummary)
    ensures
        r.ok_rounds == rounds_ok_count(outcomes@),
        (match r.average_ms {
            Some(a) => rounds_ok_count(outcomes@) > 0 && a == rounds_ok_sum(outcomes@)
                / rounds_ok_count(outcomes@),
            None => rounds_ok_count(outcomes@) == 0,
        }),
        opt_view(r.last_error) == rounds_last_error(outcomes@),
{
    let n: usize = outcomes.len();
    let mut okc: usize = 0;
    let mut sum: u128 = 0;
    let mut last_err: Option<String> = None;
    let mut i: usize = 0;
    proof {
        assert(outcomes@.subrange(0, 0) =~= Seq::<Result<u64, String>>::empty());
    }
    while i < n
        invariant
            n == outcomes@.len(),
            i <= n,
            okc == rounds_ok_count(outcomes@.subrange(0, i as int)),
            sum == rounds_ok_sum(outcomes@.subrange(0, i as int)),
            opt_view(last_err) == rounds_last_error(outcomes@.subrange(0, i as int)),
        decreases n - i,
    {
        proof {
            lemma_rounds_bounds(outcomes@.subrange(0, i as int));
            assert(outcomes@.subrange(0, i + 1 as int).drop_last() =~= outcomes@.subrange(
                0,
                i as int,
            ));
            assert((okc + 1) * (u64::MAX as int) == okc * (u64::MAX as int) + u64::MAX as int)
                by (nonlinear_arith);
            assert(okc * (u64::MAX as int) <= (usize::MAX as int) * (u64::MAX as int))
                by (nonlinear_arith)
                requires
                    0 <= okc <= usize::MAX as int,
            ;
        }
        match &outcomes[i] {
            Ok(t) => {
                okc = okc + 1;
                sum = sum + (*t as u128);
            },
            Err(e) => {
                last_err = Some(e.clone());
            },
        }
        i = i + 1;
    }
    proof {
        assert(outcomes@.subrange(0, n as int) =~= outcomes@);
        lemma_rounds_bounds(outcomes@);
        if okc > 0 {
            lemma_avg_bound(sum as int, okc as int, u64::MAX as int);
        }
    }
    let average_ms: Option<u64> = if okc > 0 {
        Some((sum / (okc as u128)) as u64)
    } else {
        None
    };
    PingSummary { average_ms, ok_rounds: okc, last_error: last_err }
}

/// The error text to show: the last error, or a stock phrase when none
/// was captured.
pub open spec fn error_text_spec(le: Option<Seq<char>>) -> Seq<char> {
    match le {
        Some(e) => e,
        None => "unknown error"@,
    }
}

/// The side a measurement ran on, for messages.
pub open spec fn side_label_spec(is_proxy: bool) -> Seq<char> {
    if is_proxy {
        "proxy"@
    } else {
        "direct"@
    }
}

/// The message for a ping whose rounds all failed.
pub open spec fn ping_fail_msg_spec(is_proxy: bool, le: Option<Seq<char>>) -> Seq<char> {
    side_label_spec(is_proxy) + " ping failed: "@ + error_text_spec(le)
}

/// The message for a ping with some failed rounds.
pub open spec fn ping_partial_msg_spec(
    is_proxy: bool,
    okc: nat,
    rounds: nat,
    le: Option<Seq<char>>,
) -> Seq<char> {
    side_label_spec(is_proxy) + " ping partly failed: "@ + dec_digits(okc) + "/"@ + dec_digits(
        rounds,
    ) + " rounds; last error: "@ + error_text_spec(le)
}

fn error_text(le: &Option<String>) -> (r: String)
    ensures
        r@ == error_text_spec(opt_view(*le)),
{
    match le {
        Some(e) => e.clone(),
        None => "unknown error".to_owned(),
    }
}

fn side_label(is_proxy: bool) -> (r: &'static str)
    ensures
        r@ == side_label_spec(is_proxy),
{
    if is_proxy {
        "proxy"
    } else {
        "direct"
    }
}

/// Applies a ping summary to the metric: the average lands in the side's
/// time slot; a partly or fully failed run marks the metric failed and
/// records a message, without discarding what was measured.
pub fn apply_ping_summary(
    metric: &mut SpeedTestMetric,
    is_proxy: bool,
    rounds: usize,
    summary: &PingSummary,
)
    ensures
        final(metric).name == old(metric).name,
        final(metric).metric_type == old(metric).metric_type,
        final(metric).search_result_preview == old(metric).search_result_preview,
        final(metric).proxy_time_ms == (if is_proxy {
            summary.average_ms
        } else {
            old(metric).proxy_time_ms
        }),
        final(metric).direct_time_ms == (if is_proxy {
            old(metric).direct_time_ms
        } else {
            summary.average_ms
        }),
        summary.ok_rounds == rounds ==> {
            &&& final(metric).success == old(metric).success
            &&& final(metric).error == old(metric).error
        },
        summary.ok_rounds == 0 && rounds > 0 ==> {
            &&& !final(metric).success
            &&& (final(metric).error matches Some(e) && e@ == append_error_spec(
                opt_view(old(metric).error),
                ping_fail_msg_spec(is_proxy, opt_view(summary.last_error)),
            ))
        },
        0 < summary.ok_rounds < rounds ==> {
            &&& !final(metric).success
            &&& (final(metric).error matches Some(e) && e@ == append_error_spec(
                opt_view(old(metric).error),
                ping_partial_msg_spec(
                    is_proxy,
                    summary.ok_rounds as nat,
                    rounds as nat,
                    opt_view(summary.last_error),
                ),
            ))
        },
{
    if is_proxy {
        self_set_proxy_time(metric, summary.average_ms);
    } else {
        self_set_direct_time(metric, summary.average_ms);
    }
    if summary.ok_rounds == 0 && rounds > 0 {
        let mut msg: String = side_label(is_proxy).to_owned();
        msg.append(" ping failed: ");
        let et: String = error_text(&summary.last_error);
        msg.append(et.as_str());
        proof {
            assert(msg@ =~= ping_fail_msg_spec(is_proxy, opt_view(summary.last_error)));
        }
        metric.success = false;
        append_error(&mut metric.error, msg);
    } else if summary.ok_rounds < rounds {
        let mut msg: String = side_label(is_proxy).to_owned();
        msg.append(" ping partly failed: ");
        let okd: String = usize_to_dec(summary.ok_rounds);
        msg.append(okd.as_str());
        msg.append("/");
        let rd: String = usize_to_dec(rounds);
        msg.append(rd.as_str());
        msg.append(" rounds; last error: ");
        let et: String = error_text(&summary.last_error);
        msg.append(et.as_str());
        proof {
            assert(msg@ =~= ping_partial_msg_spec(
                is_proxy,
                summary.ok_rounds as nat,
                rounds as nat,
                opt_view(summary.last_error),
            ));
        }
        metric.success = false;
        append_error(&mut metric.error, msg);
    }
}

fn self_set_proxy_time(metric: &mut SpeedTestMetric, t: Option<u64>)
    ensures
        *final(metric) == (SpeedTestMetric { proxy_time_ms: t, ..*old(metric) }),
{
    metric.proxy_time_ms = t;
}

fn self_set_direct_time(metric: &mut SpeedTestMetric, t: Option<u64>)
    ensures
        *final(metric) == (SpeedTestMetric { direct_time_ms: t, ..*old(metric) }),
{
    metric.direct_time_ms = t;
}

/// The message recorded for one failed timed call.
pub open spec fn timed_fail_msg_spec(context: Seq<char>, e: Seq<char>) -> Seq<char> {
    context + ": "@ + e
}

/// Applies one timed call's outcome to the metric: a time lands in the
/// side's slot; an error marks the metric failed and is recorded under
/// the given context, without aborting anything else.
pub fn apply_timed_outcome(
    metric: &mut SpeedTestMetric,
    is_proxy: bool,
    outcome: Result<u64, String>,
    context: &str,
)
    ensures
        final(metric).name == old(metric).name,
        final(metric).metric_type == old(metric).metric_type,
        final(metric).search_result_preview == old(metric).search_result_preview,
        outcome matches Ok(ms) ==> {
            &&& final(metric).proxy_time_ms == (if is_proxy {
                Some(ms)
            } else {
                old(metric).proxy_time_ms
            })
            &&& final(metric).direct_time_ms == (if is_proxy {
                old(metric).direct_time_ms
            } else {
                Some(ms)
            })
            &&& final(metric).success == old(metric).success
            &&& final(metric).error == old(metric).error
        },
        outcome matches Err(e) ==> {
            &&& final(metric).proxy_time_ms == old(metric).proxy_time_ms
            &&& final(metric).direct_time_ms == old(metric).direct_time_ms
            &&& !final(metric).success
            &&& final(metric).error matches Some(s) && s@ == append_error_spec(
                opt_view(old(metric).error),
                timed_fail_msg_spec(context@, e@),
            )
        },
{
    match outcome {
        Ok(ms) => {
            if is_proxy {
                self_set_proxy_time(metric, Some(ms));
            } else {
                self_set_direct_time(metric, Some(ms));
            }
        },
        Err(e) => {
            let mut msg: String = context.to_owned();
            msg.append(": ");
            msg.append(e.as_str());
            proof {
                assert(msg@ =~= timed_fail_msg_spec(context@, e@));
            }
            metric.success = false;
            append_error(&mut metric.error, msg);
        },
    }
}

/// Marks a metric failed for a reason that is not a timed call: a
/// missing client, a missing project, an unreadable file.
pub fn mark_failed(metric: &mut SpeedTestMetric, msg: String)
    ensures
        final(metric).name == old(metric).name,
        final(metric).metric_type == old(metric).metric_type,
        final(metric).proxy_time_ms == old(metric).proxy_time_ms,
        final(metric).direct_time_ms == old(metric).direct_time_ms,
        final(metric).search_result_preview == old(metric).search_result_preview,
        !final(metric).success,
        final(metric).error matches Some(s) && s@ == append_error_spec(
            opt_view(old(metric).error),
            msg@,
        ),
{
    metric.success = false;
    append_error(&mut metric.error, msg);
}

// ---------------------------------------------------------------------------
// Query parsing
// ---------------------------------------------------------------------------

/// The pieces trimmed, with empty ones dropped.
pub open spec fn clean_pieces_spec(ps: Seq<Seq<char>>) -> Seq<Seq<char>>
    decreases ps.len(),
{
    if ps.len() == 0 {
        Seq::empty()
    } else {
        clean_pieces_spec(ps.drop_last()) + (if trimmed(ps.last()).len() > 0 {
            seq![trimmed(ps.last())]
        } else {
            Seq::<Seq<char>>::empty()
        })
    }
}

/// Every line further split on semicolons, in order.
pub open spec fn semicolon_pieces_spec(lines: Seq<Seq<char>>) -> Seq<Seq<char>>
    decreases lines.len(),
{
    if lines.len() == 0 {
        Seq::empty()
    } else {
        semicolon_pieces_spec(lines.drop_last()) + split_char_spec(lines.last(), ';')
    }
}

/// Cleaning distributes over concatenation of piece lists.
proof fn lemma_clean_pieces_add(a: Seq<Seq<char>>, b: Seq<Seq<char>>)
    ensures
        clean_pieces_spec(a + b) == clean_pieces_spec(a) + clean_pieces_spec(b),
    decreases b.len(),
{
    if b.len() == 0 {
        assert(a + b =~= a);
        assert(clean_pieces_spec(a) + clean_pieces_spec(b) =~= clean_pieces_spec(a));
    } else {
        lemma_clean_pieces_add(a, b.drop_last());
        assert((a + b).drop_last() =~= a + b.drop_last());
        assert((a + b).last() == b.last());
        assert(clean_pieces_spec(a) + clean_pieces_spec(b.drop_last()) + (if trimmed(
            b.last(),
        ).len() > 0 {
            seq![trimmed(b.last())]
        } else {
            Seq::<Seq<char>>::empty()
        }) =~= clean_pieces_spec(a) + clean_pieces_spec(b));
    }
}

/// The queries of a raw query input: split on line breaks and
/// semicolons, trimmed, with empty entries dropped.
pub open spec fn cleaned_queries_spec(s: Seq<char>) -> Seq<Seq<char>> {
    clean_pieces_spec(semicolon_pieces_spec(split_char_spec(s, '\n')))
}

/// The queries actually run: the cleaned queries, capped at five; when
/// none survive cleaning, one stock query is used.
pub open spec fn parse_queries_spec(s: Seq<char>) -> Seq<Seq<char>> {
    let qs = cleaned_queries_spec(s);
    if qs.len() == 0 {
        seq!["code search probe"@]
    } else if qs.len() > 5 {
        qs.take(5)
    } else {
        qs
    }
}

/// Parses the raw query input: entries are separated by line breaks and
/// semicolons, trimmed, empty entries are dropped, at most five are
/// kept, and a stock query stands in when none are left.
pub fn parse_queries(test_query: &str) -> (r: Vec<String>)
    ensures
        r.deep_view() == parse_queries_spec(test_query@),
        1 <= r@.len() <= 5,
{
    let lines: Vec<String> = split_on_char(test_query, '\n');
    let ghost lines_v = lines.deep_view();
    let mut out: Vec<String> = Vec::new();
    let mut i: usize = 0;
    proof {
        assert(lines_v.subrange(0, 0) =~= Seq::<Seq<char>>::empty());
        assert(out.deep_view() =~= clean_pieces_spec(
            semicolon_pieces_spec(lines_v.subrange(0, 0)),
        ));
    }
    while i < lines.len()
        invariant
            lines.deep_view() == lines_v,
            lines@.len() == lines_v.len(),
            i <= lines_v.len(),
            out.deep_view() == clean_pieces_spec(
                semicolon_pieces_spec(lines_v.subrange(0, i as int)),
            ),
        decreases lines_v.len() - i,
    {
        let pieces: Vec<String> = split_on_char(lines[i].as_str(), ';');
        let ghost pieces_v = pieces.deep_view();
        let mut j: usize = 0;
        proof {
            assert(lines@[i as int]@ == lines_v[i as int]);
            assert(pieces_v.subrange(0, 0) =~= Seq::<Seq<char>>::empty());
            assert(clean_pieces_spec(pieces_v.subrange(0, 0)) =~= Seq::<Seq<char>>::empty());
            assert(out.deep_view() + Seq::<Seq<char>>::empty() =~= out.deep_view());
        }
        let ghost out_before = out.deep_view();
        while j < pieces.len()
            invariant
                pieces.deep_view() == pieces_v,
                pieces@.len() == pieces_v.len(),
                j <= pieces_v.len(),
                out.deep_view() == out_before + clean_pieces_spec(pieces_v.subrange(0, j as int)),
            decreases pieces_v.len() - j,
        {
            let t: String = trim_str(pieces[j].as_str());
            proof {
                assert(pieces@[j as int]@ == pieces_v[j as int]);
                assert(pieces_v.subrange(0, j + 1 as int).drop_last() =~= pieces_v.subrange(
                    0,
                    j as int,
                ));
            }
            if !t.as_str().is_empty() {
                let ghost before_push = out.deep_view();
                out.push(t);
                proof {
                    assert(out.deep_view() =~= before_push.push(trimmed(pieces_v[j as int])));
                    assert(before_push.push(trimmed(pieces_v[j as int])) =~= before_push + seq![
                        trimmed(pieces_v[j as int]),
                    ]);
                    assert(out.deep_view() =~= out_before + clean_pieces_spec(
                        pieces_v.subrange(0, j + 1 as int),
                    ));
                }
            } else {
                proof {
                    assert(out.deep_view() =~= out_before + clean_pieces_spec(
                        pieces_v.subrange(0, j + 1 as int),
                    ));
                }
            }
            j = j + 1;
        }
        proof {
            assert(pieces_v.subrange(0, pieces_v.len() as int) =~= pieces_v);
            assert(pieces_v == split_char_spec(lines_v[i as int], ';'));
            assert(lines_v.subrange(0, i + 1 as int).drop_last() =~= lines_v.subrange(
                0,
                i as int,
            ));
            assert(lines_v.subrange(0, i + 1 as int).last() == lines_v[i as int]);
            lemma_clean_pieces_add(
                semicolon_pieces_spec(lines_v.subrange(0, i as int)),
                split_char_spec(lines_v[i as int], ';'),
            );
        }
        i = i + 1;
    }
    proof {
        assert(lines_v.subrange(0, lines_v.len() as int) =~= lines_v);
    }
    if out.len() == 0 {
        out.push("code search probe".to_owned());
        proof {
            assert(out.deep_view() =~= parse_queries_spec(test_query@));
        }
        return out;
    }
    let mut capped: Vec<String> = Vec::new();
    let mut k: usize = 0;
    let limit: usize = if out.len() > 5 {
        5
    } else {
        out.len()
    };
    proof {
        assert(capped.deep_view() =~= out.deep_view().subrange(0, 0));
    }
    while k < limit
        invariant
            limit <= out@.len(),
            out@.len() == out.deep_view().len(),
            k <= limit,
            capped.deep_view() == out.deep_view().subrange(0, k as int),
        decreases limit - k,
    {
        let ghost before = capped.deep_view();
        capped.push(out[k].clone());
        proof {
            assert(out@[k as int]@ == out.deep_view()[k as int]);
            assert(capped.deep_view() =~= before.push(out.deep_view()[k as int]));
            assert(capped.deep_view() =~= out.deep_view().subrange(0, k + 1 as int));
        }
        k = k + 1;
    }
    proof {
        if out.deep_view().len() > 5 {
            assert(out.deep_view().subrange(0, 5) =~= out.deep_view().take(5));
        } else {
            assert(out.deep_view().subrange(0, out.deep_view().len() as int) =~= out.deep_view());
        }
    }
    capped
}

// ---------------------------------------------------------------------------
// Recommendation
// ---------------------------------------------------------------------------

/// How many metrics measured a proxy time.
pub open spec fn metrics_proxy_count(ms: Seq<SpeedTestMetric>) -> int
    decreases ms.len(),
{
    if ms.len() == 0 {
        0
    } else {
        metrics_proxy_count(ms.drop_last()) + (if ms.last().proxy_time_ms is Some {
            1int
        } else {
            0
        })
    }
}

/// The sum of the measured proxy times.
pub open spec fn metrics_proxy_sum(ms: Seq<SpeedTestMetric>) -> int
    decreases ms.len(),
{
    if ms.len() == 0 {
        0
    } else {
        metrics_proxy_sum(ms.drop_last()) + (if ms.last().proxy_time_ms is Some {
            ms.last().proxy_time_ms->0 as int
        } else {
            0
        })
    }
}

/// How many metrics measured a direct time.
pub open spec fn metrics_direct_count(ms: Seq<SpeedTestMetric>) -> int
    decreases ms.len(),
{
    if ms.len() == 0 {
        0
    } else {
        metrics_direct_count(ms.drop_last()) + (if ms.last().direct_time_ms is Some {
            1int
        } else {
            0
        })
    }
}

/// The sum of the measured direct times.
pub open spec fn metrics_direct_sum(ms: Seq<SpeedTestMetric>) -> int
    decreases ms.len(),
{
    if ms.len() == 0 {
        0
    } else {
        metrics_direct_sum(ms.drop_last()) + (if ms.last().direct_time_ms is Some {
            ms.last().direct_time_ms->0 as int
        } else {
            0
        })
    }
}

/// How many metrics succeeded.
pub open spec fn metrics_success_count(ms: Seq<SpeedTestMetric>) -> int
    decreases ms.len(),
{
    if ms.len() == 0 {
        0
    } else {
        metrics_success_count(ms.drop_last()) + (if ms.last().success {
            1int
        } else {
            0
        })
    }
}

/// Whether every metric succeeded.
pub open spec fn metrics_all_success(ms: Seq<SpeedTestMetric>) -> bool {
    forall|i: int| 0 <= i < ms.len() ==> (#[trigger] ms[i]).success
}

/// The first failed metric, if any failed.
pub open spec fn first_failed_metric(ms: Seq<SpeedTestMetric>) -> Option<SpeedTestMetric>
    decreases ms.len(),
{
    if ms.len() == 0 {
        None
    } else {
        match first_failed_metric(ms.drop_last()) {
            Some(m) => Some(m),
            None => {
                if !ms.last().success {
                    Some(ms.last())
                } else {
                    None
                }
            },
        }
    }
}

/// The measured counts never exceed the number of metrics, and the time
/// sums never exceed count times the largest time.
proof fn lemma_metrics_bounds(ms: Seq<SpeedTestMetric>)
    ensures
        0 <= metrics_proxy_count(ms) <= ms.len(),
        0 <= metrics_proxy_sum(ms) <= metrics_proxy_count(ms) * (u64::MAX as int),
        0 <= metrics_direct_count(ms) <= ms.len(),
        0 <= metrics_direct_sum(ms) <= metrics_direct_count(ms) * (u64::MAX as int),
        0 <= metrics_success_count(ms) <= ms.len(),
    decreases ms.len(),
{
    if ms.len() > 0 {
        lemma_metrics_bounds(ms.drop_last());
        let p = metrics_proxy_count(ms.drop_last());
        let d = metrics_direct_count(ms.drop_last());
        assert((p + 1) * (u64::MAX as int) == p * (u64::MAX as int) + u64::MAX as int)
            by (nonlinear_arith);
        assert((d + 1) * (u64::MAX as int) == d * (u64::MAX as int) + u64::MAX as int)
            by (nonlinear_arith);
    }
}

/// A share of a whole, in whole percent, rounded down: never more than
/// one hundred.
proof fn lemma_percent_bound(part: int, whole: int)
    requires
        whole >= 1,
        0 <= part <= whole,
    ensures
        0 <= part * 100 / whole <= 100,
{
    lemma_div_pos_is_pos(part * 100, whole);
    vstd::arithmetic::mul::lemma_mul_inequality(part, whole, 100);
    lemma_div_is_ordered(part * 100, whole * 100, whole);
    assert(whole * 100 == 100 * whole) by (nonlinear_arith);
    lemma_div_multiples_vanish(100, whole);
}

/// The recommendation of a compare run: whichever path has the lower
/// average time across all measured metrics, with the improvement in
/// percent; a single-mode run gets a fixed closing line, and a compare
/// run where one side measured nothing cannot be compared.
pub open spec fn recommendation_spec(ms: Seq<SpeedTestMetric>, mode: Seq<char>) -> Seq<char> {
    if mode != "compare"@ {
        "single-mode test completed"@
    } else {
        let pc = metrics_proxy_count(ms);
        let dc = metrics_direct_count(ms);
        if pc == 0 || dc == 0 {
            "cannot compare: a side produced no measurements"@
        } else {
            let pavg = metrics_proxy_sum(ms) / pc;
            let davg = metrics_direct_sum(ms) / dc;
            if pavg < davg {
                "proxy recommended: about "@ + dec_digits(((davg - pavg) * 100 / davg) as nat)
                    + "% faster"@
            } else if davg < pavg {
                "direct recommended: proxy is about "@ + dec_digits(
                    ((pavg - davg) * 100 / pavg) as nat,
                ) + "% slower"@
            } else {
                "proxy and direct perform the same"@
            }
        }
    }
}

/// Generates the recommendation line for a finished test.
pub fn generate_recommendation(metrics: &Vec<SpeedTestMetric>, mode: &str) -> (r: String)
    ensures
        r@ == recommendation_spec(metrics@, mode@),
{
    if !str_eq(mode, "compare") {
        return "single-mode test completed".to_owned();
    }
    let n: usize = metrics.len();
    let mut pc: usize = 0;
    let mut dc: usize = 0;
    let mut ps: u128 = 0;
    let mut ds: u128 = 0;
    let mut i: usize = 0;
    proof {
        assert(metrics@.subrange(0, 0) =~= Seq::<SpeedTestMetric>::empty());
    }
    while i < n
        invariant
            n == metrics@.len(),
            i <= n,
            pc == metrics_proxy_count(metrics@.subrange(0, i as int)),
            ps == metrics_proxy_sum(metrics@.subrange(0, i as int)),
            dc == metrics_direct_count(metrics@.subrange(0, i as int)),
            ds == metrics_direct_sum(metrics@.subrange(0, i as int)),
        decreases n - i,
    {
        proof {
            lemma_metrics_bounds(metrics@.subrange(0, i as int));
            assert(metrics@.subrange(0, i + 1 as int).drop_last() =~= metrics@.subrange(
                0,
                i as int,
            ));
            assert((pc + 1) * (u64::MAX as int) == pc * (u64::MAX as int) + u64::MAX as int)
                by (nonlinear_arith);
            assert((dc + 1) * (u64::MAX as int) == dc * (u64::MAX as int) + u64::MAX as int)
                by (nonlinear_arith);
            assert(pc * (u64::MAX as int) <= (usize::MAX as int) * (u64::MAX as int))
                by (nonlinear_arith)
                requires
                    0 <= pc <= usize::MAX as int,
            ;
            assert(dc * (u64::MAX as int) <= (usize::MAX as int) * (u64::MAX as int))
                by (nonlinear_arith)
                requires
                    0 <= dc <= usize::MAX as int,
            ;
        }
        match metrics[i].proxy_time_ms {
            Some(t) => {
                pc = pc + 1;
                ps = ps + (t as u128);
            },
            None => {},
        }
        match metrics[i].direct_time_ms {
            Some(t) => {
                dc = dc + 1;
                ds = ds + (t as u128);
            },
            None => {},
        }
        i = i + 1;
    }
    proof {
        assert(metrics@.subrange(0, n as int) =~= metrics@);
        lemma_metrics_bounds(metrics@);
    }
    if pc == 0 || dc == 0 {
        return "cannot compare: a side produced no measurements".to_owned();
    }
    proof {
        lemma_avg_bound(ps as int, pc as int, u64::MAX as int);
        lemma_avg_bound(ds as int, dc as int, u64::MAX as int);
    }
    let pavg: u128 = ps / (pc as u128);
    let davg: u128 = ds / (dc as u128);
    if pavg < davg {
        proof {
            lemma_percent_bound(davg as int - pavg as int, davg as int);
        }
        let pct: u64 = ((davg - pavg) * 100 / davg) as u64;
        let mut s: String = "proxy recommended: about ".to_owned();
        let d: String = u64_to_dec(pct);
        s.append(d.as_str());
        s.append("% faster");
        proof {
            assert(s@ =~= recommendation_spec(metrics@, mode@));
        }
        s
    } else if davg < pavg {
        proof {
            lemma_percent_bound(pavg as int - davg as int, pavg as int);
        }
        let pct: u64 = ((pavg - davg) * 100 / pavg) as u64;
        let mut s: String = "direct recommended: proxy is about ".to_owned();
        let d: String = u64_to_dec(pct);
        s.append(d.as_str());
        s.append("% slower");
        proof {
            assert(s@ =~= recommendation_spec(metrics@, mode@));
        }
        s
    } else {
        "proxy and direct perform the same".to_owned()
    }
}

// ---------------------------------------------------------------------------
// Final result assembly
// ---------------------------------------------------------------------------

/// An error message flattened to one line for display.
pub open spec fn flat_error_spec(e: Seq<char>) -> Seq<char> {
    e.map_values(|c: char| if c == '\n' {
        '/'
    } else {
        c
    })
}

/// An error message as shown in the closing line: flattened, and cut at
/// 120 characters with an ellipsis.
pub open spec fn error_sample_spec(e: Seq<char>) -> Seq<char> {
    let f = flat_error_spec(e);
    if f.len() > 120 {
        f.take(120) + "..."@
    } else {
        f
    }
}

fn error_sample(e: &str) -> (r: String)
    ensures
        r@ == error_sample_spec(e@),
{
    let n: usize = e.unicode_len();
    let cap: usize = if n > 120 {
        120
    } else {
        n
    };
    let mut out: String = String::new();
    let mut i: usize = 0;
    proof {
        assert(out@ =~= flat_error_spec(e@).take(0));
    }
    while i < cap
        invariant
            cap <= n,
            n == e@.len(),
            i <= cap,
            out@ == flat_error_spec(e@).take(i as int),
        decreases cap - i,
    {
        let c: char = e.get_char(i);
        if c == '\n' {
            out.append("/");
            proof {
                reveal_strlit("/");
            }
        } else {
            let piece: &str = e.substring_char(i, i + 1);
            out.append(piece);
        }
        proof {
            assert(flat_error_spec(e@).take(i + 1 as int) =~= flat_error_spec(e@).take(
                i as int,
            ).push(if e@[i as int] == '\n' {
                '/'
            } else {
                e@[i as int]
            }));
            assert("/"@ =~= seq!['/'] || e@[i as int] != '\n');
            assert(out@ =~= flat_error_spec(e@).take(i + 1 as int));
        }
        i = i + 1;
    }
    if n > 120 {
        out.append("...");
    } else {
        proof {
            assert(flat_error_spec(e@).take(n as int) =~= flat_error_spec(e@));
        }
    }
    out
}

/// Whether a mode exercises the proxy path.
pub open spec fn mode_tests_proxy(mode: Seq<char>) -> bool {
    mode == "proxy"@ || mode == "compare"@
}

/// Whether a mode exercises the direct path.
pub open spec fn mode_tests_direct(mode: Seq<char>) -> bool {
    mode == "direct"@ || mode == "compare"@
}

/// The ratio fragment `ok/total` appended for one label.
pub open spec fn ratio_part_spec(label: Seq<char>, ok: nat, total: nat) -> Seq<char> {
    label + dec_digits(ok) + "/"@ + dec_digits(total)
}

/// The closing fragment naming the first failed metric, when one failed.
pub open spec fn failure_part_spec(ms: Seq<SpeedTestMetric>) -> Seq<char> {
    if metrics_all_success(ms) {
        Seq::empty()
    } else {
        match first_failed_metric(ms) {
            Some(m) => {
                match m.error {
                    Some(e) => " | first failure: "@ + m.name@ + " - "@ + error_sample_spec(e@),
                    None => " | some metric failed"@,
                }
            },
            None => Seq::empty(),
        }
    }
}

/// The whole recommendation line of a finished test: the comparison
/// verdict, the overall and per-path success ratios, and a sample of the
/// first failure.
pub open spec fn full_recommendation_spec(ms: Seq<SpeedTestMetric>, mode: Seq<char>) -> Seq<
    char,
> {
    let total = if ms.len() == 0 {
        1nat
    } else {
        ms.len()
    };
    recommendation_spec(ms, mode) + ratio_part_spec(
        " | overall success: "@,
        metrics_success_count(ms) as nat,
        total,
    ) + (if mode_tests_proxy(mode) {
        ratio_part_spec(" | proxy ok: "@, metrics_proxy_count(ms) as nat, total)
    } else {
        Seq::<char>::empty()
    }) + (if mode_tests_direct(mode) {
        ratio_part_spec(" | direct ok: "@, metrics_direct_count(ms) as nat, total)
    } else {
        Seq::<char>::empty()
    }) + failure_part_spec(ms)
}

/// Relies on chrono's `Utc::now().to_rfc3339()`: an RFC 3339 timestamp
/// of the current wall-clock time.  Its value depends on the clock; its
/// shape `YYYY-MM-DDTHH:MM:SS…` is never shorter than nineteen
/// characters.
#[verifier::external_body]
fn current_timestamp_rfc3339() -> (r: String)
    ensures
        r@.len() >= 19,
{
    chrono::Utc::now().to_rfc3339()
}

/// Assembles the final result of a speed test: the metrics as measured,
/// the full recommendation line, the overall success flag, and a
/// wall-clock timestamp.
#[verifier::rlimit(80)]
#[verifier::spinoff_prover]
pub fn build_speed_test_result(
    mode: &str,
    proxy_info: Option<DetectedProxy>,
    metrics: Vec<SpeedTestMetric>,
) -> (r: ProxySpeedTestResult)
    ensures
        r.mode@ == mode@,
        r.proxy_info == proxy_info,
        r.metrics == metrics,
        r.success == metrics_all_success(metrics@),
        r.timestamp@.len() >= 19,
        r.recommendation@ == full_recommendation_spec(metrics@, mode@),
{
    let mut rec: String = generate_recommendation(&metrics, mode);
    let n: usize = metrics.len();
    let mut ok: usize = 0;
    let mut okp: usize = 0;
    let mut okd: usize = 0;
    let mut all: bool = true;
    let mut ff_name: Option<String> = None;
    let mut ff_error: Option<Option<String>> = None;
    let mut i: usize = 0;
    proof {
        assert(metrics@.subrange(0, 0) =~= Seq::<SpeedTestMetric>::empty());
    }
    while i < n
        invariant
            n == metrics@.len(),
            i <= n,
            ok == metrics_success_count(metrics@.subrange(0, i as int)),
            okp == metrics_proxy_count(metrics@.subrange(0, i as int)),
            okd == metrics_direct_count(metrics@.subrange(0, i as int)),
            all == metrics_all_success(metrics@.subrange(0, i as int)),
            (match first_failed_metric(metrics@.subrange(0, i as int)) {
                Some(m) => {
                    &&& ff_name matches Some(fname) && fname == m.name
                    &&& ff_error matches Some(ferr) && ferr == m.error
                },
                None => ff_name is None && ff_error is None && all,
            }),
        decreases n - i,
    {
        proof {
            lemma_metrics_bounds(metrics@.subrange(0, i as int));
            assert(metrics@.subrange(0, i + 1 as int).drop_last() =~= metrics@.subrange(
                0,
                i as int,
            ));
            assert(forall|j: int|
                0 <= j < i ==> metrics@.subrange(0, i + 1 as int)[j] == (
                #[trigger] metrics@.subrange(0, i as int)[j]));
        }
        let m = &metrics[i];
        if m.success {
            ok = ok + 1;
        }
        if m.proxy_time_ms.is_some() {
            okp = okp + 1;
        }
        if m.direct_time_ms.is_some() {
            okd = okd + 1;
        }
        if !m.success && ff_name.is_none() {
            ff_name = Some(m.name.clone());
            ff_error = Some(
                match &m.error {
                    Some(e) => Some(e.clone()),
                    None => None,
                },
            );
        }
        if !m.success {
            all = false;
        }
        proof {
            assert(metrics@.subrange(0, i + 1 as int).last() == metrics@[i as int]);
        }
        i = i + 1;
    }
    proof {
        assert(metrics@.subrange(0, n as int) =~= metrics@);
    }
    let total: usize = if n == 0 {
        1
    } else {
        n
    };
    rec.append(" | overall success: ");
    let oks: String = usize_to_dec(ok);
    rec.append(oks.as_str());
    rec.append("/");
    let totals: String = usize_to_dec(total);
    rec.append(totals.as_str());
    let (test_proxy, test_direct) = mode_flags(mode);
    if test_proxy {
        rec.append(" | proxy ok: ");
        let s: String = usize_to_dec(okp);
        rec.append(s.as_str());
        rec.append("/");
        rec.append(totals.as_str());
    }
    if test_direct {
        rec.append(" | direct ok: ");
        let s: String = usize_to_dec(okd);
        rec.append(s.as_str());
        rec.append("/");
        rec.append(totals.as_str());
    }
    if !all {
        match &ff_name {
            Some(name) => {
                match &ff_error {
                    Some(Some(err)) => {
                        rec.append(" | first failure: ");
                        rec.append(name.as_str());
                        rec.append(" - ");
                        let sample: String = error_sample(err.as_str());
                        rec.append(sample.as_str());
                    },
                    _ => {
                        rec.append(" | some metric failed");
                    },
                }
            },
            None => {
                proof {
                    assert(false);
                }
            },
        }
    }
    proof {
        assert(rec@ =~= full_recommendation_spec(metrics@, mode@));
    }
    let timestamp: String = current_timestamp_rfc3339();
    ProxySpeedTestResult {
        mode: mode.to_owned(),
        proxy_info,
        metrics,
        timestamp,
        recommendation: rec,
        success: all,
    }
}

// ---------------------------------------------------------------------------
// Response classification and file choice
// ---------------------------------------------------------------------------

/// Whether an HTTP status counts as success for search and upload calls.
pub fn is_success_status(status: u16) -> (r: bool)
    ensures
        r == (200 <= status < 300),
{
    200 <= status && status < 300
}

/// Relies on `fastrand::usize` over `0..n`: a random index below `n`.
/// An empty range would panic, which the precondition rules out.
#[verifier::external_body]
fn random_below(n: usize) -> (r: usize)
    requires
        n >= 1,
    ensures
        r < n,
{
    fastrand::usize(0..n)
}

/// Chooses the file for the single-file upload test uniformly at random
/// from the snapshot; an empty snapshot yields no choice.
pub fn pick_random_file_index(files_len: usize) -> (r: Option<usize>)
    ensures
        r matches Some(i) ==> files_len > 0 && i < files_len,
        r is None <==> files_len == 0,
{
    if files_len == 0 {
        None
    } else {
        Some(random_below(files_len))
    }
}

} // verus!
