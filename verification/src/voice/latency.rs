//! Latency of voice turns: samples, and their percentiles.
use vstd::prelude::*;

use crate::stats::{ascending, ascending_ignores_order, ascending_keeps_samples, sort};
use crate::voice::VoiceEvent;

verus! {

/// What is measured.
#[derive(Debug, Clone, Copy, PartialEq, Eq, Structural, Hash)]
pub enum VoiceLatencyMetric {
    SttFinalization,
    LlmFirstToken,
    TtsFirstAudio,
    VoiceTurnRoundTrip,
}

impl VoiceLatencyMetric {
    /// The metric's name.
    pub open spec fn named(self) -> Seq<char> {
        match self {
            VoiceLatencyMetric::SttFinalization => "stt_finalization"@,
            VoiceLatencyMetric::LlmFirstToken => "llm_first_token"@,
            VoiceLatencyMetric::TtsFirstAudio => "tts_first_audio"@,
            VoiceLatencyMetric::VoiceTurnRoundTrip => "voice_turn_round_trip"@,
        }
    }

    pub fn name(self) -> (name: &'static str)
        ensures
            name@ == self.named(),
    {
        match self {
            VoiceLatencyMetric::SttFinalization => "stt_finalization",
            VoiceLatencyMetric::LlmFirstToken => "llm_first_token",
            VoiceLatencyMetric::TtsFirstAudio => "tts_first_audio",
            VoiceLatencyMetric::VoiceTurnRoundTrip => "voice_turn_round_trip",
        }
    }
}

/// A summary of one metric's samples.
#[derive(Debug, Clone, Copy, PartialEq, Eq, Structural)]
pub struct VoiceLatencyStats {
    pub samples: usize,
    pub p50_ms: u128,
    pub p95_ms: u128,
}

/// The summaries of all metrics; a metric without samples has none.
#[derive(Debug, Clone, Copy, PartialEq, Eq, Structural)]
pub struct VoiceLatencySnapshot {
    pub stt_finalization: Option<VoiceLatencyStats>,
    pub llm_first_token: Option<VoiceLatencyStats>,
    pub tts_first_audio: Option<VoiceLatencyStats>,
    pub voice_turn_round_trip: Option<VoiceLatencyStats>,
}

/// The samples of all metrics.
#[derive(Debug, Clone)]
pub struct VoiceLatencyRecorder {
    stt_finalization: Vec<u128>,
    llm_first_token: Vec<u128>,
    tts_first_audio: Vec<u128>,
    voice_turn_round_trip: Vec<u128>,
}

impl View for VoiceLatencyRecorder {
    type V = spec_fn(VoiceLatencyMetric) -> Seq<u128>;

    closed spec fn view(&self) -> spec_fn(VoiceLatencyMetric) -> Seq<u128> {
        |metric: VoiceLatencyMetric|
            match metric {
                VoiceLatencyMetric::SttFinalization => self.stt_finalization@,
                VoiceLatencyMetric::LlmFirstToken => self.llm_first_token@,
                VoiceLatencyMetric::TtsFirstAudio => self.tts_first_audio@,
                VoiceLatencyMetric::VoiceTurnRoundTrip => self.voice_turn_round_trip@,
            }
    }
}

/// The sample that an event gives, and its metric.
pub open spec fn sample_of(event: VoiceEvent) -> Option<(VoiceLatencyMetric, u128)> {
    match event {
        VoiceEvent::SttFinal { stt_elapsed_ms, .. } => Some(
            (VoiceLatencyMetric::SttFinalization, stt_elapsed_ms),
        ),
        VoiceEvent::LlmFirstToken { runtime_elapsed_ms, .. } => Some(
            (VoiceLatencyMetric::LlmFirstToken, runtime_elapsed_ms),
        ),
        VoiceEvent::TtsFirstAudio { tts_elapsed_ms, .. } => Some(
            (VoiceLatencyMetric::TtsFirstAudio, tts_elapsed_ms),
        ),
        VoiceEvent::VoiceTurnCompleted { elapsed_ms, .. } => Some(
            (VoiceLatencyMetric::VoiceTurnRoundTrip, elapsed_ms),
        ),
        _ => None,
    }
}

/// The samples of `metric` with one of `recorded` more.
pub open spec fn with_sample(
    samples: Seq<u128>,
    metric: VoiceLatencyMetric,
    recorded: VoiceLatencyMetric,
    elapsed_ms: u128,
) -> Seq<u128> {
    if metric == recorded {
        samples.push(elapsed_ms)
    } else {
        samples
    }
}

/// The rank of a percentile among `len` samples, by the nearest-rank method: the percentage of
/// `len`, rounded up.
pub open spec fn nearest_rank(len: int, percentile: int) -> int {
    (percentile * len + 99) / 100
}

/// The sample at a percentile: the one of its rank among the samples in ascending order.
pub open spec fn percentile_of(samples: Seq<u128>, percentile: int) -> u128 {
    let rank = nearest_rank(samples.len() as int, percentile);
    ascending(samples)[if rank > 0 { rank - 1 } else { 0 }]
}

/// The summary of samples; none where there are none.
pub open spec fn summary(samples: Seq<u128>) -> Option<VoiceLatencyStats> {
    if samples.len() == 0 {
        None
    } else {
        Some(
            VoiceLatencyStats {
                samples: samples.len() as usize,
                p50_ms: percentile_of(samples, 50),
                p95_ms: percentile_of(samples, 95),
            },
        )
    }
}

impl VoiceLatencyRecorder {
    pub fn new() -> (recorder: VoiceLatencyRecorder)
        ensures
            forall|metric: VoiceLatencyMetric| #[trigger] (recorder@)(metric) == Seq::<u128>::empty(),
    {
        VoiceLatencyRecorder {
            stt_finalization: Vec::new(),
            llm_first_token: Vec::new(),
            tts_first_audio: Vec::new(),
            voice_turn_round_trip: Vec::new(),
        }
    }

    pub fn record(&mut self, metric: VoiceLatencyMetric, elapsed_ms: u128)
        ensures
            forall|other: VoiceLatencyMetric| #[trigger]
                (final(self)@)(other) == with_sample(
                    (old(self)@)(other),
                    other,
                    metric,
                    elapsed_ms,
                ),
    {
        match metric {
            VoiceLatencyMetric::SttFinalization => {
                self.stt_finalization.push(elapsed_ms);
            },
            VoiceLatencyMetric::LlmFirstToken => {
                self.llm_first_token.push(elapsed_ms);
            },
            VoiceLatencyMetric::TtsFirstAudio => {
                self.tts_first_audio.push(elapsed_ms);
            },
            VoiceLatencyMetric::VoiceTurnRoundTrip => {
                self.voice_turn_round_trip.push(elapsed_ms);
            },
        }
    }

    /// Records the sample that an event gives; an event that gives none changes nothing.
    pub fn record_event(&mut self, event: &VoiceEvent)
        ensures
            forall|other: VoiceLatencyMetric| #[trigger]
                (final(self)@)(other) == (match sample_of(*event) {
                    Some((metric, elapsed_ms)) => with_sample(
                        (old(self)@)(other),
                        other,
                        metric,
                        elapsed_ms,
                    ),
                    None => (old(self)@)(other),
                }),
    {
        match event {
            VoiceEvent::SttFinal { stt_elapsed_ms, .. } => {
                self.record(VoiceLatencyMetric::SttFinalization, *stt_elapsed_ms);
            },
            VoiceEvent::LlmFirstToken { runtime_elapsed_ms, .. } => {
                self.record(VoiceLatencyMetric::LlmFirstToken, *runtime_elapsed_ms);
            },
            VoiceEvent::TtsFirstAudio { tts_elapsed_ms, .. } => {
                self.record(VoiceLatencyMetric::TtsFirstAudio, *tts_elapsed_ms);
            },
            VoiceEvent::VoiceTurnCompleted { elapsed_ms, .. } => {
                self.record(VoiceLatencyMetric::VoiceTurnRoundTrip, *elapsed_ms);
            },
            _ => {},
        }
    }

    pub fn snapshot(&self) -> (snapshot: VoiceLatencySnapshot)
        ensures
            snapshot.stt_finalization == summary((self@)(VoiceLatencyMetric::SttFinalization)),
            snapshot.llm_first_token == summary((self@)(VoiceLatencyMetric::LlmFirstToken)),
            snapshot.tts_first_audio == summary((self@)(VoiceLatencyMetric::TtsFirstAudio)),
            snapshot.voice_turn_round_trip == summary(
                (self@)(VoiceLatencyMetric::VoiceTurnRoundTrip),
            ),
    {
        VoiceLatencySnapshot {
            stt_finalization: latency_stats(&self.stt_finalization),
            llm_first_token: latency_stats(&self.llm_first_token),
            tts_first_audio: latency_stats(&self.tts_first_audio),
            voice_turn_round_trip: latency_stats(&self.voice_turn_round_trip),
        }
    }
}

impl Default for VoiceLatencyRecorder {
    fn default() -> (recorder: Self)
        ensures
            forall|metric: VoiceLatencyMetric| #[trigger] (recorder@)(metric) == Seq::<u128>::empty(),
    {
        VoiceLatencyRecorder::new()
    }
}

/// The summary of samples; none where there are none.
pub fn latency_stats(samples: &Vec<u128>) -> (stats: Option<VoiceLatencyStats>)
    ensures
        stats == summary(samples@),
{
    if samples.len() == 0 {
        return None;
    }
    let sorted = sort(samples);
    proof {
        ascending_keeps_samples(samples@);
    }
    Some(
        VoiceLatencyStats {
            samples: sorted.len(),
            p50_ms: percentile_nearest_rank(&sorted, 50),
            p95_ms: percentile_nearest_rank(&sorted, 95),
        },
    )
}

/// The sample at a percentile of samples in ascending order.
pub fn percentile_nearest_rank(sorted_samples: &Vec<u128>, percentile: usize) -> (sample: u128)
    requires
        sorted_samples@.len() > 0,
        percentile <= 100,
    ensures
        ({
            let rank = nearest_rank(sorted_samples@.len() as int, percentile as int);
            sample == sorted_samples@[if rank > 0 { rank - 1 } else { 0 }]
        }),
{
    let len: u128 = sorted_samples.len() as u128;
    assert(0 <= percentile * len <= 100 * len) by (nonlinear_arith)
        requires
            percentile <= 100,
    ;
    let rank: usize = ((percentile as u128 * len + 99) / 100) as usize;
    if rank > 0 {
        sorted_samples[rank - 1]
    } else {
        sorted_samples[0]
    }
}

/// The percentiles of a summary are samples, and the median is not above the 95th percentile.
pub proof fn percentiles_are_ordered_samples(samples: Seq<u128>)
    requires
        0 < samples.len() <= usize::MAX,
    ensures
        ({
            let stats = summary(samples).unwrap();
            &&& summary(samples) is Some
            &&& stats.samples == samples.len()
            &&& samples.contains(stats.p50_ms)
            &&& samples.contains(stats.p95_ms)
            &&& stats.p50_ms <= stats.p95_ms
        }),
{
    ascending_keeps_samples(samples);
    let len = samples.len() as int;
    assert(1 <= nearest_rank(len, 50) <= nearest_rank(len, 95) <= len);
}

/// At least the given percentage of the samples are not above the sample at a percentile.
pub proof fn percentile_covers_its_share(samples: Seq<u128>, percentile: int, i: int)
    requires
        samples.len() > 0,
        0 <= percentile <= 100,
        0 <= i < nearest_rank(samples.len() as int, percentile),
    ensures
        ascending(samples)[i] <= percentile_of(samples, percentile),
        nearest_rank(samples.len() as int, percentile) * 100 >= percentile * samples.len(),
        nearest_rank(samples.len() as int, percentile) <= samples.len(),
{
    ascending_keeps_samples(samples);
    let len = samples.len() as int;
    assert(0 <= percentile * len <= 100 * len) by (nonlinear_arith)
        requires
            0 <= percentile <= 100,
            0 <= len,
    ;
}

/// The order in which samples were recorded does not matter to their summary.
pub proof fn summary_ignores_order(a: Seq<u128>, b: Seq<u128>)
    requires
        a.to_multiset() == b.to_multiset(),
    ensures
        summary(a) == summary(b),
{
    ascending_ignores_order(a, b);
    ascending_keeps_samples(a);
    ascending_keeps_samples(b);
}

/// The sample at a percentile is that of the least rank up to which there is that share of all
/// samples, in ascending order.
pub proof fn percentiles_have_the_least_rank(samples: Seq<u128>, percentile: int)
    requires
        samples.len() > 0,
        1 <= percentile <= 100,
    ensures
        exists|rank: int|
            1 <= rank <= samples.len() && 100 * (rank - 1) < percentile * samples.len() <= 100 * rank
                && percentile_of(samples, percentile) == #[trigger] ascending(samples)[rank - 1],
{
    let len = samples.len() as int;
    let rank = nearest_rank(len, percentile);
    assert(percentile <= percentile * len <= 100 * len) by (nonlinear_arith)
        requires
            1 <= percentile <= 100,
            1 <= len,
    ;
    assert(percentile_of(samples, percentile) == ascending(samples)[rank - 1]);
}

/// A summary counts all samples, and tells the least of them that half of all, and the least that
/// ninety-five of a hundred, do not exceed.
pub proof fn a_summary_tells_median_and_tail(samples: Seq<u128>)
    requires
        0 < samples.len() <= usize::MAX,
    ensures
        ({
            let stats = summary(samples).unwrap();
            let sorted = ascending(samples);
            let n = samples.len() as int;
            &&& summary(samples) is Some
            &&& stats.samples == n
            &&& exists|rank: int|
                1 <= rank <= n && 2 * (rank - 1) < n <= 2 * rank && stats.p50_ms
                    == #[trigger] sorted[rank - 1]
            &&& exists|rank: int|
                1 <= rank <= n && 20 * (rank - 1) < 19 * n <= 20 * rank && stats.p95_ms
                    == #[trigger] sorted[rank - 1]
        }),
{
    percentiles_have_the_least_rank(samples, 50);
    percentiles_have_the_least_rank(samples, 95);
}

/// The metrics of a turn come from its own events: the final transcript tells how long
/// transcription took, the first token how long the agent took, the first audio how long speech
/// took, and the end of a turn that was completed how long all took. No other event gives a sample,
/// and each sample is added to its own metric alone.
pub proof fn each_metric_takes_its_own_event(
    event: VoiceEvent,
    samples: Seq<u128>,
    metric: VoiceLatencyMetric,
    recorded: VoiceLatencyMetric,
    elapsed_ms: u128,
)
    ensures
        sample_of(event) is Some <==> event is SttFinal || event is LlmFirstToken || event
            is TtsFirstAudio || event is VoiceTurnCompleted,
        event is SttFinal ==> sample_of(event) == Some(
            (VoiceLatencyMetric::SttFinalization, event->SttFinal_stt_elapsed_ms),
        ),
        event is LlmFirstToken ==> sample_of(event) == Some(
            (VoiceLatencyMetric::LlmFirstToken, event->LlmFirstToken_runtime_elapsed_ms),
        ),
        event is TtsFirstAudio ==> sample_of(event) == Some(
            (VoiceLatencyMetric::TtsFirstAudio, event->TtsFirstAudio_tts_elapsed_ms),
        ),
        event is VoiceTurnCompleted ==> sample_of(event) == Some(
            (VoiceLatencyMetric::VoiceTurnRoundTrip, event->VoiceTurnCompleted_elapsed_ms),
        ),
        metric != recorded ==> with_sample(samples, metric, recorded, elapsed_ms) == samples,
        with_sample(samples, metric, metric, elapsed_ms) == samples.push(elapsed_ms),
{
}

} // verus!
