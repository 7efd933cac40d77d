//! Linear 16-bit audio: its bytes, its channels, its loudness and its length.
use vstd::prelude::*;

verus! {

/// The first byte of a sample: its low eight bits.
pub open spec fn low_byte(sample: i16) -> u8 {
    ((sample as int) % 256) as u8
}

/// The second byte of a sample: its high eight bits.
pub open spec fn high_byte(sample: i16) -> u8 {
    ((sample as int) % 65536 / 256) as u8
}

/// The sample of two bytes, the low one first, in two's complement.
pub open spec fn sample_of(low: u8, high: u8) -> i16 {
    let value = low + 256 * high;
    if value < 32768 {
        value as i16
    } else {
        (value - 65536) as i16
    }
}

/// The bytes of samples, each low byte first.
pub open spec fn encoded(samples: Seq<i16>) -> Seq<u8> {
    Seq::new(
        (2 * samples.len()) as nat,
        |i: int|
            if i % 2 == 0 {
                low_byte(samples[i / 2])
            } else {
                high_byte(samples[i / 2])
            },
    )
}

/// A byte that waits for the one after it, in front of bytes.
pub open spec fn with_pending(pending: Option<u8>, bytes: Seq<u8>) -> Seq<u8> {
    match pending {
        Some(first) => seq![first] + bytes,
        None => bytes,
    }
}

/// The samples of all bytes, pair by pair.
pub open spec fn decoded(bytes: Seq<u8>) -> Seq<i16> {
    Seq::new((bytes.len() / 2) as nat, |i: int| sample_of(bytes[2 * i], bytes[2 * i + 1]))
}

/// The byte that is left over where there is an odd number of them.
pub open spec fn left_over(bytes: Seq<u8>) -> Option<u8> {
    if bytes.len() % 2 == 1 {
        Some(bytes.last())
    } else {
        None
    }
}

/// The bytes of samples, each low byte first.
pub fn linear16_samples_to_bytes(samples: &[i16]) -> (bytes: Vec<u8>)
    ensures
        bytes@ == encoded(samples@),
{
    let mut bytes: Vec<u8> = Vec::new();
    let mut i: usize = 0;
    while i < samples.len()
        invariant
            i <= samples@.len(),
            bytes@ == encoded(samples@.take(i as int)),
        decreases samples@.len() - i,
    {
        let sample = samples[i];
        let value: u32 = if sample < 0 {
            (sample as i32 + 65536) as u32
        } else {
            sample as u32
        };
        assert(value == (sample as int) % 65536);
        let low: u8 = (value % 256) as u8;
        let high: u8 = (value / 256) as u8;
        bytes.push(low);
        bytes.push(high);
        i = i + 1;
        proof {
            assert((value as int) % 256 == (sample as int) % 256);
            assert(bytes@ =~= encoded(samples@.take(i as int)));
        }
    }
    assert(samples@.take(i as int) =~= samples@);
    bytes
}

/// The samples of bytes; a byte that is left over is dropped.
pub fn linear16_bytes_to_samples(bytes: &[u8]) -> (samples: Vec<i16>)
    ensures
        samples@ == decoded(bytes@),
{
    let mut pending: Option<u8> = None;
    linear16_bytes_to_samples_with_pending(&mut pending, bytes)
}

fn sample_from(low: u8, high: u8) -> (sample: i16)
    ensures
        sample == sample_of(low, high),
{
    let value: i32 = low as i32 + 256 * high as i32;
    if value < 32768 {
        value as i16
    } else {
        (value - 65536) as i16
    }
}

/// The samples of the pending byte and `bytes`; a byte that is left over is pending.
pub fn linear16_bytes_to_samples_with_pending(pending_byte: &mut Option<u8>, bytes: &[u8]) -> (
    samples: Vec<i16>)
    ensures
        samples@ == decoded(with_pending(*old(pending_byte), bytes@)),
        *final(pending_byte) == left_over(with_pending(*old(pending_byte), bytes@)),
{
    let ghost all = with_pending(*pending_byte, bytes@);
    let mut samples: Vec<i16> = Vec::new();
    let mut i: usize = 0;
    let ghost shift: int = all.len() - bytes@.len();
    if let Some(first) = *pending_byte {
        if bytes.len() == 0 {
            assert(all.len() == 1);
            assert(samples@ =~= decoded(all));
            return samples;
        }
        *pending_byte = None;
        assert(all[0] == first && all[1] == bytes@[0]);
        samples.push(sample_from(first, bytes[0]));
        i = 1;
    }
    assert(forall|j: int| 0 <= j < bytes@.len() ==> all[j + shift] == #[trigger] bytes@[j]);
    while bytes.len() - i >= 2
        invariant
            i <= bytes@.len(),
            all.len() == bytes@.len() + shift,
            0 <= shift <= 1,
            i + shift == 2 * samples@.len(),
            *pending_byte is None,
            forall|j: int| 0 <= j < bytes@.len() ==> all[j + shift] == #[trigger] bytes@[j],
            forall|j: int|
                0 <= j < samples@.len() ==> #[trigger] samples@[j] == sample_of(
                    all[2 * j],
                    all[2 * j + 1],
                ),
        decreases bytes@.len() - i,
    {
        assert(all[i + shift] == bytes@[i as int]);
        assert(all[i + 1 + shift] == bytes@[i + 1]);
        samples.push(sample_from(bytes[i], bytes[i + 1]));
        i = i + 2;
    }
    if bytes.len() - i == 1 {
        assert(all[i + shift] == bytes@[i as int]);
        *pending_byte = Some(bytes[i]);
    }
    assert(samples@ =~= decoded(all));
    samples
}

/// Samples that are turned to bytes and back are the same, and no byte is left over.
pub proof fn samples_round_trip(samples: Seq<i16>)
    ensures
        decoded(encoded(samples)) == samples,
        left_over(encoded(samples)) is None,
{
    let bytes = encoded(samples);
    assert forall|i: int| 0 <= i < samples.len() implies #[trigger] decoded(bytes)[i]
        == samples[i] by {
        assert(bytes[2 * i] == low_byte(samples[i]));
        assert(bytes[2 * i + 1] == high_byte(samples[i]));
    }
    assert(decoded(bytes) =~= samples);
}

/// Bytes that are turned to samples and back are the same, but for one that is left over.
pub proof fn bytes_round_trip(bytes: Seq<u8>)
    ensures
        encoded(decoded(bytes)) == bytes.take(bytes.len() - bytes.len() % 2),
        left_over(bytes) matches Some(last) ==> bytes == encoded(decoded(bytes)).push(last),
        left_over(bytes) is None ==> bytes == encoded(decoded(bytes)),
{
    let samples = decoded(bytes);
    let again = encoded(samples);
    let even = bytes.len() - bytes.len() % 2;
    assert forall|i: int| 0 <= i < even implies #[trigger] again[i] == bytes[i] by {
        let k = i / 2;
        assert(samples[k] == sample_of(bytes[2 * k], bytes[2 * k + 1]));
        sample_holds_its_bytes(bytes[2 * k], bytes[2 * k + 1]);
        assert(i == 2 * k || i == 2 * k + 1);
    }
    assert(again =~= bytes.take(even));
    if bytes.len() % 2 == 1 {
        assert(bytes =~= again.push(bytes.last()));
    } else {
        assert(bytes =~= again);
    }
}

proof fn sample_holds_its_bytes(low: u8, high: u8)
    ensures
        low_byte(sample_of(low, high)) == low,
        high_byte(sample_of(low, high)) == high,
{
    let value = low + 256 * high;
    let sample = sample_of(low, high);
    assert(value < 65536);
    assert((sample as int) % 65536 == value);
    assert((sample as int) % 256 == low);
    assert(value / 256 == high);
}

/// Bytes that come in two parts give the samples, and the left-over byte, of both parts at once.
pub proof fn decoding_is_independent_of_parts(pending: Option<u8>, first: Seq<u8>, second: Seq<u8>)
    ensures
        ({
            let head = with_pending(pending, first);
            let tail = with_pending(left_over(head), second);
            let all = with_pending(pending, first + second);
            &&& decoded(all) == decoded(head) + decoded(tail)
            &&& left_over(all) == left_over(tail)
        }),
{
    let head = with_pending(pending, first);
    let tail = with_pending(left_over(head), second);
    let all = with_pending(pending, first + second);
    assert(all =~= head + second);
    let even = (head.len() - head.len() % 2) as int;
    assert(all.skip(even) =~= tail) by {
        if head.len() % 2 == 1 {
            assert(all[even] == head.last());
        }
    }
    assert(decoded(all).len() == decoded(head).len() + decoded(tail).len());
    assert forall|i: int| 0 <= i < decoded(all).len() implies #[trigger] decoded(all)[i] == (
    decoded(head) + decoded(tail))[i] by {
        if i >= decoded(head).len() {
            let j = i - decoded(head).len();
            assert(all[2 * i] == all.skip(even)[2 * j]);
            assert(all[2 * i + 1] == all.skip(even)[2 * j + 1]);
        }
    }
    assert(decoded(all) =~= decoded(head) + decoded(tail));
    if tail.len() > 0 {
        assert(all.last() == all.skip(even).last());
    }
}

/// The samples that make whole frames of all channels.
pub open spec fn whole_frames(samples: Seq<i16>, channels: u32) -> Seq<i16> {
    if channels == 0 {
        Seq::empty()
    } else {
        samples.take(samples.len() - samples.len() % (channels as nat))
    }
}

/// Drops the samples of a frame that lacks some of its channels.
pub fn truncate_to_complete_channels(samples: &mut Vec<i16>, channels: u32)
    ensures
        final(samples)@ == whole_frames(old(samples)@, channels),
{
    if channels == 0 {
        samples.clear();
        return ;
    }
    let len: usize = samples.len();
    let left: usize = len % channels as usize;
    proof {
        vstd::arithmetic::div_mod::lemma_mod_decreases(len as nat, channels as nat);
    }
    samples.truncate(len - left);
    assert(samples@ =~= whole_frames(old(samples)@, channels));
}

/// What is kept is whole frames, and less than one frame is dropped.
pub proof fn truncation_keeps_whole_frames(samples: Seq<i16>, channels: u32)
    requires
        channels > 0,
    ensures
        whole_frames(samples, channels).len() % (channels as nat) == 0,
        samples.len() - whole_frames(samples, channels).len() < channels,
        whole_frames(samples, channels) == samples.take(
            whole_frames(samples, channels).len() as int,
        ),
{
    let n = samples.len() as int;
    let c = channels as int;
    vstd::arithmetic::div_mod::lemma_fundamental_div_mod(n, c);
    vstd::arithmetic::div_mod::lemma_mod_bound(n, c);
    assert((n - n % c) % c == 0) by {
        vstd::arithmetic::div_mod::lemma_mod_multiples_basic(n / c, c);
        vstd::arithmetic::mul::lemma_mul_is_commutative(c, n / c);
    }
}

/// How far a sample is from silence.
pub open spec fn loudness(sample: i16) -> int {
    if sample < 0 {
        -sample
    } else {
        sample as int
    }
}

/// How far all samples are from silence.
pub open spec fn total_loudness(samples: Seq<i16>) -> int
    decreases samples.len(),
{
    if samples.len() == 0 {
        0
    } else {
        total_loudness(samples.drop_last()) + loudness(samples.last())
    }
}

/// Whether a frame holds speech: it has samples, and on average they are at least as loud as the
/// threshold.
pub open spec fn has_speech(samples: Seq<i16>, speech_threshold: u32) -> bool {
    samples.len() > 0 && total_loudness(samples) / (samples.len() as int) >= speech_threshold
}

/// Whether a frame holds speech.
pub fn frame_has_speech(samples: &[i16], speech_threshold: u32) -> (speech: bool)
    ensures
        speech == has_speech(samples@, speech_threshold),
{
    if samples.len() == 0 {
        return false;
    }
    let mut total: u128 = 0;
    let mut i: usize = 0;
    while i < samples.len()
        invariant
            i <= samples@.len(),
            total == total_loudness(samples@.take(i as int)),
            total <= 32768 * i,
        decreases samples@.len() - i,
    {
        let sample = samples[i];
        let loud: u128 = if sample < 0 {
            (-(sample as i32)) as u128
        } else {
            sample as u128
        };
        total = total + loud;
        i = i + 1;
        proof {
            assert(samples@.take(i as int).drop_last() =~= samples@.take(i - 1));
        }
    }
    assert(samples@.take(i as int) =~= samples@);
    total / samples.len() as u128 >= speech_threshold as u128
}

/// The length of a frame in whole milliseconds; nothing where its sample rate is not known.
pub open spec fn frame_ms(sample_rate: u32, samples_per_channel: u32) -> int {
    if sample_rate == 0 {
        0
    } else {
        samples_per_channel * 1000 / (sample_rate as int)
    }
}

/// The length of a frame in whole milliseconds.
pub fn audio_frame_elapsed_ms(sample_rate: u32, samples_per_channel: u32) -> (ms: u128)
    ensures
        ms == frame_ms(sample_rate, samples_per_channel),
{
    if sample_rate == 0 {
        return 0;
    }
    samples_per_channel as u128 * 1000 / sample_rate as u128
}

/// The two bytes of a sample hold it in two's complement, the low one first.
pub proof fn samples_are_little_endian(samples: Seq<i16>, bytes: Seq<u8>, i: int)
    requires
        0 <= i,
    ensures
        i < samples.len() ==> (encoded(samples)[2 * i] + 256 * encoded(samples)[2 * i + 1] - (
        samples[i] as int)) % 65536 == 0,
        encoded(samples).len() == 2 * samples.len(),
        2 * i + 1 < bytes.len() ==> (bytes[2 * i] + 256 * bytes[2 * i + 1] - (decoded(
            bytes,
        )[i] as int)) % 65536 == 0,
        decoded(bytes).len() == bytes.len() / 2,
{
    if i < samples.len() {
        let sample = samples[i] as int;
        assert(encoded(samples)[2 * i] == low_byte(samples[i]));
        assert(encoded(samples)[2 * i + 1] == high_byte(samples[i]));
        assert(low_byte(samples[i]) + 256 * high_byte(samples[i]) == sample % 65536);
    }
    if 2 * i + 1 < bytes.len() {
        assert(decoded(bytes)[i] == sample_of(bytes[2 * i], bytes[2 * i + 1]));
    }
}

/// A frame holds speech exactly where it has samples and their distances from silence, which do not
/// depend on their signs, sum up to at least the threshold for each of them.
pub proof fn speech_is_as_loud_as_the_threshold(samples: Seq<i16>, threshold: u32, sample: i16)
    ensures
        has_speech(samples, threshold) <==> samples.len() > 0 && total_loudness(samples)
            >= threshold * samples.len(),
        loudness(sample) >= 0,
        loudness(sample) == sample || loudness(sample) == -sample,
        total_loudness(samples.push(sample)) == total_loudness(samples) + loudness(sample),
        total_loudness(Seq::empty()) == 0,
{
    assert(samples.push(sample).drop_last() =~= samples);
    if samples.len() > 0 {
        let total = total_loudness(samples);
        let n = samples.len() as int;
        let t = threshold as int;
        vstd::arithmetic::div_mod::lemma_fundamental_div_mod(total, n);
        vstd::arithmetic::div_mod::lemma_mod_bound(total, n);
        let q = total / n;
        if q >= t {
            assert(n * q >= n * t) by (nonlinear_arith)
                requires
                    q >= t,
                    n > 0,
            ;
            assert(n * t == t * n) by (nonlinear_arith);
        } else {
            assert(n * (q + 1) <= n * t) by (nonlinear_arith)
                requires
                    q + 1 <= t,
                    n > 0,
            ;
            assert(n * (q + 1) == n * q + n) by (nonlinear_arith);
            assert(n * t == t * n) by (nonlinear_arith);
        }
    }
}

/// Where each sample is as loud as the threshold there is speech, and where none is there is not.
pub proof fn loud_frames_hold_speech(samples: Seq<i16>, threshold: u32)
    requires
        samples.len() > 0,
    ensures
        (forall|i: int| 0 <= i < samples.len() ==> loudness(#[trigger] samples[i]) >= threshold)
            ==> has_speech(samples, threshold),
        (forall|i: int| 0 <= i < samples.len() ==> loudness(#[trigger] samples[i]) < threshold)
            ==> !has_speech(samples, threshold),
{
    speech_is_as_loud_as_the_threshold(samples, threshold, 0);
    loudness_is_bounded(samples, threshold as int);
}

proof fn loudness_is_bounded(samples: Seq<i16>, bound: int)
    ensures
        (forall|i: int| 0 <= i < samples.len() ==> loudness(#[trigger] samples[i]) >= bound)
            ==> total_loudness(samples) >= bound * samples.len(),
        samples.len() > 0 && (forall|i: int|
            0 <= i < samples.len() ==> loudness(#[trigger] samples[i]) < bound) ==> total_loudness(
            samples,
        ) < bound * samples.len(),
    decreases samples.len(),
{
    if samples.len() > 0 {
        let rest = samples.drop_last();
        let n = rest.len() as int;
        loudness_is_bounded(rest, bound);
        assert(bound * (n + 1) == bound * n + bound) by (nonlinear_arith);
        assert(samples.last() == samples[n]);
        if forall|i: int| 0 <= i < samples.len() ==> loudness(#[trigger] samples[i]) >= bound {
            assert forall|i: int| 0 <= i < rest.len() implies loudness(#[trigger] rest[i])
                >= bound by {
                assert(loudness(samples[i]) >= bound);
            }
        }
        if forall|i: int| 0 <= i < samples.len() ==> loudness(#[trigger] samples[i]) < bound {
            assert forall|i: int| 0 <= i < rest.len() implies loudness(#[trigger] rest[i])
                < bound by {
                assert(loudness(samples[i]) < bound);
            }
            assert(loudness(samples[n]) < bound);
            if n == 0 {
                assert(total_loudness(rest) == 0);
                assert(bound * n == 0);
            }
        }
    }
}

/// The length of a frame is the time that its samples take at its rate, in milliseconds, less than
/// one of which is not counted.
pub proof fn a_frame_is_as_long_as_its_samples(sample_rate: u32, samples_per_channel: u32)
    requires
        sample_rate > 0,
    ensures
        frame_ms(sample_rate, samples_per_channel) * sample_rate <= samples_per_channel * 1000,
        samples_per_channel * 1000 < (frame_ms(sample_rate, samples_per_channel) + 1) * sample_rate,
{
    let n = samples_per_channel * 1000;
    let rate = sample_rate as int;
    vstd::arithmetic::div_mod::lemma_fundamental_div_mod(n as int, rate);
    vstd::arithmetic::div_mod::lemma_mod_bound(n as int, rate);
    let ms = frame_ms(sample_rate, samples_per_channel);
    assert(ms * rate == rate * ms) by (nonlinear_arith);
    assert((ms + 1) * rate == ms * rate + rate) by (nonlinear_arith);
}

} // verus!
