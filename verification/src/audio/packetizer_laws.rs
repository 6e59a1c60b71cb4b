//! What holds of packetization as a whole.
use vstd::arithmetic::div_mod::{
    lemma_fundamental_div_mod, lemma_fundamental_div_mod_converse,
};
use vstd::prelude::*;

use crate::audio::pcm_packetizer::PacketizerView;

verus! {

/// A packetizer between two source frames: mono or stereo, with room left.
pub open spec fn between_frames<T>(v: PacketizerView<T>) -> bool {
    &&& v.channels == 1 || v.channels == 2
    &&& v.pending.len() < crate::audio::pcm_packetizer::packet_size(v.channels)
}

/// The samples of the first `n` packets, in order.
pub open spec fn packets_joined<T>(v: PacketizerView<T>, samples: Seq<T>, n: nat) -> Seq<T>
    decreases n,
{
    if n == 0 {
        Seq::empty()
    } else {
        packets_joined(v, samples, (n - 1) as nat)
            + crate::audio::pcm_packetizer::packet_samples(v, samples, n - 1)
    }
}

proof fn lemma_division<T>(v: PacketizerView<T>, samples: Seq<T>)
    requires
        between_frames(v),
    ensures
        ({
            let size = crate::audio::pcm_packetizer::packet_size(v.channels);
            let count = crate::audio::pcm_packetizer::packet_count(v, samples);
            &&& 0 <= count
            &&& 0 <= count * size <= v.pending.len() + samples.len() < count * size + size
        }),
{
    let size = crate::audio::pcm_packetizer::packet_size(v.channels);
    let total = (v.pending.len() + samples.len()) as int;
    lemma_fundamental_div_mod(total, size);
    let count = total / size;
    assert(count * size == size * count) by (nonlinear_arith);
    assert(0 <= count * size) by (nonlinear_arith)
        requires
            0 <= count,
            0 <= size,
    ;
}

proof fn lemma_joined<T>(v: PacketizerView<T>, samples: Seq<T>, n: nat)
    requires
        between_frames(v),
        n * crate::audio::pcm_packetizer::packet_size(v.channels) <= v.pending.len()
            + samples.len(),
    ensures
        packets_joined(v, samples, n) == (v.pending + samples).take(
            n * crate::audio::pcm_packetizer::packet_size(v.channels),
        ),
    decreases n,
{
    let size = crate::audio::pcm_packetizer::packet_size(v.channels);
    let total = v.pending + samples;
    if n == 0 {
        assert(0 * size == 0) by (nonlinear_arith);
        assert(total.take(0) =~= Seq::empty());
    } else {
        let m = n - 1;
        assert((m + 1) * size == m * size + size) by (nonlinear_arith);
        assert(0 <= m * size) by (nonlinear_arith)
            requires
                0 <= m,
                0 <= size,
        ;
        lemma_joined(v, samples, m as nat);
        assert(total.take(m * size) + total.subrange(m * size, n * size) =~= total.take(n * size));
    }
}

/// No sample is lost, added or moved: the packets and what stays pending are the
/// samples that were pending and those of the frame.
pub proof fn packetization_keeps_every_sample<T>(
    v: PacketizerView<T>,
    samples: Seq<T>,
    frame_timestamp_ns: u64,
)
    requires
        between_frames(v),
    ensures
        packets_joined(
            v,
            samples,
            crate::audio::pcm_packetizer::packet_count(v, samples) as nat,
        ) + crate::audio::pcm_packetizer::frame_packetized(v, samples, frame_timestamp_ns).pending
            == v.pending + samples,
        between_frames(
            crate::audio::pcm_packetizer::frame_packetized(v, samples, frame_timestamp_ns),
        ),
{
    let size = crate::audio::pcm_packetizer::packet_size(v.channels);
    let count = crate::audio::pcm_packetizer::packet_count(v, samples);
    lemma_division(v, samples);
    lemma_joined(v, samples, count as nat);
    let total = v.pending + samples;
    assert(total.take(count * size) + total.skip(count * size) =~= total);
}

/// Packets do not depend on how wide the frames are in which their samples come: two
/// frames in a row give the packets, and leave the samples pending, that one frame
/// with the samples of both does.
pub proof fn packets_do_not_depend_on_frame_widths<T>(
    v: PacketizerView<T>,
    first: Seq<T>,
    second: Seq<T>,
    first_timestamp_ns: u64,
    second_timestamp_ns: u64,
    k: int,
)
    requires
        between_frames(v),
        0 <= k < crate::audio::pcm_packetizer::packet_count(v, first + second),
    ensures
        ({
            let mid = crate::audio::pcm_packetizer::frame_packetized(v, first, first_timestamp_ns);
            let end = crate::audio::pcm_packetizer::frame_packetized(
                mid,
                second,
                second_timestamp_ns,
            );
            let n = crate::audio::pcm_packetizer::packet_count(v, first);
            &&& end.pending == crate::audio::pcm_packetizer::frame_packetized(
                v,
                first + second,
                first_timestamp_ns,
            ).pending
            &&& crate::audio::pcm_packetizer::packet_count(v, first + second) == n
                + crate::audio::pcm_packetizer::packet_count(mid, second)
            &&& crate::audio::pcm_packetizer::packet_samples(v, first + second, k) == if k < n {
                crate::audio::pcm_packetizer::packet_samples(v, first, k)
            } else {
                crate::audio::pcm_packetizer::packet_samples(mid, second, k - n)
            }
        }),
{
    let size = crate::audio::pcm_packetizer::packet_size(v.channels);
    let mid = crate::audio::pcm_packetizer::frame_packetized(v, first, first_timestamp_ns);
    let n = crate::audio::pcm_packetizer::packet_count(v, first);
    let m = crate::audio::pcm_packetizer::packet_count(mid, second);
    let whole = v.pending + (first + second);
    lemma_division(v, first);
    packetization_keeps_every_sample(v, first, first_timestamp_ns);
    lemma_division(mid, second);
    assert((n + m) * size == n * size + m * size) by (nonlinear_arith);
    lemma_fundamental_div_mod_converse(
        whole.len() as int,
        size,
        n + m,
        whole.len() - (n + m) * size,
    );
    assert(mid.pending + second =~= whole.skip(n * size));
    assert(whole.skip(n * size).skip(m * size) =~= whole.skip((n + m) * size));
    assert(0 <= k * size) by (nonlinear_arith)
        requires
            0 <= k,
            0 <= size,
    ;
    assert((k + 1) * size == k * size + size) by (nonlinear_arith);
    assert((k + 1) * size <= (n + m) * size) by (nonlinear_arith)
        requires
            k + 1 <= n + m,
            0 <= size,
    ;
    if k < n {
        assert((k + 1) * size <= n * size) by (nonlinear_arith)
            requires
                k + 1 <= n,
                0 <= size,
        ;
        assert(whole.subrange(k * size, (k + 1) * size) =~= (v.pending + first).subrange(
            k * size,
            (k + 1) * size,
        ));
    } else {
        let j = k - n;
        assert(k * size == n * size + j * size) by (nonlinear_arith)
            requires
                k == n + j,
        ;
        assert((j + 1) * size == j * size + size) by (nonlinear_arith);
        assert(0 <= j * size) by (nonlinear_arith)
            requires
                0 <= j,
                0 <= size,
        ;
        assert(whole.subrange(k * size, (k + 1) * size) =~= whole.skip(n * size).subrange(
            j * size,
            (j + 1) * size,
        ));
    }
}

/// No packet mixes the samples of two output generations, and none bridges a gap in
/// the sequence: in either case a frame begins with nothing pending.
pub proof fn packets_stay_within_a_generation_and_a_run<T>(
    v: PacketizerView<T>,
    sequence_number: u64,
    generation: Option<u64>,
)
    ensures
        ({
            let begun = crate::audio::pcm_packetizer::frame_begun(
                crate::audio::pcm_packetizer::owned_by(v, generation),
                sequence_number,
            );
            &&& begun.generation == generation
            &&& v.generation != generation ==> begun.pending.len() == 0
            &&& crate::audio::pcm_packetizer::at_gap(v, sequence_number) ==> begun.pending.len()
                == 0
            &&& begun.pending.len() == 0 || begun.pending == v.pending
        }),
{
}

} // verus!
