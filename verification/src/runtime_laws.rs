//! What holds of groups of routes as a whole.
use vstd::prelude::*;

use crate::audio::latency_profile::LatencyProfile;
use crate::configuration::{RelayLatencyProfile, RouteView};
use crate::receipts::RegistryView;
use crate::relay_error::RelayFault;
use crate::runtime::{RelayStreamProfile, RouteAudio, RouteInput, StreamPlan};

verus! {

/// Whether two routes agree in everything that one publisher needs: relay, Session,
/// credential, publisher group, STUN servers and startup deadline.
pub open spec fn agree(a: RouteView, b: RouteView) -> bool {
    &&& a.relay_url == b.relay_url
    &&& a.relay_session_id == b.relay_session_id
    &&& a.source_token == b.source_token
    &&& a.publisher_group_id == b.publisher_group_id
    &&& a.ice_servers == b.ice_servers
    &&& a.startup_timeout_ns == b.startup_timeout_ns
}

/// Whether a route can stand behind those before it.
pub open spec fn joins(routes: Seq<RouteView>, i: int) -> bool {
    &&& agree(routes[0], routes[i])
    &&& forall|j: int| 0 <= j < i ==> (#[trigger] routes[j]).bus_id != routes[i].bus_id
}

pub(crate) proof fn lemma_one_publisher(a: RouteView, b: RouteView)
    ensures
        crate::configuration::one_publisher(a, b) <==> agree(a, b),
{
    if agree(a, b) {
        assert(a == (RouteView { bus_id: a.bus_id, latency_profile: a.latency_profile, ..b }));
    }
}

proof fn lemma_joins(routes: Seq<RouteView>, i: int)
    requires
        0 <= i < routes.len(),
    ensures
        crate::runtime::member_fault(routes, i) is None <==> joins(routes, i),
        crate::runtime::member_fault(routes, i) is Some ==> crate::runtime::member_fault(routes, i)
            == Some(
            if agree(routes[0], routes[i]) {
                RelayFault::DuplicateBus
            } else {
                RelayFault::PublisherGroupMismatch
            },
        ),
{
    lemma_one_publisher(routes[0], routes[i]);
}

proof fn lemma_first_misfit(routes: Seq<RouteView>, i: int)
    requires
        0 <= i <= routes.len(),
    ensures
        crate::runtime::group_fault(routes, i) is None ==> forall|k: int|
            i <= k < routes.len() ==> joins(routes, k),
        crate::runtime::group_fault(routes, i) matches Some(fault) ==> exists|k: int|
            i <= k < routes.len() && #[trigger] misfits(routes, i, k, fault),
    decreases routes.len() - i,
{
    if i < routes.len() {
        lemma_joins(routes, i);
        lemma_first_misfit(routes, i + 1);
        if crate::runtime::member_fault(routes, i) is Some {
            assert(misfits(routes, i, i, crate::runtime::member_fault(routes, i)->0));
        } else if crate::runtime::group_fault(routes, i) is Some {
            let fault = crate::runtime::group_fault(routes, i)->0;
            let k = choose|k: int| i + 1 <= k < routes.len() && #[trigger]
                misfits(routes, i + 1, k, fault);
            assert(misfits(routes, i, k, fault));
        }
    }
}

/// Whether the route at `k` is the first from `i` on that cannot join, for this reason.
pub open spec fn misfits(routes: Seq<RouteView>, i: int, k: int, fault: RelayFault) -> bool {
    &&& forall|m: int| i <= m < k ==> joins(routes, m)
    &&& !joins(routes, k)
    &&& fault == (if agree(routes[0], routes[k]) {
        RelayFault::DuplicateBus
    } else {
        RelayFault::PublisherGroupMismatch
    })
}

/// A group passes exactly where its routes agree in relay, Session, credential, publisher
/// group, STUN servers and startup deadline, each of them, and no two publish the same
/// AudioBus. Where it does not, the first route that cannot join says why.
pub proof fn groups_agree_in_every_setting(routes: Seq<RouteView>)
    ensures
        crate::runtime::group_fault(routes, 0) is None <==> (forall|i: int, j: int|
            0 <= i < routes.len() && 0 <= j < routes.len() ==> agree(
                #[trigger] routes[i],
                #[trigger] routes[j],
            )) && (forall|i: int, j: int|
            0 <= i < j < routes.len() ==> (#[trigger] routes[i]).bus_id != (
            #[trigger] routes[j]).bus_id),
        crate::runtime::group_fault(routes, 0) matches Some(fault) ==> exists|k: int|
            0 <= k < routes.len() && #[trigger] misfits(routes, 0, k, fault),
{
    lemma_first_misfit(routes, 0);
    if crate::runtime::group_fault(routes, 0) is None {
        assert forall|i: int, j: int| 0 <= i < routes.len() && 0 <= j < routes.len() implies agree(
            #[trigger] routes[i],
            #[trigger] routes[j],
        ) by {
            assert(joins(routes, i) && joins(routes, j));
        }
        assert forall|i: int, j: int| 0 <= i < j < routes.len() implies (
        #[trigger] routes[i]).bus_id != (#[trigger] routes[j]).bus_id by {
            assert(joins(routes, j));
        }
    } else {
        let fault = crate::runtime::group_fault(routes, 0)->0;
        let k = choose|k: int| 0 <= k < routes.len() && #[trigger] misfits(routes, 0, k, fault);
        if agree(routes[0], routes[k]) {
            let j = choose|j: int|
                0 <= j < k && (#[trigger] routes[j]).bus_id == routes[k].bus_id;
            assert(routes[j].bus_id == routes[k].bus_id);
        } else {
            assert(!agree(routes[0], routes[k]));
        }
    }
}

/// Whether an input can be published: its configuration was read, and it carries audio.
pub open spec fn usable(input: RouteInput) -> bool {
    input.configuration is Ok && input.is_audio
}

proof fn lemma_first_input_fault(inputs: Seq<RouteInput>)
    ensures
        crate::runtime::first_input_fault(inputs) is None <==> forall|i: int|
            0 <= i < inputs.len() ==> usable(#[trigger] inputs[i]),
        crate::runtime::first_input_fault(inputs) matches Some(fault) ==> exists|k: int|
            0 <= k < inputs.len() && #[trigger] first_unusable(inputs, k, fault),
    decreases inputs.len(),
{
    if inputs.len() > 0 {
        let rest = inputs.drop_first();
        lemma_first_input_fault(rest);
        if crate::runtime::input_fault(inputs[0]) is Some {
            assert(!usable(inputs[0]));
            assert(first_unusable(inputs, 0, crate::runtime::input_fault(inputs[0])->0));
        } else if crate::runtime::first_input_fault(inputs) is Some {
            let fault = crate::runtime::first_input_fault(inputs)->0;
            let k = choose|k: int| 0 <= k < rest.len() && #[trigger] first_unusable(rest, k, fault);
            assert(!usable(rest[k]));
            assert(inputs[k + 1] == rest[k]);
            assert forall|m: int| 0 <= m < k + 1 implies usable(#[trigger] inputs[m]) by {
                if m > 0 {
                    assert(rest[m - 1] == inputs[m]);
                }
            }
            assert(first_unusable(inputs, k + 1, fault));
        } else {
            assert forall|i: int| 0 <= i < inputs.len() implies usable(#[trigger] inputs[i]) by {
                if i > 0 {
                    assert(rest[i - 1] == inputs[i]);
                }
            }
        }
    }
}

/// Whether the input at `k` is the first that cannot be published, for this reason.
pub open spec fn first_unusable(inputs: Seq<RouteInput>, k: int, fault: RelayFault) -> bool {
    &&& forall|m: int| 0 <= m < k ==> usable(#[trigger] inputs[m])
    &&& match inputs[k].configuration {
        Err(error) => fault == RelayFault::InvalidConfiguration(error),
        Ok(_) => !inputs[k].is_audio && fault == RelayFault::AudioInputRequired,
    }
}

/// A group is prepared exactly where it has one to sixteen inputs, each can be published,
/// their routes agree and publish different AudioBuses, the registry has room for a receipt of
/// each, and no receipt of theirs is there already.
pub proof fn groups_are_prepared_whole(v: RegistryView, inputs: Seq<RouteInput>)
    ensures
        crate::runtime::preparation_fault(v, inputs) is None <==> {
            &&& 1 <= inputs.len() <= 16
            &&& forall|i: int| 0 <= i < inputs.len() ==> usable(#[trigger] inputs[i])
            &&& forall|i: int, j: int|
                0 <= i < inputs.len() && 0 <= j < inputs.len() ==> agree(
                    (#[trigger] inputs[i]).configuration->Ok_0@,
                    (#[trigger] inputs[j]).configuration->Ok_0@,
                )
            &&& forall|i: int, j: int|
                0 <= i < j < inputs.len() ==> (#[trigger] inputs[i]).configuration->Ok_0@.bus_id != (
                #[trigger] inputs[j]).configuration->Ok_0@.bus_id
            &&& v.receipts.len() + inputs.len() <= v.capacity
            &&& forall|i: int|
                0 <= i < inputs.len() ==> !v.receipts.contains_key((#[trigger] inputs[i]).key@)
        },
{
    let routes = crate::runtime::input_routes(inputs);
    let keys = crate::runtime::input_keys(inputs);
    lemma_first_input_fault(inputs);
    groups_agree_in_every_setting(routes);
    assert forall|i: int| 0 <= i < inputs.len() implies routes[i]
        == (#[trigger] inputs[i]).configuration->Ok_0@ && keys[i] == inputs[i].key@ by {}
    if crate::runtime::preparation_fault(v, inputs) is None {
        assert forall|i: int, j: int|
            0 <= i < inputs.len() && 0 <= j < inputs.len() implies agree(
            (#[trigger] inputs[i]).configuration->Ok_0@,
            (#[trigger] inputs[j]).configuration->Ok_0@,
        ) by {
            assert(agree(routes[i], routes[j]));
        }
        assert forall|i: int, j: int| 0 <= i < j < inputs.len() implies (
        #[trigger] inputs[i]).configuration->Ok_0@.bus_id != (
        #[trigger] inputs[j]).configuration->Ok_0@.bus_id by {
            assert(routes[i].bus_id != routes[j].bus_id);
        }
        assert forall|i: int| 0 <= i < inputs.len() implies !v.receipts.contains_key(
            (#[trigger] inputs[i]).key@,
        ) by {
            assert(!v.receipts.contains_key(keys[i]));
        }
    } else if 1 <= inputs.len() <= 16 && (forall|i: int|
        0 <= i < inputs.len() ==> usable(#[trigger] inputs[i])) {
        if crate::runtime::group_fault(routes, 0) is Some {
            if forall|i: int, j: int|
                0 <= i < routes.len() && 0 <= j < routes.len() ==> agree(
                    #[trigger] routes[i],
                    #[trigger] routes[j],
                ) {
                let (i, j) = choose|i: int, j: int|
                    0 <= i < j < routes.len() && (#[trigger] routes[i]).bus_id == (
                    #[trigger] routes[j]).bus_id;
                assert(inputs[i].configuration->Ok_0@.bus_id
                    == inputs[j].configuration->Ok_0@.bus_id);
            } else {
                let (i, j) = choose|i: int, j: int|
                    0 <= i < routes.len() && 0 <= j < routes.len() && !agree(
                        #[trigger] routes[i],
                        #[trigger] routes[j],
                    );
                assert(!agree(
                    inputs[i].configuration->Ok_0@,
                    inputs[j].configuration->Ok_0@,
                ));
            }
        } else if v.receipts.len() + inputs.len() <= v.capacity {
            let i = choose|i: int| 0 <= i < keys.len() && v.receipts.contains_key(#[trigger] keys[i]);
            assert(v.receipts.contains_key(inputs[i].key@));
        }
    }
}

/// A stream carries the audio of its route, under the name of the route's AudioBus: mono as
/// voice and stereo as music, at 48 kHz in interleaved `f32` samples, with the latency that the
/// route asks for. Other audio makes no stream.
pub proof fn streams_carry_their_routes(plan: StreamPlan, route: RouteView, audio: RouteAudio)
    ensures
        crate::runtime::plans(plan, route, audio) <==> {
            &&& audio.sample_rate_hz == 48_000
            &&& audio.interleaved_f32
            &&& audio.channels == 1 && plan.profile == RelayStreamProfile::VoiceMono20ms
                || audio.channels == 2 && plan.profile == RelayStreamProfile::MusicStereo20ms
            &&& plan.latency_profile == LatencyProfile::Low <==> route.latency_profile
                == RelayLatencyProfile::Low
            &&& plan.stream_id@ == route.bus_id
        },
        crate::runtime::audio_profile(audio) is Ok <==> audio.sample_rate_hz == 48_000
            && audio.interleaved_f32 && (audio.channels == 1 || audio.channels == 2),
{
}

/// A group that is not prepared says why: the number of its inputs, the first input that
/// cannot be used, the first route that cannot join, or what the registry cannot hold, in
/// this order.
pub proof fn groups_are_told_why(v: RegistryView, inputs: Seq<RouteInput>)
    ensures
        inputs.len() == 0 || inputs.len() > 16 ==> crate::runtime::preparation_fault(v, inputs)
            == Some(RelayFault::InvalidBusCount),
        1 <= inputs.len() <= 16 && (exists|i: int|
            0 <= i < inputs.len() && !usable(#[trigger] inputs[i])) ==> exists|k: int|
            0 <= k < inputs.len() && #[trigger] first_unusable(
                inputs,
                k,
                crate::runtime::preparation_fault(v, inputs)->0,
            ),
        1 <= inputs.len() <= 16 && (forall|i: int|
            0 <= i < inputs.len() ==> usable(#[trigger] inputs[i])) ==> {
            let routes = Seq::new(inputs.len(), |i: int| inputs[i].configuration->Ok_0@);
            let keys = Seq::new(inputs.len(), |i: int| inputs[i].key@);
            crate::runtime::preparation_fault(v, inputs) == (if crate::runtime::group_fault(
                routes,
                0,
            ) is Some {
                crate::runtime::group_fault(routes, 0)
            } else {
                crate::receipts::reserve_fault(v, keys)
            })
        },
{
    lemma_first_input_fault(inputs);
    assert(crate::runtime::input_routes(inputs) =~= Seq::new(
        inputs.len(),
        |i: int| inputs[i].configuration->Ok_0@,
    ));
    assert(crate::runtime::input_keys(inputs) =~= Seq::new(
        inputs.len(),
        |i: int| inputs[i].key@,
    ));
}

/// Audio that cannot be published says why: its sample rate, its format or its channels, in
/// this order.
pub proof fn audio_is_told_what_is_wrong(audio: RouteAudio)
    ensures
        audio.sample_rate_hz != 48_000 ==> crate::runtime::audio_profile(audio) == Err::<
            RelayStreamProfile,
            RelayFault,
        >(RelayFault::UnsupportedSampleRate(audio.sample_rate_hz)),
        audio.sample_rate_hz == 48_000 && !audio.interleaved_f32 ==> crate::runtime::audio_profile(
            audio,
        ) == Err::<RelayStreamProfile, RelayFault>(RelayFault::UnsupportedSampleFormat),
        audio.sample_rate_hz == 48_000 && audio.interleaved_f32 && audio.channels != 1
            && audio.channels != 2 ==> crate::runtime::audio_profile(audio) == Err::<
            RelayStreamProfile,
            RelayFault,
        >(RelayFault::UnsupportedChannelCount(audio.channels)),
{
}

} // verus!
