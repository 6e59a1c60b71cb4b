//! The results of publications, and the bounded registry that keeps them for the caller.
use pocketstation::connector::ConnectorError;
use pocketstation::{EdgeObservations, EndpointId, RouteId};
use std::collections::HashMap;
use std::sync::{Arc, OnceLock};
use vstd::prelude::*;

use crate::relay_error::{ErrorView, RelayFault};

verus! {

// Keys.

/// Names one publication: the endpoint and the route that feeds it.
#[derive(Debug, PartialEq, Eq, Hash)]
pub struct RelayPublishReceiptKey {
    pub endpoint_id: EndpointId,
    pub route_id: RouteId,
}

impl Copy for RelayPublishReceiptKey {

}

impl Clone for RelayPublishReceiptKey {
    fn clone(&self) -> (key: RelayPublishReceiptKey)
        ensures
            key == *self,
    {
        *self
    }
}

/// A key as one number.
pub open spec fn key_number(endpoint: u64, route: u64) -> u128 {
    (endpoint * 0x1_0000_0000_0000_0000 + route) as u128
}

impl View for RelayPublishReceiptKey {
    type V = u128;

    open spec fn view(&self) -> u128 {
        key_number(
            crate::boundary::endpoint_number(self.endpoint_id),
            crate::boundary::route_number(self.route_id),
        )
    }
}

impl RelayPublishReceiptKey {
    /// The key as one number.
    pub fn number(&self) -> (n: u128)
        ensures
            n == self@,
    {
        self.endpoint_id.get() as u128 * 0x1_0000_0000_0000_0000 + self.route_id.get() as u128
    }
}

/// The numbers of a list of keys.
pub open spec fn key_views(keys: Seq<RelayPublishReceiptKey>) -> Seq<u128> {
    keys.map_values(|key: RelayPublishReceiptKey| key@)
}

/// Publications are told apart by their endpoint and their route.
pub proof fn keys_are_told_apart(
    endpoint: u64,
    route: u64,
    other_endpoint: u64,
    other_route: u64,
)
    ensures
        key_number(endpoint, route) == key_number(other_endpoint, other_route) <==> (endpoint
            == other_endpoint && route == other_route),
{
}

// Results.

#[derive(Debug, Clone, Copy, PartialEq, Eq, Structural)]
pub struct RelayPublishStatistics {
    pub rtp_packets_sent_total: u64,
    pub rtp_payload_bytes_sent_total: u64,
    pub rtc_poll_drains_total: u64,
    pub rtc_writer_writes_total: u64,
    pub elapsed_ms: u64,
    pub opus_packets_encoded_total: u64,
    pub opus_encode_errors_total: u64,
    pub encoder_channel_drops_total: u64,
    pub publisher_stale_drops_total: u64,
    pub ingress_queue_drops_total: u64,
    pub cancelled_output_frames_total: u64,
    pub cancelled_output_samples_total: u64,
}

pub open spec fn no_statistics() -> RelayPublishStatistics {
    RelayPublishStatistics {
        rtp_packets_sent_total: 0,
        rtp_payload_bytes_sent_total: 0,
        rtc_poll_drains_total: 0,
        rtc_writer_writes_total: 0,
        elapsed_ms: 0,
        opus_packets_encoded_total: 0,
        opus_encode_errors_total: 0,
        encoder_channel_drops_total: 0,
        publisher_stale_drops_total: 0,
        ingress_queue_drops_total: 0,
        cancelled_output_frames_total: 0,
        cancelled_output_samples_total: 0,
    }
}

impl Default for RelayPublishStatistics {
    fn default() -> (statistics: RelayPublishStatistics)
        ensures
            statistics == no_statistics(),
    {
        RelayPublishStatistics {
            rtp_packets_sent_total: 0,
            rtp_payload_bytes_sent_total: 0,
            rtc_poll_drains_total: 0,
            rtc_writer_writes_total: 0,
            elapsed_ms: 0,
            opus_packets_encoded_total: 0,
            opus_encode_errors_total: 0,
            encoder_channel_drops_total: 0,
            publisher_stale_drops_total: 0,
            ingress_queue_drops_total: 0,
            cancelled_output_frames_total: 0,
            cancelled_output_samples_total: 0,
        }
    }
}

/// What a publication came to.
#[derive(Debug, PartialEq, Eq)]
pub struct RelayPublishResult {
    pub key: RelayPublishReceiptKey,
    pub statistics: RelayPublishStatistics,
    pub edge_observations: EdgeObservations,
    pub error: Option<ConnectorError>,
}

/// What a result says.
pub struct ResultView {
    pub key: u128,
    pub statistics: RelayPublishStatistics,
    pub edge_observations: EdgeObservations,
    pub error: Option<ErrorView>,
}

pub open spec fn error_view(error: Option<ConnectorError>) -> Option<ErrorView> {
    match error {
        Some(error) => Some(crate::boundary::error_parts(error)),
        None => None,
    }
}

impl View for RelayPublishResult {
    type V = ResultView;

    open spec fn view(&self) -> ResultView {
        ResultView {
            key: self.key@,
            statistics: self.statistics,
            edge_observations: self.edge_observations,
            error: error_view(self.error),
        }
    }
}

/// A copy of an error.
pub fn copy_error(error: &Option<ConnectorError>) -> (r: Option<ConnectorError>)
    ensures
        error_view(r) == error_view(*error),
{
    match error {
        Some(error) => Some(error.clone()),
        None => None,
    }
}

impl Clone for RelayPublishResult {
    fn clone(&self) -> (result: RelayPublishResult)
        ensures
            result@ == self@,
    {
        RelayPublishResult {
            key: self.key,
            statistics: self.statistics,
            edge_observations: self.edge_observations,
            error: copy_error(&self.error),
        }
    }
}

// Receipts.

/// A handle on the place where the result of a publication will be. Clones are handles on
/// the same place: each of them shows the result once it is there. No other publication's
/// result is shown.
pub struct RelayPublishReceipt {
    key: RelayPublishReceiptKey,
    place: Arc<OnceLock<RelayPublishResult>>,
}

impl View for RelayPublishReceipt {
    type V = OnceLock<RelayPublishResult>;

    /// The place.
    closed spec fn view(&self) -> OnceLock<RelayPublishResult> {
        *self.place
    }
}

/// Whether a place was made for a result that is not there yet.
pub open spec fn is_new_place(place: OnceLock<RelayPublishResult>) -> bool {
    call_ensures(OnceLock::<RelayPublishResult>::new, (), place)
}

/// Whether this is what a look at the place showed.
pub open spec fn place_showed(
    place: OnceLock<RelayPublishResult>,
    result: Option<&RelayPublishResult>,
) -> bool {
    call_ensures(OnceLock::<RelayPublishResult>::get, (&place,), result)
}

/// Whether the result was entered into the place. The place keeps the first one.
pub open spec fn was_entered(place: OnceLock<RelayPublishResult>, result: ResultView) -> bool {
    exists|entered: RelayPublishResult, outcome: Result<(), RelayPublishResult>|
        entered@ == result && #[trigger] call_ensures(
            OnceLock::<RelayPublishResult>::set,
            (&place, entered),
            outcome,
        )
}

impl Clone for RelayPublishReceipt {
    fn clone(&self) -> (receipt: RelayPublishReceipt)
        ensures
            receipt@ == self@,
            receipt.key() == self.key(),
    {
        RelayPublishReceipt { key: self.key, place: self.place.clone() }
    }
}

/// A result that is there stands.
pub open spec fn settled(receipt: Option<ResultView>, result: ResultView) -> Option<ResultView> {
    match receipt {
        Some(earlier) => Some(earlier),
        None => Some(result),
    }
}

/// What a receipt shows of what a look at its place showed: the result of its own
/// publication.
pub open spec fn own_result<'a>(found: Option<&'a RelayPublishResult>, key: u128) -> Option<
    &'a RelayPublishResult,
> {
    match found {
        Some(result) => if result@.key == key {
            Some(result)
        } else {
            None
        },
        None => None,
    }
}

impl RelayPublishReceipt {
    /// The number of the publication's key.
    pub closed spec fn key(&self) -> u128 {
        self.key@
    }

    /// The result, once there is one. That there is none does not mean success.
    #[must_use]
    pub fn result(&self) -> (r: Option<&RelayPublishResult>)
        ensures
            exists|found: Option<&RelayPublishResult>| #[trigger]
                place_showed(self@, found) && r == own_result(found, self.key()),
            r matches Some(result) ==> result@.key == self.key(),
    {
        let found = self.place.get();
        assert(place_showed(self@, found));
        match found {
            Some(result) => if result.key.number() == self.key.number() {
                Some(result)
            } else {
                None
            },
            None => None,
        }
    }
}

/// What the registry keeps of a publication: the place that its receipts show, and the result.
struct Publication {
    place: Arc<OnceLock<RelayPublishResult>>,
    result: Option<RelayPublishResult>,
}

impl View for Publication {
    type V = Option<ResultView>;

    closed spec fn view(&self) -> Option<ResultView> {
        match self.result {
            Some(result) => Some(result@),
            None => None,
        }
    }
}

// The registry.

/// What a registry holds.
#[verifier::ext_equal]
pub struct RegistryView {
    /// The results, as far as they are there, by the numbers of their keys.
    pub receipts: Map<u128, Option<ResultView>>,
    pub capacity: nat,
}

/// A bounded set of receipts.
pub struct ReceiptRegistry {
    publications: HashMap<u128, Publication>,
    capacity: usize,
}

impl View for ReceiptRegistry {
    type V = RegistryView;

    closed spec fn view(&self) -> RegistryView {
        RegistryView {
            receipts: self.publications@.map_values(|publication: Publication| publication@),
            capacity: self.capacity as nat,
        }
    }
}

/// The receipts with an empty one for each of the keys.
pub open spec fn reserved(
    receipts: Map<u128, Option<ResultView>>,
    keys: Seq<u128>,
) -> Map<u128, Option<ResultView>> {
    Map::new(
        |key: u128| receipts.contains_key(key) || keys.contains(key),
        |key: u128|
            if keys.contains(key) {
                None
            } else {
                receipts[key]
            },
    )
}

/// Whether each of the keys got a new place, and the others kept theirs.
pub open spec fn places_reserved(
    before: Map<u128, OnceLock<RelayPublishResult>>,
    after: Map<u128, OnceLock<RelayPublishResult>>,
    keys: Seq<u128>,
) -> bool {
    &&& before.submap_of(after)
    &&& forall|key: u128| keys.contains(key) ==> is_new_place(#[trigger] after[key])
}

/// The receipts without those of the keys.
pub open spec fn released(
    receipts: Map<u128, Option<ResultView>>,
    keys: Seq<u128>,
) -> Map<u128, Option<ResultView>> {
    Map::new(
        |key: u128| receipts.contains_key(key) && !keys.contains(key),
        |key: u128| receipts[key],
    )
}

/// The receipts once a publication has ended. One that is not there stays away.
pub open spec fn completed(
    receipts: Map<u128, Option<ResultView>>,
    key: u128,
    result: ResultView,
) -> Map<u128, Option<ResultView>> {
    if receipts.contains_key(key) {
        receipts.insert(key, settled(receipts[key], result))
    } else {
        receipts
    }
}

/// Whether the result of a publication is there to be taken.
pub open spec fn has_result(receipts: Map<u128, Option<ResultView>>, key: u128) -> bool {
    receipts.contains_key(key) && receipts[key] is Some
}

pub open spec fn any_reserved(receipts: Map<u128, Option<ResultView>>, keys: Seq<u128>) -> bool {
    exists|i: int| 0 <= i < keys.len() && receipts.contains_key(#[trigger] keys[i])
}

/// Why no receipts can be reserved for the keys.
pub open spec fn reserve_fault(v: RegistryView, keys: Seq<u128>) -> Option<RelayFault> {
    if v.receipts.len() + keys.len() > v.capacity {
        Some(RelayFault::ReceiptCapacityExhausted)
    } else if any_reserved(v.receipts, keys) {
        Some(RelayFault::DuplicateReceipt)
    } else {
        None
    }
}

impl ReceiptRegistry {
    /// The places of the results, by the numbers of their keys.
    pub closed spec fn places(&self) -> Map<u128, OnceLock<RelayPublishResult>> {
        self.publications@.map_values(|publication: Publication| *publication.place)
    }

    /// The registry holds no more receipts than it was made for, each with its place.
    pub open spec fn wf(&self) -> bool {
        &&& self@.receipts.dom().finite()
        &&& self.places().dom() == self@.receipts.dom()
        &&& self@.receipts.len() <= self@.capacity
        &&& 0 < self@.capacity <= usize::MAX
    }

    /// An empty registry.
    pub fn new(capacity: usize) -> (r: Result<ReceiptRegistry, RelayFault>)
        ensures
            r is Ok <==> capacity > 0,
            r matches Ok(registry) ==> {
                &&& registry.wf()
                &&& registry@ == (RegistryView {
                    receipts: Map::empty(),
                    capacity: capacity as nat,
                })
            },
            r matches Err(fault) ==> fault == RelayFault::InvalidReceiptCapacity,
    {
        if capacity == 0 {
            return Err(RelayFault::InvalidReceiptCapacity);
        }
        let registry = ReceiptRegistry { publications: HashMap::new(), capacity };
        assert(registry@.receipts =~= Map::empty());
        assert(registry.places().dom() =~= registry@.receipts.dom());
        Ok(registry)
    }

    /// Reserves a receipt for each of the keys, or none at all.
    pub fn reserve(&mut self, keys: &Vec<RelayPublishReceiptKey>) -> (r: Result<(), RelayFault>)
        requires
            old(self).wf(),
        ensures
            final(self).wf(),
            r is Ok <==> reserve_fault(old(self)@, key_views(keys@)) is None,
            r is Ok ==> final(self)@ == (RegistryView {
                receipts: reserved(old(self)@.receipts, key_views(keys@)),
                ..old(self)@
            }),
            r is Ok ==> places_reserved(
                old(self).places(),
                final(self).places(),
                key_views(keys@),
            ),
            r matches Err(fault) ==> {
                &&& reserve_fault(old(self)@, key_views(keys@)) == Some(fault)
                &&& final(self)@ == old(self)@
                &&& final(self).places() == old(self).places()
            },
    {
        broadcast use vstd::std_specs::hash::group_hash_axioms;

        let ghost all = key_views(keys@);
        let held: usize = self.publications.len();
        assert(self@.receipts.dom() =~= self.publications@.dom());
        if keys.len() > self.capacity - held {
            return Err(RelayFault::ReceiptCapacityExhausted);
        }
        let mut i: usize = 0;
        while i < keys.len()
            invariant
                i <= keys@.len(),
                all == key_views(keys@),
                *self == *old(self),
                self.wf(),
                self@.receipts.len() + all.len() <= self@.capacity,
                forall|j: int| 0 <= j < i ==> !self@.receipts.contains_key(#[trigger] all[j]),
            decreases keys.len() - i,
        {
            broadcast use vstd::std_specs::hash::group_hash_axioms;

            if self.publications.contains_key(&keys[i].number()) {
                assert(self@.receipts.contains_key(all[i as int]));
                return Err(RelayFault::DuplicateReceipt);
            }
            assert(!self@.receipts.contains_key(all[i as int]));
            i = i + 1;
        }
        assert(!any_reserved(self@.receipts, all));
        let mut i: usize = 0;
        assert(all.take(0) =~= Seq::empty());
        assert(self@.receipts =~= reserved(old(self)@.receipts, all.take(0)));
        while i < keys.len()
            invariant
                i <= keys@.len(),
                all == key_views(keys@),
                self.capacity == old(self).capacity,
                old(self)@.receipts.len() + all.len() <= old(self)@.capacity,
                !any_reserved(old(self)@.receipts, all),
                old(self).places().dom() == old(self)@.receipts.dom(),
                self.places().dom() == self@.receipts.dom(),
                places_reserved(old(self).places(), self.places(), all.take(i as int)),
                self@.receipts == reserved(old(self)@.receipts, all.take(i as int)),
                self@.receipts.dom().finite(),
                self@.receipts.len() <= old(self)@.receipts.len() + i,
            decreases keys.len() - i,
        {
            broadcast use vstd::std_specs::hash::group_hash_axioms;

            let ghost before = self@.receipts;
            let ghost places = self.places();
            let place: Arc<OnceLock<RelayPublishResult>> = Arc::new(OnceLock::new());
            self.publications.insert(keys[i].number(), Publication { place, result: None });
            proof {
                assert(self@.receipts =~= before.insert(all[i as int], None));
                assert(self@.receipts.dom() =~= before.dom().insert(all[i as int]));
                assert(self.places() =~= places.insert(all[i as int], *place));
                assert(!old(self)@.receipts.contains_key(all[i as int]));
                lemma_one_more_key(all, i as int);
                assert(self@.receipts =~= reserved(old(self)@.receipts, all.take(i + 1)));
            }
            i = i + 1;
        }
        assert(all.take(i as int) =~= all);
        Ok(())
    }

    /// Gives the receipts of the keys up.
    pub fn release(&mut self, keys: &Vec<RelayPublishReceiptKey>)
        requires
            old(self).wf(),
        ensures
            final(self).wf(),
            final(self)@ == (RegistryView {
                receipts: released(old(self)@.receipts, key_views(keys@)),
                ..old(self)@
            }),
            final(self).places().submap_of(old(self).places()),
    {
        let ghost all = key_views(keys@);
        let mut i: usize = 0;
        assert(all.take(0) =~= Seq::empty());
        assert(self@.receipts =~= released(old(self)@.receipts, all.take(0)));
        while i < keys.len()
            invariant
                i <= keys@.len(),
                all == key_views(keys@),
                self.capacity == old(self).capacity,
                self.wf(),
                self.places().submap_of(old(self).places()),
                self@.receipts == released(old(self)@.receipts, all.take(i as int)),
            decreases keys.len() - i,
        {
            broadcast use vstd::std_specs::hash::group_hash_axioms;

            let ghost before = self@.receipts;
            let ghost places = self.places();
            self.publications.remove(&keys[i].number());
            proof {
                assert(self.places() =~= places.remove(all[i as int]));
                assert(self@.receipts =~= before.remove(all[i as int]));
                assert(self@.receipts.dom() =~= before.dom().remove(all[i as int]));
                lemma_one_more_key(all, i as int);
                assert(self@.receipts =~= released(old(self)@.receipts, all.take(i + 1)));
            }
            i = i + 1;
        }
        assert(all.take(i as int) =~= all);
    }

    /// The receipt of a publication.
    pub fn receipt(&self, key: RelayPublishReceiptKey) -> (r: Option<RelayPublishReceipt>)
        ensures
            r is Some <==> self@.receipts.contains_key(key@),
            r matches Some(receipt) ==> receipt@ == self.places()[key@] && receipt.key() == key@,
    {
        broadcast use vstd::std_specs::hash::group_hash_axioms;

        match self.publications.get(&key.number()) {
            Some(publication) => Some(
                RelayPublishReceipt { key, place: publication.place.clone() },
            ),
            None => None,
        }
    }

    /// Enters the result of a publication, which its receipts then show.
    pub fn complete(&mut self, result: RelayPublishResult)
        requires
            old(self).wf(),
        ensures
            final(self).wf(),
            final(self)@ == (RegistryView {
                receipts: completed(old(self)@.receipts, result@.key, result@),
                ..old(self)@
            }),
            final(self).places() == old(self).places(),
            old(self)@.receipts.contains_key(result@.key) && !has_result(
                old(self)@.receipts,
                result@.key,
            ) ==> was_entered(
                old(self).places()[result@.key],
                result@,
            ),
    {
        broadcast use vstd::std_specs::hash::group_hash_axioms;

        let ghost before = self@.receipts;
        let number: u128 = result.key.number();
        if let Some(publication) = self.publications.remove(&number) {
            let completed = match publication.result {
                Some(earlier) => Publication { place: publication.place, result: Some(earlier) },
                None => {
                    let entered = result.clone();
                    let outcome = publication.place.set(entered);
                    assert(call_ensures(
                        OnceLock::<RelayPublishResult>::set,
                        (&*publication.place, entered),
                        outcome,
                    ));
                    Publication { place: publication.place, result: Some(result) }
                },
            };
            self.publications.insert(number, completed);
            proof {
                assert(self@.receipts =~= before.insert(
                    number,
                    settled(before[number], result@),
                ));
                assert(self@.receipts.dom() =~= before.dom());
                assert(self.places() =~= old(self).places());
            }
        } else {
            assert(self@.receipts =~= before);
            assert(self.places() =~= old(self).places());
        }
    }

    /// Takes the result of a publication that has ended, and gives its receipt up.
    pub fn take_result(&mut self, key: RelayPublishReceiptKey) -> (r: Option<RelayPublishResult>)
        requires
            old(self).wf(),
        ensures
            final(self).wf(),
            r is Some <==> has_result(old(self)@.receipts, key@),
            r matches Some(result) ==> old(self)@.receipts[key@] == Some(result@),
            final(self)@ == (RegistryView {
                receipts: if has_result(old(self)@.receipts, key@) {
                    old(self)@.receipts.remove(key@)
                } else {
                    old(self)@.receipts
                },
                ..old(self)@
            }),
            final(self).places().submap_of(old(self).places()),
    {
        broadcast use vstd::std_specs::hash::group_hash_axioms;

        let ghost before = self@.receipts;
        let number: u128 = key.number();
        match self.publications.get(&number) {
            Some(publication) => if publication.result.is_none() {
                return None;
            },
            None => {
                return None;
            },
        }
        match self.publications.remove(&number) {
            Some(publication) => {
                assert(self@.receipts =~= before.remove(number));
                assert(self@.receipts.dom() =~= before.dom().remove(number));
                assert(self.places() =~= old(self).places().remove(number));
                publication.result
            },
            None => None,
        }
    }
}

// What holds of receipts.

/// A preparation that fails leaves no trace: releasing the keys for which receipts were
/// reserved gives the receipts that were there before.
pub proof fn releasing_undoes_reserving(receipts: Map<u128, Option<ResultView>>, keys: Seq<u128>)
    requires
        !any_reserved(receipts, keys),
    ensures
        released(reserved(receipts, keys), keys) == receipts,
{
    assert forall|key: u128| keys.contains(key) implies !receipts.contains_key(key) by {
        let i = choose|i: int| 0 <= i < keys.len() && keys[i] == key;
        assert(!receipts.contains_key(keys[i]));
    }
    assert(released(reserved(receipts, keys), keys) =~= receipts);
}

proof fn lemma_one_more_key(keys: Seq<u128>, i: int)
    requires
        0 <= i < keys.len(),
    ensures
        forall|key: u128| #[trigger]
            keys.take(i + 1).contains(key) <==> keys.take(i).contains(key) || key == keys[i],
{
    let before = keys.take(i);
    let after = keys.take(i + 1);
    assert(after[i] == keys[i]);
    assert forall|key: u128| #[trigger] after.contains(key) implies before.contains(key) || key
        == keys[i] by {
        let j = choose|j: int| 0 <= j < after.len() && after[j] == key;
        if j < i {
            assert(before[j] == key);
        }
    }
    assert forall|key: u128| before.contains(key) implies #[trigger] after.contains(key) by {
        let j = choose|j: int| 0 <= j < before.len() && before[j] == key;
        assert(after[j] == key);
    }
}

/// The first result of a publication stands.
pub proof fn first_results_stand(
    receipts: Map<u128, Option<ResultView>>,
    key: u128,
    first: ResultView,
    second: ResultView,
)
    ensures
        completed(completed(receipts, key, first), key, second) == completed(receipts, key, first),
{
    assert(completed(completed(receipts, key, first), key, second) =~= completed(
        receipts,
        key,
        first,
    ));
}

/// A result that was entered under a reserved receipt is the one that is taken, and it is
/// taken once.
pub proof fn results_are_taken_once(
    receipts: Map<u128, Option<ResultView>>,
    key: u128,
    result: ResultView,
)
    requires
        receipts.contains_key(key),
        receipts[key] is None,
    ensures
        has_result(completed(receipts, key, result), key),
        completed(receipts, key, result)[key] == Some(result),
        !has_result(completed(receipts, key, result).remove(key), key),
        !has_result(receipts, key),
{
}

} // verus!
