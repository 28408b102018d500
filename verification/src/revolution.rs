//! Passive reconstruction of LDS revolutions for capture diagnostics.

use crate::lds;
use crate::lds::LdsPacket;
use crate::lds::LdsPacketView;
use crate::lds::LdsSample;
use crate::lds::INDEX_MAX;
use crate::lds::INDEX_MIN;
use crate::lds::PACKETS_PER_REVOLUTION;
use crate::lds::SAMPLES_PER_REVOLUTION;
use vstd::prelude::*;

verus! {

/// Passive reconstruction of one LDS revolution.
///
/// This intentionally has no actuator or UART-write functionality. A scan can be
/// partial when observation starts in the middle of a revolution or bytes were lost
/// before reaching the decoder.
#[derive(Debug, Clone)]
pub struct LdsRevolution {
    pub samples: [Option<LdsSample>; 360],
    pub packet_count: usize,
    pub duplicate_packets: usize,
    pub min_speed_raw: u16,
    pub max_speed_raw: u16,
    /// The sum of the raw speeds of all packets.
    pub speed_raw_sum: u64,
}

/// How many samples there are that `wanted` holds of.
pub open spec fn count_samples(
    samples: Seq<Option<LdsSample>>,
    wanted: spec_fn(LdsSample) -> bool,
) -> nat
    decreases samples.len(),
{
    if samples.len() == 0 {
        0
    } else {
        count_samples(samples.drop_last(), wanted) + (match samples.last() {
            Some(s) => if wanted(s) {
                1nat
            } else {
                0nat
            },
            None => 0nat,
        })
    }
}

/// The packet of `kept` that covers the raw angle `angle`, if there is one.
pub open spec fn covering(kept: Seq<LdsPacketView>, angle: int) -> Option<LdsPacketView>
    decreases kept.len(),
{
    if kept.len() == 0 {
        None
    } else if kept.last().index == INDEX_MIN + angle / 4 {
        Some(kept.last())
    } else {
        covering(kept.drop_last(), angle)
    }
}

/// The samples of a revolution whose packets are `kept`.
pub open spec fn samples_of(kept: Seq<LdsPacketView>) -> Seq<Option<LdsSample>> {
    Seq::new(
        360,
        |angle: int|
            match covering(kept, angle) {
                Some(packet) => Some(packet.samples[angle % 4]),
                None => None,
            },
    )
}

/// The sum of the speeds.
pub open spec fn speed_sum(kept: Seq<LdsPacketView>) -> nat
    decreases kept.len(),
{
    if kept.len() == 0 {
        0
    } else {
        speed_sum(kept.drop_last()) + kept.last().speed_raw as nat
    }
}

/// `speed` is the least of the speeds, or `otherwise` where there is none.
pub open spec fn is_least_speed(speed: u16, kept: Seq<LdsPacketView>, otherwise: u16) -> bool {
    if kept.len() == 0 {
        speed == otherwise
    } else {
        &&& exists|i: int| 0 <= i < kept.len() && (#[trigger] kept[i]).speed_raw == speed
        &&& forall|i: int| 0 <= i < kept.len() ==> speed <= (#[trigger] kept[i]).speed_raw
    }
}

/// `speed` is the greatest of the speeds, or zero where there is none.
pub open spec fn is_greatest_speed(speed: u16, kept: Seq<LdsPacketView>) -> bool {
    if kept.len() == 0 {
        speed == 0
    } else {
        &&& exists|i: int| 0 <= i < kept.len() && (#[trigger] kept[i]).speed_raw == speed
        &&& forall|i: int| 0 <= i < kept.len() ==> (#[trigger] kept[i]).speed_raw <= speed
    }
}

/// One of the packets has this index.
pub open spec fn has_index(kept: Seq<LdsPacketView>, index: u8) -> bool {
    exists|i: int| 0 <= i < kept.len() && (#[trigger] kept[i]).index == index
}

/// The packets of one revolution: their indices are in range, no two are equal,
/// and each has its four samples.
pub open spec fn distinct_packets(kept: Seq<LdsPacketView>) -> bool {
    &&& forall|i: int|
        0 <= i < kept.len() ==> INDEX_MIN <= (#[trigger] kept[i]).index <= INDEX_MAX
            && kept[i].samples.len() == 4
    &&& forall|i: int, j: int|
        0 <= i < j < kept.len() ==> (#[trigger] kept[i]).index != (#[trigger] kept[j]).index
}

impl LdsRevolution {
    /// The revolution was put together from the packets `kept`, and `duplicates`
    /// others repeated one of them.
    pub open spec fn made_from(&self, kept: Seq<LdsPacketView>, duplicates: nat) -> bool {
        &&& distinct_packets(kept)
        &&& self.samples@ == samples_of(kept)
        &&& self.packet_count == kept.len()
        &&& self.duplicate_packets == duplicates
        &&& is_least_speed(self.min_speed_raw, kept, 0)
        &&& is_greatest_speed(self.max_speed_raw, kept)
        &&& self.speed_raw_sum == speed_sum(kept)
    }

    pub fn missing_packets(&self) -> (count: usize)
        requires
            self.packet_count <= PACKETS_PER_REVOLUTION,
        ensures
            count == PACKETS_PER_REVOLUTION - self.packet_count,
            count + self.packet_count == 90,
    {
        PACKETS_PER_REVOLUTION - self.packet_count
    }

    pub fn complete(&self) -> (yes: bool)
        ensures
            yes == (self.packet_count == PACKETS_PER_REVOLUTION),
            yes <==> self.packet_count == 90,
    {
        self.packet_count == PACKETS_PER_REVOLUTION
    }

    pub fn valid_sample_count(&self) -> (count: usize)
        ensures
            count == count_samples(self.samples@, |s: LdsSample| !s.no_return()),
            count == self.samples@.filter(|o: Option<LdsSample>| o is Some && o->0.distance_raw < 32768).len(),
            count <= SAMPLES_PER_REVOLUTION,
    {
        let ghost wanted = |s: LdsSample| !s.no_return();
        let mut count: usize = 0;
        let mut i: usize = 0;
        while i < SAMPLES_PER_REVOLUTION
            invariant
                i <= 360,
                count <= i,
                wanted == (|s: LdsSample| !s.no_return()),
                count == count_samples(self.samples@.take(i as int), wanted),
            decreases 360 - i,
        {
            assert(self.samples@.take(i + 1).drop_last() =~= self.samples@.take(i as int));
            if let Some(sample) = self.samples[i] {
                if !sample.invalid() {
                    count += 1;
                }
            }
            i += 1;
        }
        assert(self.samples@.take(360) =~= self.samples@);
        proof {
            counting_is_filtering(self.samples@, wanted);
            let by_word = |o: Option<LdsSample>| o is Some && o->0.distance_raw < 32768;
            assert((|o: Option<LdsSample>| o is Some && wanted(o->0)) =~= by_word);
        }
        count
    }

    pub fn invalid_sample_count(&self) -> (count: usize)
        ensures
            count == count_samples(self.samples@, |s: LdsSample| s.no_return()),
            count == self.samples@.filter(|o: Option<LdsSample>| o is Some && o->0.distance_raw >= 32768).len(),
            count <= SAMPLES_PER_REVOLUTION,
    {
        let ghost wanted = |s: LdsSample| s.no_return();
        let mut count: usize = 0;
        let mut i: usize = 0;
        while i < SAMPLES_PER_REVOLUTION
            invariant
                i <= 360,
                count <= i,
                wanted == (|s: LdsSample| s.no_return()),
                count == count_samples(self.samples@.take(i as int), wanted),
            decreases 360 - i,
        {
            assert(self.samples@.take(i + 1).drop_last() =~= self.samples@.take(i as int));
            if let Some(sample) = self.samples[i] {
                if sample.invalid() {
                    count += 1;
                }
            }
            i += 1;
        }
        assert(self.samples@.take(360) =~= self.samples@);
        proof {
            counting_is_filtering(self.samples@, wanted);
            let by_word = |o: Option<LdsSample>| o is Some && o->0.distance_raw >= 32768;
            assert((|o: Option<LdsSample>| o is Some && wanted(o->0)) =~= by_word);
        }
        count
    }

    pub fn strength_warning_count(&self) -> (count: usize)
        ensures
            count == count_samples(self.samples@, |s: LdsSample| s.weak()),
            count == self.samples@.filter(|o: Option<LdsSample>| o is Some && o->0.distance_raw as int / 16384 % 2 == 1).len(),
            count <= SAMPLES_PER_REVOLUTION,
    {
        let ghost wanted = |s: LdsSample| s.weak();
        let mut count: usize = 0;
        let mut i: usize = 0;
        while i < SAMPLES_PER_REVOLUTION
            invariant
                i <= 360,
                count <= i,
                wanted == (|s: LdsSample| s.weak()),
                count == count_samples(self.samples@.take(i as int), wanted),
            decreases 360 - i,
        {
            assert(self.samples@.take(i + 1).drop_last() =~= self.samples@.take(i as int));
            if let Some(sample) = self.samples[i] {
                if sample.strength_warning() {
                    count += 1;
                }
            }
            i += 1;
        }
        assert(self.samples@.take(360) =~= self.samples@);
        proof {
            counting_is_filtering(self.samples@, wanted);
            let by_word = |o: Option<LdsSample>| o is Some && o->0.distance_raw as int / 16384 % 2 == 1;
            assert((|o: Option<LdsSample>| o is Some && wanted(o->0)) =~= by_word);
        }
        count
    }

    pub fn observed_sample_count(&self) -> (count: usize)
        ensures
            count == count_samples(self.samples@, |s: LdsSample| true),
            count == self.samples@.filter(|o: Option<LdsSample>| o is Some).len(),
            count <= SAMPLES_PER_REVOLUTION,
    {
        let ghost wanted = |s: LdsSample| true;
        let mut count: usize = 0;
        let mut i: usize = 0;
        while i < SAMPLES_PER_REVOLUTION
            invariant
                i <= 360,
                count <= i,
                wanted == (|s: LdsSample| true),
                count == count_samples(self.samples@.take(i as int), wanted),
            decreases 360 - i,
        {
            assert(self.samples@.take(i + 1).drop_last() =~= self.samples@.take(i as int));
            if self.samples[i].is_some() {
                count += 1;
            }
            i += 1;
        }
        assert(self.samples@.take(360) =~= self.samples@);
        proof {
            counting_is_filtering(self.samples@, wanted);
            let by_word = |o: Option<LdsSample>| o is Some;
            assert((|o: Option<LdsSample>| o is Some && wanted(o->0)) =~= by_word);
        }
        count
    }
}

/// Every observed sample is either valid or invalid.
pub proof fn valid_or_invalid(samples: Seq<Option<LdsSample>>)
    ensures
        count_samples(samples, |s: LdsSample| !s.no_return()) + count_samples(
            samples,
            |s: LdsSample| s.no_return(),
        ) == count_samples(samples, |s: LdsSample| true),
    decreases samples.len(),
{
    if samples.len() > 0 {
        valid_or_invalid(samples.drop_last());
    }
}

/// Counting samples is counting what a filter keeps.
pub proof fn counting_is_filtering(
    samples: Seq<Option<LdsSample>>,
    wanted: spec_fn(LdsSample) -> bool,
)
    ensures
        count_samples(samples, wanted) == samples.filter(
            |o: Option<LdsSample>| o is Some && wanted(o->0),
        ).len(),
    decreases samples.len(),
{
    reveal(Seq::filter);
    if samples.len() > 0 {
        counting_is_filtering(samples.drop_last(), wanted);
    }
}

/// How many samples there are at all.
spec fn observed(samples: Seq<Option<LdsSample>>) -> nat {
    count_samples(samples, |s: LdsSample| true)
}

proof fn observed_none(samples: Seq<Option<LdsSample>>)
    requires
        forall|i: int| 0 <= i < samples.len() ==> (#[trigger] samples[i]) is None,
    ensures
        observed(samples) == 0,
    decreases samples.len(),
{
    if samples.len() > 0 {
        observed_none(samples.drop_last());
    }
}

proof fn observed_one_more(samples: Seq<Option<LdsSample>>, at: int, s: LdsSample)
    requires
        0 <= at < samples.len(),
        samples[at] is None,
    ensures
        observed(samples.update(at, Some(s))) == observed(samples) + 1,
    decreases samples.len(),
{
    let changed = samples.update(at, Some(s));
    if at == samples.len() - 1 {
        assert(changed.drop_last() =~= samples.drop_last());
    } else {
        observed_one_more(samples.drop_last(), at, s);
        assert(changed.drop_last() =~= samples.drop_last().update(at, Some(s)));
    }
}

proof fn observed_bound(samples: Seq<Option<LdsSample>>)
    ensures
        observed(samples) <= samples.len(),
        observed(samples) == samples.len() ==> forall|i: int|
            0 <= i < samples.len() ==> (#[trigger] samples[i]) is Some,
    decreases samples.len(),
{
    if samples.len() > 0 {
        observed_bound(samples.drop_last());
        assert forall|i: int|
            0 <= i < samples.len() && observed(samples) == samples.len() implies (
        #[trigger] samples[i]) is Some by {
            if i < samples.len() - 1 {
                assert(samples.drop_last()[i] is Some);
            }
        }
    }
}

/// The packet that covers an angle is one of those kept.
proof fn covering_meaning(kept: Seq<LdsPacketView>, angle: int)
    ensures
        match covering(kept, angle) {
            Some(p) => exists|i: int|
                0 <= i < kept.len() && #[trigger] kept[i] == p && p.index == INDEX_MIN + angle / 4,
            None => forall|i: int|
                0 <= i < kept.len() ==> (#[trigger] kept[i]).index != INDEX_MIN + angle / 4,
        },
    decreases kept.len(),
{
    if kept.len() > 0 && kept.last().index != INDEX_MIN + angle / 4 {
        let front = kept.drop_last();
        covering_meaning(front, angle);
        match covering(front, angle) {
            Some(p) => {
                let i = choose|i: int| 0 <= i < front.len() && #[trigger] front[i] == p;
                assert(kept[i] == p);
            },
            None => {
                assert forall|i: int| 0 <= i < kept.len() implies (#[trigger] kept[i]).index
                    != INDEX_MIN + angle / 4 by {
                    if i < kept.len() - 1 {
                        assert(front[i] == kept[i]);
                    }
                }
            },
        }
    } else if kept.len() > 0 {
        assert(kept[kept.len() - 1] == kept.last());
    }
}

/// Each sample of each packet stands in the revolution at its own raw angle: four
/// degrees for each index from 0xa0 on, one for each sample. An angle whose packet is
/// missing has none.
pub proof fn samples_stand_at_their_angles(r: LdsRevolution, kept: Seq<LdsPacketView>, duplicates: nat)
    requires
        r.made_from(kept, duplicates),
    ensures
        forall|i: int, j: int|
            #![trigger kept[i].samples[j]]
            0 <= i < kept.len() && 0 <= j < 4 ==> r.samples@[4 * (kept[i].index - 0xa0) + j] == Some(
                kept[i].samples[j],
            ),
        forall|angle: int|
            #![trigger r.samples@[angle]]
            0 <= angle < 360 && (forall|i: int|
                0 <= i < kept.len() ==> (#[trigger] kept[i]).index != 0xa0 + angle / 4)
                ==> r.samples@[angle] is None,
{
    assert forall|i: int, j: int|
        #![trigger kept[i].samples[j]]
        0 <= i < kept.len() && 0 <= j < 4 implies r.samples@[4 * (kept[i].index - 0xa0) + j] == Some(
        kept[i].samples[j],
    ) by {
        let angle = 4 * (kept[i].index - 0xa0) + j;
        covering_meaning(kept, angle);
        assert(angle / 4 == kept[i].index - 0xa0 && angle % 4 == j);
        assert(covering(kept, angle) is Some);
        let p = covering(kept, angle)->0;
        let k = choose|k: int| 0 <= k < kept.len() && #[trigger] kept[k] == p;
        assert(kept[k].index == kept[i].index);
        assert(k == i);
    }
    assert forall|angle: int|
        #![trigger r.samples@[angle]]
        0 <= angle < 360 && (forall|i: int|
            0 <= i < kept.len() ==> (#[trigger] kept[i]).index != 0xa0 + angle / 4) implies r.samples@[angle] is None by {
        covering_meaning(kept, angle);
    }
}

/// The mean speed of a revolution lies between its least and its greatest speed.
pub proof fn mean_speed_in_bounds(r: LdsRevolution, kept: Seq<LdsPacketView>, duplicates: nat)
    requires
        r.made_from(kept, duplicates),
    ensures
        r.min_speed_raw * r.packet_count <= r.speed_raw_sum <= r.max_speed_raw * r.packet_count,
{
    if kept.len() > 0 {
        sum_in_bounds(kept, r.min_speed_raw as int, r.max_speed_raw as int);
    }
}

proof fn sum_in_bounds(kept: Seq<LdsPacketView>, low: int, high: int)
    requires
        forall|i: int| 0 <= i < kept.len() ==> low <= (#[trigger] kept[i]).speed_raw <= high,
    ensures
        low * kept.len() <= speed_sum(kept) <= high * kept.len(),
    decreases kept.len(),
{
    if kept.len() > 0 {
        let front = kept.drop_last();
        assert forall|i: int| 0 <= i < front.len() implies low <= (#[trigger] front[i]).speed_raw
            <= high by {
            assert(front[i] == kept[i]);
        }
        sum_in_bounds(front, low, high);
        assert(low * kept.len() == low * front.len() + low) by (nonlinear_arith)
            requires
                kept.len() == front.len() + 1,
        ;
        assert(high * kept.len() == high * front.len() + high) by (nonlinear_arith)
            requires
                kept.len() == front.len() + 1,
        ;
        assert(kept[kept.len() - 1] == kept.last());
    }
}

/// `samples` with the four samples of `packet` put in their places.
spec fn with_packet(samples: Seq<Option<LdsSample>>, packet: LdsPacketView) -> Seq<
    Option<LdsSample>,
> {
    let first = (packet.index - INDEX_MIN) * 4;
    samples.update(first, Some(packet.samples[0])).update(
        first + 1,
        Some(packet.samples[1]),
    ).update(first + 2, Some(packet.samples[2])).update(first + 3, Some(packet.samples[3]))
}

proof fn samples_with_packet(kept: Seq<LdsPacketView>, packet: LdsPacketView)
    requires
        INDEX_MIN <= packet.index <= INDEX_MAX,
        !has_index(kept, packet.index),
    ensures
        samples_of(kept.push(packet)) == with_packet(samples_of(kept), packet),
        observed(samples_of(kept.push(packet))) == observed(samples_of(kept)) + 4,
{
    let old_samples = samples_of(kept);
    let new_samples = samples_of(kept.push(packet));
    let first = (packet.index - INDEX_MIN) * 4;
    assert(kept.push(packet).drop_last() =~= kept);
    assert(new_samples =~= with_packet(old_samples, packet));
    assert forall|angle: int| first <= angle < first + 4 implies old_samples[angle] is None by {
        covering_meaning(kept, angle);
        assert(INDEX_MIN + angle / 4 == packet.index);
    }
    let s0 = old_samples.update(first, Some(packet.samples[0]));
    let s1 = s0.update(first + 1, Some(packet.samples[1]));
    let s2 = s1.update(first + 2, Some(packet.samples[2]));
    observed_one_more(old_samples, first, packet.samples[0]);
    observed_one_more(s0, first + 1, packet.samples[1]);
    observed_one_more(s1, first + 2, packet.samples[2]);
    observed_one_more(s2, first + 3, packet.samples[3]);
}

/// Each packet contributes four samples, so there are at most ninety packets, and
/// ninety leave no angle out.
pub proof fn packets_fill_the_circle(kept: Seq<LdsPacketView>)
    requires
        distinct_packets(kept),
    ensures
        count_samples(samples_of(kept), |s: LdsSample| true) == 4 * kept.len(),
        kept.len() <= PACKETS_PER_REVOLUTION,
        kept.len() == PACKETS_PER_REVOLUTION ==> forall|angle: int|
            0 <= angle < 360 ==> (#[trigger] samples_of(kept)[angle]) is Some,
    decreases kept.len(),
{
    if kept.len() == 0 {
        observed_none(samples_of(kept));
    } else {
        let front = kept.drop_last();
        packets_fill_the_circle(front);
        assert(front.push(kept.last()) =~= kept);
        assert(kept.last() == kept[kept.len() - 1]);
        samples_with_packet(front, kept.last());
    }
    observed_bound(samples_of(kept));
    assert(observed(samples_of(kept)) == count_samples(samples_of(kept), |s: LdsSample| true));
}

/// The state of the revolution that is being put together.
pub struct RevolutionView {
    /// The packets that were the first with their index, in order of arrival.
    pub kept: Seq<LdsPacketView>,
    /// How many others repeated one of them.
    pub duplicates: nat,
    /// The index of the last packet, kept or not.
    pub last: Option<u8>,
}

impl RevolutionView {
    /// Before the first packet.
    pub open spec fn start() -> Self {
        RevolutionView { kept: Seq::empty(), duplicates: 0, last: None }
    }

    /// After one more packet.
    pub open spec fn inserted(self, packet: LdsPacketView) -> Self {
        if has_index(self.kept, packet.index) {
            RevolutionView { duplicates: self.duplicates + 1, last: Some(packet.index), ..self }
        } else {
            RevolutionView { kept: self.kept.push(packet), last: Some(packet.index), ..self }
        }
    }
}

struct RevolutionBuilder {
    revolution: LdsRevolution,
    seen_packets: [bool; 90],
    last_index: Option<u8>,
    kept: Ghost<Seq<LdsPacketView>>,
}

impl RevolutionBuilder {
    spec fn model(&self) -> RevolutionView {
        RevolutionView {
            kept: self.kept@,
            duplicates: self.revolution.duplicate_packets as nat,
            last: self.last_index,
        }
    }

    spec fn wf(&self) -> bool {
        let kept = self.kept@;
        &&& distinct_packets(kept)
        &&& forall|k: int|
            0 <= k < 90 ==> #[trigger] self.seen_packets@[k] == has_index(
                kept,
                (INDEX_MIN + k) as u8,
            )
        &&& self.revolution.samples@ == samples_of(kept)
        &&& self.revolution.packet_count == kept.len()
        &&& is_least_speed(self.revolution.min_speed_raw, kept, u16::MAX)
        &&& is_greatest_speed(self.revolution.max_speed_raw, kept)
        &&& self.revolution.speed_raw_sum == speed_sum(kept)
        &&& self.revolution.speed_raw_sum <= 65535 * kept.len()
    }

    fn new() -> (builder: Self)
        ensures
            builder.wf(),
            builder.model() == RevolutionView::start(),
    {
        let builder = RevolutionBuilder {
            revolution: LdsRevolution {
                samples: [None;360],
                packet_count: 0,
                duplicate_packets: 0,
                min_speed_raw: 65535,
                max_speed_raw: 0,
                speed_raw_sum: 0,
            },
            seen_packets: [false;90],
            last_index: None,
            kept: Ghost(Seq::empty()),
        };
        assert(builder.revolution.samples@ =~= samples_of(Seq::empty()));
        builder
    }

    fn insert(&mut self, packet: LdsPacket)
        requires
            old(self).wf(),
            INDEX_MIN <= packet.index <= INDEX_MAX,
            old(self).model().duplicates < usize::MAX,
        ensures
            final(self).wf(),
            final(self).model() == old(self).model().inserted(packet@),
    {
        let ghost kept = self.kept@;
        let packet_index: usize = (packet.index - INDEX_MIN) as usize;
        assert(self.seen_packets@[packet_index as int] == has_index(kept, packet.index));
        if self.seen_packets[packet_index] {
            self.revolution.duplicate_packets += 1;
            self.last_index = Some(packet.index);
            return ;
        }
        let ghost grown = kept.push(packet@);
        proof {
            packets_fill_the_circle(kept);
            samples_with_packet(kept, packet@);
            assert(grown.drop_last() =~= kept);
            assert(grown[kept.len() as int] == packet@);
            assert forall|i: int| 0 <= i < kept.len() implies #[trigger] grown[i] == kept[i] by {}
            assert(distinct_packets(grown)) by {
                assert forall|i: int, j: int| 0 <= i < j < grown.len() implies (
                #[trigger] grown[i]).index != (#[trigger] grown[j]).index by {
                    if j == kept.len() {
                        assert(kept[i].index != packet.index);
                    } else {
                        assert(kept[i].index != kept[j].index);
                    }
                }
            }
            assert forall|index: u8| #[trigger]
                has_index(grown, index) == (has_index(kept, index) || index == packet.index) by {
                if has_index(kept, index) {
                    let i = choose|i: int| 0 <= i < kept.len() && (#[trigger] kept[i]).index
                        == index;
                    assert(grown[i].index == index);
                }
                if index == packet.index {
                    assert(grown[kept.len() as int].index == index);
                }
                if has_index(grown, index) && index != packet.index {
                    let i = choose|i: int| 0 <= i < grown.len() && (#[trigger] grown[i]).index
                        == index;
                    assert(kept[i].index == index);
                }
            }
        }
        self.seen_packets[packet_index] = true;
        self.revolution.packet_count += 1;
        let ghost least = self.revolution.min_speed_raw;
        let ghost greatest = self.revolution.max_speed_raw;
        if packet.speed_raw < self.revolution.min_speed_raw {
            self.revolution.min_speed_raw = packet.speed_raw;
        }
        if packet.speed_raw > self.revolution.max_speed_raw {
            self.revolution.max_speed_raw = packet.speed_raw;
        }
        proof {
            if kept.len() > 0 {
                let i = choose|i: int| 0 <= i < kept.len() && (#[trigger] kept[i]).speed_raw
                    == least;
                assert(grown[i].speed_raw == least);
                let j = choose|j: int| 0 <= j < kept.len() && (#[trigger] kept[j]).speed_raw
                    == greatest;
                assert(grown[j].speed_raw == greatest);
            }
        }
        self.revolution.speed_raw_sum += packet.speed_raw as u64;
        let first_angle: usize = packet.start_angle_degrees() as usize;
        self.revolution.samples[first_angle] = Some(packet.samples[0]);
        self.revolution.samples[first_angle + 1] = Some(packet.samples[1]);
        self.revolution.samples[first_angle + 2] = Some(packet.samples[2]);
        self.revolution.samples[first_angle + 3] = Some(packet.samples[3]);
        self.last_index = Some(packet.index);
        proof {
            self.kept@ = grown;
            assert(self.revolution.samples@ =~= with_packet(samples_of(kept), packet@));
        }
    }

    fn finish(self) -> (revolution: LdsRevolution)
        requires
            self.wf(),
        ensures
            revolution.made_from(self.model().kept, self.model().duplicates),
    {
        let mut revolution = self.revolution;
        if revolution.packet_count == 0 {
            revolution.min_speed_raw = 0;
        }
        revolution
    }
}

/// Groups ordered, checksum-valid LDS packets at each index wrap.
pub struct LdsRevolutionAssembler {
    current: Option<RevolutionBuilder>,
}

/// A packet with this index starts the next revolution.
pub open spec fn wraps(current: Option<RevolutionView>, index: u8) -> bool {
    current matches Some(m) && m.last matches Some(last) && index < last
}

/// The revolution under way after one more packet.
pub open spec fn assembled(current: Option<RevolutionView>, packet: LdsPacketView) -> RevolutionView {
    if current is None || wraps(current, packet.index) {
        RevolutionView::start().inserted(packet)
    } else {
        current->0.inserted(packet)
    }
}

/// What one more packet does to the revolution under way. One whose index lies below
/// the last one starts a revolution of its own. Any other joins: with an index that is
/// new it is kept, behind those before it; with one that was seen it only counts as a
/// repetition, and the first packet stays.
pub proof fn packets_join_in_order(m: RevolutionView, packet: LdsPacketView)
    ensures
        ({
            let after = assembled(Some(m), packet);
            let falls = m.last matches Some(last) && packet.index < last;
            let seen = exists|i: int|
                0 <= i < m.kept.len() && (#[trigger] m.kept[i]).index == packet.index;
            &&& after.last == Some(packet.index)
            &&& falls ==> after.kept == seq![packet] && after.duplicates == 0
            &&& !falls && seen ==> after.kept == m.kept && after.duplicates == m.duplicates + 1
            &&& !falls && !seen ==> after.kept == m.kept.push(packet) && after.duplicates
                == m.duplicates
        }),
        assembled(None, packet).kept == seq![packet],
        assembled(None, packet).duplicates == 0,
        assembled(None, packet).last == Some(packet.index),
{
    assert(Seq::<LdsPacketView>::empty().push(packet) =~= seq![packet]);
}

impl Default for LdsRevolutionAssembler {
    fn default() -> (assembler: Self)
        ensures
            assembler.wf(),
            assembler.current() is None,
    {
        LdsRevolutionAssembler::new()
    }
}

impl LdsRevolutionAssembler {
    /// The revolution under way.
    pub closed spec fn current(&self) -> Option<RevolutionView> {
        match self.current {
            Some(builder) => Some(builder.model()),
            None => None,
        }
    }

    pub closed spec fn wf(&self) -> bool {
        self.current matches Some(builder) ==> builder.wf()
    }

    pub fn new() -> (assembler: Self)
        ensures
            assembler.wf(),
            assembler.current() is None,
    {
        LdsRevolutionAssembler { current: None }
    }

    /// How many packets of the revolution under way repeated another one.
    pub fn duplicate_packets(&self) -> (count: usize)
        ensures
            count == (match self.current() {
                Some(m) => m.duplicates,
                None => 0,
            }),
    {
        match &self.current {
            Some(builder) => builder.revolution.duplicate_packets,
            None => 0,
        }
    }

    /// Takes the next packet. Where its index lies before the last one, the
    /// revolution before it is over and is returned.
    pub fn push(&mut self, packet: LdsPacket) -> (completed: Option<LdsRevolution>)
        requires
            old(self).wf(),
            INDEX_MIN <= packet.index <= INDEX_MAX,
            old(self).current() matches Some(m) ==> m.duplicates < usize::MAX,
        ensures
            final(self).wf(),
            final(self).current() == Some(assembled(old(self).current(), packet@)),
            if wraps(old(self).current(), packet.index) {
                completed matches Some(r) && r.made_from(
                    old(self).current()->0.kept,
                    old(self).current()->0.duplicates,
                )
            } else {
                completed is None
            },
    {
        let mut taken: Option<RevolutionBuilder> = None;
        std::mem::swap(&mut taken, &mut self.current);
        match taken {
            None => {
                let mut builder = RevolutionBuilder::new();
                builder.insert(packet);
                self.current = Some(builder);
                None
            },
            Some(mut builder) => {
                let wrapped = match builder.last_index {
                    Some(last_index) => packet.index < last_index,
                    None => false,
                };
                if wrapped {
                    let completed = builder.finish();
                    let mut next = RevolutionBuilder::new();
                    next.insert(packet);
                    self.current = Some(next);
                    Some(completed)
                } else {
                    builder.insert(packet);
                    self.current = Some(builder);
                    None
                }
            },
        }
    }

    /// The revolution under way, as far as it came.
    pub fn finish(self) -> (revolution: Option<LdsRevolution>)
        requires
            self.wf(),
        ensures
            match self.current() {
                Some(m) => revolution matches Some(r) && r.made_from(m.kept, m.duplicates),
                None => revolution is None,
            },
    {
        match self.current {
            Some(builder) => Some(builder.finish()),
            None => None,
        }
    }
}

} // verus!
