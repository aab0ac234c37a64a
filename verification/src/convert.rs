//! Turns the peaks found in one record into numbered targets.
//!
//! The blocks of a record are sorted by channel, the single peak of the reference block is
//! taken as the time origin, and every peak of the low and of the high blocks becomes one
//! point that knows its place among the peaks of its block.

use vstd::prelude::*;

use crate::detector::{
    detect_peaks, peak_lists, peaks_of, reported_from, setting_for, DetectorConfig, Detectors,
    Peak, Policy,
};
use crate::error::Error;
use crate::file::{lemma_positions, on_channel, positions, Channel, Record, RecordView};

verus! {

/// One discrete return: a peak of a low or high block, with what is needed to place it.
///
/// The time of the peak is the start of its block plus `peak.index` sampling intervals; the
/// time origin of the pulse is the same sum for `reference_block` and `reference_peak`. Half
/// the group velocity times the difference of the two is the range to the target.
#[derive(Clone, Copy, Debug, PartialEq, Eq, Structural)]
pub struct Point {
    /// The position, in its record, of the block that this point was found in.
    pub block: usize,
    /// The peak that this point was made from.
    pub peak: Peak,
    /// The position, in the record, of the reference block.
    pub reference_block: usize,
    /// The single peak of the reference block.
    pub reference_peak: Peak,
    /// The target number (1-indexed) among the peaks of the point's block.
    pub target: usize,
    /// The total number of targets in the point's block.
    pub num_target: usize,
    /// The mirror facet used to reflect the laser energy.
    pub facet: u16,
    /// Was this point collected on the high channel?
    pub high_channel: bool,
}

/// A point as a value, with its positions and counts as mathematical integers.
pub struct PointView {
    /// The position of the point's block in its record.
    pub block: int,
    /// The peak that the point was made from.
    pub peak: Peak,
    /// The position of the reference block in the record.
    pub reference_block: int,
    /// The single peak of the reference block.
    pub reference_peak: Peak,
    /// The target number, counted from 1.
    pub target: int,
    /// The number of targets in the point's block.
    pub num_target: int,
    /// The mirror facet.
    pub facet: u16,
    /// Whether the point's block is on the high channel.
    pub high_channel: bool,
}

impl View for Point {
    type V = PointView;

    open spec fn view(&self) -> PointView {
        PointView {
            block: self.block as int,
            peak: self.peak,
            reference_block: self.reference_block as int,
            reference_peak: self.reference_peak,
            target: self.target as int,
            num_target: self.num_target as int,
            facet: self.facet,
            high_channel: self.high_channel,
        }
    }
}

/// The points of a sequence, as values.
pub open spec fn point_views(points: Seq<Point>) -> Seq<PointView> {
    points.map_values(|point: Point| point@)
}

/// A sequence of positions, as mathematical integers.
pub open spec fn index_seq(indices: Seq<usize>) -> Seq<int> {
    indices.map_values(|i: usize| i as int)
}

/// The blocks of a record sorted by channel: the positions of the high blocks and of the low
/// blocks, each in the order of the record, and the position of the one reference block.
#[derive(Debug)]
pub struct Classified {
    /// The positions of the high-channel blocks.
    pub high: Vec<usize>,
    /// The positions of the low-channel blocks.
    pub low: Vec<usize>,
    /// The position of the reference block.
    pub reference: usize,
}

/// The time origin of a pulse: the single peak that the detector found in the reference
/// block, or the complaint that it found none or several.
pub open spec fn aligned(detections: Seq<Seq<Peak>>, reference: int) -> Result<Peak, Error> {
    let found = peaks_of(detections, reference);
    if found.len() == 1 {
        Ok(found[0])
    } else {
        Err(Error::NeedSingleReferencePeak(found.len() as usize))
    }
}

/// The point made from peak number `k` (counted from zero) of the block at `block`.
pub open spec fn target_point(
    record: RecordView,
    detections: Seq<Seq<Peak>>,
    reference_block: int,
    reference_peak: Peak,
    block: int,
    k: int,
) -> PointView {
    PointView {
        block,
        peak: peaks_of(detections, block)[k],
        reference_block,
        reference_peak,
        target: k + 1,
        num_target: peaks_of(detections, block).len() as int,
        facet: record.facet,
        high_channel: record.blocks[block].channel == Channel::High,
    }
}

/// The points of one block: one for each of its peaks, in the detector's order.
pub open spec fn block_points(
    record: RecordView,
    detections: Seq<Seq<Peak>>,
    reference_block: int,
    reference_peak: Peak,
    block: int,
) -> Seq<PointView> {
    Seq::new(
        peaks_of(detections, block).len(),
        |k: int| target_point(record, detections, reference_block, reference_peak, block, k),
    )
}

/// The points of the blocks at the positions `order`, block after block.
pub open spec fn points_in(
    record: RecordView,
    detections: Seq<Seq<Peak>>,
    reference_block: int,
    reference_peak: Peak,
    order: Seq<int>,
) -> Seq<PointView>
    decreases order.len(),
{
    if order.len() == 0 {
        Seq::empty()
    } else {
        points_in(record, detections, reference_block, reference_peak, order.drop_last())
            + block_points(record, detections, reference_block, reference_peak, order.last())
    }
}

/// The order in which the blocks of a record give their points: the low blocks first, then
/// the high blocks, each group in the order of the record.
pub open spec fn point_order(record: RecordView) -> Seq<int> {
    on_channel(record.blocks, Channel::Low) + on_channel(record.blocks, Channel::High)
}

/// What decomposing a record gives, for the peaks `detections` found in its blocks.
///
/// A record without exactly one reference block is malformed. A reference block without
/// exactly one peak cannot be aligned. Otherwise the result is the points of the low and
/// high blocks, measured from the reference peak.
pub open spec fn discretized(record: RecordView, detections: Seq<Seq<Peak>>) -> Result<
    Seq<PointView>,
    Error,
> {
    let references = on_channel(record.blocks, Channel::Reference);
    if references.len() != 1 {
        Err(Error::NeedSingleReferenceBlock(references.len() as usize))
    } else {
        match aligned(detections, references[0]) {
            Ok(reference_peak) => Ok(
                points_in(record, detections, references[0], reference_peak, point_order(record)),
            ),
            Err(e) => Err(e),
        }
    }
}

/// The points of two runs of blocks, one after the other, are the points of the first run
/// followed by those of the second.
pub proof fn lemma_points_in_concat(
    record: RecordView,
    detections: Seq<Seq<Peak>>,
    reference_block: int,
    reference_peak: Peak,
    first: Seq<int>,
    second: Seq<int>,
)
    ensures
        points_in(record, detections, reference_block, reference_peak, first + second)
            == points_in(record, detections, reference_block, reference_peak, first) + points_in(
            record,
            detections,
            reference_block,
            reference_peak,
            second,
        ),
    decreases second.len(),
{
    let whole = points_in(record, detections, reference_block, reference_peak, first + second);
    let head = points_in(record, detections, reference_block, reference_peak, first);
    let tail = points_in(record, detections, reference_block, reference_peak, second);
    if second.len() == 0 {
        assert(first + second =~= first);
        assert(whole =~= head + tail);
    } else {
        lemma_points_in_concat(
            record,
            detections,
            reference_block,
            reference_peak,
            first,
            second.drop_last(),
        );
        assert((first + second).drop_last() =~= first + second.drop_last());
        assert((first + second).last() == second.last());
        assert(whole =~= head + tail);
    }
}

/// Decomposition succeeds exactly on a record with one reference block in which the detector
/// found one peak. With another number of reference blocks it fails with that number as a
/// malformed record; with another number of reference peaks it fails with that number as a
/// record that cannot be aligned.
pub proof fn lemma_discretized_outcome(record: RecordView, detections: Seq<Seq<Peak>>)
    ensures
        discretized(record, detections) is Ok <==> {
            &&& on_channel(record.blocks, Channel::Reference).len() == 1
            &&& peaks_of(detections, on_channel(record.blocks, Channel::Reference)[0]).len() == 1
        },
        on_channel(record.blocks, Channel::Reference).len() != 1 ==> discretized(
            record,
            detections,
        ) == Err::<Seq<PointView>, Error>(
            Error::NeedSingleReferenceBlock(
                on_channel(record.blocks, Channel::Reference).len() as usize,
            ),
        ),
        on_channel(record.blocks, Channel::Reference).len() == 1 && peaks_of(
            detections,
            on_channel(record.blocks, Channel::Reference)[0],
        ).len() != 1 ==> discretized(record, detections) == Err::<Seq<PointView>, Error>(
            Error::NeedSingleReferencePeak(
                peaks_of(detections, on_channel(record.blocks, Channel::Reference)[0]).len() as usize,
            ),
        ),
{
}

/// Whether a point is a rightly numbered target of its block: its block is one of `order`,
/// its number lies between 1 and the number of targets, that number is the number of peaks
/// found in the block, and its peak is the one that stands at its number.
pub open spec fn numbered(point: PointView, detections: Seq<Seq<Peak>>, order: Seq<int>) -> bool {
    &&& order.contains(point.block)
    &&& 1 <= point.target <= point.num_target
    &&& point.num_target == peaks_of(detections, point.block).len()
    &&& point.peak == peaks_of(detections, point.block)[point.target - 1]
}

/// Every point made from the blocks at `order` is a rightly numbered target of its block, and
/// is measured from the given reference.
pub proof fn lemma_points_in_numbered(
    record: RecordView,
    detections: Seq<Seq<Peak>>,
    reference_block: int,
    reference_peak: Peak,
    order: Seq<int>,
)
    ensures
        forall|j: int|
            0 <= j < points_in(record, detections, reference_block, reference_peak, order).len()
                ==> {
                let point = #[trigger] points_in(
                    record,
                    detections,
                    reference_block,
                    reference_peak,
                    order,
                )[j];
                &&& numbered(point, detections, order)
                &&& point.reference_block == reference_block
                &&& point.reference_peak == reference_peak
                &&& point.facet == record.facet
                &&& point.high_channel == (record.blocks[point.block].channel == Channel::High)
            },
    decreases order.len(),
{
    if order.len() > 0 {
        let all = points_in(record, detections, reference_block, reference_peak, order);
        let head = points_in(
            record,
            detections,
            reference_block,
            reference_peak,
            order.drop_last(),
        );
        let tail = block_points(
            record,
            detections,
            reference_block,
            reference_peak,
            order.last(),
        );
        lemma_points_in_numbered(
            record,
            detections,
            reference_block,
            reference_peak,
            order.drop_last(),
        );
        assert forall|j: int| 0 <= j < all.len() implies numbered(
            #[trigger] all[j],
            detections,
            order,
        ) by {
            if j < head.len() {
                let block = head[j].block;
                assert(order.drop_last().contains(block));
                let at = choose|at: int|
                    0 <= at < order.drop_last().len() && order.drop_last()[at] == block;
                assert(order[at] == block);
            } else {
                assert(all[j] == tail[j - head.len()]);
                assert(order[order.len() - 1] == order.last());
            }
        }
    }
}

/// In every point of a decomposed record the target number lies between 1 and the number of
/// targets, which is the number of peaks found in the point's block; the point holds the peak
/// with that number; its block is a low or a high block of the record, and the point says
/// which; and it carries the record's facet.
pub proof fn lemma_discretized_targets(record: RecordView, detections: Seq<Seq<Peak>>)
    requires
        discretized(record, detections) is Ok,
    ensures
        forall|j: int|
            0 <= j < discretized(record, detections)->Ok_0.len() ==> {
                let point = #[trigger] discretized(record, detections)->Ok_0[j];
                &&& 1 <= point.target <= point.num_target
                &&& point.num_target == peaks_of(detections, point.block).len()
                &&& point.peak == peaks_of(detections, point.block)[point.target - 1]
                &&& 0 <= point.block < record.blocks.len()
                &&& point.high_channel ==> record.blocks[point.block].channel == Channel::High
                &&& !point.high_channel ==> record.blocks[point.block].channel == Channel::Low
                &&& point.facet == record.facet
                &&& record.blocks[point.reference_block].channel == Channel::Reference
                &&& peaks_of(detections, point.reference_block) == seq![point.reference_peak]
            },
{
    let references = on_channel(record.blocks, Channel::Reference);
    let reference_peak = aligned(detections, references[0])->Ok_0;
    let order = point_order(record);
    let low = on_channel(record.blocks, Channel::Low);
    let high = on_channel(record.blocks, Channel::High);
    let points = discretized(record, detections)->Ok_0;
    lemma_points_in_numbered(record, detections, references[0], reference_peak, order);
    lemma_positions(record.blocks, Channel::Low, record.blocks.len() as int);
    lemma_positions(record.blocks, Channel::High, record.blocks.len() as int);
    lemma_positions(record.blocks, Channel::Reference, record.blocks.len() as int);
    assert(peaks_of(detections, references[0]) =~= seq![reference_peak]);
    assert forall|j: int| 0 <= j < points.len() implies {
        let point = #[trigger] points[j];
        &&& 0 <= point.block < record.blocks.len()
        &&& point.high_channel ==> record.blocks[point.block].channel == Channel::High
        &&& !point.high_channel ==> record.blocks[point.block].channel == Channel::Low
    } by {
        let block = points[j].block;
        assert(numbered(points[j], detections, order));
        let at = choose|at: int| 0 <= at < order.len() && order[at] == block;
        if at < low.len() {
            assert(low[at] == block);
        } else {
            assert(high[at - low.len()] == block);
        }
    }
}

/// Whether the block at `first` gives its points before the block at `second`: a low block
/// before a high block, and of two blocks on one channel the one that the record holds first.
pub open spec fn block_before(record: RecordView, first: int, second: int) -> bool {
    let a = record.blocks[first].channel;
    let b = record.blocks[second].channel;
    (a == Channel::Low && b == Channel::High) || (a == b && first < second)
}

/// Whether `order` lists low and high blocks of the record, each before all that give their
/// points after it.
pub open spec fn blocks_in_order(record: RecordView, order: Seq<int>) -> bool {
    &&& forall|q: int|
        0 <= q < order.len() ==> {
            &&& 0 <= #[trigger] order[q] < record.blocks.len()
            &&& record.blocks[order[q]].channel == Channel::Low
                || record.blocks[order[q]].channel == Channel::High
        }
    &&& forall|p: int, q: int|
        0 <= p < q < order.len() ==> block_before(record, #[trigger] order[p], #[trigger] order[q])
}

/// Whether point `a` has its place before point `b` in the output: a point of the low channel
/// before a point of the high channel; on one channel, the point of the earlier block first;
/// in one block, the point with the lower target number first.
pub open spec fn comes_before(a: PointView, b: PointView) -> bool {
    if a.high_channel != b.high_channel {
        !a.high_channel
    } else if a.block != b.block {
        a.block < b.block
    } else {
        a.target < b.target
    }
}

/// The points of blocks that are listed in their order come out in their order.
pub proof fn lemma_points_in_order(
    record: RecordView,
    detections: Seq<Seq<Peak>>,
    reference_block: int,
    reference_peak: Peak,
    order: Seq<int>,
)
    requires
        blocks_in_order(record, order),
    ensures
        forall|i: int, j: int|
            0 <= i < j < points_in(record, detections, reference_block, reference_peak, order).len()
                ==> comes_before(
                #[trigger] points_in(record, detections, reference_block, reference_peak, order)[i],
                #[trigger] points_in(record, detections, reference_block, reference_peak, order)[j],
            ),
    decreases order.len(),
{
    if order.len() > 0 {
        let all = points_in(record, detections, reference_block, reference_peak, order);
        let front = order.drop_last();
        let head = points_in(record, detections, reference_block, reference_peak, front);
        let tail = block_points(
            record,
            detections,
            reference_block,
            reference_peak,
            order.last(),
        );
        assert(blocks_in_order(record, front)) by {
            assert forall|q: int| 0 <= q < front.len() implies {
                &&& 0 <= #[trigger] front[q] < record.blocks.len()
                &&& record.blocks[front[q]].channel == Channel::Low
                    || record.blocks[front[q]].channel == Channel::High
            } by {
                assert(front[q] == order[q]);
            }
            assert forall|p: int, q: int| 0 <= p < q < front.len() implies block_before(
                record,
                #[trigger] front[p],
                #[trigger] front[q],
            ) by {
                assert(front[p] == order[p]);
                assert(front[q] == order[q]);
            }
        }
        lemma_points_in_order(record, detections, reference_block, reference_peak, front);
        lemma_points_in_numbered(record, detections, reference_block, reference_peak, front);
        assert forall|i: int, j: int| 0 <= i < j < all.len() implies comes_before(
            #[trigger] all[i],
            #[trigger] all[j],
        ) by {
            if j < head.len() {
                assert(all[i] == head[i]);
                assert(all[j] == head[j]);
            } else if i >= head.len() {
                assert(all[i] == tail[i - head.len()]);
                assert(all[j] == tail[j - head.len()]);
            } else {
                assert(all[i] == head[i]);
                assert(all[j] == tail[j - head.len()]);
                assert(numbered(head[i], detections, front));
                let p = choose|p: int| 0 <= p < front.len() && front[p] == head[i].block;
                assert(order[p] == head[i].block);
                assert(order[order.len() - 1] == order.last());
                assert(block_before(record, order[p], order[order.len() - 1]));
            }
        }
    }
}

/// The points of a decomposed record stand in the order of the output: those of the low channel
/// first, then those of the high channel; on each channel block after block as the record
/// holds them; within a block by target number. Where the peaks of each block were reported
/// in ascending order of position, the points of a block ascend by sample position too.
pub proof fn lemma_discretized_order(record: RecordView, detections: Seq<Seq<Peak>>)
    requires
        discretized(record, detections) is Ok,
    ensures
        forall|i: int, j: int|
            0 <= i < j < discretized(record, detections)->Ok_0.len() ==> comes_before(
                #[trigger] discretized(record, detections)->Ok_0[i],
                #[trigger] discretized(record, detections)->Ok_0[j],
            ),
        detected_in(record, detections) ==> forall|i: int, j: int|
            0 <= i < j < discretized(record, detections)->Ok_0.len() && (
            #[trigger] discretized(record, detections)->Ok_0[i]).block == (
            #[trigger] discretized(record, detections)->Ok_0[j]).block ==> discretized(
                record,
                detections,
            )->Ok_0[i].peak.index < discretized(record, detections)->Ok_0[j].peak.index,
{
    let references = on_channel(record.blocks, Channel::Reference);
    let origin = aligned(detections, references[0])->Ok_0;
    let low = on_channel(record.blocks, Channel::Low);
    let high = on_channel(record.blocks, Channel::High);
    let order = point_order(record);
    let points = discretized(record, detections)->Ok_0;
    lemma_positions(record.blocks, Channel::Low, record.blocks.len() as int);
    lemma_positions(record.blocks, Channel::High, record.blocks.len() as int);
    assert(blocks_in_order(record, order)) by {
        assert forall|q: int| 0 <= q < order.len() implies {
            &&& 0 <= #[trigger] order[q] < record.blocks.len()
            &&& record.blocks[order[q]].channel == Channel::Low
                || record.blocks[order[q]].channel == Channel::High
        } by {
            if q < low.len() {
                assert(order[q] == low[q]);
            } else {
                assert(order[q] == high[q - low.len()]);
            }
        }
        assert forall|p: int, q: int| 0 <= p < q < order.len() implies block_before(
            record,
            #[trigger] order[p],
            #[trigger] order[q],
        ) by {
            if p < low.len() {
                assert(order[p] == low[p]);
            } else {
                assert(order[p] == high[p - low.len()]);
            }
            if q < low.len() {
                assert(order[q] == low[q]);
            } else {
                assert(order[q] == high[q - low.len()]);
            }
        }
    }
    lemma_points_in_order(record, detections, references[0], origin, order);
    lemma_points_in_numbered(record, detections, references[0], origin, order);
    if detected_in(record, detections) {
        assert forall|i: int, j: int|
            0 <= i < j < points.len() && (#[trigger] points[i]).block == (
            #[trigger] points[j]).block implies points[i].peak.index < points[j].peak.index by {
            let block = points[i].block;
            assert(comes_before(points[i], points[j]));
            assert(numbered(points[i], detections, order));
            assert(numbered(points[j], detections, order));
            let q = choose|q: int| 0 <= q < order.len() && order[q] == block;
            assert(0 <= order[q] < record.blocks.len());
            let peaks = peaks_of(detections, block);
            assert(reported_from(detections[block], record.blocks[block].samples));
            assert(peaks[points[i].target - 1].index < peaks[points[j].target - 1].index);
        }
    }
}

/// Decomposition is a function of the record and of the peaks found in it: records that are
/// equal as values, with equal peaks, give the same points or the same error.
pub proof fn lemma_discretize_deterministic(
    first: Record,
    first_detections: Vec<Vec<Peak>>,
    second: Record,
    second_detections: Vec<Vec<Peak>>,
)
    requires
        first@ == second@,
        peak_lists(first_detections@) == peak_lists(second_detections@),
    ensures
        discretized(first@, peak_lists(first_detections@)) == discretized(
            second@,
            peak_lists(second_detections@),
        ),
{
}

/// The detector settings for each block of a record, block by block.
pub open spec fn block_settings(record: RecordView, policy: Policy) -> Seq<Option<DetectorConfig>> {
    Seq::new(
        record.blocks.len(),
        |i: int|
            policy.settings(
                record.blocks[i].channel,
                on_channel(record.blocks, Channel::High).len() > 0,
            ),
    )
}

/// Chooses the detector settings for each block of a record: entry `i` holds the settings
/// with which block `i` is to be searched for peaks, or nothing where it is not searched.
///
/// High and reference blocks get the policy's high-channel settings. Low blocks get its
/// low-channel settings, the less sensitive ones if the record holds no high block.
/// Saturation blocks are not searched.
pub fn detector_configs(record: &Record, policy: &Policy) -> (configs: Vec<Option<DetectorConfig>>)
    ensures
        configs@ == block_settings(record@, *policy),
{
    let has_high = record.has_high();
    let mut configs: Vec<Option<DetectorConfig>> = Vec::new();
    let mut i: usize = 0;
    while i < record.blocks.len()
        invariant
            i <= record.blocks.len(),
            record@.blocks.len() == record.blocks.len(),
            has_high == (on_channel(record@.blocks, Channel::High).len() > 0),
            configs@ =~= block_settings(record@, *policy).take(i as int),
        decreases record.blocks.len() - i,
    {
        assert(record@.blocks[i as int].channel == record.blocks[i as int].channel);
        configs.push(policy.config_for(record.blocks[i].channel, has_high));
        i += 1;
    }
    assert(block_settings(record@, *policy).take(i as int) =~= block_settings(record@, *policy));
    configs
}

/// Sorts the blocks of a record by channel, in one pass. Saturation blocks are dropped.
///
/// Fails, with the number of reference blocks found, unless the record holds exactly one.
pub fn classify(record: &Record) -> (result: Result<Classified, Error>)
    ensures
        match result {
            Ok(classes) => {
                &&& on_channel(record@.blocks, Channel::Reference) == seq![
                    classes.reference as int,
                ]
                &&& index_seq(classes.high@) == on_channel(record@.blocks, Channel::High)
                &&& index_seq(classes.low@) == on_channel(record@.blocks, Channel::Low)
            },
            Err(e) => {
                &&& on_channel(record@.blocks, Channel::Reference).len() != 1
                &&& e == Error::NeedSingleReferenceBlock(
                    on_channel(record@.blocks, Channel::Reference).len() as usize,
                )
            },
        },
{
    let mut high: Vec<usize> = Vec::new();
    let mut low: Vec<usize> = Vec::new();
    let mut references: Vec<usize> = Vec::new();
    let mut i: usize = 0;
    while i < record.blocks.len()
        invariant
            i <= record.blocks.len(),
            record@.blocks.len() == record.blocks.len(),
            index_seq(high@) =~= positions(record@.blocks, Channel::High, i as int),
            index_seq(low@) =~= positions(record@.blocks, Channel::Low, i as int),
            index_seq(references@) =~= positions(record@.blocks, Channel::Reference, i as int),
        decreases record.blocks.len() - i,
    {
        assert(record@.blocks[i as int].channel == record.blocks[i as int].channel);
        match record.blocks[i].channel {
            Channel::High => high.push(i),
            Channel::Low => low.push(i),
            Channel::Reference => references.push(i),
            Channel::Saturation => {},
        }
        i += 1;
    }
    if references.len() == 1 {
        let reference = references[0];
        assert(index_seq(references@) =~= seq![reference as int]);
        Ok(Classified { high, low, reference })
    } else {
        Err(Error::NeedSingleReferenceBlock(references.len()))
    }
}

/// Finds the time origin of a pulse: the single peak that the detector reported for the
/// reference block, which stands at position `reference` of its record.
///
/// Fails, with the number of peaks reported, unless there is exactly one.
pub fn reference_peak(detections: &Vec<Vec<Peak>>, reference: usize) -> (result: Result<
    Peak,
    Error,
>)
    ensures
        result == aligned(peak_lists(detections@), reference as int),
{
    if reference < detections.len() {
        let found = &detections[reference];
        if found.len() == 1 {
            Ok(found[0])
        } else {
            Err(Error::NeedSingleReferencePeak(found.len()))
        }
    } else {
        Err(Error::NeedSingleReferencePeak(0))
    }
}

/// Appends the points of the block at position `block` to `points`: one for each peak that
/// the detector reported for it, numbered from 1 in the detector's order.
fn push_block_points(
    points: &mut Vec<Point>,
    record: &Record,
    detections: &Vec<Vec<Peak>>,
    reference_block: usize,
    reference_peak: Peak,
    block: usize,
)
    requires
        block < record.blocks.len(),
    ensures
        point_views(final(points)@) == point_views(old(points)@) + block_points(
            record@,
            peak_lists(detections@),
            reference_block as int,
            reference_peak,
            block as int,
        ),
{
    let ghost before = point_views(points@);
    let ghost added = block_points(
        record@,
        peak_lists(detections@),
        reference_block as int,
        reference_peak,
        block as int,
    );
    if block < detections.len() {
        let peaks = &detections[block];
        let num_target = peaks.len();
        let facet = record.facet;
        let high_channel = record.blocks[block].channel == Channel::High;
        assert(record@.blocks[block as int].channel == record.blocks[block as int].channel);
        let mut k: usize = 0;
        while k < num_target
            invariant
                k <= num_target,
                num_target == peaks.len(),
                added.len() == num_target,
                before.len() + k == points@.len(),
                block < record@.blocks.len(),
                peaks@ == peaks_of(peak_lists(detections@), block as int),
                facet == record@.facet,
                high_channel == (record@.blocks[block as int].channel == Channel::High),
                added == block_points(
                    record@,
                    peak_lists(detections@),
                    reference_block as int,
                    reference_peak,
                    block as int,
                ),
                point_views(points@) =~= before + added.take(k as int),
            decreases num_target - k,
        {
            let point = Point {
                block,
                peak: peaks[k],
                reference_block,
                reference_peak,
                target: k + 1,
                num_target,
                facet,
                high_channel,
            };
            assert(point@ == added[k as int]);
            let ghost earlier = points@;
            points.push(point);
            assert forall|n: int| 0 <= n < points@.len() implies point_views(points@)[n] == (before
                + added.take(k + 1))[n] by {
                if n < earlier.len() {
                    assert(point_views(earlier)[n] == (before + added.take(k as int))[n]);
                }
            }
            assert(point_views(points@) =~= before + added.take(k + 1));
            k += 1;
        }
        assert(added.take(k as int) =~= added);
    } else {
        assert(added =~= Seq::empty());
        assert(point_views(points@) =~= before + added);
    }
}

/// What a decomposition returned, as a value: the points or the error.
pub open spec fn outcome_of(result: Result<Vec<Point>, Error>) -> Result<Seq<PointView>, Error> {
    match result {
        Ok(points) => Ok(point_views(points@)),
        Err(e) => Err(e),
    }
}

/// Turns the peaks found in a single record into zero or more points.
///
/// `detections` holds, at the position of each block of the record, the peaks that the
/// detector reported for that block; a block without a list counts as one without peaks.
///
/// The blocks are sorted by channel; a record without exactly one reference block is refused
/// as malformed. The reference block must hold exactly one peak, which gives the time origin;
/// otherwise the record cannot be aligned, and the error carries the number of peaks found.
/// Then every peak of every low block, and after those every peak of every high block, gives
/// one point. Blocks keep the order of the record and peaks the order of the detector; the
/// peaks of one block are numbered from 1.
pub fn assemble(record: &Record, detections: &Vec<Vec<Peak>>) -> (result: Result<
    Vec<Point>,
    Error,
>)
    ensures
        outcome_of(result) == discretized(record@, peak_lists(detections@)),
{
    let classes = match classify(record) {
        Ok(classes) => classes,
        Err(e) => {
            return Err(e);
        },
    };
    let origin = match reference_peak(detections, classes.reference) {
        Ok(peak) => peak,
        Err(e) => {
            return Err(e);
        },
    };
    let ghost lists = peak_lists(detections@);
    let ghost low = on_channel(record@.blocks, Channel::Low);
    let ghost high = on_channel(record@.blocks, Channel::High);
    let ghost reference = classes.reference as int;
    proof {
        lemma_positions(record@.blocks, Channel::Low, record@.blocks.len() as int);
        lemma_positions(record@.blocks, Channel::High, record@.blocks.len() as int);
    }
    let mut points: Vec<Point> = Vec::new();
    let mut j: usize = 0;
    while j < classes.low.len()
        invariant
            j <= classes.low.len(),
            record@.blocks.len() == record.blocks.len(),
            lists == peak_lists(detections@),
            reference == classes.reference as int,
            index_seq(classes.low@) == low,
            forall|k: int| 0 <= k < low.len() ==> 0 <= #[trigger] low[k] < record@.blocks.len(),
            point_views(points@) == points_in(record@, lists, reference, origin, low.take(j as int)),
        decreases classes.low.len() - j,
    {
        let block = classes.low[j];
        assert(low[j as int] == block as int);
        assert(low.take(j + 1).drop_last() =~= low.take(j as int));
        push_block_points(&mut points, record, detections, classes.reference, origin, block);
        j += 1;
    }
    assert(low.take(j as int) =~= low);
    let mut j: usize = 0;
    while j < classes.high.len()
        invariant
            j <= classes.high.len(),
            record@.blocks.len() == record.blocks.len(),
            lists == peak_lists(detections@),
            reference == classes.reference as int,
            index_seq(classes.high@) == high,
            forall|k: int| 0 <= k < high.len() ==> 0 <= #[trigger] high[k] < record@.blocks.len(),
            point_views(points@) == points_in(record@, lists, reference, origin, low) + points_in(
                record@,
                lists,
                reference,
                origin,
                high.take(j as int),
            ),
        decreases classes.high.len() - j,
    {
        let block = classes.high[j];
        assert(high[j as int] == block as int);
        assert(high.take(j + 1).drop_last() =~= high.take(j as int));
        push_block_points(&mut points, record, detections, classes.reference, origin, block);
        assert(point_views(points@) =~= points_in(record@, lists, reference, origin, low)
            + points_in(record@, lists, reference, origin, high.take(j + 1)));
        j += 1;
    }
    assert(high.take(j as int) =~= high);
    proof {
        lemma_points_in_concat(record@, lists, reference, origin, low, high);
    }
    Ok(points)
}

/// Whether `detections` can be what searching the blocks of `record` gives: there is one list
/// of peaks for each block, the peaks of each list can have been reported for the samples of
/// its block, and no peaks are listed for a saturation block.
pub open spec fn detected_in(record: RecordView, detections: Seq<Seq<Peak>>) -> bool {
    &&& detections.len() == record.blocks.len()
    &&& forall|i: int|
        0 <= i < record.blocks.len() ==> reported_from(
            #[trigger] detections[i],
            record.blocks[i].samples,
        )
    &&& forall|i: int|
        0 <= i < record.blocks.len() && record.blocks[i].channel == Channel::Saturation ==> (
        #[trigger] detections[i]).len() == 0
}

/// Whether every block of the record can be searched for peaks: it holds no more samples
/// than a 32-bit count allows, as every block does that a digitizer session hands out.
pub open spec fn searchable(record: RecordView) -> bool {
    forall|i: int| 0 <= i < record.blocks.len() ==> (#[trigger] record.blocks[i]).samples.len()
        <= u32::MAX
}

/// Says whether every block of the record can be searched for peaks.
pub fn is_searchable(record: &Record) -> (fit: bool)
    ensures
        fit == searchable(record@),
{
    let mut i: usize = 0;
    while i < record.blocks.len()
        invariant
            i <= record.blocks.len(),
            record@.blocks.len() == record.blocks.len(),
            forall|j: int| 0 <= j < i ==> (#[trigger] record@.blocks[j]).samples.len() <= u32::MAX,
        decreases record.blocks.len() - i,
    {
        assert(record@.blocks[i as int] == record.blocks[i as int]@);
        if record.blocks[i].samples.len() > 0xffff_ffff {
            return false;
        }
        i += 1;
    }
    true
}

/// Whether a point has its place in the record: its block is a low or a high block, as the
/// point says; its peak stands in the samples of that block; its target number lies between 1
/// and the number of targets; it carries the record's facet; and it is measured from a peak
/// that stands in the samples of the reference block.
pub open spec fn placed_in(record: RecordView, point: PointView) -> bool {
    &&& 0 <= point.block < record.blocks.len()
    &&& record.blocks[point.block].channel == (if point.high_channel {
        Channel::High
    } else {
        Channel::Low
    })
    &&& point.peak.index < record.blocks[point.block].samples.len()
    &&& point.peak.amplitude == record.blocks[point.block].samples[point.peak.index as int]
    &&& 1 <= point.target <= point.num_target
    &&& point.facet == record.facet
    &&& 0 <= point.reference_block < record.blocks.len()
    &&& record.blocks[point.reference_block].channel == Channel::Reference
    &&& point.reference_peak.index < record.blocks[point.reference_block].samples.len()
    &&& point.reference_peak.amplitude
        == record.blocks[point.reference_block].samples[point.reference_peak.index as int]
}

/// What holds of the points of a record whatever the detectors reported: each has its place
/// in the record, all are measured from the same peak, and they stand in the order of the
/// output, the points of one block ascending by sample position.
pub open spec fn points_of_record(record: RecordView, points: Seq<PointView>) -> bool {
    &&& forall|j: int| 0 <= j < points.len() ==> placed_in(record, #[trigger] points[j])
    &&& forall|i: int, j: int|
        0 <= i < j < points.len() ==> {
            &&& comes_before(#[trigger] points[i], #[trigger] points[j])
            &&& points[i].block == points[j].block ==> points[i].peak.index < points[j].peak.index
            &&& points[i].reference_block == points[j].reference_block
            &&& points[i].reference_peak == points[j].reference_peak
        }
}

/// The points made from peaks that were found in the blocks of a record have their places in
/// the record and stand in the order of the output.
pub proof fn lemma_detected_points(record: RecordView, detections: Seq<Seq<Peak>>)
    requires
        detected_in(record, detections),
        discretized(record, detections) is Ok,
    ensures
        points_of_record(record, discretized(record, detections)->Ok_0),
{
    let points = discretized(record, detections)->Ok_0;
    let references = on_channel(record.blocks, Channel::Reference);
    lemma_discretized_targets(record, detections);
    lemma_discretized_order(record, detections);
    lemma_positions(record.blocks, Channel::Reference, record.blocks.len() as int);
    lemma_points_in_numbered(
        record,
        detections,
        references[0],
        aligned(detections, references[0])->Ok_0,
        point_order(record),
    );
    assert forall|j: int| 0 <= j < points.len() implies placed_in(record, #[trigger] points[j]) by {
        let point = points[j];
        assert(point.reference_block == references[0]);
        assert(reported_from(detections[point.block], record.blocks[point.block].samples));
        assert(point.peak == detections[point.block][point.target - 1]);
        assert(reported_from(
            detections[point.reference_block],
            record.blocks[point.reference_block].samples,
        ));
        assert(point.reference_peak == detections[point.reference_block][0]);
    }
}

/// Searches every block of a record for peaks, each with the detector that belongs to its
/// channel: high and reference blocks with the high detector, low blocks with the low detector
/// or, in a record without a high block, with the one for the low channel alone. Saturation
/// blocks are not searched. The result holds the peaks of each block at the block's position.
pub fn detect(record: &Record, detectors: &Detectors) -> (detections: Vec<Vec<Peak>>)
    requires
        searchable(record@),
    ensures
        detected_in(record@, peak_lists(detections@)),
{
    let has_high = record.has_high();
    let mut detections: Vec<Vec<Peak>> = Vec::new();
    let mut i: usize = 0;
    while i < record.blocks.len()
        invariant
            i <= record.blocks.len(),
            record@.blocks.len() == record.blocks.len(),
            detections@.len() == i,
            searchable(record@),
            forall|j: int|
                0 <= j < i ==> reported_from(
                    (#[trigger] detections@[j])@,
                    record@.blocks[j].samples,
                ),
            forall|j: int|
                0 <= j < i && record@.blocks[j].channel == Channel::Saturation ==> (
                #[trigger] detections@[j])@.len() == 0,
        decreases record.blocks.len() - i,
    {
        let block = &record.blocks[i];
        assert(record@.blocks[i as int] == block@);
        let peaks = match setting_for(block.channel, has_high) {
            Some(setting) => detect_peaks(detectors.detector(setting), &block.samples),
            None => Vec::new(),
        };
        detections.push(peaks);
        i += 1;
    }
    assert forall|j: int| 0 <= j < record@.blocks.len() implies reported_from(
        #[trigger] peak_lists(detections@)[j],
        record@.blocks[j].samples,
    ) by {
        assert(peak_lists(detections@)[j] == detections@[j]@);
    }
    assert forall|j: int|
        0 <= j < record@.blocks.len() && record@.blocks[j].channel
            == Channel::Saturation implies (#[trigger] peak_lists(detections@)[j]).len() == 0 by {
        assert(peak_lists(detections@)[j] == detections@[j]@);
    }
    detections
}

/// Turns a single record into zero or more points: searches its blocks for peaks with
/// `detectors`, and makes the points from what was found.
///
/// A record without exactly one reference block is refused as malformed, whatever the
/// detectors report. Otherwise the outcome is the one that `discretized` gives for the record
/// and the peaks that were found: the record cannot be aligned unless the reference block gave
/// exactly one peak, and else every peak of the low blocks, then every peak of the high
/// blocks, gives one point. Whatever was found, the points have their places in the record
/// and stand in the order of the output.
pub fn discretize(record: &Record, detectors: &Detectors) -> (result: Result<Vec<Point>, Error>)
    requires
        searchable(record@),
    ensures
        exists|detections: Seq<Seq<Peak>>| #[trigger]
            detected_in(record@, detections) && outcome_of(result) == discretized(
                record@,
                detections,
            ),
        on_channel(record@.blocks, Channel::Reference).len() != 1 ==> outcome_of(result) == Err::<
            Seq<PointView>,
            Error,
        >(
            Error::NeedSingleReferenceBlock(
                on_channel(record@.blocks, Channel::Reference).len() as usize,
            ),
        ),
        on_channel(record@.blocks, Channel::Reference).len() == 1 ==> result is Ok
            || result->Err_0 is NeedSingleReferencePeak,
        result is Ok ==> points_of_record(record@, point_views(result->Ok_0@)),
{
    let detections = detect(record, detectors);
    let result = assemble(record, &detections);
    proof {
        lemma_discretized_outcome(record@, peak_lists(detections@));
        assert(detected_in(record@, peak_lists(detections@)));
        if result is Ok {
            lemma_detected_points(record@, peak_lists(detections@));
        }
    }
    result
}

} // verus!
