//! What a conversion does with the records of one session, one after the other.
//!
//! A record whose reference block did not give exactly one peak is skipped, and its number
//! is noted. Any other failure ends the conversion. The points of the other records are
//! handed on in the order of the records.

use vstd::prelude::*;

use crate::convert::{
    assemble, detect, detected_in, discretized, index_seq, point_views, searchable, Point,
    PointView,
};
use crate::detector::{peak_lists, Detectors, Peak};
use crate::error::Error;
use crate::file::{Record, RecordView};

verus! {

/// What is done with one record, once its decomposition was tried.
#[derive(Debug)]
pub enum Disposition {
    /// The record gave these points, which go to the sink.
    Forward(Vec<Point>),
    /// The record is skipped, and the conversion goes on with the next one.
    Skip,
    /// The conversion ends with this error.
    Abort(Error),
}

/// What is done with a record whose decomposition gave `result`.
pub open spec fn disposition(result: Result<Vec<Point>, Error>) -> Disposition {
    match result {
        Ok(points) => Disposition::Forward(points),
        Err(e) => if e.skips_record() {
            Disposition::Skip
        } else {
            Disposition::Abort(e)
        },
    }
}

/// Decides what is done with a record whose decomposition gave `result`: its points are
/// forwarded; a record without a single reference peak is skipped; every other error ends the
/// conversion.
pub fn dispose(result: Result<Vec<Point>, Error>) -> (decision: Disposition)
    ensures
        decision == disposition(result),
{
    match result {
        Ok(points) => Disposition::Forward(points),
        Err(e) => {
            if e.is_skippable() {
                Disposition::Skip
            } else {
                Disposition::Abort(e)
            }
        },
    }
}

/// One record with the peaks that the detector found in its blocks, as a value.
pub struct PulseView {
    /// The record.
    pub record: RecordView,
    /// The peaks found in each block of the record, block by block.
    pub detections: Seq<Seq<Peak>>,
}

/// The outcome of a conversion that ran to the end.
#[derive(Debug)]
pub struct Converted {
    /// The points of all records that were not skipped, in the order of the records.
    pub points: Vec<Point>,
    /// The numbers, counted from zero, of the records that were skipped.
    pub skipped: Vec<usize>,
}

/// The outcome of a conversion, as a value.
pub struct ConvertedView {
    /// The points of all pulses that were not skipped, in the order of the pulses.
    pub points: Seq<PointView>,
    /// The numbers, counted from zero, of the pulses that were skipped.
    pub skipped: Seq<int>,
}

impl View for Converted {
    type V = ConvertedView;

    open spec fn view(&self) -> ConvertedView {
        ConvertedView { points: point_views(self.points@), skipped: index_seq(self.skipped@) }
    }
}

/// What converting a run of pulses gives: the points of the pulses that could be aligned, and
/// the numbers of those that could not; or the first error that is no such skip.
pub open spec fn converted(pulses: Seq<PulseView>) -> Result<ConvertedView, Error>
    decreases pulses.len(),
{
    if pulses.len() == 0 {
        Ok(ConvertedView { points: Seq::empty(), skipped: Seq::empty() })
    } else {
        match converted(pulses.drop_last()) {
            Err(e) => Err(e),
            Ok(before) => match discretized(pulses.last().record, pulses.last().detections) {
                Ok(points) => Ok(
                    ConvertedView { points: before.points + points, skipped: before.skipped },
                ),
                Err(e) => if e.skips_record() {
                    Ok(
                        ConvertedView {
                            points: before.points,
                            skipped: before.skipped.push(pulses.len() - 1),
                        },
                    )
                } else {
                    Err(e)
                },
            },
        }
    }
}

/// The pulses that `records` and `detections` stand for: each record with the peak lists at
/// its own position. A record for which there are no peak lists has no peaks.
pub open spec fn pulses_of(records: Seq<Record>, detections: Seq<Vec<Vec<Peak>>>) -> Seq<
    PulseView,
> {
    Seq::new(
        records.len(),
        |i: int|
            PulseView {
                record: records[i]@,
                detections: if i < detections.len() {
                    peak_lists(detections[i]@)
                } else {
                    Seq::empty()
                },
            },
    )
}

/// An error that ended the conversion of the first `n` pulses is the outcome of the whole
/// conversion.
pub proof fn lemma_converted_stops(pulses: Seq<PulseView>, n: int)
    requires
        0 <= n <= pulses.len(),
        converted(pulses.take(n)) is Err,
    ensures
        converted(pulses) == converted(pulses.take(n)),
    decreases pulses.len() - n,
{
    if n == pulses.len() {
        assert(pulses.take(n) =~= pulses);
    } else {
        assert(pulses.take(n + 1).drop_last() =~= pulses.take(n));
        lemma_converted_stops(pulses, n + 1);
    }
}

/// Skipping is isolated: taking a skipped pulse out of a run changes neither the points that
/// the conversion of the run gives nor the error that it ends with.
pub proof fn lemma_skip_is_isolated(pulses: Seq<PulseView>, k: int)
    requires
        0 <= k < pulses.len(),
        discretized(pulses[k].record, pulses[k].detections) is Err,
        discretized(pulses[k].record, pulses[k].detections)->Err_0.skips_record(),
    ensures
        match (converted(pulses), converted(pulses.remove(k))) {
            (Ok(with), Ok(without)) => with.points == without.points,
            (Err(with), Err(without)) => with == without,
            _ => false,
        },
    decreases pulses.len(),
{
    if k == pulses.len() - 1 {
        assert(pulses.remove(k) =~= pulses.drop_last());
    } else {
        lemma_skip_is_isolated(pulses.drop_last(), k);
        assert(pulses.remove(k).drop_last() =~= pulses.drop_last().remove(k));
        assert(pulses.remove(k).last() == pulses.last());
    }
}

/// The points that a pulse gives do not depend on the pulses before it: a conversion that
/// runs to the end gives the points of its first part followed by those of its second part.
pub proof fn lemma_converted_concat(first: Seq<PulseView>, second: Seq<PulseView>)
    requires
        converted(first + second) is Ok,
    ensures
        converted(first) is Ok,
        converted(second) is Ok,
        converted(first + second)->Ok_0.points == converted(first)->Ok_0.points + converted(
            second,
        )->Ok_0.points,
    decreases second.len(),
{
    if second.len() == 0 {
        assert(first + second =~= first);
        assert(converted(first)->Ok_0.points + converted(second)->Ok_0.points =~= converted(
            first,
        )->Ok_0.points);
    } else {
        assert((first + second).drop_last() =~= first + second.drop_last());
        assert((first + second).last() == second.last());
        lemma_converted_concat(first, second.drop_last());
        let head = converted(first)->Ok_0.points;
        let middle = converted(second.drop_last())->Ok_0.points;
        match discretized(second.last().record, second.last().detections) {
            Ok(points) => {
                assert((head + middle) + points =~= head + (middle + points));
            },
            Err(e) => {},
        }
    }
}

/// Converts the records of a session, given for each record the peaks that the detector
/// found in its blocks (`detections[i]` belongs to `records[i]`).
///
/// The records are decomposed in order. The points of each go to the end of the output. A
/// record whose reference block did not give exactly one peak is skipped, and its position
/// is noted. The first other error ends the conversion and is returned.
pub fn convert_records(records: &Vec<Record>, detections: &Vec<Vec<Vec<Peak>>>) -> (result:
    Result<Converted, Error>)
    ensures
        conversion_of(result) == converted(pulses_of(records@, detections@)),
{
    let ghost pulses = pulses_of(records@, detections@);
    let mut points: Vec<Point> = Vec::new();
    let mut skipped: Vec<usize> = Vec::new();
    let none: Vec<Vec<Peak>> = Vec::new();
    assert(peak_lists(none@) =~= Seq::empty());
    let mut i: usize = 0;
    assert(pulses.take(0) =~= Seq::empty());
    assert(point_views(points@) =~= Seq::empty());
    assert(index_seq(skipped@) =~= Seq::empty());
    while i < records.len()
        invariant
            i <= records.len(),
            pulses == pulses_of(records@, detections@),
            peak_lists(none@) == Seq::<Seq<Peak>>::empty(),
            converted(pulses.take(i as int)) == Ok::<ConvertedView, Error>(
                ConvertedView { points: point_views(points@), skipped: index_seq(skipped@) },
            ),
        decreases records.len() - i,
    {
        let found = if i < detections.len() {
            &detections[i]
        } else {
            &none
        };
        assert(pulses[i as int].record == records[i as int]@);
        assert(pulses[i as int].detections == peak_lists(found@));
        assert(pulses.take(i + 1).drop_last() =~= pulses.take(i as int));
        assert(pulses.take(i + 1).last() == pulses[i as int]);
        match assemble(&records[i], found) {
            Ok(mut more) => {
                let ghost before = points@;
                let ghost added = more@;
                points.append(&mut more);
                assert(point_views(points@) =~= point_views(before) + point_views(added));
            },
            Err(e) => {
                if e.is_skippable() {
                    let ghost before = skipped@;
                    skipped.push(i);
                    assert(index_seq(skipped@) =~= index_seq(before).push(i as int));
                } else {
                    proof {
                        lemma_converted_stops(pulses, i + 1);
                    }
                    return Err(e);
                }
            },
        }
        i += 1;
    }
    assert(pulses.take(i as int) =~= pulses);
    Ok(Converted { points, skipped })
}

/// What a conversion returned, as a value: its outcome or the error that ended it.
pub open spec fn conversion_of(result: Result<Converted, Error>) -> Result<ConvertedView, Error> {
    match result {
        Ok(outcome) => Ok(outcome@),
        Err(e) => Err(e),
    }
}

/// Whether `pulses` can be what searching the blocks of `records` gives: each pulse is one of
/// the records, in their order, with peaks that can have been found in its blocks.
pub open spec fn searched(records: Seq<Record>, pulses: Seq<PulseView>) -> bool {
    &&& pulses.len() == records.len()
    &&& forall|i: int|
        0 <= i < records.len() ==> {
            &&& (#[trigger] pulses[i]).record == records[i]@
            &&& detected_in(records[i]@, pulses[i].detections)
        }
}

/// Converts the records of a session: searches the blocks of every record for peaks with
/// `detectors`, and converts the records with what was found, as `convert_records` does.
pub fn convert(records: &Vec<Record>, detectors: &Detectors) -> (result: Result<Converted, Error>)
    requires
        forall|i: int| 0 <= i < records@.len() ==> searchable((#[trigger] records@[i])@),
    ensures
        exists|pulses: Seq<PulseView>| #[trigger]
            searched(records@, pulses) && conversion_of(result) == converted(pulses),
{
    let mut detections: Vec<Vec<Vec<Peak>>> = Vec::new();
    let mut i: usize = 0;
    while i < records.len()
        invariant
            i <= records.len(),
            detections@.len() == i,
            forall|j: int| 0 <= j < records@.len() ==> searchable((#[trigger] records@[j])@),
            forall|j: int|
                0 <= j < i ==> detected_in(records@[j]@, peak_lists((#[trigger] detections@[j])@)),
        decreases records.len() - i,
    {
        detections.push(detect(&records[i], detectors));
        i += 1;
    }
    let result = convert_records(records, &detections);
    proof {
        let pulses = pulses_of(records@, detections@);
        assert forall|j: int| 0 <= j < records@.len() implies {
            &&& (#[trigger] pulses[j]).record == records@[j]@
            &&& detected_in(records@[j]@, pulses[j].detections)
        } by {
            assert(pulses[j].detections == peak_lists(detections@[j]@));
        }
        assert(searched(records@, pulses));
    }
    result
}

} // verus!
