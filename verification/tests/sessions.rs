use sdf::convert::{assemble, Point};
use sdf::detector::{DetectorConfig, Detectors, Peak, Policy};
use sdf::error::Error;
use sdf::file::{Block, Channel, Record};
use sdf::session::{convert, convert_records, dispose, Disposition};

fn pulse(facet: u16, channels: &[Channel]) -> Record {
    Record {
        synchronized: true,
        sync_lastsec: false,
        housekeeping: false,
        facet,
        blocks: channels
            .iter()
            .map(|channel| Block {
                channel: *channel,
                samples: Vec::new(),
            })
            .collect(),
    }
}

fn found(indices: &[usize]) -> Vec<Peak> {
    indices
        .iter()
        .map(|index| Peak {
            index: *index,
            amplitude: 77,
        })
        .collect()
}

fn detector_of(config: &DetectorConfig) -> peakbag::PeakDetector<u16> {
    let height = f64::from(config.min_height_above_background.mantissa)
        / 10f64.powi(i32::from(config.min_height_above_background.scale));
    let kurtosis =
        f64::from(config.max_kurtosis.mantissa) / 10f64.powi(i32::from(config.max_kurtosis.scale));
    let detector = peakbag::PeakDetector::new(config.width, config.floor, config.ceiling)
        .min_height_above_background(height)
        .max_kurtosis(kurtosis);
    match config.saturation {
        Some(saturation) => detector.saturation(saturation),
        None => detector,
    }
}

fn standard_detectors() -> Detectors {
    let policy = Policy::standard();
    Detectors {
        high: detector_of(&policy.high),
        low: detector_of(&policy.low),
        low_alone: detector_of(&policy.low_alone),
    }
}

fn pulse_samples() -> Vec<u16> {
    vec![
        2, 1, 2, 2, 2, 1, 4, 10, 32, 80, 140, 188, 188, 149, 93, 47, 21, 9, 4, 4, 5, 5, 3, 1,
    ]
}

fn sampled(channels: &[(Channel, Vec<u16>)]) -> Record {
    Record {
        synchronized: true,
        sync_lastsec: true,
        housekeeping: false,
        facet: 1,
        blocks: channels
            .iter()
            .map(|(channel, samples)| Block {
                channel: *channel,
                samples: samples.clone(),
            })
            .collect(),
    }
}

#[test]
fn convert_searches_and_skips() {
    let detectors = standard_detectors();
    let good = || {
        sampled(&[
            (Channel::Reference, pulse_samples()),
            (Channel::High, pulse_samples()),
        ])
    };
    let flat = sampled(&[
        (Channel::Reference, vec![4; 30]),
        (Channel::High, pulse_samples()),
    ]);
    let outcome = convert(&vec![good(), flat, good()], &detectors).unwrap();
    assert_eq!(vec![1], outcome.skipped);
    assert_eq!(2, outcome.points.len());
    for point in &outcome.points {
        assert_eq!((1, 1), (point.target, point.num_target));
        assert_eq!(11, point.peak.index);
        assert_eq!(188, point.peak.amplitude);
        assert_eq!(11, point.reference_peak.index);
        assert!(point.high_channel);
    }
    let without = convert(&vec![good(), good()], &detectors).unwrap();
    assert_eq!(without.points, outcome.points);

    let malformed = sampled(&[(Channel::High, pulse_samples())]);
    assert!(matches!(
        convert(&vec![good(), malformed, good()], &detectors),
        Err(Error::NeedSingleReferenceBlock(0))
    ));
}

#[test]
fn dispose_forwards_skips_or_aborts() {
    let record = pulse(0, &[Channel::Reference, Channel::High]);
    let points = assemble(&record, &vec![found(&[10]), found(&[12])]).unwrap();
    match dispose(Ok(points.clone())) {
        Disposition::Forward(forwarded) => assert_eq!(points, forwarded),
        other => panic!("{:?}", other),
    }
    assert!(matches!(
        dispose(Err(Error::NeedSingleReferencePeak(2))),
        Disposition::Skip
    ));
    assert!(matches!(
        dispose(Err(Error::NeedSingleReferenceBlock(2))),
        Disposition::Abort(Error::NeedSingleReferenceBlock(2))
    ));
    assert!(matches!(
        dispose(Err(Error::Sdc("full".to_string()))),
        Disposition::Abort(Error::Sdc(_))
    ));
}

#[test]
fn convert_concatenates_in_record_order() {
    let records = vec![
        pulse(1, &[Channel::Reference, Channel::High]),
        pulse(2, &[Channel::Low, Channel::Reference]),
    ];
    let detections = vec![
        vec![found(&[10]), found(&[12, 20])],
        vec![found(&[33]), found(&[9])],
    ];
    let outcome = convert_records(&records, &detections).unwrap();
    assert!(outcome.skipped.is_empty());
    let mut expected: Vec<Point> = assemble(&records[0], &detections[0]).unwrap();
    expected.extend(assemble(&records[1], &detections[1]).unwrap());
    assert_eq!(3, expected.len());
    assert_eq!(expected, outcome.points);
    assert_eq!(vec![1, 1, 2], outcome.points.iter().map(|p| p.facet).collect::<Vec<u16>>());
}

#[test]
fn skipped_record_leaves_the_others_alone() {
    let good_first = pulse(1, &[Channel::Reference, Channel::High]);
    let unaligned = pulse(2, &[Channel::Reference, Channel::High]);
    let good_last = pulse(3, &[Channel::Low, Channel::Reference]);
    let first_peaks = vec![found(&[10]), found(&[12, 20])];
    let unaligned_peaks = vec![found(&[]), found(&[15])];
    let last_peaks = vec![found(&[33]), found(&[9])];

    let with = convert_records(
        &vec![
            pulse(1, &[Channel::Reference, Channel::High]),
            unaligned,
            pulse(3, &[Channel::Low, Channel::Reference]),
        ],
        &vec![first_peaks.clone(), unaligned_peaks, last_peaks.clone()],
    )
    .unwrap();
    let without = convert_records(
        &vec![good_first, good_last],
        &vec![first_peaks, last_peaks],
    )
    .unwrap();
    assert_eq!(vec![1], with.skipped);
    assert!(without.skipped.is_empty());
    assert_eq!(3, with.points.len());
    assert_eq!(without.points, with.points);
}

#[test]
fn convert_notes_every_skipped_record() {
    let records = vec![
        pulse(0, &[Channel::Reference]),
        pulse(0, &[Channel::Reference, Channel::Low]),
        pulse(0, &[Channel::Reference]),
    ];
    let detections = vec![
        vec![found(&[1, 2])],
        vec![found(&[1]), found(&[5])],
    ];
    let outcome = convert_records(&records, &detections).unwrap();
    assert_eq!(vec![0, 2], outcome.skipped);
    assert_eq!(1, outcome.points.len());
    assert_eq!(1, outcome.points[0].block);
}

#[test]
fn convert_stops_at_a_malformed_record() {
    let records = vec![
        pulse(0, &[Channel::Reference, Channel::High]),
        pulse(0, &[Channel::High]),
        pulse(0, &[Channel::Reference, Channel::Reference]),
    ];
    let detections = vec![
        vec![found(&[10]), found(&[12])],
        vec![found(&[10])],
        vec![found(&[10]), found(&[12])],
    ];
    assert!(matches!(
        convert_records(&records, &detections),
        Err(Error::NeedSingleReferenceBlock(0))
    ));
}

#[test]
fn convert_of_nothing_is_empty() {
    let outcome = convert_records(&Vec::new(), &Vec::new()).unwrap();
    assert!(outcome.points.is_empty());
    assert!(outcome.skipped.is_empty());
}
