//! What the peak detector is told and what it tells: the settings for each channel, and the
//! peaks that it reports for a block of samples.

use peakbag::PeakDetector;
use vstd::prelude::*;

use crate::file::Channel;

verus! {

/// A decimal number: `mantissa` divided by ten to the power `scale`.
///
/// The two detector thresholds are given in this form, so that they are held exactly.
#[derive(Clone, Copy, Debug, PartialEq, Eq, Structural)]
pub struct Decimal {
    /// The digits of the number, as an integer.
    pub mantissa: i32,
    /// How many of those digits stand behind the decimal point.
    pub scale: u8,
}

/// The settings of one peak detector.
#[derive(Clone, Copy, Debug, PartialEq, Eq, Structural)]
pub struct DetectorConfig {
    /// The number of samples that a peak must rise, and then fall, without interruption.
    pub width: usize,
    /// A peak's amplitude must be strictly above the floor.
    pub floor: u16,
    /// A peak's amplitude must be at or below the ceiling.
    pub ceiling: u16,
    /// The sample value at which the detector counts the signal as saturated, if any.
    pub saturation: Option<u16>,
    /// The least height above the background that a peak must have.
    pub min_height_above_background: Decimal,
    /// A peak's kurtosis must be strictly below this.
    pub max_kurtosis: Decimal,
}

/// A peak in the waveform data, as the detector reports it.
#[derive(Clone, Copy, Debug, PartialEq, Eq, Structural)]
pub struct Peak {
    /// The index of the peak in the sample data of its block.
    pub index: usize,
    /// The raw intensity of the peak.
    pub amplitude: u16,
}

/// The detector settings for every channel of a record.
///
/// The low channel has two settings: the detector is made less sensitive on it when the record
/// holds no high-channel block to check against.
#[derive(Clone, Copy, Debug, PartialEq, Eq, Structural)]
pub struct Policy {
    /// The settings for the high channel, which the reference channel shares.
    pub high: DetectorConfig,
    /// The settings for the low channel in a record that holds a high-channel block.
    pub low: DetectorConfig,
    /// The settings for the low channel in a record that holds no high-channel block.
    pub low_alone: DetectorConfig,
}

/// Which of a policy's settings a block is searched with.
#[derive(Clone, Copy, Debug, PartialEq, Eq, Structural)]
pub enum Setting {
    /// The settings of the high channel.
    High,
    /// The settings of the low channel beside a high-channel block.
    Low,
    /// The settings of the low channel without a high-channel block.
    LowAlone,
}

/// The setting with which a block on `channel` is searched, in a record that holds a
/// high-channel block or not. The reference channel shares the setting of the high channel.
/// Saturation blocks are not searched.
pub open spec fn setting_of(channel: Channel, has_high: bool) -> Option<Setting> {
    match channel {
        Channel::High => Some(Setting::High),
        Channel::Reference => Some(Setting::High),
        Channel::Low => Some(
            if has_high {
                Setting::Low
            } else {
                Setting::LowAlone
            },
        ),
        Channel::Saturation => None,
    }
}

/// Returns the setting with which a block on `channel` is searched; `has_high` says whether
/// the block's record holds a high-channel block. There is none for a saturation block.
pub fn setting_for(channel: Channel, has_high: bool) -> (setting: Option<Setting>)
    ensures
        setting == setting_of(channel, has_high),
{
    match channel {
        Channel::High => Some(Setting::High),
        Channel::Reference => Some(Setting::High),
        Channel::Low => {
            if has_high {
                Some(Setting::Low)
            } else {
                Some(Setting::LowAlone)
            }
        },
        Channel::Saturation => None,
    }
}

/// The peak detector of `peakbag`. Nothing of its settings is visible here: it is made by the
/// caller and handed through to the search.
#[verifier::external_type_specification]
#[verifier::external_body]
#[verifier::reject_recursive_types(T)]
pub struct ExPeakDetector<T: Copy>(PeakDetector<T>);

/// The detectors for every channel of a record, one for each setting of a policy.
#[derive(Clone, Copy, Debug)]
pub struct Detectors {
    /// The detector for the high channel, which the reference channel shares.
    pub high: PeakDetector<u16>,
    /// The detector for the low channel in a record that holds a high-channel block.
    pub low: PeakDetector<u16>,
    /// The detector for the low channel in a record that holds no high-channel block.
    pub low_alone: PeakDetector<u16>,
}

impl Detectors {
    /// The detector that belongs to a setting.
    pub open spec fn get(self, setting: Setting) -> PeakDetector<u16> {
        match setting {
            Setting::High => self.high,
            Setting::Low => self.low,
            Setting::LowAlone => self.low_alone,
        }
    }

    /// Returns the detector that belongs to a setting.
    pub fn detector(&self, setting: Setting) -> (detector: &PeakDetector<u16>)
        ensures
            *detector == self.get(setting),
    {
        match setting {
            Setting::High => &self.high,
            Setting::Low => &self.low,
            Setting::LowAlone => &self.low_alone,
        }
    }
}

/// Whether `peaks` can be what a detector reports for `samples`: every peak stands at a
/// position of the samples and has the sample there as its amplitude, and the peaks come in
/// strictly ascending order of position.
pub open spec fn reported_from(peaks: Seq<Peak>, samples: Seq<u16>) -> bool {
    &&& forall|k: int|
        0 <= k < peaks.len() ==> (#[trigger] peaks[k]).index < samples.len() && peaks[k].amplitude
            == samples[peaks[k].index as int]
    &&& forall|j: int, k: int|
        0 <= j < k < peaks.len() ==> (#[trigger] peaks[j]).index < (#[trigger] peaks[k]).index
}

/// Searches `samples` for peaks with `detector`.
///
/// This calls `PeakDetector::detect_peaks` of `peakbag` and keeps the position and the
/// amplitude of each peak that it reports. Nothing is proved of that search. The contract
/// claims what its source shows of every report: a peak's amplitude is read from the samples at
/// the peak's position, and that position is one that the pass over the samples has already
/// left behind when the peak is reported, while each later peak gets a position that the pass
/// reaches only afterwards. Which peaks are reported is decided in floating point and is not
/// stated. The search sums the squares of the samples around a peak in 64 bits, which cannot
/// overflow while there are no more samples than a 32-bit count allows.
#[verifier::external_body]
pub(crate) fn detect_peaks(detector: &PeakDetector<u16>, samples: &Vec<u16>) -> (peaks: Vec<Peak>)
    requires
        samples@.len() <= u32::MAX,
    ensures
        reported_from(peaks@, samples@),
{
    detector
        .detect_peaks(&samples[..])
        .into_iter()
        .map(|peak| Peak { index: peak.index, amplitude: peak.amplitude })
        .collect()
}

/// The least height above the background of the standard policy: 5.0.
pub open spec fn standard_min_height() -> Decimal {
    Decimal { mantissa: 5, scale: 0 }
}

/// The kurtosis limit of the standard policy: 0.04.
pub open spec fn standard_max_kurtosis() -> Decimal {
    Decimal { mantissa: 4, scale: 2 }
}

/// The standard policy, as a value.
pub open spec fn standard_policy() -> Policy {
    Policy {
        high: DetectorConfig {
            width: 2,
            floor: 15,
            ceiling: 255,
            saturation: None,
            min_height_above_background: standard_min_height(),
            max_kurtosis: standard_max_kurtosis(),
        },
        low: DetectorConfig {
            width: 2,
            floor: 15,
            ceiling: 255,
            saturation: Some(255u16),
            min_height_above_background: standard_min_height(),
            max_kurtosis: standard_max_kurtosis(),
        },
        low_alone: DetectorConfig {
            width: 3,
            floor: 15,
            ceiling: 250,
            saturation: Some(255u16),
            min_height_above_background: standard_min_height(),
            max_kurtosis: standard_max_kurtosis(),
        },
    }
}

impl Policy {
    /// The settings that this policy gives to a block on `channel`, in a record that holds a
    /// high-channel block or not. Saturation blocks are not searched for peaks.
    pub open spec fn settings(self, channel: Channel, has_high: bool) -> Option<DetectorConfig> {
        match channel {
            Channel::High => Some(self.high),
            Channel::Reference => Some(self.high),
            Channel::Low => Some(if has_high { self.low } else { self.low_alone }),
            Channel::Saturation => None,
        }
    }

    /// Returns the standard policy: width 2, floor 15 and ceiling 255 on the high and reference
    /// channels; on the low channel width 2 and ceiling 255 beside a high-channel block, width
    /// 3 and ceiling 250 without one, floor 15 and saturation at 255 in both cases; and on
    /// every channel a least height above the background of 5.0 and a kurtosis limit of 0.04.
    pub fn standard() -> (policy: Policy)
        ensures
            policy == standard_policy(),
    {
        let min_height = Decimal { mantissa: 5, scale: 0 };
        let max_kurtosis = Decimal { mantissa: 4, scale: 2 };
        Policy {
            high: DetectorConfig {
                width: 2,
                floor: 15,
                ceiling: 255,
                saturation: None,
                min_height_above_background: min_height,
                max_kurtosis,
            },
            low: DetectorConfig {
                width: 2,
                floor: 15,
                ceiling: 255,
                saturation: Some(255),
                min_height_above_background: min_height,
                max_kurtosis,
            },
            low_alone: DetectorConfig {
                width: 3,
                floor: 15,
                ceiling: 250,
                saturation: Some(255),
                min_height_above_background: min_height,
                max_kurtosis,
            },
        }
    }

    /// Returns the settings for a block on `channel`; `has_high` says whether the block's
    /// record holds a high-channel block. There are none for a saturation block.
    pub fn config_for(&self, channel: Channel, has_high: bool) -> (config: Option<DetectorConfig>)
        ensures
            config == self.settings(channel, has_high),
    {
        match setting_for(channel, has_high) {
            Some(Setting::High) => Some(self.high),
            Some(Setting::Low) => Some(self.low),
            Some(Setting::LowAlone) => Some(self.low_alone),
            None => None,
        }
    }
}

/// The peak lists of a detection, as sequences.
pub open spec fn peak_lists(detections: Seq<Vec<Peak>>) -> Seq<Seq<Peak>> {
    detections.map_values(|peaks: Vec<Peak>| peaks@)
}

/// The peaks that were found in the block at position `block`. A block for which the
/// detection holds no list has no peaks.
pub open spec fn peaks_of(detections: Seq<Seq<Peak>>, block: int) -> Seq<Peak> {
    if 0 <= block < detections.len() {
        detections[block]
    } else {
        Seq::empty()
    }
}

} // verus!
