//! The data that one digitizer session hands out: channels, sample blocks, records, file
//! information, and the decoding of the raw codes and flag words that they arrive as.

use vstd::prelude::*;

use crate::error::Error;

verus! {

/// Information from one detector or set of detectors.
#[derive(Clone, Copy, Debug, PartialEq, Eq, Hash, Structural)]
pub enum Channel {
    /// The high channel.
    High,
    /// The low channel.
    Low,
    /// The saturation channel.
    Saturation,
    /// The reference channel.
    Reference,
}

impl Channel {
    /// The channel that a raw channel code stands for, if it stands for one.
    pub open spec fn of_code(n: u32) -> Option<Channel> {
        if n == 0 {
            Some(Channel::High)
        } else if n == 1 {
            Some(Channel::Low)
        } else if n == 2 {
            Some(Channel::Saturation)
        } else if n == 3 {
            Some(Channel::Reference)
        } else {
            None
        }
    }

    /// The raw code of this channel.
    pub open spec fn spec_code(self) -> u32 {
        match self {
            Channel::High => 0,
            Channel::Low => 1,
            Channel::Saturation => 2,
            Channel::Reference => 3,
        }
    }

    /// The lower-case name of this channel.
    pub open spec fn spec_name(self) -> Seq<char> {
        match self {
            Channel::High => "high"@,
            Channel::Low => "low"@,
            Channel::Saturation => "saturation"@,
            Channel::Reference => "reference"@,
        }
    }

    /// Returns the appropriate channel for the given code: 0 is high, 1 is low, 2 is
    /// saturation, 3 is reference. Every other code is rejected as an invalid channel.
    pub fn from_u32(n: u32) -> (result: Result<Channel, Error>)
        ensures
            result == match Channel::of_code(n) {
                Some(channel) => Ok::<Channel, Error>(channel),
                None => Err(Error::InvalidChannel(n)),
            },
    {
        match n {
            0 => Ok(Channel::High),
            1 => Ok(Channel::Low),
            2 => Ok(Channel::Saturation),
            3 => Ok(Channel::Reference),
            _ => Err(Error::InvalidChannel(n)),
        }
    }

    /// Returns the raw code of this channel, the one that `from_u32` accepts for it.
    pub fn code(&self) -> (n: u32)
        ensures
            n == self.spec_code(),
            Channel::of_code(n) == Some(*self),
    {
        match self {
            Channel::High => 0,
            Channel::Low => 1,
            Channel::Saturation => 2,
            Channel::Reference => 3,
        }
    }

    /// Returns the lower-case name of this channel, as it is shown to a reader.
    pub fn name(&self) -> (s: &'static str)
        ensures
            s@ == self.spec_name(),
    {
        match self {
            Channel::High => "high",
            Channel::Low => "low",
            Channel::Saturation => "saturation",
            Channel::Reference => "reference",
        }
    }
}

/// A channel code is accepted exactly when it is the code of some channel, and decoding a
/// channel's own code gives that channel back.
pub proof fn lemma_channel_code_round_trip(channel: Channel, n: u32)
    ensures
        Channel::of_code(channel.spec_code()) == Some(channel),
        Channel::of_code(n) is Some <==> n <= 3,
        Channel::of_code(n) == Some(channel) <==> n == channel.spec_code(),
{
}

/// The timestamp of the start of the sample block can be relative or absolute.
///
/// If absolute, large values could lose precision.
#[derive(Clone, Copy, Debug, PartialEq, Eq, Structural)]
pub enum SosblMode {
    /// The time of the start of the sample block is given relative to the file, to preserve
    /// maximum precision.
    Relative,
    /// The time of the start of the sample block is given in absolute time, which may not
    /// provide enough precision under some circumstances.
    Absolute,
}

impl SosblMode {
    /// Returns the value that the digitizer session takes for this mode: 1 switches relative
    /// timestamps on, 0 switches them off.
    pub fn relative_flag(&self) -> (value: i32)
        ensures
            value == (if *self == SosblMode::Relative { 1i32 } else { 0i32 }),
    {
        match self {
            SosblMode::Absolute => 0,
            SosblMode::Relative => 1,
        }
    }
}

/// A type of calibration table.
///
/// Really a pair between type and channel number.
#[derive(Clone, Copy, Debug, PartialEq, Eq, Structural)]
pub enum CalibrationTableKind {
    /// An amplitude calibration table.
    Amplitude(Channel),
    /// A range calibration table.
    Range(Channel),
}

impl CalibrationTableKind {
    /// The channel that this table belongs to.
    pub open spec fn channel(self) -> Channel {
        match self {
            CalibrationTableKind::Amplitude(channel) => channel,
            CalibrationTableKind::Range(channel) => channel,
        }
    }

    /// The number of this table: amplitude tables come first, range tables second, and within
    /// each pair the high channel comes before the low one. The other channels have no table.
    pub open spec fn table_number(self) -> Option<u16> {
        match self {
            CalibrationTableKind::Amplitude(Channel::High) => Some(0u16),
            CalibrationTableKind::Amplitude(Channel::Low) => Some(1u16),
            CalibrationTableKind::Range(Channel::High) => Some(2u16),
            CalibrationTableKind::Range(Channel::Low) => Some(3u16),
            _ => None,
        }
    }

    /// Returns this calibration table kind as a `u16`.
    ///
    /// Returns an error that names the channel if the combination is not valid.
    pub fn as_u16(&self) -> (result: Result<u16, Error>)
        ensures
            result == match self.table_number() {
                Some(n) => Ok::<u16, Error>(n),
                None => Err(Error::NoCalibrationTableForChannel(self.channel())),
            },
    {
        match *self {
            CalibrationTableKind::Amplitude(channel) => {
                match channel {
                    Channel::High => Ok(0),
                    Channel::Low => Ok(1),
                    _ => Err(Error::NoCalibrationTableForChannel(channel)),
                }
            },
            CalibrationTableKind::Range(channel) => {
                match channel {
                    Channel::High => Ok(2),
                    Channel::Low => Ok(3),
                    _ => Err(Error::NoCalibrationTableForChannel(channel)),
                }
            },
        }
    }
}

/// A sample block.
#[derive(Debug)]
pub struct Block {
    /// The channel that the samples were taken on.
    pub channel: Channel,
    /// The actual data samples.
    pub samples: Vec<u16>,
}

/// A sample block as a value: its channel and the sequence of its samples.
pub struct BlockView {
    /// The channel that the samples were taken on.
    pub channel: Channel,
    /// The samples, in the order in which they were taken.
    pub samples: Seq<u16>,
}

impl View for Block {
    type V = BlockView;

    open spec fn view(&self) -> BlockView {
        BlockView { channel: self.channel, samples: self.samples@ }
    }
}

/// A sample data record: one laser shot.
#[derive(Debug)]
pub struct Record {
    /// Is this record GPS synchronized?
    pub synchronized: bool,
    /// Has this record been synchronized within the last second?
    pub sync_lastsec: bool,
    /// Is this a housekeeping block?
    pub housekeeping: bool,
    /// The mirror facet number.
    pub facet: u16,
    /// The sample blocks, in the order in which they were read.
    pub blocks: Vec<Block>,
}

/// A record as a value.
pub struct RecordView {
    /// Whether the record is GPS synchronized.
    pub synchronized: bool,
    /// Whether the record was synchronized within the last second.
    pub sync_lastsec: bool,
    /// Whether this is a housekeeping record.
    pub housekeeping: bool,
    /// The mirror facet number.
    pub facet: u16,
    /// The sample blocks, in the order in which they were read.
    pub blocks: Seq<BlockView>,
}

impl View for Record {
    type V = RecordView;

    open spec fn view(&self) -> RecordView {
        RecordView {
            synchronized: self.synchronized,
            sync_lastsec: self.sync_lastsec,
            housekeeping: self.housekeeping,
            facet: self.facet,
            blocks: self.blocks@.map_values(|block: Block| block@),
        }
    }
}

/// The positions of the blocks on `channel` among the first `n` blocks, in ascending order.
pub open spec fn positions(blocks: Seq<BlockView>, channel: Channel, n: int) -> Seq<int>
    decreases n,
{
    if n <= 0 {
        Seq::empty()
    } else {
        let before = positions(blocks, channel, n - 1);
        if n <= blocks.len() && blocks[n - 1].channel == channel {
            before.push(n - 1)
        } else {
            before
        }
    }
}

/// The positions of all blocks on `channel`, in ascending order.
pub open spec fn on_channel(blocks: Seq<BlockView>, channel: Channel) -> Seq<int> {
    positions(blocks, channel, blocks.len() as int)
}

/// `positions` lists each block on the channel once, in ascending order, and nothing else.
pub proof fn lemma_positions(blocks: Seq<BlockView>, channel: Channel, n: int)
    ensures
        positions(blocks, channel, n).len() <= (if n < 0 { 0 } else { n }),
        forall|k: int|
            0 <= k < positions(blocks, channel, n).len() ==> {
                let p = #[trigger] positions(blocks, channel, n)[k];
                0 <= p < n && p < blocks.len() && blocks[p].channel == channel
            },
        forall|j: int, k: int|
            0 <= j < k < positions(blocks, channel, n).len() ==> positions(blocks, channel, n)[j]
                < positions(blocks, channel, n)[k],
        forall|p: int|
            0 <= p < n && p < blocks.len() && blocks[p].channel == channel ==> positions(
                blocks,
                channel,
                n,
            ).contains(p),
    decreases n,
{
    if n > 0 {
        lemma_positions(blocks, channel, n - 1);
        let before = positions(blocks, channel, n - 1);
        let all = positions(blocks, channel, n);
        assert forall|p: int|
            0 <= p < n && p < blocks.len() && blocks[p].channel == channel implies all.contains(
            p,
        ) by {
            if p < n - 1 {
                assert(before.contains(p));
                let k = choose|k: int| 0 <= k < before.len() && before[k] == p;
                assert(all[k] == p);
            } else {
                assert(all[all.len() - 1] == p);
            }
        }
    }
}

/// A sample block as the digitizer session hands it out, with the channel still as a code.
#[derive(Debug)]
pub struct RawBlock {
    /// The channel code: 0:high, 1:low, 2:saturation, 3:reference.
    pub channel: u32,
    /// The actual data samples.
    pub samples: Vec<u16>,
}

/// The block that a raw block stands for, if its channel code is valid.
pub open spec fn decoded_block(raw: RawBlock) -> Option<BlockView> {
    match Channel::of_code(raw.channel) {
        Some(channel) => Some(BlockView { channel, samples: raw.samples@ }),
        None => None,
    }
}

/// Whether a flag word has the bits of `mask` set.
pub open spec fn flag_set(flags: u16, mask: u16) -> bool {
    flags & mask == mask
}

impl Block {
    /// Decodes one raw block. A channel code that is not the code of a channel is rejected,
    /// and the error carries it.
    pub fn from_raw(raw: RawBlock) -> (result: Result<Block, Error>)
        ensures
            match result {
                Ok(block) => decoded_block(raw) == Some(block@),
                Err(e) => decoded_block(raw) is None && e == Error::InvalidChannel(raw.channel),
            },
    {
        match Channel::from_u32(raw.channel) {
            Ok(channel) => Ok(Block { channel, samples: raw.samples }),
            Err(e) => Err(e),
        }
    }
}

impl Record {
    /// Decodes one record from what the digitizer session hands out: the flag word, the facet
    /// and the raw blocks.
    ///
    /// Bit 0 of the flags says that the record is synchronized, bit 1 that it was so within
    /// the last second, bit 2 that it is a housekeeping record. The blocks keep their order.
    /// The first block with an invalid channel code, if there is one, makes the whole record
    /// fail with that code.
    pub fn from_raw(flags: u16, facet: u16, raws: Vec<RawBlock>) -> (result: Result<Record, Error>)
        ensures
            match result {
                Ok(record) => {
                    &&& record.synchronized == flag_set(flags, 1)
                    &&& record.sync_lastsec == flag_set(flags, 2)
                    &&& record.housekeeping == flag_set(flags, 4)
                    &&& record.facet == facet
                    &&& record@.blocks.len() == raws@.len()
                    &&& forall|i: int|
                        0 <= i < raws@.len() ==> decoded_block(#[trigger] raws@[i]) == Some(
                            record@.blocks[i],
                        )
                },
                Err(e) => exists|i: int|
                    {
                        &&& 0 <= i < raws@.len()
                        &&& forall|j: int| 0 <= j < i ==> decoded_block(#[trigger] raws@[j]) is Some
                        &&& decoded_block(#[trigger] raws@[i]) is None
                        &&& e == Error::InvalidChannel(raws@[i].channel)
                    },
            },
    {
        let ghost all = raws@;
        let mut blocks: Vec<Block> = Vec::new();
        for raw in it: raws.into_iter()
            invariant
                it.seq() == all,
                blocks@.len() == it.index(),
                forall|j: int|
                    0 <= j < blocks@.len() ==> decoded_block(#[trigger] all[j]) == Some(blocks@[j]@),
        {
            let ghost at = blocks@.len() as int;
            assert(raw == all[at]);
            match Block::from_raw(raw) {
                Ok(block) => {
                    blocks.push(block);
                },
                Err(e) => {
                    return Err(e);
                },
            }
        }
        let record = Record {
            synchronized: flags & 0x01 == 0x01,
            sync_lastsec: flags & 0x02 == 0x02,
            housekeeping: flags & 0x04 == 0x04,
            facet,
            blocks,
        };
        assert forall|i: int| 0 <= i < all.len() implies decoded_block(#[trigger] all[i]) == Some(
            record@.blocks[i],
        ) by {
            assert(record@.blocks[i] == record.blocks@[i]@);
        }
        Ok(record)
    }

    /// Says whether this record holds a block on the high channel.
    pub fn has_high(&self) -> (found: bool)
        ensures
            found == (on_channel(self@.blocks, Channel::High).len() > 0),
    {
        let mut i: usize = 0;
        while i < self.blocks.len()
            invariant
                i <= self.blocks.len(),
                self@.blocks.len() == self.blocks.len(),
                positions(self@.blocks, Channel::High, i as int).len() == 0,
            decreases self.blocks.len() - i,
        {
            assert(self@.blocks[i as int].channel == self.blocks[i as int].channel);
            if self.blocks[i].channel == Channel::High {
                proof {
                    lemma_positions_grow(
                        self@.blocks,
                        Channel::High,
                        i + 1,
                        self@.blocks.len() as int,
                    );
                }
                return true;
            }
            i += 1;
        }
        false
    }
}

/// The channels part the blocks: every block is on exactly one of the four, so the numbers of
/// the blocks on each add up to the number of blocks.
pub proof fn lemma_channels_part_blocks(blocks: Seq<BlockView>)
    ensures
        on_channel(blocks, Channel::High).len() + on_channel(blocks, Channel::Low).len()
            + on_channel(blocks, Channel::Saturation).len() + on_channel(
            blocks,
            Channel::Reference,
        ).len() == blocks.len(),
{
    lemma_channels_part_first(blocks, blocks.len() as int);
}

/// Among the first `n` blocks, the numbers of the blocks on each channel add up to `n`.
pub proof fn lemma_channels_part_first(blocks: Seq<BlockView>, n: int)
    requires
        0 <= n <= blocks.len(),
    ensures
        positions(blocks, Channel::High, n).len() + positions(blocks, Channel::Low, n).len()
            + positions(blocks, Channel::Saturation, n).len() + positions(
            blocks,
            Channel::Reference,
            n,
        ).len() == n,
    decreases n,
{
    if n > 0 {
        lemma_channels_part_first(blocks, n - 1);
    }
}

/// Looking at more blocks never loses a position.
pub proof fn lemma_positions_grow(blocks: Seq<BlockView>, channel: Channel, n: int, m: int)
    requires
        n <= m,
    ensures
        positions(blocks, channel, n).len() <= positions(blocks, channel, m).len(),
    decreases m - n,
{
    if n < m {
        lemma_positions_grow(blocks, channel, n, m - 1);
    }
}

/// A container for information about a file.
#[derive(Debug)]
pub struct FileInfo {
    /// The instrument name, e.g. "Q680I".
    pub instrument: String,
    /// The instrument serial number.
    pub serial: String,
    /// The type of external time, or "UNKNOWN".
    pub epoch: String,
    /// True if this file's time was synchronized with GPS time.
    pub gps_synchronized: bool,
    /// The number of mirror facets in the intrument.
    pub num_facets: u16,
}

impl FileInfo {
    /// Puts the information about a file together from what the digitizer session hands out.
    /// Bit 0 of the flags says that the file's time was synchronized with GPS time.
    pub fn from_raw(
        instrument: String,
        serial: String,
        epoch: String,
        flags: u16,
        num_facets: u16,
    ) -> (info: FileInfo)
        ensures
            info.instrument == instrument,
            info.serial == serial,
            info.epoch == epoch,
            info.gps_synchronized == flag_set(flags, 1),
            info.num_facets == num_facets,
    {
        FileInfo { instrument, serial, epoch, gps_synchronized: flags & 0x01 == 0x01, num_facets }
    }
}

} // verus!
