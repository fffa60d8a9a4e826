//! The plugin as a host sees it, and how it walks a buffer.

use vstd::prelude::*;

use crate::params::TransientState;

verus! {

pub const NAME: &'static str = "EQUZX";

pub const VENDOR: &'static str = "Futureboard Digital Technologies";

pub const URL: &'static str = "https://futureboard.digital";

pub const EMAIL: &'static str = "hello@futureboard.digital";

pub const CLAP_ID: &'static str = "digital.futureboard.equzx";

/// Sixteen bytes, fixed forever: changing it orphans every session that already
/// loaded the plugin. They spell "EQUZXFutureboard".
pub const VST3_CLASS_ID: [u8; 16] = [
    0x45, 0x51, 0x55, 0x5a, 0x58, 0x46, 0x75, 0x74, 0x75, 0x72, 0x65, 0x62, 0x6f, 0x61, 0x72, 0x64,
];

/// A run of samples that is processed with one set of settings.
#[derive(Clone, Copy, Debug, PartialEq, Eq, Structural)]
pub struct Block {
    pub offset: usize,
    pub len: usize,
}

/// The blocks of the first `samples` samples, of at most `most` each.
pub open spec fn blocks_of(samples: int, most: int, offset: int) -> Seq<Block>
    decreases samples - offset,
{
    if offset >= samples || most <= 0 || offset < 0 {
        Seq::empty()
    } else {
        let len = if samples - offset < most {
            samples - offset
        } else {
            most
        };
        seq![(Block { offset: offset as usize, len: len as usize })] + blocks_of(
            samples,
            most,
            offset + len,
        )
    }
}

/// Cut a buffer into control blocks.
pub fn control_blocks(samples: usize, most: usize) -> (r: Vec<Block>)
    requires
        most > 0,
    ensures
        r@ == blocks_of(samples as int, most as int, 0),
{
    let mut blocks: Vec<Block> = Vec::new();
    let mut offset: usize = 0;
    assert(blocks@ + blocks_of(samples as int, most as int, 0) =~= blocks_of(
        samples as int,
        most as int,
        0,
    ));
    while offset < samples
        invariant
            most > 0,
            offset <= samples,
            blocks@ + blocks_of(samples as int, most as int, offset as int) == blocks_of(
                samples as int,
                most as int,
                0,
            ),
        decreases samples - offset,
    {
        let left: usize = samples - offset;
        let len: usize = if left < most {
            left
        } else {
            most
        };
        let ghost before = blocks@;
        blocks.push(Block { offset, len });
        proof {
            let rest = blocks_of(samples as int, most as int, offset + len);
            assert(blocks@ + rest =~= before + (seq![(Block { offset, len })] + rest));
        }
        offset = offset + len;
    }
    assert(blocks@ =~= blocks@ + Seq::<Block>::empty());
    blocks
}

/// The blocks cover the buffer from end to end: each begins where the one before
/// ends, none is empty or too long, and only the last may be short.
pub proof fn the_blocks_cover_the_buffer(samples: int, most: int, offset: int)
    requires
        0 <= offset < samples <= usize::MAX,
        0 < most <= usize::MAX,
    ensures
        ({
            let blocks = blocks_of(samples, most, offset);
            &&& blocks.len() > 0
            &&& blocks[0].offset == offset
            &&& blocks.last().offset + blocks.last().len == samples
            &&& forall|k: int|
                0 <= k < blocks.len() ==> 0 < (#[trigger] blocks[k]).len <= most
            &&& forall|k: int|
                0 <= k < blocks.len() - 1 ==> (#[trigger] blocks[k]).len == most
                    && blocks[k].offset + most == blocks[k + 1].offset
        }),
    decreases samples - offset,
{
    let len = if samples - offset < most {
        samples - offset
    } else {
        most
    };
    let rest = blocks_of(samples, most, offset + len);
    let blocks = blocks_of(samples, most, offset);
    if offset + len < samples {
        the_blocks_cover_the_buffer(samples, most, offset + len);
        assert(blocks.last() == rest.last());
        assert forall|k: int| 0 <= k < blocks.len() implies 0 < (#[trigger] blocks[k]).len <= most by {
            if k > 0 {
                assert(blocks[k] == rest[k - 1]);
            }
        }
        assert forall|k: int| 0 <= k < blocks.len() - 1 implies (#[trigger] blocks[k]).len == most
            && blocks[k].offset + most == blocks[k + 1].offset by {
            assert(blocks[k + 1] == rest[k]);
            if k > 0 {
                assert(blocks[k] == rest[k - 1]);
            }
        }
    } else {
        assert(rest =~= Seq::empty());
    }
}

impl TransientState {
    /// Was a flush asked for? Asking is answered once: a whole-state recall moves
    /// every band at once, and flushing avoids a chorus of filters ringing out on
    /// settings that no longer exist.
    pub fn take_flush(&mut self) -> (r: bool)
        ensures
            r == old(self).flush,
            *final(self) == (TransientState { flush: false, held: old(self).held }),
    {
        let asked: bool = self.flush;
        self.flush = false;
        asked
    }
}

} // verus!
