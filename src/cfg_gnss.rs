use vstd::prelude::*;
use vstd::slice::slice_subrange;

use crate::error::UbxError;
use crate::gnss_id::{decode_gnss_id, gnss_code, GnssId};
use crate::raw_msg::{hi_byte, le16, lo_byte};

verus! {

/// The bits that the signal flags of a GPS block may set: L1C/A 0x01, L2C 0x10, L5 0x20.
pub const GPS_FLAGS_ALL: u16 = 0x31;

/// The signals that a GPS configuration block enables.
#[derive(Debug, Clone, Copy, PartialEq, Eq, Structural)]
pub struct UbxCfgGnssBlockFlagsGps {
    bits: u16,
}

impl View for UbxCfgGnssBlockFlagsGps {
    type V = u16;

    closed spec fn view(&self) -> u16 {
        self.bits
    }
}

impl UbxCfgGnssBlockFlagsGps {
    #[verifier::type_invariant]
    spec fn inv(&self) -> bool {
        self.bits & !GPS_FLAGS_ALL == 0
    }

    /// The flags that `bits` hold, if every set bit names a signal.
    pub fn from_bits(bits: u16) -> (r: Option<Self>)
        ensures
            r is Some <==> bits & !GPS_FLAGS_ALL == 0,
            r matches Some(f) ==> f@ == bits,
    {
        if bits & !GPS_FLAGS_ALL == 0 {
            Some(UbxCfgGnssBlockFlagsGps { bits })
        } else {
            None
        }
    }

    pub fn bits(&self) -> (r: u16)
        ensures
            r == self@,
            r & !GPS_FLAGS_ALL == 0,
    {
        proof {
            use_type_invariant(self);
        }
        self.bits
    }
}

/// The signal flags of a configuration block: a bit set for GPS; for the other
/// constellations they are not interpreted.
#[derive(Debug, Clone, Copy, PartialEq, Eq, Structural)]
pub enum UbxCfgGnssBlockFlags {
    Gps(UbxCfgGnssBlockFlagsGps),
    Other,
}

impl View for UbxCfgGnssBlockFlags {
    type V = Option<u16>;

    open spec fn view(&self) -> Option<u16> {
        match *self {
            UbxCfgGnssBlockFlags::Gps(f) => Some(f@),
            UbxCfgGnssBlockFlags::Other => None,
        }
    }
}

impl UbxCfgGnssBlockFlags {
    pub fn gps_try_from(val: u16) -> (r: Result<UbxCfgGnssBlockFlags, UbxError>)
        ensures
            r is Ok <==> val & !GPS_FLAGS_ALL == 0,
            r matches Ok(f) ==> f@ == Some(val),
            r matches Err(e) ==> e == UbxError::Payload,
    {
        match UbxCfgGnssBlockFlagsGps::from_bits(val) {
            Some(f) => Ok(UbxCfgGnssBlockFlags::Gps(f)),
            None => Err(UbxError::Payload),
        }
    }

    pub fn other_try_from(_val: u16) -> (r: Result<UbxCfgGnssBlockFlags, UbxError>)
        ensures
            r == Ok::<UbxCfgGnssBlockFlags, UbxError>(UbxCfgGnssBlockFlags::Other),
    {
        Ok(UbxCfgGnssBlockFlags::Other)
    }

    /// The 16-bit field on the wire: the bits for GPS, zero otherwise.
    pub fn bits(&self) -> (r: u16)
        ensures
            r == flags_field(self@),
    {
        match self {
            UbxCfgGnssBlockFlags::Gps(f) => f.bits(),
            UbxCfgGnssBlockFlags::Other => 0,
        }
    }
}

pub open spec fn flags_field(f: Option<u16>) -> u16 {
    match f {
        Some(b) => b,
        None => 0,
    }
}

/// The settings of one constellation: whether it is enabled, the tracking channels
/// reserved for it and the most it may use, and its signal flags.
#[derive(Debug, Clone, Copy, PartialEq, Eq, Structural)]
pub struct UbxCfgGnssBlock {
    pub gnss_id: GnssId,
    pub res_trk_ch: u8,
    pub max_trk_ch: u8,
    pub enabled: bool,
    pub flags: UbxCfgGnssBlockFlags,
}

/// What a configuration block says, with the flags as `Some(bits)` for GPS and `None`
/// for the other constellations.
pub struct BlockView {
    pub gnss_id: GnssId,
    pub res_trk_ch: u8,
    pub max_trk_ch: u8,
    pub enabled: bool,
    pub flags: Option<u16>,
}

impl View for UbxCfgGnssBlock {
    type V = BlockView;

    open spec fn view(&self) -> BlockView {
        BlockView {
            gnss_id: self.gnss_id,
            res_trk_ch: self.res_trk_ch,
            max_trk_ch: self.max_trk_ch,
            enabled: self.enabled,
            flags: self.flags@,
        }
    }
}

impl BlockView {
    /// The eight bytes of a block: id, reserved and maximum channels, a reserved byte,
    /// the enabled byte, a reserved byte, the flags (little-endian).
    pub open spec fn spec_bytes(self) -> Seq<u8> {
        seq![
            gnss_code(self.gnss_id),
            self.res_trk_ch,
            self.max_trk_ch,
            0u8,
            if self.enabled { 1u8 } else { 0u8 },
            0u8,
            lo_byte(flags_field(self.flags) as nat),
            hi_byte(flags_field(self.flags) as nat),
        ]
    }

    /// Flags are present exactly for GPS, and hold only bits that name signals.
    pub open spec fn valid(self) -> bool {
        match self.flags {
            Some(b) => self.gnss_id == GnssId::Gps && b & !GPS_FLAGS_ALL == 0,
            None => self.gnss_id != GnssId::Gps,
        }
    }
}

/// Reads an eight-byte configuration block.
pub open spec fn decode_block(b: Seq<u8>) -> Result<BlockView, UbxError> {
    if b.len() != 8 || b[4] > 1 {
        Err(UbxError::Payload)
    } else {
        match decode_gnss_id(b[0]) {
            Err(e) => Err(e),
            Ok(g) => {
                let f = le16(b[6], b[7]) as u16;
                if g == GnssId::Gps && f & !GPS_FLAGS_ALL != 0 {
                    Err(UbxError::Payload)
                } else {
                    Ok(
                        BlockView {
                            gnss_id: g,
                            res_trk_ch: b[1],
                            max_trk_ch: b[2],
                            enabled: b[4] == 1,
                            flags: if g == GnssId::Gps {
                                Some(f)
                            } else {
                                None
                            },
                        },
                    )
                }
            },
        }
    }
}

impl UbxCfgGnssBlock {
    pub fn to_bytes(&self) -> (r: Vec<u8>)
        ensures
            r@ == self@.spec_bytes(),
    {
        let f = self.flags.bits();
        let r = vec![
            self.gnss_id.to_u8(),
            self.res_trk_ch,
            self.max_trk_ch,
            0,
            if self.enabled {
                1
            } else {
                0
            },
            0,
            (f % 256) as u8,
            (f / 256) as u8,
        ];
        assert(r@ =~= self@.spec_bytes());
        r
    }

    pub fn try_from(bytes: &[u8]) -> (r: Result<UbxCfgGnssBlock, UbxError>)
        ensures
            match (r, decode_block(bytes@)) {
                (Ok(m), Ok(v)) => m@ == v,
                (Err(e), Err(f)) => e == f,
                _ => false,
            },
    {
        if bytes.len() != 8 {
            return Err(UbxError::Payload);
        }
        let enabled = match bytes[4] {
            0 => false,
            1 => true,
            _ => {
                return Err(UbxError::Payload);
            },
        };
        let gnss_id = GnssId::try_from(bytes[0])?;
        let res_trk_ch = bytes[1];
        let max_trk_ch = bytes[2];
        let flags = bytes[6] as u16 + 256 * (bytes[7] as u16);
        let flags = match gnss_id {
            GnssId::Gps => UbxCfgGnssBlockFlags::gps_try_from(flags)?,
            _ => UbxCfgGnssBlockFlags::other_try_from(flags)?,
        };
        Ok(UbxCfgGnssBlock { gnss_id, res_trk_ch, max_trk_ch, enabled, flags })
    }
}

/// CFG-GNSS: poll the constellation settings, or the settings themselves.
#[derive(Debug, Clone, PartialEq, Eq)]
pub enum UbxCfgGnss {
    Poll,
    Settings {
        version: u8,
        num_trk_ch_hw: u8,
        num_trk_ch_use: u8,
        config_blocks: Vec<UbxCfgGnssBlock>,
    },
}

/// What a CFG-GNSS message says.
pub enum CfgGnssView {
    Poll,
    Settings { version: u8, num_trk_ch_hw: u8, num_trk_ch_use: u8, blocks: Seq<BlockView> },
}

pub open spec fn block_views(blocks: Seq<UbxCfgGnssBlock>) -> Seq<BlockView> {
    blocks.map_values(|b: UbxCfgGnssBlock| b@)
}

impl View for UbxCfgGnss {
    type V = CfgGnssView;

    open spec fn view(&self) -> CfgGnssView {
        match self {
            UbxCfgGnss::Poll => CfgGnssView::Poll,
            UbxCfgGnss::Settings { version, num_trk_ch_hw, num_trk_ch_use, config_blocks } =>
                CfgGnssView::Settings {
                version: *version,
                num_trk_ch_hw: *num_trk_ch_hw,
                num_trk_ch_use: *num_trk_ch_use,
                blocks: block_views(config_blocks@),
            },
        }
    }
}

/// The bytes of a sequence of blocks, one after the other.
pub open spec fn blocks_bytes(blocks: Seq<BlockView>) -> Seq<u8>
    decreases blocks.len(),
{
    if blocks.len() == 0 {
        Seq::empty()
    } else {
        blocks_bytes(blocks.drop_last()) + blocks.last().spec_bytes()
    }
}

impl CfgGnssView {
    /// The payload: empty for a poll; otherwise a four-byte header ending in the block
    /// count, followed by the blocks.
    pub open spec fn spec_bytes(self) -> Seq<u8> {
        match self {
            CfgGnssView::Poll => Seq::empty(),
            CfgGnssView::Settings { version, num_trk_ch_hw, num_trk_ch_use, blocks } => seq![
                version,
                num_trk_ch_hw,
                num_trk_ch_use,
                blocks.len() as u8,
            ] + blocks_bytes(blocks),
        }
    }

    /// At most 255 blocks, each of them valid.
    pub open spec fn valid(self) -> bool {
        match self {
            CfgGnssView::Poll => true,
            CfgGnssView::Settings { blocks, .. } => blocks.len() <= 255 && forall|i: int|
                0 <= i < blocks.len() ==> (#[trigger] blocks[i]).valid(),
        }
    }
}

/// The `i`-th block of a CFG-GNSS payload.
pub open spec fn block_slice(bytes: Seq<u8>, i: int) -> Seq<u8> {
    bytes.subrange(4 + 8 * i, 12 + 8 * i)
}

pub open spec fn block_ok(bytes: Seq<u8>, i: int) -> BlockView {
    match decode_block(block_slice(bytes, i)) {
        Ok(b) => b,
        Err(_) => arbitrary(),
    }
}

/// Reads a CFG-GNSS payload: empty is a poll; otherwise the length must be four plus
/// eight for each block that the header counts, and every block must read.
pub open spec fn decode_cfg_gnss(bytes: Seq<u8>) -> Result<CfgGnssView, UbxError> {
    if bytes.len() == 0 {
        Ok(CfgGnssView::Poll)
    } else if bytes.len() < 4 || bytes.len() != 4 + 8 * bytes[3] {
        Err(UbxError::Payload)
    } else if exists|i: int| 0 <= i < bytes[3] && #[trigger] decode_block(block_slice(bytes, i)) is Err {
        Err(UbxError::Payload)
    } else {
        Ok(
            CfgGnssView::Settings {
                version: bytes[0],
                num_trk_ch_hw: bytes[1],
                num_trk_ch_use: bytes[2],
                blocks: Seq::new(bytes[3] as nat, |i: int| block_ok(bytes, i)),
            },
        )
    }
}

/// The blocks lie one after the other, eight bytes each.
pub proof fn lemma_blocks_bytes(blocks: Seq<BlockView>)
    ensures
        blocks_bytes(blocks).len() == 8 * blocks.len(),
        forall|i: int|
            0 <= i < blocks.len() ==> blocks_bytes(blocks).subrange(8 * i, 8 * i + 8)
                == #[trigger] blocks[i].spec_bytes(),
    decreases blocks.len(),
{
    if blocks.len() > 0 {
        let init = blocks.drop_last();
        lemma_blocks_bytes(init);
        let all = blocks_bytes(blocks);
        assert forall|i: int| 0 <= i < blocks.len() implies all.subrange(8 * i, 8 * i + 8)
            == #[trigger] blocks[i].spec_bytes() by {
            if i < blocks.len() - 1 {
                assert(init[i] == blocks[i]);
                assert(all.subrange(8 * i, 8 * i + 8) =~= blocks_bytes(init).subrange(
                    8 * i,
                    8 * i + 8,
                ));
            } else {
                assert(all.subrange(8 * i, 8 * i + 8) =~= blocks.last().spec_bytes());
            }
        }
    }
}

impl UbxCfgGnss {
    pub fn to_bytes(&self) -> (r: Vec<u8>)
        requires
            self@ matches CfgGnssView::Settings { blocks, .. } ==> blocks.len() <= 255,
        ensures
            r@ == self@.spec_bytes(),
    {
        match self {
            UbxCfgGnss::Poll => Vec::new(),
            UbxCfgGnss::Settings { version, num_trk_ch_hw, num_trk_ch_use, config_blocks } => {
                let n = config_blocks.len();
                let mut result = vec![*version, *num_trk_ch_hw, *num_trk_ch_use, n as u8];
                let ghost views = block_views(config_blocks@);
                let mut i: usize = 0;
                while i < n
                    invariant
                        n == config_blocks@.len(),
                        n <= 255,
                        views == block_views(config_blocks@),
                        0 <= i <= n,
                        result@ == seq![*version, *num_trk_ch_hw, *num_trk_ch_use, n as u8]
                            + blocks_bytes(views.take(i as int)),
                    decreases n - i,
                {
                    let b = config_blocks[i].to_bytes();
                    let ghost prev = result@;
                    let mut j: usize = 0;
                    while j < 8
                        invariant
                            b@.len() == 8,
                            0 <= j <= 8,
                            result@ == prev + b@.take(j as int),
                        decreases 8 - j,
                    {
                        result.push(b[j]);
                        j += 1;
                        assert(result@ =~= prev + b@.take(j as int));
                    }
                    assert(views.take(i + 1).drop_last() =~= views.take(i as int));
                    assert(b@.take(8) =~= b@);
                    assert(result@ =~= seq![*version, *num_trk_ch_hw, *num_trk_ch_use, n as u8]
                        + blocks_bytes(views.take(i + 1)));
                    i += 1;
                }
                assert(views.take(n as int) =~= views);
                result
            },
        }
    }

    pub fn try_from(bytes: &[u8]) -> (r: Result<UbxCfgGnss, UbxError>)
        ensures
            match (r, decode_cfg_gnss(bytes@)) {
                (Ok(m), Ok(v)) => m@ == v,
                (Err(e), Err(f)) => e == f,
                _ => false,
            },
    {
        let len = bytes.len();
        if len == 0 {
            return Ok(UbxCfgGnss::Poll);
        }
        if len < 4 || len != 4 + 8 * (bytes[3] as usize) {
            return Err(UbxError::Payload);
        }
        let num_blocks = bytes[3] as usize;
        let mut config_blocks: Vec<UbxCfgGnssBlock> = Vec::new();
        let mut i: usize = 0;
        while i < num_blocks
            invariant
                num_blocks == bytes@[3],
                len == bytes@.len(),
                len == 4 + 8 * num_blocks,
                0 <= i <= num_blocks,
                forall|k: int| 0 <= k < i ==> decode_block(#[trigger] block_slice(bytes@, k)) is Ok,
                block_views(config_blocks@) =~= Seq::new(i as nat, |k: int| block_ok(bytes@, k)),
            decreases num_blocks - i,
        {
            let slice = slice_subrange(bytes, 4 + 8 * i, 12 + 8 * i);
            assert(slice@ == block_slice(bytes@, i as int));
            match UbxCfgGnssBlock::try_from(slice) {
                Ok(block) => {
                    let ghost prev = config_blocks@;
                    config_blocks.push(block);
                    assert(block_views(config_blocks@) =~= block_views(prev).push(block@));
                    assert(block_ok(bytes@, i as int) == block@);
                },
                Err(e) => {
                    return Err(UbxError::Payload);
                },
            }
            i += 1;
        }
        Ok(
            UbxCfgGnss::Settings {
                version: bytes[0],
                num_trk_ch_hw: bytes[1],
                num_trk_ch_use: bytes[2],
                config_blocks,
            },
        )
    }
}

/// Every valid block reads back as itself.
pub proof fn lemma_block_round_trip(b: BlockView)
    requires
        b.valid(),
    ensures
        decode_block(b.spec_bytes()) == Ok::<BlockView, UbxError>(b),
{
    let s = b.spec_bytes();
    assert(le16(s[6], s[7]) == flags_field(b.flags));
}

/// A valid CFG-GNSS message reads back as itself.
pub proof fn lemma_cfg_gnss_round_trip(m: CfgGnssView)
    requires
        m.valid(),
    ensures
        decode_cfg_gnss(m.spec_bytes()) == Ok::<CfgGnssView, UbxError>(m),
{
    if let CfgGnssView::Settings { version, num_trk_ch_hw, num_trk_ch_use, blocks } = m {
        let s = m.spec_bytes();
        let body = blocks_bytes(blocks);
        lemma_blocks_bytes(blocks);
        assert forall|i: int| 0 <= i < blocks.len() implies block_slice(s, i) == (
        #[trigger] blocks[i]).spec_bytes() by {
            assert(block_slice(s, i) =~= body.subrange(8 * i, 8 * i + 8));
        }
        assert forall|i: int| 0 <= i < blocks.len() implies decode_block(
            #[trigger] block_slice(s, i),
        ) == Ok::<BlockView, UbxError>(blocks[i]) by {
            lemma_block_round_trip(blocks[i]);
        }
        assert(s[3] == blocks.len());
        assert(Seq::new(s[3] as nat, |i: int| block_ok(s, i)) =~= blocks);
    }
}

} // verus!
