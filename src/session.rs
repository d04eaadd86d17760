use vstd::prelude::*;

use crate::cfg_gnss::{block_views, BlockView, CfgGnssView, UbxCfgGnss, UbxCfgGnssBlock};
use crate::cfg_msg::{CfgMsgView, UbxCfgMsg};
use crate::cfg_prt::{CfgPrtView, UbxCfgPrt, UbxCfgPrtUsbInMask, UbxCfgPrtUsbOutMask};
use crate::cfg_rate::{UbxCfgRate, UbxCfgRateTimeRef};
use crate::gnss_id::GnssId;
use crate::gps_status::{spec_consume, GpsStatus, NUM_SV_IDS};
use crate::msg::{MsgView, UbloxMsg, CLASS_RXM, ID_RXM_RAWX, ID_RXM_SFRBX};
use crate::rxm_sfrbx::{SfrbxDataView, UbxRxmSfrbxData};

verus! {

/// Seconds in a GPS week.
pub const SECONDS_PER_WEEK: u32 = 604800;

/// The configuration sent when a session starts: UBX only on USB, one measurement a
/// second aligned to GPS time, subframes and raw measurements every epoch, then a poll
/// of the constellation settings.
pub open spec fn spec_startup_messages() -> Seq<MsgView> {
    seq![
        MsgView::CfgPrt(CfgPrtView::SetUsb { in_mask: 1, out_mask: 1 }),
        MsgView::CfgRate(
            UbxCfgRate { meas_rate_ms: 1000, nav_rate_cycles: 1, time_ref: UbxCfgRateTimeRef::Gps },
        ),
        MsgView::CfgMsg(CfgMsgView::SetRate { class: CLASS_RXM, id: ID_RXM_SFRBX, rate: 1 }),
        MsgView::CfgMsg(CfgMsgView::SetRate { class: CLASS_RXM, id: ID_RXM_RAWX, rate: 1 }),
        MsgView::CfgGnss(CfgGnssView::Poll),
    ]
}

pub fn startup_messages() -> (r: Vec<UbloxMsg>)
    ensures
        r@.map_values(|m: UbloxMsg| m@) == spec_startup_messages(),
{
    let r = vec![
        UbloxMsg::CfgPrt(
            UbxCfgPrt::SetUsb { in_mask: UbxCfgPrtUsbInMask::ubx(), out_mask: UbxCfgPrtUsbOutMask::ubx() },
        ),
        UbloxMsg::CfgRate(
            UbxCfgRate { meas_rate_ms: 1000, nav_rate_cycles: 1, time_ref: UbxCfgRateTimeRef::Gps },
        ),
        UbloxMsg::CfgMsg(UbxCfgMsg::SetRate { class: CLASS_RXM, id: ID_RXM_SFRBX, rate: 1 }),
        UbloxMsg::CfgMsg(UbxCfgMsg::SetRate { class: CLASS_RXM, id: ID_RXM_RAWX, rate: 1 }),
        UbloxMsg::CfgGnss(UbxCfgGnss::Poll),
    ];
    assert(r@.map_values(|m: UbloxMsg| m@) =~= spec_startup_messages());
    r
}

/// A block as the session sends it back: other constellations disabled, GPS with all
/// of its channels reserved.
pub open spec fn rewritten_block(b: BlockView) -> BlockView {
    if b.gnss_id != GnssId::Gps {
        BlockView { enabled: false, ..b }
    } else {
        BlockView { res_trk_ch: b.max_trk_ch, ..b }
    }
}

/// Disables every constellation but GPS and reserves all of GPS's channels.
pub fn rewrite_blocks(blocks: Vec<UbxCfgGnssBlock>) -> (r: Vec<UbxCfgGnssBlock>)
    ensures
        block_views(r@) == block_views(blocks@).map_values(|b: BlockView| rewritten_block(b)),
{
    let mut r: Vec<UbxCfgGnssBlock> = Vec::with_capacity(blocks.len());
    let mut i: usize = 0;
    while i < blocks.len()
        invariant
            0 <= i <= blocks@.len(),
            block_views(r@) =~= block_views(blocks@.take(i as int)).map_values(
                |b: BlockView| rewritten_block(b),
            ),
        decreases blocks@.len() - i,
    {
        let mut block = blocks[i];
        if block.gnss_id != GnssId::Gps {
            block.enabled = false;
        } else {
            block.res_trk_ch = block.max_trk_ch;
        }
        let ghost prev = r@;
        r.push(block);
        assert(block@ == rewritten_block(blocks@[i as int]@));
        assert(block_views(r@) =~= block_views(prev).push(block@));
        assert(block_views(blocks@.take(i + 1)) =~= block_views(blocks@.take(i as int)).push(
            blocks@[i as int]@,
        ));
        i += 1;
    }
    assert(blocks@.take(blocks@.len() as int) =~= blocks@);
    r
}

/// What the session does after a message.
#[derive(Debug, PartialEq, Eq)]
pub enum Action {
    /// Send this message to the receiver.
    Send(UbloxMsg),
    /// The receiver's clock reads `week` weeks and `rcv_tow` seconds (`f64` bits) of GPS
    /// time: latch the offset of GPS time from the local clock.
    SetTimeCorrection { week: u16, rcv_tow_bits: u64 },
    /// Nothing to do.
    Nothing,
}

pub enum ActionView {
    Send(MsgView),
    SetTimeCorrection { week: u16, rcv_tow_bits: u64 },
    Nothing,
}

impl View for Action {
    type V = ActionView;

    open spec fn view(&self) -> ActionView {
        match self {
            Action::Send(m) => ActionView::Send(m@),
            Action::SetTimeCorrection { week, rcv_tow_bits } => ActionView::SetTimeCorrection {
                week: *week,
                rcv_tow_bits: *rcv_tow_bits,
            },
            Action::Nothing => ActionView::Nothing,
        }
    }
}

/// The store after a message: a GPS subframe goes to its satellite's status.
pub open spec fn spec_store_after(store: Seq<crate::gps_status::SatelliteStatus>, m: MsgView) -> Seq<
    crate::gps_status::SatelliteStatus,
> {
    match m {
        MsgView::RxmSfrbx(v) => match v.data {
            SfrbxDataView::Gps(d) => store.update(
                v.sv_id as int,
                spec_consume(store[v.sv_id as int], d.subframe),
            ),
            _ => store,
        },
        _ => store,
    }
}

/// The action after a message: constellation settings are sent back rewritten; raw
/// measurements give the receiver's GPS time; everything else asks for nothing.
pub open spec fn spec_action(m: MsgView) -> ActionView {
    match m {
        MsgView::CfgGnss(CfgGnssView::Settings { version, num_trk_ch_hw, num_trk_ch_use, blocks }) =>
            ActionView::Send(
            MsgView::CfgGnss(
                CfgGnssView::Settings {
                    version,
                    num_trk_ch_hw,
                    num_trk_ch_use,
                    blocks: blocks.map_values(|b: BlockView| rewritten_block(b)),
                },
            ),
        ),
        MsgView::RxmRawx(v) => ActionView::SetTimeCorrection {
            week: v.week,
            rcv_tow_bits: v.rcv_tow_bits,
        },
        _ => ActionView::Nothing,
    }
}

/// Handles one message from the receiver.
pub fn handle_message(store: &mut GpsStatus, msg: UbloxMsg) -> (r: Action)
    requires
        old(store)@.len() == NUM_SV_IDS,
    ensures
        final(store)@.len() == NUM_SV_IDS,
        final(store)@ == spec_store_after(old(store)@, msg@),
        r@ == spec_action(msg@),
{
    match msg {
        UbloxMsg::CfgGnss(UbxCfgGnss::Settings { version, num_trk_ch_hw, num_trk_ch_use, config_blocks }) => {
            let config_blocks = rewrite_blocks(config_blocks);
            Action::Send(
                UbloxMsg::CfgGnss(
                    UbxCfgGnss::Settings { version, num_trk_ch_hw, num_trk_ch_use, config_blocks },
                ),
            )
        },
        UbloxMsg::RxmRawx(m) => Action::SetTimeCorrection { week: m.week, rcv_tow_bits: m.rcv_tow_bits },
        UbloxMsg::RxmSfrbx(m) => {
            if let UbxRxmSfrbxData::Gps(d) = m.data {
                store.consume_subframe(m.sv_id, d.subframe);
            }
            Action::Nothing
        },
        _ => Action::Nothing,
    }
}

} // verus!
