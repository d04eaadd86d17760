use vstd::prelude::*;

use crate::cfg_gnss::{decode_cfg_gnss, CfgGnssView, UbxCfgGnss};
use crate::cfg_msg::{decode_cfg_msg, CfgMsgView, UbxCfgMsg};
use crate::cfg_prt::{decode_cfg_prt, CfgPrtView, UbxCfgPrt, USB_PORT_ID};
use crate::cfg_rate::{decode_cfg_rate, UbxCfgRate};
use crate::error::UbxError;
use crate::gnss_id::GnssId;
use crate::raw_msg::{decode_raw, frame_bytes, lemma_raw_round_trip, RawMsgView, UbloxRawMsg, MAX_PAYLOAD};
use crate::rxm_rawx::{decode_rawx, RawxView, UbxRxmRawx};
use crate::rxm_sfrbx::{decode_sfrbx, SfrbxView, UbxRxmSfrbx};

verus! {

pub const CLASS_RXM: u8 = 0x02;
pub const CLASS_CFG: u8 = 0x06;
pub const ID_RXM_SFRBX: u8 = 0x13;
pub const ID_RXM_RAWX: u8 = 0x15;
pub const ID_CFG_PRT: u8 = 0x00;
pub const ID_CFG_MSG: u8 = 0x01;
pub const ID_CFG_RATE: u8 = 0x08;
pub const ID_CFG_GNSS: u8 = 0x3e;

/// A UBX message: one of the kinds this library understands, or any other frame kept
/// as it came.
#[derive(Debug, Clone, PartialEq, Eq)]
pub enum UbloxMsg {
    CfgMsg(UbxCfgMsg),
    CfgPrt(UbxCfgPrt),
    CfgRate(UbxCfgRate),
    CfgGnss(UbxCfgGnss),
    RxmSfrbx(UbxRxmSfrbx),
    RxmRawx(UbxRxmRawx),
    Other(UbloxRawMsg),
}

pub enum MsgView {
    CfgMsg(CfgMsgView),
    CfgPrt(CfgPrtView),
    CfgRate(UbxCfgRate),
    CfgGnss(CfgGnssView),
    RxmSfrbx(SfrbxView),
    RxmRawx(RawxView),
    Other(RawMsgView),
}

impl View for UbloxMsg {
    type V = MsgView;

    open spec fn view(&self) -> MsgView {
        match self {
            UbloxMsg::CfgMsg(m) => MsgView::CfgMsg(m@),
            UbloxMsg::CfgPrt(m) => MsgView::CfgPrt(m@),
            UbloxMsg::CfgRate(m) => MsgView::CfgRate(*m),
            UbloxMsg::CfgGnss(m) => MsgView::CfgGnss(m@),
            UbloxMsg::RxmSfrbx(m) => MsgView::RxmSfrbx(m@),
            UbloxMsg::RxmRawx(m) => MsgView::RxmRawx(m@),
            UbloxMsg::Other(m) => MsgView::Other(m@),
        }
    }
}

/// Lifts the result of a payload decoder into a message.
pub open spec fn lift<T>(r: Result<T, UbxError>, f: spec_fn(T) -> MsgView) -> Result<MsgView, UbxError> {
    match r {
        Ok(v) => Ok(f(v)),
        Err(e) => Err(e),
    }
}

/// Reads the message that a frame carries. A frame of a kind not in the table, and a
/// port configuration for another port than USB, stays a raw frame.
pub open spec fn decode_msg(raw: RawMsgView) -> Result<MsgView, UbxError> {
    let p = raw.payload;
    if raw.class == CLASS_RXM && raw.id == ID_RXM_SFRBX {
        lift(decode_sfrbx(p), |v: SfrbxView| MsgView::RxmSfrbx(v))
    } else if raw.class == CLASS_RXM && raw.id == ID_RXM_RAWX {
        lift(decode_rawx(p), |v: RawxView| MsgView::RxmRawx(v))
    } else if raw.class == CLASS_CFG && raw.id == ID_CFG_PRT {
        if p.len() == 20 && p[0] != USB_PORT_ID {
            Ok(MsgView::Other(raw))
        } else {
            lift(decode_cfg_prt(p), |v: CfgPrtView| MsgView::CfgPrt(v))
        }
    } else if raw.class == CLASS_CFG && raw.id == ID_CFG_MSG {
        lift(decode_cfg_msg(p), |v: CfgMsgView| MsgView::CfgMsg(v))
    } else if raw.class == CLASS_CFG && raw.id == ID_CFG_RATE {
        lift(decode_cfg_rate(p), |v: UbxCfgRate| MsgView::CfgRate(v))
    } else if raw.class == CLASS_CFG && raw.id == ID_CFG_GNSS {
        lift(decode_cfg_gnss(p), |v: CfgGnssView| MsgView::CfgGnss(v))
    } else {
        Ok(MsgView::Other(raw))
    }
}

/// The frame that carries a message.
pub open spec fn encode_msg(m: MsgView) -> RawMsgView {
    match m {
        MsgView::RxmSfrbx(v) => RawMsgView { class: CLASS_RXM, id: ID_RXM_SFRBX, payload: v.spec_bytes() },
        MsgView::RxmRawx(v) => RawMsgView { class: CLASS_RXM, id: ID_RXM_RAWX, payload: v.spec_bytes() },
        MsgView::CfgPrt(v) => RawMsgView { class: CLASS_CFG, id: ID_CFG_PRT, payload: v.spec_bytes() },
        MsgView::CfgMsg(v) => RawMsgView { class: CLASS_CFG, id: ID_CFG_MSG, payload: v.spec_bytes() },
        MsgView::CfgRate(v) => RawMsgView { class: CLASS_CFG, id: ID_CFG_RATE, payload: v.spec_bytes() },
        MsgView::CfgGnss(v) => RawMsgView { class: CLASS_CFG, id: ID_CFG_GNSS, payload: v.spec_bytes() },
        MsgView::Other(r) => r,
    }
}

/// The counts that the encoding writes in a byte fit there, and SFRBX data is whole
/// words of the kind that its constellation calls for.
pub open spec fn encodable(m: MsgView) -> bool {
    match m {
        MsgView::CfgGnss(CfgGnssView::Settings { blocks, .. }) => blocks.len() <= 255,
        MsgView::RxmRawx(v) => v.measurements.len() <= 255,
        MsgView::RxmSfrbx(v) => {
            &&& v.data.spec_bytes().len() <= 1020
            &&& v.data.spec_bytes().len() % 4 == 0
            &&& (v.gnss_id == GnssId::Gps <==> v.data is Gps)
        },
        MsgView::Other(r) => r.payload.len() <= MAX_PAYLOAD,
        _ => true,
    }
}

impl UbloxMsg {
    /// Reads the message that a frame carries.
    pub fn try_from(raw: UbloxRawMsg) -> (r: Result<UbloxMsg, UbxError>)
        ensures
            match (r, decode_msg(raw@)) {
                (Ok(m), Ok(v)) => m@ == v,
                (Err(e), Err(f)) => e == f,
                _ => false,
            },
    {
        let class = raw.class();
        let id = raw.id();
        if class == CLASS_RXM && id == ID_RXM_SFRBX {
            let payload = raw.take_payload();
            Ok(UbloxMsg::RxmSfrbx(UbxRxmSfrbx::try_from(payload.as_slice())?))
        } else if class == CLASS_RXM && id == ID_RXM_RAWX {
            let payload = raw.take_payload();
            Ok(UbloxMsg::RxmRawx(UbxRxmRawx::try_from(payload.as_slice())?))
        } else if class == CLASS_CFG && id == ID_CFG_PRT {
            let payload = raw.take_payload();
            if payload.len() == 20 && payload[0] != USB_PORT_ID {
                Ok(UbloxMsg::Other(UbloxRawMsg::new(class, id, payload)))
            } else {
                Ok(UbloxMsg::CfgPrt(UbxCfgPrt::try_from(payload.as_slice())?))
            }
        } else if class == CLASS_CFG && id == ID_CFG_MSG {
            let payload = raw.take_payload();
            Ok(UbloxMsg::CfgMsg(UbxCfgMsg::try_from(payload.as_slice())?))
        } else if class == CLASS_CFG && id == ID_CFG_RATE {
            let payload = raw.take_payload();
            Ok(UbloxMsg::CfgRate(UbxCfgRate::try_from(payload.as_slice())?))
        } else if class == CLASS_CFG && id == ID_CFG_GNSS {
            let payload = raw.take_payload();
            Ok(UbloxMsg::CfgGnss(UbxCfgGnss::try_from(payload.as_slice())?))
        } else {
            Ok(UbloxMsg::Other(raw))
        }
    }

    /// Reads one frame from the start of `bytes`, then the message it carries.
    pub fn try_from_bytes(bytes: &[u8]) -> (r: Result<UbloxMsg, UbxError>)
        ensures
            match (r, decode_raw(bytes@)) {
                (Ok(m), Ok(raw)) => decode_msg(raw) == Ok::<MsgView, UbxError>(m@),
                (Err(e), Ok(raw)) => decode_msg(raw) == Err::<MsgView, UbxError>(e),
                (Err(e), Err(f)) => e == f,
                _ => false,
            },
    {
        let raw = UbloxRawMsg::try_from(bytes)?;
        Self::try_from(raw)
    }

    /// The frame that carries the message.
    pub fn to_raw(self) -> (r: UbloxRawMsg)
        requires
            encodable(self@),
        ensures
            r@ == encode_msg(self@),
    {
        match self {
            UbloxMsg::RxmSfrbx(inner) => {
                proof {
                    if let crate::rxm_sfrbx::SfrbxDataView::Gps(d) = inner@.data {
                        crate::lnav::lemma_gps_data_len(d);
                    }
                }
                UbloxRawMsg::new(CLASS_RXM, ID_RXM_SFRBX, inner.to_bytes())
            },
            UbloxMsg::RxmRawx(inner) => {
                proof {
                    crate::rxm_rawx::lemma_rawx_len(inner@);
                }
                UbloxRawMsg::new(CLASS_RXM, ID_RXM_RAWX, inner.to_bytes())
            },
            UbloxMsg::CfgPrt(inner) => UbloxRawMsg::new(CLASS_CFG, ID_CFG_PRT, inner.to_bytes()),
            UbloxMsg::CfgMsg(inner) => UbloxRawMsg::new(CLASS_CFG, ID_CFG_MSG, inner.to_bytes()),
            UbloxMsg::CfgRate(inner) => UbloxRawMsg::new(CLASS_CFG, ID_CFG_RATE, inner.to_bytes()),
            UbloxMsg::CfgGnss(inner) => {
                proof {
                    if let CfgGnssView::Settings { blocks, .. } = inner@ {
                        crate::cfg_gnss::lemma_blocks_bytes(blocks);
                    }
                }
                UbloxRawMsg::new(CLASS_CFG, ID_CFG_GNSS, inner.to_bytes())
            },
            UbloxMsg::Other(raw) => raw,
        }
    }

    /// The on-wire bytes of the message.
    pub fn to_bytes(self) -> (r: Vec<u8>)
        requires
            encodable(self@),
        ensures
            r@ == frame_bytes(encode_msg(self@).class, encode_msg(self@).id, encode_msg(self@).payload),
    {
        self.to_raw().to_bytes()
    }
}

/// The kinds of frame that `decode_msg` reads into a typed message.
pub open spec fn known_kind(class: u8, id: u8) -> bool {
    ||| class == CLASS_RXM && (id == ID_RXM_SFRBX || id == ID_RXM_RAWX)
    ||| class == CLASS_CFG && (id == ID_CFG_PRT || id == ID_CFG_MSG || id == ID_CFG_RATE || id
        == ID_CFG_GNSS)
}

/// A message whose fields all fit the encoding; a raw frame is one of a kind that has
/// no typed message.
pub open spec fn msg_valid(m: MsgView) -> bool {
    match m {
        MsgView::CfgMsg(v) => v matches CfgMsgView::SetRatePorts { rate, .. } ==> rate.len() == 6,
        MsgView::CfgPrt(v) => v.valid(),
        MsgView::CfgRate(_) => true,
        MsgView::CfgGnss(v) => v.valid(),
        MsgView::RxmSfrbx(v) => v.valid(),
        MsgView::RxmRawx(v) => v.valid(),
        MsgView::Other(r) => r.payload.len() <= MAX_PAYLOAD && !known_kind(r.class, r.id),
    }
}

proof fn lemma_cfg_round_trip(m: MsgView)
    requires
        msg_valid(m),
        m is CfgMsg || m is CfgPrt || m is CfgRate || m is CfgGnss,
    ensures
        decode_msg(encode_msg(m)) == Ok::<MsgView, UbxError>(m),
{
    match m {
        MsgView::CfgMsg(v) => {
            crate::cfg_msg::lemma_cfg_msg_round_trip(v);
        },
        MsgView::CfgPrt(v) => {
            crate::cfg_prt::lemma_cfg_prt_round_trip(v);
        },
        MsgView::CfgRate(v) => {
            crate::cfg_rate::lemma_cfg_rate_round_trip(v);
        },
        MsgView::CfgGnss(v) => {
            crate::cfg_gnss::lemma_cfg_gnss_round_trip(v);
        },
        _ => {},
    }
}

proof fn lemma_rxm_round_trip(m: MsgView)
    requires
        msg_valid(m),
        m is RxmSfrbx || m is RxmRawx,
    ensures
        decode_msg(encode_msg(m)) == Ok::<MsgView, UbxError>(m),
{
    match m {
        MsgView::RxmSfrbx(v) => {
            crate::rxm_sfrbx::lemma_sfrbx_round_trip(v);
        },
        MsgView::RxmRawx(v) => {
            crate::rxm_rawx::lemma_rawx_round_trip(v);
        },
        _ => {},
    }
}

proof fn lemma_encodable(m: MsgView)
    requires
        msg_valid(m),
    ensures
        encodable(m),
        encode_msg(m).payload.len() <= MAX_PAYLOAD,
{
    match m {
        MsgView::CfgGnss(v) => {
            if let CfgGnssView::Settings { blocks, .. } = v {
                crate::cfg_gnss::lemma_blocks_bytes(blocks);
            }
        },
        MsgView::RxmSfrbx(v) => {
            if let crate::rxm_sfrbx::SfrbxDataView::Gps(d) = v.data {
                crate::lnav::lemma_gps_data_len(d);
            }
        },
        MsgView::RxmRawx(v) => {
            crate::rxm_rawx::lemma_rawx_len(v);
        },
        _ => {},
    }
}

/// Every valid message can be encoded, and its frame, read back byte for byte and
/// then decoded, gives the same message.
pub proof fn lemma_msg_round_trip(m: MsgView)
    requires
        msg_valid(m),
    ensures
        encodable(m),
        encode_msg(m).payload.len() <= MAX_PAYLOAD,
        decode_raw(frame_bytes(encode_msg(m).class, encode_msg(m).id, encode_msg(m).payload))
            == Ok::<RawMsgView, UbxError>(encode_msg(m)),
        decode_msg(encode_msg(m)) == Ok::<MsgView, UbxError>(m),
{
    lemma_encodable(m);
    if m is CfgMsg || m is CfgPrt || m is CfgRate || m is CfgGnss {
        lemma_cfg_round_trip(m);
    } else if m is RxmSfrbx || m is RxmRawx {
        lemma_rxm_round_trip(m);
    }
    let raw = encode_msg(m);
    lemma_raw_round_trip(raw.class, raw.id, raw.payload);
}

} // verus!
