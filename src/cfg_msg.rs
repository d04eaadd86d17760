use vstd::prelude::*;

use crate::error::UbxError;

verus! {

/// CFG-MSG: poll the output rate of a message, set it on the current port, or set it
/// on each of the six ports.
#[allow(inconsistent_fields)]
#[derive(Debug, Clone, Copy, PartialEq, Eq)]
pub enum UbxCfgMsg {
    Get { class: u8, id: u8 },
    SetRate { class: u8, id: u8, rate: u8 },
    SetRatePorts { class: u8, id: u8, rate: [u8; 6] },
}

/// What a CFG-MSG message says, with the per-port rates as a sequence.
#[allow(inconsistent_fields)]
pub enum CfgMsgView {
    Get { class: u8, id: u8 },
    SetRate { class: u8, id: u8, rate: u8 },
    SetRatePorts { class: u8, id: u8, rate: Seq<u8> },
}

impl View for UbxCfgMsg {
    type V = CfgMsgView;

    open spec fn view(&self) -> CfgMsgView {
        match *self {
            UbxCfgMsg::Get { class, id } => CfgMsgView::Get { class, id },
            UbxCfgMsg::SetRate { class, id, rate } => CfgMsgView::SetRate { class, id, rate },
            UbxCfgMsg::SetRatePorts { class, id, rate } => CfgMsgView::SetRatePorts {
                class,
                id,
                rate: rate@,
            },
        }
    }
}

impl CfgMsgView {
    /// The payload: class and id, followed by one rate or by six.
    pub open spec fn spec_bytes(self) -> Seq<u8> {
        match self {
            CfgMsgView::Get { class, id } => seq![class, id],
            CfgMsgView::SetRate { class, id, rate } => seq![class, id, rate],
            CfgMsgView::SetRatePorts { class, id, rate } => seq![class, id] + rate,
        }
    }
}

/// Reads a CFG-MSG payload; its length (2, 3 or 8) selects the variant.
pub open spec fn decode_cfg_msg(bytes: Seq<u8>) -> Result<CfgMsgView, UbxError> {
    if bytes.len() == 2 {
        Ok(CfgMsgView::Get { class: bytes[0], id: bytes[1] })
    } else if bytes.len() == 3 {
        Ok(CfgMsgView::SetRate { class: bytes[0], id: bytes[1], rate: bytes[2] })
    } else if bytes.len() == 8 {
        Ok(CfgMsgView::SetRatePorts { class: bytes[0], id: bytes[1], rate: bytes.subrange(2, 8) })
    } else {
        Err(UbxError::Payload)
    }
}

impl UbxCfgMsg {
    pub fn to_bytes(&self) -> (r: Vec<u8>)
        ensures
            r@ == self@.spec_bytes(),
    {
        match *self {
            UbxCfgMsg::Get { class, id } => {
                let r = vec![class, id];
                assert(r@ =~= self@.spec_bytes());
                r
            },
            UbxCfgMsg::SetRate { class, id, rate } => {
                let r = vec![class, id, rate];
                assert(r@ =~= self@.spec_bytes());
                r
            },
            UbxCfgMsg::SetRatePorts { class, id, rate } => {
                let r = vec![class, id, rate[0], rate[1], rate[2], rate[3], rate[4], rate[5]];
                assert(r@ =~= self@.spec_bytes());
                r
            },
        }
    }

    pub fn try_from(bytes: &[u8]) -> (r: Result<UbxCfgMsg, UbxError>)
        ensures
            match (r, decode_cfg_msg(bytes@)) {
                (Ok(m), Ok(v)) => m@ == v,
                (Err(e), Err(f)) => e == f,
                _ => false,
            },
    {
        if bytes.len() == 2 {
            Ok(UbxCfgMsg::Get { class: bytes[0], id: bytes[1] })
        } else if bytes.len() == 3 {
            Ok(UbxCfgMsg::SetRate { class: bytes[0], id: bytes[1], rate: bytes[2] })
        } else if bytes.len() == 8 {
            let rate = [bytes[2], bytes[3], bytes[4], bytes[5], bytes[6], bytes[7]];
            assert(rate@ =~= bytes@.subrange(2, 8));
            Ok(UbxCfgMsg::SetRatePorts { class: bytes[0], id: bytes[1], rate })
        } else {
            Err(UbxError::Payload)
        }
    }
}

/// A CFG-MSG message whose per-port rates are six, read back, is the same message.
pub proof fn lemma_cfg_msg_round_trip(v: CfgMsgView)
    requires
        v matches CfgMsgView::SetRatePorts { rate, .. } ==> rate.len() == 6,
    ensures
        decode_cfg_msg(v.spec_bytes()) == Ok::<CfgMsgView, UbxError>(v),
{
    if let CfgMsgView::SetRatePorts { class, id, rate } = v {
        assert(v.spec_bytes().subrange(2, 8) =~= rate);
    }
}

} // verus!
