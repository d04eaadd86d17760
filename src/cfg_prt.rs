use vstd::prelude::*;

use crate::error::UbxError;
use crate::raw_msg::{hi_byte, le16, lo_byte};

verus! {

/// The bits that an input protocol mask of the USB port may set:
/// UBX 0x01, NMEA 0x02, RTCM 0x04, RTCM3 0x20.
pub const USB_IN_MASK_ALL: u16 = 0x27;

/// The bits that an output protocol mask of the USB port may set:
/// UBX 0x01, NMEA 0x02, RTCM3 0x20.
pub const USB_OUT_MASK_ALL: u16 = 0x23;

/// The port number of the USB port.
pub const USB_PORT_ID: u8 = 3;

/// The protocols that the USB port accepts as input.
#[derive(Debug, Clone, Copy, PartialEq, Eq, Structural)]
pub struct UbxCfgPrtUsbInMask {
    bits: u16,
}

/// The protocols that the USB port emits.
#[derive(Debug, Clone, Copy, PartialEq, Eq, Structural)]
pub struct UbxCfgPrtUsbOutMask {
    bits: u16,
}

impl View for UbxCfgPrtUsbInMask {
    type V = u16;

    closed spec fn view(&self) -> u16 {
        self.bits
    }
}

impl View for UbxCfgPrtUsbOutMask {
    type V = u16;

    closed spec fn view(&self) -> u16 {
        self.bits
    }
}

impl UbxCfgPrtUsbInMask {
    #[verifier::type_invariant]
    spec fn inv(&self) -> bool {
        self.bits & !USB_IN_MASK_ALL == 0
    }

    /// The mask that holds `bits`, if every set bit names a protocol.
    pub fn from_bits(bits: u16) -> (r: Option<Self>)
        ensures
            r is Some <==> bits & !USB_IN_MASK_ALL == 0,
            r matches Some(m) ==> m@ == bits,
    {
        if bits & !USB_IN_MASK_ALL == 0 {
            Some(UbxCfgPrtUsbInMask { bits })
        } else {
            None
        }
    }

    /// UBX input only.
    pub fn ubx() -> (r: Self)
        ensures
            r@ == 1,
    {
        assert(1u16 & !USB_IN_MASK_ALL == 0) by (bit_vector);
        UbxCfgPrtUsbInMask { bits: 1 }
    }

    pub fn bits(&self) -> (r: u16)
        ensures
            r == self@,
            r & !USB_IN_MASK_ALL == 0,
    {
        proof {
            use_type_invariant(self);
        }
        self.bits
    }
}

impl UbxCfgPrtUsbOutMask {
    #[verifier::type_invariant]
    spec fn inv(&self) -> bool {
        self.bits & !USB_OUT_MASK_ALL == 0
    }

    /// The mask that holds `bits`, if every set bit names a protocol.
    pub fn from_bits(bits: u16) -> (r: Option<Self>)
        ensures
            r is Some <==> bits & !USB_OUT_MASK_ALL == 0,
            r matches Some(m) ==> m@ == bits,
    {
        if bits & !USB_OUT_MASK_ALL == 0 {
            Some(UbxCfgPrtUsbOutMask { bits })
        } else {
            None
        }
    }

    /// UBX output only.
    pub fn ubx() -> (r: Self)
        ensures
            r@ == 1,
    {
        assert(1u16 & !USB_OUT_MASK_ALL == 0) by (bit_vector);
        UbxCfgPrtUsbOutMask { bits: 1 }
    }

    pub fn bits(&self) -> (r: u16)
        ensures
            r == self@,
            r & !USB_OUT_MASK_ALL == 0,
    {
        proof {
            use_type_invariant(self);
        }
        self.bits
    }
}

/// CFG-PRT: poll the configuration of a port, or set the protocols of the USB port.
#[derive(Debug, Clone, Copy, PartialEq, Eq, Structural)]
pub enum UbxCfgPrt {
    Get { port_id: u8 },
    SetUsb { in_mask: UbxCfgPrtUsbInMask, out_mask: UbxCfgPrtUsbOutMask },
}

/// What a CFG-PRT message says, with the masks as their bits.
pub enum CfgPrtView {
    Get { port_id: u8 },
    SetUsb { in_mask: u16, out_mask: u16 },
}

impl View for UbxCfgPrt {
    type V = CfgPrtView;

    open spec fn view(&self) -> CfgPrtView {
        match *self {
            UbxCfgPrt::Get { port_id } => CfgPrtView::Get { port_id },
            UbxCfgPrt::SetUsb { in_mask, out_mask } => CfgPrtView::SetUsb {
                in_mask: in_mask@,
                out_mask: out_mask@,
            },
        }
    }
}

impl CfgPrtView {
    /// The payload: one byte for a poll; for the USB port twenty bytes, the masks at
    /// offsets 12 and 14, the rest zero.
    pub open spec fn spec_bytes(self) -> Seq<u8> {
        match self {
            CfgPrtView::Get { port_id } => seq![port_id],
            CfgPrtView::SetUsb { in_mask, out_mask } => seq![USB_PORT_ID]
                + Seq::new(11, |i: int| 0u8)
                + seq![
                lo_byte(in_mask as nat),
                hi_byte(in_mask as nat),
                lo_byte(out_mask as nat),
                hi_byte(out_mask as nat),
            ] + Seq::new(4, |i: int| 0u8),
        }
    }

    /// The masks hold only bits that name protocols.
    pub open spec fn valid(self) -> bool {
        match self {
            CfgPrtView::Get { .. } => true,
            CfgPrtView::SetUsb { in_mask, out_mask } => in_mask & !USB_IN_MASK_ALL == 0
                && out_mask & !USB_OUT_MASK_ALL == 0,
        }
    }
}

/// Reads a CFG-PRT payload: one byte polls a port; twenty bytes configure the USB port.
/// Other ports than USB are not supported.
pub open spec fn decode_cfg_prt(bytes: Seq<u8>) -> Result<CfgPrtView, UbxError> {
    if bytes.len() == 1 {
        Ok(CfgPrtView::Get { port_id: bytes[0] })
    } else if bytes.len() == 20 && bytes[0] == USB_PORT_ID {
        let in_mask = le16(bytes[12], bytes[13]) as u16;
        let out_mask = le16(bytes[14], bytes[15]) as u16;
        if in_mask & !USB_IN_MASK_ALL == 0 && out_mask & !USB_OUT_MASK_ALL == 0 {
            Ok(CfgPrtView::SetUsb { in_mask, out_mask })
        } else {
            Err(UbxError::Payload)
        }
    } else {
        Err(UbxError::Payload)
    }
}

impl UbxCfgPrt {
    pub fn to_bytes(&self) -> (r: Vec<u8>)
        ensures
            r@ == self@.spec_bytes(),
    {
        match *self {
            UbxCfgPrt::Get { port_id } => {
                let r = vec![port_id];
                assert(r@ =~= self@.spec_bytes());
                r
            },
            UbxCfgPrt::SetUsb { in_mask, out_mask } => {
                let i = in_mask.bits();
                let o = out_mask.bits();
                let r = vec![
                    USB_PORT_ID,
                    0,
                    0,
                    0,
                    0,
                    0,
                    0,
                    0,
                    0,
                    0,
                    0,
                    0,
                    (i % 256) as u8,
                    (i / 256) as u8,
                    (o % 256) as u8,
                    (o / 256) as u8,
                    0,
                    0,
                    0,
                    0,
                ];
                assert(r@ =~= self@.spec_bytes());
                r
            },
        }
    }

    pub fn try_from(bytes: &[u8]) -> (r: Result<UbxCfgPrt, UbxError>)
        ensures
            match (r, decode_cfg_prt(bytes@)) {
                (Ok(m), Ok(v)) => m@ == v,
                (Err(e), Err(f)) => e == f,
                _ => false,
            },
    {
        if bytes.len() == 1 {
            return Ok(UbxCfgPrt::Get { port_id: bytes[0] });
        }
        if bytes.len() != 20 || bytes[0] != USB_PORT_ID {
            return Err(UbxError::Payload);
        }
        let flags = bytes[12] as u16 + 256 * (bytes[13] as u16);
        let in_mask = match UbxCfgPrtUsbInMask::from_bits(flags) {
            Some(m) => m,
            None => {
                return Err(UbxError::Payload);
            },
        };
        let flags = bytes[14] as u16 + 256 * (bytes[15] as u16);
        let out_mask = match UbxCfgPrtUsbOutMask::from_bits(flags) {
            Some(m) => m,
            None => {
                return Err(UbxError::Payload);
            },
        };
        Ok(UbxCfgPrt::SetUsb { in_mask, out_mask })
    }
}

/// A valid CFG-PRT message, read back, is the same message.
pub proof fn lemma_cfg_prt_round_trip(v: CfgPrtView)
    requires
        v.valid(),
    ensures
        decode_cfg_prt(v.spec_bytes()) == Ok::<CfgPrtView, UbxError>(v),
{
    let b = v.spec_bytes();
    if let CfgPrtView::SetUsb { in_mask, out_mask } = v {
        assert(b[0] == USB_PORT_ID);
        assert(b[12] == lo_byte(in_mask as nat));
        assert(b[13] == hi_byte(in_mask as nat));
        assert(b[14] == lo_byte(out_mask as nat));
        assert(b[15] == hi_byte(out_mask as nat));
    }
}

} // verus!
