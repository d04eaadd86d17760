use vstd::prelude::*;

use crate::error::UbxError;

verus! {

/// A satellite constellation, as numbered by the receiver.
#[derive(Debug, Clone, Copy, PartialEq, Eq, Structural)]
pub enum GnssId {
    Gps,
    Sbas,
    Galileo,
    BeiDou,
    Imes,
    Qzss,
    Glonass,
}

/// The receiver's number for a constellation.
pub open spec fn gnss_code(g: GnssId) -> u8 {
    match g {
        GnssId::Gps => 0,
        GnssId::Sbas => 1,
        GnssId::Galileo => 2,
        GnssId::BeiDou => 3,
        GnssId::Imes => 4,
        GnssId::Qzss => 5,
        GnssId::Glonass => 6,
    }
}

/// The constellation that a number stands for; numbers above 6 stand for none.
pub open spec fn decode_gnss_id(val: u8) -> Result<GnssId, UbxError> {
    if val == 0 {
        Ok(GnssId::Gps)
    } else if val == 1 {
        Ok(GnssId::Sbas)
    } else if val == 2 {
        Ok(GnssId::Galileo)
    } else if val == 3 {
        Ok(GnssId::BeiDou)
    } else if val == 4 {
        Ok(GnssId::Imes)
    } else if val == 5 {
        Ok(GnssId::Qzss)
    } else if val == 6 {
        Ok(GnssId::Glonass)
    } else {
        Err(UbxError::Payload)
    }
}

impl GnssId {
    pub fn try_from(val: u8) -> (r: Result<GnssId, UbxError>)
        ensures
            r == decode_gnss_id(val),
    {
        match val {
            0 => Ok(GnssId::Gps),
            1 => Ok(GnssId::Sbas),
            2 => Ok(GnssId::Galileo),
            3 => Ok(GnssId::BeiDou),
            4 => Ok(GnssId::Imes),
            5 => Ok(GnssId::Qzss),
            6 => Ok(GnssId::Glonass),
            _ => Err(UbxError::Payload),
        }
    }

    pub fn to_u8(self) -> (r: u8)
        ensures
            r == gnss_code(self),
    {
        match self {
            GnssId::Gps => 0,
            GnssId::Sbas => 1,
            GnssId::Galileo => 2,
            GnssId::BeiDou => 3,
            GnssId::Imes => 4,
            GnssId::Qzss => 5,
            GnssId::Glonass => 6,
        }
    }
}

} // verus!
