use vstd::prelude::*;

use crate::error::UbxError;
use crate::raw_msg::{hi_byte, le16, lo_byte};

verus! {

/// The time system that navigation epochs are aligned to.
#[derive(Debug, Clone, Copy, PartialEq, Eq, Structural)]
pub enum UbxCfgRateTimeRef {
    Utc,
    Gps,
    Glonass,
    BeiDou,
    Galileo,
}

pub open spec fn time_ref_code(t: UbxCfgRateTimeRef) -> u16 {
    match t {
        UbxCfgRateTimeRef::Utc => 0,
        UbxCfgRateTimeRef::Gps => 1,
        UbxCfgRateTimeRef::Glonass => 2,
        UbxCfgRateTimeRef::BeiDou => 3,
        UbxCfgRateTimeRef::Galileo => 4,
    }
}

pub open spec fn decode_time_ref(val: nat) -> Result<UbxCfgRateTimeRef, UbxError> {
    if val == 0 {
        Ok(UbxCfgRateTimeRef::Utc)
    } else if val == 1 {
        Ok(UbxCfgRateTimeRef::Gps)
    } else if val == 2 {
        Ok(UbxCfgRateTimeRef::Glonass)
    } else if val == 3 {
        Ok(UbxCfgRateTimeRef::BeiDou)
    } else if val == 4 {
        Ok(UbxCfgRateTimeRef::Galileo)
    } else {
        Err(UbxError::Payload)
    }
}

impl UbxCfgRateTimeRef {
    pub fn try_from(val: u16) -> (r: Result<UbxCfgRateTimeRef, UbxError>)
        ensures
            r == decode_time_ref(val as nat),
    {
        match val {
            0 => Ok(UbxCfgRateTimeRef::Utc),
            1 => Ok(UbxCfgRateTimeRef::Gps),
            2 => Ok(UbxCfgRateTimeRef::Glonass),
            3 => Ok(UbxCfgRateTimeRef::BeiDou),
            4 => Ok(UbxCfgRateTimeRef::Galileo),
            _ => Err(UbxError::Payload),
        }
    }

    pub fn to_u16(self) -> (r: u16)
        ensures
            r == time_ref_code(self),
    {
        match self {
            UbxCfgRateTimeRef::Utc => 0,
            UbxCfgRateTimeRef::Gps => 1,
            UbxCfgRateTimeRef::Glonass => 2,
            UbxCfgRateTimeRef::BeiDou => 3,
            UbxCfgRateTimeRef::Galileo => 4,
        }
    }
}

/// CFG-RATE: the measurement period, the navigation rate in measurement cycles, and
/// the time reference.
#[derive(Debug, Clone, Copy, PartialEq, Eq, Structural)]
pub struct UbxCfgRate {
    pub meas_rate_ms: u16,
    pub nav_rate_cycles: u16,
    pub time_ref: UbxCfgRateTimeRef,
}

impl UbxCfgRate {
    /// The six payload bytes: three little-endian 16-bit fields.
    pub open spec fn spec_bytes(self) -> Seq<u8> {
        seq![
            lo_byte(self.meas_rate_ms as nat),
            hi_byte(self.meas_rate_ms as nat),
            lo_byte(self.nav_rate_cycles as nat),
            hi_byte(self.nav_rate_cycles as nat),
            lo_byte(time_ref_code(self.time_ref) as nat),
            hi_byte(time_ref_code(self.time_ref) as nat),
        ]
    }

    pub fn to_bytes(&self) -> (r: Vec<u8>)
        ensures
            r@ == self.spec_bytes(),
    {
        let tr = self.time_ref.to_u16();
        let r = vec![
            (self.meas_rate_ms % 256) as u8,
            (self.meas_rate_ms / 256) as u8,
            (self.nav_rate_cycles % 256) as u8,
            (self.nav_rate_cycles / 256) as u8,
            (tr % 256) as u8,
            (tr / 256) as u8,
        ];
        assert(r@ =~= self.spec_bytes());
        r
    }

    pub fn try_from(bytes: &[u8]) -> (r: Result<UbxCfgRate, UbxError>)
        ensures
            r == decode_cfg_rate(bytes@),
    {
        if bytes.len() != 6 {
            return Err(UbxError::Payload);
        }
        let meas_rate_ms = bytes[0] as u16 + 256 * (bytes[1] as u16);
        let nav_rate_cycles = bytes[2] as u16 + 256 * (bytes[3] as u16);
        let time_ref_u16 = bytes[4] as u16 + 256 * (bytes[5] as u16);
        let time_ref = UbxCfgRateTimeRef::try_from(time_ref_u16)?;
        Ok(UbxCfgRate { meas_rate_ms, nav_rate_cycles, time_ref })
    }
}

/// Reads a CFG-RATE payload: exactly six bytes, with a known time reference.
pub open spec fn decode_cfg_rate(bytes: Seq<u8>) -> Result<UbxCfgRate, UbxError> {
    if bytes.len() != 6 {
        Err(UbxError::Payload)
    } else {
        match decode_time_ref(le16(bytes[4], bytes[5])) {
            Ok(time_ref) => Ok(
                UbxCfgRate {
                    meas_rate_ms: le16(bytes[0], bytes[1]) as u16,
                    nav_rate_cycles: le16(bytes[2], bytes[3]) as u16,
                    time_ref,
                },
            ),
            Err(e) => Err(e),
        }
    }
}

/// A CFG-RATE message reads back as itself.
pub proof fn lemma_cfg_rate_round_trip(m: UbxCfgRate)
    ensures
        decode_cfg_rate(m.spec_bytes()) == Ok::<UbxCfgRate, UbxError>(m),
{
}

} // verus!
