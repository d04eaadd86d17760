use vstd::prelude::*;
use vstd::slice::slice_subrange;

use crate::error::UbxError;
use crate::gnss_id::{decode_gnss_id, gnss_code, GnssId};
use crate::lnav::{decode_gps_data, encode_gps_data, gps_data_valid, lemma_gps_data_len, lemma_gps_data_round_trip, UbxRxmSfrbxDataGps};

verus! {

/// The navigation data of RXM-SFRBX: decoded for GPS, raw bytes for the other
/// constellations.
#[derive(Debug, Clone, PartialEq, Eq)]
pub enum UbxRxmSfrbxData {
    Gps(UbxRxmSfrbxDataGps),
    Other(Vec<u8>),
}

pub enum SfrbxDataView {
    Gps(UbxRxmSfrbxDataGps),
    Other(Seq<u8>),
}

impl View for UbxRxmSfrbxData {
    type V = SfrbxDataView;

    open spec fn view(&self) -> SfrbxDataView {
        match self {
            UbxRxmSfrbxData::Gps(d) => SfrbxDataView::Gps(*d),
            UbxRxmSfrbxData::Other(b) => SfrbxDataView::Other(b@),
        }
    }
}

impl SfrbxDataView {
    pub open spec fn spec_bytes(self) -> Seq<u8> {
        match self {
            SfrbxDataView::Gps(d) => encode_gps_data(d),
            SfrbxDataView::Other(b) => b,
        }
    }

    /// The number of 32-bit words that the header announces.
    pub open spec fn spec_words(self) -> u8 {
        match self {
            SfrbxDataView::Gps(_) => 10,
            SfrbxDataView::Other(b) => (b.len() / 4) as u8,
        }
    }
}

impl UbxRxmSfrbxData {
    /// The number of 32-bit words of the data.
    pub fn words(&self) -> (r: u8)
        ensures
            r == self@.spec_words(),
    {
        match self {
            UbxRxmSfrbxData::Gps(_) => 10,
            UbxRxmSfrbxData::Other(data) => (data.len() / 4) as u8,
        }
    }
}

/// RXM-SFRBX: one broadcast navigation subframe received from one satellite.
#[derive(Debug, Clone, PartialEq, Eq)]
pub struct UbxRxmSfrbx {
    pub gnss_id: GnssId,
    pub sv_id: u8,
    pub freq_id: u8,
    pub version: u8,
    pub data: UbxRxmSfrbxData,
}

pub struct SfrbxView {
    pub gnss_id: GnssId,
    pub sv_id: u8,
    pub freq_id: u8,
    pub version: u8,
    pub data: SfrbxDataView,
}

impl View for UbxRxmSfrbx {
    type V = SfrbxView;

    open spec fn view(&self) -> SfrbxView {
        SfrbxView {
            gnss_id: self.gnss_id,
            sv_id: self.sv_id,
            freq_id: self.freq_id,
            version: self.version,
            data: self.data@,
        }
    }
}

impl SfrbxView {
    /// GPS data comes from GPS and is valid; other data comes from another constellation
    /// and is whole words, at most 255 of them.
    pub open spec fn valid(self) -> bool {
        match self.data {
            SfrbxDataView::Gps(d) => self.gnss_id == GnssId::Gps && gps_data_valid(d),
            SfrbxDataView::Other(b) => self.gnss_id != GnssId::Gps && b.len() % 4 == 0 && b.len()
                <= 1020,
        }
    }

    /// The payload: an eight-byte header (constellation, satellite, a reserved byte,
    /// frequency slot, word count, a reserved byte, version, a reserved byte), then
    /// the data.
    pub open spec fn spec_bytes(self) -> Seq<u8> {
        seq![
            gnss_code(self.gnss_id),
            self.sv_id,
            0u8,
            self.freq_id,
            self.data.spec_words(),
            0u8,
            self.version,
            0u8,
        ] + self.data.spec_bytes()
    }
}

/// Reads an RXM-SFRBX payload: the length must match the word count of the header;
/// GPS data is decoded, that of other constellations kept as bytes.
pub open spec fn decode_sfrbx(b: Seq<u8>) -> Result<SfrbxView, UbxError> {
    if b.len() < 8 {
        Err(UbxError::Payload)
    } else {
        match decode_gnss_id(b[0]) {
            Err(e) => Err(e),
            Ok(gnss_id) => if b.len() != 8 + 4 * b[4] {
                Err(UbxError::Payload)
            } else {
                let data = if gnss_id == GnssId::Gps {
                    match decode_gps_data(b.subrange(8, b.len() as int)) {
                        Ok(d) => Ok(SfrbxDataView::Gps(d)),
                        Err(e) => Err(e),
                    }
                } else {
                    Ok(SfrbxDataView::Other(b.subrange(8, b.len() as int)))
                };
                match data {
                    Err(e) => Err(e),
                    Ok(data) => Ok(
                        SfrbxView { gnss_id, sv_id: b[1], freq_id: b[3], version: b[6], data },
                    ),
                }
            },
        }
    }
}

impl UbxRxmSfrbx {
    pub fn to_bytes(&self) -> (r: Vec<u8>)
        ensures
            r@ == self@.spec_bytes(),
    {
        let mut result = vec![
            self.gnss_id.to_u8(),
            self.sv_id,
            0,
            self.freq_id,
            self.data.words(),
            0,
            self.version,
            0,
        ];
        let ghost head = result@;
        let data = match &self.data {
            UbxRxmSfrbxData::Gps(d) => d.to_bytes(),
            UbxRxmSfrbxData::Other(b) => {
                let mut c: Vec<u8> = Vec::with_capacity(b.len());
                let mut i: usize = 0;
                while i < b.len()
                    invariant
                        0 <= i <= b@.len(),
                        c@ =~= b@.take(i as int),
                    decreases b@.len() - i,
                {
                    c.push(b[i]);
                    i += 1;
                }
                c
            },
        };
        assert(data@ =~= self@.data.spec_bytes());
        let mut i: usize = 0;
        while i < data.len()
            invariant
                0 <= i <= data@.len(),
                result@ =~= head + data@.take(i as int),
            decreases data@.len() - i,
        {
            result.push(data[i]);
            i += 1;
        }
        assert(result@ =~= self@.spec_bytes());
        result
    }

    pub fn try_from(bytes: &[u8]) -> (r: Result<UbxRxmSfrbx, UbxError>)
        ensures
            match (r, decode_sfrbx(bytes@)) {
                (Ok(m), Ok(v)) => m@ == v,
                (Err(e), Err(f)) => e == f,
                _ => false,
            },
    {
        let len = bytes.len();
        if len < 8 {
            return Err(UbxError::Payload);
        }
        let gnss_id = GnssId::try_from(bytes[0])?;
        let sv_id = bytes[1];
        let freq_id = bytes[3];
        let length = bytes[4] as usize;
        if len != 8 + 4 * length {
            return Err(UbxError::Payload);
        }
        let version = bytes[6];
        let rest = slice_subrange(bytes, 8, len);
        let data = match gnss_id {
            GnssId::Gps => UbxRxmSfrbxData::Gps(UbxRxmSfrbxDataGps::try_from(rest)?),
            _ => {
                let mut c: Vec<u8> = Vec::with_capacity(rest.len());
                let mut i: usize = 0;
                while i < rest.len()
                    invariant
                        0 <= i <= rest@.len(),
                        c@ =~= rest@.take(i as int),
                    decreases rest@.len() - i,
                {
                    c.push(rest[i]);
                    i += 1;
                }
                assert(c@ =~= rest@);
                UbxRxmSfrbxData::Other(c)
            },
        };
        Ok(UbxRxmSfrbx { gnss_id, sv_id, freq_id, version, data })
    }
}

/// A valid RXM-SFRBX message reads back as itself.
pub proof fn lemma_sfrbx_round_trip(v: SfrbxView)
    requires
        v.valid(),
    ensures
        decode_sfrbx(v.spec_bytes()) == Ok::<SfrbxView, UbxError>(v),
{
    let b = v.spec_bytes();
    let data = v.data.spec_bytes();
    assert(b.subrange(8, b.len() as int) =~= data);
    match v.data {
        SfrbxDataView::Gps(d) => {
            lemma_gps_data_len(d);
            lemma_gps_data_round_trip(d);
        },
        SfrbxDataView::Other(o) => {},
    }
}

} // verus!
