//! Advertising-data (AD) structures, encoded and decoded by `trouble_host`.
use vstd::prelude::*;
use trouble_host::advertise::AdStructure;

verus! {

/// One decoded AD structure, as far as the scanning logic needs to tell
/// structures apart.
#[derive(Debug, Clone)]
pub enum AdRecord {
    CompleteLocalName(Vec<u8>),
    ManufacturerSpecificData { company_identifier: u16, payload: Vec<u8> },
    /// A well-formed structure of another kind.
    Other,
    /// A structure that could not be decoded.
    Malformed,
}

/// The mathematical value of an [`AdRecord`].
pub enum AdRecordModel {
    CompleteLocalName(Seq<u8>),
    ManufacturerSpecificData { company_identifier: u16, payload: Seq<u8> },
    Other,
    Malformed,
}

impl View for AdRecord {
    type V = AdRecordModel;

    open spec fn view(&self) -> AdRecordModel {
        match self {
            AdRecord::CompleteLocalName(n) => AdRecordModel::CompleteLocalName(n@),
            AdRecord::ManufacturerSpecificData { company_identifier, payload } =>
                AdRecordModel::ManufacturerSpecificData {
                    company_identifier: *company_identifier,
                    payload: payload@,
                },
            AdRecord::Other => AdRecordModel::Other,
            AdRecord::Malformed => AdRecordModel::Malformed,
        }
    }
}

/// The view of every record of a list, in order.
pub open spec fn records_view(records: Seq<AdRecord>) -> Seq<AdRecordModel> {
    records.map_values(|r: AdRecord| r@)
}

/// The sequence of records that `trouble_host` decodes from advertising data.
pub uninterp spec fn ad_records(data: Seq<u8>) -> Seq<AdRecordModel>;

/// The records of a flags structure (a structure of another kind), a
/// complete local name and manufacturer-specific data, in this order.
pub open spec fn encoded_records(name: Seq<u8>, company_identifier: u16, payload: Seq<u8>) -> Seq<AdRecordModel> {
    seq![
        AdRecordModel::Other,
        AdRecordModel::CompleteLocalName(name),
        AdRecordModel::ManufacturerSpecificData { company_identifier, payload },
    ]
}

/// Whenever `data` is the encoding of a flags structure, a non-empty complete
/// local name and manufacturer-specific data whose lengths fit their length
/// bytes, `records` are the records of those three structures.
pub open spec fn decodes_as_encoded(data: Seq<u8>, records: Seq<AdRecordModel>) -> bool {
    forall|flags: u8, name: Seq<u8>, company_identifier: u16, payload: Seq<u8>|
        #[trigger] advertising_encoding(flags, name, company_identifier, payload) == data
            && 1 <= name.len() <= 254 && payload.len() <= 252
            ==> records == encoded_records(name, company_identifier, payload)
}

/// Calls `trouble_host::advertise::AdStructure::decode` and collects every
/// item it yields, in order. Complete local names and manufacturer-specific
/// data are kept with their bytes, other structures become `Other`, and items
/// that fail to decode become `Malformed`. The contract says that the result
/// is a function of the bytes, named `ad_records`, and that the decoder reads
/// each structure as its length byte, its type byte and its data: so the
/// bytes that `encode_slice` writes for a flags structure, a non-empty name
/// and manufacturer-specific data decode to those three structures.
#[verifier::external_body]
pub(crate) fn decode_ad_records(data: &[u8]) -> (records: Vec<AdRecord>)
    ensures
        records_view(records@) == ad_records(data@),
        decodes_as_encoded(data@, records_view(records@)),
{
    AdStructure::decode(data).map(|item| match item {
        Ok(AdStructure::CompleteLocalName(name)) => AdRecord::CompleteLocalName(name.to_vec()),
        Ok(AdStructure::ManufacturerSpecificData { company_identifier, payload }) =>
            AdRecord::ManufacturerSpecificData { company_identifier, payload: payload.to_vec() },
        Ok(_) => AdRecord::Other,
        Err(_) => AdRecord::Malformed,
    }).collect()
}

/// Advertising data did not fit in the space given to it.
#[derive(Debug, Clone, Copy, PartialEq, Eq)]
pub enum AdEncodeError {
    TooLong,
}

/// The bytes of a flags structure, a complete-local-name structure and a
/// manufacturer-specific structure, in this order: each structure is its
/// length (type byte included), its type byte, then its data; the company
/// identifier is little-endian.
pub open spec fn advertising_encoding(
    flags: u8,
    name: Seq<u8>,
    company_identifier: u16,
    payload: Seq<u8>,
) -> Seq<u8> {
    seq![2u8, 0x01u8, flags]
        + seq![(name.len() + 1) as u8, 0x09u8]
        + name
        + seq![
            (payload.len() + 3) as u8,
            0xffu8,
            (company_identifier % 0x100) as u8,
            (company_identifier / 0x100) as u8,
        ]
        + payload
}

/// Calls `trouble_host::advertise::AdStructure::encode_slice` on a flags
/// structure, a complete local name and manufacturer-specific data, writing
/// into a zeroed buffer of `capacity` bytes, and returns the bytes written.
/// The contract states the layout that `encode_slice` writes, and that it
/// fails exactly when that layout does not fit in the buffer.
#[verifier::external_body]
pub(crate) fn encode_advertising_fields(
    flags: u8,
    name: &[u8],
    company_identifier: u16,
    payload: &[u8],
    capacity: usize,
) -> (res: Result<Vec<u8>, AdEncodeError>)
    ensures
        res is Ok <==> advertising_encoding(flags, name@, company_identifier, payload@).len() <= capacity,
        res matches Ok(bytes) ==> bytes@ == advertising_encoding(flags, name@, company_identifier, payload@),
{
    let fields = [
        AdStructure::Flags(flags),
        AdStructure::CompleteLocalName(name),
        AdStructure::ManufacturerSpecificData { company_identifier, payload },
    ];
    let mut buffer = vec![0u8; capacity];
    match AdStructure::encode_slice(&fields, &mut buffer) {
        Ok(len) => Ok(buffer[..len].to_vec()),
        Err(_) => Err(AdEncodeError::TooLong),
    }
}

} // verus!
