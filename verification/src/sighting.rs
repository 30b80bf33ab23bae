//! The all-in-one scanner: each tag report becomes a record posted to the
//! backend, signed with the scanner's identity.
use vstd::prelude::*;
use crate::scanner::{TagReport, TAG_NAME_MAX_LEN};
use vstd::string::StringSliceAdditionalSpecFns;

verus! {

/// The identity a scanner reports under: the configured identity when one
/// is set (or "unknown" when it is too long to keep), else the interface
/// address, else "unknown".
pub open spec fn spec_device_id(sniffer_id: Option<Seq<char>>, sniffer_id_len: nat, interface_id: Option<Seq<char>>) -> Seq<char> {
    match sniffer_id {
        Some(id) => if sniffer_id_len <= TAG_NAME_MAX_LEN { id } else { "unknown"@ },
        None => match interface_id {
            Some(i) => i,
            None => "unknown"@,
        },
    }
}

pub open spec fn opt_str_view(o: Option<&str>) -> Option<Seq<char>> {
    match o {
        Some(s) => Some(s@),
        None => None,
    }
}

pub open spec fn opt_str_len(o: Option<&str>) -> nat {
    match o {
        Some(s) => s.spec_bytes().len(),
        None => 0,
    }
}

pub open spec fn opt_string_view(o: Option<String>) -> Option<Seq<char>> {
    match o {
        Some(s) => Some(s@),
        None => None,
    }
}

/// The identity of the scanner, from the configured identity (if any) and
/// the formatted interface address (if there is one).
pub fn select_device_id(sniffer_id: Option<&str>, interface_id: Option<String>) -> (id: String)
    ensures
        id@ == spec_device_id(opt_str_view(sniffer_id), opt_str_len(sniffer_id), opt_string_view(interface_id)),
{
    match sniffer_id {
        Some(s) => {
            if s.as_bytes().len() <= TAG_NAME_MAX_LEN {
                s.to_owned()
            } else {
                "unknown".to_owned()
            }
        },
        None => match interface_id {
            Some(i) => i,
            None => "unknown".to_owned(),
        },
    }
}

/// What the scanner posts to the backend for one tag report.
#[derive(Debug, Clone)]
pub struct SightingRecord {
    /// Always empty.
    pub adv_type: String,
    /// Always 0.
    pub channel: u8,
    /// The tag's address, most significant byte first.
    pub mac: [u8; 6],
    pub name: String,
    pub raw_rssi: i8,
    pub rssi: i8,
    pub sequence: u32,
    pub sniffer_id: String,
    /// When the tag was seen, in milliseconds.
    pub timestamp: u64,
}

/// The record posted for a report, by the scanner `device_id`.
pub fn sighting_record(report: TagReport, device_id: &String) -> (rec: SightingRecord)
    ensures
        rec.adv_type@ == Seq::<char>::empty(),
        rec.channel == 0,
        rec.mac@ == report.addr@.reverse(),
        rec.name@ == report.name@,
        rec.raw_rssi == report.rssi,
        rec.rssi == report.rssi,
        rec.sequence == report.sequence,
        rec.sniffer_id@ == device_id@,
        rec.timestamp == report.timestamp / 1000,
{
    let a = report.addr;
    let mac = [a[5], a[4], a[3], a[2], a[1], a[0]];
    assert(mac@ =~= report.addr@.reverse());
    SightingRecord {
        adv_type: String::new(),
        channel: 0,
        mac,
        name: report.name,
        raw_rssi: report.rssi,
        rssi: report.rssi,
        sequence: report.sequence,
        sniffer_id: device_id.clone(),
        timestamp: report.timestamp / 1000,
    }
}

/// The value of an ASCII hexadecimal digit.
pub open spec fn spec_hex_digit(c: u8) -> Option<u8> {
    if 0x30 <= c <= 0x39 {
        Some((c - 0x30) as u8)
    } else if 0x41 <= c <= 0x46 {
        Some((c - 0x41 + 10) as u8)
    } else if 0x61 <= c <= 0x66 {
        Some((c - 0x61 + 10) as u8)
    } else {
        None
    }
}

/// The character that writes the hexadecimal digit `d` (below 16), in
/// upper or lower case.
pub open spec fn hex_char(d: u8, upper: bool) -> u8 {
    if d < 10 {
        (0x30 + d) as u8
    } else if upper {
        (0x41 + d - 10) as u8
    } else {
        (0x61 + d - 10) as u8
    }
}

/// Each of the hexadecimal digits, `0` to `9`, `A` to `F` and `a` to `f`,
/// has its value, and a character that has a value writes that digit: the
/// sixteen values, each in both cases, and nothing else.
pub proof fn lemma_hex_digit_values(c: u8, d: u8, upper: bool)
    ensures
        d < 16 ==> spec_hex_digit(hex_char(d, upper)) == Some(d),
        spec_hex_digit(c) matches Some(v) ==> v < 16 && (c == hex_char(v, true) || c == hex_char(v, false)),
{
}

pub fn hex_digit(c: u8) -> (v: Option<u8>)
    ensures
        v == spec_hex_digit(c),
        v matches Some(d) ==> d < 16 && (c == hex_char(d, true) || c == hex_char(d, false)),
        forall|d: u8, upper: bool| d < 16 && c == #[trigger] hex_char(d, upper) ==> v == Some(d),
{
    if 0x30 <= c && c <= 0x39 {
        Some(c - 0x30)
    } else if 0x41 <= c && c <= 0x46 {
        Some(c - 0x41 + 10)
    } else if 0x61 <= c && c <= 0x66 {
        Some(c - 0x61 + 10)
    } else {
        None
    }
}

/// The bytes that a hexadecimal text spells, two digits a byte, ignoring
/// colons; `None` for any other character or an odd number of digits.
pub open spec fn spec_hex_bytes(digits: Seq<u8>) -> Option<Seq<u8>>
    decreases digits.len(),
{
    if digits.len() == 0 {
        Some(Seq::empty())
    } else if digits.len() == 1 {
        None
    } else {
        match (spec_hex_digit(digits[0]), spec_hex_digit(digits[1]), spec_hex_bytes(digits.subrange(2, digits.len() as int))) {
            (Some(h), Some(l), Some(rest)) => Some(seq![(h * 16 + l) as u8] + rest),
            _ => None,
        }
    }
}

/// The byte that digits `2k` and `2k + 1` spell.
pub open spec fn hex_pair(digits: Seq<u8>, k: int) -> Option<u8> {
    match (spec_hex_digit(digits[2 * k]), spec_hex_digit(digits[2 * k + 1])) {
        (Some(h), Some(l)) => Some((h * 16 + l) as u8),
        _ => None,
    }
}

/// The text without its colons.
pub open spec fn without_colons(text: Seq<u8>) -> Seq<u8> {
    text.filter(|c: u8| c != 0x3a)
}

/// A tag prefix written as colon-separated hexadecimal bytes, most
/// significant first ("CC:DD:EE"), as three bytes least significant first.
pub open spec fn spec_tag_prefix(text: Seq<u8>) -> Option<Seq<u8>> {
    match spec_hex_bytes(without_colons(text)) {
        Some(b) => if b.len() == 3 { Some(b.reverse()) } else { None },
        None => None,
    }
}

proof fn lemma_hex_bytes_len(digits: Seq<u8>)
    ensures
        spec_hex_bytes(digits) matches Some(b) ==> b.len() * 2 == digits.len(),
    decreases digits.len(),
{
    if digits.len() >= 2 {
        lemma_hex_bytes_len(digits.subrange(2, digits.len() as int));
    }
}

/// Parses a tag prefix written as colon-separated hexadecimal bytes, most
/// significant first, into the order in which addresses are stored.
pub fn parse_tag_prefix(text: &str) -> (prefix: Option<[u8; 3]>)
    ensures
        match prefix {
            Some(p) => spec_tag_prefix(text.spec_bytes()) == Some(p@),
            None => spec_tag_prefix(text.spec_bytes()) is None,
        },
{
    let bytes = text.as_bytes();
    let ghost tb = bytes@;
    let mut digits: Vec<u8> = Vec::new();
    let mut i: usize = 0;
    while i < bytes.len()
        invariant
            i <= bytes.len(),
            tb == bytes@,
            digits@ == without_colons(tb.take(i as int)),
        decreases bytes.len() - i,
    {
        proof {
            reveal_with_fuel(Seq::<_>::filter, 1);
            assert(tb.take(i + 1).drop_last() =~= tb.take(i as int));
        }
        if bytes[i] != 0x3a {
            digits.push(bytes[i]);
        }
        i = i + 1;
    }
    assert(tb.take(bytes.len() as int) =~= tb);
    proof {
        lemma_hex_bytes_len(digits@);
    }
    if digits.len() != 6 {
        return None;
    }
    let mut out = [0u8; 3];
    let mut j: usize = 0;
    let ghost full = digits@;
    while j < 3
        invariant
            j <= 3,
            full == digits@,
            full == without_colons(text.spec_bytes()),
            digits@.len() == 6,
            forall|k: int| 0 <= k < j ==> #[trigger] hex_pair(full, k) == Some(out@[2 - k]),
        decreases 3 - j,
    {
        let h = hex_digit(digits[2 * j]);
        let l = hex_digit(digits[2 * j + 1]);
        match (h, l) {
            (Some(h), Some(l)) => {
                assert(hex_pair(full, j as int) == Some((h * 16 + l) as u8));
                out[2 - j] = h * 16 + l;
            },
            _ => {
                proof {
                    lemma_hex_bytes_prefix(full, j as int);
                }
                return None;
            },
        }
        j = j + 1;
    }
    proof {
        lemma_hex_bytes_six(full);
        let b = spec_hex_bytes(full)->Some_0;
        assert(hex_pair(full, 0) == Some(out@[2]));
        assert(hex_pair(full, 1) == Some(out@[1]));
        assert(hex_pair(full, 2) == Some(out@[0]));
        assert(out@ =~= b.reverse());
    }
    Some(out)
}

/// A byte as two hexadecimal digits, most significant first.
pub open spec fn hex_byte_text(b: u8, upper: bool) -> Seq<u8> {
    seq![hex_char(b / 16, upper), hex_char(b % 16, upper)]
}

/// Three bytes written as colon-separated hexadecimal bytes ("CC:DD:EE").
pub open spec fn prefix_text(bytes: Seq<u8>, upper: bool) -> Seq<u8> {
    hex_byte_text(bytes[0], upper) + seq![0x3au8] + hex_byte_text(bytes[1], upper) + seq![0x3au8]
        + hex_byte_text(bytes[2], upper)
}

/// Any three bytes written as colon-separated hexadecimal bytes, in upper
/// or lower case, parse back to those bytes, least significant first.
pub proof fn lemma_tag_prefix_roundtrip(bytes: Seq<u8>, upper: bool)
    requires
        bytes.len() == 3,
    ensures
        spec_tag_prefix(prefix_text(bytes, upper)) == Some(bytes.reverse()),
{
    let c = |k: int| hex_char(bytes[k] / 16, upper);
    let d = |k: int| hex_char(bytes[k] % 16, upper);
    let text = seq![c(0), d(0), 0x3au8, c(1), d(1), 0x3au8, c(2), d(2)];
    let digits = seq![c(0), d(0), c(1), d(1), c(2), d(2)];
    assert(prefix_text(bytes, upper) =~= text);
    reveal_with_fuel(Seq::<_>::filter, 9);
    assert(text.drop_last() =~= seq![c(0), d(0), 0x3au8, c(1), d(1), 0x3au8, c(2)]);
    assert(text.drop_last().drop_last() =~= seq![c(0), d(0), 0x3au8, c(1), d(1), 0x3au8]);
    assert(text.drop_last().drop_last().drop_last() =~= seq![c(0), d(0), 0x3au8, c(1), d(1)]);
    assert(text.drop_last().drop_last().drop_last().drop_last() =~= seq![c(0), d(0), 0x3au8, c(1)]);
    assert(text.drop_last().drop_last().drop_last().drop_last().drop_last() =~= seq![c(0), d(0), 0x3au8]);
    assert(text.drop_last().drop_last().drop_last().drop_last().drop_last().drop_last() =~= seq![c(0), d(0)]);
    assert(seq![c(0), d(0)].drop_last() =~= seq![c(0)]);
    assert(seq![c(0)].drop_last() =~= Seq::<u8>::empty());
    assert(without_colons(text) =~= digits);
    assert forall|k: int| 0 <= k < 3 implies #[trigger] hex_pair(digits, k) == Some(bytes[k]) by {
        let b = bytes[k];
        assert(digits[2 * k] == c(k) && digits[2 * k + 1] == d(k));
        lemma_hex_digit_values(0, b / 16, upper);
        lemma_hex_digit_values(0, b % 16, upper);
        assert((b / 16) * 16 + b % 16 == b);
    }
    lemma_hex_bytes_six(digits);
    let parsed = spec_hex_bytes(digits)->Some_0;
    assert(parsed =~= bytes);
}

proof fn lemma_hex_bytes_prefix(digits: Seq<u8>, j: int)
    requires
        digits.len() == 6,
        0 <= j < 3,
        hex_pair(digits, j) is None,
    ensures
        spec_hex_bytes(digits) is None,
{
    reveal_with_fuel(spec_hex_bytes, 4);
    let d2 = digits.subrange(2, 6);
    let d4 = digits.subrange(4, 6);
    let d6 = digits.subrange(6, 6);
    assert(d2.subrange(2, 4) =~= d4);
    assert(d4.subrange(2, 2) =~= d6);
    assert(d2[0] == digits[2] && d2[1] == digits[3]);
    assert(d4[0] == digits[4] && d4[1] == digits[5]);
    assert(d2.subrange(2, d2.len() as int) == d4);
    assert(d4.subrange(2, d4.len() as int) == d6);
    assert(digits.subrange(2, digits.len() as int) == d2);
}

proof fn lemma_hex_bytes_six(digits: Seq<u8>)
    requires
        digits.len() == 6,
        forall|k: int| 0 <= k < 3 ==> #[trigger] hex_pair(digits, k) is Some,
    ensures
        spec_hex_bytes(digits) matches Some(b) && b.len() == 3 && forall|k: int| 0 <= k < 3 ==> Some(#[trigger] b[k]) == hex_pair(digits, k),
{
    reveal_with_fuel(spec_hex_bytes, 4);
    let d2 = digits.subrange(2, 6);
    let d4 = digits.subrange(4, 6);
    let d6 = digits.subrange(6, 6);
    assert(d2.subrange(2, 4) =~= d4);
    assert(d4.subrange(2, 2) =~= d6);
    assert(d2[0] == digits[2] && d2[1] == digits[3]);
    assert(d4[0] == digits[4] && d4[1] == digits[5]);
    assert(d2.subrange(2, d2.len() as int) == d4);
    assert(d4.subrange(2, d4.len() as int) == d6);
    assert(digits.subrange(2, digits.len() as int) == d2);
    assert(hex_pair(digits, 0) is Some);
    assert(hex_pair(digits, 1) is Some);
    assert(hex_pair(digits, 2) is Some);
}

} // verus!
