use vstd::prelude::*;
use crate::decimal::{append_decimal, decimal_of, in_i64_range, lemma_decimal_round_trip, parse_decimal, parse_decimal_at};
use crate::record::SoilMoistureData;
use crate::text::{find_char, has_char, literal_at};

verus! {

/// The fields of one relay message, with each reading as its decimal text.
#[derive(Debug, Clone, PartialEq, Eq)]
pub struct PayloadFields {
    pub device_id: String,
    pub moisture_level: String,
    pub temperature: String,
    pub ph_level: String,
    pub timestamp: i64,
}

pub open spec fn device_id_key() -> Seq<char> {
    "{\"device_id\":\""@
}

pub open spec fn moisture_key() -> Seq<char> {
    "\",\"moisture_level\":"@
}

pub open spec fn temperature_key() -> Seq<char> {
    ",\"temperature\":"@
}

pub open spec fn ph_key() -> Seq<char> {
    ",\"ph_level\":"@
}

pub open spec fn timestamp_key() -> Seq<char> {
    ",\"timestamp\":"@
}

pub open spec fn closing() -> Seq<char> {
    "}"@
}

/// The relay message: a flat JSON object with the five fields in order,
/// each value written verbatim.
#[verifier::opaque]
pub open spec fn payload_text(
    id: Seq<char>,
    moisture: Seq<char>,
    temperature: Seq<char>,
    ph: Seq<char>,
    timestamp: int,
) -> Seq<char> {
    device_id_key() + id + moisture_key() + moisture + temperature_key() + temperature + ph_key()
        + ph + timestamp_key() + decimal_of(timestamp) + closing()
}

/// Field values that the message format can carry and give back: a device
/// identifier without a double quote, and readings that are non-empty and
/// hold no comma.
pub open spec fn fields_well_formed(
    id: Seq<char>,
    moisture: Seq<char>,
    temperature: Seq<char>,
    ph: Seq<char>,
) -> bool {
    &&& !has_char(id, '"')
    &&& moisture.len() > 0 && !has_char(moisture, ',')
    &&& temperature.len() > 0 && !has_char(temperature, ',')
    &&& ph.len() > 0 && !has_char(ph, ',')
}

pub open spec fn fields_text(f: &PayloadFields) -> Seq<char> {
    payload_text(
        f.device_id@,
        f.moisture_level@,
        f.temperature@,
        f.ph_level@,
        f.timestamp as int,
    )
}

pub open spec fn fields_valid(f: &PayloadFields) -> bool {
    fields_well_formed(f.device_id@, f.moisture_level@, f.temperature@, f.ph_level@)
}

/// The message that relays a record.
pub open spec fn record_payload(d: &SoilMoistureData) -> Seq<char> {
    payload_text(
        d.device_id@,
        d.moisture_level.text@,
        d.temperature.text@,
        d.ph_level.text@,
        d.timestamp as int,
    )
}

/// Writes the relay message of a record.
pub fn encode_payload(d: &SoilMoistureData) -> (r: String)
    ensures
        r@ == record_payload(d),
{
    let mut out = String::new();
    out.append("{\"device_id\":\"");
    out.append(d.device_id.as_str());
    out.append("\",\"moisture_level\":");
    out.append(d.moisture_level.text.as_str());
    out.append(",\"temperature\":");
    out.append(d.temperature.text.as_str());
    out.append(",\"ph_level\":");
    out.append(d.ph_level.text.as_str());
    out.append(",\"timestamp\":");
    append_decimal(&mut out, d.timestamp);
    out.append("}");
    proof {
        reveal(payload_text);
    }
    out
}

/// `x` lists the fields, in message order, that `s` is the message of.
pub open spec fn decomposes(s: Seq<char>, x: (Seq<char>, Seq<char>, Seq<char>, Seq<char>, int)) -> bool {
    &&& in_i64_range(x.4)
    &&& fields_well_formed(x.0, x.1, x.2, x.3)
    &&& s == payload_text(x.0, x.1, x.2, x.3, x.4)
}

/// Whether `s` is the message of some well-formed fields.
pub open spec fn is_payload(s: Seq<char>) -> bool {
    exists|x: (Seq<char>, Seq<char>, Seq<char>, Seq<char>, int)| #[trigger] decomposes(s, x)
}

proof fn lemma_key_facts()
    ensures
        device_id_key().len() == 14,
        moisture_key().len() == 19 && moisture_key()[0] == '"',
        temperature_key().len() == 15 && temperature_key()[0] == ',',
        ph_key().len() == 12 && ph_key()[0] == ',',
        timestamp_key().len() == 13 && timestamp_key()[0] == ',',
        closing() == seq!['}'],
{
    reveal_strlit("{\"device_id\":\"");
    reveal_strlit("\",\"moisture_level\":");
    reveal_strlit(",\"temperature\":");
    reveal_strlit(",\"ph_level\":");
    reveal_strlit(",\"timestamp\":");
    reveal_strlit("}");
}

/// Each part of the message of `x` stands in `s` where it belongs.
pub open spec fn parts_at(s: Seq<char>, x: (Seq<char>, Seq<char>, Seq<char>, Seq<char>, int)) -> bool {
    let a1: int = 14 + x.0.len() as int;
    let b0: int = a1 + 19;
    let b1: int = b0 + x.1.len();
    let c0: int = b1 + 15;
    let c1: int = c0 + x.2.len();
    let d0: int = c1 + 12;
    let d1: int = d0 + x.3.len();
    let e0: int = d1 + 13;
    let e1: int = e0 + decimal_of(x.4).len();
    &&& s.len() == e1 + 1
    &&& s.subrange(0, 14) == device_id_key()
    &&& s.subrange(14, a1) == x.0
    &&& s.subrange(a1, b0) == moisture_key()
    &&& s.subrange(b0, b1) == x.1
    &&& s.subrange(b1, c0) == temperature_key()
    &&& s.subrange(c0, c1) == x.2
    &&& s.subrange(c1, d0) == ph_key()
    &&& s.subrange(d0, d1) == x.3
    &&& s.subrange(d1, e0) == timestamp_key()
    &&& s.subrange(e0, e1) == decimal_of(x.4)
    &&& s[e1] == '}'
}

/// Where each part of a message stands.
proof fn lemma_payload_parts(s: Seq<char>, x: (Seq<char>, Seq<char>, Seq<char>, Seq<char>, int))
    requires
        s == payload_text(x.0, x.1, x.2, x.3, x.4),
    ensures
        parts_at(s, x),
{
    reveal(payload_text);
    lemma_key_facts();
    let a1: int = 14 + x.0.len() as int;
    let b0: int = a1 + 19;
    let b1: int = b0 + x.1.len();
    let c0: int = b1 + 15;
    let c1: int = c0 + x.2.len();
    let d0: int = c1 + 12;
    let d1: int = d0 + x.3.len();
    let e0: int = d1 + 13;
    let e1: int = e0 + decimal_of(x.4).len();
    assert(s.subrange(0, 14) =~= device_id_key());
    assert(s.subrange(14, a1) =~= x.0);
    assert(s.subrange(a1, b0) =~= moisture_key());
    assert(s.subrange(b0, b1) =~= x.1);
    assert(s.subrange(b1, c0) =~= temperature_key());
    assert(s.subrange(c0, c1) =~= x.2);
    assert(s.subrange(c1, d0) =~= ph_key());
    assert(s.subrange(d0, d1) =~= x.3);
    assert(s.subrange(d1, e0) =~= timestamp_key());
    assert(s.subrange(e0, e1) =~= decimal_of(x.4));
}

/// A text whose parts all stand where they belong is the message.
proof fn lemma_payload_from_parts(s: Seq<char>, x: (Seq<char>, Seq<char>, Seq<char>, Seq<char>, int))
    requires
        parts_at(s, x),
    ensures
        s == payload_text(x.0, x.1, x.2, x.3, x.4),
{
    reveal(payload_text);
    lemma_key_facts();
    let e1: int = s.len() - 1;
    assert(s.subrange(e1, e1 + 1) =~= closing());
    assert(s =~= payload_text(x.0, x.1, x.2, x.3, x.4));
}

proof fn lemma_char_absent(s: Seq<char>, lo: int, hi: int, c: char)
    requires
        0 <= lo <= hi <= s.len(),
        forall|k: int| lo <= k < hi ==> s[k] != c,
    ensures
        !has_char(s.subrange(lo, hi), c),
{
    if has_char(s.subrange(lo, hi), c) {
        let i = choose|i: int| 0 <= i < hi - lo && s.subrange(lo, hi)[i] == c;
        assert(s[lo + i] == c);
    }
}

/// Two positions of a character that a range in between does not hold.
proof fn lemma_first_at(s: Seq<char>, lo: int, i: int, j: int, c: char)
    requires
        0 <= lo <= i < s.len(),
        lo <= j < s.len(),
        s[i] == c,
        s[j] == c,
        !has_char(s.subrange(lo, i), c),
        !has_char(s.subrange(lo, j), c),
    ensures
        i == j,
{
    if i < j {
        assert(s.subrange(lo, j)[i - lo] == c);
    } else if j < i {
        assert(s.subrange(lo, i)[j - lo] == c);
    }
}

/// A message has one reading only: the fields it was written from.
pub proof fn lemma_decomposition_unique(
    s: Seq<char>,
    x: (Seq<char>, Seq<char>, Seq<char>, Seq<char>, int),
    y: (Seq<char>, Seq<char>, Seq<char>, Seq<char>, int),
)
    requires
        decomposes(s, x),
        decomposes(s, y),
    ensures
        x == y,
{
    lemma_key_facts();
    lemma_payload_parts(s, x);
    lemma_payload_parts(s, y);
    let xa1: int = 14 + x.0.len() as int;
    let ya1: int = 14 + y.0.len() as int;
    assert(s[xa1] == moisture_key()[0]);
    assert(s[ya1] == moisture_key()[0]);
    lemma_first_at(s, 14, xa1, ya1, '"');
    assert(x.0 == y.0);
    let b0: int = xa1 + 19;
    let xb1: int = b0 + x.1.len();
    let yb1: int = b0 + y.1.len();
    assert(s[xb1] == temperature_key()[0]);
    assert(s[yb1] == temperature_key()[0]);
    lemma_first_at(s, b0, xb1, yb1, ',');
    assert(x.1 == y.1);
    let c0: int = xb1 + 15;
    let xc1: int = c0 + x.2.len();
    let yc1: int = c0 + y.2.len();
    assert(s[xc1] == ph_key()[0]);
    assert(s[yc1] == ph_key()[0]);
    lemma_first_at(s, c0, xc1, yc1, ',');
    assert(x.2 == y.2);
    let d0: int = xc1 + 12;
    let xd1: int = d0 + x.3.len();
    let yd1: int = d0 + y.3.len();
    assert(s[xd1] == timestamp_key()[0]);
    assert(s[yd1] == timestamp_key()[0]);
    lemma_first_at(s, d0, xd1, yd1, ',');
    assert(x.3 == y.3);
    let e0: int = xd1 + 13;
    assert(decimal_of(x.4) == s.subrange(e0, s.len() - 1));
    assert(decimal_of(y.4) == s.subrange(e0, s.len() - 1));
    lemma_decimal_round_trip(x.4);
    lemma_decimal_round_trip(y.4);
}

/// Reads a relay message back into its fields: `None` exactly when the
/// text is not the message of any well-formed fields.
pub fn decode_payload(s: &str) -> (r: Option<PayloadFields>)
    ensures
        match r {
            Some(f) => fields_valid(&f) && s@ == fields_text(&f),
            None => !is_payload(s@),
        },
{
    proof {
        lemma_key_facts();
    }
    let ghost x = choose|x: (Seq<char>, Seq<char>, Seq<char>, Seq<char>, int)| decomposes(s@, x);
    let ghost a1: int = 14 + x.0.len() as int;
    let ghost b0: int = a1 + 19;
    let ghost b1: int = b0 + x.1.len();
    let ghost c0: int = b1 + 15;
    let ghost c1: int = c0 + x.2.len();
    let ghost d0: int = c1 + 12;
    let ghost d1: int = d0 + x.3.len();
    let ghost e0: int = d1 + 13;
    let ghost e1: int = e0 + decimal_of(x.4).len();
    proof {
        if is_payload(s@) {
            lemma_payload_parts(s@, x);
            lemma_decimal_round_trip(x.4);
            assert(s@[a1] == moisture_key()[0]);
            assert(s@[b1] == temperature_key()[0]);
            assert(s@[c1] == ph_key()[0]);
            assert(s@[d1] == timestamp_key()[0]);
        }
    }
    let n = s.unicode_len();
    if !literal_at(s, n, 0, "{\"device_id\":\"") {
        return None;
    }
    let q = find_char(s, n, 14, '"');
    proof {
        if is_payload(s@) {
            if q < a1 {
                assert(x.0[q - 14] == s@.subrange(14, a1)[q - 14]);
            }
        }
    }
    if q == n || !literal_at(s, n, q, "\",\"moisture_level\":") {
        return None;
    }
    let m0 = q + 19;
    let m1 = find_char(s, n, m0, ',');
    proof {
        if is_payload(s@) {
            if m1 < b1 {
                assert(x.1[m1 - b0] == s@.subrange(b0, b1)[m1 - b0]);
            }
        }
    }
    if m1 == n || m1 == m0 || !literal_at(s, n, m1, ",\"temperature\":") {
        return None;
    }
    let t0 = m1 + 15;
    let t1 = find_char(s, n, t0, ',');
    proof {
        if is_payload(s@) {
            if t1 < c1 {
                assert(x.2[t1 - c0] == s@.subrange(c0, c1)[t1 - c0]);
            }
        }
    }
    if t1 == n || t1 == t0 || !literal_at(s, n, t1, ",\"ph_level\":") {
        return None;
    }
    let p0 = t1 + 12;
    let p1 = find_char(s, n, p0, ',');
    proof {
        if is_payload(s@) {
            if p1 < d1 {
                assert(x.3[p1 - d0] == s@.subrange(d0, d1)[p1 - d0]);
            }
        }
    }
    if p1 == n || p1 == p0 || !literal_at(s, n, p1, ",\"timestamp\":") {
        return None;
    }
    let z0 = p1 + 13;
    if z0 >= n || s.get_char(n - 1) != '}' {
        return None;
    }
    let timestamp = match parse_decimal_at(s, z0, n - 1) {
        Some(t) => t,
        None => {
            return None;
        },
    };
    let mut canonical = String::new();
    append_decimal(&mut canonical, timestamp);
    if !literal_at(s, n, z0, canonical.as_str()) || z0 + canonical.unicode_len() != n - 1 {
        return None;
    }
    let f = PayloadFields {
        device_id: String::from_str(s.substring_char(14, q)),
        moisture_level: String::from_str(s.substring_char(m0, m1)),
        temperature: String::from_str(s.substring_char(t0, t1)),
        ph_level: String::from_str(s.substring_char(p0, p1)),
        timestamp,
    };
    proof {
        lemma_char_absent(s@, 14, q as int, '"');
        lemma_char_absent(s@, m0 as int, m1 as int, ',');
        lemma_char_absent(s@, t0 as int, t1 as int, ',');
        lemma_char_absent(s@, p0 as int, p1 as int, ',');
        let y = (f.device_id@, f.moisture_level@, f.temperature@, f.ph_level@, timestamp as int);
        assert(canonical@ == decimal_of(timestamp as int));
        lemma_payload_from_parts(s@, y);
    }
    Some(f)
}

} // verus!
