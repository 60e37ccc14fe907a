//! The wire format of the two streams: UTF-8 JSON, framed by the library
//! itself so that every byte a publisher emits is pinned by a specification.
//!
//! Identifiers travel as lowercase hyphenated UUID strings, instants as
//! RFC 3339 UTC text with whole seconds, and measurement values as plain
//! decimals (micro-units scaled back to units).
use vstd::prelude::*;
use vstd::string::StringSliceAdditionalSpecFns;

use crate::calendar::Timestamp;
use crate::envelope::{
    DevicePayloadModel, MeasurementMessage, SyncEnvelope, SyncEnvelopeModel, UserCreatedEvent,
    UserCreatedEventModel,
};

verus! {

// ---------------------------------------------------------------------------
// Building blocks
// ---------------------------------------------------------------------------
fn push_slice(out: &mut Vec<u8>, s: &[u8])
    ensures
        final(out)@ == old(out)@ + s@,
{
    let mut i: usize = 0;
    while i < s.len()
        invariant
            i <= s@.len(),
            out@ == old(out)@ + s@.take(i as int),
        decreases s@.len() - i,
    {
        let b: u8 = *vstd::slice::slice_index_get(s, i);
        out.push(b);
        proof {
            assert(s@.take(i + 1 as int) =~= s@.take(i as int).push(s@[i as int]));
            assert(out@ =~= old(out)@ + s@.take(i + 1 as int));
        }
        i = i + 1;
    }
    proof {
        assert(s@.take(s@.len() as int) =~= s@);
    }
}

/// Appends an ASCII literal; its bytes are the literal's UTF-8 bytes.
fn push_lit(out: &mut Vec<u8>, s: &str)
    ensures
        final(out)@ == old(out)@ + s.spec_bytes(),
{
    push_slice(out, s.as_bytes());
}

pub open spec fn digit(d: nat) -> u8 {
    (48 + d) as u8
}

pub open spec fn hex_digit(d: nat) -> u8 {
    if d < 10 {
        (48 + d) as u8
    } else {
        (87 + d) as u8
    }
}

/// The decimal digits of `n`, most significant first.
pub open spec fn dec_u(n: nat) -> Seq<u8>
    decreases n,
{
    if n < 10 {
        seq![digit(n)]
    } else {
        dec_u(n / 10).push(digit(n % 10))
    }
}

/// The decimal text of a signed integer.
pub open spec fn dec_int(v: int) -> Seq<u8> {
    if v < 0 {
        seq![45u8] + dec_u((-v) as nat)
    } else {
        dec_u(v as nat)
    }
}

fn exec_digit(d: u8) -> (r: u8)
    requires
        d < 10,
    ensures
        r == digit(d as nat),
{
    48 + d
}

fn exec_hex_digit(d: u8) -> (r: u8)
    requires
        d < 16,
    ensures
        r == hex_digit(d as nat),
{
    if d < 10 {
        48 + d
    } else {
        87 + d
    }
}

fn push_dec_u64(out: &mut Vec<u8>, n: u64)
    ensures
        final(out)@ == old(out)@ + dec_u(n as nat),
    decreases n,
{
    if n < 10 {
        out.push(exec_digit(n as u8));
    } else {
        push_dec_u64(out, n / 10);
        out.push(exec_digit((n % 10) as u8));
    }
}

fn push_dec_i32(out: &mut Vec<u8>, v: i32)
    ensures
        final(out)@ == old(out)@ + dec_int(v as int),
{
    let wide: i64 = v as i64;
    if wide < 0 {
        out.push(45);
        push_dec_u64(out, (-wide) as u64);
    } else {
        push_dec_u64(out, wide as u64);
    }
}

// ---------------------------------------------------------------------------
// Measurement values: micro-units as a plain decimal
// ---------------------------------------------------------------------------
/// Drops trailing zero digits.
pub open spec fn trim_zeros(s: Seq<u8>) -> Seq<u8>
    decreases s.len(),
{
    if s.len() > 0 && s.last() == 48u8 {
        trim_zeros(s.drop_last())
    } else {
        s
    }
}

/// The six zero-padded digits of a fraction of a unit, `0 <= f < 1000000`.
pub open spec fn pad6(f: nat) -> Seq<u8> {
    seq![
        digit(f / 100000 % 10),
        digit(f / 10000 % 10),
        digit(f / 1000 % 10),
        digit(f / 100 % 10),
        digit(f / 10 % 10),
        digit(f % 10),
    ]
}

/// The decimal text of a non-negative number of micro-units: the whole part,
/// then — only when the fraction is non-zero — a point and the fraction's
/// digits with trailing zeros dropped.
pub open spec fn micro_decimal_nn(v: nat) -> Seq<u8> {
    let whole = v / 1000000;
    let frac = v % 1000000;
    if frac == 0 {
        dec_u(whole)
    } else {
        dec_u(whole) + seq![46u8] + trim_zeros(pad6(frac))
    }
}

/// The decimal text of a (possibly negative) number of micro-units.
pub open spec fn micro_decimal(v: int) -> Seq<u8> {
    if v < 0 {
        seq![45u8] + micro_decimal_nn((-v) as nat)
    } else {
        micro_decimal_nn(v as nat)
    }
}

fn push_micro_decimal_nn(out: &mut Vec<u8>, v: u64)
    ensures
        final(out)@ == old(out)@ + micro_decimal_nn(v as nat),
{
    let whole: u64 = v / 1000000;
    let frac: u64 = v % 1000000;
    push_dec_u64(out, whole);
    if frac != 0 {
        out.push(46);
        let mut digits: Vec<u8> = Vec::new();
        digits.push(exec_digit((frac / 100000 % 10) as u8));
        digits.push(exec_digit((frac / 10000 % 10) as u8));
        digits.push(exec_digit((frac / 1000 % 10) as u8));
        digits.push(exec_digit((frac / 100 % 10) as u8));
        digits.push(exec_digit((frac / 10 % 10) as u8));
        digits.push(exec_digit((frac % 10) as u8));
        proof {
            assert(digits@ =~= pad6(frac as nat));
        }
        while digits.len() > 0 && digits[digits.len() - 1] == 48
            invariant
                trim_zeros(digits@) == trim_zeros(pad6(frac as nat)),
            decreases digits@.len(),
        {
            let ghost before = digits@;
            digits.pop();
            proof {
                assert(digits@ =~= before.drop_last());
            }
        }
        push_slice(out, digits.as_slice());
        proof {
            assert(out@ =~= old(out)@ + micro_decimal_nn(v as nat));
        }
    }
}

/// Appends the decimal text of a signed number of micro-units.
pub fn push_micro_decimal(out: &mut Vec<u8>, v: i64)
    ensures
        final(out)@ == old(out)@ + micro_decimal(v as int),
{
    if v < 0 {
        out.push(45);
        if v == i64::MIN {
            // -v does not fit an i64; widen first
            let wide: u64 = 9223372036854775808u64;
            push_micro_decimal_nn(out, wide);
        } else {
            push_micro_decimal_nn(out, (-v) as u64);
        }
    } else {
        push_micro_decimal_nn(out, v as u64);
    }
}

// ---------------------------------------------------------------------------
// UUID text
// ---------------------------------------------------------------------------
/// The last `count` lowercase hex digits of `id`, most significant first.
pub open spec fn hex_seq(id: u128, count: nat) -> Seq<u8>
    decreases count,
{
    if count == 0 {
        Seq::empty()
    } else {
        hex_seq(id / 16, (count - 1) as nat).push(hex_digit((id % 16) as nat))
    }
}

/// The lowercase hyphenated text form of a 128-bit identifier, in the usual
/// 8-4-4-4-12 grouping.
pub open spec fn uuid_str(id: u128) -> Seq<u8> {
    let h = hex_seq(id, 32);
    h.subrange(0, 8) + seq![45u8] + h.subrange(8, 12) + seq![45u8] + h.subrange(12, 16)
        + seq![45u8] + h.subrange(16, 20) + seq![45u8] + h.subrange(20, 32)
}

proof fn lemma_hex_seq_len(id: u128, count: nat)
    ensures
        hex_seq(id, count).len() == count,
    decreases count,
{
    if count > 0 {
        lemma_hex_seq_len(id / 16, (count - 1) as nat);
    }
}

fn push_hex(out: &mut Vec<u8>, id: u128, count: u32)
    ensures
        final(out)@ == old(out)@ + hex_seq(id, count as nat),
    decreases count,
{
    if count > 0 {
        push_hex(out, id / 16, count - 1);
        out.push(exec_hex_digit((id % 16) as u8));
    }
}

fn push_range(out: &mut Vec<u8>, v: &Vec<u8>, from: usize, to: usize)
    requires
        from <= to <= v@.len(),
    ensures
        final(out)@ == old(out)@ + v@.subrange(from as int, to as int),
{
    let mut i: usize = from;
    while i < to
        invariant
            from <= i <= to <= v@.len(),
            out@ == old(out)@ + v@.subrange(from as int, i as int),
        decreases to - i,
    {
        out.push(v[i]);
        proof {
            assert(v@.subrange(from as int, i + 1 as int) =~= v@.subrange(
                from as int,
                i as int,
            ).push(v@[i as int]));
            assert(out@ =~= old(out)@ + v@.subrange(from as int, i + 1 as int));
        }
        i = i + 1;
    }
}

/// Appends the hyphenated text of an identifier.
pub fn push_uuid(out: &mut Vec<u8>, id: u128)
    ensures
        final(out)@ == old(out)@ + uuid_str(id),
{
    let mut h: Vec<u8> = Vec::new();
    push_hex(&mut h, id, 32);
    proof {
        lemma_hex_seq_len(id, 32);
        assert(h@ =~= hex_seq(id, 32));
    }
    push_range(out, &h, 0, 8);
    out.push(45);
    push_range(out, &h, 8, 12);
    out.push(45);
    push_range(out, &h, 12, 16);
    out.push(45);
    push_range(out, &h, 16, 20);
    out.push(45);
    push_range(out, &h, 20, 32);
    proof {
        assert(out@ =~= old(out)@ + uuid_str(id));
    }
}

// ---------------------------------------------------------------------------
// JSON strings
// ---------------------------------------------------------------------------
/// How one byte of a string value is written: quote and backslash get a
/// backslash escape, control bytes a `\u00..` escape, everything else itself.
pub open spec fn escape_byte(b: u8) -> Seq<u8> {
    if b == 34 {
        seq![92u8, 34u8]
    } else if b == 92 {
        seq![92u8, 92u8]
    } else if b < 32 {
        seq![92u8, 117u8, 48u8, 48u8, hex_digit((b / 16) as nat), hex_digit((b % 16) as nat)]
    } else {
        seq![b]
    }
}

pub open spec fn json_escaped(s: Seq<u8>) -> Seq<u8>
    decreases s.len(),
{
    if s.len() == 0 {
        Seq::empty()
    } else {
        json_escaped(s.drop_last()) + escape_byte(s.last())
    }
}

/// A JSON string value: quoted, escaped content.
pub open spec fn json_string(s: Seq<u8>) -> Seq<u8> {
    seq![34u8] + json_escaped(s) + seq![34u8]
}

fn push_escaped(out: &mut Vec<u8>, s: &Vec<u8>)
    ensures
        final(out)@ == old(out)@ + json_escaped(s@),
{
    let mut i: usize = 0;
    while i < s.len()
        invariant
            i <= s@.len(),
            out@ == old(out)@ + json_escaped(s@.take(i as int)),
        decreases s@.len() - i,
    {
        let b: u8 = s[i];
        if b == 34 {
            out.push(92);
            out.push(34);
        } else if b == 92 {
            out.push(92);
            out.push(92);
        } else if b < 32 {
            out.push(92);
            out.push(117);
            out.push(48);
            out.push(48);
            out.push(exec_hex_digit(b / 16));
            out.push(exec_hex_digit(b % 16));
        } else {
            out.push(b);
        }
        proof {
            assert(s@.take(i + 1 as int).drop_last() =~= s@.take(i as int));
            assert(s@.take(i + 1 as int).last() == s@[i as int]);
            assert(out@ =~= old(out)@ + json_escaped(s@.take(i + 1 as int)));
        }
        i = i + 1;
    }
    proof {
        assert(s@.take(s@.len() as int) =~= s@);
    }
}

/// Appends a quoted, escaped JSON string value.
pub fn push_json_string(out: &mut Vec<u8>, s: &Vec<u8>)
    ensures
        final(out)@ == old(out)@ + json_string(s@),
{
    out.push(34);
    push_escaped(out, s);
    out.push(34);
    proof {
        assert(out@ =~= old(out)@ + json_string(s@));
    }
}

// ---------------------------------------------------------------------------
// RFC 3339 instants
// ---------------------------------------------------------------------------
pub open spec fn two_digits(n: nat) -> Seq<u8> {
    seq![digit(n / 10 % 10), digit(n % 10)]
}

pub open spec fn four_digits(n: nat) -> Seq<u8> {
    seq![digit(n / 1000 % 10), digit(n / 100 % 10), digit(n / 10 % 10), digit(n % 10)]
}

/// `YYYY-MM-DDThh:mm:ssZ`: the one instant form this wire format uses.
pub open spec fn rfc3339_bytes(ts: Timestamp) -> Seq<u8> {
    four_digits(ts.date.year as nat) + seq![45u8] + two_digits(ts.date.month as nat) + seq![45u8]
        + two_digits(ts.date.day as nat) + seq![84u8] + two_digits(ts.hour as nat) + seq![58u8]
        + two_digits(ts.minute as nat) + seq![58u8] + two_digits(ts.second as nat) + seq![90u8]
}

fn push_two_digits(out: &mut Vec<u8>, n: u8)
    ensures
        final(out)@ == old(out)@ + two_digits(n as nat),
{
    out.push(exec_digit(n / 10 % 10));
    out.push(exec_digit(n % 10));
    proof {
        assert(out@ =~= old(out)@ + two_digits(n as nat));
    }
}

fn push_four_digits(out: &mut Vec<u8>, n: u16)
    ensures
        final(out)@ == old(out)@ + four_digits(n as nat),
{
    out.push(exec_digit((n / 1000 % 10) as u8));
    out.push(exec_digit((n / 100 % 10) as u8));
    out.push(exec_digit((n / 10 % 10) as u8));
    out.push(exec_digit((n % 10) as u8));
    proof {
        assert(out@ =~= old(out)@ + four_digits(n as nat));
    }
}

/// Appends the RFC 3339 text of an instant.
pub fn push_rfc3339(out: &mut Vec<u8>, ts: Timestamp)
    ensures
        final(out)@ == old(out)@ + rfc3339_bytes(ts),
{
    push_four_digits(out, ts.date.year);
    out.push(45);
    push_two_digits(out, ts.date.month);
    out.push(45);
    push_two_digits(out, ts.date.day);
    out.push(84);
    push_two_digits(out, ts.hour);
    out.push(58);
    push_two_digits(out, ts.minute);
    out.push(58);
    push_two_digits(out, ts.second);
    out.push(90);
    proof {
        assert(out@ =~= old(out)@ + rfc3339_bytes(ts));
    }
}

// ---------------------------------------------------------------------------
// Whole messages
// ---------------------------------------------------------------------------
pub open spec fn null_bytes() -> Seq<u8> {
    "null".spec_bytes()
}

pub open spec fn json_opt_uuid(o: Option<u128>) -> Seq<u8> {
    match o {
        Some(id) => seq![34u8] + uuid_str(id) + seq![34u8],
        None => null_bytes(),
    }
}

pub open spec fn json_opt_i32(o: Option<i32>) -> Seq<u8> {
    match o {
        Some(v) => dec_int(v as int),
        None => null_bytes(),
    }
}

/// The JSON text of one measurement message.
pub open spec fn measurement_json(m: MeasurementMessage) -> Seq<u8> {
    "{\"device_id\":\"".spec_bytes() + uuid_str(m.device_id)
        + "\",\"measurement_value\":".spec_bytes() + micro_decimal(m.value_micro as int)
        + ",\"timestamp\":\"".spec_bytes() + rfc3339_bytes(m.timestamp) + "\"}".spec_bytes()
}

/// The JSON text of a lifecycle payload; the metadata object's text is
/// spliced in verbatim.
pub open spec fn payload_json(p: DevicePayloadModel) -> Seq<u8> {
    "{\"id\":\"".spec_bytes() + uuid_str(p.id) + "\",\"user_id\":".spec_bytes() + json_opt_uuid(
        p.user_id,
    ) + ",\"name\":".spec_bytes() + json_string(p.name) + ",\"max_consumption\":".spec_bytes()
        + json_opt_i32(p.max_consumption) + ",\"metadata\":".spec_bytes() + p.metadata
        + "}".spec_bytes()
}

/// The JSON text of one lifecycle envelope.
pub open spec fn envelope_json(e: SyncEnvelopeModel) -> Seq<u8> {
    "{\"event_type\":".spec_bytes() + json_string(e.event_type) + ",\"user_id\":".spec_bytes()
        + json_opt_uuid(e.user_id) + ",\"device_id\":".spec_bytes() + json_opt_uuid(e.device_id)
        + ",\"payload\":".spec_bytes() + (match e.payload {
        Some(p) => payload_json(p),
        None => null_bytes(),
    }) + "}".spec_bytes()
}

fn push_opt_uuid(out: &mut Vec<u8>, o: &Option<u128>)
    ensures
        final(out)@ == old(out)@ + json_opt_uuid(*o),
{
    match o {
        Some(id) => {
            out.push(34);
            push_uuid(out, *id);
            out.push(34);
            proof {
                assert(out@ =~= old(out)@ + json_opt_uuid(*o));
            }
        },
        None => {
            push_lit(out, "null");
        },
    }
}

/// Serializes one measurement message to its wire bytes.
pub fn encode_measurement(m: &MeasurementMessage) -> (r: Vec<u8>)
    ensures
        r@ == measurement_json(*m),
{
    let mut out: Vec<u8> = Vec::new();
    push_lit(&mut out, "{\"device_id\":\"");
    push_uuid(&mut out, m.device_id);
    push_lit(&mut out, "\",\"measurement_value\":");
    push_micro_decimal(&mut out, m.value_micro);
    push_lit(&mut out, ",\"timestamp\":\"");
    push_rfc3339(&mut out, m.timestamp);
    push_lit(&mut out, "\"}");
    proof {
        assert(out@ =~= measurement_json(*m));
    }
    out
}

/// Serializes one lifecycle envelope to its wire bytes.
#[verifier::rlimit(100)]
pub fn encode_sync_envelope(e: &SyncEnvelope) -> (r: Vec<u8>)
    ensures
        r@ == envelope_json(e@),
{
    let mut out: Vec<u8> = Vec::new();
    push_lit(&mut out, "{\"event_type\":");
    push_json_string(&mut out, &e.event_type);
    push_lit(&mut out, ",\"user_id\":");
    push_opt_uuid(&mut out, &e.user_id);
    push_lit(&mut out, ",\"device_id\":");
    push_opt_uuid(&mut out, &e.device_id);
    push_lit(&mut out, ",\"payload\":");
    match &e.payload {
        Some(p) => {
            push_lit(&mut out, "{\"id\":\"");
            push_uuid(&mut out, p.id);
            push_lit(&mut out, "\",\"user_id\":");
            push_opt_uuid(&mut out, &p.user_id);
            push_lit(&mut out, ",\"name\":");
            push_json_string(&mut out, &p.name);
            push_lit(&mut out, ",\"max_consumption\":");
            match p.max_consumption {
                Some(v) => push_dec_i32(&mut out, v),
                None => push_lit(&mut out, "null"),
            }
            push_lit(&mut out, ",\"metadata\":");
            push_slice(&mut out, p.metadata.as_slice());
            push_lit(&mut out, "}");
            proof {
                assert(out@ =~= "{\"event_type\":".spec_bytes() + json_string(e@.event_type)
                    + ",\"user_id\":".spec_bytes() + json_opt_uuid(e@.user_id)
                    + ",\"device_id\":".spec_bytes() + json_opt_uuid(e@.device_id)
                    + ",\"payload\":".spec_bytes() + payload_json(e@.payload->0));
            }
        },
        None => {
            push_lit(&mut out, "null");
        },
    }
    push_lit(&mut out, "}");
    proof {
        assert(out@ =~= envelope_json(e@));
    }
    out
}

/// The bytes of a unit-of-energy tag.
pub open spec fn unit_tag_bytes(u: crate::prefs::UnitEnergy) -> Seq<u8> {
    match u {
        crate::prefs::UnitEnergy::KWH => "KWH".spec_bytes(),
        crate::prefs::UnitEnergy::WH => "WH".spec_bytes(),
    }
}

/// The bytes of a home-type tag.
pub open spec fn home_tag_bytes(h: crate::prefs::HomeType) -> Seq<u8> {
    match h {
        crate::prefs::HomeType::APARTMENT => "APARTMENT".spec_bytes(),
        crate::prefs::HomeType::HOUSE => "HOUSE".spec_bytes(),
        crate::prefs::HomeType::OFFICE => "OFFICE".spec_bytes(),
        crate::prefs::HomeType::INDUSTRIAL => "INDUSTRIAL".spec_bytes(),
    }
}

/// The JSON text of one user-created envelope.
pub open spec fn user_created_json(e: UserCreatedEventModel) -> Seq<u8> {
    "{\"event_type\":\"USER_CREATED\",\"user_id\":\"".spec_bytes() + uuid_str(e.user_id)
        + "\",\"payload\":{\"id\":\"".spec_bytes() + uuid_str(e.payload.id)
        + "\",\"username\":".spec_bytes() + json_string(e.payload.username)
        + ",\"default_unit\":\"".spec_bytes() + unit_tag_bytes(e.payload.default_unit)
        + "\",\"default_home_type\":\"".spec_bytes() + home_tag_bytes(e.payload.default_home_type)
        + "\",\"default_goal\":".spec_bytes() + dec_int(e.payload.default_goal as int)
        + "}}".spec_bytes()
}

fn push_dec_i64(out: &mut Vec<u8>, v: i64)
    ensures
        final(out)@ == old(out)@ + dec_int(v as int),
{
    let wide: i128 = v as i128;
    if wide < 0 {
        out.push(45);
        push_dec_u64(out, (-wide) as u64);
    } else {
        push_dec_u64(out, wide as u64);
    }
}

/// Serializes one user-created envelope to its wire bytes.
#[verifier::rlimit(100)]
pub fn encode_user_created(e: &UserCreatedEvent) -> (r: Vec<u8>)
    ensures
        r@ == user_created_json(e@),
{
    let mut out: Vec<u8> = Vec::new();
    push_lit(&mut out, "{\"event_type\":\"USER_CREATED\",\"user_id\":\"");
    push_uuid(&mut out, e.user_id);
    push_lit(&mut out, "\",\"payload\":{\"id\":\"");
    push_uuid(&mut out, e.payload.id);
    push_lit(&mut out, "\",\"username\":");
    push_json_string(&mut out, &e.payload.username);
    push_lit(&mut out, ",\"default_unit\":\"");
    push_lit(&mut out, e.payload.default_unit.as_str());
    push_lit(&mut out, "\",\"default_home_type\":\"");
    push_lit(&mut out, e.payload.default_home_type.as_str());
    push_lit(&mut out, "\",\"default_goal\":");
    push_dec_i64(&mut out, e.payload.default_goal);
    push_lit(&mut out, "}}");
    proof {
        assert(out@ =~= user_created_json(e@));
    }
    out
}

// ---------------------------------------------------------------------------
// Parsing UUID text
// ---------------------------------------------------------------------------
pub open spec fn pow16(k: nat) -> nat
    decreases k,
{
    if k == 0 {
        1nat
    } else {
        16 * pow16((k - 1) as nat)
    }
}

/// A byte of canonical lowercase hex text.
pub open spec fn is_hex_byte(b: u8) -> bool {
    (48 <= b <= 57) || (97 <= b <= 102)
}

/// The value of a canonical hex byte.
pub open spec fn inv_hex(b: u8) -> nat
    recommends
        is_hex_byte(b),
{
    if b <= 57 {
        (b - 48) as nat
    } else {
        (b - 87) as nat
    }
}

/// The value of a string of hex digits, most significant first.
pub open spec fn hex_val(s: Seq<u8>) -> nat
    decreases s.len(),
{
    if s.len() == 0 {
        0nat
    } else {
        hex_val(s.drop_last()) * 16 + inv_hex(s.last())
    }
}

proof fn lemma_pow16_mono(a: nat, b: nat)
    requires
        a <= b,
    ensures
        pow16(a) <= pow16(b),
        pow16(a) > 0,
    decreases b,
{
    if a == b {
        if a > 0 {
            lemma_pow16_mono((a - 1) as nat, (a - 1) as nat);
        }
    } else {
        lemma_pow16_mono(a, (b - 1) as nat);
    }
}

proof fn lemma_pow16_32()
    ensures
        pow16(32) == 0x100000000000000000000000000000000,
{
    reveal_with_fuel(pow16, 33);
}

proof fn lemma_hex_val_bound(s: Seq<u8>)
    requires
        forall|i: int| 0 <= i < s.len() ==> is_hex_byte(#[trigger] s[i]),
    ensures
        hex_val(s) < pow16(s.len()),
    decreases s.len(),
{
    if s.len() == 0 {
    } else {
        lemma_hex_val_bound(s.drop_last());
        let p = hex_val(s.drop_last());
        let d = inv_hex(s.last());
        assert(d < 16);
        assert(p < pow16((s.len() - 1) as nat));
        assert(p * 16 + d < pow16(s.len())) by (nonlinear_arith)
            requires
                p < pow16((s.len() - 1) as nat),
                d < 16,
                pow16(s.len()) == 16 * pow16((s.len() - 1) as nat),
        ;
    }
}

/// Printing the value of a canonical hex string gives that string back.
proof fn lemma_hex_seq_of_val(s: Seq<u8>)
    requires
        forall|i: int| 0 <= i < s.len() ==> is_hex_byte(#[trigger] s[i]),
        s.len() <= 32,
    ensures
        hex_seq(hex_val(s) as u128, s.len()) == s,
    decreases s.len(),
{
    if s.len() == 0 {
        assert(hex_seq(0, 0) =~= s);
    } else {
        lemma_hex_val_bound(s);
        lemma_pow16_mono(s.len(), 32);
        lemma_pow16_32();
        let p = hex_val(s.drop_last());
        let d = inv_hex(s.last());
        let v = hex_val(s);
        assert(v == p * 16 + d);
        lemma_hex_val_bound(s.drop_last());
        lemma_pow16_mono((s.len() - 1) as nat, 32);
        assert(v / 16 == p && v % 16 == d) by (nonlinear_arith)
            requires
                v == p * 16 + d,
                0 <= d < 16,
                p >= 0,
        ;
        lemma_hex_seq_of_val(s.drop_last());
        assert((v as u128) / 16 == p as u128);
        assert((v as u128) % 16 == d as u128);
        assert(hex_digit(d) == s.last());
        assert(hex_seq(v as u128, s.len()) =~= s);
    }
}

/// Where the `j`-th hex digit of a hyphenated UUID stands in its text.
pub open spec fn uuid_digit_pos(j: int) -> int {
    if j < 8 {
        j
    } else if j < 12 {
        j + 1
    } else if j < 16 {
        j + 2
    } else if j < 20 {
        j + 3
    } else {
        j + 4
    }
}

proof fn lemma_hex_seq_bytes(id: u128, count: nat)
    ensures
        forall|i: int| 0 <= i < count ==> is_hex_byte(#[trigger] hex_seq(id, count)[i]),
    decreases count,
{
    lemma_hex_seq_len(id, count);
    if count > 0 {
        lemma_hex_seq_bytes(id / 16, (count - 1) as nat);
        lemma_hex_seq_len(id / 16, (count - 1) as nat);
        assert forall|i: int| 0 <= i < count implies is_hex_byte(
            #[trigger] hex_seq(id, count)[i],
        ) by {
            if i < count - 1 {
                assert(hex_seq(id, count)[i] == hex_seq(id / 16, (count - 1) as nat)[i]);
            } else {
                assert(hex_seq(id, count)[i] == hex_digit((id % 16) as nat));
            }
        }
    }
}

/// The shape of UUID text: 36 bytes, dashes after the 8th, 12th, 16th and
/// 20th digit, and the hex digits at their mapped positions.
proof fn lemma_uuid_str_layout(id: u128)
    ensures
        uuid_str(id).len() == 36,
        uuid_str(id)[8] == 45u8,
        uuid_str(id)[13] == 45u8,
        uuid_str(id)[18] == 45u8,
        uuid_str(id)[23] == 45u8,
        forall|j: int| 0 <= j < 32 ==> uuid_str(id)[uuid_digit_pos(j)] == hex_seq(id, 32)[j],
{
    lemma_hex_seq_len(id, 32);
}

/// Reads a lowercase hyphenated UUID: the result is exactly the identifier
/// whose text the input is, and `None` when the input is no such text.
#[verifier::rlimit(100)]
pub fn parse_uuid(b: &[u8]) -> (r: Option<u128>)
    ensures
        match r {
            Some(id) => b@ == uuid_str(id),
            None => forall|id: u128| b@ != uuid_str(id),
        },
{
    if b.len() != 36 {
        proof {
            assert forall|id: u128| b@ != uuid_str(id) by {
                lemma_uuid_str_layout(id);
            }
        }
        return None;
    }
    let dashes_ok: bool = *vstd::slice::slice_index_get(b, 8) == 45
        && *vstd::slice::slice_index_get(b, 13) == 45 && *vstd::slice::slice_index_get(b, 18) == 45
        && *vstd::slice::slice_index_get(b, 23) == 45;
    if !dashes_ok {
        proof {
            assert forall|id: u128| b@ != uuid_str(id) by {
                lemma_uuid_str_layout(id);
            }
        }
        return None;
    }
    let mut id: u128 = 0;
    let ghost mut digits: Seq<u8> = Seq::empty();
    let mut j: usize = 0;
    while j < 32
        invariant
            b@.len() == 36,
            j <= 32,
            digits.len() == j,
            forall|t: int|
                0 <= t < j ==> is_hex_byte(#[trigger] digits[t]) && digits[t] == b@[uuid_digit_pos(
                    t,
                )],
            id == hex_val(digits),
        decreases 32 - j,
    {
        let pos: usize = if j < 8 {
            j
        } else if j < 12 {
            j + 1
        } else if j < 16 {
            j + 2
        } else if j < 20 {
            j + 3
        } else {
            j + 4
        };
        proof {
            assert(pos == uuid_digit_pos(j as int));
        }
        let c: u8 = *vstd::slice::slice_index_get(b, pos);
        let d: u8 = if 48 <= c && c <= 57 {
            c - 48
        } else if 97 <= c && c <= 102 {
            c - 87
        } else {
            proof {
                assert forall|other: u128| b@ != uuid_str(other) by {
                    lemma_uuid_str_layout(other);
                    lemma_hex_seq_bytes(other, 32);
                    if b@ == uuid_str(other) {
                        assert(b@[uuid_digit_pos(j as int)] == hex_seq(other, 32)[j as int]);
                    }
                }
            }
            return None;
        };
        proof {
            lemma_hex_val_bound(digits);
            lemma_pow16_mono(j as nat, 31);
            lemma_pow16_32();
            reveal_with_fuel(pow16, 2);
            assert(id * 16 + d < pow16((j + 1) as nat)) by (nonlinear_arith)
                requires
                    id < pow16(j as nat),
                    d < 16,
                    pow16((j + 1) as nat) == 16 * pow16(j as nat),
            ;
            lemma_pow16_mono((j + 1) as nat, 32);
        }
        id = id * 16 + (d as u128);
        proof {
            let pushed = digits.push(c);
            assert(pushed.drop_last() =~= digits);
            assert(pushed.last() == c);
            assert(inv_hex(c) == d as nat);
            digits = pushed;
        }
        j = j + 1;
    }
    proof {
        lemma_hex_seq_of_val(digits);
        lemma_uuid_str_layout(id);
        assert forall|pos: int| 0 <= pos < 36 implies b@[pos] == uuid_str(id)[pos] by {
            if pos == 8 || pos == 13 || pos == 18 || pos == 23 {
            } else {
                let t: int = if pos < 8 {
                    pos
                } else if pos < 13 {
                    pos - 1
                } else if pos < 18 {
                    pos - 2
                } else if pos < 23 {
                    pos - 3
                } else {
                    pos - 4
                };
                assert(uuid_digit_pos(t) == pos);
                assert(digits[t] == b@[pos]);
                assert(uuid_str(id)[pos] == hex_seq(id, 32)[t]);
            }
        }
        assert(b@ =~= uuid_str(id));
    }
    Some(id)
}

// ---------------------------------------------------------------------------
// Parsing RFC 3339 instants
// ---------------------------------------------------------------------------
proof fn lemma_recompose4(n: nat)
    requires
        n < 10000,
    ensures
        n == (n / 1000 % 10) * 1000 + (n / 100 % 10) * 100 + (n / 10 % 10) * 10 + n % 10,
{
    assert(n == (n / 10) * 10 + n % 10);
    assert(n / 10 == (n / 10 / 10) * 10 + (n / 10) % 10);
    assert(n / 10 / 10 == n / 100) by (nonlinear_arith);
    assert(n / 100 == (n / 100 / 10) * 10 + (n / 100) % 10);
    assert(n / 100 / 10 == n / 1000) by (nonlinear_arith);
    assert(n / 1000 < 10);
    assert(n / 1000 % 10 == n / 1000);
}

proof fn lemma_recompose2(n: nat)
    requires
        n < 100,
    ensures
        n == (n / 10 % 10) * 10 + n % 10,
{
    assert(n == (n / 10) * 10 + n % 10);
    assert(n / 10 < 10);
}

fn dig(b: &[u8], i: usize) -> (r: Option<u8>)
    requires
        i < b@.len(),
    ensures
        match r {
            Some(d) => d < 10 && b@[i as int] == digit(d as nat),
            None => !(48 <= b@[i as int] <= 57),
        },
{
    let c: u8 = *vstd::slice::slice_index_get(b, i);
    if 48 <= c && c <= 57 {
        Some(c - 48)
    } else {
        None
    }
}

/// Reads an instant in the wire's one form, `YYYY-MM-DDThh:mm:ssZ`: the
/// result is exactly the well-formed instant whose text the input is, and
/// `None` when the input is no such text.
#[verifier::rlimit(100)]
pub fn parse_rfc3339(b: &[u8]) -> (r: Option<Timestamp>)
    ensures
        match r {
            Some(ts) => ts.wf() && b@ == rfc3339_bytes(ts),
            None => forall|ts: Timestamp| ts.wf() ==> b@ != rfc3339_bytes(ts),
        },
{
    if b.len() != 20 {
        proof {
            assert forall|ts: Timestamp| ts.wf() implies b@ != rfc3339_bytes(ts) by {
                assert(rfc3339_bytes(ts).len() == 20);
            }
        }
        return None;
    }
    let d0 = dig(b, 0);
    let d1 = dig(b, 1);
    let d2 = dig(b, 2);
    let d3 = dig(b, 3);
    let m0 = dig(b, 5);
    let m1 = dig(b, 6);
    let a0 = dig(b, 8);
    let a1 = dig(b, 9);
    let h0 = dig(b, 11);
    let h1 = dig(b, 12);
    let i0 = dig(b, 14);
    let i1 = dig(b, 15);
    let s0 = dig(b, 17);
    let s1 = dig(b, 18);
    let seps_ok: bool = *vstd::slice::slice_index_get(b, 4) == 45 && *vstd::slice::slice_index_get(
        b,
        7,
    ) == 45 && *vstd::slice::slice_index_get(b, 10) == 84 && *vstd::slice::slice_index_get(b, 13)
        == 58 && *vstd::slice::slice_index_get(b, 16) == 58 && *vstd::slice::slice_index_get(b, 19)
        == 90;
    match (d0, d1, d2, d3, m0, m1, a0, a1, h0, h1, i0, i1, s0, s1) {
        (
            Some(d0),
            Some(d1),
            Some(d2),
            Some(d3),
            Some(m0),
            Some(m1),
            Some(a0),
            Some(a1),
            Some(h0),
            Some(h1),
            Some(i0),
            Some(i1),
            Some(s0),
            Some(s1),
        ) if seps_ok => {
            let year: u16 = (d0 as u16) * 1000 + (d1 as u16) * 100 + (d2 as u16) * 10 + (d3 as u16);
            let month: u8 = m0 * 10 + m1;
            let day: u8 = a0 * 10 + a1;
            let hour: u8 = h0 * 10 + h1;
            let minute: u8 = i0 * 10 + i1;
            let second: u8 = s0 * 10 + s1;
            let ts = Timestamp {
                date: crate::calendar::Date { year, month, day },
                hour,
                minute,
                second,
            };
            if ts.valid() {
                proof {
                    lemma_recompose4(year as nat);
                    lemma_recompose2(month as nat);
                    lemma_recompose2(day as nat);
                    lemma_recompose2(hour as nat);
                    lemma_recompose2(minute as nat);
                    lemma_recompose2(second as nat);
                    assert(b@ =~= rfc3339_bytes(ts));
                }
                Some(ts)
            } else {
                proof {
                    assert forall|other: Timestamp| other.wf() implies b@ != rfc3339_bytes(
                        other,
                    ) by {
                        if b@ == rfc3339_bytes(other) {
                            lemma_rfc3339_fields_determined(b@, other);
                            lemma_recompose4(other.date.year as nat);
                            lemma_recompose2(other.date.month as nat);
                            lemma_recompose2(other.date.day as nat);
                            lemma_recompose2(other.hour as nat);
                            lemma_recompose2(other.minute as nat);
                            lemma_recompose2(other.second as nat);
                            assert(other.date.year == year);
                            assert(other == ts);
                        }
                    }
                }
                None
            }
        },
        _ => {
            proof {
                assert forall|ts: Timestamp| ts.wf() implies b@ != rfc3339_bytes(ts) by {
                    if b@ == rfc3339_bytes(ts) {
                        lemma_rfc3339_fields_determined(b@, ts);
                    }
                }
            }
            None
        },
    }
}

/// When `b` is the RFC 3339 text of a well-formed `ts`, each byte of `b` is
/// the corresponding digit or separator of `ts`'s fields.
proof fn lemma_rfc3339_fields_determined(b: Seq<u8>, ts: Timestamp)
    requires
        ts.wf(),
        b == rfc3339_bytes(ts),
    ensures
        b[0] == digit(ts.date.year as nat / 1000 % 10),
        b[1] == digit(ts.date.year as nat / 100 % 10),
        b[2] == digit(ts.date.year as nat / 10 % 10),
        b[3] == digit(ts.date.year as nat % 10),
        b[4] == 45u8,
        b[5] == digit(ts.date.month as nat / 10 % 10),
        b[6] == digit(ts.date.month as nat % 10),
        b[7] == 45u8,
        b[8] == digit(ts.date.day as nat / 10 % 10),
        b[9] == digit(ts.date.day as nat % 10),
        b[10] == 84u8,
        b[11] == digit(ts.hour as nat / 10 % 10),
        b[12] == digit(ts.hour as nat % 10),
        b[13] == 58u8,
        b[14] == digit(ts.minute as nat / 10 % 10),
        b[15] == digit(ts.minute as nat % 10),
        b[16] == 58u8,
        b[17] == digit(ts.second as nat / 10 % 10),
        b[18] == digit(ts.second as nat % 10),
        b[19] == 90u8,
{
}

/// Assembles one measurement from its decoded wire parts: the device id must
/// be UUID text, the instant well-formed RFC 3339, and the value
/// non-negative, else the delivery is rejected.
pub fn decode_measurement(device_id_text: &[u8], timestamp_text: &[u8], value_micro: i64) -> (r:
    Option<MeasurementMessage>)
    ensures
        match r {
            Some(m) => m.wf() && device_id_text@ == uuid_str(m.device_id) && m.value_micro
                == value_micro && timestamp_text@ == rfc3339_bytes(m.timestamp),
            None => value_micro < 0 || (forall|id: u128| device_id_text@ != uuid_str(id)) || (
            forall|ts: Timestamp| ts.wf() ==> timestamp_text@ != rfc3339_bytes(ts)),
        },
{
    if value_micro < 0 {
        return None;
    }
    let device_id = match parse_uuid(device_id_text) {
        Some(id) => id,
        None => {
            return None;
        },
    };
    match parse_rfc3339(timestamp_text) {
        Some(ts) => Some(MeasurementMessage { device_id, timestamp: ts, value_micro }),
        None => None,
    }
}

} // verus!
