//! Protocol Buffers wire format: base-128 varints, tagged fields, and
//! length-delimited payloads.

use vstd::prelude::*;

verus! {

/// The largest field number the wire format admits.
pub const MAX_FIELD_NUMBER: u32 = 536870911;

/// Base-128 little-endian encoding of `v`: seven bits per byte, the high bit
/// set on every byte but the last.
pub open spec fn varint_bytes(v: nat) -> Seq<u8>
    decreases v,
{
    if v < 128 {
        seq![v as u8]
    } else {
        seq![(v % 128 + 128) as u8] + varint_bytes(v / 128)
    }
}

/// Reads a varint at the front of `b`, looking at no more than `limit`
/// bytes: its value and the number of bytes it spans.
pub open spec fn varint_prefix(b: Seq<u8>, limit: nat) -> Option<(nat, nat)>
    decreases limit,
{
    if b.len() == 0 || limit == 0 {
        None
    } else if b[0] < 128 {
        Some((b[0] as nat, 1))
    } else {
        match varint_prefix(b.drop_first(), (limit - 1) as nat) {
            Some((v, n)) => Some(((b[0] - 128) as nat + 128 * v, n + 1)),
            None => None,
        }
    }
}

/// A varint of at most ten bytes whose value fits in 64 bits, at the front
/// of `b`.
pub open spec fn varint_at(b: Seq<u8>) -> Option<(u64, nat)> {
    match varint_prefix(b, 10) {
        Some((v, n)) => if v <= u64::MAX {
            Some((v as u64, n))
        } else {
            None
        },
        None => None,
    }
}

pub open spec fn pow128(n: nat) -> nat
    decreases n,
{
    if n == 0 {
        1
    } else {
        128 * pow128((n - 1) as nat)
    }
}

proof fn lemma_varint_len(v: nat, n: nat)
    requires
        n >= 1,
        v < pow128(n),
    ensures
        varint_bytes(v).len() <= n,
    decreases n,
{
    if v >= 128 {
        let p = pow128((n - 1) as nat);
        assert(v / 128 < p) by (nonlinear_arith)
            requires
                v < 128 * p,
        ;
        if n == 1 {
            assert(p == 1);
        } else {
            lemma_varint_len(v / 128, (n - 1) as nat);
        }
    }
}

/// A 64-bit value takes at most ten bytes.
pub proof fn lemma_varint_u64_len(v: u64)
    ensures
        1 <= varint_bytes(v as nat).len() <= 10,
{
    reveal_with_fuel(pow128, 11);
    assert(pow128(10) == 1180591620717411303424nat);
    lemma_varint_len(v as nat, 10);
}

proof fn lemma_varint_prefix(v: nat, rest: Seq<u8>, limit: nat)
    requires
        varint_bytes(v).len() <= limit,
    ensures
        varint_prefix(varint_bytes(v) + rest, limit) == Some((v, varint_bytes(v).len())),
    decreases v,
{
    let b = varint_bytes(v) + rest;
    if v < 128 {
        assert(b[0] == v as u8);
    } else {
        let tail = varint_bytes(v / 128);
        lemma_varint_prefix(v / 128, rest, (limit - 1) as nat);
        assert(b.drop_first() =~= tail + rest);
        assert(b[0] == (v % 128 + 128) as u8);
    }
}

/// Reading back the encoding of a 64-bit value gives the value and the
/// encoding's length, whatever follows it.
pub proof fn lemma_varint_round_trip(v: u64, rest: Seq<u8>)
    ensures
        varint_at(varint_bytes(v as nat) + rest) == Some((v, varint_bytes(v as nat).len())),
{
    lemma_varint_u64_len(v);
    lemma_varint_prefix(v as nat, rest, 10);
}

/// Relies on prost::encoding::encode_varint: appends the base-128
/// little-endian encoding of the value to the buffer.
#[verifier::external_body]
fn put_varint(buf: &mut Vec<u8>, v: u64)
    ensures
        final(buf)@ == old(buf)@ + varint_bytes(v as nat),
{
    prost::encoding::encode_varint(v, buf)
}

/// Relies on prost::encoding::decode_varint: reads one varint of at most ten
/// bytes whose value fits in 64 bits from `bytes[start..]`, and gives back
/// the value with the number of bytes left after it.
#[verifier::external_body]
fn read_varint(bytes: &[u8], start: usize) -> (r: Option<(u64, usize)>)
    requires
        start <= bytes@.len(),
    ensures
        ({
            let tail = bytes@.subrange(start as int, bytes@.len() as int);
            match r {
                Some((v, left)) => left <= tail.len() && varint_at(tail) == Some(
                    (v, (tail.len() - left) as nat),
                ),
                None => varint_at(tail) is None,
            }
        }),
{
    let mut rest = &bytes[start..];
    match prost::encoding::decode_varint(&mut rest) {
        Ok(v) => Some((v, rest.len())),
        Err(_) => None,
    }
}

/// A field's payload as it travels.
pub enum FieldValue {
    /// Wire type 0.
    Varint(u64),
    /// Wire type 2: a length prefix, then the bytes.
    Bytes(Vec<u8>),
}

/// One tagged field of a message.
pub struct Field {
    pub number: u32,
    pub value: FieldValue,
}

/// The mathematical content of a [`FieldValue`].
pub enum WireValue {
    Varint(u64),
    Bytes(Seq<u8>),
}

/// The mathematical content of a [`Field`].
pub struct WireField {
    pub number: u32,
    pub value: WireValue,
}

impl View for FieldValue {
    type V = WireValue;

    open spec fn view(&self) -> WireValue {
        match self {
            FieldValue::Varint(v) => WireValue::Varint(*v),
            FieldValue::Bytes(b) => WireValue::Bytes(b@),
        }
    }
}

impl View for Field {
    type V = WireField;

    open spec fn view(&self) -> WireField {
        WireField { number: self.number, value: self.value@ }
    }
}

pub open spec fn fields_view(fs: Seq<Field>) -> Seq<WireField> {
    fs.map_values(|f: Field| f@)
}

pub open spec fn wire_type(v: WireValue) -> nat {
    match v {
        WireValue::Varint(_) => 0,
        WireValue::Bytes(_) => 2,
    }
}

/// The key that precedes a field: its number and its wire type.
pub open spec fn key_of(f: WireField) -> nat {
    f.number as nat * 8 + wire_type(f.value)
}

pub open spec fn valid_field(f: WireField) -> bool {
    1 <= f.number <= MAX_FIELD_NUMBER && match f.value {
        WireValue::Bytes(b) => b.len() <= u64::MAX,
        WireValue::Varint(_) => true,
    }
}

pub open spec fn valid_fields(fs: Seq<WireField>) -> bool {
    forall|i: int| 0 <= i < fs.len() ==> valid_field(#[trigger] fs[i])
}

pub open spec fn value_bytes(v: WireValue) -> Seq<u8> {
    match v {
        WireValue::Varint(x) => varint_bytes(x as nat),
        WireValue::Bytes(b) => varint_bytes(b.len()) + b,
    }
}

/// The encoding of one field.
pub open spec fn field_bytes(f: WireField) -> Seq<u8> {
    varint_bytes(key_of(f)) + value_bytes(f.value)
}

/// The encoding of a message: its fields, one after another.
pub open spec fn fields_bytes(fs: Seq<WireField>) -> Seq<u8>
    decreases fs.len(),
{
    if fs.len() == 0 {
        Seq::empty()
    } else {
        field_bytes(fs[0]) + fields_bytes(fs.drop_first())
    }
}

/// Reads one field at the front of `b`: the field and the bytes it spans.
pub open spec fn parse_field(b: Seq<u8>) -> Option<(WireField, nat)> {
    match varint_at(b) {
        None => None,
        Some((key, n)) => {
            let number = key / 8;
            let rest = b.subrange(n as int, b.len() as int);
            if number < 1 || number > MAX_FIELD_NUMBER {
                None
            } else if key % 8 == 0 {
                match varint_at(rest) {
                    Some((v, m)) => Some(
                        (WireField { number: number as u32, value: WireValue::Varint(v) }, n + m),
                    ),
                    None => None,
                }
            } else if key % 8 == 2 {
                match varint_at(rest) {
                    Some((len, m)) => if n + m + len <= b.len() {
                        Some(
                            (
                                WireField {
                                    number: number as u32,
                                    value: WireValue::Bytes(
                                        b.subrange((n + m) as int, (n + m + len) as int),
                                    ),
                                },
                                (n + m + len) as nat,
                            ),
                        )
                    } else {
                        None
                    },
                    None => None,
                }
            } else {
                None
            }
        },
    }
}

/// Reads a whole message: fields until the bytes run out.
pub open spec fn parse_fields(b: Seq<u8>) -> Option<Seq<WireField>>
    decreases b.len(),
{
    if b.len() == 0 {
        Some(Seq::empty())
    } else {
        match parse_field(b) {
            None => None,
            Some((f, n)) => if 0 < n <= b.len() {
                match parse_fields(b.subrange(n as int, b.len() as int)) {
                    Some(rest) => Some(seq![f] + rest),
                    None => None,
                }
            } else {
                None
            },
        }
    }
}

proof fn lemma_field_round_trip(f: WireField, rest: Seq<u8>)
    requires
        valid_field(f),
    ensures
        parse_field(field_bytes(f) + rest) == Some((f, field_bytes(f).len())),
{
    let key = key_of(f);
    assert(key <= u64::MAX);
    let kb = varint_bytes(key);
    let b = field_bytes(f) + rest;
    lemma_varint_round_trip(key as u64, value_bytes(f.value) + rest);
    assert(b =~= kb + (value_bytes(f.value) + rest));
    lemma_varint_u64_len(key as u64);
    let after = b.subrange(kb.len() as int, b.len() as int);
    assert(after =~= value_bytes(f.value) + rest);
    assert(key / 8 == f.number);
    match f.value {
        WireValue::Varint(v) => {
            assert(key % 8 == 0);
            lemma_varint_round_trip(v, rest);
        },
        WireValue::Bytes(bs) => {
            assert(key % 8 == 2);
            let lb = varint_bytes(bs.len());
            lemma_varint_round_trip(bs.len() as u64, bs + rest);
            assert(after =~= lb + (bs + rest));
            let n = kb.len();
            let m = lb.len();
            assert(b.subrange((n + m) as int, (n + m + bs.len()) as int) =~= bs);
        },
    }
}

/// Reading back the encoding of valid fields gives the same fields.
pub proof fn lemma_fields_round_trip(fs: Seq<WireField>)
    requires
        valid_fields(fs),
    ensures
        parse_fields(fields_bytes(fs)) == Some(fs),
    decreases fs.len(),
{
    if fs.len() > 0 {
        let rest = fs.drop_first();
        assert(valid_fields(rest)) by {
            assert forall|i: int| 0 <= i < rest.len() implies valid_field(#[trigger] rest[i]) by {
                assert(rest[i] == fs[i + 1]);
            }
        }
        lemma_fields_round_trip(rest);
        let b = fields_bytes(fs);
        let fb = field_bytes(fs[0]);
        assert(valid_field(fs[0]));
        lemma_field_round_trip(fs[0], fields_bytes(rest));
        lemma_varint_u64_len(key_of(fs[0]) as u64);
        assert(b.subrange(fb.len() as int, b.len() as int) =~= fields_bytes(rest));
        assert(seq![fs[0]] + rest =~= fs);
    }
}

/// Bytes that do not form a message of the expected shape.
#[derive(Clone, Copy, Debug, PartialEq, Eq, Structural)]
pub enum CodecError {
    /// The bytes are not a sequence of well-formed fields (truncated, a
    /// varint too long, a bad field number or an unknown wire type).
    Malformed,
    /// The fields are well formed but do not match the message's schema (a
    /// known field with the wrong wire type, text that is not UTF-8, or a
    /// payload of a kind that the reader does not take).
    Unexpected,
}

/// Appends the encoding of one field.
pub fn put_field(buf: &mut Vec<u8>, f: &Field)
    requires
        valid_field(f@),
    ensures
        final(buf)@ == old(buf)@ + field_bytes(f@),
{
    let wt: u64 = match &f.value {
        FieldValue::Varint(_) => 0,
        FieldValue::Bytes(_) => 2,
    };
    put_varint(buf, f.number as u64 * 8 + wt);
    match &f.value {
        FieldValue::Varint(v) => {
            put_varint(buf, *v);
        },
        FieldValue::Bytes(b) => {
            put_varint(buf, b.len() as u64);
            buf.extend_from_slice(b.as_slice());
        },
    }
    assert(final(buf)@ =~= old(buf)@ + field_bytes(f@));
}

/// Encodes a message: its fields in order.
pub fn encode_fields(fs: &Vec<Field>) -> (r: Vec<u8>)
    requires
        valid_fields(fields_view(fs@)),
    ensures
        r@ == fields_bytes(fields_view(fs@)),
{
    let ghost all = fields_view(fs@);
    let mut buf: Vec<u8> = Vec::new();
    let mut i: usize = 0;
    assert(all.subrange(0, all.len() as int) =~= all);
    while i < fs.len()
        invariant
            i <= fs@.len(),
            all == fields_view(fs@),
            valid_fields(all),
            buf@ + fields_bytes(all.subrange(i as int, all.len() as int)) == fields_bytes(all),
        decreases fs@.len() - i,
    {
        let ghost before = buf@;
        assert(all[i as int] == fs@[i as int]@);
        put_field(&mut buf, &fs[i]);
        let ghost suffix = all.subrange(i as int, all.len() as int);
        assert(suffix.drop_first() =~= all.subrange(i + 1, all.len() as int));
        assert(buf@ + fields_bytes(all.subrange(i + 1, all.len() as int)) =~= before
            + fields_bytes(suffix));
        i = i + 1;
    }
    assert(all.subrange(i as int, all.len() as int) =~= Seq::<WireField>::empty());
    assert(buf@ =~= buf@ + Seq::<u8>::empty());
    buf
}

/// Reads one field at `b[pos..]`: the field and the position after it.
fn parse_field_at(b: &[u8], pos: usize) -> (r: Option<(Field, usize)>)
    requires
        pos < b@.len(),
    ensures
        ({
            let tail = b@.subrange(pos as int, b@.len() as int);
            match r {
                Some((f, next)) => pos < next <= b@.len() && parse_field(tail) == Some(
                    (f@, (next - pos) as nat),
                ),
                None => parse_field(tail) is None,
            }
        }),
{
    let ghost tail = b@.subrange(pos as int, b@.len() as int);
    let (key, left) = match read_varint(b, pos) {
        Some(x) => x,
        None => {
            return None;
        },
    };
    let after_key = b.len() - left;
    let ghost n = (after_key - pos) as nat;
    let number = key / 8;
    if number < 1 || number > MAX_FIELD_NUMBER as u64 {
        return None;
    }
    assert(b@.subrange(after_key as int, b@.len() as int) =~= tail.subrange(n as int, tail.len() as int));
    if key % 8 == 0 {
        let (v, left2) = match read_varint(b, after_key) {
            Some(x) => x,
            None => {
                return None;
            },
        };
        let next = b.len() - left2;
        let f = Field { number: number as u32, value: FieldValue::Varint(v) };
        Some((f, next))
    } else if key % 8 == 2 {
        let (len, left2) = match read_varint(b, after_key) {
            Some(x) => x,
            None => {
                return None;
            },
        };
        let body_start = b.len() - left2;
        if len > left2 as u64 {
            return None;
        }
        let end = body_start + len as usize;
        let mut v: Vec<u8> = Vec::new();
        v.extend_from_slice(&b[body_start..end]);
        assert(v@ =~= tail.subrange((body_start - pos) as int, (end - pos) as int));
        let f = Field { number: number as u32, value: FieldValue::Bytes(v) };
        Some((f, end))
    } else {
        None
    }
}

/// Decodes a message into its fields, in the order they stand.
pub fn decode_fields(b: &[u8]) -> (r: Result<Vec<Field>, CodecError>)
    ensures
        match r {
            Ok(fs) => parse_fields(b@) == Some(fields_view(fs@)),
            Err(e) => parse_fields(b@) is None && e == CodecError::Malformed,
        },
{
    let mut out: Vec<Field> = Vec::new();
    let mut pos: usize = 0;
    assert(b@.subrange(0, b@.len() as int) =~= b@);
    assert(fields_view(out@) + Seq::<WireField>::empty() =~= Seq::<WireField>::empty());
    while pos < b.len()
        invariant
            pos <= b@.len(),
            parse_fields(b@) == match parse_fields(b@.subrange(pos as int, b@.len() as int)) {
                Some(rest) => Some(fields_view(out@) + rest),
                None => None,
            },
        decreases b@.len() - pos,
    {
        let ghost tail = b@.subrange(pos as int, b@.len() as int);
        match parse_field_at(b, pos) {
            None => {
                return Err(CodecError::Malformed);
            },
            Some((f, next)) => {
                let ghost fv = f@;
                let ghost old_view = fields_view(out@);
                assert(tail.subrange((next - pos) as int, tail.len() as int) =~= b@.subrange(
                    next as int,
                    b@.len() as int,
                ));
                out.push(f);
                assert(fields_view(out@) =~= old_view.push(fv));
                proof {
                    match parse_fields(b@.subrange(next as int, b@.len() as int)) {
                        Some(rest) => {
                            assert(old_view + (seq![fv] + rest) =~= fields_view(out@) + rest);
                        },
                        None => {},
                    }
                }
                pos = next;
            },
        }
    }
    assert(b@.subrange(pos as int, b@.len() as int) =~= Seq::<u8>::empty());
    assert(fields_view(out@) + Seq::<WireField>::empty() =~= fields_view(out@));
    Ok(out)
}

} // verus!
