//! Typed records carried in envelope payloads, and how they map to fields.

use vstd::prelude::*;
use vstd::utf8::{decode_utf8, encode_utf8, valid_utf8};
use crate::wire::{
    fields_bytes,    decode_fields, fields_view, parse_fields, valid_fields,
    CodecError, Field, FieldValue, WireField, WireValue, MAX_FIELD_NUMBER,
};

verus! {

broadcast use vstd::utf8::encode_utf8_decode_utf8, vstd::utf8::encode_utf8_valid_utf8;

/// The value of the last field numbered `k`: a later field replaces an
/// earlier one.
pub open spec fn last_value(fs: Seq<WireField>, k: u32) -> Option<WireValue>
    decreases fs.len(),
{
    if fs.len() == 0 {
        None
    } else if fs.last().number == k {
        Some(fs.last().value)
    } else {
        last_value(fs.drop_last(), k)
    }
}

/// A text field: absent reads as empty; it must be length-delimited UTF-8.
pub open spec fn text_value(fs: Seq<WireField>, k: u32) -> Option<Seq<char>> {
    match last_value(fs, k) {
        None => Some(Seq::empty()),
        Some(WireValue::Bytes(b)) => if valid_utf8(b) {
            Some(decode_utf8(b))
        } else {
            None
        },
        Some(WireValue::Varint(_)) => None,
    }
}

/// A bytes field: absent reads as empty.
pub open spec fn bytes_value(fs: Seq<WireField>, k: u32) -> Option<Seq<u8>> {
    match last_value(fs, k) {
        None => Some(Seq::empty()),
        Some(WireValue::Bytes(b)) => Some(b),
        Some(WireValue::Varint(_)) => None,
    }
}

/// An integer field: absent reads as zero; it must be a varint.
pub open spec fn uint_value(fs: Seq<WireField>, k: u32) -> Option<u64> {
    match last_value(fs, k) {
        None => Some(0),
        Some(WireValue::Varint(v)) => Some(v),
        Some(WireValue::Bytes(_)) => None,
    }
}

/// A 32-bit unsigned field: a varint no larger than `u32::MAX`.
pub open spec fn u32_value(fs: Seq<WireField>, k: u32) -> Option<u32> {
    match uint_value(fs, k) {
        Some(v) => if v <= u32::MAX {
            Some(v as u32)
        } else {
            None
        },
        None => None,
    }
}

/// The signed 32-bit integer that a varint carries: its low 32 bits in two's
/// complement.
pub open spec fn int32_of(v: u64) -> i32 {
    let low = v as int % 0x1_0000_0000;
    if low < 0x8000_0000 {
        low as i32
    } else {
        (low - 0x1_0000_0000) as i32
    }
}

/// The varint that carries a signed 32-bit integer: negative values are
/// sign-extended to 64 bits.
pub open spec fn int32_wire(s: i32) -> u64 {
    if s >= 0 {
        s as u64
    } else {
        (s + 0x1_0000_0000_0000_0000) as u64
    }
}

pub open spec fn int_value(fs: Seq<WireField>, k: u32) -> Option<i32> {
    match uint_value(fs, k) {
        Some(v) => Some(int32_of(v)),
        None => None,
    }
}

pub open spec fn bool_value(fs: Seq<WireField>, k: u32) -> Option<bool> {
    match uint_value(fs, k) {
        Some(v) => Some(v != 0),
        None => None,
    }
}

/// The field that carries text.
pub open spec fn text_wire(k: u32, s: Seq<char>) -> WireField {
    WireField { number: k, value: WireValue::Bytes(encode_utf8(s)) }
}

/// The field that carries an integer.
pub open spec fn uint_wire(k: u32, v: u64) -> WireField {
    WireField { number: k, value: WireValue::Varint(v) }
}

/// The position of the last field numbered `k`.
fn find_last(fs: &Vec<Field>, k: u32) -> (r: Option<usize>)
    ensures
        match r {
            Some(i) => i < fs@.len() && last_value(fields_view(fs@), k) == Some(fs@[i as int]@.value),
            None => last_value(fields_view(fs@), k) is None,
        },
{
    let ghost all = fields_view(fs@);
    let mut i: usize = fs.len();
    assert(all.take(i as int) =~= all);
    while i > 0
        invariant
            i <= fs@.len(),
            all == fields_view(fs@),
            last_value(all, k) == last_value(all.take(i as int), k),
        decreases i,
    {
        let ghost pre = all.take(i as int);
        assert(pre.last() == fs@[i - 1]@);
        assert(pre.drop_last() =~= all.take(i - 1));
        if fs[i - 1].number == k {
            return Some(i - 1);
        }
        i = i - 1;
    }
    None
}

/// Relies on String::from_utf8: it succeeds exactly on valid UTF-8, and the
/// string then holds the characters that the bytes encode.
#[verifier::external_body]
pub(crate) fn string_from_utf8(b: Vec<u8>) -> (r: Option<String>)
    ensures
        r is Some <==> valid_utf8(b@),
        r matches Some(s) ==> s@ == decode_utf8(b@),
{
    String::from_utf8(b).ok()
}

fn copy_bytes(b: &Vec<u8>) -> (r: Vec<u8>)
    ensures
        r@ == b@,
{
    let mut c: Vec<u8> = Vec::new();
    c.extend_from_slice(b.as_slice());
    assert(c@ =~= b@);
    c
}

/// Reads a text field.
pub fn read_text(fs: &Vec<Field>, k: u32) -> (r: Result<String, CodecError>)
    ensures
        match r {
            Ok(s) => text_value(fields_view(fs@), k) == Some(s@),
            Err(e) => text_value(fields_view(fs@), k) is None && e == CodecError::Unexpected,
        },
{
    match find_last(fs, k) {
        None => Ok(String::new()),
        Some(i) => match &fs[i].value {
            FieldValue::Bytes(b) => match string_from_utf8(copy_bytes(b)) {
                Some(s) => Ok(s),
                None => Err(CodecError::Unexpected),
            },
            FieldValue::Varint(_) => Err(CodecError::Unexpected),
        },
    }
}

/// Reads a bytes field.
pub fn read_bytes(fs: &Vec<Field>, k: u32) -> (r: Result<Vec<u8>, CodecError>)
    ensures
        match r {
            Ok(b) => bytes_value(fields_view(fs@), k) == Some(b@),
            Err(e) => bytes_value(fields_view(fs@), k) is None && e == CodecError::Unexpected,
        },
{
    match find_last(fs, k) {
        None => Ok(Vec::new()),
        Some(i) => match &fs[i].value {
            FieldValue::Bytes(b) => Ok(copy_bytes(b)),
            FieldValue::Varint(_) => Err(CodecError::Unexpected),
        },
    }
}

/// Reads an integer field.
pub fn read_uint(fs: &Vec<Field>, k: u32) -> (r: Result<u64, CodecError>)
    ensures
        match r {
            Ok(v) => uint_value(fields_view(fs@), k) == Some(v),
            Err(e) => uint_value(fields_view(fs@), k) is None && e == CodecError::Unexpected,
        },
{
    match find_last(fs, k) {
        None => Ok(0),
        Some(i) => match &fs[i].value {
            FieldValue::Varint(v) => Ok(*v),
            FieldValue::Bytes(_) => Err(CodecError::Unexpected),
        },
    }
}

/// Reads a 32-bit unsigned field.
pub fn read_u32(fs: &Vec<Field>, k: u32) -> (r: Result<u32, CodecError>)
    ensures
        match r {
            Ok(v) => u32_value(fields_view(fs@), k) == Some(v),
            Err(e) => u32_value(fields_view(fs@), k) is None && e == CodecError::Unexpected,
        },
{
    let v = match read_uint(fs, k) {
        Ok(v) => v,
        Err(e) => {
            return Err(e);
        },
    };
    if v > u32::MAX as u64 {
        Err(CodecError::Unexpected)
    } else {
        Ok(v as u32)
    }
}

/// The signed 32-bit integer a varint carries.
pub fn int32_from_wire(v: u64) -> (r: i32)
    ensures
        r == int32_of(v),
{
    let low: u64 = v % 0x1_0000_0000;
    if low < 0x8000_0000 {
        low as i32
    } else {
        (low as i64 - 0x1_0000_0000) as i32
    }
}

/// The varint that carries a signed 32-bit integer.
pub fn int32_to_wire(s: i32) -> (r: u64)
    ensures
        r == int32_wire(s),
        int32_of(r) == s,
{
    if s >= 0 {
        s as u64
    } else {
        let r = (s as i128 + 0x1_0000_0000_0000_0000) as u64;
        assert(r as int % 0x1_0000_0000 == s as int + 0x1_0000_0000) by (nonlinear_arith)
            requires
                r as int == s as int + 0x1_0000_0000_0000_0000,
                s < 0,
                s >= -0x8000_0000,
        ;
        r
    }
}

/// Reads a signed 32-bit field.
pub fn read_int(fs: &Vec<Field>, k: u32) -> (r: Result<i32, CodecError>)
    ensures
        match r {
            Ok(v) => int_value(fields_view(fs@), k) == Some(v),
            Err(e) => int_value(fields_view(fs@), k) is None && e == CodecError::Unexpected,
        },
{
    match read_uint(fs, k) {
        Ok(v) => Ok(int32_from_wire(v)),
        Err(e) => Err(e),
    }
}

/// Reads a boolean field.
pub fn read_bool(fs: &Vec<Field>, k: u32) -> (r: Result<bool, CodecError>)
    ensures
        match r {
            Ok(v) => bool_value(fields_view(fs@), k) == Some(v),
            Err(e) => bool_value(fields_view(fs@), k) is None && e == CodecError::Unexpected,
        },
{
    match read_uint(fs, k) {
        Ok(v) => Ok(v != 0),
        Err(e) => Err(e),
    }
}

/// The field that carries `s` as UTF-8.
pub fn text_field(k: u32, s: &str) -> (r: Field)
    requires
        1 <= k <= MAX_FIELD_NUMBER,
    ensures
        r@ == text_wire(k, s@),
        crate::wire::valid_field(r@),
{
    let mut b: Vec<u8> = Vec::new();
    b.extend_from_slice(s.as_bytes());
    let _ = b.len();
    assert(b@ =~= encode_utf8(s@));
    Field { number: k, value: FieldValue::Bytes(b) }
}

/// The field that carries an integer.
pub fn uint_field(k: u32, v: u64) -> (r: Field)
    requires
        1 <= k <= MAX_FIELD_NUMBER,
    ensures
        r@ == uint_wire(k, v),
        crate::wire::valid_field(r@),
{
    Field { number: k, value: FieldValue::Varint(v) }
}

/// A text message to a contact or a room; `aters` lists the ids it mentions, comma-separated.
pub struct TextMsg {
    pub msg: String,
    pub receiver: String,
    pub aters: String,
}

impl TextMsg {
    /// The fields the record is written as.
    pub open spec fn wire(&self) -> Seq<WireField> {
        seq![text_wire(1, self.msg@), text_wire(2, self.receiver@), text_wire(3, self.aters@)]
    }

    pub fn to_fields(&self) -> (r: Vec<Field>)
        ensures
            fields_view(r@) == self.wire(),
            valid_fields(fields_view(r@)),
    {
        let mut fs: Vec<Field> = Vec::new();
        fs.push(text_field(1, self.msg.as_str()));
        fs.push(text_field(2, self.receiver.as_str()));
        fs.push(text_field(3, self.aters.as_str()));
        assert(fields_view(fs@) =~= self.wire());
        fs
    }
}

/// A file or image on the local disk, to be sent.
pub struct PathMsg {
    pub path: String,
    pub receiver: String,
}

impl PathMsg {
    /// The fields the record is written as.
    pub open spec fn wire(&self) -> Seq<WireField> {
        seq![text_wire(1, self.path@), text_wire(2, self.receiver@)]
    }

    pub fn to_fields(&self) -> (r: Vec<Field>)
        ensures
            fields_view(r@) == self.wire(),
            valid_fields(fields_view(r@)),
    {
        let mut fs: Vec<Field> = Vec::new();
        fs.push(text_field(1, self.path.as_str()));
        fs.push(text_field(2, self.receiver.as_str()));
        assert(fields_view(fs@) =~= self.wire());
        fs
    }
}

/// An SQL query against one of the client's databases.
pub struct DbQuery {
    pub db: String,
    pub sql: String,
}

impl DbQuery {
    /// The fields the record is written as.
    pub open spec fn wire(&self) -> Seq<WireField> {
        seq![text_wire(1, self.db@), text_wire(2, self.sql@)]
    }

    pub fn to_fields(&self) -> (r: Vec<Field>)
        ensures
            fields_view(r@) == self.wire(),
            valid_fields(fields_view(r@)),
    {
        let mut fs: Vec<Field> = Vec::new();
        fs.push(text_field(1, self.db.as_str()));
        fs.push(text_field(2, self.sql.as_str()));
        assert(fields_view(fs@) =~= self.wire());
        fs
    }
}

/// A pending friend request, to be accepted.
pub struct Verification {
    pub v3: String,
    pub v4: String,
    pub scene: i32,
}

impl Verification {
    /// The fields the record is written as.
    pub open spec fn wire(&self) -> Seq<WireField> {
        seq![text_wire(1, self.v3@), text_wire(2, self.v4@), uint_wire(3, int32_wire(self.scene))]
    }

    pub fn to_fields(&self) -> (r: Vec<Field>)
        ensures
            fields_view(r@) == self.wire(),
            valid_fields(fields_view(r@)),
    {
        let mut fs: Vec<Field> = Vec::new();
        fs.push(text_field(1, self.v3.as_str()));
        fs.push(text_field(2, self.v4.as_str()));
        fs.push(uint_field(3, int32_to_wire(self.scene)));
        assert(fields_view(fs@) =~= self.wire());
        fs
    }
}

/// Members of a room to add, invite or remove; `wxids` is comma-separated.
pub struct MemberMgmt {
    pub roomid: String,
    pub wxids: String,
}

impl MemberMgmt {
    /// The fields the record is written as.
    pub open spec fn wire(&self) -> Seq<WireField> {
        seq![text_wire(1, self.roomid@), text_wire(2, self.wxids@)]
    }

    pub fn to_fields(&self) -> (r: Vec<Field>)
        ensures
            fields_view(r@) == self.wire(),
            valid_fields(fields_view(r@)),
    {
        let mut fs: Vec<Field> = Vec::new();
        fs.push(text_field(1, self.roomid.as_str()));
        fs.push(text_field(2, self.wxids.as_str()));
        assert(fields_view(fs@) =~= self.wire());
        fs
    }
}

/// An encrypted image and the directory to decrypt it into.
pub struct DecPath {
    pub src: String,
    pub dst: String,
}

impl DecPath {
    /// The fields the record is written as.
    pub open spec fn wire(&self) -> Seq<WireField> {
        seq![text_wire(1, self.src@), text_wire(2, self.dst@)]
    }

    pub fn to_fields(&self) -> (r: Vec<Field>)
        ensures
            fields_view(r@) == self.wire(),
            valid_fields(fields_view(r@)),
    {
        let mut fs: Vec<Field> = Vec::new();
        fs.push(text_field(1, self.src.as_str()));
        fs.push(text_field(2, self.dst.as_str()));
        assert(fields_view(fs@) =~= self.wire());
        fs
    }
}

/// A money transfer to accept.
pub struct Transfer {
    pub wxid: String,
    pub tfid: String,
    pub taid: String,
}

impl Transfer {
    /// The fields the record is written as.
    pub open spec fn wire(&self) -> Seq<WireField> {
        seq![text_wire(1, self.wxid@), text_wire(2, self.tfid@), text_wire(3, self.taid@)]
    }

    pub fn to_fields(&self) -> (r: Vec<Field>)
        ensures
            fields_view(r@) == self.wire(),
            valid_fields(fields_view(r@)),
    {
        let mut fs: Vec<Field> = Vec::new();
        fs.push(text_field(1, self.wxid.as_str()));
        fs.push(text_field(2, self.tfid.as_str()));
        fs.push(text_field(3, self.taid.as_str()));
        assert(fields_view(fs@) =~= self.wire());
        fs
    }
}

/// The attachment of a received message, to download.
pub struct AttachMsg {
    pub id: u64,
    pub thumb: String,
    pub extra: String,
}

impl AttachMsg {
    /// The fields the record is written as.
    pub open spec fn wire(&self) -> Seq<WireField> {
        seq![uint_wire(1, self.id), text_wire(2, self.thumb@), text_wire(3, self.extra@)]
    }

    pub fn to_fields(&self) -> (r: Vec<Field>)
        ensures
            fields_view(r@) == self.wire(),
            valid_fields(fields_view(r@)),
    {
        let mut fs: Vec<Field> = Vec::new();
        fs.push(uint_field(1, self.id));
        fs.push(text_field(2, self.thumb.as_str()));
        fs.push(text_field(3, self.extra.as_str()));
        assert(fields_view(fs@) =~= self.wire());
        fs
    }
}

/// A voice message to save into a directory.
pub struct AudioMsg {
    pub id: u64,
    pub dir: String,
}

impl AudioMsg {
    /// The fields the record is written as.
    pub open spec fn wire(&self) -> Seq<WireField> {
        seq![uint_wire(1, self.id), text_wire(2, self.dir@)]
    }

    pub fn to_fields(&self) -> (r: Vec<Field>)
        ensures
            fields_view(r@) == self.wire(),
            valid_fields(fields_view(r@)),
    {
        let mut fs: Vec<Field> = Vec::new();
        fs.push(uint_field(1, self.id));
        fs.push(text_field(2, self.dir.as_str()));
        assert(fields_view(fs@) =~= self.wire());
        fs
    }
}

/// A link card.
pub struct RichText {
    pub name: String,
    pub account: String,
    pub title: String,
    pub digest: String,
    pub url: String,
    pub thumburl: String,
    pub receiver: String,
}

impl RichText {
    /// The fields the record is written as.
    pub open spec fn wire(&self) -> Seq<WireField> {
        seq![text_wire(1, self.name@), text_wire(2, self.account@), text_wire(3, self.title@), text_wire(4, self.digest@), text_wire(5, self.url@), text_wire(6, self.thumburl@), text_wire(7, self.receiver@)]
    }

    pub fn to_fields(&self) -> (r: Vec<Field>)
        ensures
            fields_view(r@) == self.wire(),
            valid_fields(fields_view(r@)),
    {
        let mut fs: Vec<Field> = Vec::new();
        fs.push(text_field(1, self.name.as_str()));
        fs.push(text_field(2, self.account.as_str()));
        fs.push(text_field(3, self.title.as_str()));
        fs.push(text_field(4, self.digest.as_str()));
        fs.push(text_field(5, self.url.as_str()));
        fs.push(text_field(6, self.thumburl.as_str()));
        fs.push(text_field(7, self.receiver.as_str()));
        assert(fields_view(fs@) =~= self.wire());
        fs
    }
}

/// A pat on a member of a room.
pub struct PatMsg {
    pub roomid: String,
    pub wxid: String,
}

impl PatMsg {
    /// The fields the record is written as.
    pub open spec fn wire(&self) -> Seq<WireField> {
        seq![text_wire(1, self.roomid@), text_wire(2, self.wxid@)]
    }

    pub fn to_fields(&self) -> (r: Vec<Field>)
        ensures
            fields_view(r@) == self.wire(),
            valid_fields(fields_view(r@)),
    {
        let mut fs: Vec<Field> = Vec::new();
        fs.push(text_field(1, self.roomid.as_str()));
        fs.push(text_field(2, self.wxid.as_str()));
        assert(fields_view(fs@) =~= self.wire());
        fs
    }
}

/// A received message to forward.
pub struct ForwardMsg {
    pub id: u64,
    pub receiver: String,
}

impl ForwardMsg {
    /// The fields the record is written as.
    pub open spec fn wire(&self) -> Seq<WireField> {
        seq![uint_wire(1, self.id), text_wire(2, self.receiver@)]
    }

    pub fn to_fields(&self) -> (r: Vec<Field>)
        ensures
            fields_view(r@) == self.wire(),
            valid_fields(fields_view(r@)),
    {
        let mut fs: Vec<Field> = Vec::new();
        fs.push(uint_field(1, self.id));
        fs.push(text_field(2, self.receiver.as_str()));
        assert(fields_view(fs@) =~= self.wire());
        fs
    }
}

/// The payload of every field numbered `k`, in order; each must be
/// length-delimited.
pub open spec fn repeated_bytes(fs: Seq<WireField>, k: u32) -> Option<Seq<Seq<u8>>>
    decreases fs.len(),
{
    if fs.len() == 0 {
        Some(Seq::empty())
    } else {
        match repeated_bytes(fs.drop_last(), k) {
            None => None,
            Some(items) => if fs.last().number == k {
                match fs.last().value {
                    WireValue::Bytes(b) => Some(items.push(b)),
                    WireValue::Varint(_) => None,
                }
            } else {
                Some(items)
            },
        }
    }
}

/// Decodes each item with `f`; fails where any item fails.
pub open spec fn each_of<A>(items: Seq<Seq<u8>>, f: spec_fn(Seq<u8>) -> Option<A>) -> Option<Seq<A>>
    decreases items.len(),
{
    if items.len() == 0 {
        Some(Seq::empty())
    } else {
        match (each_of(items.drop_last(), f), f(items.last())) {
            (Some(a), Some(x)) => Some(a.push(x)),
            _ => None,
        }
    }
}

proof fn lemma_each_of_failure_persists<A>(items: Seq<Seq<u8>>, f: spec_fn(Seq<u8>) -> Option<A>, k: int)
    requires
        0 <= k <= items.len(),
        each_of(items.take(k), f) is None,
    ensures
        each_of(items, f) is None,
    decreases items.len() - k,
{
    if k < items.len() {
        assert(items.take(k + 1).drop_last() =~= items.take(k));
        lemma_each_of_failure_persists(items, f, k + 1);
    } else {
        assert(items.take(k) =~= items);
    }
}

pub open spec fn bytes_view(v: Seq<Vec<u8>>) -> Seq<Seq<u8>> {
    v.map_values(|b: Vec<u8>| b@)
}

/// The payloads of every field numbered `k`.
pub fn read_repeated(fs: &Vec<Field>, k: u32) -> (r: Result<Vec<Vec<u8>>, CodecError>)
    ensures
        match r {
            Ok(items) => repeated_bytes(fields_view(fs@), k) == Some(bytes_view(items@)),
            Err(e) => repeated_bytes(fields_view(fs@), k) is None && e == CodecError::Unexpected,
        },
{
    let ghost all = fields_view(fs@);
    let mut out: Vec<Vec<u8>> = Vec::new();
    let mut i: usize = 0;
    assert(bytes_view(out@) =~= Seq::<Seq<u8>>::empty());
    while i < fs.len()
        invariant
            i <= fs@.len(),
            all == fields_view(fs@),
            repeated_bytes(all.take(i as int), k) == Some(bytes_view(out@)),
        decreases fs@.len() - i,
    {
        let ghost pre = all.take(i + 1);
        assert(pre.drop_last() =~= all.take(i as int));
        assert(pre.last() == fs@[i as int]@);
        if fs[i].number == k {
            match &fs[i].value {
                FieldValue::Bytes(b) => {
                    let ghost before = bytes_view(out@);
                    out.push(copy_bytes(b));
                    assert(bytes_view(out@) =~= before.push(b@));
                },
                FieldValue::Varint(_) => {
                    proof {
                        lemma_repeated_failure_persists(all, k, i + 1);
                    }
                    return Err(CodecError::Unexpected);
                },
            }
        }
        i = i + 1;
    }
    assert(all.take(i as int) =~= all);
    Ok(out)
}

proof fn lemma_repeated_failure_persists(fs: Seq<WireField>, k: u32, n: int)
    requires
        0 <= n <= fs.len(),
        repeated_bytes(fs.take(n), k) is None,
    ensures
        repeated_bytes(fs, k) is None,
    decreases fs.len() - n,
{
    if n < fs.len() {
        assert(fs.take(n + 1).drop_last() =~= fs.take(n));
        lemma_repeated_failure_persists(fs, k, n + 1);
    } else {
        assert(fs.take(n) =~= fs);
    }
}

/// An inbound chat event.
#[derive(Clone)]
pub struct WxMsg {
    pub is_self: bool,
    pub is_group: bool,
    pub id: u64,
    pub msg_type: u32,
    pub ts: u32,
    pub roomid: String,
    pub content: String,
    pub sender: String,
    pub sign: String,
    pub thumb: String,
    pub extra: String,
    pub xml: String,
}

pub struct WxMsgModel {
    pub is_self: bool,
    pub is_group: bool,
    pub id: u64,
    pub msg_type: u32,
    pub ts: u32,
    pub roomid: Seq<char>,
    pub content: Seq<char>,
    pub sender: Seq<char>,
    pub sign: Seq<char>,
    pub thumb: Seq<char>,
    pub extra: Seq<char>,
    pub xml: Seq<char>,
}

impl View for WxMsg {
    type V = WxMsgModel;

    open spec fn view(&self) -> WxMsgModel {
        WxMsgModel {
            is_self: self.is_self,
            is_group: self.is_group,
            id: self.id,
            msg_type: self.msg_type,
            ts: self.ts,
            roomid: self.roomid@,
            content: self.content@,
            sender: self.sender@,
            sign: self.sign@,
            thumb: self.thumb@,
            extra: self.extra@,
            xml: self.xml@,
        }
    }
}

/// The chat event that a record's fields describe.
pub open spec fn wx_msg_of(fs: Seq<WireField>) -> Option<WxMsgModel> {
    if bool_value(fs, 1) is Some && bool_value(fs, 2) is Some && uint_value(fs, 3) is Some
        && u32_value(fs, 4) is Some && u32_value(fs, 5) is Some && text_value(fs, 6) is Some
        && text_value(fs, 7) is Some && text_value(fs, 8) is Some && text_value(fs, 9) is Some
        && text_value(fs, 10) is Some && text_value(fs, 11) is Some && text_value(fs, 12) is Some {
        Some(
            WxMsgModel {
                is_self: bool_value(fs, 1)->0,
                is_group: bool_value(fs, 2)->0,
                id: uint_value(fs, 3)->0,
                msg_type: u32_value(fs, 4)->0,
                ts: u32_value(fs, 5)->0,
                roomid: text_value(fs, 6)->0,
                content: text_value(fs, 7)->0,
                sender: text_value(fs, 8)->0,
                sign: text_value(fs, 9)->0,
                thumb: text_value(fs, 10)->0,
                extra: text_value(fs, 11)->0,
                xml: text_value(fs, 12)->0,
            },
        )
    } else {
        None
    }
}

/// The chat event that bytes decode to.
pub open spec fn wx_msg_decoding(b: Seq<u8>) -> Option<WxMsgModel> {
    match parse_fields(b) {
        Some(fs) => wx_msg_of(fs),
        None => None,
    }
}

/// With the fields numbered 1, 2, 3, … in order, the value of field `k`
/// is the `k`-th.
proof fn lemma_last_value_numbered(fs: Seq<WireField>, k: u32)
    requires
        forall|j: int| 0 <= j < fs.len() ==> #[trigger] fs[j].number == j + 1,
        1 <= k <= fs.len(),
    ensures
        last_value(fs, k) == Some(fs[k - 1].value),
    decreases fs.len(),
{
    if k < fs.len() {
        let d = fs.drop_last();
        assert forall|j: int| 0 <= j < d.len() implies #[trigger] d[j].number == j + 1 by {
            assert(d[j] == fs[j]);
        }
        lemma_last_value_numbered(d, k);
        assert(d[k - 1] == fs[k - 1]);
    }
}

impl WxMsg {
    /// The fields a chat event is written as, numbered 1 to 12 in order.
    pub open spec fn wire(&self) -> Seq<WireField> {
        seq![uint_wire(1, if self.is_self { 1 } else { 0 }), uint_wire(2, if self.is_group { 1 } else { 0 }), uint_wire(3, self.id), uint_wire(4, self.msg_type as u64), uint_wire(5, self.ts as u64), text_wire(6, self.roomid@), text_wire(7, self.content@), text_wire(8, self.sender@), text_wire(9, self.sign@), text_wire(10, self.thumb@), text_wire(11, self.extra@), text_wire(12, self.xml@)]
    }

    pub fn to_fields(&self) -> (r: Vec<Field>)
        ensures
            fields_view(r@) == self.wire(),
            valid_fields(fields_view(r@)),
    {
        let mut fs: Vec<Field> = Vec::new();
        fs.push(uint_field(1, if self.is_self { 1 } else { 0 }));
        fs.push(uint_field(2, if self.is_group { 1 } else { 0 }));
        fs.push(uint_field(3, self.id));
        fs.push(uint_field(4, self.msg_type as u64));
        fs.push(uint_field(5, self.ts as u64));
        fs.push(text_field(6, self.roomid.as_str()));
        fs.push(text_field(7, self.content.as_str()));
        fs.push(text_field(8, self.sender.as_str()));
        fs.push(text_field(9, self.sign.as_str()));
        fs.push(text_field(10, self.thumb.as_str()));
        fs.push(text_field(11, self.extra.as_str()));
        fs.push(text_field(12, self.xml.as_str()));
        assert(fields_view(fs@) =~= self.wire());
        fs
    }

    /// Encodes a chat event.
    pub fn encode(&self) -> (r: Vec<u8>)
        ensures
            r@ == fields_bytes(self.wire()),
            valid_fields(self.wire()),
    {
        let fs = self.to_fields();
        crate::wire::encode_fields(&fs)
    }

    /// Decoding the fields of a chat event gives the same event.
    pub proof fn lemma_fields_decode(&self)
        ensures
            wx_msg_of(self.wire()) == Some(self@),
    {
        let fs = self.wire();
        assert forall|j: int| 0 <= j < fs.len() implies #[trigger] fs[j].number == j + 1 by {
            if j == 0 {
                assert(fs[j].number == 1);
            } else if j == 1 {
                assert(fs[j].number == 2);
            } else if j == 2 {
                assert(fs[j].number == 3);
            } else if j == 3 {
                assert(fs[j].number == 4);
            } else if j == 4 {
                assert(fs[j].number == 5);
            } else if j == 5 {
                assert(fs[j].number == 6);
            } else if j == 6 {
                assert(fs[j].number == 7);
            } else if j == 7 {
                assert(fs[j].number == 8);
            } else if j == 8 {
                assert(fs[j].number == 9);
            } else if j == 9 {
                assert(fs[j].number == 10);
            } else if j == 10 {
                assert(fs[j].number == 11);
            } else if j == 11 {
                assert(fs[j].number == 12);
            }
        }
        lemma_last_value_numbered(fs, 1);
        lemma_last_value_numbered(fs, 2);
        lemma_last_value_numbered(fs, 3);
        lemma_last_value_numbered(fs, 4);
        lemma_last_value_numbered(fs, 5);
        lemma_last_value_numbered(fs, 6);
        lemma_last_value_numbered(fs, 7);
        lemma_last_value_numbered(fs, 8);
        lemma_last_value_numbered(fs, 9);
        lemma_last_value_numbered(fs, 10);
        lemma_last_value_numbered(fs, 11);
        lemma_last_value_numbered(fs, 12);
    }

    /// A chat event survives the wire: decoding its encoding gives the same
    /// event.
    pub proof fn lemma_round_trip(&self)
        requires
            valid_fields(self.wire()),
        ensures
            wx_msg_decoding(fields_bytes(self.wire())) == Some(self@),
    {
        crate::wire::lemma_fields_round_trip(self.wire());
        self.lemma_fields_decode();
    }
}

impl WxMsg {
    /// Decodes a chat event.
    pub fn decode(b: &[u8]) -> (r: Result<WxMsg, CodecError>)
        ensures
            match r {
                Ok(m) => wx_msg_decoding(b@) == Some(m@),
                Err(_) => wx_msg_decoding(b@) is None,
            },
    {
        let fs = match decode_fields(b) {
            Ok(fs) => fs,
            Err(e) => {
                return Err(e);
            },
        };
        let is_self = match read_bool(&fs, 1) { Ok(v) => v, Err(e) => { return Err(e); } };
        let is_group = match read_bool(&fs, 2) { Ok(v) => v, Err(e) => { return Err(e); } };
        let id = match read_uint(&fs, 3) { Ok(v) => v, Err(e) => { return Err(e); } };
        let msg_type = match read_u32(&fs, 4) { Ok(v) => v, Err(e) => { return Err(e); } };
        let ts = match read_u32(&fs, 5) { Ok(v) => v, Err(e) => { return Err(e); } };
        let roomid = match read_text(&fs, 6) { Ok(v) => v, Err(e) => { return Err(e); } };
        let content = match read_text(&fs, 7) { Ok(v) => v, Err(e) => { return Err(e); } };
        let sender = match read_text(&fs, 8) { Ok(v) => v, Err(e) => { return Err(e); } };
        let sign = match read_text(&fs, 9) { Ok(v) => v, Err(e) => { return Err(e); } };
        let thumb = match read_text(&fs, 10) { Ok(v) => v, Err(e) => { return Err(e); } };
        let extra = match read_text(&fs, 11) { Ok(v) => v, Err(e) => { return Err(e); } };
        let xml = match read_text(&fs, 12) { Ok(v) => v, Err(e) => { return Err(e); } };
        Ok(WxMsg { is_self, is_group, id, msg_type, ts, roomid, content, sender, sign, thumb, extra, xml })
    }
}

/// One column of a database row.
pub struct DbField {
    pub field_type: i32,
    pub column: String,
    pub content: Vec<u8>,
}

pub struct DbFieldModel {
    pub field_type: i32,
    pub column: Seq<char>,
    pub content: Seq<u8>,
}

impl View for DbField {
    type V = DbFieldModel;

    open spec fn view(&self) -> DbFieldModel {
        DbFieldModel { field_type: self.field_type, column: self.column@, content: self.content@ }
    }
}

pub open spec fn db_field_decoding(b: Seq<u8>) -> Option<DbFieldModel> {
    match parse_fields(b) {
        Some(fs) => if int_value(fs, 1) is Some && text_value(fs, 2) is Some && bytes_value(fs, 3) is Some {
            Some(
                DbFieldModel {
                    field_type: int_value(fs, 1)->0,
                    column: text_value(fs, 2)->0,
                    content: bytes_value(fs, 3)->0,
                },
            )
        } else {
            None
        },
        None => None,
    }
}

impl DbField {
    pub fn decode(b: &[u8]) -> (r: Result<DbField, CodecError>)
        ensures
            match r {
                Ok(f) => db_field_decoding(b@) == Some(f@),
                Err(_) => db_field_decoding(b@) is None,
            },
    {
        let fs = match decode_fields(b) {
            Ok(fs) => fs,
            Err(e) => {
                return Err(e);
            },
        };
        let field_type = match read_int(&fs, 1) { Ok(v) => v, Err(e) => { return Err(e); } };
        let column = match read_text(&fs, 2) { Ok(v) => v, Err(e) => { return Err(e); } };
        let content = match read_bytes(&fs, 3) { Ok(v) => v, Err(e) => { return Err(e); } };
        Ok(DbField { field_type, column, content })
    }
}

/// One database row: its columns in order.
pub struct DbRow {
    pub fields: Vec<DbField>,
}

pub open spec fn db_fields_view(v: Seq<DbField>) -> Seq<DbFieldModel> {
    v.map_values(|f: DbField| f@)
}

impl View for DbRow {
    type V = Seq<DbFieldModel>;

    open spec fn view(&self) -> Seq<DbFieldModel> {
        db_fields_view(self.fields@)
    }
}

pub open spec fn db_row_decoding(b: Seq<u8>) -> Option<Seq<DbFieldModel>> {
    match parse_fields(b) {
        Some(fs) => match repeated_bytes(fs, 1) {
            Some(items) => each_of(items, |x: Seq<u8>| db_field_decoding(x)),
            None => None,
        },
        None => None,
    }
}

impl DbRow {
    pub fn decode(b: &[u8]) -> (r: Result<DbRow, CodecError>)
        ensures
            match r {
                Ok(row) => db_row_decoding(b@) == Some(row@),
                Err(_) => db_row_decoding(b@) is None,
            },
    {
        let fs = match decode_fields(b) {
            Ok(fs) => fs,
            Err(e) => {
                return Err(e);
            },
        };
        let items = match read_repeated(&fs, 1) {
            Ok(items) => items,
            Err(e) => {
                return Err(e);
            },
        };
        let ghost iv = bytes_view(items@);
        let ghost f = |x: Seq<u8>| db_field_decoding(x);
        let mut out: Vec<DbField> = Vec::new();
        let mut i: usize = 0;
        assert(iv.take(0) =~= Seq::<Seq<u8>>::empty());
        assert(db_fields_view(out@) =~= Seq::<DbFieldModel>::empty());
        while i < items.len()
            invariant
                i <= items@.len(),
                iv == bytes_view(items@),
                f == (|x: Seq<u8>| db_field_decoding(x)),
                parse_fields(b@) == Some(fields_view(fs@)),
                repeated_bytes(fields_view(fs@), 1) == Some(iv),
                each_of(iv.take(i as int), f) == Some(db_fields_view(out@)),
            decreases items@.len() - i,
        {
            assert(iv.take(i + 1).drop_last() =~= iv.take(i as int));
            assert(iv.take(i + 1).last() == items@[i as int]@);
            match DbField::decode(items[i].as_slice()) {
                Ok(x) => {
                    let ghost before = db_fields_view(out@);
                    out.push(x);
                    assert(db_fields_view(out@) =~= before.push(x@));
                },
                Err(e) => {
                    proof {
                        assert(f(iv.take(i + 1).last()) is None);
                        assert(each_of(iv.take(i + 1), f) is None);
                        lemma_each_of_failure_persists(iv, f, i + 1);
                    }
                    return Err(e);
                },
            }
            i = i + 1;
        }
        assert(iv.take(i as int) =~= iv);
        Ok(DbRow { fields: out })
    }
}

/// The rows a query returned.
pub struct DbRows {
    pub rows: Vec<DbRow>,
}

pub open spec fn db_rows_view(v: Seq<DbRow>) -> Seq<Seq<DbFieldModel>> {
    v.map_values(|r: DbRow| r@)
}

impl View for DbRows {
    type V = Seq<Seq<DbFieldModel>>;

    open spec fn view(&self) -> Seq<Seq<DbFieldModel>> {
        db_rows_view(self.rows@)
    }
}

pub open spec fn db_rows_decoding(b: Seq<u8>) -> Option<Seq<Seq<DbFieldModel>>> {
    match parse_fields(b) {
        Some(fs) => match repeated_bytes(fs, 1) {
            Some(items) => each_of(items, |x: Seq<u8>| db_row_decoding(x)),
            None => None,
        },
        None => None,
    }
}

impl DbRows {
    pub fn decode(b: &[u8]) -> (r: Result<DbRows, CodecError>)
        ensures
            match r {
                Ok(rows) => db_rows_decoding(b@) == Some(rows@),
                Err(_) => db_rows_decoding(b@) is None,
            },
    {
        let fs = match decode_fields(b) {
            Ok(fs) => fs,
            Err(e) => {
                return Err(e);
            },
        };
        let items = match read_repeated(&fs, 1) {
            Ok(items) => items,
            Err(e) => {
                return Err(e);
            },
        };
        let ghost iv = bytes_view(items@);
        let ghost f = |x: Seq<u8>| db_row_decoding(x);
        let mut out: Vec<DbRow> = Vec::new();
        let mut i: usize = 0;
        assert(iv.take(0) =~= Seq::<Seq<u8>>::empty());
        assert(db_rows_view(out@) =~= Seq::<Seq<DbFieldModel>>::empty());
        while i < items.len()
            invariant
                i <= items@.len(),
                iv == bytes_view(items@),
                f == (|x: Seq<u8>| db_row_decoding(x)),
                parse_fields(b@) == Some(fields_view(fs@)),
                repeated_bytes(fields_view(fs@), 1) == Some(iv),
                each_of(iv.take(i as int), f) == Some(db_rows_view(out@)),
            decreases items@.len() - i,
        {
            assert(iv.take(i + 1).drop_last() =~= iv.take(i as int));
            assert(iv.take(i + 1).last() == items@[i as int]@);
            match DbRow::decode(items[i].as_slice()) {
                Ok(x) => {
                    let ghost before = db_rows_view(out@);
                    out.push(x);
                    assert(db_rows_view(out@) =~= before.push(x@));
                },
                Err(e) => {
                    proof {
                        assert(f(iv.take(i + 1).last()) is None);
                        assert(each_of(iv.take(i + 1), f) is None);
                        lemma_each_of_failure_persists(iv, f, i + 1);
                    }
                    return Err(e);
                },
            }
            i = i + 1;
        }
        assert(iv.take(i as int) =~= iv);
        Ok(DbRows { rows: out })
    }
}

/// A member of a chat room, as the room's record lists it.
pub struct RoomMember {
    pub wxid: String,
    pub name: String,
    pub state: i32,
}

pub struct RoomMemberModel {
    pub wxid: Seq<char>,
    pub name: Seq<char>,
    pub state: i32,
}

impl View for RoomMember {
    type V = RoomMemberModel;

    open spec fn view(&self) -> RoomMemberModel {
        RoomMemberModel { wxid: self.wxid@, name: self.name@, state: self.state }
    }
}

pub open spec fn members_view(v: Seq<RoomMember>) -> Seq<RoomMemberModel> {
    v.map_values(|m: RoomMember| m@)
}

/// A member record; an absent name reads as empty.
pub open spec fn room_member_decoding(b: Seq<u8>) -> Option<RoomMemberModel> {
    match parse_fields(b) {
        Some(fs) => if text_value(fs, 1) is Some && text_value(fs, 2) is Some && int_value(fs, 3) is Some {
            Some(
                RoomMemberModel {
                    wxid: text_value(fs, 1)->0,
                    name: text_value(fs, 2)->0,
                    state: int_value(fs, 3)->0,
                },
            )
        } else {
            None
        },
        None => None,
    }
}

/// The member list of a room's record (its field 1, repeated).
pub open spec fn room_members_decoding(b: Seq<u8>) -> Option<Seq<RoomMemberModel>> {
    match parse_fields(b) {
        Some(fs) => match repeated_bytes(fs, 1) {
            Some(items) => each_of(items, |x: Seq<u8>| room_member_decoding(x)),
            None => None,
        },
        None => None,
    }
}

impl RoomMember {
    pub fn decode(b: &[u8]) -> (r: Result<RoomMember, CodecError>)
        ensures
            match r {
                Ok(m) => room_member_decoding(b@) == Some(m@),
                Err(_) => room_member_decoding(b@) is None,
            },
    {
        let fs = match decode_fields(b) {
            Ok(fs) => fs,
            Err(e) => {
                return Err(e);
            },
        };
        let wxid = match read_text(&fs, 1) { Ok(v) => v, Err(e) => { return Err(e); } };
        let name = match read_text(&fs, 2) { Ok(v) => v, Err(e) => { return Err(e); } };
        let state = match read_int(&fs, 3) { Ok(v) => v, Err(e) => { return Err(e); } };
        Ok(RoomMember { wxid, name, state })
    }

    /// Decodes the member list of a room's record.
    pub fn decode_room(b: &[u8]) -> (r: Result<Vec<RoomMember>, CodecError>)
        ensures
            match r {
                Ok(ms) => room_members_decoding(b@) == Some(members_view(ms@)),
                Err(_) => room_members_decoding(b@) is None,
            },
    {
        let fs = match decode_fields(b) {
            Ok(fs) => fs,
            Err(e) => {
                return Err(e);
            },
        };
        let items = match read_repeated(&fs, 1) {
            Ok(items) => items,
            Err(e) => {
                return Err(e);
            },
        };
        let ghost iv = bytes_view(items@);
        let ghost f = |x: Seq<u8>| room_member_decoding(x);
        let mut out: Vec<RoomMember> = Vec::new();
        let mut i: usize = 0;
        assert(iv.take(0) =~= Seq::<Seq<u8>>::empty());
        assert(members_view(out@) =~= Seq::<RoomMemberModel>::empty());
        while i < items.len()
            invariant
                i <= items@.len(),
                iv == bytes_view(items@),
                f == (|x: Seq<u8>| room_member_decoding(x)),
                parse_fields(b@) == Some(fields_view(fs@)),
                repeated_bytes(fields_view(fs@), 1) == Some(iv),
                each_of(iv.take(i as int), f) == Some(members_view(out@)),
            decreases items@.len() - i,
        {
            assert(iv.take(i + 1).drop_last() =~= iv.take(i as int));
            assert(iv.take(i + 1).last() == items@[i as int]@);
            match RoomMember::decode(items[i].as_slice()) {
                Ok(x) => {
                    let ghost before = members_view(out@);
                    out.push(x);
                    assert(members_view(out@) =~= before.push(x@));
                },
                Err(e) => {
                    proof {
                        assert(f(iv.take(i + 1).last()) is None);
                        assert(each_of(iv.take(i + 1), f) is None);
                        lemma_each_of_failure_persists(iv, f, i + 1);
                    }
                    return Err(e);
                },
            }
            i = i + 1;
        }
        assert(iv.take(i as int) =~= iv);
        Ok(out)
    }
}

/// The logged-in account, as the agent reports it.
pub struct UserInfo {
    pub wxid: String,
    pub name: String,
    pub mobile: String,
    pub home: String,
    pub alias: String,
}

pub struct UserInfoModel {
    pub wxid: Seq<char>,
    pub name: Seq<char>,
    pub mobile: Seq<char>,
    pub home: Seq<char>,
    pub alias: Seq<char>,
}

impl View for UserInfo {
    type V = UserInfoModel;

    open spec fn view(&self) -> UserInfoModel {
        UserInfoModel {
            wxid: self.wxid@,
            name: self.name@,
            mobile: self.mobile@,
            home: self.home@,
            alias: self.alias@,
        }
    }
}

pub open spec fn user_info_decoding(b: Seq<u8>) -> Option<UserInfoModel> {
    match parse_fields(b) {
        Some(fs) => if text_value(fs, 1) is Some && text_value(fs, 2) is Some && text_value(fs, 3)
            is Some && text_value(fs, 4) is Some && text_value(fs, 5) is Some {
            Some(
                UserInfoModel {
                    wxid: text_value(fs, 1)->0,
                    name: text_value(fs, 2)->0,
                    mobile: text_value(fs, 3)->0,
                    home: text_value(fs, 4)->0,
                    alias: text_value(fs, 5)->0,
                },
            )
        } else {
            None
        },
        None => None,
    }
}

impl UserInfo {
    pub fn decode(b: &[u8]) -> (r: Result<UserInfo, CodecError>)
        ensures
            match r {
                Ok(u) => user_info_decoding(b@) == Some(u@),
                Err(_) => user_info_decoding(b@) is None,
            },
    {
        let fs = match decode_fields(b) {
            Ok(fs) => fs,
            Err(e) => {
                return Err(e);
            },
        };
        let wxid = match read_text(&fs, 1) { Ok(v) => v, Err(e) => { return Err(e); } };
        let name = match read_text(&fs, 2) { Ok(v) => v, Err(e) => { return Err(e); } };
        let mobile = match read_text(&fs, 3) { Ok(v) => v, Err(e) => { return Err(e); } };
        let home = match read_text(&fs, 4) { Ok(v) => v, Err(e) => { return Err(e); } };
        let alias = match read_text(&fs, 5) { Ok(v) => v, Err(e) => { return Err(e); } };
        Ok(UserInfo { wxid, name, mobile, home, alias })
    }
}

/// A contact, a room or an official account.
pub struct RpcContact {
    pub wxid: String,
    pub code: String,
    pub remark: String,
    pub name: String,
    pub country: String,
    pub province: String,
    pub city: String,
    pub gender: i32,
}

pub struct RpcContactModel {
    pub wxid: Seq<char>,
    pub code: Seq<char>,
    pub remark: Seq<char>,
    pub name: Seq<char>,
    pub country: Seq<char>,
    pub province: Seq<char>,
    pub city: Seq<char>,
    pub gender: i32,
}

impl View for RpcContact {
    type V = RpcContactModel;

    open spec fn view(&self) -> RpcContactModel {
        RpcContactModel { wxid: self.wxid@, code: self.code@, remark: self.remark@, name: self.name@, country: self.country@, province: self.province@, city: self.city@, gender: self.gender }
    }
}

pub open spec fn rpc_contact_decoding(b: Seq<u8>) -> Option<RpcContactModel> {
    match parse_fields(b) {
        Some(fs) => if text_value(fs, 1) is Some && text_value(fs, 2) is Some && text_value(fs, 3) is Some && text_value(fs, 4) is Some && text_value(fs, 5) is Some && text_value(fs, 6) is Some && text_value(fs, 7) is Some && int_value(fs, 8) is Some {
            Some(RpcContactModel { wxid: text_value(fs, 1)->0, code: text_value(fs, 2)->0, remark: text_value(fs, 3)->0, name: text_value(fs, 4)->0, country: text_value(fs, 5)->0, province: text_value(fs, 6)->0, city: text_value(fs, 7)->0, gender: int_value(fs, 8)->0 })
        } else {
            None
        },
        None => None,
    }
}

impl RpcContact {
    pub fn decode(b: &[u8]) -> (r: Result<RpcContact, CodecError>)
        ensures
            match r {
                Ok(x) => rpc_contact_decoding(b@) == Some(x@),
                Err(_) => rpc_contact_decoding(b@) is None,
            },
    {
        let fs = match decode_fields(b) {
            Ok(fs) => fs,
            Err(e) => {
                return Err(e);
            },
        };
        let wxid = match read_text(&fs, 1) { Ok(v) => v, Err(e) => { return Err(e); } };
        let code = match read_text(&fs, 2) { Ok(v) => v, Err(e) => { return Err(e); } };
        let remark = match read_text(&fs, 3) { Ok(v) => v, Err(e) => { return Err(e); } };
        let name = match read_text(&fs, 4) { Ok(v) => v, Err(e) => { return Err(e); } };
        let country = match read_text(&fs, 5) { Ok(v) => v, Err(e) => { return Err(e); } };
        let province = match read_text(&fs, 6) { Ok(v) => v, Err(e) => { return Err(e); } };
        let city = match read_text(&fs, 7) { Ok(v) => v, Err(e) => { return Err(e); } };
        let gender = match read_int(&fs, 8) { Ok(v) => v, Err(e) => { return Err(e); } };
        Ok(RpcContact { wxid, code, remark, name, country, province, city, gender })
    }
}

pub open spec fn rpc_contacts_view(v: Seq<RpcContact>) -> Seq<RpcContactModel> {
    v.map_values(|x: RpcContact| x@)
}

/// The contact list.
pub struct RpcContacts {
    pub contacts: Vec<RpcContact>,
}

impl View for RpcContacts {
    type V = Seq<RpcContactModel>;

    open spec fn view(&self) -> Seq<RpcContactModel> {
        rpc_contacts_view(self.contacts@)
    }
}

pub open spec fn rpc_contact_list_decoding(b: Seq<u8>) -> Option<Seq<RpcContactModel>> {
    match parse_fields(b) {
        Some(fs) => match repeated_bytes(fs, 1) {
            Some(items) => each_of(items, |x: Seq<u8>| rpc_contact_decoding(x)),
            None => None,
        },
        None => None,
    }
}

impl RpcContacts {
    pub fn decode(b: &[u8]) -> (r: Result<RpcContacts, CodecError>)
        ensures
            match r {
                Ok(x) => rpc_contact_list_decoding(b@) == Some(x@),
                Err(_) => rpc_contact_list_decoding(b@) is None,
            },
    {
        let fs = match decode_fields(b) {
            Ok(fs) => fs,
            Err(e) => {
                return Err(e);
            },
        };
        let items = match read_repeated(&fs, 1) {
            Ok(items) => items,
            Err(e) => {
                return Err(e);
            },
        };
        let ghost iv = bytes_view(items@);
        let ghost f = |x: Seq<u8>| rpc_contact_decoding(x);
        let mut out: Vec<RpcContact> = Vec::new();
        let mut i: usize = 0;
        assert(iv.take(0) =~= Seq::<Seq<u8>>::empty());
        assert(rpc_contacts_view(out@) =~= Seq::<RpcContactModel>::empty());
        while i < items.len()
            invariant
                i <= items@.len(),
                iv == bytes_view(items@),
                f == (|x: Seq<u8>| rpc_contact_decoding(x)),
                parse_fields(b@) == Some(fields_view(fs@)),
                repeated_bytes(fields_view(fs@), 1) == Some(iv),
                each_of(iv.take(i as int), f) == Some(rpc_contacts_view(out@)),
            decreases items@.len() - i,
        {
            assert(iv.take(i + 1).drop_last() =~= iv.take(i as int));
            assert(iv.take(i + 1).last() == items@[i as int]@);
            match RpcContact::decode(items[i].as_slice()) {
                Ok(x) => {
                    let ghost before = rpc_contacts_view(out@);
                    out.push(x);
                    assert(rpc_contacts_view(out@) =~= before.push(x@));
                },
                Err(e) => {
                    proof {
                        assert(f(iv.take(i + 1).last()) is None);
                        assert(each_of(iv.take(i + 1), f) is None);
                        lemma_each_of_failure_persists(iv, f, i + 1);
                    }
                    return Err(e);
                },
            }
            i = i + 1;
        }
        assert(iv.take(i as int) =~= iv);
        Ok(RpcContacts { contacts: out })
    }
}

/// A table of a database, with the SQL that created it.
pub struct DbTable {
    pub name: String,
    pub sql: String,
}

pub struct DbTableModel {
    pub name: Seq<char>,
    pub sql: Seq<char>,
}

impl View for DbTable {
    type V = DbTableModel;

    open spec fn view(&self) -> DbTableModel {
        DbTableModel { name: self.name@, sql: self.sql@ }
    }
}

pub open spec fn db_table_decoding(b: Seq<u8>) -> Option<DbTableModel> {
    match parse_fields(b) {
        Some(fs) => if text_value(fs, 1) is Some && text_value(fs, 2) is Some {
            Some(DbTableModel { name: text_value(fs, 1)->0, sql: text_value(fs, 2)->0 })
        } else {
            None
        },
        None => None,
    }
}

impl DbTable {
    pub fn decode(b: &[u8]) -> (r: Result<DbTable, CodecError>)
        ensures
            match r {
                Ok(x) => db_table_decoding(b@) == Some(x@),
                Err(_) => db_table_decoding(b@) is None,
            },
    {
        let fs = match decode_fields(b) {
            Ok(fs) => fs,
            Err(e) => {
                return Err(e);
            },
        };
        let name = match read_text(&fs, 1) { Ok(v) => v, Err(e) => { return Err(e); } };
        let sql = match read_text(&fs, 2) { Ok(v) => v, Err(e) => { return Err(e); } };
        Ok(DbTable { name, sql })
    }
}

pub open spec fn db_tables_view(v: Seq<DbTable>) -> Seq<DbTableModel> {
    v.map_values(|x: DbTable| x@)
}

/// The tables of a database.
pub struct DbTables {
    pub tables: Vec<DbTable>,
}

impl View for DbTables {
    type V = Seq<DbTableModel>;

    open spec fn view(&self) -> Seq<DbTableModel> {
        db_tables_view(self.tables@)
    }
}

pub open spec fn db_table_list_decoding(b: Seq<u8>) -> Option<Seq<DbTableModel>> {
    match parse_fields(b) {
        Some(fs) => match repeated_bytes(fs, 1) {
            Some(items) => each_of(items, |x: Seq<u8>| db_table_decoding(x)),
            None => None,
        },
        None => None,
    }
}

impl DbTables {
    pub fn decode(b: &[u8]) -> (r: Result<DbTables, CodecError>)
        ensures
            match r {
                Ok(x) => db_table_list_decoding(b@) == Some(x@),
                Err(_) => db_table_list_decoding(b@) is None,
            },
    {
        let fs = match decode_fields(b) {
            Ok(fs) => fs,
            Err(e) => {
                return Err(e);
            },
        };
        let items = match read_repeated(&fs, 1) {
            Ok(items) => items,
            Err(e) => {
                return Err(e);
            },
        };
        let ghost iv = bytes_view(items@);
        let ghost f = |x: Seq<u8>| db_table_decoding(x);
        let mut out: Vec<DbTable> = Vec::new();
        let mut i: usize = 0;
        assert(iv.take(0) =~= Seq::<Seq<u8>>::empty());
        assert(db_tables_view(out@) =~= Seq::<DbTableModel>::empty());
        while i < items.len()
            invariant
                i <= items@.len(),
                iv == bytes_view(items@),
                f == (|x: Seq<u8>| db_table_decoding(x)),
                parse_fields(b@) == Some(fields_view(fs@)),
                repeated_bytes(fields_view(fs@), 1) == Some(iv),
                each_of(iv.take(i as int), f) == Some(db_tables_view(out@)),
            decreases items@.len() - i,
        {
            assert(iv.take(i + 1).drop_last() =~= iv.take(i as int));
            assert(iv.take(i + 1).last() == items@[i as int]@);
            match DbTable::decode(items[i].as_slice()) {
                Ok(x) => {
                    let ghost before = db_tables_view(out@);
                    out.push(x);
                    assert(db_tables_view(out@) =~= before.push(x@));
                },
                Err(e) => {
                    proof {
                        assert(f(iv.take(i + 1).last()) is None);
                        assert(each_of(iv.take(i + 1), f) is None);
                        lemma_each_of_failure_persists(iv, f, i + 1);
                    }
                    return Err(e);
                },
            }
            i = i + 1;
        }
        assert(iv.take(i as int) =~= iv);
        Ok(DbTables { tables: out })
    }
}

/// One entry of the message type table: a type code and its name.
pub struct MsgType {
    pub key: i32,
    pub value: String,
}

pub struct MsgTypeModel {
    pub key: i32,
    pub value: Seq<char>,
}

impl View for MsgType {
    type V = MsgTypeModel;

    open spec fn view(&self) -> MsgTypeModel {
        MsgTypeModel { key: self.key, value: self.value@ }
    }
}

pub open spec fn msg_type_decoding(b: Seq<u8>) -> Option<MsgTypeModel> {
    match parse_fields(b) {
        Some(fs) => if int_value(fs, 1) is Some && text_value(fs, 2) is Some {
            Some(MsgTypeModel { key: int_value(fs, 1)->0, value: text_value(fs, 2)->0 })
        } else {
            None
        },
        None => None,
    }
}

impl MsgType {
    pub fn decode(b: &[u8]) -> (r: Result<MsgType, CodecError>)
        ensures
            match r {
                Ok(x) => msg_type_decoding(b@) == Some(x@),
                Err(_) => msg_type_decoding(b@) is None,
            },
    {
        let fs = match decode_fields(b) {
            Ok(fs) => fs,
            Err(e) => {
                return Err(e);
            },
        };
        let key = match read_int(&fs, 1) { Ok(v) => v, Err(e) => { return Err(e); } };
        let value = match read_text(&fs, 2) { Ok(v) => v, Err(e) => { return Err(e); } };
        Ok(MsgType { key, value })
    }
}

pub open spec fn msg_types_view(v: Seq<MsgType>) -> Seq<MsgTypeModel> {
    v.map_values(|x: MsgType| x@)
}

/// The message type table.
pub struct MsgTypes {
    pub types: Vec<MsgType>,
}

impl View for MsgTypes {
    type V = Seq<MsgTypeModel>;

    open spec fn view(&self) -> Seq<MsgTypeModel> {
        msg_types_view(self.types@)
    }
}

pub open spec fn msg_type_list_decoding(b: Seq<u8>) -> Option<Seq<MsgTypeModel>> {
    match parse_fields(b) {
        Some(fs) => match repeated_bytes(fs, 1) {
            Some(items) => each_of(items, |x: Seq<u8>| msg_type_decoding(x)),
            None => None,
        },
        None => None,
    }
}

impl MsgTypes {
    pub fn decode(b: &[u8]) -> (r: Result<MsgTypes, CodecError>)
        ensures
            match r {
                Ok(x) => msg_type_list_decoding(b@) == Some(x@),
                Err(_) => msg_type_list_decoding(b@) is None,
            },
    {
        let fs = match decode_fields(b) {
            Ok(fs) => fs,
            Err(e) => {
                return Err(e);
            },
        };
        let items = match read_repeated(&fs, 1) {
            Ok(items) => items,
            Err(e) => {
                return Err(e);
            },
        };
        let ghost iv = bytes_view(items@);
        let ghost f = |x: Seq<u8>| msg_type_decoding(x);
        let mut out: Vec<MsgType> = Vec::new();
        let mut i: usize = 0;
        assert(iv.take(0) =~= Seq::<Seq<u8>>::empty());
        assert(msg_types_view(out@) =~= Seq::<MsgTypeModel>::empty());
        while i < items.len()
            invariant
                i <= items@.len(),
                iv == bytes_view(items@),
                f == (|x: Seq<u8>| msg_type_decoding(x)),
                parse_fields(b@) == Some(fields_view(fs@)),
                repeated_bytes(fields_view(fs@), 1) == Some(iv),
                each_of(iv.take(i as int), f) == Some(msg_types_view(out@)),
            decreases items@.len() - i,
        {
            assert(iv.take(i + 1).drop_last() =~= iv.take(i as int));
            assert(iv.take(i + 1).last() == items@[i as int]@);
            match MsgType::decode(items[i].as_slice()) {
                Ok(x) => {
                    let ghost before = msg_types_view(out@);
                    out.push(x);
                    assert(msg_types_view(out@) =~= before.push(x@));
                },
                Err(e) => {
                    proof {
                        assert(f(iv.take(i + 1).last()) is None);
                        assert(each_of(iv.take(i + 1), f) is None);
                        lemma_each_of_failure_persists(iv, f, i + 1);
                    }
                    return Err(e);
                },
            }
            i = i + 1;
        }
        assert(iv.take(i as int) =~= iv);
        Ok(MsgTypes { types: out })
    }
}

/// Text carried as UTF-8 bytes.
pub open spec fn utf8_text(b: Seq<u8>) -> Option<Seq<char>> {
    if valid_utf8(b) {
        Some(decode_utf8(b))
    } else {
        None
    }
}

/// Reads UTF-8 text.
pub fn decode_text(b: &[u8]) -> (r: Result<String, CodecError>)
    ensures
        match r {
            Ok(s) => utf8_text(b@) == Some(s@),
            Err(e) => utf8_text(b@) is None && e == CodecError::Unexpected,
        },
{
    let mut c: Vec<u8> = Vec::new();
    c.extend_from_slice(b);
    assert(c@ =~= b@);
    match string_from_utf8(c) {
        Some(s) => Ok(s),
        None => Err(CodecError::Unexpected),
    }
}

pub open spec fn texts_view(v: Seq<String>) -> Seq<Seq<char>> {
    v.map_values(|x: String| x@)
}

/// The names of the client's databases.
pub struct DbNames {
    pub names: Vec<String>,
}

impl View for DbNames {
    type V = Seq<Seq<char>>;

    open spec fn view(&self) -> Seq<Seq<char>> {
        texts_view(self.names@)
    }
}

pub open spec fn db_names_decoding(b: Seq<u8>) -> Option<Seq<Seq<char>>> {
    match parse_fields(b) {
        Some(fs) => match repeated_bytes(fs, 1) {
            Some(items) => each_of(items, |x: Seq<u8>| utf8_text(x)),
            None => None,
        },
        None => None,
    }
}

impl DbNames {
    pub fn decode(b: &[u8]) -> (r: Result<DbNames, CodecError>)
        ensures
            match r {
                Ok(x) => db_names_decoding(b@) == Some(x@),
                Err(_) => db_names_decoding(b@) is None,
            },
    {
        let fs = match decode_fields(b) {
            Ok(fs) => fs,
            Err(e) => {
                return Err(e);
            },
        };
        let items = match read_repeated(&fs, 1) {
            Ok(items) => items,
            Err(e) => {
                return Err(e);
            },
        };
        let ghost iv = bytes_view(items@);
        let ghost f = |x: Seq<u8>| utf8_text(x);
        let mut out: Vec<String> = Vec::new();
        let mut i: usize = 0;
        assert(iv.take(0) =~= Seq::<Seq<u8>>::empty());
        assert(texts_view(out@) =~= Seq::<Seq<char>>::empty());
        while i < items.len()
            invariant
                i <= items@.len(),
                iv == bytes_view(items@),
                f == (|x: Seq<u8>| utf8_text(x)),
                parse_fields(b@) == Some(fields_view(fs@)),
                repeated_bytes(fields_view(fs@), 1) == Some(iv),
                each_of(iv.take(i as int), f) == Some(texts_view(out@)),
            decreases items@.len() - i,
        {
            assert(iv.take(i + 1).drop_last() =~= iv.take(i as int));
            assert(iv.take(i + 1).last() == items@[i as int]@);
            match decode_text(items[i].as_slice()) {
                Ok(x) => {
                    let ghost before = texts_view(out@);
                    out.push(x);
                    assert(texts_view(out@) =~= before.push(x@));
                },
                Err(e) => {
                    proof {
                        assert(f(iv.take(i + 1).last()) is None);
                        assert(each_of(iv.take(i + 1), f) is None);
                        lemma_each_of_failure_persists(iv, f, i + 1);
                    }
                    return Err(e);
                },
            }
            i = i + 1;
        }
        assert(iv.take(i as int) =~= iv);
        Ok(DbNames { names: out })
    }
}

} // verus!
