//! The agent's command set: function codes, payload tags, how each request
//! is built and how each reply is read.

use vstd::prelude::*;
use crate::envelope::{envelope_bytes, envelope_decoding, lemma_envelope_round_trip, Envelope, EnvelopeModel};
use crate::messages::{
    int32_of, text_field, uint_field, text_wire, uint_wire, AttachMsg, AudioMsg, DbQuery, DbRows,
    DecPath, ForwardMsg, MemberMgmt, PatMsg, PathMsg, RichText, Transfer, UserInfo, TextMsg,
    Verification, db_rows_decoding, DbNames, DbTables, MsgTypes, RpcContacts, db_names_decoding,
    db_table_list_decoding, msg_type_list_decoding, rpc_contact_list_decoding, user_info_decoding, int32_from_wire, string_from_utf8,
};
use crate::wire::{
    lemma_fields_round_trip, parse_fields, MAX_FIELD_NUMBER, encode_fields, fields_bytes, fields_view, valid_fields, CodecError, Field, FieldValue,
    WireField, WireValue,
};
use vstd::utf8::{decode_utf8, valid_utf8};

verus! {

pub const FUNC_IS_LOGIN: u32 = 0x01;
pub const FUNC_GET_SELF_WXID: u32 = 0x10;
pub const FUNC_GET_MSG_TYPES: u32 = 0x11;
pub const FUNC_GET_CONTACTS: u32 = 0x12;
pub const FUNC_GET_DB_NAMES: u32 = 0x13;
pub const FUNC_GET_DB_TABLES: u32 = 0x14;
pub const FUNC_GET_USER_INFO: u32 = 0x15;
pub const FUNC_GET_AUDIO_MSG: u32 = 0x16;
pub const FUNC_SEND_TXT: u32 = 0x20;
pub const FUNC_SEND_IMG: u32 = 0x21;
pub const FUNC_SEND_FILE: u32 = 0x22;
pub const FUNC_SEND_RICH_TXT: u32 = 0x25;
pub const FUNC_SEND_PAT_MSG: u32 = 0x26;
pub const FUNC_FORWARD_MSG: u32 = 0x27;
pub const FUNC_ENABLE_RECV_TXT: u32 = 0x30;
pub const FUNC_DISABLE_RECV_TXT: u32 = 0x40;
pub const FUNC_EXEC_DB_QUERY: u32 = 0x50;
pub const FUNC_ACCEPT_FRIEND: u32 = 0x51;
pub const FUNC_RECV_TRANSFER: u32 = 0x52;
pub const FUNC_REFRESH_PYQ: u32 = 0x53;
pub const FUNC_DOWNLOAD_ATTACH: u32 = 0x54;
pub const FUNC_REVOKE_MSG: u32 = 0x56;
pub const FUNC_REFRESH_QRCODE: u32 = 0x57;
pub const FUNC_DECRYPT_IMAGE: u32 = 0x60;
pub const FUNC_ADD_ROOM_MEMBERS: u32 = 0x70;
pub const FUNC_DEL_ROOM_MEMBERS: u32 = 0x71;
pub const FUNC_INV_ROOM_MEMBERS: u32 = 0x72;

/// Request payload tags.
pub const REQ_STR: u32 = 3;
pub const REQ_TXT: u32 = 4;
pub const REQ_FILE: u32 = 5;
pub const REQ_QUERY: u32 = 6;
pub const REQ_V: u32 = 7;
pub const REQ_M: u32 = 8;
pub const REQ_DEC: u32 = 10;
pub const REQ_TF: u32 = 11;
pub const REQ_UI64: u32 = 12;
pub const REQ_FLAG: u32 = 13;
pub const REQ_ATT: u32 = 14;
pub const REQ_AM: u32 = 15;
pub const REQ_RT: u32 = 16;
pub const REQ_PM: u32 = 17;
pub const REQ_FM: u32 = 18;

/// Response payload tags.
pub const RSP_STATUS: u32 = 2;
pub const RSP_STR: u32 = 3;
pub const RSP_WXMSG: u32 = 4;
pub const RSP_TYPES: u32 = 5;
pub const RSP_CONTACTS: u32 = 6;
pub const RSP_DBS: u32 = 7;
pub const RSP_TABLES: u32 = 8;
pub const RSP_ROWS: u32 = 9;
pub const RSP_UI: u32 = 10;

/// A request whose payload is a record with the given fields.
pub open spec fn record_envelope(function: u32, tag: u32, fs: Seq<WireField>) -> EnvelopeModel {
    EnvelopeModel {
        function,
        payload: Some(WireField { number: tag, value: WireValue::Bytes(fields_bytes(fs)) }),
    }
}

/// A request whose payload is one scalar field.
pub open spec fn scalar_envelope(function: u32, payload: WireField) -> EnvelopeModel {
    EnvelopeModel { function, payload: Some(payload) }
}

fn record_request(function: u32, tag: u32, fs: Vec<Field>) -> (r: Envelope)
    requires
        2 <= tag <= 18,
        valid_fields(fields_view(fs@)),
    ensures
        r@ == record_envelope(function, tag, fields_view(fs@)),
        r@.wf(),
{
    let body = encode_fields(&fs);
    let _ = body.len();
    Envelope { function, payload: Some(Field { number: tag, value: FieldValue::Bytes(body) }) }
}

/// Asks whether the account is logged in.
pub fn is_login_request() -> (r: Envelope)
    ensures
        r@ == (EnvelopeModel { function: FUNC_IS_LOGIN, payload: None }),
        r@.wf(),
{
    Envelope::bare(FUNC_IS_LOGIN)
}

/// Asks for the logged-in account's id.
pub fn self_wxid_request() -> (r: Envelope)
    ensures
        r@ == (EnvelopeModel { function: FUNC_GET_SELF_WXID, payload: None }),
        r@.wf(),
{
    Envelope::bare(FUNC_GET_SELF_WXID)
}

/// Asks for the logged-in account's profile.
pub fn user_info_request() -> (r: Envelope)
    ensures
        r@ == (EnvelopeModel { function: FUNC_GET_USER_INFO, payload: None }),
        r@.wf(),
{
    Envelope::bare(FUNC_GET_USER_INFO)
}

/// Asks for the contact list.
pub fn contacts_request() -> (r: Envelope)
    ensures
        r@ == (EnvelopeModel { function: FUNC_GET_CONTACTS, payload: None }),
        r@.wf(),
{
    Envelope::bare(FUNC_GET_CONTACTS)
}

/// Asks for the database names.
pub fn db_names_request() -> (r: Envelope)
    ensures
        r@ == (EnvelopeModel { function: FUNC_GET_DB_NAMES, payload: None }),
        r@.wf(),
{
    Envelope::bare(FUNC_GET_DB_NAMES)
}

/// Asks for the message type names.
pub fn msg_types_request() -> (r: Envelope)
    ensures
        r@ == (EnvelopeModel { function: FUNC_GET_MSG_TYPES, payload: None }),
        r@.wf(),
{
    Envelope::bare(FUNC_GET_MSG_TYPES)
}

/// Asks for a fresh login QR code.
pub fn refresh_qrcode_request() -> (r: Envelope)
    ensures
        r@ == (EnvelopeModel { function: FUNC_REFRESH_QRCODE, payload: None }),
        r@.wf(),
{
    Envelope::bare(FUNC_REFRESH_QRCODE)
}

/// Asks the agent to stop pushing events.
pub fn disable_receiving_request() -> (r: Envelope)
    ensures
        r@ == (EnvelopeModel { function: FUNC_DISABLE_RECV_TXT, payload: None }),
        r@.wf(),
{
    Envelope::bare(FUNC_DISABLE_RECV_TXT)
}

/// Asks for the tables of a database.
pub fn tables_request(db: &str) -> (r: Envelope)
    ensures
        r@ == scalar_envelope(FUNC_GET_DB_TABLES, text_wire(REQ_STR, db@)),
        r@.wf(),
{
    Envelope { function: FUNC_GET_DB_TABLES, payload: Some(text_field(REQ_STR, db)) }
}

/// Asks the agent to start pushing events to the streaming endpoint.
pub fn enable_receiving_request() -> (r: Envelope)
    ensures
        r@ == scalar_envelope(FUNC_ENABLE_RECV_TXT, uint_wire(REQ_FLAG, 1)),
        r@.wf(),
{
    Envelope { function: FUNC_ENABLE_RECV_TXT, payload: Some(uint_field(REQ_FLAG, 1)) }
}

/// Refreshes the moments feed from the given page id.
pub fn refresh_pyq_request(id: u64) -> (r: Envelope)
    ensures
        r@ == scalar_envelope(FUNC_REFRESH_PYQ, uint_wire(REQ_UI64, id)),
        r@.wf(),
{
    Envelope { function: FUNC_REFRESH_PYQ, payload: Some(uint_field(REQ_UI64, id)) }
}

/// Revokes a sent message.
pub fn revoke_request(id: u64) -> (r: Envelope)
    ensures
        r@ == scalar_envelope(FUNC_REVOKE_MSG, uint_wire(REQ_UI64, id)),
        r@.wf(),
{
    Envelope { function: FUNC_REVOKE_MSG, payload: Some(uint_field(REQ_UI64, id)) }
}

/// Sends a text message.
pub fn text_request(m: &TextMsg) -> (r: Envelope)
    ensures
        r@ == record_envelope(FUNC_SEND_TXT, REQ_TXT, m.wire()),
        r@.wf(),
{
    record_request(FUNC_SEND_TXT, REQ_TXT, m.to_fields())
}

/// Sends an image from the local disk.
pub fn image_request(m: &PathMsg) -> (r: Envelope)
    ensures
        r@ == record_envelope(FUNC_SEND_IMG, REQ_FILE, m.wire()),
        r@.wf(),
{
    record_request(FUNC_SEND_IMG, REQ_FILE, m.to_fields())
}

/// Sends a file from the local disk.
pub fn file_request(m: &PathMsg) -> (r: Envelope)
    ensures
        r@ == record_envelope(FUNC_SEND_FILE, REQ_FILE, m.wire()),
        r@.wf(),
{
    record_request(FUNC_SEND_FILE, REQ_FILE, m.to_fields())
}

/// Sends a link card.
pub fn rich_text_request(m: &RichText) -> (r: Envelope)
    ensures
        r@ == record_envelope(FUNC_SEND_RICH_TXT, REQ_RT, m.wire()),
        r@.wf(),
{
    record_request(FUNC_SEND_RICH_TXT, REQ_RT, m.to_fields())
}

/// Pats a member of a room.
pub fn pat_request(m: &PatMsg) -> (r: Envelope)
    ensures
        r@ == record_envelope(FUNC_SEND_PAT_MSG, REQ_PM, m.wire()),
        r@.wf(),
{
    record_request(FUNC_SEND_PAT_MSG, REQ_PM, m.to_fields())
}

/// Forwards a received message.
pub fn forward_request(m: &ForwardMsg) -> (r: Envelope)
    ensures
        r@ == record_envelope(FUNC_FORWARD_MSG, REQ_FM, m.wire()),
        r@.wf(),
{
    record_request(FUNC_FORWARD_MSG, REQ_FM, m.to_fields())
}

/// Saves a voice message.
pub fn audio_request(m: &AudioMsg) -> (r: Envelope)
    ensures
        r@ == record_envelope(FUNC_GET_AUDIO_MSG, REQ_AM, m.wire()),
        r@.wf(),
{
    record_request(FUNC_GET_AUDIO_MSG, REQ_AM, m.to_fields())
}

/// Decrypts a received image.
pub fn decrypt_image_request(m: &DecPath) -> (r: Envelope)
    ensures
        r@ == record_envelope(FUNC_DECRYPT_IMAGE, REQ_DEC, m.wire()),
        r@.wf(),
{
    record_request(FUNC_DECRYPT_IMAGE, REQ_DEC, m.to_fields())
}

/// Downloads the attachment of a message.
pub fn download_attach_request(m: &AttachMsg) -> (r: Envelope)
    ensures
        r@ == record_envelope(FUNC_DOWNLOAD_ATTACH, REQ_ATT, m.wire()),
        r@.wf(),
{
    record_request(FUNC_DOWNLOAD_ATTACH, REQ_ATT, m.to_fields())
}

/// Accepts a money transfer.
pub fn transfer_request(m: &Transfer) -> (r: Envelope)
    ensures
        r@ == record_envelope(FUNC_RECV_TRANSFER, REQ_TF, m.wire()),
        r@.wf(),
{
    record_request(FUNC_RECV_TRANSFER, REQ_TF, m.to_fields())
}

/// Runs an SQL query.
pub fn query_request(m: &DbQuery) -> (r: Envelope)
    ensures
        r@ == record_envelope(FUNC_EXEC_DB_QUERY, REQ_QUERY, m.wire()),
        r@.wf(),
{
    record_request(FUNC_EXEC_DB_QUERY, REQ_QUERY, m.to_fields())
}

/// Accepts a friend request.
pub fn accept_friend_request(m: &Verification) -> (r: Envelope)
    ensures
        r@ == record_envelope(FUNC_ACCEPT_FRIEND, REQ_V, m.wire()),
        r@.wf(),
{
    record_request(FUNC_ACCEPT_FRIEND, REQ_V, m.to_fields())
}

/// Adds members to a room.
pub fn add_members_request(m: &MemberMgmt) -> (r: Envelope)
    ensures
        r@ == record_envelope(FUNC_ADD_ROOM_MEMBERS, REQ_M, m.wire()),
        r@.wf(),
{
    record_request(FUNC_ADD_ROOM_MEMBERS, REQ_M, m.to_fields())
}

/// Invites members to a room.
pub fn invite_members_request(m: &MemberMgmt) -> (r: Envelope)
    ensures
        r@ == record_envelope(FUNC_INV_ROOM_MEMBERS, REQ_M, m.wire()),
        r@.wf(),
{
    record_request(FUNC_INV_ROOM_MEMBERS, REQ_M, m.to_fields())
}

/// Removes members from a room.
pub fn delete_members_request(m: &MemberMgmt) -> (r: Envelope)
    ensures
        r@ == record_envelope(FUNC_DEL_ROOM_MEMBERS, REQ_M, m.wire()),
        r@.wf(),
{
    record_request(FUNC_DEL_ROOM_MEMBERS, REQ_M, m.to_fields())
}

/// Why a call failed.
#[derive(Clone, Copy, Debug, PartialEq, Eq, Structural)]
pub enum IpcError {
    /// Sending or receiving did not finish within its bound.
    Timeout,
    /// The command channel is not open.
    NotConnected,
    /// The reply's payload is not of the kind the command answers with.
    UnexpectedResponse,
    /// The reply's bytes do not decode.
    Codec(CodecError),
}

/// The status code a reply carries, if its payload is one.
pub open spec fn reply_status(m: EnvelopeModel) -> Option<i32> {
    match m.payload {
        Some(p) => if p.number == RSP_STATUS {
            match p.value {
                WireValue::Varint(v) => Some(int32_of(v)),
                WireValue::Bytes(_) => None,
            }
        } else {
            None
        },
        None => None,
    }
}

/// The bytes a reply carries under `tag`, if its payload is length-delimited
/// and so tagged.
pub open spec fn reply_bytes(m: EnvelopeModel, tag: u32) -> Option<Seq<u8>> {
    match m.payload {
        Some(p) => if p.number == tag {
            match p.value {
                WireValue::Bytes(b) => Some(b),
                WireValue::Varint(_) => None,
            }
        } else {
            None
        },
        None => None,
    }
}

/// The status code of a reply.
pub fn status_of(reply: &Envelope) -> (r: Result<i32, IpcError>)
    ensures
        match r {
            Ok(s) => reply_status(reply@) == Some(s),
            Err(e) => reply_status(reply@) is None && e == IpcError::UnexpectedResponse,
        },
{
    match &reply.payload {
        Some(p) => if p.number == RSP_STATUS {
            match &p.value {
                FieldValue::Varint(v) => Ok(int32_from_wire(*v)),
                FieldValue::Bytes(_) => Err(IpcError::UnexpectedResponse),
            }
        } else {
            Err(IpcError::UnexpectedResponse)
        },
        None => Err(IpcError::UnexpectedResponse),
    }
}

/// Whether a reply's status equals `expected`; a reply that is no status
/// is an error.
pub fn expect_status(reply: &Envelope, expected: i32) -> (r: Result<bool, IpcError>)
    ensures
        match reply_status(reply@) {
            Some(s) => r == Ok::<bool, IpcError>(s == expected),
            None => r == Err::<bool, IpcError>(IpcError::UnexpectedResponse),
        },
{
    match status_of(reply) {
        Ok(s) => Ok(s == expected),
        Err(e) => Err(e),
    }
}

fn reply_payload_bytes(reply: &Envelope, tag: u32) -> (r: Option<&Vec<u8>>)
    ensures
        match r {
            Some(b) => reply_bytes(reply@, tag) == Some(b@),
            None => reply_bytes(reply@, tag) is None,
        },
{
    match &reply.payload {
        Some(p) => if p.number == tag {
            match &p.value {
                FieldValue::Bytes(b) => Some(b),
                FieldValue::Varint(_) => None,
            }
        } else {
            None
        },
        None => None,
    }
}

/// The text a reply carries.
pub fn expect_text(reply: &Envelope) -> (r: Result<String, IpcError>)
    ensures
        match reply_bytes(reply@, RSP_STR) {
            Some(b) => if valid_utf8(b) {
                r matches Ok(s) && s@ == decode_utf8(b)
            } else {
                r == Err::<String, IpcError>(IpcError::Codec(CodecError::Unexpected))
            },
            None => r == Err::<String, IpcError>(IpcError::UnexpectedResponse),
        },
{
    match reply_payload_bytes(reply, RSP_STR) {
        Some(b) => {
            let mut c: Vec<u8> = Vec::new();
            c.extend_from_slice(b.as_slice());
            assert(c@ =~= b@);
            match string_from_utf8(c) {
                Some(s) => Ok(s),
                None => Err(IpcError::Codec(CodecError::Unexpected)),
            }
        },
        None => Err(IpcError::UnexpectedResponse),
    }
}

/// The rows a query reply carries.
pub fn expect_rows(reply: &Envelope) -> (r: Result<DbRows, IpcError>)
    ensures
        match reply_bytes(reply@, RSP_ROWS) {
            Some(b) => match db_rows_decoding(b) {
                Some(rows) => r matches Ok(x) && x@ == rows,
                None => r matches Err(IpcError::Codec(_)),
            },
            None => r == Err::<DbRows, IpcError>(IpcError::UnexpectedResponse),
        },
{
    match reply_payload_bytes(reply, RSP_ROWS) {
        Some(b) => match DbRows::decode(b.as_slice()) {
            Ok(rows) => Ok(rows),
            Err(e) => Err(IpcError::Codec(e)),
        },
        None => Err(IpcError::UnexpectedResponse),
    }
}

/// The account profile a reply carries.
pub fn expect_user_info(reply: &Envelope) -> (r: Result<UserInfo, IpcError>)
    ensures
        match reply_bytes(reply@, RSP_UI) {
            Some(b) => match user_info_decoding(b) {
                Some(u) => r matches Ok(x) && x@ == u,
                None => r matches Err(IpcError::Codec(_)),
            },
            None => r == Err::<UserInfo, IpcError>(IpcError::UnexpectedResponse),
        },
{
    match reply_payload_bytes(reply, RSP_UI) {
        Some(b) => match UserInfo::decode(b.as_slice()) {
            Ok(u) => Ok(u),
            Err(e) => Err(IpcError::Codec(e)),
        },
        None => Err(IpcError::UnexpectedResponse),
    }
}

/// The contact list a reply carries.
pub fn expect_contacts(reply: &Envelope) -> (r: Result<RpcContacts, IpcError>)
    ensures
        match reply_bytes(reply@, RSP_CONTACTS) {
            Some(b) => match rpc_contact_list_decoding(b) {
                Some(v) => r matches Ok(x) && x@ == v,
                None => r matches Err(IpcError::Codec(_)),
            },
            None => r == Err::<RpcContacts, IpcError>(IpcError::UnexpectedResponse),
        },
{
    match reply_payload_bytes(reply, RSP_CONTACTS) {
        Some(b) => match RpcContacts::decode(b.as_slice()) {
            Ok(v) => Ok(v),
            Err(e) => Err(IpcError::Codec(e)),
        },
        None => Err(IpcError::UnexpectedResponse),
    }
}

/// The database names a reply carries.
pub fn expect_db_names(reply: &Envelope) -> (r: Result<DbNames, IpcError>)
    ensures
        match reply_bytes(reply@, RSP_DBS) {
            Some(b) => match db_names_decoding(b) {
                Some(v) => r matches Ok(x) && x@ == v,
                None => r matches Err(IpcError::Codec(_)),
            },
            None => r == Err::<DbNames, IpcError>(IpcError::UnexpectedResponse),
        },
{
    match reply_payload_bytes(reply, RSP_DBS) {
        Some(b) => match DbNames::decode(b.as_slice()) {
            Ok(v) => Ok(v),
            Err(e) => Err(IpcError::Codec(e)),
        },
        None => Err(IpcError::UnexpectedResponse),
    }
}

/// The table list a reply carries.
pub fn expect_tables(reply: &Envelope) -> (r: Result<DbTables, IpcError>)
    ensures
        match reply_bytes(reply@, RSP_TABLES) {
            Some(b) => match db_table_list_decoding(b) {
                Some(v) => r matches Ok(x) && x@ == v,
                None => r matches Err(IpcError::Codec(_)),
            },
            None => r == Err::<DbTables, IpcError>(IpcError::UnexpectedResponse),
        },
{
    match reply_payload_bytes(reply, RSP_TABLES) {
        Some(b) => match DbTables::decode(b.as_slice()) {
            Ok(v) => Ok(v),
            Err(e) => Err(IpcError::Codec(e)),
        },
        None => Err(IpcError::UnexpectedResponse),
    }
}

/// The message type table a reply carries.
pub fn expect_msg_types(reply: &Envelope) -> (r: Result<MsgTypes, IpcError>)
    ensures
        match reply_bytes(reply@, RSP_TYPES) {
            Some(b) => match msg_type_list_decoding(b) {
                Some(v) => r matches Ok(x) && x@ == v,
                None => r matches Err(IpcError::Codec(_)),
            },
            None => r == Err::<MsgTypes, IpcError>(IpcError::UnexpectedResponse),
        },
{
    match reply_payload_bytes(reply, RSP_TYPES) {
        Some(b) => match MsgTypes::decode(b.as_slice()) {
            Ok(v) => Ok(v),
            Err(e) => Err(IpcError::Codec(e)),
        },
        None => Err(IpcError::UnexpectedResponse),
    }
}

/// A typed request survives the wire: decoding its bytes gives the same
/// envelope, and decoding the payload gives the record's fields.
pub proof fn lemma_record_request_round_trip(function: u32, tag: u32, fs: Seq<WireField>)
    requires
        2 <= tag <= MAX_FIELD_NUMBER,
        valid_fields(fs),
        fields_bytes(fs).len() <= u64::MAX,
    ensures
        envelope_decoding(envelope_bytes(record_envelope(function, tag, fs))) == Some(
            record_envelope(function, tag, fs),
        ),
        reply_bytes(record_envelope(function, tag, fs), tag) == Some(fields_bytes(fs)),
        parse_fields(fields_bytes(fs)) == Some(fs),
{
    lemma_envelope_round_trip(record_envelope(function, tag, fs));
    lemma_fields_round_trip(fs);
}

} // verus!
