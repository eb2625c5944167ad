use wcfrust::envelope::Envelope;
use wcfrust::messages::{int32_from_wire, int32_to_wire, text_field, uint_field, TextMsg, WxMsg};
use wcfrust::protocol::{
    expect_contacts, expect_db_names, expect_msg_types, expect_tables, RSP_CONTACTS, RSP_DBS,
    RSP_TABLES, RSP_TYPES,
    enable_receiving_request, expect_status, expect_text, is_login_request, revoke_request,
    status_of, text_request, IpcError, FUNC_SEND_TXT, REQ_TXT, RSP_STATUS, RSP_STR,
};
use wcfrust::wire::{decode_fields, encode_fields, CodecError, Field, FieldValue};

fn status_reply(status: i32) -> Envelope {
    Envelope {
        function: 0,
        payload: Some(Field { number: RSP_STATUS, value: FieldValue::Varint(int32_to_wire(status)) }),
    }
}

#[test]
fn bare_request_bytes() {
    assert_eq!(is_login_request().encode(), vec![0x08, 0x01]);
}

#[test]
fn enable_request_bytes() {
    assert_eq!(enable_receiving_request().encode(), vec![0x08, 0x30, 0x68, 0x01]);
}

#[test]
fn multi_byte_varint_bytes() {
    // 300 = 0b1_0010_1100: low seven bits first, continuation bit set.
    let r = revoke_request(300);
    assert_eq!(r.encode(), vec![0x08, 0x56, 0x60, 0xac, 0x02]);
}

#[test]
fn text_request_bytes() {
    let t = TextMsg { msg: "hi".to_string(), receiver: "r".to_string(), aters: String::new() };
    let env = text_request(&t);
    assert_eq!(env.function, FUNC_SEND_TXT);
    let bytes = env.encode();
    let inner = vec![0x0a, 0x02, b'h', b'i', 0x12, 0x01, b'r', 0x1a, 0x00];
    let mut want = vec![0x08, 0x20, 0x22, inner.len() as u8];
    want.extend_from_slice(&inner);
    assert_eq!(bytes, want);
}

#[test]
fn envelope_round_trip_status() {
    for s in [0, 1, -1, i32::MAX, i32::MIN] {
        let env = status_reply(s);
        let back = Envelope::decode(&env.encode()).unwrap();
        assert_eq!(back.function, 0);
        assert_eq!(status_of(&back), Ok(s));
    }
}

#[test]
fn envelope_round_trip_record() {
    let t = TextMsg {
        msg: "你好, world".to_string(),
        receiver: "room@chatroom".to_string(),
        aters: "wxid_a,wxid_b".to_string(),
    };
    let env = text_request(&t);
    let bytes = env.encode();
    let back = Envelope::decode(&bytes).unwrap();
    assert_eq!(back.function, env.function);
    assert_eq!(back.encode(), bytes);
    match back.payload {
        Some(Field { number, value: FieldValue::Bytes(b) }) => {
            assert_eq!(number, REQ_TXT);
            let fs = decode_fields(&b).unwrap();
            assert_eq!(fs.len(), 3);
        }
        _ => panic!("payload lost"),
    }
}

#[test]
fn envelope_round_trip_empty_payload() {
    let env = Envelope { function: 0x57, payload: None };
    let back = Envelope::decode(&env.encode()).unwrap();
    assert_eq!(back.function, 0x57);
    assert!(back.payload.is_none());
}

#[test]
fn negative_status_is_sign_extended() {
    assert_eq!(int32_to_wire(-1), u64::MAX);
    assert_eq!(int32_from_wire(u64::MAX), -1);
    assert_eq!(status_reply(-1).encode().len(), 13);
}

#[test]
fn truncated_buffer_is_malformed() {
    assert!(matches!(Envelope::decode(&[0x08]), Err(CodecError::Malformed)));
    assert!(matches!(Envelope::decode(&[0x1a, 0x05, b'a']), Err(CodecError::Malformed)));
}

#[test]
fn unknown_wire_type_is_malformed() {
    assert!(matches!(decode_fields(&[0x09, 0, 0, 0, 0, 0, 0, 0, 0]), Err(CodecError::Malformed)));
}

#[test]
fn overlong_varint_is_malformed() {
    let bytes = [0x08, 0xff, 0xff, 0xff, 0xff, 0xff, 0xff, 0xff, 0xff, 0xff, 0x02];
    assert!(matches!(decode_fields(&bytes), Err(CodecError::Malformed)));
    let max = [0x08, 0xff, 0xff, 0xff, 0xff, 0xff, 0xff, 0xff, 0xff, 0xff, 0x01];
    let fs = decode_fields(&max).unwrap();
    assert!(matches!(fs[0].value, FieldValue::Varint(u64::MAX)));
}

#[test]
fn function_code_as_bytes_is_unexpected() {
    assert!(matches!(Envelope::decode(&[0x0a, 0x00]), Err(CodecError::Unexpected)));
}

#[test]
fn later_field_replaces_earlier() {
    let env = Envelope::decode(&[0x08, 0x01, 0x08, 0x02, 0x10, 0x05, 0x10, 0x00]).unwrap();
    assert_eq!(env.function, 2);
    assert_eq!(status_of(&env), Ok(0));
}

#[test]
fn status_reply_checks() {
    assert_eq!(expect_status(&status_reply(1), 1), Ok(true));
    assert_eq!(expect_status(&status_reply(0), 1), Ok(false));
    let text = Envelope { function: 0, payload: Some(text_field(RSP_STR, "wxid_me")) };
    assert_eq!(expect_status(&text, 1), Err(IpcError::UnexpectedResponse));
    assert_eq!(expect_text(&text), Ok("wxid_me".to_string()));
    assert_eq!(expect_text(&status_reply(0)), Err(IpcError::UnexpectedResponse));
    let bad = Envelope {
        function: 0,
        payload: Some(Field { number: RSP_STR, value: FieldValue::Bytes(vec![0xff, 0xfe]) }),
    };
    assert_eq!(expect_text(&bad), Err(IpcError::Codec(CodecError::Unexpected)));
}

#[test]
fn chat_event_decodes() {
    let fs = vec![
        uint_field(1, 0),
        uint_field(2, 1),
        uint_field(3, 42),
        uint_field(4, 1),
        uint_field(5, 1700000000),
        text_field(6, "room@chatroom"),
        text_field(7, "hello"),
        text_field(8, "wxid_sender"),
        text_field(12, "<msgsource/>"),
    ];
    let m = WxMsg::decode(&encode_fields(&fs)).unwrap();
    assert!(!m.is_self);
    assert!(m.is_group);
    assert_eq!(m.id, 42);
    assert_eq!(m.msg_type, 1);
    assert_eq!(m.ts, 1700000000);
    assert_eq!(m.roomid, "room@chatroom");
    assert_eq!(m.content, "hello");
    assert_eq!(m.sender, "wxid_sender");
    assert_eq!(m.sign, "");
    assert_eq!(m.xml, "<msgsource/>");
}

#[test]
fn chat_event_with_wide_type_is_refused() {
    let fs = vec![uint_field(4, 1 << 40)];
    assert!(WxMsg::decode(&encode_fields(&fs)).is_err());
    let fs = vec![uint_field(7, 3)];
    assert!(matches!(WxMsg::decode(&encode_fields(&fs)), Err(CodecError::Unexpected)));
}

fn nested(number: u32, fs: Vec<Field>) -> Field {
    Field { number, value: FieldValue::Bytes(encode_fields(&fs)) }
}

fn reply(tag: u32, fs: Vec<Field>) -> Envelope {
    Envelope { function: 0, payload: Some(nested(tag, fs)) }
}

#[test]
fn contact_list_reply() {
    let c = || vec![text_field(1, "wxid_a"), text_field(4, "Alice"), uint_field(8, 2)];
    let r = match expect_contacts(&reply(RSP_CONTACTS, vec![nested(1, c()), nested(1, c())])) {
        Ok(r) => r,
        Err(e) => panic!("{:?}", e),
    };
    assert_eq!(r.contacts.len(), 2);
    assert_eq!(r.contacts[0].wxid, "wxid_a");
    assert_eq!(r.contacts[0].name, "Alice");
    assert_eq!(r.contacts[0].gender, 2);
    assert_eq!(r.contacts[1].city, "");
    assert!(matches!(expect_contacts(&reply(3, vec![])), Err(IpcError::UnexpectedResponse)));
}

#[test]
fn database_lists_reply() {
    let names = match expect_db_names(&reply(RSP_DBS, vec![text_field(1, "MicroMsg.db"), text_field(1, "MSG0.db")])) {
        Ok(n) => n,
        Err(e) => panic!("{:?}", e),
    };
    assert_eq!(names.names, vec!["MicroMsg.db".to_string(), "MSG0.db".to_string()]);
    let tables = match expect_tables(&reply(RSP_TABLES, vec![nested(1, vec![text_field(1, "Contact"), text_field(2, "CREATE TABLE Contact")])])) {
        Ok(t) => t,
        Err(e) => panic!("{:?}", e),
    };
    assert_eq!(tables.tables[0].name, "Contact");
    assert_eq!(tables.tables[0].sql, "CREATE TABLE Contact");
    let types = match expect_msg_types(&reply(RSP_TYPES, vec![nested(1, vec![uint_field(1, 1), text_field(2, "text")])])) {
        Ok(t) => t,
        Err(e) => panic!("{:?}", e),
    };
    assert_eq!(types.types[0].key, 1);
    assert_eq!(types.types[0].value, "text");
    let bad = Envelope { function: 0, payload: Some(Field { number: RSP_DBS, value: FieldValue::Bytes(vec![0x0a, 0x01, 0xff]) }) };
    assert!(matches!(expect_db_names(&bad), Err(IpcError::Codec(CodecError::Unexpected))));
}
