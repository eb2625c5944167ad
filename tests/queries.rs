use wcfrust::messages::{text_field, uint_field, DbField, DbRow, DbRows, RoomMember, UserInfo};
use wcfrust::queries::{
    fill_nicknames, head_image_query, nickname_query, nicknames, room_members, room_query,
    self_info, unnamed_members,
};
use wcfrust::protocol::IpcError;
use wcfrust::text::quote_sql;
use wcfrust::wire::{encode_fields, CodecError, Field, FieldValue};

fn field(column: &str, content: &[u8]) -> DbField {
    DbField { field_type: 3, column: column.to_string(), content: content.to_vec() }
}

fn member_bytes(wxid: &str, name: Option<&str>, state: u64) -> Vec<u8> {
    let mut fs = vec![text_field(1, wxid)];
    if let Some(n) = name {
        fs.push(text_field(2, n));
    }
    fs.push(uint_field(3, state));
    encode_fields(&fs)
}

fn room_data(members: Vec<Vec<u8>>) -> Vec<u8> {
    let fs: Vec<Field> =
        members.into_iter().map(|m| Field { number: 1, value: FieldValue::Bytes(m) }).collect();
    encode_fields(&fs)
}

#[test]
fn test_query_room_member() {
    let q = room_query("123@chatroom");
    assert_eq!(q.db, "MicroMsg.db");
    assert_eq!(q.sql, "select * from ChatRoom where ChatRoomName = '123@chatroom'");
    let data = room_data(vec![
        member_bytes("wxid_a", Some("Alice"), 0),
        member_bytes("wxid_b", None, 1),
        member_bytes("wxid_c", Some(""), 0),
    ]);
    let rows = DbRows {
        rows: vec![DbRow { fields: vec![field("ChatRoomName", b"123@chatroom"), field("RoomData", &data)] }],
    };
    let members = room_members(&rows).unwrap().unwrap();
    assert_eq!(members.len(), 3);
    assert_eq!(members[1].wxid, "wxid_b");
    assert_eq!(members[1].state, 1);
    let missing = unnamed_members(&members);
    assert_eq!(missing, vec!["wxid_b".to_string(), "wxid_c".to_string()]);
    let nq = nickname_query(&missing).unwrap();
    assert_eq!(nq.sql, "SELECT UserName, NickName FROM Contact WHERE UserName IN ('wxid_b','wxid_c')");
    let nick_rows = DbRows {
        rows: vec![
            DbRow { fields: vec![field("UserName", b"wxid_b"), field("NickName", b"Bob")] },
            DbRow { fields: vec![field("UserName", b"wxid_x")] },
            DbRow { fields: vec![field("NickName", b"Carol"), field("UserName", b"wxid_c")] },
        ],
    };
    let pairs = nicknames(&nick_rows);
    assert_eq!(pairs, vec![("wxid_b".to_string(), "Bob".to_string()), ("wxid_c".to_string(), "Carol".to_string())]);
    let filled = fill_nicknames(members, &pairs);
    let names: Vec<&str> = filled.iter().map(|m| m.name.as_str()).collect();
    assert_eq!(names, vec!["Alice", "Bob", "Carol"]);
}

#[test]
fn room_without_rows_or_data_has_no_members() {
    assert!(room_members(&DbRows { rows: vec![] }).unwrap().is_none());
    let rows = DbRows { rows: vec![DbRow { fields: vec![field("ChatRoomName", b"x")] }] };
    assert!(room_members(&rows).unwrap().is_none());
}

#[test]
fn broken_room_data_is_an_error() {
    let rows = DbRows { rows: vec![DbRow { fields: vec![field("RoomData", &[0x0a, 0x09])] }] };
    assert!(room_members(&rows).is_err());
}

#[test]
fn no_missing_names_needs_no_query() {
    assert!(nickname_query(&vec![]).is_none());
    let ms = vec![RoomMember { wxid: "a".to_string(), name: "A".to_string(), state: 0 }];
    assert!(unnamed_members(&ms).is_empty());
}

#[test]
fn later_nickname_wins_and_named_members_keep_their_name() {
    let ms = vec![
        RoomMember { wxid: "a".to_string(), name: String::new(), state: 0 },
        RoomMember { wxid: "b".to_string(), name: "Bee".to_string(), state: 0 },
        RoomMember { wxid: "c".to_string(), name: String::new(), state: 0 },
    ];
    let pairs = vec![
        ("a".to_string(), "first".to_string()),
        ("b".to_string(), "other".to_string()),
        ("a".to_string(), "second".to_string()),
    ];
    let filled = fill_nicknames(ms, &pairs);
    assert_eq!(filled[0].name, "second");
    assert_eq!(filled[1].name, "Bee");
    assert_eq!(filled[2].name, "");
}

#[test]
fn nickname_bytes_are_read_lossily() {
    let rows = DbRows { rows: vec![DbRow { fields: vec![field("UserName", b"u"), field("NickName", &[b'a', 0xff])] }] };
    let pairs = nicknames(&rows);
    assert_eq!(pairs[0].1, "a\u{fffd}");
}

#[test]
fn room_and_profile_queries_take_ids_as_given() {
    assert_eq!(room_query("'").sql, "select * from ChatRoom where ChatRoomName = '''");
    assert_eq!(head_image_query("a'b").sql, "select * from ContactHeadImgUrl where usrName = 'a'b'");
}

#[test]
fn quotes_are_doubled() {
    assert_eq!(quote_sql("it's"), "'it''s'");
    assert_eq!(quote_sql(""), "''");
    let q = nickname_query(&vec!["o'neil".to_string()]).unwrap();
    assert_eq!(q.sql, "SELECT UserName, NickName FROM Contact WHERE UserName IN ('o''neil')");
}

fn user() -> UserInfo {
    UserInfo {
        wxid: "wxid_me".to_string(),
        name: "Me".to_string(),
        mobile: "123".to_string(),
        home: "C:/home".to_string(),
        alias: "me".to_string(),
    }
}

#[test]
fn profile_with_avatars() {
    let q = head_image_query("wxid_me");
    assert_eq!(q.sql, "select * from ContactHeadImgUrl where usrName = 'wxid_me'");
    let rows = DbRows {
        rows: vec![DbRow {
            fields: vec![
                field("usrName", b"wxid_me"),
                field("smallHeadImgUrl", b"http://s"),
                field("bigHeadImgUrl", b"http://b"),
            ],
        }],
    };
    let info = self_info(user(), &rows).unwrap();
    assert_eq!(info.wxid, "wxid_me");
    assert_eq!(info.small_head_url.as_deref(), Some("http://s"));
    assert_eq!(info.big_head_url.as_deref(), Some("http://b"));
    assert_eq!(info.alias, "me");
}

#[test]
fn profile_without_avatars() {
    let info = self_info(user(), &DbRows { rows: vec![] }).unwrap();
    assert!(info.small_head_url.is_none() && info.big_head_url.is_none());
}

#[test]
fn profile_with_broken_avatar_text_fails() {
    let rows = DbRows { rows: vec![DbRow { fields: vec![field("bigHeadImgUrl", &[0xc3])] }] };
    assert!(matches!(self_info(user(), &rows), Err(IpcError::Codec(CodecError::Unexpected))));
}

#[test]
fn user_info_decodes() {
    let fs = vec![text_field(1, "wxid_me"), text_field(2, "Me"), text_field(5, "alias")];
    let u = UserInfo::decode(&encode_fields(&fs)).unwrap();
    assert_eq!(u.wxid, "wxid_me");
    assert_eq!(u.mobile, "");
    assert_eq!(u.alias, "alias");
}

#[test]
fn query_rows_decode() {
    let f1 = encode_fields(&vec![uint_field(1, 3), text_field(2, "col"), Field { number: 3, value: FieldValue::Bytes(vec![1, 2]) }]);
    let row = encode_fields(&vec![Field { number: 1, value: FieldValue::Bytes(f1) }]);
    let rows = encode_fields(&vec![
        Field { number: 1, value: FieldValue::Bytes(row.clone()) },
        Field { number: 1, value: FieldValue::Bytes(row) },
    ]);
    let r = DbRows::decode(&rows).unwrap();
    assert_eq!(r.rows.len(), 2);
    assert_eq!(r.rows[1].fields[0].field_type, 3);
    assert_eq!(r.rows[1].fields[0].column, "col");
    assert_eq!(r.rows[1].fields[0].content, vec![1, 2]);
}
