//! Lookups that take more than one command: a room's member list with
//! nicknames filled in, and the account's profile with its avatar URLs.

use vstd::prelude::*;
use vstd::string::StringExecFns;
use vstd::utf8::{decode_utf8, valid_utf8};
use crate::messages::{
    members_view, room_members_decoding, string_from_utf8, DbField, DbFieldModel, DbQuery, DbRows,
    RoomMember, RoomMemberModel, UserInfo,
};
use crate::protocol::IpcError;
use crate::text::{quote_sql, sql_literal, text_eq};
use crate::wire::CodecError;

verus! {

/// The database that holds contacts and rooms.
pub fn contact_db() -> (r: String)
    ensures
        r@ == "MicroMsg.db"@,
{
    String::from_str("MicroMsg.db")
}

/// The query for a room's record; the id stands between quotes as given.
pub fn room_query(room_id: &str) -> (r: DbQuery)
    ensures
        r.db@ == "MicroMsg.db"@,
        r.sql@ == "select * from ChatRoom where ChatRoomName = '"@ + room_id@ + "'"@,
{
    let sql = String::from_str("select * from ChatRoom where ChatRoomName = '");
    DbQuery { db: contact_db(), sql: sql.concat(room_id).concat("'") }
}

/// The content of the first field of `fs` whose column is `col`.
pub open spec fn column_value(fs: Seq<DbFieldModel>, col: Seq<char>) -> Option<Seq<u8>>
    decreases fs.len(),
{
    if fs.len() == 0 {
        None
    } else if fs[0].column == col {
        Some(fs[0].content)
    } else {
        column_value(fs.drop_first(), col)
    }
}

/// The position of the first field whose column is `col`.
fn find_column(fs: &Vec<DbField>, col: &str) -> (r: Option<usize>)
    ensures
        match r {
            Some(i) => i < fs@.len() && column_value(crate::messages::db_fields_view(fs@), col@)
                == Some(fs@[i as int].content@),
            None => column_value(crate::messages::db_fields_view(fs@), col@) is None,
        },
{
    let ghost all = crate::messages::db_fields_view(fs@);
    let mut i: usize = 0;
    assert(all.subrange(0, all.len() as int) =~= all);
    while i < fs.len()
        invariant
            i <= fs@.len(),
            all == crate::messages::db_fields_view(fs@),
            column_value(all, col@) == column_value(all.subrange(i as int, all.len() as int), col@),
        decreases fs@.len() - i,
    {
        let ghost rest = all.subrange(i as int, all.len() as int);
        assert(rest[0] == fs@[i as int]@);
        assert(rest.drop_first() =~= all.subrange(i + 1, all.len() as int));
        if text_eq(fs[i].column.as_str(), col) {
            return Some(i);
        }
        i = i + 1;
    }
    None
}

/// The member list that a room query's rows hold: the `RoomData` column of
/// the first row.
pub open spec fn room_data(rows: Seq<Seq<DbFieldModel>>) -> Option<Seq<u8>> {
    if rows.len() == 0 {
        None
    } else {
        column_value(rows[0], "RoomData"@)
    }
}

/// Reads the member list out of a room query's rows: `None` where there is
/// no such room or no member record.
pub fn room_members(rows: &DbRows) -> (r: Result<Option<Vec<RoomMember>>, CodecError>)
    ensures
        match room_data(rows@) {
            None => r matches Ok(None),
            Some(b) => match room_members_decoding(b) {
                Some(ms) => r matches Ok(Some(v)) && members_view(v@) == ms,
                None => r is Err,
            },
        },
{
    if rows.rows.len() == 0 {
        return Ok(None);
    }
    let row = &rows.rows[0];
    assert(rows@[0] == row@);
    match find_column(&row.fields, "RoomData") {
        None => Ok(None),
        Some(i) => match RoomMember::decode_room(row.fields[i].content.as_slice()) {
            Ok(ms) => Ok(Some(ms)),
            Err(e) => Err(e),
        },
    }
}

/// The ids of members listed without a name, in order.
pub open spec fn unnamed_ids(ms: Seq<RoomMemberModel>) -> Seq<Seq<char>>
    decreases ms.len(),
{
    if ms.len() == 0 {
        Seq::empty()
    } else if ms.last().name.len() == 0 {
        unnamed_ids(ms.drop_last()).push(ms.last().wxid)
    } else {
        unnamed_ids(ms.drop_last())
    }
}

/// The ids of members listed without a name.
pub fn unnamed_members(ms: &Vec<RoomMember>) -> (r: Vec<String>)
    ensures
        r@.map_values(|s: String| s@) == unnamed_ids(members_view(ms@)),
{
    let ghost all = members_view(ms@);
    let mut out: Vec<String> = Vec::new();
    let mut i: usize = 0;
    assert(out@.map_values(|s: String| s@) =~= unnamed_ids(all.take(0)));
    while i < ms.len()
        invariant
            i <= ms@.len(),
            all == members_view(ms@),
            out@.map_values(|s: String| s@) == unnamed_ids(all.take(i as int)),
        decreases ms@.len() - i,
    {
        assert(all.take(i + 1).drop_last() =~= all.take(i as int));
        assert(all.take(i + 1).last() == ms@[i as int]@);
        let ghost before = out@.map_values(|s: String| s@);
        if ms[i].name.unicode_len() == 0 {
            out.push(ms[i].wxid.clone());
            assert(out@.map_values(|s: String| s@) =~= before.push(ms@[i as int].wxid@));
        }
        i = i + 1;
    }
    assert(all.take(i as int) =~= all);
    out
}

/// The ids as a comma-separated list of SQL literals.
pub open spec fn sql_list(ids: Seq<Seq<char>>) -> Seq<char>
    decreases ids.len(),
{
    if ids.len() == 0 {
        Seq::empty()
    } else if ids.len() == 1 {
        sql_literal(ids[0])
    } else {
        sql_list(ids.drop_last()) + seq![','] + sql_literal(ids.last())
    }
}

/// The query for the nicknames of the given ids; `None` when there are
/// none to look up.
pub fn nickname_query(ids: &Vec<String>) -> (r: Option<DbQuery>)
    ensures
        ids@.len() == 0 ==> r is None,
        ids@.len() > 0 ==> (r matches Some(q) && q.db@ == "MicroMsg.db"@ && q.sql@
            == "SELECT UserName, NickName FROM Contact WHERE UserName IN ("@ + sql_list(
            ids@.map_values(|s: String| s@),
        ) + ")"@),
{
    if ids.len() == 0 {
        return None;
    }
    let ghost all = ids@.map_values(|s: String| s@);
    let mut list = quote_sql(ids[0].as_str());
    let mut i: usize = 1;
    assert(all.take(1).len() == 1);
    assert(all.take(1)[0] == ids@[0]@);
    while i < ids.len()
        invariant
            1 <= i <= ids@.len(),
            all == ids@.map_values(|s: String| s@),
            list@ == sql_list(all.take(i as int)),
        decreases ids@.len() - i,
    {
        proof {
            reveal_strlit(",");
        }
        assert(all.take(i + 1).drop_last() =~= all.take(i as int));
        assert(all.take(i + 1).last() == ids@[i as int]@);
        let lit = quote_sql(ids[i].as_str());
        list = list.concat(",");
        list = list.concat(lit.as_str());
        assert(list@ =~= sql_list(all.take(i + 1)));
        i = i + 1;
    }
    assert(all.take(i as int) =~= all);
    let sql = String::from_str("SELECT UserName, NickName FROM Contact WHERE UserName IN (");
    let sql = sql.concat(list.as_str());
    let sql = sql.concat(")");
    Some(DbQuery { db: contact_db(), sql })
}

/// The text that `String::from_utf8_lossy` makes of bytes: invalid
/// sequences become replacement characters.
pub uninterp spec fn lossy_text(b: Seq<u8>) -> Seq<char>;

/// Relies on String::from_utf8_lossy: valid UTF-8 reads as the characters
/// it encodes, and the result depends on the bytes alone.
#[verifier::external_body]
fn text_from_utf8_lossy(b: &[u8]) -> (r: String)
    ensures
        r@ == lossy_text(b@),
        valid_utf8(b@) ==> r@ == decode_utf8(b@),
{
    String::from_utf8_lossy(b).into_owned()
}

/// The (user name, nickname) pair a row gives, where it has both columns.
pub open spec fn nickname_pair(row: Seq<DbFieldModel>) -> Option<(Seq<char>, Seq<char>)> {
    match (column_value(row, "UserName"@), column_value(row, "NickName"@)) {
        (Some(u), Some(n)) => Some((lossy_text(u), lossy_text(n))),
        _ => None,
    }
}

/// The pairs that the rows of a nickname query give, in order.
pub open spec fn nickname_pairs(rows: Seq<Seq<DbFieldModel>>) -> Seq<(Seq<char>, Seq<char>)>
    decreases rows.len(),
{
    if rows.len() == 0 {
        Seq::empty()
    } else {
        match nickname_pair(rows.last()) {
            Some(p) => nickname_pairs(rows.drop_last()).push(p),
            None => nickname_pairs(rows.drop_last()),
        }
    }
}

pub open spec fn pairs_view(v: Seq<(String, String)>) -> Seq<(Seq<char>, Seq<char>)> {
    v.map_values(|p: (String, String)| (p.0@, p.1@))
}

/// Reads the (user name, nickname) pairs out of a nickname query's rows.
pub fn nicknames(rows: &DbRows) -> (r: Vec<(String, String)>)
    ensures
        pairs_view(r@) == nickname_pairs(rows@),
{
    let ghost all = rows@;
    let mut out: Vec<(String, String)> = Vec::new();
    let mut i: usize = 0;
    assert(pairs_view(out@) =~= nickname_pairs(all.take(0)));
    while i < rows.rows.len()
        invariant
            i <= rows.rows@.len(),
            all == rows@,
            all.len() == rows.rows@.len(),
            pairs_view(out@) == nickname_pairs(all.take(i as int)),
        decreases rows.rows@.len() - i,
    {
        let row = &rows.rows[i];
        assert(all[i as int] == row@);
        assert(all.take(i + 1).drop_last() =~= all.take(i as int));
        assert(all.take(i + 1).last() == row@);
        let ghost before = pairs_view(out@);
        match (find_column(&row.fields, "UserName"), find_column(&row.fields, "NickName")) {
            (Some(u), Some(n)) => {
                let user = text_from_utf8_lossy(row.fields[u].content.as_slice());
                let nick = text_from_utf8_lossy(row.fields[n].content.as_slice());
                out.push((user, nick));
                assert(pairs_view(out@) =~= before.push((user@, nick@)));
            },
            _ => {},
        }
        i = i + 1;
    }
    assert(all.take(i as int) =~= all);
    out
}

/// The nickname last given for `id`: a later pair replaces an earlier one.
pub open spec fn nickname_for(pairs: Seq<(Seq<char>, Seq<char>)>, id: Seq<char>) -> Option<Seq<char>>
    decreases pairs.len(),
{
    if pairs.len() == 0 {
        None
    } else if pairs.last().0 == id {
        Some(pairs.last().1)
    } else {
        nickname_for(pairs.drop_last(), id)
    }
}

/// A member with its nickname filled in where the room lists no name.
pub open spec fn with_nickname(m: RoomMemberModel, pairs: Seq<(Seq<char>, Seq<char>)>) -> RoomMemberModel {
    if m.name.len() == 0 {
        match nickname_for(pairs, m.wxid) {
            Some(n) => RoomMemberModel { name: n, ..m },
            None => m,
        }
    } else {
        m
    }
}

fn lookup_nickname(pairs: &Vec<(String, String)>, id: &str) -> (r: Option<usize>)
    ensures
        match r {
            Some(i) => i < pairs@.len() && nickname_for(pairs_view(pairs@), id@) == Some(
                pairs@[i as int].1@,
            ),
            None => nickname_for(pairs_view(pairs@), id@) is None,
        },
{
    let ghost all = pairs_view(pairs@);
    let mut i: usize = pairs.len();
    assert(all.take(i as int) =~= all);
    while i > 0
        invariant
            i <= pairs@.len(),
            all == pairs_view(pairs@),
            nickname_for(all, id@) == nickname_for(all.take(i as int), id@),
        decreases i,
    {
        assert(all.take(i as int).drop_last() =~= all.take(i - 1));
        assert(all.take(i as int).last() == all[i - 1]);
        if text_eq(pairs[i - 1].0.as_str(), id) {
            return Some(i - 1);
        }
        i = i - 1;
    }
    None
}

/// Fills in the nicknames of members listed without a name.
pub fn fill_nicknames(ms: Vec<RoomMember>, pairs: &Vec<(String, String)>) -> (r: Vec<RoomMember>)
    ensures
        members_view(r@) == members_view(ms@).map_values(
            |m: RoomMemberModel| with_nickname(m, pairs_view(pairs@)),
        ),
{
    let ghost want = members_view(ms@).map_values(
        |m: RoomMemberModel| with_nickname(m, pairs_view(pairs@)),
    );
    let mut out: Vec<RoomMember> = Vec::new();
    let mut i: usize = 0;
    assert(members_view(out@) =~= want.take(0));
    while i < ms.len()
        invariant
            i <= ms@.len(),
            want == members_view(ms@).map_values(
                |m: RoomMemberModel| with_nickname(m, pairs_view(pairs@)),
            ),
            members_view(out@) == want.take(i as int),
        decreases ms@.len() - i,
    {
        let m = &ms[i];
        let ghost before = members_view(out@);
        let name = if m.name.unicode_len() == 0 {
            match lookup_nickname(pairs, m.wxid.as_str()) {
                Some(j) => pairs[j].1.clone(),
                None => m.name.clone(),
            }
        } else {
            m.name.clone()
        };
        let item = RoomMember { wxid: m.wxid.clone(), name, state: m.state };
        assert(want[i as int] == with_nickname(ms@[i as int]@, pairs_view(pairs@)));
        assert(item@ == with_nickname(m@, pairs_view(pairs@)));
        let ghost iv = item@;
        out.push(item);
        assert(members_view(out@) =~= before.push(iv));
        assert(want.take(i + 1) =~= want.take(i as int).push(want[i as int]));
        i = i + 1;
    }
    assert(want.take(i as int) =~= want);
    out
}

/// The query for the account's avatar URLs; the id stands between quotes
/// as given.
pub fn head_image_query(wxid: &str) -> (r: DbQuery)
    ensures
        r.db@ == "MicroMsg.db"@,
        r.sql@ == "select * from ContactHeadImgUrl where usrName = '"@ + wxid@ + "'"@,
{
    let sql = String::from_str("select * from ContactHeadImgUrl where usrName = '");
    DbQuery { db: contact_db(), sql: sql.concat(wxid).concat("'") }
}

/// The account's profile, with its avatar URLs where known.
pub struct SelfInfo {
    pub wxid: String,
    pub name: String,
    pub mobile: String,
    pub home: String,
    pub small_head_url: Option<String>,
    pub big_head_url: Option<String>,
    pub alias: String,
}

/// The avatar URLs that a row's fields give, read in order (a later field
/// replaces an earlier one); `None` where one of them is not UTF-8.
pub open spec fn head_urls(fs: Seq<DbFieldModel>) -> Option<(Option<Seq<char>>, Option<Seq<char>>)>
    decreases fs.len(),
{
    if fs.len() == 0 {
        Some((None, None))
    } else {
        match head_urls(fs.drop_last()) {
            None => None,
            Some((small, big)) => {
                let f = fs.last();
                if f.column == "smallHeadImgUrl"@ {
                    if valid_utf8(f.content) {
                        Some((Some(decode_utf8(f.content)), big))
                    } else {
                        None
                    }
                } else if f.column == "bigHeadImgUrl"@ {
                    if valid_utf8(f.content) {
                        Some((small, Some(decode_utf8(f.content))))
                    } else {
                        None
                    }
                } else {
                    Some((small, big))
                }
            },
        }
    }
}

proof fn lemma_head_urls_failure_persists(fs: Seq<DbFieldModel>, k: int)
    requires
        0 <= k <= fs.len(),
        head_urls(fs.take(k)) is None,
    ensures
        head_urls(fs) is None,
    decreases fs.len() - k,
{
    if k < fs.len() {
        assert(fs.take(k + 1).drop_last() =~= fs.take(k));
        lemma_head_urls_failure_persists(fs, k + 1);
    } else {
        assert(fs.take(k) =~= fs);
    }
}

pub open spec fn opt_view(o: Option<String>) -> Option<Seq<char>> {
    match o {
        Some(s) => Some(s@),
        None => None,
    }
}

/// The avatar URLs that the first row of a head-image query gives.
pub open spec fn avatar_urls(rows: Seq<Seq<DbFieldModel>>) -> Option<(Option<Seq<char>>, Option<Seq<char>>)> {
    if rows.len() == 0 {
        Some((None, None))
    } else {
        head_urls(rows[0])
    }
}

/// Joins the account's profile with the avatar URLs of the head-image
/// query's first row; text that is not UTF-8 is an error.
pub fn self_info(user: UserInfo, rows: &DbRows) -> (r: Result<SelfInfo, IpcError>)
    ensures
        match avatar_urls(rows@) {
            Some((small, big)) => r matches Ok(s) && s.wxid@ == user.wxid@ && s.name@ == user.name@
                && s.mobile@ == user.mobile@ && s.home@ == user.home@ && s.alias@ == user.alias@
                && opt_view(s.small_head_url) == small && opt_view(s.big_head_url) == big,
            None => r == Err::<SelfInfo, IpcError>(IpcError::Codec(CodecError::Unexpected)),
        },
{
    let mut small: Option<String> = None;
    let mut big: Option<String> = None;
    if rows.rows.len() > 0 {
        let fs = &rows.rows[0].fields;
        let ghost all = rows@[0];
        assert(all == crate::messages::db_fields_view(fs@));
        let mut i: usize = 0;
        assert(all.take(0) =~= Seq::<DbFieldModel>::empty());
        while i < fs.len()
            invariant
                i <= fs@.len(),
                all == crate::messages::db_fields_view(fs@),
                rows@.len() > 0,
                all == rows@[0],
                head_urls(all.take(i as int)) == Some((opt_view(small), opt_view(big))),
            decreases fs@.len() - i,
        {
            let f = &fs[i];
            assert(all.take(i + 1).drop_last() =~= all.take(i as int));
            assert(all.take(i + 1).last() == f@);
            if text_eq(f.column.as_str(), "smallHeadImgUrl") {
                let mut c: Vec<u8> = Vec::new();
                c.extend_from_slice(f.content.as_slice());
                assert(c@ =~= f.content@);
                match string_from_utf8(c) {
                    Some(s) => {
                        small = Some(s);
                    },
                    None => {
                        proof {
                            assert(head_urls(all.take(i + 1)) is None);
                            lemma_head_urls_failure_persists(all, i + 1);
                        }
                        return Err(IpcError::Codec(CodecError::Unexpected));
                    },
                }
            } else if text_eq(f.column.as_str(), "bigHeadImgUrl") {
                let mut c: Vec<u8> = Vec::new();
                c.extend_from_slice(f.content.as_slice());
                assert(c@ =~= f.content@);
                match string_from_utf8(c) {
                    Some(s) => {
                        big = Some(s);
                    },
                    None => {
                        proof {
                            assert(head_urls(all.take(i + 1)) is None);
                            lemma_head_urls_failure_persists(all, i + 1);
                        }
                        return Err(IpcError::Codec(CodecError::Unexpected));
                    },
                }
            }
            i = i + 1;
        }
        assert(all.take(i as int) =~= all);
    }
    Ok(
        SelfInfo {
            wxid: user.wxid,
            name: user.name,
            mobile: user.mobile,
            home: user.home,
            small_head_url: small,
            big_head_url: big,
            alias: user.alias,
        },
    )
}

} // verus!
