//! Packing answers into records, reading records back, and the form in
//! which a record is written to its file.

use super::{fresh, CacheRecord, RecordView, Stored, StoredView};
use crate::errors::Error;
use crate::json::{json_text, parsed_json, Json, JsonView};
use crate::text::{decimal, decimal_string, parse_u64, parsed_u64};
use crate::utils::env_loader::{load_or_default, opt_view, setting};
use vstd::prelude::*;
use vstd::string::*;

verus! {

/// The number of seconds that a record lives where nothing usable is set.
pub const DEFAULT_CACHE_TIME: u64 = 300;

/// The number of seconds that a record lives: the setting where it is a
/// number, 300 where it is missing, empty or anything else.
pub open spec fn configured_cache_time(found: Option<Seq<char>>) -> u64 {
    match parsed_u64(setting(found, seq!['3', '0', '0'])) {
        Some(t) => t,
        None => DEFAULT_CACHE_TIME,
    }
}

pub fn cache_time(found: Option<String>) -> (ttl: u64)
    ensures
        ttl == configured_cache_time(opt_view(found)),
{
    proof {
        reveal_strlit("300");
    }
    assert("300"@ =~= seq!['3', '0', '0']);
    let value = load_or_default(found, "300");
    match parse_u64(value.as_str()) {
        Some(t) => t,
        None => DEFAULT_CACHE_TIME,
    }
}

/// Writes `value` as text and packs it in a record made at `now`. Fails
/// exactly where the value cannot be written.
pub fn pack(value: &Json, now: u64) -> (r: Result<CacheRecord, Error>)
    ensures
        match json_text(value@) {
            Some(text) => r matches Ok(record) && record@ == (RecordView {
                data: text,
                created_at: now,
            }),
            None => r matches Err(e) && e is SerializeError && e.detail() == Seq::<char>::empty(),
        },
{
    match value.to_text() {
        Some(text) => Ok(CacheRecord { data: text, created_at: now }),
        None => Err(Error::SerializeError(String::new())),
    }
}

/// What a read at `now` makes of what was found: the record, where a file
/// was found that holds one that has not outlived `ttl`, and else the
/// reason why there is none to use.
pub open spec fn unpacked(found: Option<StoredView>, now: u64, ttl: u64) -> Result<
    RecordView,
    MissKind,
> {
    match found {
        None => Err(MissKind::NotFound),
        Some(StoredView::Unopened) => Err(MissKind::Unopened),
        Some(StoredView::Unread) => Err(MissKind::Unread),
        Some(StoredView::Garbled) => Err(MissKind::Corrupt),
        Some(StoredView::Record(r)) => if fresh(r.created_at, ttl, now) {
            Ok(r)
        } else {
            Err(MissKind::Expired)
        },
    }
}

/// Why a read of the cache found no answer.
#[derive(Clone, Copy, Debug, PartialEq, Eq, Structural)]
pub enum MissKind {
    /// There is no file of that name.
    NotFound,
    /// The file could not be opened.
    Unopened,
    /// The file could not be read.
    Unread,
    /// The file holds no record.
    Corrupt,
    /// The record is older than its time to live.
    Expired,
    /// The record is in order, but the answer in it is no JSON text.
    BadAnswer,
}

impl MissKind {
    /// Whether `e` is the failure that stands for this miss on the file
    /// `name`.
    pub open spec fn told_by(self, e: Error, name: Seq<char>) -> bool {
        e.detail() == name && match self {
            MissKind::NotFound => e is CacheNotFound,
            MissKind::Unopened => e is OpenFileError,
            MissKind::Unread => e is ReadFileError,
            MissKind::Corrupt => e is DeserializeFailed,
            MissKind::Expired => e is CacheExpired,
            MissKind::BadAnswer => e is DeserializeFailed,
        }
    }
}

/// The views of what was found.
pub open spec fn stored_view(found: Option<&Stored>) -> Option<StoredView> {
    match found {
        Some(s) => Some(s@),
        None => None,
    }
}

/// Whether a record written at `created_at` can still be read at `now`.
pub fn is_fresh(created_at: u64, ttl: u64, now: u64) -> (r: bool)
    ensures
        r == fresh(created_at, ttl, now),
{
    now < created_at || now - created_at < ttl
}

/// The record that the file `name` holds, where it holds one that has not
/// outlived `ttl` at `now`; else the failure that says why not.
pub fn unpack(name: &str, found: Option<&Stored>, now: u64, ttl: u64) -> (r: Result<
    CacheRecord,
    Error,
>)
    ensures
        match unpacked(stored_view(found), now, ttl) {
            Ok(record) => r matches Ok(got) && got@ == record,
            Err(kind) => r matches Err(e) && kind.told_by(e, name@),
        },
{
    match found {
        None => Err(Error::CacheNotFound(String::from_str(name))),
        Some(Stored::Unopened) => Err(Error::OpenFileError(String::from_str(name))),
        Some(Stored::Unread) => Err(Error::ReadFileError(String::from_str(name))),
        Some(Stored::Garbled) => Err(Error::DeserializeFailed(String::from_str(name))),
        Some(Stored::Record(record)) => {
            if is_fresh(record.created_at, ttl, now) {
                Ok(CacheRecord { data: record.data.clone(), created_at: record.created_at })
            } else {
                Err(Error::CacheExpired(String::from_str(name)))
            }
        },
    }
}

/// The JSON object that a record is written as: its text under `data`,
/// its time under `created_at`.
pub open spec fn envelope(record: RecordView) -> JsonView {
    JsonView::Object(
        seq![
            (seq!['d', 'a', 't', 'a'], JsonView::String(record.data)),
            (
                seq!['c', 'r', 'e', 'a', 't', 'e', 'd', '_', 'a', 't'],
                JsonView::Number(decimal(record.created_at as nat)),
            ),
        ],
    )
}

/// The text that a record's file holds.
pub open spec fn encoded(record: RecordView) -> Option<Seq<char>> {
    json_text(envelope(record))
}

/// What a file that holds `text` is read as: a record where the text is a
/// JSON object with a string under `data` and a `u64` under `created_at`,
/// and no record otherwise.
pub open spec fn decoded(text: Seq<char>) -> StoredView {
    match parsed_json(text) {
        Some(j) => match (
            j.field(seq!['d', 'a', 't', 'a']),
            j.field(seq!['c', 'r', 'e', 'a', 't', 'e', 'd', '_', 'a', 't']),
        ) {
            (Some(JsonView::String(data)), Some(at)) => match at.unsigned() {
                Some(created_at) => StoredView::Record(RecordView { data, created_at }),
                None => StoredView::Garbled,
            },
            _ => StoredView::Garbled,
        },
        None => StoredView::Garbled,
    }
}

/// The text to write to a record's file; `None` where the record cannot
/// be written as JSON.
pub fn encode(record: &CacheRecord) -> (r: Option<String>)
    ensures
        match r {
            Some(text) => encoded(record@) == Some(text@),
            None => encoded(record@).is_none(),
        },
{
    proof {
        reveal_strlit("data");
        reveal_strlit("created_at");
    }
    let mut fields: Vec<(String, Json)> = Vec::new();
    fields.push((String::from_str("data"), Json::String(record.data.clone())));
    fields.push(
        (String::from_str("created_at"), Json::Number(decimal_string(record.created_at))),
    );
    let object = Json::Object(fields);
    proof {
        crate::json::view_of_parts(object);
        assert("data"@ =~= seq!['d', 'a', 't', 'a']);
        assert("created_at"@ =~= seq!['c', 'r', 'e', 'a', 't', 'e', 'd', '_', 'a', 't']);
        let got = object@->Object_0;
        let want = envelope(record@)->Object_0;
        assert(got.len() == 2);
        assert(got[0] == want[0]);
        assert(got[1] == want[1]);
        assert(got =~= want);
    }
    object.to_text()
}

/// Reads the text of a record's file.
pub fn decode(text: &str) -> (r: Stored)
    ensures
        r@ == decoded(text@),
{
    proof {
        reveal_strlit("data");
        reveal_strlit("created_at");
    }
    assert("data"@ =~= seq!['d', 'a', 't', 'a']);
    assert("created_at"@ =~= seq!['c', 'r', 'e', 'a', 't', 'e', 'd', '_', 'a', 't']);
    let json = match Json::parse(text) {
        Some(j) => j,
        None => {
            return Stored::Garbled;
        },
    };
    let data = match json.get("data") {
        Some(Json::String(s)) => s.clone(),
        _ => {
            return Stored::Garbled;
        },
    };
    let created_at = match json.get("created_at") {
        Some(n) => match n.as_u64() {
            Some(t) => t,
            None => {
                return Stored::Garbled;
            },
        },
        None => {
            return Stored::Garbled;
        },
    };
    Stored::Record(CacheRecord { data, created_at })
}

} // verus!
