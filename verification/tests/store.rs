use runslate::cache::util::{cache_time, decode, encode, is_fresh, pack, unpack};
use runslate::cache::{get, remove, CacheDir, CacheFile, CacheRecord, Listed, Stored};
use runslate::errors::Error;
use runslate::json::Json;

const NOW: u64 = 1_700_000_000;
const TTL: u64 = 300;

fn payload() -> Json {
    Json::Object(vec![
        (String::from("errorCode"), Json::String(String::from("0"))),
        (String::from("translation"), Json::Array(vec![Json::String(String::from("你好"))])),
    ])
}

fn record(data: &str, created_at: u64) -> Stored {
    Stored::Record(CacheRecord { data: String::from(data), created_at })
}

fn file(name: &str, size: u64, stored: Stored) -> CacheFile {
    CacheFile { name: String::from(name), size, stored }
}

fn names(dir: &CacheDir) -> Vec<String> {
    dir.list(NOW, TTL).into_iter().map(|row| row.name).collect()
}

#[test]
fn what_is_stored_is_read_back_within_its_time_to_live() {
    let mut dir = CacheDir::new();
    assert!(runslate::cache::set(&mut dir, "En-youdao-Zh_hello", &payload(), NOW));
    assert_eq!(get(&mut dir, "En-youdao-Zh_hello", NOW, TTL), Ok(payload()));
    assert_eq!(get(&mut dir, "En-youdao-Zh_hello", NOW + 299, TTL), Ok(payload()));
    assert_eq!(dir.len(), 1);
}

#[test]
fn a_record_expires_when_its_time_to_live_has_passed() {
    let mut dir = CacheDir::new();
    dir.put(file("late", 10, record("{}", NOW - TTL - 1)));
    assert_eq!(get(&mut dir, "late", NOW, TTL), Err(Error::CacheExpired(String::from("late"))));
    assert_eq!(dir.find("late"), None);
    assert_eq!(dir.len(), 0);

    let mut dir = CacheDir::new();
    dir.put(file("early", 10, record("{}", NOW - TTL + 1)));
    assert_eq!(get(&mut dir, "early", NOW, TTL), Ok(Json::Object(vec![])));
    assert_eq!(dir.len(), 1);
}

#[test]
fn a_record_of_exactly_its_time_to_live_has_expired() {
    let mut dir = CacheDir::new();
    dir.put(file("edge", 10, record("1", NOW - TTL)));
    assert_eq!(get(&mut dir, "edge", NOW, TTL), Err(Error::CacheExpired(String::from("edge"))));
    assert!(!is_fresh(NOW - TTL, TTL, NOW));
    assert!(is_fresh(NOW - TTL + 1, TTL, NOW));
    assert!(!is_fresh(NOW - TTL - 1, TTL, NOW));
}

#[test]
fn freshness_never_overflows() {
    assert!(is_fresh(u64::MAX, u64::MAX, u64::MAX));
    assert!(is_fresh(u64::MAX, 1, 0));
    assert!(is_fresh(1, u64::MAX, u64::MAX));
    assert!(!is_fresh(0, u64::MAX, u64::MAX));
    assert!(!is_fresh(5, 0, 5));
    assert!(is_fresh(6, 0, 5));
}

#[test]
fn a_file_that_is_no_record_is_corrupt_and_removed() {
    let mut dir = CacheDir::new();
    dir.put(file("junk", 8, decode("not json")));
    dir.put(file("other", 8, record("1", NOW)));
    assert_eq!(get(&mut dir, "junk", NOW, TTL), Err(Error::DeserializeFailed(String::from("junk"))));
    assert_eq!(names(&dir), vec![String::from("other")]);
}

#[test]
fn a_missing_file_is_not_found() {
    let mut dir = CacheDir::new();
    dir.put(file("other", 8, record("1", NOW)));
    assert_eq!(get(&mut dir, "absent", NOW, TTL), Err(Error::CacheNotFound(String::from("absent"))));
    assert_eq!(dir.len(), 1);
}

#[test]
fn a_file_that_cannot_be_read_is_a_miss() {
    let mut dir = CacheDir::new();
    dir.put(file("closed", 8, Stored::Unopened));
    dir.put(file("broken", 8, Stored::Unread));
    assert_eq!(get(&mut dir, "closed", NOW, TTL), Err(Error::OpenFileError(String::from("closed"))));
    assert_eq!(get(&mut dir, "broken", NOW, TTL), Err(Error::ReadFileError(String::from("broken"))));
    assert_eq!(dir.len(), 2);
    assert_eq!(dir.purge_expired(NOW, TTL), 2);
    assert_eq!(dir.len(), 0);
}

#[test]
fn every_miss_of_the_cache_counts_as_one() {
    for e in [
        Error::CacheNotFound(String::new()),
        Error::CacheExpired(String::new()),
        Error::DeserializeFailed(String::new()),
        Error::ReadFileError(String::new()),
        Error::OpenFileError(String::new()),
    ] {
        assert!(e.is_miss());
    }
    for e in [
        Error::TranslateFailed(String::new()),
        Error::TranslateNetworkError(String::new()),
        Error::SerializeError(String::new()),
        Error::EnvNotExist(String::new()),
        Error::FileNotExist(String::new()),
        Error::OuterCrateInternalError(String::new()),
    ] {
        assert!(!e.is_miss());
    }
}

#[test]
fn a_record_whose_answer_is_no_json_fails_and_stays() {
    let mut dir = CacheDir::new();
    dir.put(file("odd", 8, record("{not json", NOW)));
    assert_eq!(get(&mut dir, "odd", NOW, TTL), Err(Error::DeserializeFailed(String::from("odd"))));
    assert_eq!(dir.len(), 1);
}

#[test]
fn a_write_replaces_what_was_stored_under_the_name() {
    let mut dir = CacheDir::new();
    assert!(runslate::cache::set(&mut dir, "k", &Json::String(String::from("old")), NOW));
    assert!(runslate::cache::set(&mut dir, "other", &Json::Null, NOW));
    assert!(runslate::cache::set(&mut dir, "k", &Json::String(String::from("new")), NOW + 1));
    assert_eq!(dir.len(), 2);
    assert_eq!(get(&mut dir, "k", NOW + 1, TTL), Ok(Json::String(String::from("new"))));
    assert_eq!(names(&dir), vec![String::from("other"), String::from("k")]);
}

#[test]
fn a_value_that_cannot_be_written_is_not_stored() {
    let mut dir = CacheDir::new();
    dir.put(file("k", 8, record("1", NOW)));
    assert!(!runslate::cache::set(&mut dir, "k", &Json::Number(String::from("nope")), NOW));
    assert_eq!(get(&mut dir, "k", NOW, TTL), Ok(Json::Number(String::from("1"))));
    assert_eq!(pack(&Json::Number(String::from("nope")), NOW), Err(Error::SerializeError(String::new())));
}

#[test]
fn a_stored_file_is_as_large_as_its_text() {
    let mut dir = CacheDir::new();
    assert!(runslate::cache::set(&mut dir, "k", &payload(), NOW));
    let stored = dir.find("k").unwrap().clone();
    let text = match &stored.stored {
        Stored::Record(r) => encode(r).unwrap(),
        _ => panic!("no record"),
    };
    assert_eq!(stored.size, text.len() as u64);
    assert_eq!(stored.name, "k");
}

#[test]
fn packing_writes_the_value_and_stamps_the_time() {
    assert_eq!(
        pack(&Json::Array(vec![Json::Bool(true), Json::Null]), 42),
        Ok(CacheRecord { data: String::from("[true,null]"), created_at: 42 })
    );
}

#[test]
fn unpacking_tells_why_there_is_no_record() {
    assert_eq!(unpack("f", None, NOW, TTL), Err(Error::CacheNotFound(String::from("f"))));
    assert_eq!(unpack("f", Some(&Stored::Unopened), NOW, TTL), Err(Error::OpenFileError(String::from("f"))));
    assert_eq!(unpack("f", Some(&Stored::Unread), NOW, TTL), Err(Error::ReadFileError(String::from("f"))));
    assert_eq!(unpack("f", Some(&Stored::Garbled), NOW, TTL), Err(Error::DeserializeFailed(String::from("f"))));
    assert_eq!(unpack("f", Some(&record("x", NOW - TTL)), NOW, TTL), Err(Error::CacheExpired(String::from("f"))));
    assert_eq!(
        unpack("f", Some(&record("x", NOW)), NOW, TTL),
        Ok(CacheRecord { data: String::from("x"), created_at: NOW })
    );
}

#[test]
fn a_record_reads_back_from_the_text_of_its_file() {
    for r in [
        CacheRecord { data: String::from("{\"a\":\"b\\n\"}"), created_at: NOW },
        CacheRecord { data: String::new(), created_at: 0 },
        CacheRecord { data: String::from("✔ \\ \" \u{1} /"), created_at: u64::MAX },
    ] {
        let text = encode(&r).unwrap();
        assert_eq!(decode(&text), Stored::Record(r));
    }
}

#[test]
fn the_text_of_a_file_holds_data_and_time() {
    let text = encode(&CacheRecord { data: String::from("[1]"), created_at: 7 }).unwrap();
    let json = Json::parse(&text).unwrap();
    assert_eq!(json.text_at("data"), Some("[1]"));
    assert_eq!(json.get("created_at"), Some(&Json::Number(String::from("7"))));
    assert_eq!(json.as_object().map(|fields| fields.len()), Some(2));
}

#[test]
fn a_record_is_read_from_the_form_in_which_it_is_written() {
    assert_eq!(
        decode("{\"data\":\"{\\\"k\\\":1}\",\"created_at\":1700000000}"),
        record("{\"k\":1}", NOW)
    );
    assert_eq!(decode(" { \"created_at\" : 5 , \"extra\" : null , \"data\" : \"\" } "), record("", 5));
    assert_eq!(decode("{\"data\":\"x\",\"created_at\":18446744073709551615}"), record("x", u64::MAX));
}

#[test]
fn what_is_no_record_is_garbled() {
    for text in [
        "",
        "not json",
        "{}",
        "[]",
        "null",
        "{\"data\":\"x\"}",
        "{\"created_at\":1}",
        "{\"data\":5,\"created_at\":1}",
        "{\"data\":\"x\",\"created_at\":\"1\"}",
        "{\"data\":\"x\",\"created_at\":-1}",
        "{\"data\":\"x\",\"created_at\":1.5}",
        "{\"data\":\"x\",\"created_at\":18446744073709551616}",
        "{\"data\":\"x\",\"created_at\":1} trailing",
    ] {
        assert_eq!(decode(text), Stored::Garbled, "{:?}", text);
    }
}

#[test]
fn the_time_to_live_is_three_hundred_seconds_unless_a_number_is_set() {
    assert_eq!(cache_time(None), 300);
    assert_eq!(cache_time(Some(String::new())), 300);
    assert_eq!(cache_time(Some(String::from("abc"))), 300);
    assert_eq!(cache_time(Some(String::from("-5"))), 300);
    assert_eq!(cache_time(Some(String::from(" 60"))), 300);
    assert_eq!(cache_time(Some(String::from("60"))), 60);
    assert_eq!(cache_time(Some(String::from("0"))), 0);
    assert_eq!(cache_time(Some(String::from("86400"))), 86400);
}

#[test]
fn removing_takes_the_named_file_only() {
    let mut dir = CacheDir::new();
    dir.put(file("a", 1, record("1", NOW)));
    dir.put(file("b", 2, Stored::Garbled));
    dir.put(file("c", 3, record("3", NOW)));
    remove(&mut dir, "b");
    assert_eq!(names(&dir), vec![String::from("a"), String::from("c")]);
    remove(&mut dir, "b");
    assert_eq!(dir.len(), 2);
    dir.remove("a");
    assert_eq!(names(&dir), vec![String::from("c")]);
}

#[test]
fn listing_tells_name_size_and_validity_and_removes_nothing() {
    let mut dir = CacheDir::new();
    dir.put(file("fresh", 10, record("1", NOW - 10)));
    dir.put(file("stale", 20, record("1", NOW - TTL)));
    dir.put(file("junk", 30, Stored::Garbled));
    dir.put(file("closed", 40, Stored::Unopened));
    let rows = dir.list(NOW, TTL);
    assert_eq!(
        rows,
        vec![
            Listed { name: String::from("fresh"), size: 10, valid: true },
            Listed { name: String::from("stale"), size: 20, valid: false },
            Listed { name: String::from("junk"), size: 30, valid: false },
            Listed { name: String::from("closed"), size: 40, valid: false },
        ]
    );
    assert_eq!(dir.len(), 4);
    assert_eq!(dir.file(2).name, "junk");
}

#[test]
fn purging_removes_exactly_what_cannot_be_read() {
    let mut dir = CacheDir::new();
    dir.put(file("v1", 1, record("1", NOW)));
    dir.put(file("x1", 1, record("1", NOW - TTL - 1)));
    dir.put(file("x2", 1, Stored::Garbled));
    dir.put(file("v2", 1, record("2", NOW - TTL + 1)));
    dir.put(file("x3", 1, Stored::Unread));
    let before = dir.len();
    let removed = dir.purge_expired(NOW, TTL);
    assert_eq!(removed, 3);
    let rows = dir.list(NOW, TTL);
    assert_eq!(rows.len(), before - removed);
    assert!(rows.iter().all(|row| row.valid));
    assert_eq!(names(&dir), vec![String::from("v1"), String::from("v2")]);
    assert_eq!(dir.purge_expired(NOW, TTL), 0);
    assert_eq!(dir.len(), 2);
}

#[test]
fn cleaning_removes_everything() {
    let mut dir = CacheDir::new();
    dir.put(file("a", 1, record("1", NOW)));
    dir.put(file("b", 1, Stored::Garbled));
    assert_eq!(dir.clean_all(), 2);
    assert_eq!(dir.len(), 0);
    assert_eq!(dir.clean_all(), 0);
}

#[test]
fn failures_are_worded_with_their_detail() {
    let cases = vec![
        (Error::EnvNotExist(String::from("KEY")), "Environment variable does not exist: KEY"),
        (Error::FileNotExist(String::from("f")), "File does not exist: f"),
        (Error::OuterCrateInternalError(String::from("x")), "External crate internal error: x"),
        (Error::CacheExpired(String::from("f")), "Cache expired: f"),
        (Error::CacheNotFound(String::from("f")), "Cache not found: f"),
        (Error::SerializeError(String::from("e")), "Serialization failed: e"),
        (Error::DeserializeFailed(String::from("e")), "Deserialization failed: e"),
        (Error::ReadFileError(String::from("f")), "Read file error: f"),
        (Error::OpenFileError(String::from("f")), "Open file error: f"),
        (Error::TranslateFailed(String::from("hello")), "Translate `hello` failed"),
        (Error::TranslateNetworkError(String::from("timeout")), "Network error during translation: timeout"),
    ];
    for (error, words) in cases {
        assert_eq!(error.to_string(), words);
    }
}
