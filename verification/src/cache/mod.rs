//! The cache: answers kept under the name of their query until they are
//! older than their time to live.
//!
//! The directory that holds the cache is kept here as a value, a
//! [`CacheDir`]: what its files are called, how large they are and what
//! reading them gave. Whoever owns the real directory brings it into that
//! form, lets the functions of this module work on it, and carries out on
//! the files what changed.

use self::util::{encode, encoded, is_fresh, pack, unpack, unpacked, MissKind};
use crate::errors::Error;
use crate::json::{json_text, parsed_json, Json, JsonView};
use crate::text::same_text;
use vstd::prelude::*;
use vstd::string::*;
use vstd::utf8::encode_utf8;

pub mod cmd;
pub mod util;

verus! {

/// A cached answer: the provider's answer as JSON text, and the second,
/// counted from the Unix epoch, at which it was written.
#[derive(Clone, Debug, PartialEq, Eq)]
pub struct CacheRecord {
    pub data: String,
    pub created_at: u64,
}

/// A [`CacheRecord`] as a mathematical value.
pub struct RecordView {
    pub data: Seq<char>,
    pub created_at: u64,
}

impl View for CacheRecord {
    type V = RecordView;

    open spec fn view(&self) -> RecordView {
        RecordView { data: self.data@, created_at: self.created_at }
    }
}

/// What reading a file of the cache gave.
#[derive(Clone, Debug, PartialEq, Eq)]
pub enum Stored {
    /// The file could not be opened.
    Unopened,
    /// The file was opened, but could not be read to its end.
    Unread,
    /// The file was read, and what it holds is no record.
    Garbled,
    /// The file holds a record.
    Record(CacheRecord),
}

/// A [`Stored`] as a mathematical value.
pub enum StoredView {
    Unopened,
    Unread,
    Garbled,
    Record(RecordView),
}

impl View for Stored {
    type V = StoredView;

    open spec fn view(&self) -> StoredView {
        match self {
            Stored::Unopened => StoredView::Unopened,
            Stored::Unread => StoredView::Unread,
            Stored::Garbled => StoredView::Garbled,
            Stored::Record(r) => StoredView::Record(r@),
        }
    }
}

/// Whether a record written at `created_at` can still be read at `now`
/// when records live for `ttl` seconds.
pub open spec fn fresh(created_at: u64, ttl: u64, now: u64) -> bool {
    created_at + ttl > now
}

impl StoredView {
    /// Whether a read at `now` finds an answer here: the file holds a
    /// record, and the record has not outlived `ttl`.
    pub open spec fn readable(self, now: u64, ttl: u64) -> bool {
        match self {
            StoredView::Record(r) => fresh(r.created_at, ttl, now),
            _ => false,
        }
    }
}

/// One file of the cache directory.
#[derive(Clone, Debug, PartialEq, Eq)]
pub struct CacheFile {
    pub name: String,
    /// The file's length in bytes.
    pub size: u64,
    pub stored: Stored,
}

/// A [`CacheFile`] as a mathematical value.
pub struct FileView {
    pub name: Seq<char>,
    pub size: u64,
    pub stored: StoredView,
}

impl View for CacheFile {
    type V = FileView;

    open spec fn view(&self) -> FileView {
        FileView { name: self.name@, size: self.size, stored: self.stored@ }
    }
}

/// The files of `files` that are not called `name`.
pub open spec fn without(files: Seq<FileView>, name: Seq<char>) -> Seq<FileView> {
    files.filter(|f: FileView| f.name != name)
}

/// The files of `files` that a read at `now` finds an answer in.
pub open spec fn readable_files(files: Seq<FileView>, now: u64, ttl: u64) -> Seq<FileView> {
    files.filter(|f: FileView| f.stored.readable(now, ttl))
}

/// The first file of `files` that is called `name`.
pub open spec fn found(files: Seq<FileView>, name: Seq<char>) -> Option<FileView>
    decreases files.len(),
{
    if files.len() == 0 {
        None
    } else if files[0].name == name {
        Some(files[0])
    } else {
        found(files.drop_first(), name)
    }
}

/// Whether no two files of `files` share a name.
pub open spec fn distinct_names(files: Seq<FileView>) -> bool {
    forall|i: int, j: int|
        0 <= i < j < files.len() ==> (#[trigger] files[i]).name != (#[trigger] files[j]).name
}

/// The views of the files of `v`.
pub open spec fn file_views(v: Seq<CacheFile>) -> Seq<FileView> {
    Seq::new(v.len(), |i: int| v[i]@)
}

/// The cache directory as a value: its files in the order in which the
/// directory lists them.
#[derive(Clone, Debug, PartialEq, Eq)]
pub struct CacheDir {
    files: Vec<CacheFile>,
}

impl View for CacheDir {
    type V = Seq<FileView>;

    closed spec fn view(&self) -> Seq<FileView> {
        file_views(self.files@)
    }
}

/// What a filter keeps of one file more.
proof fn filter_step(orig: Seq<FileView>, k: int, pred: spec_fn(FileView) -> bool)
    requires
        0 <= k < orig.len(),
    ensures
        orig.take(k + 1).filter(pred) == if pred(orig[k]) {
            orig.take(k).filter(pred).push(orig[k])
        } else {
            orig.take(k).filter(pred)
        },
{
    assert(orig.take(k + 1) =~= orig.take(k).push(orig[k]));
    orig.take(k).lemma_filter_push(orig[k], pred);
}

impl CacheFile {
    /// A copy of the file.
    pub fn duplicate(&self) -> (copy: CacheFile)
        ensures
            copy@ == self@,
    {
        let stored = match &self.stored {
            Stored::Unopened => Stored::Unopened,
            Stored::Unread => Stored::Unread,
            Stored::Garbled => Stored::Garbled,
            Stored::Record(record) => Stored::Record(
                CacheRecord { data: record.data.clone(), created_at: record.created_at },
            ),
        };
        CacheFile { name: self.name.clone(), size: self.size, stored }
    }
}

/// The files of `files` in which a read at `now` finds no answer.
pub open spec fn unreadable_files(files: Seq<FileView>, now: u64, ttl: u64) -> Seq<FileView> {
    files.filter(|f: FileView| !f.stored.readable(now, ttl))
}

impl CacheDir {
    /// Whether no two files share a name, as in a real directory.
    pub open spec fn wf(&self) -> bool {
        distinct_names(self@)
    }

    /// A directory without files.
    pub fn new() -> (dir: CacheDir)
        ensures
            dir@ == Seq::<FileView>::empty(),
            dir.wf(),
    {
        let dir = CacheDir { files: Vec::new() };
        assert(dir@ =~= Seq::<FileView>::empty());
        dir
    }

    /// The number of files.
    pub fn len(&self) -> (n: usize)
        ensures
            n == self@.len(),
    {
        self.files.len()
    }

    /// The file at place `i`.
    pub fn file(&self, i: usize) -> (f: &CacheFile)
        requires
            i < self@.len(),
        ensures
            f@ == self@[i as int],
    {
        &self.files[i]
    }

    /// The first file called `name`.
    pub fn find(&self, name: &str) -> (r: Option<&CacheFile>)
        ensures
            match r {
                Some(f) => found(self@, name@) == Some(f@),
                None => found(self@, name@).is_none(),
            },
    {
        let mut i: usize = 0;
        assert(self@.skip(0) =~= self@);
        while i < self.files.len()
            invariant
                i <= self.files.len(),
                self@ == file_views(self.files@),
                found(self@, name@) == found(self@.skip(i as int), name@),
            decreases self.files.len() - i,
        {
            assert(self@.skip(i as int)[0] == self.files@[i as int]@);
            if same_text(self.files[i].name.as_str(), name) {
                return Some(&self.files[i]);
            }
            assert(self@.skip(i as int).drop_first() =~= self@.skip(i + 1));
            i += 1;
        }
        None
    }

    /// Removes every file called `name`; the others stay as they are.
    pub fn remove(&mut self, name: &str)
        ensures
            final(self)@ == without(old(self)@, name@),
            old(self).wf() ==> final(self).wf(),
    {
        let ghost orig = self@;
        proof {
            if distinct_names(orig) {
                filter_keeps_distinct(orig, |f: FileView| f.name != name@);
            }
        }
        let ghost pred = |f: FileView| f.name != name@;
        let ghost mut k: int = 0;
        let mut i: usize = 0;
        assert(self@.take(0) =~= orig.take(0).filter(pred)) by {
            reveal(Seq::filter);
        }
        assert(self@.skip(0) =~= orig.skip(0));
        while i < self.files.len()
            invariant
                i <= self.files.len(),
                0 <= k <= orig.len(),
                self@ == file_views(self.files@),
                self@.take(i as int) == orig.take(k).filter(pred),
                self@.skip(i as int) == orig.skip(k),
                pred == (|f: FileView| f.name != name@),
            decreases self.files.len() - i,
        {
            let ghost cur = self@;
            assert(cur.skip(i as int).len() == orig.skip(k).len());
            assert(cur.skip(i as int)[0] == orig.skip(k)[0]);
            assert(cur[i as int] == orig[k]);
            proof {
                filter_step(orig, k, pred);
            }
            if same_text(self.files[i].name.as_str(), name) {
                self.files.remove(i);
                assert(self@ =~= cur.remove(i as int));
                assert(self@.take(i as int) =~= cur.take(i as int));
                assert(self@.skip(i as int) =~= cur.skip(i as int).skip(1));
                assert(orig.skip(k).skip(1) =~= orig.skip(k + 1));
            } else {
                assert(cur.take(i + 1) =~= cur.take(i as int).push(cur[i as int]));
                assert(cur.skip(i + 1) =~= cur.skip(i as int).skip(1));
                assert(orig.skip(k).skip(1) =~= orig.skip(k + 1));
                i += 1;
            }
            proof {
                k = k + 1;
            }
        }
        assert(self@.skip(i as int).len() == 0);
        assert(orig.take(k) =~= orig);
        assert(self@ =~= self@.take(i as int));
    }

    /// Lists the files: for each its name, its size, and whether a read at
    /// `now` would find an answer in it. Nothing is removed.
    pub fn list(&self, now: u64, ttl: u64) -> (rows: Vec<Listed>)
        ensures
            listed_views(rows@) == listing(self@, now, ttl),
    {
        let mut rows: Vec<Listed> = Vec::new();
        let mut i: usize = 0;
        while i < self.files.len()
            invariant
                i <= self.files.len(),
                self@ == file_views(self.files@),
                listed_views(rows@) == listing(self@.take(i as int), now, ttl),
            decreases self.files.len() - i,
        {
            let file = &self.files[i];
            let valid = match &file.stored {
                Stored::Record(record) => is_fresh(record.created_at, ttl, now),
                _ => false,
            };
            let ghost before = rows@;
            rows.push(Listed { name: file.name.clone(), size: file.size, valid });
            assert(listed_views(rows@) =~= listed_views(before).push(
                listed(self@[i as int], now, ttl),
            ));
            assert(listing(self@.take(i + 1), now, ttl) =~= listing(
                self@.take(i as int),
                now,
                ttl,
            ).push(listed(self@[i as int], now, ttl)));
            i += 1;
        }
        assert(self@.take(i as int) =~= self@);
        rows
    }

    /// The files in which a read at `now` would find no answer: those that
    /// purging removes. The directory stays as it is.
    pub fn unreadable(&self, now: u64, ttl: u64) -> (doomed: CacheDir)
        ensures
            doomed@ == unreadable_files(self@, now, ttl),
            self.wf() ==> doomed.wf(),
    {
        let ghost pred = |f: FileView| !f.stored.readable(now, ttl);
        let mut doomed = CacheDir { files: Vec::new() };
        let mut i: usize = 0;
        assert(doomed@ =~= self@.take(0).filter(pred)) by {
            reveal(Seq::filter);
        }
        while i < self.files.len()
            invariant
                i <= self.files.len(),
                self@ == file_views(self.files@),
                doomed@ == file_views(doomed.files@),
                pred == (|f: FileView| !f.stored.readable(now, ttl)),
                doomed@ == self@.take(i as int).filter(pred),
            decreases self.files.len() - i,
        {
            proof {
                filter_step(self@, i as int, pred);
            }
            let file = &self.files[i];
            let valid = match &file.stored {
                Stored::Record(record) => is_fresh(record.created_at, ttl, now),
                _ => false,
            };
            if !valid {
                let ghost before = doomed@;
                doomed.files.push(file.duplicate());
                assert(doomed@ =~= before.push(self@[i as int]));
            }
            i += 1;
        }
        assert(self@.take(i as int) =~= self@);
        proof {
            if distinct_names(self@) {
                filter_keeps_distinct(self@, pred);
            }
        }
        doomed
    }

    /// Removes every file in which a read at `now` would find no answer,
    /// and returns how many those were. The others stay as they are.
    pub fn purge_expired(&mut self, now: u64, ttl: u64) -> (count: usize)
        ensures
            final(self)@ == readable_files(old(self)@, now, ttl),
            count == old(self)@.len() - final(self)@.len(),
            old(self).wf() ==> final(self).wf(),
    {
        let ghost orig = self@;
        proof {
            if distinct_names(orig) {
                filter_keeps_distinct(orig, |f: FileView| f.stored.readable(now, ttl));
            }
        }
        let ghost pred = |f: FileView| f.stored.readable(now, ttl);
        let ghost mut k: int = 0;
        let mut i: usize = 0;
        let mut count: usize = 0;
        assert(orig.len() == self.files.len());
        assert(self@.take(0) =~= orig.take(0).filter(pred)) by {
            reveal(Seq::filter);
        }
        assert(self@.skip(0) =~= orig.skip(0));
        while i < self.files.len()
            invariant
                i <= self.files.len(),
                0 <= k <= orig.len(),
                self@ == file_views(self.files@),
                self@.take(i as int) == orig.take(k).filter(pred),
                self@.skip(i as int) == orig.skip(k),
                pred == (|f: FileView| f.stored.readable(now, ttl)),
                count == k - i,
                orig.len() <= usize::MAX,
            decreases self.files.len() - i,
        {
            let ghost cur = self@;
            assert(cur.skip(i as int).len() == orig.skip(k).len());
            assert(cur.skip(i as int)[0] == orig.skip(k)[0]);
            assert(cur[i as int] == orig[k]);
            proof {
                filter_step(orig, k, pred);
            }
            let valid = match &self.files[i].stored {
                Stored::Record(record) => is_fresh(record.created_at, ttl, now),
                _ => false,
            };
            if !valid {
                self.files.remove(i);
                count += 1;
                assert(self@ =~= cur.remove(i as int));
                assert(self@.take(i as int) =~= cur.take(i as int));
                assert(self@.skip(i as int) =~= cur.skip(i as int).skip(1));
                assert(orig.skip(k).skip(1) =~= orig.skip(k + 1));
            } else {
                assert(cur.take(i + 1) =~= cur.take(i as int).push(cur[i as int]));
                assert(cur.skip(i + 1) =~= cur.skip(i as int).skip(1));
                assert(orig.skip(k).skip(1) =~= orig.skip(k + 1));
                i += 1;
            }
            proof {
                k = k + 1;
            }
        }
        assert(self@.skip(i as int).len() == 0);
        assert(orig.take(k) =~= orig);
        assert(self@ =~= self@.take(i as int));
        count
    }

    /// Removes every file, and returns how many there were.
    pub fn clean_all(&mut self) -> (count: usize)
        ensures
            final(self)@ == Seq::<FileView>::empty(),
            count == old(self)@.len(),
            final(self).wf(),
    {
        let count = self.files.len();
        self.files.clear();
        assert(self@ =~= Seq::<FileView>::empty());
        count
    }

    /// Puts `file` into the directory, in place of any file of its name.
    pub fn put(&mut self, file: CacheFile)
        ensures
            final(self)@ == without(old(self)@, file.name@).push(file@),
            old(self).wf() ==> final(self).wf(),
    {
        self.remove(file.name.as_str());
        let ghost mid = self@;
        self.files.push(file);
        assert(self@ =~= mid.push(file@));
        proof {
            if old(self).wf() {
                pushed_stays_distinct(old(self)@, file@);
            }
        }
    }
}

/// One line of a listing: a file's name, its length in bytes, and whether
/// a read would find an answer in it.
#[derive(Clone, Debug, PartialEq, Eq)]
pub struct Listed {
    pub name: String,
    pub size: u64,
    pub valid: bool,
}

/// A [`Listed`] as a mathematical value.
pub struct ListedView {
    pub name: Seq<char>,
    pub size: u64,
    pub valid: bool,
}

impl View for Listed {
    type V = ListedView;

    open spec fn view(&self) -> ListedView {
        ListedView { name: self.name@, size: self.size, valid: self.valid }
    }
}

/// The views of the lines of `v`.
pub open spec fn listed_views(v: Seq<Listed>) -> Seq<ListedView> {
    Seq::new(v.len(), |i: int| v[i]@)
}

/// The line that lists `f` at `now`.
pub open spec fn listed(f: FileView, now: u64, ttl: u64) -> ListedView {
    ListedView { name: f.name, size: f.size, valid: f.stored.readable(now, ttl) }
}

/// The listing of `files` at `now`: one line for each file, in order.
pub open spec fn listing(files: Seq<FileView>, now: u64, ttl: u64) -> Seq<ListedView> {
    Seq::new(files.len(), |i: int| listed(files[i], now, ttl))
}

/// What is stored in the file that was found.
pub open spec fn stored_of(file: Option<FileView>) -> Option<StoredView> {
    match file {
        Some(f) => Some(f.stored),
        None => None,
    }
}

/// What a read of `key` at `now` answers: the answer that the record
/// holds, or why there is none.
pub open spec fn answer(files: Seq<FileView>, key: Seq<char>, now: u64, ttl: u64) -> Result<
    JsonView,
    MissKind,
> {
    match unpacked(stored_of(found(files, key)), now, ttl) {
        Ok(record) => match parsed_json(record.data) {
            Some(value) => Ok(value),
            None => Err(MissKind::BadAnswer),
        },
        Err(kind) => Err(kind),
    }
}

/// The directory after a read of `key` at `now`: without the file where
/// the read found that it holds no record or that its record has expired,
/// and as before in every other case.
pub open spec fn after_get(files: Seq<FileView>, key: Seq<char>, now: u64, ttl: u64) -> Seq<
    FileView,
> {
    match unpacked(stored_of(found(files, key)), now, ttl) {
        Err(MissKind::Corrupt) => without(files, key),
        Err(MissKind::Expired) => without(files, key),
        _ => files,
    }
}

/// The number of bytes that `text` takes in a file.
pub open spec fn byte_length(text: Seq<char>) -> u64 {
    encode_utf8(text).len() as usize as u64
}

/// The file that a write of `value` under `key` at `now` makes; `None`
/// where the value or its record cannot be written as JSON.
pub open spec fn written(key: Seq<char>, value: JsonView, now: u64) -> Option<FileView> {
    match json_text(value) {
        Some(data) => {
            let record = RecordView { data, created_at: now };
            match encoded(record) {
                Some(text) => Some(
                    FileView {
                        name: key,
                        size: byte_length(text),
                        stored: StoredView::Record(record),
                    },
                ),
                None => None,
            }
        },
        None => None,
    }
}

/// The directory after a write of `value` under `key` at `now`: the new
/// file in place of any of its name, or everything as before where nothing
/// can be written.
pub open spec fn after_set(files: Seq<FileView>, key: Seq<char>, value: JsonView, now: u64) -> Seq<
    FileView,
> {
    match written(key, value, now) {
        Some(file) => without(files, key).push(file),
        None => files,
    }
}

/// Stores `value` under `key` with the time `now`, in place of whatever
/// was stored under `key`. Returns `false`, and changes nothing, exactly
/// where the value cannot be written.
pub fn set(dir: &mut CacheDir, key: &str, value: &Json, now: u64) -> (ok: bool)
    ensures
        ok == written(key@, value@, now).is_some(),
        final(dir)@ == after_set(old(dir)@, key@, value@, now),
        old(dir).wf() ==> final(dir).wf(),
{
    let record = match pack(value, now) {
        Ok(record) => record,
        Err(_) => {
            return false;
        },
    };
    let text = match encode(&record) {
        Some(text) => text,
        None => {
            return false;
        },
    };
    let size = text.as_str().len() as u64;
    dir.put(CacheFile { name: String::from_str(key), size, stored: Stored::Record(record) });
    true
}

/// Reads the answer stored under `key`. The failure of a read says why
/// there is no answer. A file that holds no record, or one whose record is
/// older than `ttl` at `now`, is removed; nothing else changes.
pub fn get(dir: &mut CacheDir, key: &str, now: u64, ttl: u64) -> (r: Result<Json, Error>)
    ensures
        final(dir)@ == after_get(old(dir)@, key@, now, ttl),
        match answer(old(dir)@, key@, now, ttl) {
            Ok(value) => r matches Ok(got) && got@ == value,
            Err(kind) => r matches Err(e) && kind.told_by(e, key@),
        },
        old(dir).wf() ==> final(dir).wf(),
{
    let unpacked = match dir.find(key) {
        Some(file) => unpack(key, Some(&file.stored), now, ttl),
        None => unpack(key, None, now, ttl),
    };
    match unpacked {
        Ok(record) => match Json::parse(record.data.as_str()) {
            Some(value) => Ok(value),
            None => Err(Error::DeserializeFailed(String::from_str(key))),
        },
        Err(e) => {
            match e {
                Error::DeserializeFailed(_) => dir.remove(key),
                Error::CacheExpired(_) => dir.remove(key),
                _ => {},
            }
            Err(e)
        },
    }
}

/// Removes what is stored under `key`, if anything.
pub fn remove(dir: &mut CacheDir, key: &str)
    ensures
        final(dir)@ == without(old(dir)@, key@),
        old(dir).wf() ==> final(dir).wf(),
{
    dir.remove(key)
}

/// The first file called `key` is called `key`, and where there is none,
/// no file is.
proof fn found_is_named(files: Seq<FileView>, key: Seq<char>)
    ensures
        match found(files, key) {
            Some(f) => f.name == key && files.contains(f),
            None => forall|i: int| 0 <= i < files.len() ==> (#[trigger] files[i]).name != key,
        },
    decreases files.len(),
{
    if files.len() > 0 {
        if files[0].name == key {
            assert(files.contains(files[0]));
        } else {
            let rest = files.drop_first();
            found_is_named(rest, key);
            match found(rest, key) {
                Some(f) => {
                    let i = choose|i: int| 0 <= i < rest.len() && rest[i] == f;
                    assert(files[i + 1] == f);
                },
                None => {
                    assert forall|i: int| 0 <= i < files.len() implies (#[trigger] files[i]).name
                        != key by {
                        if i > 0 {
                            assert(rest[i - 1] == files[i]);
                        }
                    }
                },
            }
        }
    }
}

/// Looking for `key` after one more file was added at the end.
proof fn found_after_push(files: Seq<FileView>, file: FileView, key: Seq<char>)
    ensures
        found(files.push(file), key) == match found(files, key) {
            Some(f) => Some(f),
            None => if file.name == key {
                Some(file)
            } else {
                None
            },
        },
    decreases files.len(),
{
    let all = files.push(file);
    if files.len() == 0 {
        assert(all.drop_first() =~= Seq::<FileView>::empty());
    } else {
        assert(all[0] == files[0]);
        if files[0].name != key {
            assert(all.drop_first() =~= files.drop_first().push(file));
            found_after_push(files.drop_first(), file, key);
        }
    }
}

/// No file that [`without`] keeps is called `key`.
proof fn without_has_none(files: Seq<FileView>, key: Seq<char>)
    ensures
        found(without(files, key), key).is_none(),
{
    let pred = |f: FileView| f.name != key;
    let kept = files.filter(pred);
    found_is_named(kept, key);
    if found(kept, key).is_some() {
        let f = found(kept, key).unwrap();
        let i = choose|i: int| 0 <= i < kept.len() && kept[i] == f;
        files.lemma_filter_pred(pred, i);
    }
}

/// A filter keeps everything of a sequence whose members all pass.
proof fn filter_keeps_all(files: Seq<FileView>, pred: spec_fn(FileView) -> bool)
    requires
        forall|i: int| 0 <= i < files.len() ==> pred(#[trigger] files[i]),
    ensures
        files.filter(pred) == files,
    decreases files.len(),
{
    reveal(Seq::filter);
    if files.len() > 0 {
        let rest = files.drop_last();
        assert forall|i: int| 0 <= i < rest.len() implies pred(#[trigger] rest[i]) by {
            assert(rest[i] == files[i]);
        }
        filter_keeps_all(rest, pred);
        assert(pred(files[files.len() - 1]));
        assert(rest.push(files.last()) =~= files);
    }
}

/// What passes a filter and what does not make up the whole.
proof fn filter_splits(files: Seq<FileView>, pred: spec_fn(FileView) -> bool)
    ensures
        files.filter(pred).len() + files.filter(|f: FileView| !pred(f)).len() == files.len(),
    decreases files.len(),
{
    reveal(Seq::filter);
    if files.len() > 0 {
        filter_splits(files.drop_last(), pred);
    }
}

/// What is read right after it was stored is what was stored: where a
/// write under `key` at `now` succeeds, a read of `key` at any `later`
/// that the record has not outlived answers with the value written, and
/// leaves the directory as the write left it. This holds of every value
/// that reads back from its own text as itself.
pub proof fn get_after_set(
    files: Seq<FileView>,
    key: Seq<char>,
    value: JsonView,
    now: u64,
    later: u64,
    ttl: u64,
)
    requires
        written(key, value, now).is_some(),
        fresh(now, ttl, later),
        json_text(value) matches Some(text) && parsed_json(text) == Some(value),
    ensures
        answer(after_set(files, key, value, now), key, later, ttl) == Ok::<JsonView, MissKind>(
            value,
        ),
        after_get(after_set(files, key, value, now), key, later, ttl) == after_set(
            files,
            key,
            value,
            now,
        ),
{
    let file = written(key, value, now).unwrap();
    without_has_none(files, key);
    found_after_push(without(files, key), file, key);
}

/// A write leaves one file of its name: whatever was stored under `key`
/// before is replaced, not kept beside the new record, and no other file
/// changes.
pub proof fn set_replaces(files: Seq<FileView>, key: Seq<char>, value: JsonView, now: u64)
    requires
        written(key, value, now).is_some(),
    ensures
        found(after_set(files, key, value, now), key) == written(key, value, now),
        after_set(files, key, value, now).filter(|f: FileView| f.name == key).len() == 1,
        without(after_set(files, key, value, now), key) == without(files, key),
{
    let file = written(key, value, now).unwrap();
    let rest = without(files, key);
    let all = rest.push(file);
    let named = |f: FileView| f.name == key;
    let other = |f: FileView| f.name != key;
    without_has_none(files, key);
    found_after_push(rest, file, key);
    found_is_named(rest, key);
    rest.lemma_filter_push(file, named);
    rest.lemma_filter_push(file, other);
    assert forall|i: int| 0 <= i < rest.len() implies !named(#[trigger] rest[i]) by {}
    rest.lemma_all_neg_filter_empty(named);
    assert forall|i: int| 0 <= i < rest.len() implies other(#[trigger] rest[i]) by {}
    filter_keeps_all(rest, other);
}

/// The time to live is a sharp bound: a record under `key` answers a read
/// at `now` exactly while `created_at + ttl > now`. One second past that
/// the read fails as expired and the file is gone afterwards.
pub proof fn expiry_boundary(
    files: Seq<FileView>,
    key: Seq<char>,
    record: RecordView,
    now: u64,
    ttl: u64,
)
    requires
        stored_of(found(files, key)) == Some(StoredView::Record(record)),
    ensures
        record.created_at + ttl > now ==> answer(files, key, now, ttl) != Err::<
            JsonView,
            MissKind,
        >(MissKind::Expired) && after_get(files, key, now, ttl) == files,
        record.created_at + ttl <= now ==> answer(files, key, now, ttl) == Err::<
            JsonView,
            MissKind,
        >(MissKind::Expired) && found(after_get(files, key, now, ttl), key).is_none(),
        record.created_at == now - ttl - 1 ==> !fresh(record.created_at, ttl, now),
        record.created_at == now - ttl + 1 ==> fresh(record.created_at, ttl, now),
{
    without_has_none(files, key);
}

/// A file that holds no record fails a read as corrupt, whatever the time,
/// and is gone afterwards.
pub proof fn corrupt_is_a_miss(files: Seq<FileView>, key: Seq<char>, now: u64, ttl: u64)
    requires
        stored_of(found(files, key)) == Some(StoredView::Garbled),
    ensures
        answer(files, key, now, ttl) == Err::<JsonView, MissKind>(MissKind::Corrupt),
        found(after_get(files, key, now, ttl), key).is_none(),
{
    without_has_none(files, key);
}

/// Purging removes exactly the files in which a read would find nothing:
/// of `n` files of which `k` are unreadable, `n - k` are left, each of
/// them listed as valid, and a second purge finds nothing to remove.
pub proof fn purge_removes_the_unreadable(files: Seq<FileView>, now: u64, ttl: u64)
    ensures
        ({
            let kept = readable_files(files, now, ttl);
            let k = files.filter(|f: FileView| !f.stored.readable(now, ttl)).len();
            &&& files.len() - kept.len() == k
            &&& listing(kept, now, ttl).len() == files.len() - k
            &&& forall|i: int|
                0 <= i < kept.len() ==> (#[trigger] listing(kept, now, ttl)[i]).valid
            &&& readable_files(kept, now, ttl) == kept
        }),
{
    let pred = |f: FileView| f.stored.readable(now, ttl);
    let kept = files.filter(pred);
    filter_splits(files, pred);
    assert((|f: FileView| !pred(f)) =~= (|f: FileView| !f.stored.readable(now, ttl)));
    assert forall|i: int| 0 <= i < kept.len() implies pred(#[trigger] kept[i]) by {
        files.lemma_filter_pred(pred, i);
    }
    filter_keeps_all(kept, pred);
}

/// Whatever passes a filter was there before.
proof fn filtered_were_there(files: Seq<FileView>, pred: spec_fn(FileView) -> bool)
    ensures
        forall|i: int|
            0 <= i < files.filter(pred).len() ==> files.contains(#[trigger] files.filter(pred)[i]),
    decreases files.len(),
{
    reveal(Seq::filter);
    if files.len() > 0 {
        let rest = files.drop_last();
        filtered_were_there(rest, pred);
        assert forall|i: int| 0 <= i < files.filter(pred).len() implies files.contains(
            #[trigger] files.filter(pred)[i],
        ) by {
            if i < rest.filter(pred).len() {
                let f = rest.filter(pred)[i];
                assert(rest.contains(f));
                let j = choose|j: int| 0 <= j < rest.len() && rest[j] == f;
                assert(files[j] == f);
            } else {
                assert(files[files.len() - 1] == files.filter(pred)[i]);
            }
        }
    }
}

/// A filter keeps the names distinct.
proof fn filter_keeps_distinct(files: Seq<FileView>, pred: spec_fn(FileView) -> bool)
    requires
        distinct_names(files),
    ensures
        distinct_names(files.filter(pred)),
    decreases files.len(),
{
    reveal(Seq::filter);
    if files.len() > 0 {
        let rest = files.drop_last();
        let kept = rest.filter(pred);
        assert forall|i: int, j: int| 0 <= i < j < rest.len() implies (#[trigger] rest[i]).name != (
        #[trigger] rest[j]).name by {
            assert(rest[i] == files[i] && rest[j] == files[j]);
        }
        filter_keeps_distinct(rest, pred);
        filtered_were_there(rest, pred);
        if pred(files.last()) {
            let all = kept.push(files.last());
            assert forall|i: int, j: int| 0 <= i < j < all.len() implies (#[trigger] all[i]).name
                != (#[trigger] all[j]).name by {
                if j < kept.len() {
                    assert(all[i] == kept[i] && all[j] == kept[j]);
                } else {
                    assert(rest.contains(kept[i]));
                    let k = choose|k: int| 0 <= k < rest.len() && rest[k] == kept[i];
                    assert(files[k] == kept[i]);
                    assert(files[files.len() - 1] == all[j]);
                }
            }
        }
    }
}

/// A file put in place of those of its name leaves the names distinct.
proof fn pushed_stays_distinct(files: Seq<FileView>, file: FileView)
    requires
        distinct_names(files),
    ensures
        distinct_names(without(files, file.name).push(file)),
{
    let other = |f: FileView| f.name != file.name;
    filter_keeps_distinct(files, other);
    let rest = without(files, file.name);
    let all = rest.push(file);
    assert forall|i: int, j: int| 0 <= i < j < all.len() implies (#[trigger] all[i]).name != (
    #[trigger] all[j]).name by {
        if j < rest.len() {
            assert(all[i] == rest[i] && all[j] == rest[j]);
        } else {
            files.lemma_filter_pred(other, i);
        }
    }
}

/// A directory never comes to hold two files of one name: whatever is
/// read, written, removed or purged, names that were distinct stay so.
pub proof fn names_stay_distinct(
    files: Seq<FileView>,
    key: Seq<char>,
    value: JsonView,
    now: u64,
    ttl: u64,
)
    requires
        distinct_names(files),
    ensures
        distinct_names(without(files, key)),
        distinct_names(readable_files(files, now, ttl)),
        distinct_names(after_get(files, key, now, ttl)),
        distinct_names(after_set(files, key, value, now)),
{
    filter_keeps_distinct(files, |f: FileView| f.name != key);
    filter_keeps_distinct(files, |f: FileView| f.stored.readable(now, ttl));
    match written(key, value, now) {
        Some(file) => {
            pushed_stays_distinct(files, file);
        },
        None => {},
    }
}

} // verus!
