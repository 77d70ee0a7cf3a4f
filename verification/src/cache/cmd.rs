//! The commands that look after the cache, as what they change in the
//! directory and what they tell the user.

use super::util::{is_fresh, unpack, unpacked};
use super::{filter_step, readable_files, unreadable_files, CacheDir, FileView, Stored};
use crate::json::{parsed_json, Json};
use crate::text::{begins_with, line, push_line, starts_with};
use crate::translators::file_names::{provider_in, provider_of};
use crate::text::{decimal, padded_left, padded_right, pad_left, pad_right, push_decimal, views};
use crate::utils::file::{fmt_size, size_text, unit_index, unit_name};
use vstd::prelude::*;
use vstd::string::*;

verus! {

/// The sizes of `files` added up.
pub open spec fn total_size(files: Seq<FileView>) -> nat
    decreases files.len(),
{
    if files.len() == 0 {
        0
    } else {
        total_size(files.drop_last()) + files.last().size as nat
    }
}

/// `n`, or the largest size that can be written where `n` is larger.
pub open spec fn capped(n: nat) -> nat {
    if n > u64::MAX {
        u64::MAX as nat
    } else {
        n
    }
}

/// How many characters the longest size of `files` takes.
pub open spec fn widest(files: Seq<FileView>) -> nat
    decreases files.len(),
{
    if files.len() == 0 {
        0
    } else {
        let before = widest(files.drop_last());
        let last = size_text(files.last().size as nat).len();
        if last > before {
            last
        } else {
            before
        }
    }
}

/// The sign that a file is listed with: a tick where a read finds an
/// answer in it, a cross where not.
pub open spec fn mark(valid: bool) -> Seq<char> {
    if valid {
        seq!['✔']
    } else {
        seq!['✘']
    }
}

/// The line that lists `f`: the sign, the size filled up to `width`, the
/// unit on two places, the name.
pub open spec fn list_line(f: FileView, width: nat, now: u64, ttl: u64) -> Seq<char> {
    mark(f.stored.readable(now, ttl)) + seq![' '] + padded_right(size_text(f.size as nat), width)
        + padded_left(unit_name(unit_index(f.size as nat)), 2) + seq![' '] + f.name
}

/// The line that sums a listing up.
pub open spec fn list_summary(files: Seq<FileView>, now: u64, ttl: u64) -> Seq<char> {
    let total = capped(total_size(files));
    decimal(readable_files(files, now, ttl).len()) + "/"@ + decimal(files.len())
        + " valid file(s), "@ + size_text(total) + " "@ + unit_name(unit_index(total))
        + " in total."@
}

/// What listing `files` prints: a line for each file, then the sum.
pub open spec fn list_lines(files: Seq<FileView>, now: u64, ttl: u64) -> Seq<Seq<char>> {
    Seq::new(files.len(), |i: int| list_line(files[i], widest(files), now, ttl)).push(
        list_summary(files, now, ttl),
    )
}

/// The line that reports a removal: how many of the files seen were
/// removed, and how many bytes they held.
pub open spec fn removal_line(removed: nat, seen: nat, bytes: nat) -> Seq<char> {
    "Removed "@ + decimal(removed) + "/"@ + decimal(seen) + " file(s), "@ + size_text(bytes) + " "@
        + unit_name(unit_index(bytes)) + ", file(s) in total."@
}

/// The sizes of the files of `dir` added up, stopping at the largest size
/// that can be written.
pub fn total(dir: &CacheDir) -> (sum: u64)
    ensures
        sum == capped(total_size(dir@)),
{
    let mut sum: u64 = 0;
    let mut i: usize = 0;
    while i < dir.len()
        invariant
            i <= dir@.len(),
            sum == capped(total_size(dir@.take(i as int))),
        decreases dir@.len() - i,
    {
        assert(dir@.take(i + 1).drop_last() =~= dir@.take(i as int));
        let size = dir.file(i).size;
        sum = match sum.checked_add(size) {
            Some(s) => s,
            None => u64::MAX,
        };
        i += 1;
    }
    assert(dir@.take(i as int) =~= dir@);
    sum
}

fn widest_size(dir: &CacheDir) -> (width: usize)
    ensures
        width == widest(dir@),
{
    let mut width: usize = 0;
    let mut i: usize = 0;
    while i < dir.len()
        invariant
            i <= dir@.len(),
            width == widest(dir@.take(i as int)),
        decreases dir@.len() - i,
    {
        assert(dir@.take(i + 1).drop_last() =~= dir@.take(i as int));
        let (text, _) = fmt_size(dir.file(i).size);
        let n = text.as_str().unicode_len();
        if n > width {
            width = n;
        }
        i += 1;
    }
    assert(dir@.take(i as int) =~= dir@);
    width
}

fn is_readable(stored: &Stored, now: u64, ttl: u64) -> (r: bool)
    ensures
        r == stored@.readable(now, ttl),
{
    match stored {
        Stored::Record(record) => is_fresh(record.created_at, ttl, now),
        _ => false,
    }
}

fn count_readable(dir: &CacheDir, now: u64, ttl: u64) -> (count: usize)
    ensures
        count == readable_files(dir@, now, ttl).len(),
{
    let ghost pred = |f: FileView| f.stored.readable(now, ttl);
    let mut count: usize = 0;
    let mut i: usize = 0;
    assert(dir@.take(0).filter(pred).len() == 0) by {
        reveal(Seq::filter);
    }
    while i < dir.len()
        invariant
            i <= dir@.len(),
            count <= i,
            pred == (|f: FileView| f.stored.readable(now, ttl)),
            count == dir@.take(i as int).filter(pred).len(),
        decreases dir@.len() - i,
    {
        proof {
            filter_step(dir@, i as int, pred);
        }
        if is_readable(&dir.file(i).stored, now, ttl) {
            count += 1;
        }
        i += 1;
    }
    assert(dir@.take(i as int) =~= dir@);
    count
}

/// Lists the cache: a line for each file with a sign for whether it can
/// still be read, its size and its name, then how many can be read and
/// how large all of them are together. Nothing is removed.
pub fn list(dir: &CacheDir, now: u64, ttl: u64) -> (lines: Vec<String>)
    ensures
        views(lines@) == list_lines(dir@, now, ttl),
{
    proof {
        reveal_strlit("✔");
        reveal_strlit("✘");
        reveal_strlit(" ");
    }
    assert("✔"@ =~= seq!['✔']);
    assert("✘"@ =~= seq!['✘']);
    assert(" "@ =~= seq![' ']);
    let width = widest_size(dir);
    let mut lines: Vec<String> = Vec::new();
    let mut i: usize = 0;
    while i < dir.len()
        invariant
            i <= dir@.len(),
            width == widest(dir@),
            "✔"@ == seq!['✔'],
            "✘"@ == seq!['✘'],
            " "@ == seq![' '],
            views(lines@) == Seq::new(
                i as nat,
                |j: int| list_line(dir@[j], widest(dir@), now, ttl),
            ),
        decreases dir@.len() - i,
    {
        let file = dir.file(i);
        let (size, unit) = fmt_size(file.size);
        let mut line = if is_readable(&file.stored, now, ttl) {
            String::from_str("✔")
        } else {
            String::from_str("✘")
        };
        line.append(" ");
        line.append(pad_right(size.as_str(), width).as_str());
        line.append(pad_left(unit.as_str(), 2).as_str());
        line.append(" ");
        line.append(file.name.as_str());
        assert(line@ =~= list_line(dir@[i as int], widest(dir@), now, ttl));
        let ghost before = views(lines@);
        lines.push(line);
        assert(views(lines@) =~= before.push(line@));
        assert(views(lines@) =~= Seq::new(
            (i + 1) as nat,
            |j: int| list_line(dir@[j], widest(dir@), now, ttl),
        ));
        i += 1;
    }
    let valid = count_readable(dir, now, ttl);
    let sum = total(dir);
    let (size, unit) = fmt_size(sum);
    let mut line = String::new();
    push_decimal(&mut line, valid as u128);
    line.append("/");
    push_decimal(&mut line, dir.len() as u128);
    line.append(" valid file(s), ");
    line.append(size.as_str());
    line.append(" ");
    line.append(unit.as_str());
    line.append(" in total.");
    assert(line@ =~= list_summary(dir@, now, ttl));
    let ghost before = views(lines@);
    lines.push(line);
    assert(views(lines@) =~= before.push(line@));
    lines
}

/// How many of `files` went, where `went` tells of each in turn whether it
/// did. A file that `went` does not tell of stayed.
pub open spec fn gone_count(files: Seq<FileView>, went: Seq<bool>) -> nat
    decreases files.len(),
{
    if files.len() == 0 {
        0
    } else {
        let i = files.len() - 1;
        gone_count(files.drop_last(), went) + if i < went.len() && went[i] {
            1nat
        } else {
            0nat
        }
    }
}

/// How many bytes the files of `files` held that went.
pub open spec fn gone_bytes(files: Seq<FileView>, went: Seq<bool>) -> nat
    decreases files.len(),
{
    if files.len() == 0 {
        0
    } else {
        let i = files.len() - 1;
        gone_bytes(files.drop_last(), went) + if i < went.len() && went[i] {
            files[i].size as nat
        } else {
            0nat
        }
    }
}

/// Where every file went, all of them are counted and all their bytes.
pub proof fn all_gone(files: Seq<FileView>, went: Seq<bool>)
    requires
        went.len() >= files.len(),
        forall|i: int| 0 <= i < files.len() ==> went[i],
    ensures
        gone_count(files, went) == files.len(),
        gone_bytes(files, went) == total_size(files),
    decreases files.len(),
{
    if files.len() > 0 {
        all_gone(files.drop_last(), went);
    }
}

/// Reports a removal as it turned out: of `seen` files those of `doomed`
/// were to go, and `went` tells of each of them whether it did.
pub fn removal_summary(seen: usize, doomed: &CacheDir, went: &Vec<bool>) -> (line: String)
    ensures
        line@ == removal_line(
            gone_count(doomed@, went@),
            seen as nat,
            capped(gone_bytes(doomed@, went@)),
        ),
{
    let mut removed: usize = 0;
    let mut bytes: u64 = 0;
    let mut i: usize = 0;
    while i < doomed.len()
        invariant
            i <= doomed@.len(),
            removed <= i,
            removed == gone_count(doomed@.take(i as int), went@),
            bytes == capped(gone_bytes(doomed@.take(i as int), went@)),
        decreases doomed@.len() - i,
    {
        assert(doomed@.take(i + 1).drop_last() =~= doomed@.take(i as int));
        if i < went.len() && went[i] {
            removed += 1;
            bytes = match bytes.checked_add(doomed.file(i).size) {
                Some(sum) => sum,
                None => u64::MAX,
            };
        }
        i += 1;
    }
    assert(doomed@.take(i as int) =~= doomed@);
    removal_report(removed, seen, bytes)
}

/// The report of a removal.
pub fn removal_report(removed: usize, seen: usize, bytes: u64) -> (line: String)
    ensures
        line@ == removal_line(removed as nat, seen as nat, bytes as nat),
{
    let (size, unit) = fmt_size(bytes);
    let mut line = String::from_str("Removed ");
    push_decimal(&mut line, removed as u128);
    line.append("/");
    push_decimal(&mut line, seen as u128);
    line.append(" file(s), ");
    line.append(size.as_str());
    line.append(" ");
    line.append(unit.as_str());
    line.append(", file(s) in total.");
    assert(line@ =~= removal_line(removed as nat, seen as nat, bytes as nat));
    line
}

/// Removes every file of the cache, and reports how many there were and
/// how many bytes they held.
pub fn clean(dir: &mut CacheDir) -> (line: String)
    ensures
        final(dir)@ == Seq::<FileView>::empty(),
        line@ == removal_line(
            old(dir)@.len(),
            old(dir)@.len(),
            capped(total_size(old(dir)@)),
        ),
{
    let bytes = total(dir);
    let seen = dir.len();
    let removed = dir.clean_all();
    removal_report(removed, seen, bytes)
}

/// The bytes that purging `files` frees: what the files hold in which a
/// read finds no answer.
pub open spec fn freed(files: Seq<FileView>, now: u64, ttl: u64) -> nat {
    total_size(unreadable_files(files, now, ttl))
}

fn unreadable_total(dir: &CacheDir, now: u64, ttl: u64) -> (sum: u64)
    ensures
        sum == capped(freed(dir@, now, ttl)),
{
    let ghost pred = |f: FileView| !f.stored.readable(now, ttl);
    let mut sum: u64 = 0;
    let mut i: usize = 0;
    assert(dir@.take(0).filter(pred).len() == 0) by {
        reveal(Seq::filter);
    }
    while i < dir.len()
        invariant
            i <= dir@.len(),
            pred == (|f: FileView| !f.stored.readable(now, ttl)),
            sum == capped(total_size(dir@.take(i as int).filter(pred))),
        decreases dir@.len() - i,
    {
        proof {
            filter_step(dir@, i as int, pred);
            let kept = dir@.take(i as int).filter(pred);
            assert(kept.push(dir@[i as int]).drop_last() =~= kept);
        }
        let file = dir.file(i);
        if !is_readable(&file.stored, now, ttl) {
            sum = match sum.checked_add(file.size) {
                Some(s) => s,
                None => u64::MAX,
            };
        }
        i += 1;
    }
    assert(dir@.take(i as int) =~= dir@);
    sum
}

/// Removes the files in which a read at `now` would find no answer, and
/// reports how many of the files they were and how many bytes they held.
pub fn purge(dir: &mut CacheDir, now: u64, ttl: u64) -> (line: String)
    ensures
        final(dir)@ == readable_files(old(dir)@, now, ttl),
        line@ == removal_line(
            (old(dir)@.len() - final(dir)@.len()) as nat,
            old(dir)@.len(),
            capped(freed(old(dir)@, now, ttl)),
        ),
{
    let bytes = unreadable_total(dir, now, ttl);
    let seen = dir.len();
    let removed = dir.purge_expired(now, ttl);
    removal_report(removed, seen, bytes)
}

/// What viewing one file writes: the answer in it as its provider shows
/// it, or a line that says why there is none to show.
pub open spec fn file_viewed(f: FileView, now: u64, ttl: u64) -> Seq<char> {
    match unpacked(Some(f.stored), now, ttl) {
        Ok(record) => match (parsed_json(record.data), provider_in(f.name)) {
            (Some(value), Some(provider)) => provider.shown(value, true),
            _ => line("Deserialize value failed"@),
        },
        Err(_) => line("Deserialize file failed"@),
    }
}

/// What viewing the files whose names begin with `hash` writes.
pub open spec fn viewed(files: Seq<FileView>, hash: Seq<char>, now: u64, ttl: u64) -> Seq<char>
    decreases files.len(),
{
    if files.len() == 0 {
        Seq::empty()
    } else {
        viewed(files.drop_last(), hash, now, ttl) + (if begins_with(files.last().name, hash) {
            file_viewed(files.last(), now, ttl)
        } else {
            Seq::empty()
        })
    }
}

/// Shows the answers in the files whose names begin with `hash`, each as
/// its provider shows it. Nothing is removed.
pub fn view(dir: &CacheDir, hash: &str, now: u64, ttl: u64) -> (out: String)
    ensures
        out@ == viewed(dir@, hash@, now, ttl),
{
    let mut out = String::new();
    let mut i: usize = 0;
    while i < dir.len()
        invariant
            i <= dir@.len(),
            out@ == viewed(dir@.take(i as int), hash@, now, ttl),
        decreases dir@.len() - i,
    {
        assert(dir@.take(i + 1).drop_last() =~= dir@.take(i as int));
        assert(dir@.take(i + 1).last() == dir@[i as int]);
        let ghost before = out@;
        let file = dir.file(i);
        if starts_with(file.name.as_str(), hash) {
            match unpack(file.name.as_str(), Some(&file.stored), now, ttl) {
                Ok(record) => {
                    match (Json::parse(record.data.as_str()), provider_of(file.name.as_str())) {
                        (Some(value), Some(provider)) => {
                            out.append(provider.show(&value, true).as_str());
                        },
                        _ => {
                            push_line(&mut out, "Deserialize value failed");
                        },
                    }
                },
                Err(_) => {
                    push_line(&mut out, "Deserialize file failed");
                },
            }
            assert(out@ =~= before + file_viewed(dir@[i as int], now, ttl));
        } else {
            assert(out@ =~= before + Seq::<char>::empty());
        }
        i += 1;
    }
    assert(dir@.take(i as int) =~= dir@);
    out
}

} // verus!
