//! What to make of the settings found in the environment. Reading and
//! changing the environment is the caller's part.

use crate::errors::Error;
use crate::text::{trim, trimmed};
use vstd::prelude::*;
use vstd::string::*;

verus! {

/// The value found for `key`, or the failure that names `key`.
pub fn load(key: &str, found: Option<String>) -> (r: Result<String, Error>)
    ensures
        match found {
            Some(v) => r matches Ok(s) && s@ == v@,
            None => r matches Err(e) && e is EnvNotExist && e.detail() == key@,
        },
{
    match found {
        Some(v) => Ok(v),
        None => Err(Error::EnvNotExist(String::from_str(key))),
    }
}

/// The value found, where one was found and is not empty.
pub fn load_or_panic(found: Option<String>) -> (s: String)
    requires
        found matches Some(v) && v@.len() > 0,
    ensures
        found matches Some(v) && s@ == v@,
{
    found.unwrap()
}

/// The setting that counts: the value found unless none was found or it
/// is empty, and `default` then.
pub open spec fn setting(found: Option<Seq<char>>, default: Seq<char>) -> Seq<char> {
    match found {
        Some(v) => if v.len() == 0 {
            default
        } else {
            v
        },
        None => default,
    }
}

/// The views of an optional text.
pub open spec fn opt_view(found: Option<String>) -> Option<Seq<char>> {
    match found {
        Some(v) => Some(v@),
        None => None,
    }
}

pub fn load_or_default(found: Option<String>, default: &str) -> (s: String)
    ensures
        s@ == setting(opt_view(found), default@),
{
    match found {
        Some(v) => {
            if v.as_str().unicode_len() == 0 {
                String::from_str(default)
            } else {
                v
            }
        },
        None => String::from_str(default),
    }
}

/// The place of the first candidate that exists.
pub open spec fn first_existing(exists: Seq<bool>) -> Option<int>
    decreases exists.len(),
{
    if exists.len() == 0 {
        None
    } else if exists[0] {
        Some(0int)
    } else {
        match first_existing(exists.drop_first()) {
            Some(i) => Some(i + 1),
            None => None,
        }
    }
}

/// Which of the candidate files to load the settings from: the first
/// that exists. Without one the failure names the file.
pub fn load_env_file(file_name: &str, exists: &Vec<bool>) -> (r: Result<usize, Error>)
    ensures
        match first_existing(exists@) {
            Some(i) => r == Ok::<usize, Error>(i as usize) && 0 <= i < exists@.len(),
            None => r matches Err(e) && e is EnvNotExist && e.detail() == file_name@,
        },
{
    let mut i: usize = 0;
    assert(exists@.skip(0) =~= exists@);
    while i < exists.len()
        invariant
            i <= exists.len(),
            first_existing(exists@) == match first_existing(exists@.skip(i as int)) {
                Some(j) => Some(j + i),
                None => None,
            },
        decreases exists.len() - i,
    {
        assert(exists@.skip(i as int)[0] == exists@[i as int]);
        if exists[i] {
            return Ok(i);
        }
        assert(exists@.skip(i as int).drop_first() =~= exists@.skip(i + 1));
        i += 1;
    }
    Err(Error::EnvNotExist(String::from_str(file_name)))
}

/// Whether a value holds nothing but white space.
pub open spec fn blank(value: Seq<char>) -> bool {
    trimmed(value).len() == 0
}

/// Whether a setting is to be cleared from the environment: it is set, and
/// blank.
pub fn clear_empty_env(found: &Option<String>) -> (clear: bool)
    ensures
        clear == (found matches Some(v) && blank(v@)),
{
    match found {
        Some(v) => trim(v.as_str()).as_str().unicode_len() == 0,
        None => false,
    }
}

} // verus!
