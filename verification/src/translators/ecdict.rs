//! The local dictionary: a table of English words with their Chinese
//! translations. Looking a word up costs no network round trip, so its
//! answers are never cached.

use super::{Context, ContextView, Lang, Request, RequestView, Translator};
use crate::json::{Json, JsonView};
use crate::text::{chars_of, line, line_if, push_char, push_line, replace, replaced};
use crate::utils::dyer::{dyed, Colors, Dye};
use vstd::prelude::*;
use vstd::string::*;

verus! {

#[derive(Clone, Copy, Debug)]
pub struct Ecdict;

/// How many words of the word list are stored in one transaction.
pub const BATCH: usize = 1000;

/// Whether the words gathered are to be stored before another is read:
/// they are as soon as there are [`BATCH`] of them.
pub fn batch_is_full(gathered: usize) -> (full: bool)
    ensures
        full == (gathered >= BATCH),
{
    gathered >= BATCH
}

/// What stands before the first space of `words`: the word looked up.
pub open spec fn first_word(words: Seq<char>) -> Seq<char>
    decreases words.len(),
{
    if words.len() == 0 || words[0] == ' ' {
        Seq::empty()
    } else {
        seq![words[0]] + first_word(words.drop_first())
    }
}

/// The line of the field `key` in colour, with every `from` in it
/// replaced by `to`; nothing where the field is missing or no string.
pub open spec fn field_line(
    response: JsonView,
    key: Seq<char>,
    from: Seq<char>,
    to: Seq<char>,
    color: Colors,
) -> Seq<char> {
    match response.text_at(key) {
        Some(s) => line(dyed(replaced(s, from, to), color)),
        None => Seq::empty(),
    }
}

/// What shows an entry of the dictionary: the word, its inflections, its
/// pronunciation, its definition and its translation, each on a line of
/// its own colour where the entry has it.
pub open spec fn entry_shown(response: JsonView) -> Seq<char> {
    line_if(response.text_at("word"@)) + field_line(
        response,
        "exchange"@,
        "/"@,
        ", "@,
        Colors::BrightCyan,
    ) + field_line(response, "phonetic"@, ""@, ""@, Colors::BrightYellow)
        + field_line(response, "definition"@, "\\n"@, "\n"@, Colors::BrightGreen) + field_line(
        response,
        "translation"@,
        "\\n"@,
        "\n"@,
        Colors::Blue,
    )
}

fn push_field(out: &mut String, response: &Json, key: &str, from: &str, to: &str, color: Colors)
    ensures
        final(out)@ == old(out)@ + field_line(response@, key@, from@, to@, color),
{
    match response.text_at(key) {
        Some(s) => {
            push_line(out, replace(s, from, to).dye(color).as_str());
        },
        None => {
            assert(out@ =~= old(out)@ + field_line(response@, key@, from@, to@, color));
        },
    }
}

impl Translator for Ecdict {
    open spec fn request(
        &self,
        words: Seq<char>,
        source: Lang,
        target: Lang,
        context: ContextView,
    ) -> RequestView {
        RequestView::Lookup { word: first_word(words) }
    }

    open spec fn received(&self, raw: JsonView) -> JsonView {
        raw
    }

    open spec fn shown(&self, response: JsonView, more: bool) -> Seq<char> {
        entry_shown(response)
    }

    open spec fn opts_out(&self) -> bool {
        true
    }

    fn translate(&self, words: &str, source: &Lang, target: &Lang, context: &Context) -> (r:
        Request) {
        let v = chars_of(words);
        let mut word = String::new();
        let mut i: usize = 0;
        assert(v@.skip(0) =~= v@);
        while i < v.len() && v[i] != ' '
            invariant
                i <= v.len(),
                v@ == words@,
                word@ + first_word(v@.skip(i as int)) == first_word(words@),
            decreases v.len() - i,
        {
            let ghost before = word@;
            push_char(&mut word, v[i]);
            assert(v@.skip(i as int).drop_first() =~= v@.skip(i + 1));
            assert(word@ + first_word(v@.skip(i + 1)) =~= before + first_word(v@.skip(i as int)));
            i += 1;
        }
        assert(word@ =~= first_word(words@));
        Request::Lookup { word }
    }

    fn receive(&self, raw: Json) -> (response: Json) {
        raw
    }

    fn show(&self, response: &Json, more: bool) -> (out: String) {
        let mut out = String::new();
        match response.text_at("word") {
            Some(s) => {
                push_line(&mut out, s);
            },
            None => {},
        }
        assert(out@ =~= line_if(response@.text_at("word"@)));
        push_field(&mut out, response, "exchange", "/", ", ", Colors::BrightCyan);
        push_field(&mut out, response, "phonetic", "", "", Colors::BrightYellow);
        push_field(&mut out, response, "definition", "\\n", "\n", Colors::BrightGreen);
        push_field(&mut out, response, "translation", "\\n", "\n", Colors::Blue);
        assert(out@ =~= entry_shown(response@));
        out
    }

    fn forces_no_cache(&self) -> (b: bool) {
        true
    }
}

} // verus!
