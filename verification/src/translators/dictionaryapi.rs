//! The free dictionary service: definitions of a word in its own language.

use super::{Context, ContextView, Lang, Method, Request, RequestView, Translator};
use crate::json::{each_at, each_step, json_views, strings_in, texts, view_of_parts, Json, JsonView};
use crate::text::{
    decimal, join, joined, line, push_decimal, push_line, replace, replaced, trim, trimmed,
};
use crate::utils::dyer::{dyed, Colors, Dye};
use vstd::prelude::*;
use vstd::string::*;

verus! {

/// Where the service is asked.
pub const DICTAPI_URL: &'static str = "https://api.dictionaryapi.dev/api/v2/entries";

#[derive(Clone, Copy, Debug)]
pub struct DictionaryApi;

/// What the service calls a language. A language that it does not know
/// is asked for as English.
pub open spec fn language_code(lang: Lang) -> Seq<char> {
    match lang {
        Lang::En => "en"@,
        Lang::Es => "es"@,
        Lang::Fr => "fr"@,
        Lang::De => "de"@,
        Lang::It => "it"@,
        Lang::Pt => "pt-BR"@,
        Lang::Ru => "ru"@,
        Lang::Ja => "ja"@,
        Lang::Ko => "ko"@,
        Lang::Ar => "ar"@,
        Lang::Zh | Lang::Zht | Lang::Yue | Lang::Auto | Lang::El | Lang::La => "en"@,
    }
}

pub fn match_lang(lang: &Lang) -> (code: &'static str)
    ensures
        code@ == language_code(*lang),
{
    match lang {
        Lang::En => "en",
        Lang::Es => "es",
        Lang::Fr => "fr",
        Lang::De => "de",
        Lang::It => "it",
        Lang::Pt => "pt-BR",
        Lang::Ru => "ru",
        Lang::Ja => "ja",
        Lang::Ko => "ko",
        Lang::Ar => "ar",
        Lang::Zh | Lang::Zht | Lang::Yue | Lang::Auto | Lang::El | Lang::La => "en",
    }
}

/// The address that is asked for `words`: the service's address, the
/// language, and the words without surrounding white space, each space
/// among them written as `%20`.
pub open spec fn address(words: Seq<char>, source: Lang) -> Seq<char> {
    DICTAPI_URL@ + "/"@ + language_code(source) + "/"@ + replaced(trimmed(words), " "@, "%20"@)
}

/// The answer as it is kept: what the service sent, under `entries`.
pub open spec fn wrapped(raw: JsonView) -> JsonView {
    JsonView::Object(seq![("entries"@, raw)])
}

/// What shows one definition: the definition with its number, an example,
/// and the synonyms where there are any.
pub open spec fn definition_shown(i: int, def: JsonView) -> Seq<char> {
    (match def.text_at("definition"@) {
        Some(text) => line(decimal((i + 1) as nat) + ". "@ + dyed(text, Colors::Cyan)),
        None => Seq::empty(),
    }) + (match def.text_at("example"@) {
        Some(example) => line("   "@ + dyed(example, Colors::BrightBlack)),
        None => Seq::empty(),
    }) + (match def.items_at("synonyms"@) {
        Some(items) => if texts(items).len() > 0 {
            line("   "@ + dyed("synonyms: "@ + joined(texts(items), ", "@), Colors::Green))
        } else {
            Seq::empty()
        },
        None => Seq::empty(),
    })
}

/// What shows one meaning: the part of speech, then its definitions.
pub open spec fn meaning_shown(meaning: JsonView) -> Seq<char> {
    (match meaning.text_at("partOfSpeech"@) {
        Some(pos) => line(dyed(pos, Colors::Blue)),
        None => Seq::empty(),
    }) + (match meaning.items_at("definitions"@) {
        Some(defs) => each_at(defs, |i: int, def: JsonView| definition_shown(i, def)),
        None => Seq::empty(),
    })
}

/// The pronunciations of an entry, each followed by a space.
pub open spec fn phonetics_text(phonetics: Seq<JsonView>) -> Seq<char> {
    each_at(
        phonetics,
        |i: int, p: JsonView|
            match p.text_at("text"@) {
                Some(text) => text + " "@,
                None => Seq::empty(),
            },
    )
}

/// The line of the pronunciations, where there are any.
pub open spec fn phonetics_shown(entry: JsonView) -> Seq<char> {
    match entry.items_at("phonetics"@) {
        Some(phonetics) => if phonetics_text(phonetics).len() > 0 {
            line(dyed(trimmed(phonetics_text(phonetics)), Colors::BrightYellow))
        } else {
            Seq::empty()
        },
        None => Seq::empty(),
    }
}

/// What shows one entry: the word, its pronunciations, its meanings, and
/// an empty line. Nothing for an entry that is no object.
pub open spec fn entry_shown(entry: JsonView) -> Seq<char> {
    if entry is Object {
        (match entry.text_at("word"@) {
            Some(word) => line(dyed(word, Colors::BrightWhite)),
            None => Seq::empty(),
        }) + phonetics_shown(entry) + (match entry.items_at("meanings"@) {
            Some(meanings) => each_at(meanings, |i: int, m: JsonView| meaning_shown(m)),
            None => Seq::empty(),
        }) + line(Seq::empty())
    } else {
        Seq::empty()
    }
}

/// What shows an answer: each of its entries.
pub open spec fn answer_shown(response: JsonView) -> Seq<char> {
    match response.items_at("entries"@) {
        Some(entries) => each_at(entries, |i: int, entry: JsonView| entry_shown(entry)),
        None => Seq::empty(),
    }
}

fn show_definition(out: &mut String, i: usize, def: &Json)
    ensures
        final(out)@ == old(out)@ + definition_shown(i as int, def@),
{
    match def.text_at("definition") {
        Some(text) => {
            let mut numbered = String::new();
            push_decimal(&mut numbered, i as u128 + 1);
            numbered.append(". ");
            numbered.append(text.dye(Colors::Cyan).as_str());
            push_line(out, numbered.as_str());
        },
        None => {},
    }
    match def.text_at("example") {
        Some(example) => {
            let mut indented = String::from_str("   ");
            indented.append(example.dye(Colors::BrightBlack).as_str());
            push_line(out, indented.as_str());
        },
        None => {},
    }
    match def.items_at("synonyms") {
        Some(items) => {
            let synonyms = strings_in(items);
            if synonyms.len() > 0 {
                let mut listed = String::from_str("synonyms: ");
                listed.append(join(&synonyms, ", ").as_str());
                let mut indented = String::from_str("   ");
                indented.append(listed.dye(Colors::Green).as_str());
                push_line(out, indented.as_str());
            }
        },
        None => {},
    }
    assert(out@ =~= old(out)@ + definition_shown(i as int, def@));
}

fn show_meaning(out: &mut String, meaning: &Json)
    ensures
        final(out)@ == old(out)@ + meaning_shown(meaning@),
{
    match meaning.text_at("partOfSpeech") {
        Some(pos) => {
            push_line(out, pos.dye(Colors::Blue).as_str());
        },
        None => {},
    }
    let ghost head = out@;
    match meaning.items_at("definitions") {
        Some(defs) => {
            let ghost all = json_views(defs@);
            let ghost f = |i: int, def: JsonView| definition_shown(i, def);
            let mut i: usize = 0;
            proof {
                if defs.len() > 0 {
                    each_step(all, 0, f);
                }
                assert(all.take(0) =~= Seq::<JsonView>::empty());
            }
            assert(out@ =~= head + each_at(all.take(0), f));
            while i < defs.len()
                invariant
                    i <= defs.len(),
                    all == json_views(defs@),
                    f == (|i: int, def: JsonView| definition_shown(i, def)),
                    out@ == head + each_at(all.take(i as int), f),
                decreases defs.len() - i,
            {
                proof {
                    each_step(all, i as int, f);
                }
                show_definition(out, i, &defs[i]);
                assert(out@ =~= head + each_at(all.take(i + 1), f));
                i += 1;
            }
            assert(all.take(i as int) =~= all);
        },
        None => {},
    }
    assert(out@ =~= old(out)@ + meaning_shown(meaning@));
}

fn show_phonetics(out: &mut String, entry: &Json)
    ensures
        final(out)@ == old(out)@ + phonetics_shown(entry@),
{
    match entry.items_at("phonetics") {
        Some(phonetics) => {
            let ghost all = json_views(phonetics@);
            let ghost f = |i: int, p: JsonView|
                match p.text_at("text"@) {
                    Some(text) => text + " "@,
                    None => Seq::empty(),
                };
            let mut text = String::new();
            let mut i: usize = 0;
            proof {
                if phonetics.len() > 0 {
                    each_step(all, 0, f);
                }
                assert(all.take(0) =~= Seq::<JsonView>::empty());
            }
            assert(text@ =~= each_at(all.take(0), f));
            while i < phonetics.len()
                invariant
                    i <= phonetics.len(),
                    all == json_views(phonetics@),
                    f == (|i: int, p: JsonView|
                        match p.text_at("text"@) {
                            Some(text) => text + " "@,
                            None => Seq::empty(),
                        }),
                    text@ == each_at(all.take(i as int), f),
                decreases phonetics.len() - i,
            {
                proof {
                    each_step(all, i as int, f);
                }
                let ghost before = text@;
                match phonetics[i].text_at("text") {
                    Some(t) => {
                        text.append(t);
                        text.append(" ");
                    },
                    None => {},
                }
                assert(text@ =~= before + f(i as int, all[i as int]));
                i += 1;
            }
            assert(all.take(i as int) =~= all);
            if text.as_str().unicode_len() > 0 {
                push_line(out, trim(text.as_str()).dye(Colors::BrightYellow).as_str());
            }
        },
        None => {},
    }
    assert(out@ =~= old(out)@ + phonetics_shown(entry@));
}

fn show_entry(out: &mut String, entry: &Json)
    ensures
        final(out)@ == old(out)@ + entry_shown(entry@),
{
    match entry {
        Json::Object(_) => {},
        _ => {
            assert(out@ =~= old(out)@ + entry_shown(entry@));
            return ;
        },
    }
    match entry.text_at("word") {
        Some(word) => {
            push_line(out, word.dye(Colors::BrightWhite).as_str());
        },
        None => {},
    }
    show_phonetics(out, entry);
    let ghost head = out@;
    match entry.items_at("meanings") {
        Some(meanings) => {
            let ghost all = json_views(meanings@);
            let ghost f = |i: int, m: JsonView| meaning_shown(m);
            let mut i: usize = 0;
            proof {
                if meanings.len() > 0 {
                    each_step(all, 0, f);
                }
                assert(all.take(0) =~= Seq::<JsonView>::empty());
            }
            assert(out@ =~= head + each_at(all.take(0), f));
            while i < meanings.len()
                invariant
                    i <= meanings.len(),
                    all == json_views(meanings@),
                    f == (|i: int, m: JsonView| meaning_shown(m)),
                    out@ == head + each_at(all.take(i as int), f),
                decreases meanings.len() - i,
            {
                proof {
                    each_step(all, i as int, f);
                }
                show_meaning(out, &meanings[i]);
                assert(out@ =~= head + each_at(all.take(i + 1), f));
                i += 1;
            }
            assert(all.take(i as int) =~= all);
        },
        None => {},
    }
    push_line(out, "");
    proof {
        reveal_strlit("");
    }
    assert(""@ =~= Seq::<char>::empty());
    assert(out@ =~= old(out)@ + entry_shown(entry@));
}

impl Translator for DictionaryApi {
    open spec fn request(
        &self,
        words: Seq<char>,
        source: Lang,
        target: Lang,
        context: ContextView,
    ) -> RequestView {
        RequestView::Http {
            method: Method::Get,
            url: address(words, source),
            headers: Seq::empty(),
            query: Seq::empty(),
        }
    }

    open spec fn received(&self, raw: JsonView) -> JsonView {
        wrapped(raw)
    }

    open spec fn shown(&self, response: JsonView, more: bool) -> Seq<char> {
        answer_shown(response)
    }

    open spec fn opts_out(&self) -> bool {
        false
    }

    fn translate(&self, words: &str, source: &Lang, target: &Lang, context: &Context) -> (r:
        Request) {
        let lang = match_lang(source);
        let word = replace(trim(words).as_str(), " ", "%20");
        let mut url = String::from_str(DICTAPI_URL);
        url.append("/");
        url.append(lang);
        url.append("/");
        url.append(word.as_str());
        let headers: Vec<(String, String)> = Vec::new();
        let query: Vec<(String, String)> = Vec::new();
        assert(super::pair_views(headers@) =~= Seq::empty());
        assert(super::pair_views(query@) =~= Seq::empty());
        Request::Http { method: Method::Get, url, headers, query }
    }

    fn receive(&self, raw: Json) -> (response: Json) {
        let mut fields: Vec<(String, Json)> = Vec::new();
        fields.push((String::from_str("entries"), raw));
        let response = Json::Object(fields);
        proof {
            view_of_parts(response);
            let got = response@->Object_0;
            assert(got.len() == 1);
            assert(got[0] == ("entries"@, raw@));
            assert(got =~= seq![("entries"@, raw@)]);
        }
        response
    }

    fn show(&self, response: &Json, more: bool) -> (out: String) {
        let mut out = String::new();
        match response.items_at("entries") {
            Some(entries) => {
                let ghost all = json_views(entries@);
                let ghost f = |i: int, entry: JsonView| entry_shown(entry);
                let mut i: usize = 0;
                proof {
                    if entries.len() > 0 {
                        each_step(all, 0, f);
                    }
                    assert(all.take(0) =~= Seq::<JsonView>::empty());
                }
                assert(out@ =~= each_at(all.take(0), f));
                while i < entries.len()
                    invariant
                        i <= entries.len(),
                        all == json_views(entries@),
                        f == (|i: int, entry: JsonView| entry_shown(entry)),
                        out@ == each_at(all.take(i as int), f),
                    decreases entries.len() - i,
                {
                    proof {
                        each_step(all, i as int, f);
                    }
                    let ghost before = out@;
                    show_entry(&mut out, &entries[i]);
                    i += 1;
                }
                assert(all.take(i as int) =~= all);
            },
            None => {},
        }
        out
    }

    fn forces_no_cache(&self) -> (b: bool) {
        false
    }
}

} // verus!
