//! Google's translation service.

use super::{push_pair, Context, ContextView, Lang, Method, Request, RequestView, Translator};
use crate::json::{each_at, each_step, json_views, strings_in, texts, Json, JsonView};
use crate::text::{join, joined, line, push_line};
use crate::utils::dyer::{dyed, Colors, Dye};
use crate::utils::env_loader::setting;
use vstd::prelude::*;
use vstd::string::*;

verus! {

/// Where the service is asked when no other address is set.
pub const GOOGLE_URL: &'static str = "https://translate.googleapis.com/translate_a/single";

#[derive(Clone, Copy, Debug)]
pub struct Google;

/// What the service calls a language.
pub open spec fn language_code(lang: Lang) -> Seq<char> {
    match lang {
        Lang::Zh => "zh-CN"@,
        Lang::Zht => "zh-TW"@,
        Lang::Yue => "yue"@,
        Lang::Auto => "auto"@,
        Lang::En => "en"@,
        Lang::Fr => "fr"@,
        Lang::De => "de"@,
        Lang::It => "it"@,
        Lang::Es => "es"@,
        Lang::Pt => "Pt"@,
        Lang::Ru => "ru"@,
        Lang::El => "el"@,
        Lang::Ar => "ar"@,
        Lang::La => "la"@,
        Lang::Ja => "ja"@,
        Lang::Ko => "ko"@,
    }
}

pub fn match_lang(lang: &Lang) -> (code: String)
    ensures
        code@ == language_code(*lang),
{
    match lang {
        Lang::Zh => String::from_str("zh-CN"),
        Lang::Zht => String::from_str("zh-TW"),
        Lang::Yue => String::from_str("yue"),
        Lang::Auto => String::from_str("auto"),
        Lang::En => String::from_str("en"),
        Lang::Fr => String::from_str("fr"),
        Lang::De => String::from_str("de"),
        Lang::It => String::from_str("it"),
        Lang::Es => String::from_str("es"),
        Lang::Pt => String::from_str("Pt"),
        Lang::Ru => String::from_str("ru"),
        Lang::El => String::from_str("el"),
        Lang::Ar => String::from_str("ar"),
        Lang::La => String::from_str("la"),
        Lang::Ja => String::from_str("ja"),
        Lang::Ko => String::from_str("ko"),
    }
}

/// The parameters of a request: the words, the two languages, and what
/// is wanted back.
pub open spec fn parameters(words: Seq<char>, source: Lang, target: Lang) -> Seq<
    (Seq<char>, Seq<char>),
> {
    seq![
        ("q"@, words),
        ("sl"@, language_code(source)),
        ("tl"@, language_code(target)),
        ("dt"@, "t"@),
        ("dt"@, "bd"@),
        ("dj"@, "1"@),
        ("client"@, "gtx"@),
    ]
}

/// The line of the translated sentence: what the first of `sentences`
/// holds under `trans`.
pub open spec fn sentence_shown(response: JsonView) -> Seq<char> {
    match response.items_at("sentences"@) {
        Some(sentences) => if sentences.len() > 0 {
            match sentences[0].text_at("trans"@) {
                Some(trans) => line(dyed(trans, Colors::BrightBlack)),
                None => Seq::empty(),
            }
        } else {
            Seq::empty()
        },
        None => Seq::empty(),
    }
}

/// What shows one entry of a part of speech: the word, indented and
/// without the end of a line, then its translations back on one line.
pub open spec fn entry_shown(entry: JsonView) -> Seq<char> {
    (match entry.text_at("word"@) {
        Some(word) => "  "@ + dyed(word, Colors::BrightBlack),
        None => Seq::empty(),
    }) + (match entry.items_at("reverse_translation"@) {
        Some(items) => line(dyed(joined(texts(items), ", "@), Colors::BrightCyan)),
        None => Seq::empty(),
    })
}

/// What shows the entries of a part of speech: the first three of them.
pub open spec fn entries_shown(entries: Seq<JsonView>) -> Seq<char> {
    each_at(
        if entries.len() > 3 {
            entries.take(3)
        } else {
            entries
        },
        |i: int, entry: JsonView| entry_shown(entry),
    )
}

/// What shows one part of speech: its name on a line, then its entries.
/// Nothing where it has no name.
pub open spec fn part_shown(dict: JsonView) -> Seq<char> {
    match dict.text_at("pos"@) {
        Some(pos) => line(dyed(pos, Colors::Blue)) + (match dict.items_at("entry"@) {
            Some(entries) => entries_shown(entries),
            None => Seq::empty(),
        }),
        None => Seq::empty(),
    }
}

/// What shows an answer: the translated sentence, then each part of
/// speech of the dictionary.
pub open spec fn answer_shown(response: JsonView) -> Seq<char> {
    sentence_shown(response) + (match response.items_at("dict"@) {
        Some(dicts) => each_at(dicts, |i: int, dict: JsonView| part_shown(dict)),
        None => Seq::empty(),
    })
}

fn show_entry(out: &mut String, entry: &Json)
    ensures
        final(out)@ == old(out)@ + entry_shown(entry@),
{
    match entry.text_at("word") {
        Some(word) => {
            out.append("  ");
            out.append(word.dye(Colors::BrightBlack).as_str());
        },
        None => {},
    }
    match entry.items_at("reverse_translation") {
        Some(items) => {
            let reverses = strings_in(items);
            let text = join(&reverses, ", ");
            push_line(out, text.dye(Colors::BrightCyan).as_str());
        },
        None => {},
    }
    assert(out@ =~= old(out)@ + entry_shown(entry@));
}

fn show_entries(out: &mut String, entries: &Vec<Json>)
    ensures
        final(out)@ == old(out)@ + entries_shown(json_views(entries@)),
{
    let ghost all = json_views(entries@);
    let ghost shown = if all.len() > 3 {
        all.take(3)
    } else {
        all
    };
    let ghost f = |i: int, entry: JsonView| entry_shown(entry);
    let n: usize = if entries.len() > 3 {
        3
    } else {
        entries.len()
    };
    let mut i: usize = 0;
    proof {
        if n > 0 {
            each_step(shown, 0, f);
        }
        assert(shown.take(0) =~= Seq::<JsonView>::empty());
    }
    assert(out@ =~= old(out)@ + each_at(shown.take(0), f));
    while i < n
        invariant
            i <= n,
            n == shown.len(),
            n <= entries.len(),
            all == json_views(entries@),
            forall|k: int| 0 <= k < n ==> shown[k] == all[k],
            f == (|i: int, entry: JsonView| entry_shown(entry)),
            out@ == old(out)@ + each_at(shown.take(i as int), f),
        decreases n - i,
    {
        proof {
            each_step(shown, i as int, f);
        }
        let ghost before = out@;
        show_entry(out, &entries[i]);
        assert(out@ =~= old(out)@ + each_at(shown.take(i + 1), f));
        i += 1;
    }
    assert(shown.take(n as int) =~= shown);
}

fn show_part(out: &mut String, dict: &Json)
    ensures
        final(out)@ == old(out)@ + part_shown(dict@),
{
    match dict.text_at("pos") {
        Some(pos) => {
            push_line(out, pos.dye(Colors::Blue).as_str());
            match dict.items_at("entry") {
                Some(entries) => {
                    show_entries(out, entries);
                },
                None => {},
            }
        },
        None => {},
    }
    assert(out@ =~= old(out)@ + part_shown(dict@));
}

impl Translator for Google {
    open spec fn request(
        &self,
        words: Seq<char>,
        source: Lang,
        target: Lang,
        context: ContextView,
    ) -> RequestView {
        RequestView::Http {
            method: Method::Get,
            url: setting(context.url, GOOGLE_URL@),
            headers: Seq::empty(),
            query: parameters(words, source, target),
        }
    }

    open spec fn received(&self, raw: JsonView) -> JsonView {
        raw
    }

    open spec fn shown(&self, response: JsonView, more: bool) -> Seq<char> {
        answer_shown(response)
    }

    open spec fn opts_out(&self) -> bool {
        false
    }

    fn translate(&self, words: &str, source: &Lang, target: &Lang, context: &Context) -> (r:
        Request) {
        let url = crate::utils::env_loader::load_or_default(context.url.clone(), GOOGLE_URL);
        let from = match_lang(source);
        let to = match_lang(target);
        let mut query: Vec<(String, String)> = Vec::new();
        push_pair(&mut query, "q", words);
        push_pair(&mut query, "sl", from.as_str());
        push_pair(&mut query, "tl", to.as_str());
        push_pair(&mut query, "dt", "t");
        push_pair(&mut query, "dt", "bd");
        push_pair(&mut query, "dj", "1");
        push_pair(&mut query, "client", "gtx");
        let headers: Vec<(String, String)> = Vec::new();
        assert(super::pair_views(query@) =~= parameters(words@, *source, *target));
        assert(super::pair_views(headers@) =~= Seq::empty());
        Request::Http { method: Method::Get, url, headers, query }
    }

    fn receive(&self, raw: Json) -> (response: Json) {
        raw
    }

    fn show(&self, response: &Json, more: bool) -> (out: String) {
        let mut out = String::new();
        match response.items_at("sentences") {
            Some(sentences) => {
                if sentences.len() > 0 {
                    match sentences[0].text_at("trans") {
                        Some(trans) => {
                            push_line(&mut out, trans.dye(Colors::BrightBlack).as_str());
                        },
                        None => {},
                    }
                }
            },
            None => {},
        }
        assert(out@ =~= sentence_shown(response@));
        match response.items_at("dict") {
            Some(dicts) => {
                let ghost all = json_views(dicts@);
                let ghost f = |i: int, dict: JsonView| part_shown(dict);
                let mut i: usize = 0;
                proof {
                    if dicts.len() > 0 {
                        each_step(all, 0, f);
                    }
                    assert(all.take(0) =~= Seq::<JsonView>::empty());
                }
                assert(out@ =~= sentence_shown(response@) + each_at(all.take(0), f));
                while i < dicts.len()
                    invariant
                        i <= dicts.len(),
                        all == json_views(dicts@),
                        f == (|i: int, dict: JsonView| part_shown(dict)),
                        out@ == sentence_shown(response@) + each_at(all.take(i as int), f),
                    decreases dicts.len() - i,
                {
                    proof {
                        each_step(all, i as int, f);
                    }
                    show_part(&mut out, &dicts[i]);
                    assert(out@ =~= sentence_shown(response@) + each_at(all.take(i + 1), f));
                    i += 1;
                }
                assert(all.take(i as int) =~= all);
            },
            None => {},
        }
        assert(out@ =~= answer_shown(response@));
        out
    }

    fn forces_no_cache(&self) -> (b: bool) {
        false
    }
}

} // verus!
