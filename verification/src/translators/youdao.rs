//! Youdao's translation service.

use super::{push_pair, Context, ContextView, Lang, Method, Request, RequestView, Translator};
use crate::json::{
    each_at, each_step, field_views, json_text, json_views, strings_in, texts, Json, JsonView,
};
use crate::text::{
    chars_of, decimal, decimal_string, join, joined, line, push_char, push_line, trim, trimmed,
    views,
};
use crate::utils::dyer::{dyed, Colors, Dye};
use crate::utils::env_loader::setting;
use vstd::prelude::*;
use vstd::string::*;

verus! {

/// Where the service is asked when no other address is set.
pub const YOUDAO_URL: &'static str = "https://openapi.youdao.com/api";

#[derive(Clone, Copy, Debug)]
pub struct Youdao;

/// What is signed of the words: all of them up to twenty characters, and
/// the first ten and the last ten of more.
pub open spec fn truncated(words: Seq<char>) -> Seq<char> {
    if words.len() > 20 {
        words.take(10) + words.skip(words.len() - 10)
    } else {
        words
    }
}

pub fn truncate(words: &str) -> (input: String)
    ensures
        input@ == truncated(words@),
{
    let v = chars_of(words);
    let len = v.len();
    if len > 20 {
        let mut input = String::new();
        let mut i: usize = 0;
        while i < 10
            invariant
                i <= 10,
                len == v.len(),
                len > 20,
                input@ == v@.take(i as int),
            decreases 10 - i,
        {
            push_char(&mut input, v[i]);
            assert(v@.take(i + 1) =~= v@.take(i as int).push(v@[i as int]));
            i += 1;
        }
        let mut j: usize = len - 10;
        let ghost tail = v@.skip(len - 10);
        assert(tail.take(0) =~= Seq::<char>::empty());
        assert(input@ =~= v@.take(10) + tail.take(0));
        while j < len
            invariant
                len - 10 <= j <= len,
                len == v.len(),
                len > 20,
                tail == v@.skip(len - 10),
                input@ == v@.take(10) + tail.take(j - (len - 10)),
            decreases len - j,
        {
            push_char(&mut input, v[j]);
            assert(tail.take(j + 1 - (len - 10)) =~= tail.take(j - (len - 10)).push(v@[j as int]));
            assert(input@ =~= v@.take(10) + tail.take(j + 1 - (len - 10)));
            j += 1;
        }
        assert(tail.take(10) =~= tail);
        return input;
    }
    String::from_str(words)
}

/// What the service calls a language.
pub open spec fn language_code(lang: Lang) -> Seq<char> {
    match lang {
        Lang::Zh => "zh-CHS"@,
        Lang::Zht => "zh-CHT"@,
        Lang::Yue => "yue"@,
        Lang::Auto => "auto"@,
        Lang::En => "en"@,
        Lang::Fr => "fr"@,
        Lang::De => "de"@,
        Lang::It => "it"@,
        Lang::Es => "es"@,
        Lang::Pt => "Pt"@,
        Lang::Ru => "ru"@,
        Lang::El => "el"@,
        Lang::Ar => "ar"@,
        Lang::La => "la"@,
        Lang::Ja => "ja"@,
        Lang::Ko => "ko"@,
    }
}

pub fn match_lang(lang: &Lang) -> (code: String)
    ensures
        code@ == language_code(*lang),
{
    match lang {
        Lang::Zh => String::from_str("zh-CHS"),
        Lang::Zht => String::from_str("zh-CHT"),
        Lang::Yue => String::from_str("yue"),
        Lang::Auto => String::from_str("auto"),
        Lang::En => String::from_str("en"),
        Lang::Fr => String::from_str("fr"),
        Lang::De => String::from_str("de"),
        Lang::It => String::from_str("it"),
        Lang::Es => String::from_str("es"),
        Lang::Pt => String::from_str("Pt"),
        Lang::Ru => String::from_str("ru"),
        Lang::El => String::from_str("el"),
        Lang::Ar => String::from_str("ar"),
        Lang::La => String::from_str("la"),
        Lang::Ja => String::from_str("ja"),
        Lang::Ko => String::from_str("ko"),
    }
}

/// The SHA-256 digest of the UTF-8 bytes of `input`, as the sha256 crate
/// writes it in hexadecimal.
pub uninterp spec fn sha256_hex(input: Seq<char>) -> Seq<char>;

/// `sha256::digest` of the sha256 crate on a text: the result is what
/// [`sha256_hex`] names.
#[verifier::external_body]
fn digest(input: &str) -> (hex: String)
    ensures
        hex@ == sha256_hex(input@),
{
    sha256::digest(input)
}

/// The signature of a request: the digest of the account's key, the
/// truncated words, the salt, the time and the account's secret, in this
/// order.
pub open spec fn signature(words: Seq<char>, context: ContextView) -> Seq<char> {
    sha256_hex(
        context.app_key + truncated(words) + context.salt + decimal(context.now as nat)
            + context.app_secret,
    )
}

/// The parameters of a request.
pub open spec fn parameters(words: Seq<char>, source: Lang, target: Lang, context: ContextView) -> Seq<
    (Seq<char>, Seq<char>),
> {
    seq![
        ("q"@, words),
        ("from"@, language_code(source)),
        ("to"@, language_code(target)),
        ("appKey"@, context.app_key),
        ("salt"@, context.salt),
        ("sign"@, signature(words, context)),
        ("signType"@, "v3"@),
        ("curtime"@, decimal(context.now as nat)),
    ]
}

/// The text that stands for a value: the JSON that writes it.
pub open spec fn written(value: JsonView) -> Seq<char> {
    match json_text(value) {
        Some(text) => text,
        None => Seq::empty(),
    }
}

/// The line that holds each value of the array under `key` as JSON, one
/// after the other, in colour. Nothing where there is no such array.
pub open spec fn phrases_shown(response: JsonView, key: Seq<char>, color: Colors) -> Seq<char> {
    match response.items_at(key) {
        Some(phrases) => line(dyed(each_at(phrases, |i: int, p: JsonView| written(p)), color)),
        None => Seq::empty(),
    }
}

/// The British and the American pronunciation, each where it is given.
pub open spec fn phonetics_text(basic: JsonView) -> Seq<char> {
    (match basic.text_at("uk-phonetic"@) {
        Some(uk) => "英 ["@ + uk + "]    "@,
        None => Seq::empty(),
    }) + (match basic.text_at("us-phonetic"@) {
        Some(us) => "美 ["@ + us + "]    "@,
        None => Seq::empty(),
    })
}

/// The forms that the fields of one object name: for each field that
/// holds a name and a value, the two with a colon between.
pub open spec fn forms_of(fields: Seq<(Seq<char>, JsonView)>) -> Seq<Seq<char>>
    decreases fields.len(),
{
    if fields.len() == 0 {
        Seq::empty()
    } else {
        let before = forms_of(fields.drop_last());
        match (fields.last().1.text_at("name"@), fields.last().1.text_at("value"@)) {
            (Some(name), Some(value)) => before.push(name + "："@ + value),
            _ => before,
        }
    }
}

/// The forms that the objects among `wfs` name, in order.
pub open spec fn word_forms(wfs: Seq<JsonView>) -> Seq<Seq<char>>
    decreases wfs.len(),
{
    if wfs.len() == 0 {
        Seq::empty()
    } else {
        word_forms(wfs.drop_last()) + (match wfs.last() {
            JsonView::Object(fields) => forms_of(fields),
            _ => Seq::empty(),
        })
    }
}

/// The line of the pronunciations, where there are any.
pub open spec fn phonetics_shown(basic: JsonView) -> Seq<char> {
    if phonetics_text(basic).len() > 0 {
        line(dyed(trimmed(phonetics_text(basic)), Colors::BrightYellow))
    } else {
        Seq::empty()
    }
}

/// The line of the strings of the array under `key`, joined by `sep`, in
/// colour. Nothing where there is no such array.
pub open spec fn strings_shown(basic: JsonView, key: Seq<char>, sep: Seq<char>, color: Colors) -> Seq<
    char,
> {
    match basic.items_at(key) {
        Some(items) => line(dyed(joined(texts(items), sep), color)),
        None => Seq::empty(),
    }
}

/// The line of the word's forms. Nothing where none are given.
pub open spec fn forms_shown(basic: JsonView) -> Seq<char> {
    match basic.items_at("wfs"@) {
        Some(wfs) => line(dyed(joined(word_forms(wfs), "；"@), Colors::Cyan)),
        None => Seq::empty(),
    }
}

/// What shows the dictionary's part of an answer: the pronunciations,
/// with `more` the word's forms and the exams it occurs in, and the
/// explanations.
pub open spec fn basic_shown(basic: JsonView, more: bool) -> Seq<char> {
    phonetics_shown(basic) + (if more {
        forms_shown(basic) + strings_shown(basic, "exam_type"@, "; "@, Colors::Green)
    } else {
        Seq::empty()
    }) + strings_shown(basic, "explains"@, "\n"@, Colors::BrightYellow)
}

/// What one value of a phrase from the web adds: its text where it is a
/// string, followed by a separator unless it is the last of `count`.
pub open spec fn web_value(i: int, value: JsonView, count: int) -> Seq<char> {
    match value {
        JsonView::String(text) => if i < count - 1 {
            text + "；"@
        } else {
            text
        },
        _ => Seq::empty(),
    }
}

/// What one phrase from the web adds: its key, its values, the end of the
/// line. Nothing for a phrase that is no object.
pub open spec fn web_phrase(phrase: JsonView) -> Seq<char> {
    if phrase is Object {
        (match phrase.text_at("key"@) {
            Some(key) => key + " "@,
            None => Seq::empty(),
        }) + (match phrase.items_at("value"@) {
            Some(values) => each_at(
                values,
                |i: int, value: JsonView| web_value(i, value, values.len() as int),
            ),
            None => Seq::empty(),
        }).push('\n')
    } else {
        Seq::empty()
    }
}

/// What shows the web's part of an answer: a heading, then the phrases.
pub open spec fn web_shown(response: JsonView) -> Seq<char> {
    match response.field("web"@) {
        Some(web) => line(dyed("网络释义"@, Colors::Blue)) + (match web {
            JsonView::Array(phrases) => line(
                dyed(each_at(phrases, |i: int, p: JsonView| web_phrase(p)), Colors::Cyan),
            ),
            _ => Seq::empty(),
        }),
        None => Seq::empty(),
    }
}

/// What shows an answer: with `more` the phrase as the service corrected
/// it, the translation, the dictionary's part and the web's part.
pub open spec fn answer_shown(response: JsonView, more: bool) -> Seq<char> {
    (if more {
        phrases_shown(response, "returnPhrase"@, Colors::BrightBlack)
    } else {
        Seq::empty()
    }) + phrases_shown(response, "translation"@, Colors::BrightWhite) + (match response.field(
        "basic"@,
    ) {
        Some(basic) => if basic is Object {
            basic_shown(basic, more)
        } else {
            Seq::empty()
        },
        None => Seq::empty(),
    }) + web_shown(response)
}

fn show_phrases(out: &mut String, response: &Json, key: &str, color: Colors)
    ensures
        final(out)@ == old(out)@ + phrases_shown(response@, key@, color),
{
    match response.items_at(key) {
        Some(phrases) => {
            let ghost all = json_views(phrases@);
            let ghost f = |i: int, p: JsonView| written(p);
            let mut text = String::new();
            let mut i: usize = 0;
            proof {
                if phrases.len() > 0 {
                    each_step(all, 0, f);
                }
                assert(all.take(0) =~= Seq::<JsonView>::empty());
            }
            assert(text@ =~= each_at(all.take(0), f));
            while i < phrases.len()
                invariant
                    i <= phrases.len(),
                    all == json_views(phrases@),
                    f == (|i: int, p: JsonView| written(p)),
                    text@ == each_at(all.take(i as int), f),
                decreases phrases.len() - i,
            {
                proof {
                    each_step(all, i as int, f);
                }
                let ghost before = text@;
                match phrases[i].to_text() {
                    Some(t) => {
                        text.append(t.as_str());
                    },
                    None => {},
                }
                assert(text@ =~= before + written(all[i as int]));
                i += 1;
            }
            assert(all.take(i as int) =~= all);
            push_line(out, text.dye(color).as_str());
        },
        None => {},
    }
    assert(out@ =~= old(out)@ + phrases_shown(response@, key@, color));
}

fn forms_in(fields: &Vec<(String, Json)>, forms: &mut Vec<String>)
    ensures
        views(final(forms)@) == views(old(forms)@) + forms_of(field_views(fields@)),
{
    let ghost all = field_views(fields@);
    let mut i: usize = 0;
    assert(views(forms@) =~= views(old(forms)@) + forms_of(all.take(0)));
    while i < fields.len()
        invariant
            i <= fields.len(),
            all == field_views(fields@),
            views(forms@) == views(old(forms)@) + forms_of(all.take(i as int)),
        decreases fields.len() - i,
    {
        assert(all.take(i + 1).drop_last() =~= all.take(i as int));
        assert(all.take(i + 1).last() == all[i as int]);
        let ghost before = views(forms@);
        let value = &fields[i].1;
        match (value.text_at("name"), value.text_at("value")) {
            (Some(name), Some(val)) => {
                let mut form = String::from_str(name);
                form.append("：");
                form.append(val);
                forms.push(form);
                assert(views(forms@) =~= before.push(form@));
            },
            _ => {},
        }
        assert(views(forms@) =~= views(old(forms)@) + forms_of(all.take(i + 1)));
        i += 1;
    }
    assert(all.take(i as int) =~= all);
}

fn word_forms_in(wfs: &Vec<Json>) -> (forms: Vec<String>)
    ensures
        views(forms@) == word_forms(json_views(wfs@)),
{
    let ghost all = json_views(wfs@);
    let mut forms: Vec<String> = Vec::new();
    let mut i: usize = 0;
    assert(views(forms@) =~= word_forms(all.take(0)));
    while i < wfs.len()
        invariant
            i <= wfs.len(),
            all == json_views(wfs@),
            views(forms@) == word_forms(all.take(i as int)),
        decreases wfs.len() - i,
    {
        assert(all.take(i + 1).drop_last() =~= all.take(i as int));
        assert(all.take(i + 1).last() == all[i as int]);
        match wfs[i].as_object() {
            Some(fields) => {
                forms_in(fields, &mut forms);
            },
            None => {
                assert(views(forms@) =~= word_forms(all.take(i + 1)));
            },
        }
        i += 1;
    }
    assert(all.take(i as int) =~= all);
    forms
}

fn show_phonetics(out: &mut String, basic: &Json)
    ensures
        final(out)@ == old(out)@ + phonetics_shown(basic@),
{
    let mut phonetics = String::new();
    match basic.text_at("uk-phonetic") {
        Some(uk) => {
            phonetics.append("英 [");
            phonetics.append(uk);
            phonetics.append("]    ");
        },
        None => {},
    }
    match basic.text_at("us-phonetic") {
        Some(us) => {
            phonetics.append("美 [");
            phonetics.append(us);
            phonetics.append("]    ");
        },
        None => {},
    }
    assert(phonetics@ =~= phonetics_text(basic@));
    if phonetics.as_str().unicode_len() > 0 {
        push_line(out, trim(phonetics.as_str()).dye(Colors::BrightYellow).as_str());
    }
    assert(out@ =~= old(out)@ + phonetics_shown(basic@));
}

fn show_strings(out: &mut String, basic: &Json, key: &str, sep: &str, color: Colors)
    ensures
        final(out)@ == old(out)@ + strings_shown(basic@, key@, sep@, color),
{
    match basic.items_at(key) {
        Some(items) => {
            let strings = strings_in(items);
            push_line(out, join(&strings, sep).dye(color).as_str());
        },
        None => {},
    }
    assert(out@ =~= old(out)@ + strings_shown(basic@, key@, sep@, color));
}

fn show_forms(out: &mut String, basic: &Json)
    ensures
        final(out)@ == old(out)@ + forms_shown(basic@),
{
    match basic.items_at("wfs") {
        Some(wfs) => {
            let forms = word_forms_in(wfs);
            push_line(out, join(&forms, "；").dye(Colors::Cyan).as_str());
        },
        None => {},
    }
    assert(out@ =~= old(out)@ + forms_shown(basic@));
}

fn show_basic(out: &mut String, basic: &Json, more: bool)
    ensures
        final(out)@ == old(out)@ + basic_shown(basic@, more),
{
    show_phonetics(out, basic);
    if more {
        show_forms(out, basic);
        show_strings(out, basic, "exam_type", "; ", Colors::Green);
    }
    show_strings(out, basic, "explains", "\n", Colors::BrightYellow);
    assert(out@ =~= old(out)@ + basic_shown(basic@, more));
}

fn web_phrase_text(text: &mut String, phrase: &Json)
    ensures
        final(text)@ == old(text)@ + web_phrase(phrase@),
{
    match phrase {
        Json::Object(_) => {},
        _ => {
            assert(text@ =~= old(text)@ + web_phrase(phrase@));
            return ;
        },
    }
    match phrase.text_at("key") {
        Some(key) => {
            text.append(key);
            text.append(" ");
        },
        None => {},
    }
    let ghost head = text@;
    match phrase.items_at("value") {
        Some(values) => {
            let ghost all = json_views(values@);
            let ghost f = |i: int, value: JsonView| web_value(i, value, all.len() as int);
            let mut i: usize = 0;
            proof {
                if values.len() > 0 {
                    each_step(all, 0, f);
                }
                assert(all.take(0) =~= Seq::<JsonView>::empty());
            }
            assert(text@ =~= head + each_at(all.take(0), f));
            while i < values.len()
                invariant
                    i <= values.len(),
                    all == json_views(values@),
                    f == (|i: int, value: JsonView| web_value(i, value, all.len() as int)),
                    text@ == head + each_at(all.take(i as int), f),
                decreases values.len() - i,
            {
                proof {
                    each_step(all, i as int, f);
                }
                let ghost before = text@;
                match &values[i] {
                    Json::String(v) => {
                        text.append(v.as_str());
                        if i < values.len() - 1 {
                            text.append("；");
                        }
                    },
                    _ => {},
                }
                assert(text@ =~= before + web_value(i as int, all[i as int], all.len() as int));
                i += 1;
            }
            assert(all.take(i as int) =~= all);
        },
        None => {},
    }
    push_char(text, '\n');
    assert(text@ =~= old(text)@ + web_phrase(phrase@));
}

fn show_web(out: &mut String, response: &Json)
    ensures
        final(out)@ == old(out)@ + web_shown(response@),
{
    match response.get("web") {
        Some(web) => {
            push_line(out, "网络释义".dye(Colors::Blue).as_str());
            match web.as_array() {
                Some(phrases) => {
                    let ghost all = json_views(phrases@);
                    let ghost f = |i: int, p: JsonView| web_phrase(p);
                    let mut text = String::new();
                    let mut i: usize = 0;
                    proof {
                        if phrases.len() > 0 {
                            each_step(all, 0, f);
                        }
                        assert(all.take(0) =~= Seq::<JsonView>::empty());
                    }
                    assert(text@ =~= each_at(all.take(0), f));
                    while i < phrases.len()
                        invariant
                            i <= phrases.len(),
                            all == json_views(phrases@),
                            f == (|i: int, p: JsonView| web_phrase(p)),
                            text@ == each_at(all.take(i as int), f),
                        decreases phrases.len() - i,
                    {
                        proof {
                            each_step(all, i as int, f);
                        }
                        web_phrase_text(&mut text, &phrases[i]);
                        i += 1;
                    }
                    assert(all.take(i as int) =~= all);
                    push_line(out, text.dye(Colors::Cyan).as_str());
                },
                None => {},
            }
        },
        None => {},
    }
    assert(out@ =~= old(out)@ + web_shown(response@));
}

impl Translator for Youdao {
    open spec fn request(
        &self,
        words: Seq<char>,
        source: Lang,
        target: Lang,
        context: ContextView,
    ) -> RequestView {
        RequestView::Http {
            method: Method::Post,
            url: setting(context.url, YOUDAO_URL@),
            headers: seq![("Content-Type"@, "application/x-www-form-urlencoded"@)],
            query: parameters(words, source, target, context),
        }
    }

    open spec fn received(&self, raw: JsonView) -> JsonView {
        raw
    }

    open spec fn shown(&self, response: JsonView, more: bool) -> Seq<char> {
        answer_shown(response, more)
    }

    open spec fn opts_out(&self) -> bool {
        false
    }

    fn translate(&self, words: &str, source: &Lang, target: &Lang, context: &Context) -> (r:
        Request) {
        let url = crate::utils::env_loader::load_or_default(context.url.clone(), YOUDAO_URL);
        let cur_time = decimal_string(context.now);
        let input = truncate(words);
        let mut signed = context.app_key.clone();
        signed.append(input.as_str());
        signed.append(context.salt.as_str());
        signed.append(cur_time.as_str());
        signed.append(context.app_secret.as_str());
        let sign = digest(signed.as_str());
        let from = match_lang(source);
        let to = match_lang(target);
        let mut headers: Vec<(String, String)> = Vec::new();
        push_pair(&mut headers, "Content-Type", "application/x-www-form-urlencoded");
        let mut query: Vec<(String, String)> = Vec::new();
        push_pair(&mut query, "q", words);
        push_pair(&mut query, "from", from.as_str());
        push_pair(&mut query, "to", to.as_str());
        push_pair(&mut query, "appKey", context.app_key.as_str());
        push_pair(&mut query, "salt", context.salt.as_str());
        push_pair(&mut query, "sign", sign.as_str());
        push_pair(&mut query, "signType", "v3");
        push_pair(&mut query, "curtime", cur_time.as_str());
        assert(super::pair_views(query@) =~= parameters(words@, *source, *target, context@));
        assert(super::pair_views(headers@) =~= seq![
            ("Content-Type"@, "application/x-www-form-urlencoded"@),
        ]);
        Request::Http { method: Method::Post, url, headers, query }
    }

    fn receive(&self, raw: Json) -> (response: Json) {
        raw
    }

    fn show(&self, response: &Json, more: bool) -> (out: String) {
        let mut out = String::new();
        if more {
            show_phrases(&mut out, response, "returnPhrase", Colors::BrightBlack);
        }
        show_phrases(&mut out, response, "translation", Colors::BrightWhite);
        match response.get("basic") {
            Some(basic) => {
                match basic {
                    Json::Object(_) => {
                        show_basic(&mut out, basic, more);
                    },
                    _ => {},
                }
            },
            None => {},
        }
        show_web(&mut out, response);
        assert(out@ =~= answer_shown(response@, more));
        out
    }

    fn forces_no_cache(&self) -> (b: bool) {
        false
    }
}

} // verus!
