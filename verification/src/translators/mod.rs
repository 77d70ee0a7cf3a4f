//! The providers, the languages, and what every provider can do.

use self::dictionaryapi::DictionaryApi;
use self::ecdict::Ecdict;
use self::google::Google;
use self::youdao::Youdao;
use crate::json::{Json, JsonView};
use vstd::prelude::*;
use vstd::string::*;

pub mod dictionaryapi;
pub mod ecdict;
pub mod file_names;
pub mod google;
pub mod lookup;
pub mod youdao;

pub use self::file_names::{
    compose, file_name, fingerprint, is_path_safe, path_safe, patterns_compile, provider_of,
    sanitize, slug, try_file_name,
};
pub use self::lookup::{conclude, load, save, translate, Event, QueryArgs, State, Step};

verus! {

/// The services a query can be sent to.
#[derive(Clone, Copy, Debug, PartialEq, Eq, Structural)]
pub enum Translators {
    Google,
    Youdao,
    DictionaryApi,
    Ecdict,
}

/// The languages a query can be written in or translated to.
#[derive(Clone, Copy, Debug, PartialEq, Eq, Structural)]
pub enum Lang {
    /// Simplified Chinese.
    Zh,
    /// Traditional Chinese.
    Zht,
    /// Cantonese.
    Yue,
    /// Let the provider detect the language.
    Auto,
    En,
    Fr,
    De,
    It,
    Es,
    Pt,
    Ru,
    El,
    Ar,
    La,
    Ko,
    Ja,
}

impl Translators {
    /// The provider's name as it is written in file names and messages.
    pub open spec fn name(self) -> Seq<char> {
        match self {
            Translators::Google => seq!['g', 'o', 'o', 'g', 'l', 'e'],
            Translators::Youdao => seq!['y', 'o', 'u', 'd', 'a', 'o'],
            Translators::DictionaryApi => seq![
                'd', 'i', 'c', 't', 'i', 'o', 'n', 'a', 'r', 'y', 'a', 'p', 'i',
            ],
            Translators::Ecdict => seq!['e', 'c', 'd', 'i', 'c', 't'],
        }
    }

    pub fn to_string(&self) -> (s: String)
        ensures
            s@ == self.name(),
    {
        proof {
            reveal_strlit("google");
            reveal_strlit("youdao");
            reveal_strlit("dictionaryapi");
            reveal_strlit("ecdict");
        }
        let s = match self {
            Translators::Google => String::from_str("google"),
            Translators::Youdao => String::from_str("youdao"),
            Translators::DictionaryApi => String::from_str("dictionaryapi"),
            Translators::Ecdict => String::from_str("ecdict"),
        };
        assert(s@ =~= self.name());
        s
    }

}

impl Lang {
    /// The language's name as it is written in file names and messages.
    pub open spec fn name(self) -> Seq<char> {
        match self {
            Lang::Zh => seq!['Z', 'h'],
            Lang::Zht => seq!['Z', 'h', 't'],
            Lang::Yue => seq!['Y', 'u', 'e'],
            Lang::Auto => seq!['A', 'u', 't', 'o'],
            Lang::En => seq!['E', 'n'],
            Lang::Fr => seq!['F', 'r'],
            Lang::De => seq!['D', 'e'],
            Lang::It => seq!['I', 't'],
            Lang::Es => seq!['E', 's'],
            Lang::Pt => seq!['P', 't'],
            Lang::Ru => seq!['R', 'u'],
            Lang::El => seq!['E', 'l'],
            Lang::Ar => seq!['A', 'r'],
            Lang::La => seq!['L', 'a'],
            Lang::Ko => seq!['K', 'o'],
            Lang::Ja => seq!['J', 'a'],
        }
    }

    pub fn to_string(&self) -> (s: String)
        ensures
            s@ == self.name(),
    {
        proof {
            reveal_strlit("Zh");
            reveal_strlit("Zht");
            reveal_strlit("Yue");
            reveal_strlit("Auto");
            reveal_strlit("En");
            reveal_strlit("Fr");
            reveal_strlit("De");
            reveal_strlit("It");
            reveal_strlit("Es");
            reveal_strlit("Pt");
            reveal_strlit("Ru");
            reveal_strlit("El");
            reveal_strlit("Ar");
            reveal_strlit("La");
            reveal_strlit("Ko");
            reveal_strlit("Ja");
        }
        let s = match self {
            Lang::Zh => String::from_str("Zh"),
            Lang::Zht => String::from_str("Zht"),
            Lang::Yue => String::from_str("Yue"),
            Lang::Auto => String::from_str("Auto"),
            Lang::En => String::from_str("En"),
            Lang::Fr => String::from_str("Fr"),
            Lang::De => String::from_str("De"),
            Lang::It => String::from_str("It"),
            Lang::Es => String::from_str("Es"),
            Lang::Pt => String::from_str("Pt"),
            Lang::Ru => String::from_str("Ru"),
            Lang::El => String::from_str("El"),
            Lang::Ar => String::from_str("Ar"),
            Lang::La => String::from_str("La"),
            Lang::Ko => String::from_str("Ko"),
            Lang::Ja => String::from_str("Ja"),
        };
        assert(s@ =~= self.name());
        s
    }
}

/// How a request is sent.
#[derive(Clone, Copy, Debug, PartialEq, Eq, Structural)]
pub enum Method {
    Get,
    Post,
}

/// What a provider is to be asked: a call over HTTP with its headers and
/// its query parameters in order, or a word to look up in the local
/// dictionary.
#[derive(Clone, Debug, PartialEq, Eq)]
pub enum Request {
    Http { method: Method, url: String, headers: Vec<(String, String)>, query: Vec<(String, String)> },
    Lookup { word: String },
}

/// A [`Request`] as a mathematical value.
pub enum RequestView {
    Http {
        method: Method,
        url: Seq<char>,
        headers: Seq<(Seq<char>, Seq<char>)>,
        query: Seq<(Seq<char>, Seq<char>)>,
    },
    Lookup { word: Seq<char> },
}

/// The views of pairs of texts.
pub open spec fn pair_views(v: Seq<(String, String)>) -> Seq<(Seq<char>, Seq<char>)> {
    Seq::new(v.len(), |i: int| (v[i].0@, v[i].1@))
}

impl View for Request {
    type V = RequestView;

    open spec fn view(&self) -> RequestView {
        match self {
            Request::Http { method, url, headers, query } => RequestView::Http {
                method: *method,
                url: url@,
                headers: pair_views(headers@),
                query: pair_views(query@),
            },
            Request::Lookup { word } => RequestView::Lookup { word: word@ },
        }
    }
}

/// What the surroundings give for one request: the provider's address
/// where one is set, the key and the secret of the account, a salt, and
/// the time in seconds since the Unix epoch.
#[derive(Clone, Debug, PartialEq, Eq)]
pub struct Context {
    pub url: Option<String>,
    pub app_key: String,
    pub app_secret: String,
    pub salt: String,
    pub now: u64,
}

/// A [`Context`] as a mathematical value.
pub struct ContextView {
    pub url: Option<Seq<char>>,
    pub app_key: Seq<char>,
    pub app_secret: Seq<char>,
    pub salt: Seq<char>,
    pub now: u64,
}

impl View for Context {
    type V = ContextView;

    open spec fn view(&self) -> ContextView {
        ContextView {
            url: crate::utils::env_loader::opt_view(self.url),
            app_key: self.app_key@,
            app_secret: self.app_secret@,
            salt: self.salt@,
            now: self.now,
        }
    }
}

/// `Uuid::new_v4` of the uuid crate, written with `to_string`: a random
/// identifier. Nothing is claimed of it.
#[verifier::external_body]
fn new_salt() -> String {
    uuid::Uuid::new_v4().to_string()
}

impl Context {
    /// The context of a request made at `now`, with a salt drawn at
    /// random.
    pub fn new(url: Option<String>, app_key: String, app_secret: String, now: u64) -> (c: Context)
        ensures
            c@.url == crate::utils::env_loader::opt_view(url),
            c@.app_key == app_key@,
            c@.app_secret == app_secret@,
            c@.now == now,
    {
        Context { url, app_key, app_secret, salt: new_salt(), now }
    }
}

/// Pushes the pair of `key` and `value`.
pub(crate) fn push_pair(pairs: &mut Vec<(String, String)>, key: &str, value: &str)
    ensures
        pair_views(final(pairs)@) == pair_views(old(pairs)@).push((key@, value@)),
{
    let ghost before = pair_views(pairs@);
    pairs.push((String::from_str(key), String::from_str(value)));
    assert(pair_views(pairs@) =~= before.push((key@, value@)));
}

/// What every provider can do: say what is to be asked for a query, make
/// the provider's answer into the form that is kept and shown, show an
/// answer as text, and say whether its answers are worth keeping.
pub trait Translator {
    /// What is to be asked for `words`.
    spec fn request(
        &self,
        words: Seq<char>,
        source: Lang,
        target: Lang,
        context: ContextView,
    ) -> RequestView;

    /// The answer that is kept and shown for what the provider sent.
    spec fn received(&self, raw: JsonView) -> JsonView;

    /// What is written to show `response`; with more details where
    /// `more`.
    spec fn shown(&self, response: JsonView, more: bool) -> Seq<char>;

    /// Whether the provider's answers are never cached.
    spec fn opts_out(&self) -> bool;

    fn translate(&self, words: &str, source: &Lang, target: &Lang, context: &Context) -> (r:
        Request)
        ensures
            r@ == self.request(words@, *source, *target, context@),
    ;

    fn receive(&self, raw: Json) -> (response: Json)
        ensures
            response@ == self.received(raw@),
    ;

    fn show(&self, response: &Json, more: bool) -> (out: String)
        ensures
            out@ == self.shown(response@, more),
    ;

    fn forces_no_cache(&self) -> (b: bool)
        ensures
            b == self.opts_out(),
    ;
}

impl Translators {
    /// What this provider is to be asked for `words`.
    pub open spec fn request(
        self,
        words: Seq<char>,
        source: Lang,
        target: Lang,
        context: ContextView,
    ) -> RequestView {
        match self {
            Translators::Google => Google.request(words, source, target, context),
            Translators::Youdao => Youdao.request(words, source, target, context),
            Translators::DictionaryApi => DictionaryApi.request(words, source, target, context),
            Translators::Ecdict => Ecdict.request(words, source, target, context),
        }
    }

    /// The answer that is kept and shown for what this provider sent.
    pub open spec fn received(self, raw: JsonView) -> JsonView {
        match self {
            Translators::Google => Google.received(raw),
            Translators::Youdao => Youdao.received(raw),
            Translators::DictionaryApi => DictionaryApi.received(raw),
            Translators::Ecdict => Ecdict.received(raw),
        }
    }

    /// What is written to show an answer of this provider.
    pub open spec fn shown(self, response: JsonView, more: bool) -> Seq<char> {
        match self {
            Translators::Google => Google.shown(response, more),
            Translators::Youdao => Youdao.shown(response, more),
            Translators::DictionaryApi => DictionaryApi.shown(response, more),
            Translators::Ecdict => Ecdict.shown(response, more),
        }
    }

    /// Whether answers of this provider are never cached.
    pub open spec fn skips_cache(self) -> bool {
        self == Translators::Ecdict
    }

    /// Says what the provider is to be asked.
    pub fn translate(&self, words: &str, source: &Lang, target: &Lang, context: &Context) -> (r:
        Request)
        ensures
            r@ == self.request(words@, *source, *target, context@),
    {
        match self {
            Translators::Google => Google.translate(words, source, target, context),
            Translators::Youdao => Youdao.translate(words, source, target, context),
            Translators::DictionaryApi => DictionaryApi.translate(words, source, target, context),
            Translators::Ecdict => Ecdict.translate(words, source, target, context),
        }
    }

    /// Makes what the provider sent into the answer that is kept and shown.
    pub fn receive(&self, raw: Json) -> (response: Json)
        ensures
            response@ == self.received(raw@),
    {
        match self {
            Translators::Google => Google.receive(raw),
            Translators::Youdao => Youdao.receive(raw),
            Translators::DictionaryApi => DictionaryApi.receive(raw),
            Translators::Ecdict => Ecdict.receive(raw),
        }
    }

    /// Tells whether answers of this provider are never cached.
    pub fn forces_no_cache(&self) -> (b: bool)
        ensures
            b == self.skips_cache(),
    {
        match self {
            Translators::Google => Google.forces_no_cache(),
            Translators::Youdao => Youdao.forces_no_cache(),
            Translators::DictionaryApi => DictionaryApi.forces_no_cache(),
            Translators::Ecdict => Ecdict.forces_no_cache(),
        }
    }

    /// Shows an answer of the provider.
    pub fn show(&self, response: &Json, more: bool) -> (out: String)
        ensures
            out@ == self.shown(response@, more),
    {
        match self {
            Translators::Google => Google.show(response, more),
            Translators::Youdao => Youdao.show(response, more),
            Translators::DictionaryApi => DictionaryApi.show(response, more),
            Translators::Ecdict => Ecdict.show(response, more),
        }
    }
}

} // verus!
