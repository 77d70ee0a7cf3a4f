//! The name under which the answer to a query is cached.
//!
//! A name is made of the source language, the provider and the target
//! language, joined by dashes, then an underscore and the query, in which
//! whatever a path must not hold has been replaced by dashes.

use super::{Lang, Translators};
use crate::text::{chars_of, same_text, string_of, trim, trimmed};
use vstd::prelude::*;
use vstd::string::*;

verus! {

/// The pattern of the characters that a file name must not hold.
pub const INVALID_PATH_CHARS: &'static str = "[/\\\\?%*:|\"<>,;= ]";

/// The pattern of a run of two or more dashes.
pub const MULTI_STUB: &'static str = "-{2,}";

/// Whether the regex crate accepts `pattern` as a regular expression.
pub uninterp spec fn regex_compiles(pattern: Seq<char>) -> bool;

/// `haystack` after the regex crate has replaced every match of `pattern`
/// in it by `rep`.
pub uninterp spec fn regex_replaced(
    pattern: Seq<char>,
    haystack: Seq<char>,
    rep: Seq<char>,
) -> Seq<char>;

/// `Regex::new` of the regex crate: tells whether `pattern` compiles, which
/// [`regex_compiles`] names.
#[verifier::external_body]
fn compiles(pattern: &str) -> (ok: bool)
    ensures
        ok == regex_compiles(pattern@),
{
    regex::Regex::new(pattern).is_ok()
}

/// `Regex::replace_all` of the regex crate on the expression compiled from
/// `pattern`: the result is what [`regex_replaced`] names. Nothing is
/// claimed of what the replacement looks like.
#[verifier::external_body]
fn replace_all(pattern: &str, haystack: &str, rep: &str) -> (out: String)
    requires
        regex_compiles(pattern@),
    ensures
        out@ == regex_replaced(pattern@, haystack@, rep@),
{
    regex::Regex::new(pattern).unwrap().replace_all(haystack, rep).into_owned()
}

/// Whether both patterns that a file name is made with compile.
pub open spec fn patterns_compile() -> bool {
    regex_compiles(INVALID_PATH_CHARS@) && regex_compiles(MULTI_STUB@)
}

/// The part of a file name that stands for the query: the query without
/// surrounding white space, every character that a path must not hold
/// replaced by a dash, and every run of dashes replaced by one.
pub open spec fn slug(query: Seq<char>) -> Seq<char> {
    regex_replaced(
        MULTI_STUB@,
        regex_replaced(INVALID_PATH_CHARS@, trimmed(query), seq!['-']),
        seq!['-'],
    )
}

/// The file name made of a sanitized query and the three settings:
/// source, provider and target joined by dashes, an underscore, the query.
pub open spec fn composed(sentence: Seq<char>, sl: Lang, tl: Lang, translator: Translators) -> Seq<
    char,
> {
    sl.name() + seq!['-'] + translator.name() + seq!['-'] + tl.name() + seq!['_'] + sentence
}

/// The name of the cache file of a query.
pub open spec fn fingerprint(query: Seq<char>, sl: Lang, tl: Lang, translator: Translators) -> Seq<
    char,
> {
    composed(slug(query), sl, tl, translator)
}

/// Whether `c` may stand in a file name: it is no space and none of
/// `/ \ ? % * : | " < > , ; =`.
pub open spec fn allowed_in_path(c: char) -> bool {
    c != '/' && c != '\\' && c != '?' && c != '%' && c != '*' && c != ':' && c != '|' && c != '"'
        && c != '<' && c != '>' && c != ',' && c != ';' && c != '=' && c != ' '
}

/// Whether `name` can be the name of a file: every character of it may
/// stand in one.
pub open spec fn path_safe(name: Seq<char>) -> bool {
    forall|i: int| 0 <= i < name.len() ==> allowed_in_path(#[trigger] name[i])
}

/// Tells whether `name` can be the name of a file.
pub fn is_path_safe(name: &str) -> (safe: bool)
    ensures
        safe == path_safe(name@),
{
    let v = chars_of(name);
    let mut i: usize = 0;
    while i < v.len()
        invariant
            i <= v.len(),
            v@ == name@,
            forall|k: int| 0 <= k < i ==> allowed_in_path(#[trigger] v@[k]),
        decreases v.len() - i,
    {
        let c = v[i];
        if c == '/' || c == '\\' || c == '?' || c == '%' || c == '*' || c == ':' || c == '|' || c
            == '"' || c == '<' || c == '>' || c == ',' || c == ';' || c == '=' || c == ' ' {
            assert(!allowed_in_path(name@[i as int]));
            return false;
        }
        i += 1;
    }
    true
}

/// Replaces what a path must not hold, given that the patterns compile.
pub fn sanitize(query: &str) -> (sentence: String)
    requires
        patterns_compile(),
    ensures
        sentence@ == slug(query@),
{
    proof {
        reveal_strlit("-");
    }
    assert("-"@ =~= seq!['-']);
    let sentence = trim(query);
    let sentence = replace_all(INVALID_PATH_CHARS, sentence.as_str(), "-");
    replace_all(MULTI_STUB, sentence.as_str(), "-")
}

/// Puts a sanitized query and the three settings together.
pub fn compose(sentence: &str, sl: &Lang, tl: &Lang, translator: &Translators) -> (name: String)
    ensures
        name@ == composed(sentence@, *sl, *tl, *translator),
{
    proof {
        reveal_strlit("-");
        reveal_strlit("_");
    }
    assert("-"@ =~= seq!['-']);
    assert("_"@ =~= seq!['_']);
    let mut name = sl.to_string();
    name.append("-");
    name.append(translator.to_string().as_str());
    name.append("-");
    name.append(tl.to_string().as_str());
    name.append("_");
    name.append(sentence);
    name
}

/// The name of the cache file of `query`, given that the patterns compile.
pub fn file_name(query: &str, sl: &Lang, tl: &Lang, translator: &Translators) -> (name: String)
    requires
        patterns_compile(),
    ensures
        name@ == fingerprint(query@, *sl, *tl, *translator),
{
    let sentence = sanitize(query);
    compose(sentence.as_str(), sl, tl, translator)
}

/// The name of the cache file of `query`, made and then looked over: it
/// is returned only where it can be the name of a file. `None` if and
/// only if one of the two patterns does not compile or the name made with
/// them still holds a character that a path must not.
pub fn try_file_name(query: &str, sl: &Lang, tl: &Lang, translator: &Translators) -> (name: Option<
    String,
>)
    ensures
        name.is_some() == (patterns_compile() && path_safe(
            fingerprint(query@, *sl, *tl, *translator),
        )),
        name matches Some(n) ==> n@ == fingerprint(query@, *sl, *tl, *translator) && path_safe(n@),
{
    if compiles(INVALID_PATH_CHARS) && compiles(MULTI_STUB) {
        let name = file_name(query, sl, tl, translator);
        if is_path_safe(name.as_str()) {
            Some(name)
        } else {
            None
        }
    } else {
        None
    }
}

/// If two texts that both lack `c` are each followed by `c` and a rest, and
/// the results are equal, then the texts are equal and so are the rests.
proof fn split_is_unique(a: Seq<char>, x: Seq<char>, b: Seq<char>, y: Seq<char>, c: char)
    requires
        !a.contains(c),
        !b.contains(c),
        a + seq![c] + x == b + seq![c] + y,
    ensures
        a == b,
        x == y,
{
    let l = a + seq![c] + x;
    let r = b + seq![c] + y;
    if a.len() < b.len() {
        assert(l[a.len() as int] == c);
        assert(r[a.len() as int] == b[a.len() as int]);
        assert(b.contains(b[a.len() as int]));
    }
    if b.len() < a.len() {
        assert(r[b.len() as int] == c);
        assert(l[b.len() as int] == a[b.len() as int]);
        assert(a.contains(a[b.len() as int]));
    }
    assert(a =~= l.take(a.len() as int));
    assert(b =~= r.take(b.len() as int));
    assert(x =~= l.skip(a.len() as int + 1));
    assert(y =~= r.skip(b.len() as int + 1));
}

/// No name of a language holds a dash or an underscore, and no two
/// languages share a name.
proof fn lang_names(a: Lang, b: Lang)
    ensures
        !a.name().contains('-'),
        !a.name().contains('_'),
        a.name() == b.name() ==> a == b,
{
    let n = a.name();
    assert forall|i: int| 0 <= i < n.len() implies n[i] != '-' && n[i] != '_' by {}
    if a.name() == b.name() {
        assert(a.name().len() == b.name().len());
        assert(a.name()[0] == b.name()[0]);
        assert(a.name()[1] == b.name()[1]);
    }
}

/// No name of a provider holds a dash or an underscore, and no two
/// providers share a name.
proof fn translator_names(a: Translators, b: Translators)
    ensures
        !a.name().contains('-'),
        !a.name().contains('_'),
        a.name() == b.name() ==> a == b,
{
    let n = a.name();
    assert forall|i: int| 0 <= i < n.len() implies n[i] != '-' && n[i] != '_' by {}
    if a.name() == b.name() {
        assert(a.name().len() == b.name().len());
        assert(a.name()[0] == b.name()[0]);
    }
}

/// Three texts without dash or underscore, joined by dashes and followed by
/// an underscore and a rest, can be read back from the result.
proof fn parts_are_unique(
    a1: Seq<char>,
    b1: Seq<char>,
    c1: Seq<char>,
    s1: Seq<char>,
    a2: Seq<char>,
    b2: Seq<char>,
    c2: Seq<char>,
    s2: Seq<char>,
)
    requires
        !a1.contains('-'),
        !a2.contains('-'),
        !b1.contains('-'),
        !b2.contains('-'),
        !c1.contains('_'),
        !c2.contains('_'),
        a1 + seq!['-'] + b1 + seq!['-'] + c1 + seq!['_'] + s1 == a2 + seq!['-'] + b2 + seq!['-']
            + c2 + seq!['_'] + s2,
    ensures
        a1 == a2,
        b1 == b2,
        c1 == c2,
        s1 == s2,
{
    let dash = seq!['-'];
    let under = seq!['_'];
    let y1 = c1 + under + s1;
    let y2 = c2 + under + s2;
    let x1 = b1 + dash + y1;
    let x2 = b2 + dash + y2;
    assert(a1 + dash + b1 + dash + c1 + under + s1 =~= a1 + dash + x1);
    assert(a2 + dash + b2 + dash + c2 + under + s2 =~= a2 + dash + x2);
    split_is_unique(a1, x1, a2, x2, '-');
    split_is_unique(b1, y1, b2, y2, '-');
    split_is_unique(c1, s1, c2, s2, '_');
}

/// A file name tells what it was made of: two of them are equal only if
/// the sanitized queries, the languages and the providers are.
pub proof fn file_names_tell_apart(
    s1: Seq<char>,
    sl1: Lang,
    tl1: Lang,
    tr1: Translators,
    s2: Seq<char>,
    sl2: Lang,
    tl2: Lang,
    tr2: Translators,
)
    requires
        composed(s1, sl1, tl1, tr1) == composed(s2, sl2, tl2, tr2),
    ensures
        s1 == s2,
        sl1 == sl2,
        tl1 == tl2,
        tr1 == tr2,
{
    lang_names(sl1, sl2);
    lang_names(sl2, sl1);
    lang_names(tl1, tl2);
    lang_names(tl2, tl1);
    translator_names(tr1, tr2);
    translator_names(tr2, tr1);
    parts_are_unique(
        sl1.name(),
        tr1.name(),
        tl1.name(),
        s1,
        sl2.name(),
        tr2.name(),
        tl2.name(),
        s2,
    );
}

/// The name of a cache file depends on nothing but the query, the two
/// languages and the provider: asked twice for the same, it is the same.
pub proof fn same_query_same_name(
    q1: Seq<char>,
    sl1: Lang,
    tl1: Lang,
    tr1: Translators,
    q2: Seq<char>,
    sl2: Lang,
    tl2: Lang,
    tr2: Translators,
)
    requires
        q1 == q2,
        sl1 == sl2,
        tl1 == tl2,
        tr1 == tr2,
    ensures
        fingerprint(q1, sl1, tl1, tr1) == fingerprint(q2, sl2, tl2, tr2),
{
}

/// Two queries that differ after sanitizing never share a cache file,
/// whatever the languages and the provider. Queries that sanitize to the
/// same text do share one.
pub proof fn distinct_queries_distinct_names(
    q1: Seq<char>,
    q2: Seq<char>,
    sl: Lang,
    tl: Lang,
    translator: Translators,
)
    ensures
        fingerprint(q1, sl, tl, translator) == fingerprint(q2, sl, tl, translator) <==> slug(q1)
            == slug(q2),
{
    if fingerprint(q1, sl, tl, translator) == fingerprint(q2, sl, tl, translator) {
        file_names_tell_apart(slug(q1), sl, tl, translator, slug(q2), sl, tl, translator);
    }
}

/// The place of the first `c` in `s`, or the length of `s` where it holds
/// none.
pub open spec fn index_of(s: Seq<char>, c: char) -> int
    decreases s.len(),
{
    if s.len() == 0 || s[0] == c {
        0
    } else {
        1 + index_of(s.drop_first(), c)
    }
}

/// The provider that is called `name`.
pub open spec fn provider_named(name: Seq<char>) -> Option<Translators> {
    if name == Translators::Google.name() {
        Some(Translators::Google)
    } else if name == Translators::Youdao.name() {
        Some(Translators::Youdao)
    } else if name == Translators::DictionaryApi.name() {
        Some(Translators::DictionaryApi)
    } else if name == Translators::Ecdict.name() {
        Some(Translators::Ecdict)
    } else {
        None
    }
}

/// The provider that a file name tells of: the one called as the text
/// between the first dash and the second.
pub open spec fn provider_in(file: Seq<char>) -> Option<Translators> {
    let a = index_of(file, '-');
    if a >= file.len() {
        None
    } else {
        let rest = file.skip(a + 1);
        let b = index_of(rest, '-');
        if b >= rest.len() {
            None
        } else {
            provider_named(rest.take(b))
        }
    }
}

fn find_char(v: &Vec<char>, from: usize, c: char) -> (at: usize)
    requires
        from <= v.len(),
    ensures
        from <= at <= v.len(),
        at - from == index_of(v@.skip(from as int), c),
{
    let mut at: usize = from;
    while at < v.len() && v[at] != c
        invariant
            from <= at <= v.len(),
            index_of(v@.skip(from as int), c) == (at - from) + index_of(v@.skip(at as int), c),
        decreases v.len() - at,
    {
        assert(v@.skip(at as int).drop_first() =~= v@.skip(at + 1));
        at += 1;
    }
    at
}

/// Reads the provider from the name of a cache file.
pub fn provider_of(file: &str) -> (r: Option<Translators>)
    ensures
        r == provider_in(file@),
{
    let v = chars_of(file);
    assert(v@.skip(0) =~= v@);
    let a = find_char(&v, 0, '-');
    if a >= v.len() {
        return None;
    }
    let b = find_char(&v, a + 1, '-');
    if b >= v.len() {
        return None;
    }
    let mut middle: Vec<char> = Vec::new();
    let mut i: usize = a + 1;
    let ghost rest = v@.skip(a + 1);
    assert(middle@ =~= rest.take(0));
    while i < b
        invariant
            a + 1 <= i <= b <= v.len(),
            rest == v@.skip(a + 1),
            middle@ == rest.take(i - (a + 1)),
        decreases b - i,
    {
        middle.push(v[i]);
        assert(rest.take(i + 1 - (a + 1)) =~= rest.take(i - (a + 1)).push(v@[i as int]));
        i += 1;
    }
    let name = string_of(&middle);
    if same_text(name.as_str(), Translators::Google.to_string().as_str()) {
        Some(Translators::Google)
    } else if same_text(name.as_str(), Translators::Youdao.to_string().as_str()) {
        Some(Translators::Youdao)
    } else if same_text(name.as_str(), Translators::DictionaryApi.to_string().as_str()) {
        Some(Translators::DictionaryApi)
    } else if same_text(name.as_str(), Translators::Ecdict.to_string().as_str()) {
        Some(Translators::Ecdict)
    } else {
        None
    }
}

/// Where the first `c` stands in a text that lacks `c`, followed by `c`
/// and a rest.
proof fn index_of_split(a: Seq<char>, x: Seq<char>, c: char)
    requires
        !a.contains(c),
    ensures
        index_of(a + seq![c] + x, c) == a.len(),
    decreases a.len(),
{
    let all = a + seq![c] + x;
    if a.len() == 0 {
        assert(all[0] == c);
    } else {
        assert(all[0] == a[0]);
        assert(a.contains(a[0]));
        let rest = a.drop_first();
        assert forall|i: int| 0 <= i < rest.len() implies rest[i] != c by {
            assert(a.contains(a[i + 1]));
        }
        assert(all.drop_first() =~= rest + seq![c] + x);
        index_of_split(rest, x, c);
    }
}

/// The name of a cache file tells its provider.
pub proof fn file_name_tells_provider(
    sentence: Seq<char>,
    sl: Lang,
    tl: Lang,
    translator: Translators,
)
    ensures
        provider_in(composed(sentence, sl, tl, translator)) == Some(translator),
{
    lang_names(sl, sl);
    translator_names(translator, Translators::Google);
    translator_names(translator, Translators::Youdao);
    translator_names(translator, Translators::DictionaryApi);
    translator_names(translator, Translators::Ecdict);
    let dash = seq!['-'];
    let tail = tl.name() + seq!['_'] + sentence;
    let rest = translator.name() + dash + tail;
    let all = composed(sentence, sl, tl, translator);
    assert(all =~= sl.name() + dash + rest);
    index_of_split(sl.name(), rest, '-');
    assert(all.skip(sl.name().len() as int + 1) =~= rest);
    index_of_split(translator.name(), tail, '-');
    assert(rest.take(translator.name().len() as int) =~= translator.name());
}

/// The settings never spoil a file name: the name made of a sanitized
/// query can be the name of a file exactly where the sanitized query can.
pub proof fn settings_are_path_safe(
    sentence: Seq<char>,
    sl: Lang,
    tl: Lang,
    translator: Translators,
)
    ensures
        path_safe(composed(sentence, sl, tl, translator)) <==> path_safe(sentence),
{
    let head = sl.name() + seq!['-'] + translator.name() + seq!['-'] + tl.name() + seq!['_'];
    let all = composed(sentence, sl, tl, translator);
    assert(all =~= head + sentence);
    assert(path_safe(sl.name()));
    assert(path_safe(tl.name()));
    assert(path_safe(translator.name()));
    assert(path_safe(head));
    if path_safe(sentence) {
        assert forall|i: int| 0 <= i < all.len() implies allowed_in_path(#[trigger] all[i]) by {
            if i >= head.len() {
                assert(all[i] == sentence[i - head.len()]);
            } else {
                assert(all[i] == head[i]);
            }
        }
    }
    if path_safe(all) {
        assert forall|i: int| 0 <= i < sentence.len() implies allowed_in_path(
            #[trigger] sentence[i],
        ) by {
            assert(all[i + head.len()] == sentence[i]);
        }
    }
}

} // verus!
