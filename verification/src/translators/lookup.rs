//! One lookup: the cache first, the provider where the cache has no
//! answer, and the answer kept for the next time.

use super::file_names::{file_name, fingerprint, path_safe, patterns_compile, try_file_name};
use super::{Context, Lang, Request, Translators};
use crate::cache::{after_get, after_set, answer, CacheDir, FileView};
use crate::errors::Error;
use crate::json::{Json, JsonView};
use crate::text::{join, joined, views};
use vstd::prelude::*;
use vstd::string::*;

verus! {

/// What one lookup was asked to do.
#[derive(Clone, Debug, PartialEq, Eq)]
pub struct QueryArgs {
    /// The provider to ask.
    pub translator: Translators,
    /// The language of the words.
    pub source_lang: Lang,
    /// The language to translate to.
    pub target_lang: Lang,
    /// Whether to show more than the translation.
    pub more: bool,
    /// Whether to leave the cache alone.
    pub no_cache: bool,
    /// Whether to tell what is going on.
    pub verbose: bool,
    /// The words to translate.
    pub words: Vec<String>,
}

impl QueryArgs {
    /// The query: the words with a space between each two.
    pub open spec fn query(self) -> Seq<char> {
        joined(views(self.words@), " "@)
    }

    /// Whether this lookup reads and writes the cache: the user did not
    /// switch it off, the provider does not opt out, and a name can be
    /// made for the file that is fit to be one.
    pub open spec fn caching(self) -> bool {
        !self.no_cache && !self.translator.skips_cache() && patterns_compile() && path_safe(
            self.key(),
        )
    }

    /// The name of the cache file of this lookup.
    pub open spec fn key(self) -> Seq<char> {
        fingerprint(self.query(), self.source_lang, self.target_lang, self.translator)
    }

    /// The answer that the cache holds for this lookup at `now`, where the
    /// lookup reads the cache and the read finds one.
    pub open spec fn cached(self, files: Seq<FileView>, now: u64, ttl: u64) -> Option<
        JsonView,
    > {
        if self.caching() {
            match answer(files, self.key(), now, ttl) {
                Ok(value) => Some(value),
                Err(_) => None,
            }
        } else {
            None
        }
    }

    /// The event with which the reading of the cache ends.
    pub open spec fn looked_up(self, files: Seq<FileView>, now: u64, ttl: u64) -> Event {
        if self.cached(files, now, ttl).is_some() {
            Event::CacheHit
        } else {
            Event::CacheMiss
        }
    }

    /// The state in which beginning the lookup leaves it: that of asking
    /// the provider, or that of having shown the answer, which the cache
    /// held.
    pub open spec fn begun(self, files: Seq<FileView>, now: u64, ttl: u64) -> State {
        match State::Init.after(Event::Begun { caching: self.caching() }) {
            Some(State::CacheLookup) => match State::CacheLookup.after(
                self.looked_up(files, now, ttl),
            ) {
                Some(state) => state,
                None => State::CacheLookup,
            },
            Some(state) => state,
            None => State::Init,
        }
    }

    /// The name of the cache file of this lookup, where the lookup reads
    /// and writes the cache.
    pub fn cache_key(&self) -> (r: Option<String>)
        ensures
            r.is_some() == self.caching(),
            r matches Some(name) ==> name@ == self.key() && path_safe(name@),
    {
        if self.no_cache || self.translator.forces_no_cache() {
            return None;
        }
        let words = join(&self.words, " ");
        try_file_name(words.as_str(), &self.source_lang, &self.target_lang, &self.translator)
    }
}

/// Where a lookup stands.
#[derive(Clone, Copy, Debug, PartialEq, Eq, Structural)]
pub enum State {
    /// Nothing has been done yet.
    Init,
    /// The cache is being read.
    CacheLookup,
    /// The provider is being asked.
    Fetch,
    /// The answer has been shown. The lookup is over.
    Rendered,
    /// The provider's failure has been reported. The lookup is over.
    ReportedError,
}

/// What the caller is to do after a step of a lookup.
#[derive(Clone, Debug, PartialEq, Eq)]
pub enum Step {
    /// Ask the provider this, and come back with what it said.
    Fetch(Request),
    /// Write this out: the answer as the provider shows it.
    Render(String),
    /// Tell the user of this failure. There is no answer.
    Report(Error),
}

impl Step {
    /// The state that the lookup is in after this step.
    pub open spec fn state(self) -> State {
        match self {
            Step::Fetch(_) => State::Fetch,
            Step::Render(_) => State::Rendered,
            Step::Report(_) => State::ReportedError,
        }
    }

    pub fn reached(&self) -> (state: State)
        ensures
            state == self.state(),
    {
        match self {
            Step::Fetch(_) => State::Fetch,
            Step::Render(_) => State::Rendered,
            Step::Report(_) => State::ReportedError,
        }
    }
}

/// What can happen to a lookup.
#[derive(Clone, Copy, Debug, PartialEq, Eq, Structural)]
pub enum Event {
    /// The lookup begins; `caching` tells whether it uses the cache.
    Begun { caching: bool },
    /// The cache holds an answer that is still alive.
    CacheHit,
    /// The cache holds no answer to use: none was found, or it has
    /// expired, or the file is corrupt or cannot be read.
    CacheMiss,
    /// The provider answered.
    FetchOk,
    /// The provider failed.
    FetchErr,
}

impl State {
    /// Whether the lookup is over.
    pub open spec fn terminal(self) -> bool {
        self == State::Rendered || self == State::ReportedError
    }

    pub fn is_terminal(&self) -> (b: bool)
        ensures
            b == self.terminal(),
    {
        match self {
            State::Rendered => true,
            State::ReportedError => true,
            _ => false,
        }
    }

    /// The state that `event` leads to from this one; `None` where the
    /// event cannot happen in this state.
    pub open spec fn after(self, event: Event) -> Option<State> {
        match (self, event) {
            (State::Init, Event::Begun { caching }) => Some(
                if caching {
                    State::CacheLookup
                } else {
                    State::Fetch
                },
            ),
            (State::CacheLookup, Event::CacheHit) => Some(State::Rendered),
            (State::CacheLookup, Event::CacheMiss) => Some(State::Fetch),
            (State::Fetch, Event::FetchOk) => Some(State::Rendered),
            (State::Fetch, Event::FetchErr) => Some(State::ReportedError),
            _ => None,
        }
    }

    pub fn next(&self, event: &Event) -> (r: Option<State>)
        ensures
            r == self.after(*event),
    {
        match (self, event) {
            (State::Init, Event::Begun { caching }) => Some(
                if *caching {
                    State::CacheLookup
                } else {
                    State::Fetch
                },
            ),
            (State::CacheLookup, Event::CacheHit) => Some(State::Rendered),
            (State::CacheLookup, Event::CacheMiss) => Some(State::Fetch),
            (State::Fetch, Event::FetchOk) => Some(State::Rendered),
            (State::Fetch, Event::FetchErr) => Some(State::ReportedError),
            _ => None,
        }
    }
}

/// Every lookup comes to an end, and nothing follows the end: from the
/// start no more than three events can happen in a row, the last of them
/// ends the lookup, and in a state that ends it no event can happen.
pub proof fn a_lookup_ends(first: Event, second: Event, third: Event, more: Event)
    ensures
        State::Rendered.after(more).is_none(),
        State::ReportedError.after(more).is_none(),
        State::Init.after(first) matches Some(a) ==> !a.terminal() && (a.after(second) matches Some(
            b,
        ) ==> b.terminal() || (b.after(third) matches Some(c) ==> c.terminal())),
{
}

/// The provider is asked unless the cache answered: a lookup that ends
/// without having been in the state of asking the provider has ended with
/// an answer from the cache, and a lookup that is told of a failure has
/// asked the provider.
pub proof fn only_a_hit_spares_the_provider(first: Event, second: Event)
    ensures
        State::Init.after(first) matches Some(a) ==> (a.after(second) matches Some(b) ==> (b.terminal()
            && a != State::Fetch ==> second == Event::CacheHit && b == State::Rendered)),
        State::Init.after(first) matches Some(a) ==> (a.after(second) == Some(State::ReportedError)
            ==> a == State::Fetch),
{
}

/// Stores `value` as the answer to `query`.
pub fn save(
    dir: &mut CacheDir,
    query: &str,
    sl: &Lang,
    tl: &Lang,
    translator: &Translators,
    value: &Json,
    now: u64,
) -> (ok: bool)
    requires
        patterns_compile(),
    ensures
        ok == crate::cache::written(fingerprint(query@, *sl, *tl, *translator), value@, now).is_some(),
        final(dir)@ == after_set(
            old(dir)@,
            fingerprint(query@, *sl, *tl, *translator),
            value@,
            now,
        ),
{
    let file_name = file_name(query, sl, tl, translator);
    crate::cache::set(dir, file_name.as_str(), value, now)
}

/// Reads the answer to `query` from the cache.
pub fn load(
    dir: &mut CacheDir,
    query: &str,
    sl: &Lang,
    tl: &Lang,
    translator: &Translators,
    now: u64,
    ttl: u64,
) -> (r: Result<Json, Error>)
    requires
        patterns_compile(),
    ensures
        final(dir)@ == after_get(old(dir)@, fingerprint(query@, *sl, *tl, *translator), now, ttl),
        match answer(old(dir)@, fingerprint(query@, *sl, *tl, *translator), now, ttl) {
            Ok(value) => r matches Ok(got) && got@ == value,
            Err(kind) => r matches Err(e) && kind.told_by(
                e,
                fingerprint(query@, *sl, *tl, *translator),
            ),
        },
{
    let file_name = file_name(query, sl, tl, translator);
    crate::cache::get(dir, file_name.as_str(), now, ttl)
}

/// Begins a lookup. Where the lookup uses the cache and the cache holds
/// an answer that is still alive, the answer is shown and the provider is
/// not asked. In every other case the provider is to be asked: a miss of
/// whatever kind is no failure of the lookup.
pub fn translate(args: &QueryArgs, dir: &mut CacheDir, context: &Context, ttl: u64) -> (step: Step)
    ensures
        step.state() == args.begun(old(dir)@, context.now, ttl),
        final(dir)@ == if args.caching() {
            after_get(old(dir)@, args.key(), context.now, ttl)
        } else {
            old(dir)@
        },
        match args.cached(old(dir)@, context.now, ttl) {
            Some(value) => step matches Step::Render(text) && text@ == args.translator.shown(
                value,
                args.more,
            ),
            None => step matches Step::Fetch(request) && request@ == args.translator.request(
                args.query(),
                args.source_lang,
                args.target_lang,
                context@,
            ),
        },
{
    let words = join(&args.words, " ");
    if args.cache_key().is_some() {
        match load(
            dir,
            words.as_str(),
            &args.source_lang,
            &args.target_lang,
            &args.translator,
            context.now,
            ttl,
        ) {
            Ok(response) => {
                return Step::Render(args.translator.show(&response, args.more));
            },
            Err(_) => {},
        }
    }
    Step::Fetch(
        args.translator.translate(words.as_str(), &args.source_lang, &args.target_lang, context),
    )
}

/// Ends a lookup with what asking the provider gave. An answer is kept in
/// the cache, where the lookup uses it, and shown, whether or not it could
/// be kept. A failure is reported; nothing is shown or kept then.
pub fn conclude(args: &QueryArgs, dir: &mut CacheDir, outcome: Result<Json, Error>, now: u64) -> (step:
    Step)
    ensures
        Some(step.state()) == State::Fetch.after(
            if outcome.is_ok() {
                Event::FetchOk
            } else {
                Event::FetchErr
            },
        ),
        match outcome {
            Ok(raw) => {
                let response = args.translator.received(raw@);
                &&& step matches Step::Render(text) && text@ == args.translator.shown(
                    response,
                    args.more,
                )
                &&& final(dir)@ == if args.caching() {
                    after_set(old(dir)@, args.key(), response, now)
                } else {
                    old(dir)@
                }
            },
            Err(e) => step == Step::Report(e) && final(dir)@ == old(dir)@,
        },
{
    match outcome {
        Ok(raw) => {
            let response = args.translator.receive(raw);
            if args.cache_key().is_some() {
                let words = join(&args.words, " ");
                save(
                    dir,
                    words.as_str(),
                    &args.source_lang,
                    &args.target_lang,
                    &args.translator,
                    &response,
                    now,
                );
            }
            Step::Render(args.translator.show(&response, args.more))
        },
        Err(e) => Step::Report(e),
    }
}

/// An answer that was kept is shown again without asking: where a lookup
/// that uses the cache ends with an answer at `now`, the same lookup begun
/// at any `later` that the record has not outlived finds the answer in the
/// cache, leaves the cache as it is, and has nothing to fetch. This holds
/// of every answer that could be written and reads back from its own text
/// as itself.
pub proof fn kept_answer_is_found(
    args: QueryArgs,
    files: Seq<FileView>,
    raw: JsonView,
    now: u64,
    later: u64,
    ttl: u64,
)
    requires
        args.caching(),
        crate::cache::written(args.key(), args.translator.received(raw), now).is_some(),
        crate::cache::fresh(now, ttl, later),
        crate::json::json_text(args.translator.received(raw)) matches Some(text)
            && crate::json::parsed_json(text) == Some(args.translator.received(raw)),
    ensures
        args.cached(after_set(files, args.key(), args.translator.received(raw), now), later, ttl)
            == Some(args.translator.received(raw)),
        args.begun(after_set(files, args.key(), args.translator.received(raw), now), later, ttl)
            == State::Rendered,
        after_get(
            after_set(files, args.key(), args.translator.received(raw), now),
            args.key(),
            later,
            ttl,
        ) == after_set(files, args.key(), args.translator.received(raw), now),
{
    crate::cache::get_after_set(
        files,
        args.key(),
        args.translator.received(raw),
        now,
        later,
        ttl,
    );
}

} // verus!
