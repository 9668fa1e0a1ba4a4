//! The schedule of chapter extraction. Chapters are taken up in the order of
//! their links; a long random cooldown comes before every chapter whose
//! number is a multiple of 50; a chapter page is requested until it yields
//! the chapter text, with a growing backoff after each failure; each saved
//! chapter is followed by a short random pause.
//!
//! The decisions are a state machine: `Extraction::step` takes what the last
//! action led to and gives the next action. Whoever drives it performs the
//! actions: sleeping and requesting pages.

use crate::chapter::{chapter_from_response, response_chapter_outcome};
use crate::chapter_map::{
    chapter_entries, chapter_map_entry, chapter_map_insert, chapter_map_len, chapter_map_new,
    entry_keys, entry_values, has_key, inserted, key_slot, keys_distinct,
};
use crate::delay::{
    random_between, retry_backoff_ms, retry_cooldown_ms, LONG_COOLDOWN_MAX_MS,
    LONG_COOLDOWN_MIN_MS, MAX_RETRIES, PAUSE_MAX_MS, PAUSE_MIN_MS,
};
use crate::error::{failure_message, ScrapeError, ScrapeFailure};
use crate::response::FetchResponse;
use indexmap::IndexMap;
use vstd::prelude::*;
use vstd::string::*;

verus! {

/// Chapters whose number is a multiple of this are preceded by a long
/// cooldown.
pub const COOLDOWN_EVERY: u32 = 50;

/// Why one attempt at a chapter failed.
#[derive(Debug)]
pub enum FetchFailure {
    /// The request to the browser service failed; it carries the message.
    Request(String),
    /// The page came back but yielded no chapter.
    Page(ScrapeError),
}

/// The view of a `FetchFailure`.
pub enum FailureView {
    Request(Seq<char>),
    Page(ScrapeFailure),
}

impl View for FetchFailure {
    type V = FailureView;

    open spec fn view(&self) -> FailureView {
        match self {
            FetchFailure::Request(m) => FailureView::Request(m@),
            FetchFailure::Page(e) => FailureView::Page(e@),
        }
    }
}

impl FetchFailure {
    /// The message that describes this failure.
    pub fn message(&self) -> (r: String)
        ensures
            r@ == match self@ {
                FailureView::Request(m) => m,
                FailureView::Page(f) => failure_message(f),
            },
    {
        match self {
            FetchFailure::Request(m) => m.clone(),
            FetchFailure::Page(e) => e.message(),
        }
    }
}

/// What one attempt at a chapter gives: the chapter text, or why it failed.
pub open spec fn attempt_outcome(reply: Result<FetchResponse, String>) -> Result<
    Seq<char>,
    FailureView,
> {
    match reply {
        Err(m) => Err(FailureView::Request(m@)),
        Ok(resp) => match response_chapter_outcome(resp) {
            Ok(text) => Ok(text),
            Err(f) => Err(FailureView::Page(f)),
        },
    }
}

/// The view of an attempt's result.
pub open spec fn attempt_view(r: Result<String, FetchFailure>) -> Result<Seq<char>, FailureView> {
    match r {
        Ok(t) => Ok(t@),
        Err(f) => Err(f@),
    }
}

/// The result of one attempt at a chapter, from the browser service's reply
/// or the request's failure message.
pub fn chapter_attempt(reply: Result<FetchResponse, String>) -> (r: Result<String, FetchFailure>)
    ensures
        attempt_view(r) == attempt_outcome(reply),
{
    match reply {
        Err(m) => Err(FetchFailure::Request(m)),
        Ok(resp) => match chapter_from_response(&resp) {
            Ok(text) => Ok(text),
            Err(e) => Err(FetchFailure::Page(e)),
        },
    }
}

/// Where the extraction stands.
#[derive(Debug, Clone, Copy, PartialEq, Eq)]
pub enum Stage {
    /// Waiting out the long cooldown before the current chapter.
    CoolingDown,
    /// Waiting for an attempt at the current chapter.
    Fetching,
    /// Waiting out the backoff after a failed attempt.
    BackingOff,
    /// Waiting out the pause after the current chapter was saved.
    Pausing,
    /// Every chapter is saved.
    Done,
}

/// What the last action led to.
#[derive(Debug)]
pub enum Event {
    /// The sleep that the last action asked for is over.
    Slept,
    /// The attempt that the last action asked for gave this.
    Attempted(Result<String, FetchFailure>),
}

/// What to do next.
#[derive(Debug)]
pub enum Action {
    /// Sleep `millis` before taking up chapter `chapter`.
    CoolDown { chapter: u32, millis: u64 },
    /// Make an attempt at chapter `chapter`, whose page is at `url`.
    Fetch { chapter: u32, url: String },
    /// The attempt at chapter `chapter` failed with `failure`; sleep
    /// `millis`, then try again.
    Retry { chapter: u32, failure: FetchFailure, millis: u64 },
    /// The chapter is saved; sleep `millis`.
    Pause { millis: u64 },
    /// All chapters are saved.
    Finish,
}

/// The view of an action.
pub enum ActionView {
    CoolDown { chapter: u32, millis: u64 },
    Fetch { chapter: u32, url: Seq<char> },
    Retry { chapter: u32, failure: FailureView, millis: u64 },
    Pause { millis: u64 },
    Finish,
}

impl View for Action {
    type V = ActionView;

    open spec fn view(&self) -> ActionView {
        match self {
            Action::CoolDown { chapter, millis } => ActionView::CoolDown {
                chapter: *chapter,
                millis: *millis,
            },
            Action::Fetch { chapter, url } => ActionView::Fetch { chapter: *chapter, url: url@ },
            Action::Retry { chapter, failure, millis } => ActionView::Retry {
                chapter: *chapter,
                failure: failure@,
                millis: *millis,
            },
            Action::Pause { millis } => ActionView::Pause { millis: *millis },
            Action::Finish => ActionView::Finish,
        }
    }
}

/// The state of an extraction, as a value.
pub struct ExtractionState {
    /// The chapter links, as `(number, url)`, in order.
    pub links: Seq<(u32, Seq<char>)>,
    /// The position of the current link.
    pub position: int,
    /// The failed attempts at the current chapter so far.
    pub retries: u32,
    /// The saved chapters, as `(number, text)`, in order.
    pub chapters: Seq<(u32, Seq<char>)>,
    pub stage: Stage,
}

/// The extraction of the chapters behind a map of chapter links.
pub struct Extraction {
    links: IndexMap<u32, String>,
    position: usize,
    retries: u32,
    chapters: IndexMap<u32, String>,
    stage: Stage,
}

impl View for Extraction {
    type V = ExtractionState;

    closed spec fn view(&self) -> ExtractionState {
        ExtractionState {
            links: chapter_entries(self.links),
            position: self.position as int,
            retries: self.retries,
            chapters: chapter_entries(self.chapters),
            stage: self.stage,
        }
    }
}

/// The state is consistent: a chapter is current unless all are done.
pub open spec fn state_wf(s: ExtractionState) -> bool {
    &&& 0 <= s.position <= s.links.len()
    &&& s.stage == Stage::Done <==> s.position == s.links.len()
    &&& s.retries <= MAX_RETRIES
}

/// Taking up the link at the current position: finishing when there is
/// none, a long cooldown of `cooldown` first when its number is a multiple
/// of 50, an attempt at it otherwise.
pub open spec fn take_up(s: ExtractionState, cooldown: u64) -> (ExtractionState, ActionView) {
    if s.position >= s.links.len() {
        (ExtractionState { stage: Stage::Done, retries: 0, ..s }, ActionView::Finish)
    } else {
        let chapter = s.links[s.position].0;
        if chapter % COOLDOWN_EVERY == 0 {
            (
                ExtractionState { stage: Stage::CoolingDown, retries: 0, ..s },
                ActionView::CoolDown { chapter, millis: cooldown },
            )
        } else {
            (
                ExtractionState { stage: Stage::Fetching, retries: 0, ..s },
                ActionView::Fetch { chapter, url: s.links[s.position].1 },
            )
        }
    }
}

/// The state in which extraction of `links` starts, and its first action.
pub open spec fn initial(links: Seq<(u32, Seq<char>)>, cooldown: u64) -> (
    ExtractionState,
    ActionView,
) {
    take_up(
        ExtractionState {
            links,
            position: 0,
            retries: 0,
            chapters: Seq::empty(),
            stage: Stage::Done,
        },
        cooldown,
    )
}

/// The events that state `s` waits for: the end of a sleep, or the result
/// of an attempt. After the last computable backoff only a successful
/// attempt is taken.
pub open spec fn accepts(s: ExtractionState, e: Event) -> bool {
    match s.stage {
        Stage::Fetching => match e {
            Event::Attempted(r) => s.retries < MAX_RETRIES || r is Ok,
            Event::Slept => false,
        },
        Stage::Done => false,
        _ => e is Slept,
    }
}

/// The next state and action after event `e` in state `s`, where `cooldown`
/// and `pause` are the random lengths drawn for a long cooldown and for a
/// pause.
pub open spec fn next(s: ExtractionState, e: Event, cooldown: u64, pause: u64) -> (
    ExtractionState,
    ActionView,
) {
    let chapter = s.links[s.position].0;
    match s.stage {
        Stage::CoolingDown | Stage::BackingOff => (
            ExtractionState { stage: Stage::Fetching, ..s },
            ActionView::Fetch { chapter, url: s.links[s.position].1 },
        ),
        Stage::Fetching => match e {
            Event::Attempted(r) => match attempt_view(r) {
                Ok(text) => (
                    ExtractionState {
                        stage: Stage::Pausing,
                        retries: 0,
                        chapters: inserted(s.chapters, chapter, text),
                        ..s
                    },
                    ActionView::Pause { millis: pause },
                ),
                Err(f) => (
                    ExtractionState {
                        stage: Stage::BackingOff,
                        retries: (s.retries + 1) as u32,
                        ..s
                    },
                    ActionView::Retry {
                        chapter,
                        failure: f,
                        millis: retry_backoff_ms((s.retries + 1) as nat) as u64,
                    },
                ),
            },
            Event::Slept => (s, ActionView::Finish),
        },
        Stage::Pausing => take_up(ExtractionState { position: s.position + 1, ..s }, cooldown),
        Stage::Done => (s, ActionView::Finish),
    }
}

impl Extraction {
    /// The state is consistent.
    pub closed spec fn wf(&self) -> bool {
        &&& state_wf(self@)
        &&& self.position <= chapter_entries(self.links).len() <= usize::MAX
    }

    fn take_up_current(&mut self, cooldown: u64) -> (a: Action)
        requires
            old(self).position <= chapter_entries(old(self).links).len() <= usize::MAX,
            old(self).retries <= MAX_RETRIES,
        ensures
            (final(self)@, a@) == take_up(old(self)@, cooldown),
            final(self).links == old(self).links,
            final(self).wf(),
    {
        self.retries = 0;
        if self.position >= chapter_map_len(&self.links) {
            self.stage = Stage::Done;
            return Action::Finish;
        }
        match chapter_map_entry(&self.links, self.position) {
            Some((chapter, url)) => {
                if chapter % COOLDOWN_EVERY == 0 {
                    self.stage = Stage::CoolingDown;
                    Action::CoolDown { chapter, millis: cooldown }
                } else {
                    self.stage = Stage::Fetching;
                    Action::Fetch { chapter, url }
                }
            },
            None => {
                self.stage = Stage::Done;
                Action::Finish
            },
        }
    }

    /// Starts extracting the chapters behind `links`, with `cooldown` as the
    /// length of a long cooldown before the first chapter.
    pub fn start_with(links: IndexMap<u32, String>, cooldown: u64) -> (r: (Extraction, Action))
        ensures
            (r.0@, r.1@) == initial(chapter_entries(links), cooldown),
            r.0.wf(),
    {
        // The map's length is a `usize`.
        let _ = chapter_map_len(&links);
        let mut x = Extraction {
            links,
            position: 0,
            retries: 0,
            chapters: chapter_map_new(),
            stage: Stage::Done,
        };
        let a = x.take_up_current(cooldown);
        (x, a)
    }

    /// Starts extracting the chapters behind `links`; a long cooldown before
    /// the first chapter is drawn between 100 and 250 seconds.
    pub fn start(links: IndexMap<u32, String>) -> (r: (Extraction, Action))
        ensures
            exists|c: u64|
                LONG_COOLDOWN_MIN_MS <= c <= LONG_COOLDOWN_MAX_MS && (r.0@, r.1@) == initial(
                    chapter_entries(links),
                    c,
                ),
            r.0.wf(),
    {
        let c = random_between(LONG_COOLDOWN_MIN_MS, LONG_COOLDOWN_MAX_MS);
        Extraction::start_with(links, c)
    }

    /// Whether the extraction waits for `event` (`accepts`).
    pub fn accepts_event(&self, event: &Event) -> (r: bool)
        ensures
            r == accepts(self@, *event),
    {
        match self.stage {
            Stage::Fetching => match event {
                Event::Attempted(r) => self.retries < MAX_RETRIES || r.is_ok(),
                Event::Slept => false,
            },
            Stage::Done => false,
            _ => match event {
                Event::Slept => true,
                Event::Attempted(_) => false,
            },
        }
    }

    /// Takes `event` with `cooldown` and `pause` as the lengths of a long
    /// cooldown and of a pause, should the next action be one.
    pub fn advance(&mut self, event: Event, cooldown: u64, pause: u64) -> (a: Action)
        requires
            old(self).wf(),
            accepts(old(self)@, event),
        ensures
            (final(self)@, a@) == next(old(self)@, event, cooldown, pause),
            final(self).wf(),
    {
        let ghost e = event;
        match self.stage {
            Stage::CoolingDown | Stage::BackingOff => {
                self.stage = Stage::Fetching;
                match chapter_map_entry(&self.links, self.position) {
                    Some((chapter, url)) => Action::Fetch { chapter, url },
                    None => Action::Finish,
                }
            },
            Stage::Fetching => {
                let (chapter, _) = match chapter_map_entry(&self.links, self.position) {
                    Some(entry) => entry,
                    None => {
                        return Action::Finish;
                    },
                };
                match event {
                    Event::Attempted(Ok(text)) => {
                        chapter_map_insert(&mut self.chapters, chapter, text);
                        self.retries = 0;
                        self.stage = Stage::Pausing;
                        Action::Pause { millis: pause }
                    },
                    Event::Attempted(Err(failure)) => {
                        self.retries = self.retries + 1;
                        self.stage = Stage::BackingOff;
                        let millis = retry_cooldown_ms(self.retries);
                        Action::Retry { chapter, failure, millis }
                    },
                    Event::Slept => Action::Finish,
                }
            },
            Stage::Pausing => {
                self.position = self.position + 1;
                self.take_up_current(cooldown)
            },
            Stage::Done => Action::Finish,
        }
    }

    /// Takes `event` and gives the next action; the length of a long
    /// cooldown is drawn between 100 and 250 seconds, that of a pause
    /// between 2.5 and 7 seconds.
    pub fn step(&mut self, event: Event) -> (a: Action)
        requires
            old(self).wf(),
            accepts(old(self)@, event),
        ensures
            exists|c: u64, p: u64|
                LONG_COOLDOWN_MIN_MS <= c <= LONG_COOLDOWN_MAX_MS && PAUSE_MIN_MS <= p
                    <= PAUSE_MAX_MS && (final(self)@, a@) == next(old(self)@, event, c, p),
            final(self).wf(),
    {
        let c = random_between(LONG_COOLDOWN_MIN_MS, LONG_COOLDOWN_MAX_MS);
        let p = random_between(PAUSE_MIN_MS, PAUSE_MAX_MS);
        self.advance(event, c, p)
    }

    /// The chapters saved so far, as `(number, text)` in order.
    pub fn chapters(&self) -> (r: &IndexMap<u32, String>)
        ensures
            chapter_entries(*r) == self@.chapters,
    {
        &self.chapters
    }

    /// The chapters saved, the extraction being over.
    pub fn into_chapters(self) -> (r: IndexMap<u32, String>)
        ensures
            chapter_entries(r) == self@.chapters,
    {
        self.chapters
    }
}


/// The chapters saved so far are those of the links taken up so far, in the
/// same order: the links before the current one, and the current one too
/// once it is saved.
pub open spec fn chapters_follow_links(s: ExtractionState) -> bool {
    let saved = if s.stage == Stage::Pausing {
        s.position + 1
    } else {
        s.position
    };
    &&& saved <= s.links.len()
    &&& entry_keys(s.chapters) == entry_keys(s.links).take(saved)
}

/// Extraction starts consistent, with no chapter saved.
pub proof fn lemma_initial_state(links: Seq<(u32, Seq<char>)>, cooldown: u64)
    ensures
        state_wf(initial(links, cooldown).0),
        chapters_follow_links(initial(links, cooldown).0),
        initial(links, cooldown).0.chapters.len() == 0,
{
    let s = initial(links, cooldown).0;
    assert(entry_keys(s.chapters) =~= entry_keys(links).take(0));
}

/// The text that event `e` saves in state `s`: that of a successful
/// attempt, or none.
pub open spec fn saved_text(s: ExtractionState, e: Event) -> Seq<Seq<char>> {
    if s.stage == Stage::Fetching {
        match e {
            Event::Attempted(Ok(t)) => seq![t@],
            _ => seq![],
        }
    } else {
        seq![]
    }
}

/// Every step keeps the state consistent and the saved chapters in the
/// order of their links, and adds to the saved texts exactly the text of a
/// successful attempt (the links' numbers being distinct, as in any
/// chapter map).
pub proof fn lemma_step_keeps_order(s: ExtractionState, e: Event, cooldown: u64, pause: u64)
    requires
        state_wf(s),
        keys_distinct(s.links),
        chapters_follow_links(s),
        accepts(s, e),
    ensures
        state_wf(next(s, e, cooldown, pause).0),
        chapters_follow_links(next(s, e, cooldown, pause).0),
        next(s, e, cooldown, pause).0.links == s.links,
        entry_values(next(s, e, cooldown, pause).0.chapters) == entry_values(s.chapters)
            + saved_text(s, e),
{
    let t = next(s, e, cooldown, pause).0;
    if s.stage == Stage::Fetching {
        if let Event::Attempted(r) = e {
            if let Ok(text) = attempt_view(r) {
                let k = s.links[s.position].0;
                let keys = entry_keys(s.chapters);
                assert(!has_key(s.chapters, k)) by {
                    if has_key(s.chapters, k) {
                        let j = choose|j: int| key_slot(s.chapters, k, j);
                        assert(keys.len() == s.position);
                        assert(keys[j] == s.chapters[j].0);
                        assert(keys[j] == entry_keys(s.links).take(s.position)[j]);
                        assert(entry_keys(s.links).take(s.position)[j] == s.links[j].0);
                        assert(s.links[j].0 == k);
                        assert(s.links[j].0 != s.links[s.position].0);
                    }
                }
                assert(t.chapters == s.chapters.push((k, text)));
                assert(entry_keys(t.chapters) =~= keys.push(k));
                assert(entry_keys(s.links).take(s.position + 1) =~= entry_keys(s.links).take(
                    s.position,
                ).push(k));
                assert(entry_keys(t.chapters) =~= entry_keys(s.links).take(s.position + 1));
                assert(entry_values(t.chapters) =~= entry_values(s.chapters) + saved_text(s, e));
            } else {
                assert(entry_values(t.chapters) =~= entry_values(s.chapters) + saved_text(s, e));
            }
        }
    } else {
        assert(entry_values(t.chapters) =~= entry_values(s.chapters) + saved_text(s, e));
    }
}

/// Once extraction is done, the saved chapters are those of all the links,
/// in the links' order.
pub proof fn lemma_done_saves_every_link(s: ExtractionState)
    requires
        state_wf(s),
        chapters_follow_links(s),
        s.stage == Stage::Done,
    ensures
        entry_keys(s.chapters) == entry_keys(s.links),
{
    assert(entry_keys(s.links).take(s.links.len() as int) =~= entry_keys(s.links));
}


/// One failed attempt at the current chapter and the end of the backoff
/// after it: the state then, the `Retry` action and the `Fetch` action.
pub open spec fn retry_round(s: ExtractionState, f: FetchFailure, cooldown: u64, pause: u64) -> (
    ExtractionState,
    ActionView,
    ActionView,
) {
    let (t, retry) = next(s, Event::Attempted(Err(f)), cooldown, pause);
    let (u, fetch) = next(t, Event::Slept, cooldown, pause);
    (u, retry, fetch)
}

/// The state after the failed attempts `fails`, each followed by its
/// backoff.
pub open spec fn after_failures(
    s: ExtractionState,
    fails: Seq<FetchFailure>,
    cooldown: u64,
    pause: u64,
) -> ExtractionState
    decreases fails.len(),
{
    if fails.len() == 0 {
        s
    } else {
        retry_round(after_failures(s, fails.drop_last(), cooldown, pause), fails.last(), cooldown, pause).0
    }
}

/// A failed attempt at the current chapter asks for the backoff of one more
/// failure, then for the same page again; only the count of failures
/// changes.
pub proof fn lemma_retry_round(s: ExtractionState, f: FetchFailure, cooldown: u64, pause: u64)
    requires
        state_wf(s),
        s.stage == Stage::Fetching,
        s.retries < MAX_RETRIES,
    ensures
        retry_round(s, f, cooldown, pause).0 == (ExtractionState {
            retries: (s.retries + 1) as u32,
            ..s
        }),
        retry_round(s, f, cooldown, pause).1 == (ActionView::Retry {
            chapter: s.links[s.position].0,
            failure: f@,
            millis: retry_backoff_ms((s.retries + 1) as nat) as u64,
        }),
        retry_round(s, f, cooldown, pause).2 == (ActionView::Fetch {
            chapter: s.links[s.position].0,
            url: s.links[s.position].1,
        }),
{
}

/// After failed attempts `fails` the extraction stands where it stood, at
/// the same chapter, with as many more failures counted.
pub proof fn lemma_after_failures(
    s: ExtractionState,
    fails: Seq<FetchFailure>,
    cooldown: u64,
    pause: u64,
)
    requires
        state_wf(s),
        s.stage == Stage::Fetching,
        s.retries + fails.len() <= MAX_RETRIES,
    ensures
        after_failures(s, fails, cooldown, pause) == (ExtractionState {
            retries: (s.retries + fails.len()) as u32,
            ..s
        }),
    decreases fails.len(),
{
    if fails.len() > 0 {
        lemma_after_failures(s, fails.drop_last(), cooldown, pause);
        let r = after_failures(s, fails.drop_last(), cooldown, pause);
        lemma_retry_round(r, fails.last(), cooldown, pause);
    }
}

/// A chapter that succeeds after failed attempts `fails` comes out as it
/// would at the first attempt: the `k`-th failure is answered with the
/// backoff of `k` failures (60, 120, 240, then 300 seconds) and a new
/// request for the same page, and the success saves the same chapter and
/// leads to the same pause.
pub proof fn lemma_retries_then_success(
    s: ExtractionState,
    fails: Seq<FetchFailure>,
    text: String,
    cooldown: u64,
    pause: u64,
)
    requires
        state_wf(s),
        s.stage == Stage::Fetching,
        s.retries == 0,
        fails.len() <= MAX_RETRIES,
    ensures
        forall|k: int|
            0 <= k < fails.len() ==> {
                let round = #[trigger] retry_round(
                    after_failures(s, fails.take(k), cooldown, pause),
                    fails[k],
                    cooldown,
                    pause,
                );
                &&& round.1 == ActionView::Retry {
                    chapter: s.links[s.position].0,
                    failure: fails[k]@,
                    millis: retry_backoff_ms((k + 1) as nat) as u64,
                }
                &&& round.2 == ActionView::Fetch {
                    chapter: s.links[s.position].0,
                    url: s.links[s.position].1,
                }
            },
        next(after_failures(s, fails, cooldown, pause), Event::Attempted(Ok(text)), cooldown, pause)
            == next(s, Event::Attempted(Ok(text)), cooldown, pause),
{
    assert forall|k: int| 0 <= k < fails.len() implies {
        let round = #[trigger] retry_round(
            after_failures(s, fails.take(k), cooldown, pause),
            fails[k],
            cooldown,
            pause,
        );
        &&& round.1 == ActionView::Retry {
            chapter: s.links[s.position].0,
            failure: fails[k]@,
            millis: retry_backoff_ms((k + 1) as nat) as u64,
        }
        &&& round.2 == ActionView::Fetch {
            chapter: s.links[s.position].0,
            url: s.links[s.position].1,
        }
    } by {
        lemma_after_failures(s, fails.take(k), cooldown, pause);
        lemma_retry_round(after_failures(s, fails.take(k), cooldown, pause), fails[k], cooldown, pause);
    }
    lemma_after_failures(s, fails, cooldown, pause);
}


/// The state after events `events`, where the `k`-th step draws the lengths
/// `draws[k]` for a long cooldown and a pause.
pub open spec fn run(s: ExtractionState, events: Seq<Event>, draws: Seq<(u64, u64)>) -> ExtractionState
    decreases events.len(),
{
    if events.len() == 0 || draws.len() == 0 {
        s
    } else {
        next(
            run(s, events.drop_last(), draws.drop_last()),
            events.last(),
            draws.last().0,
            draws.last().1,
        ).0
    }
}

/// Each event of `events` is one that the state it comes to waits for.
pub open spec fn run_accepted(s: ExtractionState, events: Seq<Event>, draws: Seq<(u64, u64)>) -> bool
    decreases events.len(),
{
    if events.len() == 0 || draws.len() == 0 {
        true
    } else {
        run_accepted(s, events.drop_last(), draws.drop_last()) && accepts(
            run(s, events.drop_last(), draws.drop_last()),
            events.last(),
        )
    }
}

/// The texts that the successful attempts among `events` save, in order.
pub open spec fn saved_texts(s: ExtractionState, events: Seq<Event>, draws: Seq<(u64, u64)>) -> Seq<
    Seq<char>,
>
    decreases events.len(),
{
    if events.len() == 0 || draws.len() == 0 {
        seq![]
    } else {
        saved_texts(s, events.drop_last(), draws.drop_last()) + saved_text(
            run(s, events.drop_last(), draws.drop_last()),
            events.last(),
        )
    }
}

/// Over a whole run, the saved chapters stay in the order of their links and
/// the text saved under each link is the text of the successful attempt at
/// it: the saved texts are those saved before, followed by the texts of the
/// successful attempts, in order.
pub proof fn lemma_run_saves_attempt_texts(
    s: ExtractionState,
    events: Seq<Event>,
    draws: Seq<(u64, u64)>,
)
    requires
        state_wf(s),
        keys_distinct(s.links),
        chapters_follow_links(s),
        events.len() == draws.len(),
        run_accepted(s, events, draws),
    ensures
        state_wf(run(s, events, draws)),
        chapters_follow_links(run(s, events, draws)),
        run(s, events, draws).links == s.links,
        entry_values(run(s, events, draws).chapters) == entry_values(s.chapters) + saved_texts(
            s,
            events,
            draws,
        ),
    decreases events.len(),
{
    if events.len() == 0 {
        assert(entry_values(s.chapters) + saved_texts(s, events, draws) =~= entry_values(
            s.chapters,
        ));
    } else {
        let before = run(s, events.drop_last(), draws.drop_last());
        lemma_run_saves_attempt_texts(s, events.drop_last(), draws.drop_last());
        lemma_step_keeps_order(before, events.last(), draws.last().0, draws.last().1);
        assert(entry_values(s.chapters) + saved_texts(s, events, draws) =~= entry_values(
            s.chapters,
        ) + saved_texts(s, events.drop_last(), draws.drop_last()) + saved_text(
            before,
            events.last(),
        ));
    }
}

/// From the start of an extraction, the chapter saved `k`-th is that of the
/// `k`-th link, with the `k`-th successfully extracted text.
pub proof fn lemma_extraction_saves_attempt_texts(
    links: Seq<(u32, Seq<char>)>,
    cooldown: u64,
    events: Seq<Event>,
    draws: Seq<(u64, u64)>,
)
    requires
        keys_distinct(links),
        events.len() == draws.len(),
        run_accepted(initial(links, cooldown).0, events, draws),
    ensures
        ({
            let end = run(initial(links, cooldown).0, events, draws);
            let texts = saved_texts(initial(links, cooldown).0, events, draws);
            &&& end.chapters.len() == texts.len()
            &&& forall|k: int|
                0 <= k < texts.len() ==> #[trigger] end.chapters[k] == (links[k].0, texts[k])
        }),
{
    let s = initial(links, cooldown).0;
    lemma_initial_state(links, cooldown);
    lemma_run_saves_attempt_texts(s, events, draws);
    let end = run(s, events, draws);
    let texts = saved_texts(s, events, draws);
    assert(entry_values(s.chapters) =~= Seq::<Seq<char>>::empty());
    assert(entry_values(end.chapters) =~= texts);
    assert forall|k: int| 0 <= k < texts.len() implies #[trigger] end.chapters[k] == (
        links[k].0,
        texts[k],
    ) by {
        assert(entry_values(end.chapters)[k] == end.chapters[k].1);
        assert(entry_keys(end.chapters)[k] == end.chapters[k].0);
        let saved = if end.stage == Stage::Pausing {
            end.position + 1
        } else {
            end.position
        };
        assert(end.links == links);
        assert(saved <= links.len());
        assert(entry_keys(end.chapters) == entry_keys(links).take(saved));
        assert(entry_keys(end.chapters).len() == end.chapters.len());
        assert(k < saved);
        assert(entry_keys(links).take(saved)[k] == entry_keys(links)[k]);
        assert(entry_keys(links)[k] == links[k].0);
    }
}


/// Taking up a chapter asks for a long cooldown exactly when its number is
/// a multiple of 50, and then of the drawn length; any other chapter is
/// requested at once, from its own link.
pub proof fn lemma_cooldown_every_fiftieth(s: ExtractionState, cooldown: u64)
    requires
        0 <= s.position < s.links.len(),
    ensures
        (take_up(s, cooldown).1 is CoolDown) <==> s.links[s.position].0 % 50 == 0,
        s.links[s.position].0 % 50 == 0 ==> take_up(s, cooldown).1 == (ActionView::CoolDown {
            chapter: s.links[s.position].0,
            millis: cooldown,
        }),
        s.links[s.position].0 % 50 != 0 ==> take_up(s, cooldown).1 == (ActionView::Fetch {
            chapter: s.links[s.position].0,
            url: s.links[s.position].1,
        }),
{
}

/// The first action of an extraction: a long cooldown exactly when the
/// first chapter's number is a multiple of 50, a request for it otherwise,
/// and `Finish` when there is no link.
pub proof fn lemma_first_action(links: Seq<(u32, Seq<char>)>, cooldown: u64)
    ensures
        links.len() == 0 ==> initial(links, cooldown).1 == ActionView::Finish,
        links.len() > 0 && links[0].0 % 50 == 0 ==> initial(links, cooldown).1
            == (ActionView::CoolDown { chapter: links[0].0, millis: cooldown }),
        links.len() > 0 && links[0].0 % 50 != 0 ==> initial(links, cooldown).1
            == (ActionView::Fetch { chapter: links[0].0, url: links[0].1 }),
{
}

/// After the pause that follows a saved chapter, the next chapter gets a
/// long cooldown exactly when its number is a multiple of 50, and is
/// requested at once otherwise; after the last chapter comes `Finish`.
pub proof fn lemma_action_after_pause(s: ExtractionState, cooldown: u64, pause: u64)
    requires
        state_wf(s),
        s.stage == Stage::Pausing,
    ensures
        s.position + 1 == s.links.len() ==> next(s, Event::Slept, cooldown, pause).1
            == ActionView::Finish,
        s.position + 1 < s.links.len() && s.links[s.position + 1].0 % 50 == 0 ==> next(
            s,
            Event::Slept,
            cooldown,
            pause,
        ).1 == (ActionView::CoolDown { chapter: s.links[s.position + 1].0, millis: cooldown }),
        s.position + 1 < s.links.len() && s.links[s.position + 1].0 % 50 != 0 ==> next(
            s,
            Event::Slept,
            cooldown,
            pause,
        ).1 == (ActionView::Fetch {
            chapter: s.links[s.position + 1].0,
            url: s.links[s.position + 1].1,
        }),
{
}

} // verus!
