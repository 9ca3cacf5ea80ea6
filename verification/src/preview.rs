//! The state of a live preview: the last page that rendered well, the
//! generation that counts the attempts to render, and the connections that
//! wait for the next generation. Requests and changes come in as calls; what
//! to answer, whom to wake and whether to render comes back. Only a render
//! that is reported through `finish_render` moves the page or the generation.

use vstd::prelude::*;
use crate::error::DeckError;
use crate::decimal::{decimal_text, decimal_value, parse_decimal, push_decimal};
use crate::text::{
    chars_of, find_from, position_of, push_str, same_chars, slice_of, starts_with, string_of,
};

verus! {

/// Where the server is in its life.
#[derive(Clone, Copy, PartialEq, Eq, Structural, Debug)]
pub enum Phase {
    /// The first page is being rendered: there is no state to serve from
    /// yet, and there will be none if that render fails.
    Starting,
    /// Requests are answered.
    Serving,
    /// A change was signalled and the page is being rendered anew.
    Rerendering,
    /// The server was told to stop.
    Stopping,
    /// Nothing is answered any more.
    Stopped,
}

/// A connection that waits for a generation after the one it has seen.
#[derive(Clone, Copy, PartialEq, Eq, Structural, Debug)]
pub struct Waiter {
    /// What the server knows the connection by.
    pub id: u64,
    /// The generation that the connection has seen.
    pub since: u64,
}

/// The answer to a connection that asks to wait.
#[derive(Clone, Copy, PartialEq, Eq, Structural, Debug)]
pub enum WaitReply {
    /// A newer generation is there: reload now.
    Reload(u64),
    /// None is there yet: the connection waits.
    Pending,
    /// The server stops: the connection is let go.
    Closed,
}

/// What a request asks for.
#[derive(Clone, Copy, PartialEq, Eq, Structural, Debug)]
pub enum Route {
    /// The page.
    Page,
    /// To wait for a generation after `since`.
    Wait { since: u64 },
    /// Nothing that the server has.
    NotFound,
}

/// The state of a preview.
pub struct PreviewState {
    phase: Phase,
    last_good_page: String,
    generation: u64,
    waiters: Vec<Waiter>,
}

/// What a preview state is, for the contracts.
pub struct PreviewModel {
    pub phase: Phase,
    pub last_good_page: Seq<char>,
    pub generation: nat,
    pub waiters: Seq<Waiter>,
}

/// Whether the server has begun to stop.
pub open spec fn is_closing(phase: Phase) -> bool {
    phase == Phase::Stopping || phase == Phase::Stopped
}

/// The answer to a connection that has seen the generation `since`.
pub open spec fn reply_to(state: PreviewModel, since: u64) -> WaitReply {
    if is_closing(state.phase) {
        WaitReply::Closed
    } else if state.generation > since {
        WaitReply::Reload(state.generation as u64)
    } else {
        WaitReply::Pending
    }
}

/// The state after a connection has asked to wait: it joins those that wait
/// where it was told to.
pub open spec fn after_wait(state: PreviewModel, id: u64, since: u64) -> PreviewModel {
    if reply_to(state, since) == WaitReply::Pending {
        PreviewModel { waiters: state.waiters.push(Waiter { id, since }), ..state }
    } else {
        state
    }
}

/// The state after a change was signalled: a serving server renders anew.
pub open spec fn after_change(state: PreviewModel) -> PreviewModel {
    if state.phase == Phase::Serving {
        PreviewModel { phase: Phase::Rerendering, ..state }
    } else {
        state
    }
}

/// The state after the outcome of a render has come in: `page` is the new
/// page, or `None` where the render failed. The generation advances either
/// way, the page only changes to a new page, and nobody is left waiting.
/// Outside of a render nothing changes.
pub open spec fn after_render(state: PreviewModel, page: Option<Seq<char>>) -> PreviewModel {
    if state.phase == Phase::Rerendering {
        PreviewModel {
            phase: Phase::Serving,
            last_good_page: match page {
                Some(text) => text,
                None => state.last_good_page,
            },
            generation: state.generation + 1,
            waiters: Seq::empty(),
        }
    } else {
        state
    }
}

/// Those that are woken when the outcome of a render comes in: every
/// connection that waits.
pub open spec fn woken_by_render(state: PreviewModel) -> Seq<Waiter> {
    if state.phase == Phase::Rerendering {
        state.waiters
    } else {
        Seq::empty()
    }
}

/// The state after the server was told to stop.
pub open spec fn after_stop(state: PreviewModel) -> PreviewModel {
    if state.phase == Phase::Stopped {
        state
    } else {
        PreviewModel { phase: Phase::Stopping, waiters: Seq::empty(), ..state }
    }
}

/// The state after the listener has closed.
pub open spec fn after_close(state: PreviewModel) -> PreviewModel {
    if state.phase == Phase::Stopping {
        PreviewModel { phase: Phase::Stopped, ..state }
    } else {
        state
    }
}

/// What the page of a render's outcome is, where it has one.
pub open spec fn page_of(outcome: Result<String, DeckError>) -> Option<Seq<char>> {
    match outcome {
        Ok(page) => Some(page@),
        Err(_) => None,
    }
}

/// A state is well formed when every connection that waits has seen the
/// current generation or claims a later one, and nobody waits on a server
/// that stops.
pub open spec fn well_formed(state: PreviewModel) -> bool {
    &&& state.generation <= u64::MAX
    &&& forall|i: int| 0 <= i < state.waiters.len() ==> (#[trigger] state.waiters[i]).since
        >= state.generation
    &&& is_closing(state.phase) ==> state.waiters.len() == 0
}

/// A render that fails is not fatal: the page stays what it was, the
/// generation advances, and a connection that has seen the generation before
/// is told to reload, upon which it gets the page that stayed.
pub proof fn failed_render_keeps_page(state: PreviewModel, since: u64)
    requires
        well_formed(state),
        state.phase == Phase::Rerendering,
        state.generation < u64::MAX,
        since <= state.generation,
    ensures
        after_render(state, None).last_good_page == state.last_good_page,
        after_render(state, None).phase == Phase::Serving,
        reply_to(after_render(state, None), since) == WaitReply::Reload(
            (state.generation + 1) as u64,
        ),
{
}

/// The outcome of a render wakes every connection that waits, and the
/// generation has then passed what each of them has seen or not, but none is
/// left waiting; a render that succeeds puts its page in place.
pub proof fn render_wakes_everyone(state: PreviewModel, page: Option<Seq<char>>)
    requires
        well_formed(state),
        state.phase == Phase::Rerendering,
        state.generation < u64::MAX,
    ensures
        woken_by_render(state) == state.waiters,
        after_render(state, page).waiters.len() == 0,
        after_render(state, page).generation == state.generation + 1,
        page matches Some(text) ==> after_render(state, page).last_good_page == text,
        well_formed(after_render(state, page)),
{
}

/// Only the outcome of a render moves the page or the generation: a
/// request to wait, a change, a stop and a close leave both as they are. And
/// the generation never goes back.
pub proof fn only_render_moves_the_page(
    state: PreviewModel,
    page: Option<Seq<char>>,
    id: u64,
    since: u64,
)
    ensures
        after_wait(state, id, since).last_good_page == state.last_good_page,
        after_wait(state, id, since).generation == state.generation,
        after_change(state).last_good_page == state.last_good_page,
        after_change(state).generation == state.generation,
        after_stop(state).last_good_page == state.last_good_page,
        after_stop(state).generation == state.generation,
        after_close(state).last_good_page == state.last_good_page,
        after_close(state).generation == state.generation,
        after_render(state, page).generation >= state.generation,
        page is None ==> after_render(state, page).last_good_page == state.last_good_page,
{
}

/// On a server that has stopped nothing happens any more: no change, no
/// outcome of a render and no request moves its state, and whoever asks to
/// wait is let go.
pub proof fn stopped_stays_stopped(
    state: PreviewModel,
    page: Option<Seq<char>>,
    id: u64,
    since: u64,
)
    requires
        well_formed(state),
        state.phase == Phase::Stopped,
    ensures
        after_change(state) == state,
        after_render(state, page) == state,
        after_wait(state, id, since) == state,
        after_stop(state) == state,
        reply_to(state, since) == WaitReply::Closed,
{
}

/// What a request for `target` asks for. The target is a path, and after a
/// question mark a query. The path `/` asks for the page. The path `/wait`
/// with the query `since=` and a generation in decimal digits asks to wait.
/// Nothing else is there.
pub open spec fn route_of(target: Seq<char>) -> Route {
    let mark = position_of(target, '?', 0);
    let path = target.subrange(0, mark);
    if path == "/"@ {
        Route::Page
    } else if path == "/wait"@ && mark < target.len() {
        let query = target.subrange(mark + 1, target.len() as int);
        if "since="@.is_prefix_of(query) {
            match decimal_value(query.subrange("since="@.len() as int, query.len() as int)) {
                Some(since) => if since <= u64::MAX {
                    Route::Wait { since: since as u64 }
                } else {
                    Route::NotFound
                },
                None => Route::NotFound,
            }
        } else {
            Route::NotFound
        }
    } else {
        Route::NotFound
    }
}

/// Says what a request for `target` asks for.
pub fn route(target: &str) -> (asked: Route)
    ensures
        asked == route_of(target@),
{
    let chars = chars_of(target);
    let mark = find_from(&chars, '?', 0);
    let path = slice_of(&chars, 0, mark);
    let root = chars_of("/");
    let wait = chars_of("/wait");
    if same_chars(&path, &root) {
        return Route::Page;
    }
    if !same_chars(&path, &wait) || mark >= chars.len() {
        return Route::NotFound;
    }
    let query = slice_of(&chars, mark + 1, chars.len());
    if !starts_with(&query, "since=") {
        return Route::NotFound;
    }
    let key = chars_of("since=");
    let digits = slice_of(&query, key.len(), query.len());
    match parse_decimal(&digits) {
        Some(since) => Route::Wait { since },
        None => Route::NotFound,
    }
}

/// The address that the served script asks for.
pub open spec fn wait_target(generation: nat) -> Seq<char> {
    "/wait?since="@ + decimal_text(generation)
}

/// The script of a served page asks to wait for a generation after the one
/// that the page was served at: its address is read as that request.
pub proof fn served_script_asks_to_wait(generation: u64)
    ensures
        route_of(wait_target(generation as nat)) == (Route::Wait { since: generation }),
{
    reveal_strlit("/wait?since=");
    reveal_strlit("/wait");
    reveal_strlit("/");
    reveal_strlit("since=");
    let target = wait_target(generation as nat);
    let digits = decimal_text(generation as nat);
    crate::decimal::decimal_text_len(generation as nat);
    crate::decimal::decimal_round_trip(generation as nat);
    assert(position_of(target, '?', 5) == 5);
    assert(position_of(target, '?', 4) == 5);
    assert(position_of(target, '?', 3) == 5);
    assert(position_of(target, '?', 2) == 5);
    assert(position_of(target, '?', 1) == 5);
    assert(position_of(target, '?', 0) == 5);
    assert(target.subrange(0, 5) =~= "/wait"@);
    let query = target.subrange(6, target.len() as int);
    assert(query =~= "since="@ + digits);
    assert(query.subrange(0, 6) =~= "since="@);
    assert(query.subrange(6, query.len() as int) =~= digits);
}

/// A number written as JSON by `serde_json::to_string`, which writes an
/// integer in decimal digits into a buffer of its own and so does not fail.
#[verifier::external_body]
fn json_number(n: u64) -> (written: Result<String, serde_json::Error>)
    ensures
        written is Ok,
        written->Ok_0@ == decimal_text(n as nat),
{
    serde_json::to_string(&n)
}

/// The body of the answer that tells a connection to reload: the generation
/// that is now there, as JSON.
pub fn reload_body(generation: u64) -> (body: Result<String, DeckError>)
    ensures
        body is Ok,
        body->Ok_0@ == decimal_text(generation as nat),
{
    match json_number(generation) {
        Ok(text) => Ok(text),
        Err(cause) => Err(DeckError::JsonSerialization(cause)),
    }
}

/// The script that waits for the next generation and then loads the page
/// anew, up to where the address that it asks for stands in it.
pub const RELOAD_BEFORE: &'static str =
    "<script>\n(function () {\nfunction wait() {\nvar request = new XMLHttpRequest();\nrequest.open(\"GET\", \"";

/// The rest of that script.
pub const RELOAD_AFTER: &'static str =
    "\");\nrequest.onload = function () { if (request.status === 200) { location.reload(); } };\nrequest.onerror = function () { setTimeout(wait, 1000); };\nrequest.send();\n}\nwait();\n})();\n</script>\n";

/// The page as it is served: the page itself, unchanged, and after it the
/// script that waits for a generation after `generation`.
pub open spec fn served_page(page: Seq<char>, generation: nat) -> Seq<char> {
    page + RELOAD_BEFORE@ + wait_target(generation) + RELOAD_AFTER@
}

impl View for PreviewState {
    type V = PreviewModel;

    closed spec fn view(&self) -> PreviewModel {
        PreviewModel {
            phase: self.phase,
            last_good_page: self.last_good_page@,
            generation: self.generation as nat,
            waiters: self.waiters@,
        }
    }
}

impl PreviewState {
    /// Whether the state is well formed.
    pub open spec fn wf(&self) -> bool {
        well_formed(self@)
    }

    /// The state of a server that starts with the outcome of its first
    /// render: it serves the page where there is one, and there is no server
    /// where the render failed.
    pub fn start(first: Result<String, DeckError>) -> (started: Result<PreviewState, DeckError>)
        ensures
            first is Ok <==> started is Ok,
            started matches Ok(state) ==> state.wf() && state@ == (PreviewModel {
                phase: Phase::Serving,
                last_good_page: first->Ok_0@,
                generation: 0,
                waiters: Seq::empty(),
            }),
            started matches Err(failure) ==> failure == first->Err_0,
    {
        match first {
            Ok(page) => Ok(
                PreviewState {
                    phase: Phase::Serving,
                    last_good_page: page,
                    generation: 0,
                    waiters: Vec::new(),
                },
            ),
            Err(failure) => Err(failure),
        }
    }

    /// Where the server is in its life.
    pub fn phase(&self) -> (phase: Phase)
        ensures
            phase == self@.phase,
    {
        self.phase
    }

    /// How many renders were attempted since the first.
    pub fn generation(&self) -> (generation: u64)
        ensures
            generation == self@.generation,
    {
        self.generation
    }

    /// How many connections wait.
    pub fn waiting(&self) -> (n: usize)
        ensures
            n == self@.waiters.len(),
    {
        self.waiters.len()
    }

    /// The last page that rendered well.
    pub fn page(&self) -> (page: String)
        ensures
            page@ == self@.last_good_page,
    {
        self.last_good_page.clone()
    }

    /// The answer to a request for the page: the last page that rendered
    /// well, with the script that waits for the generation after the
    /// current one.
    pub fn serve_page(&self) -> (served: String)
        ensures
            served@ == served_page(self@.last_good_page, self@.generation),
    {
        let mut out = chars_of(self.last_good_page.as_str());
        push_str(&mut out, RELOAD_BEFORE);
        push_str(&mut out, "/wait?since=");
        push_decimal(&mut out, self.generation);
        push_str(&mut out, RELOAD_AFTER);
        assert(out@ =~= served_page(self@.last_good_page, self@.generation));
        string_of(&out)
    }

    /// A connection that has seen the generation `since` asks to wait. It is
    /// told to reload where a newer generation is there, let go where the
    /// server stops, and else it joins those that wait.
    pub fn wait(&mut self, id: u64, since: u64) -> (reply: WaitReply)
        ensures
            reply == reply_to(old(self)@, since),
            final(self)@ == after_wait(old(self)@, id, since),
            old(self).wf() ==> final(self).wf(),
    {
        match self.phase {
            Phase::Stopping => WaitReply::Closed,
            Phase::Stopped => WaitReply::Closed,
            _ => {
                if self.generation > since {
                    WaitReply::Reload(self.generation)
                } else {
                    self.waiters.push(Waiter { id, since });
                    WaitReply::Pending
                }
            },
        }
    }

    /// A change was signalled. The result says whether to render now: a
    /// serving server does, and nothing else moves.
    pub fn on_change(&mut self) -> (render: bool)
        ensures
            render == (old(self)@.phase == Phase::Serving),
            final(self)@ == after_change(old(self)@),
            old(self).wf() ==> final(self).wf(),
    {
        match self.phase {
            Phase::Serving => {
                self.phase = Phase::Rerendering;
                true
            },
            _ => false,
        }
    }

    /// The outcome of the render that `on_change` asked for has come in.
    /// The generation advances whether it succeeded or failed, a new page
    /// takes the place of the old one, a failure leaves the page as it was,
    /// and every connection that waited is returned, to be woken.
    pub fn finish_render(&mut self, outcome: Result<String, DeckError>) -> (woken: Vec<Waiter>)
        requires
            old(self)@.generation < u64::MAX,
        ensures
            woken@ == woken_by_render(old(self)@),
            final(self)@ == after_render(old(self)@, page_of(outcome)),
            old(self).wf() ==> final(self).wf(),
    {
        match self.phase {
            Phase::Rerendering => {
                match outcome {
                    Ok(page) => {
                        self.last_good_page = page;
                    },
                    Err(_) => {},
                }
                self.generation = self.generation + 1;
                self.phase = Phase::Serving;
                let mut woken: Vec<Waiter> = Vec::new();
                std::mem::swap(&mut woken, &mut self.waiters);
                woken
            },
            _ => Vec::new(),
        }
    }

    /// The server was told to stop. Every connection that waited is
    /// returned, to be let go with a last answer.
    pub fn stop(&mut self) -> (released: Vec<Waiter>)
        ensures
            released@ == if old(self)@.phase == Phase::Stopped {
                Seq::<Waiter>::empty()
            } else {
                old(self)@.waiters
            },
            final(self)@ == after_stop(old(self)@),
            old(self).wf() ==> final(self).wf(),
    {
        match self.phase {
            Phase::Stopped => Vec::new(),
            _ => {
                self.phase = Phase::Stopping;
                let mut released: Vec<Waiter> = Vec::new();
                std::mem::swap(&mut released, &mut self.waiters);
                released
            },
        }
    }

    /// The listener has closed: a server that was stopping has stopped.
    pub fn close(&mut self)
        ensures
            final(self)@ == after_close(old(self)@),
            old(self).wf() ==> final(self).wf(),
    {
        match self.phase {
            Phase::Stopping => {
                self.phase = Phase::Stopped;
            },
            _ => {},
        }
    }
}

} // verus!
