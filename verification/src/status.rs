//! Where the current rate limits come from: the account service, the session files, or nowhere.
use crate::clock::{clock_now, is_second, second_was_read};
use crate::json::{
    holds, json_document, json_member_text, lacks, law_members_are_found_by_name,
    law_values_are_read_as_what_they_are, member_text, parse_json, Json, JsonNumber, JsonView,
};
use crate::limits::{
    current_at, limits_view, parse_rate_limit_snapshot, rate_limits_valid_at, service_limits,
    shown_at, RateLimits, RateLimitsView,
};
use crate::text::chars_of_option;
use vstd::prelude::*;
use vstd::string::*;

verus! {

/// Where the rate limits of a status come from.
#[derive(Clone, Copy, Debug, PartialEq, Eq, Structural)]
pub enum StatusSource {
    LiveAppServer,
    LocalSessionJsonl,
    Unavailable,
}

/// The name under which a source is shown.
pub open spec fn source_name(source: StatusSource) -> Seq<char> {
    match source {
        StatusSource::LiveAppServer => "codex app-server account/rateLimits/read"@,
        StatusSource::LocalSessionJsonl => "local ~/.codex/sessions token_count"@,
        StatusSource::Unavailable => "none"@,
    }
}

impl StatusSource {
    /// The name under which a source is shown.
    pub fn label(&self) -> (name: &'static str)
        ensures
            name@ == source_name(*self),
    {
        match self {
            StatusSource::LiveAppServer => "codex app-server account/rateLimits/read",
            StatusSource::LocalSessionJsonl => "local ~/.codex/sessions token_count",
            StatusSource::Unavailable => "none",
        }
    }
}

impl Default for StatusSource {
    fn default() -> (source: StatusSource)
        ensures
            source == StatusSource::Unavailable,
    {
        StatusSource::Unavailable
    }
}

/// The rate limits that hold now, and how they became known.
#[derive(Debug)]
pub struct CodexStatus {
    pub rate_limits: Option<RateLimits>,
    pub source: StatusSource,
    pub auth_status: String,
    /// The second at which the status was made.
    pub fetched_at: Option<i64>,
    /// Why the account service gave no rate limits.
    pub error: Option<String>,
}

/// What a status says.
pub struct CodexStatusView {
    pub rate_limits: Option<RateLimitsView>,
    pub source: StatusSource,
    pub auth_status: Seq<char>,
    pub fetched_at: Option<i64>,
    pub error: Option<Seq<char>>,
}

impl View for CodexStatus {
    type V = CodexStatusView;

    open spec fn view(&self) -> CodexStatusView {
        CodexStatusView {
            rate_limits: limits_view(self.rate_limits),
            source: self.source,
            auth_status: self.auth_status@,
            fetched_at: self.fetched_at,
            error: chars_of_option(self.error),
        }
    }
}

/// A status of which nothing is known.
pub open spec fn no_status() -> CodexStatusView {
    CodexStatusView {
        rate_limits: None,
        source: StatusSource::Unavailable,
        auth_status: ""@,
        fetched_at: None,
        error: None,
    }
}

impl Default for CodexStatus {
    fn default() -> (status: CodexStatus)
        ensures
            status@ == no_status(),
    {
        CodexStatus {
            rate_limits: None,
            source: StatusSource::Unavailable,
            auth_status: "".to_owned(),
            fetched_at: None,
            error: None,
        }
    }
}

/// Whether rate limits are current now.
///
/// A local snapshot is only usable while its primary window is still open. Expired windows are
/// not shown as current usage, and never as a made-up zero.
pub fn rate_limits_still_valid(rate: &RateLimits) -> (r: bool)
    ensures
        exists|now: i64|
            is_second(now) && second_was_read(now) && r == #[trigger] current_at(rate@, now),
{
    let now = clock_now();
    rate_limits_valid_at(rate, now.secs)
}

/// What a request to the account service came to.
pub enum Reply {
    Limits(RateLimitsView),
    Failed(Seq<char>),
}

/// What `live` says.
pub open spec fn reply_of(live: Result<RateLimits, String>) -> Reply {
    match live {
        Ok(limits) => Reply::Limits(limits@),
        Err(error) => Reply::Failed(error@),
    }
}

/// The status that follows from what the account service replied and from the last limits in
/// the session files, which are used only where the service failed and only while they are
/// current at `checked_at`.
pub open spec fn resolved(
    local: Option<RateLimitsView>,
    live: Reply,
    auth_status: Seq<char>,
    checked_at: i64,
    fetched_at: i64,
) -> CodexStatusView {
    match live {
        Reply::Limits(limits) => CodexStatusView {
            rate_limits: Some(limits),
            source: StatusSource::LiveAppServer,
            auth_status,
            fetched_at: Some(fetched_at),
            error: None,
        },
        Reply::Failed(error) => {
            let usable = shown_at(local, checked_at);
            CodexStatusView {
                rate_limits: usable,
                source: if usable is Some {
                    StatusSource::LocalSessionJsonl
                } else {
                    StatusSource::Unavailable
                },
                auth_status,
                fetched_at: Some(fetched_at),
                error: Some(error),
            }
        },
    }
}

/// The status that follows from the limits in the session files and from what the account
/// service replied.
pub fn resolve_codex_status_at(
    jsonl_limits: Option<RateLimits>,
    live: Result<RateLimits, String>,
    auth_status: String,
    checked_at: i64,
    fetched_at: i64,
) -> (status: CodexStatus)
    ensures
        status@ == resolved(
            limits_view(jsonl_limits),
            reply_of(live),
            auth_status@,
            checked_at,
            fetched_at,
        ),
{
    match live {
        Ok(rate_limits) => CodexStatus {
            rate_limits: Some(rate_limits),
            source: StatusSource::LiveAppServer,
            auth_status,
            fetched_at: Some(fetched_at),
            error: None,
        },
        Err(error) => {
            match jsonl_limits {
                Some(rate_limits) if rate_limits_valid_at(&rate_limits, checked_at) => CodexStatus {
                    rate_limits: Some(rate_limits),
                    source: StatusSource::LocalSessionJsonl,
                    auth_status,
                    fetched_at: Some(fetched_at),
                    error: Some(error),
                },
                _ => CodexStatus {
                    rate_limits: None,
                    source: StatusSource::Unavailable,
                    auth_status,
                    fetched_at: Some(fetched_at),
                    error: Some(error),
                },
            }
        },
    }
}

/// The status now.
pub fn resolve_codex_status(
    jsonl_limits: Option<RateLimits>,
    live: Result<RateLimits, String>,
    auth_status: String,
) -> (status: CodexStatus)
    ensures
        exists|checked_at: i64, fetched_at: i64|
            is_second(checked_at) && second_was_read(checked_at) && is_second(fetched_at)
                && second_was_read(fetched_at) && status@ == #[trigger] resolved(
                limits_view(jsonl_limits),
                reply_of(live),
                auth_status@,
                checked_at,
                fetched_at,
            ),
{
    let checked_at = clock_now();
    let fetched_at = clock_now();
    resolve_codex_status_at(jsonl_limits, live, auth_status, checked_at.secs, fetched_at.secs)
}

/// What is shown of the login: whether its file is there.
pub open spec fn auth_text(present: bool) -> Seq<char> {
    if present {
        "ChatGPT/Codex auth configured"@
    } else {
        "Auth not found (run: codex login)"@
    }
}

/// What is shown of the login: whether its file is there.
pub fn auth_status_label(present: bool) -> (label: String)
    ensures
        label@ == auth_text(present),
{
    if present {
        "ChatGPT/Codex auth configured".to_owned()
    } else {
        "Auth not found (run: codex login)".to_owned()
    }
}

/// The first request to the account service.
pub const INITIALIZE_REQUEST: &'static str = "{\"jsonrpc\":\"2.0\",\"id\":1,\"method\":\"initialize\",\"params\":{\"clientInfo\":{\"name\":\"StatusBar-Codex-Linux\",\"title\":\"Codex Usage Tray\",\"version\":\"0.1.0\"},\"capabilities\":{}}}";

/// The request for the rate limits.
pub const READ_LIMITS_REQUEST: &'static str = "{\"jsonrpc\":\"2.0\",\"id\":2,\"method\":\"account/rateLimits/read\",\"params\":null}";

/// How long the account service may take, in seconds.
pub const LIVE_FETCH_TIMEOUT_SECONDS: u64 = 20;

/// How long to wait for the account service at a time, in milliseconds.
pub const LIVE_POLL_MILLIS: u64 = 250;

/// How to go on waiting for the account service.
#[derive(Clone, Copy, Debug, PartialEq, Eq, Structural)]
pub enum LiveWait {
    /// The time is up.
    Over,
    /// Wait this many milliseconds at most.
    AtMost(u64),
}

/// How to go on waiting when `waited_millis` milliseconds went by since the first request.
pub open spec fn waiting_after(waited_millis: u64) -> LiveWait {
    let left = LIVE_FETCH_TIMEOUT_SECONDS * 1000 - waited_millis;
    if left <= 0 {
        LiveWait::Over
    } else if left < LIVE_POLL_MILLIS {
        LiveWait::AtMost(left as u64)
    } else {
        LiveWait::AtMost(LIVE_POLL_MILLIS)
    }
}

/// How to go on waiting when `waited_millis` milliseconds went by since the first request: until
/// the time is up, in short pieces.
pub fn live_wait(waited_millis: u64) -> (wait: LiveWait)
    ensures
        wait == waiting_after(waited_millis),
        wait == (if waited_millis >= LIVE_FETCH_TIMEOUT_SECONDS * 1000 {
            LiveWait::Over
        } else if LIVE_FETCH_TIMEOUT_SECONDS * 1000 - waited_millis < LIVE_POLL_MILLIS {
            LiveWait::AtMost((LIVE_FETCH_TIMEOUT_SECONDS * 1000 - waited_millis) as u64)
        } else {
            LiveWait::AtMost(LIVE_POLL_MILLIS)
        }),
{
    let limit: u64 = LIVE_FETCH_TIMEOUT_SECONDS * 1000;
    if waited_millis >= limit {
        return LiveWait::Over;
    }
    let remaining: u64 = limit - waited_millis;
    if remaining < LIVE_POLL_MILLIS {
        LiveWait::AtMost(remaining)
    } else {
        LiveWait::AtMost(LIVE_POLL_MILLIS)
    }
}

/// A conversation with the account service.
#[derive(Clone, Copy, Debug, PartialEq, Eq, Structural)]
pub struct LiveFetch {
    /// Whether the first request was answered.
    pub init_ok: bool,
    /// Whether the rate limits were asked for.
    pub requested_limits: bool,
}

/// What came from the account service.
#[derive(Debug)]
pub enum LiveEvent {
    /// A line.
    Line(String),
    /// The line could not be read.
    ReadFailed(String),
    /// Nothing, so far.
    Silence,
    /// Nothing any more: the service closed its end, or the time is up.
    Over,
}

/// What to do next in a conversation with the account service.
#[derive(Debug)]
pub enum LiveStep {
    /// Wait for the next event.
    Wait,
    /// Send the request for the rate limits, then wait.
    AskForLimits,
    /// The rate limits.
    Limits(RateLimits),
    /// The conversation failed. Where `stop` holds, the service is stopped and waited for.
    Failed { error: String, stop: bool },
}

/// What a step says.
pub enum LiveStepView {
    Wait,
    AskForLimits,
    Limits(RateLimitsView),
    Failed { error: Seq<char>, stop: bool },
}

impl View for LiveStep {
    type V = LiveStepView;

    open spec fn view(&self) -> LiveStepView {
        match *self {
            LiveStep::Wait => LiveStepView::Wait,
            LiveStep::AskForLimits => LiveStepView::AskForLimits,
            LiveStep::Limits(limits) => LiveStepView::Limits(limits@),
            LiveStep::Failed { error, stop } => LiveStepView::Failed { error: error@, stop },
        }
    }
}

/// The number under which a message answers a request.
pub open spec fn message_id(message: JsonView) -> Option<u64> {
    match message.member("id"@) {
        Some(v) => match v.as_unsigned() {
            Some(n) => Some(n),
            None => match v.as_signed() {
                Some(n) => Some(n as u64),
                None => None,
            },
        },
        None => None,
    }
}

fn id_of(message: &Json) -> (id: Option<u64>)
    ensures
        id == message_id(message@),
{
    match message.get("id") {
        Some(v) => match v.as_u64() {
            Some(n) => Some(n),
            None => match v.as_i64() {
                Some(n) => Some(
                    #[verifier::truncate]
                    (n as u64),
                ),
                None => None,
            },
        },
        None => None,
    }
}

/// The end of a conversation in which the service reported an error or left something out.
pub open spec fn failed(error: Seq<char>, stop: bool) -> LiveStepView {
    LiveStepView::Failed { error, stop }
}

/// What the answer to the request for the rate limits comes to. `error_text` is the error that
/// the answer holds.
pub open spec fn limits_answer(message: JsonView, error_text: Option<Seq<char>>) -> LiveStepView {
    match error_text {
        Some(text) => failed("rateLimits/read error: "@ + text, true),
        None => match message.member("result"@) {
            None => failed("rateLimits/read missing result"@, false),
            Some(result) => match result.member("rateLimits"@) {
                None => failed("rateLimits/read missing rateLimits"@, false),
                Some(snapshot) => LiveStepView::Limits(service_limits(snapshot)),
            },
        },
    }
}

/// How a conversation goes on after a message. `line` is the text of the message and
/// `error_text` that of the error in it, if it holds one.
pub open spec fn answered(
    state: LiveFetch,
    message: JsonView,
    line: Seq<char>,
    error_text: Option<Seq<char>>,
) -> (LiveFetch, LiveStepView) {
    if message_id(message) == Some(1u64) {
        if error_text is Some {
            (state, failed("initialize error: "@ + line, true))
        } else if !state.requested_limits {
            (LiveFetch { init_ok: true, requested_limits: true }, LiveStepView::AskForLimits)
        } else {
            (LiveFetch { init_ok: true, ..state }, LiveStepView::Wait)
        }
    } else if message_id(message) == Some(2u64) {
        (state, limits_answer(message, error_text))
    } else {
        (state, LiveStepView::Wait)
    }
}

/// Why a conversation that is over gave no rate limits.
pub open spec fn over_error(state: LiveFetch) -> Seq<char> {
    if !state.init_ok {
        "timed out waiting for app-server initialize"@
    } else if !state.requested_limits {
        "initialize ok but rateLimits/read was not sent"@
    } else {
        "timed out waiting for account/rateLimits/read"@
    }
}

/// How a conversation goes on after an event.
pub open spec fn next_step(state: LiveFetch, event: LiveEvent) -> (LiveFetch, LiveStepView) {
    match event {
        LiveEvent::Line(line) => match json_document(line@) {
            Some(message) => answered(
                state,
                message,
                line@,
                json_member_text(line@, "error"@),
            ),
            None => (state, LiveStepView::Wait),
        },
        LiveEvent::ReadFailed(error) => (state, failed(error@, true)),
        LiveEvent::Silence => (state, LiveStepView::Wait),
        LiveEvent::Over => (state, failed(over_error(state), true)),
    }
}

impl LiveFetch {
    /// A conversation in which only the first request was sent.
    pub fn new() -> (state: LiveFetch)
        ensures
            state == (LiveFetch { init_ok: false, requested_limits: false }),
    {
        LiveFetch { init_ok: false, requested_limits: false }
    }

    /// Takes in a message. `line` is its text and `error_text` that of the error in it, if it
    /// holds one.
    pub fn on_message(&mut self, message: &Json, line: &str, error_text: Option<String>) -> (step:
        LiveStep)
        ensures
            (*final(self), step@) == answered(
                *old(self),
                message@,
                line@,
                chars_of_option(error_text),
            ),
    {
        let id = id_of(message);
        if id == Some(1u64) {
            if error_text.is_some() {
                let mut error = "initialize error: ".to_owned();
                error.append(line);
                return LiveStep::Failed { error, stop: true };
            }
            self.init_ok = true;
            if !self.requested_limits {
                self.requested_limits = true;
                return LiveStep::AskForLimits;
            }
            return LiveStep::Wait;
        }
        if id == Some(2u64) {
            if let Some(text) = error_text {
                let mut error = "rateLimits/read error: ".to_owned();
                error.append(text.as_str());
                return LiveStep::Failed { error, stop: true };
            }
            let result = match message.get("result") {
                Some(result) => result,
                None => {
                    return LiveStep::Failed {
                        error: "rateLimits/read missing result".to_owned(),
                        stop: false,
                    };
                },
            };
            let snapshot = match result.get("rateLimits") {
                Some(snapshot) => snapshot,
                None => {
                    return LiveStep::Failed {
                        error: "rateLimits/read missing rateLimits".to_owned(),
                        stop: false,
                    };
                },
            };
            return match parse_rate_limit_snapshot(snapshot) {
                Ok(limits) => LiveStep::Limits(limits),
                Err(error) => LiveStep::Failed { error, stop: false },
            };
        }
        LiveStep::Wait
    }

    /// Takes in an event. A line that is no JSON document is passed over.
    pub fn on_event(&mut self, event: LiveEvent) -> (step: LiveStep)
        ensures
            (*final(self), step@) == next_step(*old(self), event),
            match event {
                LiveEvent::Line(text) => json_document(text@) is Some ==> (json_member_text(
                    text@,
                    "error"@,
                ) is Some <==> json_document(text@)->0.member("error"@) is Some),
                _ => true,
            },
    {
        match event {
            LiveEvent::Line(line) => match parse_json(line.as_str()) {
                Some(message) => {
                    let error_text = member_text(line.as_str(), "error");
                    self.on_message(&message, line.as_str(), error_text)
                },
                None => LiveStep::Wait,
            },
            LiveEvent::ReadFailed(error) => LiveStep::Failed { error, stop: true },
            LiveEvent::Silence => LiveStep::Wait,
            LiveEvent::Over => {
                let error = if !self.init_ok {
                    "timed out waiting for app-server initialize"
                } else if !self.requested_limits {
                    "initialize ok but rateLimits/read was not sent"
                } else {
                    "timed out waiting for account/rateLimits/read"
                };
                LiveStep::Failed { error: error.to_owned(), stop: true }
            },
        }
    }
}

/// What a conversation that starts in `state` comes to in the end, after all of `events`.
pub open spec fn state_after(state: LiveFetch, events: Seq<LiveEvent>) -> LiveFetch
    decreases events.len(),
{
    if events.len() == 0 {
        state
    } else {
        next_step(state_after(state, events.drop_last()), events.last()).0
    }
}

/// How often the rate limits are asked for in a conversation.
pub open spec fn times_asked(state: LiveFetch, events: Seq<LiveEvent>) -> nat
    decreases events.len(),
{
    if events.len() == 0 {
        0
    } else {
        let front = events.drop_last();
        times_asked(state, front) + if next_step(
            state_after(state, front),
            events.last(),
        ).1 is AskForLimits {
            1nat
        } else {
            0nat
        }
    }
}

/// Whatever the account service sends, the rate limits are asked for at most once, and only
/// after the first request was answered.
pub proof fn law_limits_are_asked_for_once(events: Seq<LiveEvent>)
    ensures
        times_asked(LiveFetch { init_ok: false, requested_limits: false }, events) <= 1,
        ({
            let state = state_after(
                LiveFetch { init_ok: false, requested_limits: false },
                events,
            );
            &&& state.requested_limits <==> times_asked(
                LiveFetch { init_ok: false, requested_limits: false },
                events,
            ) == 1
            &&& state.requested_limits <==> state.init_ok
        }),
    decreases events.len(),
{
    if events.len() > 0 {
        law_limits_are_asked_for_once(events.drop_last());
    }
}

/// The account service comes first: where it reports rate limits, the status says just those,
/// whatever the session files hold.
pub proof fn law_live_limits_come_first(
    local: Option<RateLimitsView>,
    limits: RateLimitsView,
    auth_status: Seq<char>,
    checked_at: i64,
    fetched_at: i64,
)
    ensures
        ({
            let status = resolved(local, Reply::Limits(limits), auth_status, checked_at, fetched_at);
            &&& status.source is LiveAppServer
            &&& status.rate_limits == Some(limits)
            &&& status.error is None
        }),
{
}

/// Where the account service failed, the status says why. It holds the limits of the session
/// files exactly while their primary window is open, and else none at all: an expired window
/// is never shown, neither as it was nor as zero.
pub proof fn law_local_limits_stand_in_only_while_current(
    local: Option<RateLimitsView>,
    error: Seq<char>,
    auth_status: Seq<char>,
    checked_at: i64,
    fetched_at: i64,
)
    ensures
        ({
            let status = resolved(local, Reply::Failed(error), auth_status, checked_at, fetched_at);
            &&& status.error == Some(error)
            &&& status.source is LocalSessionJsonl <==> local is Some && current_at(
                local->0,
                checked_at,
            )
            &&& status.source is LocalSessionJsonl ==> status.rate_limits == local
            &&& !(status.source is LocalSessionJsonl) ==> status.source is Unavailable
                && status.rate_limits is None
        }),
{
}

/// The account service is waited for in pieces of a quarter of a second, of which only the last is
/// shorter, until twenty seconds went by, and never longer.
pub proof fn law_the_service_has_twenty_seconds(waited_millis: u64)
    ensures
        match waiting_after(waited_millis) {
            LiveWait::Over => waited_millis >= 20_000,
            LiveWait::AtMost(n) => 0 < n <= 250 && waited_millis + n <= 20_000 && (n == 250
                || waited_millis + n == 20_000),
        },
{
}

/// The status of an account says where its limits come from: those that the service reports come
/// first; where it failed, those of the session files stand in while the second at which their
/// primary window resets lies ahead; and else there are none. It also says why the service failed,
/// what is known of the login, and when the status was made.
pub proof fn law_the_status_follows_from_the_reply_and_the_clock(
    local: Option<RateLimitsView>,
    live: Reply,
    auth_status: Seq<char>,
    checked_at: i64,
    fetched_at: i64,
)
    ensures
        ({
            let status = resolved(local, live, auth_status, checked_at, fetched_at);
            let open = match local {
                Some(rate) => match rate.primary.resets_at {
                    Some(reset) => reset > checked_at,
                    None => false,
                },
                None => false,
            };
            &&& status.auth_status == auth_status
            &&& status.fetched_at == Some(fetched_at)
            &&& match live {
                Reply::Limits(limits) => status.source == StatusSource::LiveAppServer
                    && status.rate_limits == Some(limits) && status.error is None,
                Reply::Failed(error) => status.error == Some(error) && if open {
                    status.source == StatusSource::LocalSessionJsonl && status.rate_limits == local
                } else {
                    status.source == StatusSource::Unavailable && status.rate_limits is None
                },
            }
        }),
{
}

/// A message answers the request whose number it holds under `id`.
pub proof fn law_messages_answer_by_their_number(message: JsonView, value: JsonView)
    ensures
        ({
            let id = match value {
                JsonView::Number(JsonNumber { unsigned: Some(u), .. }) => Some(u),
                JsonView::Number(JsonNumber { unsigned: None, signed: Some(i), .. }) => Some(
                    i as u64,
                ),
                _ => None,
            };
            &&& holds(message, "id"@, value) ==> message_id(message) == id
            &&& lacks(message, "id"@) ==> message_id(message) is None
        }),
{
    law_members_are_found_by_name(message, "id"@, value);
    law_values_are_read_as_what_they_are(value);
}

/// The answer to the first request makes the conversation ask for the rate limits, once; an error in
/// it ends the conversation with the whole line.
pub proof fn law_the_first_answer_asks_for_the_limits(
    state: LiveFetch,
    message: JsonView,
    line: Seq<char>,
    error_text: Option<Seq<char>>,
)
    requires
        message_id(message) == Some(1u64),
    ensures
        ({
            let (after, step) = answered(state, message, line, error_text);
            &&& error_text is Some ==> after == state && step == (LiveStepView::Failed {
                error: "initialize error: "@ + line,
                stop: true,
            })
            &&& error_text is None ==> after.init_ok && after.requested_limits && (
            step is AskForLimits <==> !state.requested_limits) && (step is Wait
                <==> state.requested_limits)
        }),
{
}

/// The answer to the request for the rate limits ends the conversation: with the limits that stand
/// under `result` and `rateLimits`, with the error that it holds, or with what is missing.
pub proof fn law_the_second_answer_holds_the_limits(
    state: LiveFetch,
    message: JsonView,
    result: JsonView,
    snapshot: JsonView,
    line: Seq<char>,
    error_text: Option<Seq<char>>,
)
    requires
        message_id(message) == Some(2u64),
    ensures
        ({
            let (after, step) = answered(state, message, line, error_text);
            &&& after == state
            &&& error_text is Some ==> step == (LiveStepView::Failed {
                error: "rateLimits/read error: "@ + error_text->0,
                stop: true,
            })
            &&& error_text is None && holds(message, "result"@, result) && holds(
                result,
                "rateLimits"@,
                snapshot,
            ) ==> step == LiveStepView::Limits(service_limits(snapshot))
            &&& error_text is None && lacks(message, "result"@) ==> step == (LiveStepView::Failed {
                error: "rateLimits/read missing result"@,
                stop: false,
            })
            &&& error_text is None && holds(message, "result"@, result) && lacks(
                result,
                "rateLimits"@,
            ) ==> step == (LiveStepView::Failed {
                error: "rateLimits/read missing rateLimits"@,
                stop: false,
            })
        }),
{
    law_members_are_found_by_name(message, "result"@, result);
    law_members_are_found_by_name(result, "rateLimits"@, snapshot);
}

/// Anything else changes nothing: other messages, lines that are no documents, and silence. A line
/// that could not be read and the end of the time end the conversation, and the end of the time says
/// what was waited for.
pub proof fn law_other_events_change_nothing(state: LiveFetch, event: LiveEvent)
    ensures
        ({
            let (after, step) = next_step(state, event);
            &&& match event {
                LiveEvent::Line(line) => match json_document(line@) {
                    None => after == state && step is Wait,
                    Some(message) => message_id(message) != Some(1u64) && message_id(message)
                        != Some(2u64) ==> after == state && step is Wait,
                },
                LiveEvent::Silence => after == state && step is Wait,
                LiveEvent::ReadFailed(error) => after == state && step == (LiveStepView::Failed {
                    error: error@,
                    stop: true,
                }),
                LiveEvent::Over => after == state && step is Failed && step->stop,
            }
            &&& event is Over && !state.init_ok ==> step->error
                == "timed out waiting for app-server initialize"@
            &&& event is Over && state.init_ok && !state.requested_limits ==> step->error
                == "initialize ok but rateLimits/read was not sent"@
            &&& event is Over && state.init_ok && state.requested_limits ==> step->error
                == "timed out waiting for account/rateLimits/read"@
        }),
{
}

/// What is shown of the login and of the source says which of them it is.
pub proof fn law_login_and_source_are_named(present: bool, source: StatusSource)
    ensures
        present ==> auth_text(present) == "ChatGPT/Codex auth configured"@,
        !present ==> auth_text(present) == "Auth not found (run: codex login)"@,
        source is LiveAppServer ==> source_name(source)
            == "codex app-server account/rateLimits/read"@,
        source is LocalSessionJsonl ==> source_name(source)
            == "local ~/.codex/sessions token_count"@,
        source is Unavailable ==> source_name(source) == "none"@,
{
}

} // verus!
