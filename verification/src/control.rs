//! Launcher control plane: the launcher's side of the `@dshl/control` plugin
//! contract.
//!
//! A small JSON-RPC-style endpoint (newline-delimited JSON over a loopback
//! socket) exposes the launcher's native capabilities to the supervised `dsh`
//! process.
//!
//! # Wire protocol
//!
//! One JSON object per line. The client authenticates first:
//!
//! ```text
//! {"type":"hello","token":"<per-launch token>"}
//! ```
//!
//! then exchanges request/response frames:
//!
//! ```text
//! -> {"type":"request","id":1,"method":"ping","params":{}}
//! <- {"id":1,"result":{"pong":true,...}}
//! <- {"id":1,"error":"..."}                (on failure)
//! ```
//!
//! The per-launch random token is carried to dsh in the environment and
//! checked on every connection, so a stray local process cannot drive the
//! launcher.

use vstd::prelude::*;
use vstd::string::*;
use crate::platform::paths::{path_in2, Host};
use crate::platform::{cache_dir, join};
use crate::process::command::{Cmd, CmdView};
use crate::text::{
    all_white, dec, decimal, is_digit, is_white, opt_view, same, trim, trimmed, views,
    white_space_around_a_text_is_trimmed,
};

verus! {

/// Env var carrying the control endpoint to the supervised `dsh` process.
/// Value format: `dshl://<token>@127.0.0.1:<port>`.
pub const CONTROL_ENV: &'static str = "DSHL_CONTROL_URL";

/// Maximum accepted frame size in bytes (a pathological client must not grow
/// memory).
pub const MAX_FRAME_BYTES: usize = 65536;

/// How long a connection has to send the `hello` handshake, in milliseconds.
pub const HELLO_TIMEOUT: u64 = 5000;

// ---- the endpoint --------------------------------------------------------

/// The active endpoint on the loopback interface, created once by [`start`].
#[derive(Debug)]
pub struct Endpoint {
    pub port: u16,
    pub token: String,
}

/// The hexadecimal digits in lower case.
pub open spec fn is_hex(c: char) -> bool {
    is_digit(c) || ('a' <= c && c <= 'f')
}

/// What a token looks like: a random UUID of version 4 in hexadecimal digits,
/// without hyphens.
pub open spec fn is_token(s: Seq<char>) -> bool {
    &&& s.len() == 32
    &&& forall|i: int| 0 <= i < s.len() ==> is_hex(#[trigger] s[i])
    &&& s[12] == '4'
    &&& s[16] == '8' || s[16] == '9' || s[16] == 'a' || s[16] == 'b'
}

/// A per-launch bearer token from the platform's random source:
/// `uuid::Uuid::new_v4`, in its `simple` form. Every outcome has the shape of
/// a version 4 UUID; which of them comes is left to chance.
#[verifier::external_body]
fn generate_token() -> (r: String)
    ensures
        is_token(r@),
{
    uuid::Uuid::new_v4().simple().to_string()
}

impl Endpoint {
    pub open spec fn url_text(self) -> Seq<char> {
        "dshl://"@ + self.token@ + "@127.0.0.1:"@ + dec(self.port as nat)
    }

    fn url(&self) -> (r: String)
        ensures
            r@ == self.url_text(),
    {
        let mut s = "dshl://".to_owned();
        s.append(self.token.as_str());
        s.append("@127.0.0.1:");
        s.append(decimal(self.port as u64).as_str());
        s
    }
}

/// Whether a slot is filled as it should be: an endpoint that is there stays,
/// and an empty slot gets one on the port, with a token.
pub open spec fn is_started(
    before: Option<Endpoint>,
    after: Option<Endpoint>,
    port: u16,
) -> bool {
    match before {
        Some(_) => after == before,
        None => {
            &&& after matches Some(e)
            &&& e.port == port
            &&& is_token(e.token@)
        },
    }
}

/// Puts the endpoint on the port of a bound listener into its slot, with a
/// fresh token. Idempotent: an endpoint that is there stays.
pub fn start(slot: &mut Option<Endpoint>, port: u16)
    ensures
        is_started(*old(slot), *final(slot), port),
{
    if slot.is_none() {
        *slot = Some(Endpoint { port, token: generate_token() });
    }
}

pub open spec fn slot_url(slot: Option<Endpoint>) -> Option<Seq<char>> {
    match slot {
        Some(e) => Some(e.url_text()),
        None => None,
    }
}

/// The control endpoint descriptor, or `None` when the server is not running.
pub fn endpoint_url(slot: &Option<Endpoint>) -> (r: Option<String>)
    ensures
        opt_view(r) == slot_url(*slot),
{
    match slot {
        Some(e) => Some(e.url()),
        None => None,
    }
}

/// Set the `DSHL_CONTROL_URL` env var on a command about to spawn dsh, so the
/// dsh-side plugin knows where to connect. No-op when the server is off.
pub fn inject_env(cmd: &mut Cmd, slot: &Option<Endpoint>)
    ensures
        match slot_url(*slot) {
            Some(url) => final(cmd)@ == (CmdView {
                envs: old(cmd)@.envs.push((CONTROL_ENV@, url)),
                ..old(cmd)@
            }),
            None => *final(cmd) == *old(cmd),
        },
{
    if let Some(url) = endpoint_url(slot) {
        cmd.env(CONTROL_ENV, url.as_str());
    }
}

// ---- frames --------------------------------------------------------------

/// Inbound frames (one per line). Of the parameters of a request only the
/// string `name` matters.
#[derive(Debug)]
pub enum Frame {
    /// `{"type":"hello","token":"..."}`: authentication, sent first.
    Hello { token: String },
    /// `{"type":"request","id":1,"method":"...","params":{...}}`.
    Request { id: u64, method: String, name: Option<String> },
}

/// The result of a request.
#[derive(Debug, PartialEq, Eq)]
pub enum Reply {
    /// `{"pong":true,"version":"..."}`
    Pong { version: String },
    /// `{"ok":true}`
    Done,
    /// `{"ok":true,"pending":"..."}`
    Pending { name: String },
}

/// Outbound frame: exactly one of `result` / `error` is present.
#[derive(Debug, PartialEq, Eq)]
pub struct Response {
    pub id: u64,
    pub result: Option<Reply>,
    pub error: Option<String>,
}

impl Response {
    /// Exactly one of the two parts is present.
    pub open spec fn wf(self) -> bool {
        (self.result is Some) != (self.error is Some)
    }

    /// Whether this is the error with the given text.
    pub open spec fn is_error(self, id: u64, text: Seq<char>) -> bool {
        self.id == id && self.result is None && opt_view(self.error) == Some(text)
    }

    /// The response to a request that went well.
    pub fn ok(id: u64, result: Reply) -> (r: Response)
        ensures
            r.id == id,
            r.result == Some(result),
            r.error is None,
            r.wf(),
    {
        Response { id, result: Some(result), error: None }
    }

    /// The response to a request that failed.
    pub fn error(id: u64, error: &str) -> (r: Response)
        ensures
            r.is_error(id, error@),
            r.wf(),
    {
        Response { id, result: None, error: Some(error.to_owned()) }
    }
}

// ---- a connection --------------------------------------------------------

/// What becomes of a connection after its first line.
#[derive(Debug)]
pub enum Greeting {
    /// The client knows the token: serve it.
    Accept,
    /// Close the connection without a word.
    Close,
    /// Send the response and close the connection.
    Refuse(Response),
}

/// Whether a greeting is the one to a first line of `size` bytes, which stands
/// for `frame` if it could be parsed.
pub open spec fn is_greeting(
    r: Greeting,
    size: usize,
    frame: Option<Frame>,
    endpoint: Option<Endpoint>,
) -> bool {
    if size > MAX_FRAME_BYTES {
        r is Close
    } else {
        match frame {
            Some(Frame::Hello { token }) => match endpoint {
                None => r is Close,
                Some(e) => if token@ == e.token@ {
                    r is Accept
                } else {
                    r matches Greeting::Refuse(x) && x.is_error(0, "bad token"@)
                },
            },
            _ => r matches Greeting::Refuse(x) && x.is_error(0, "expected hello"@),
        }
    }
}

/// The first line of a connection, of `size` bytes, which stands for `frame`
/// if it could be parsed: it must be the hello handshake with the token of
/// this launch.
pub fn greet(size: usize, frame: Option<Frame>, endpoint: &Option<Endpoint>) -> (r: Greeting)
    ensures
        is_greeting(r, size, frame, *endpoint),
{
    if size > MAX_FRAME_BYTES {
        return Greeting::Close;
    }
    match frame {
        Some(Frame::Hello { token }) => match endpoint {
            None => Greeting::Close,
            Some(e) => if same(token.as_str(), e.token.as_str()) {
                Greeting::Accept
            } else {
                Greeting::Refuse(Response::error(0, "bad token"))
            },
        },
        _ => Greeting::Refuse(Response::error(0, "expected hello")),
    }
}

/// What a line of an accepted connection is, before it is parsed.
#[derive(Debug)]
pub enum Incoming {
    /// Nothing to answer.
    Blank,
    /// Answer with this.
    TooLarge(Response),
    /// Parse this text as a frame.
    Text(String),
}

/// Looks at a line of an accepted connection.
pub fn inspect(line: &str) -> (r: Incoming)
    ensures
        if line.len() > MAX_FRAME_BYTES {
            r matches Incoming::TooLarge(x) && x.is_error(0, "frame too large"@)
        } else if trimmed(line@).len() == 0 {
            r is Blank
        } else {
            r matches Incoming::Text(t) && t@ == trimmed(line@)
        },
{
    if line.len() > MAX_FRAME_BYTES {
        return Incoming::TooLarge(Response::error(0, "frame too large"));
    }
    let t = trim(line);
    if t.as_str().is_empty() {
        Incoming::Blank
    } else {
        Incoming::Text(t)
    }
}

/// What a request asks of the launcher.
#[derive(Debug, PartialEq, Eq)]
pub enum Action {
    Ping,
    Shutdown,
    /// Persist the profile for the next launch, and shut down.
    SwitchProfile(String),
    OpenTerminal,
    Restart,
}

/// Whether a method is routed to what it names.
pub open spec fn is_routed(
    r: Result<Action, String>,
    method: Seq<char>,
    name: Option<Seq<char>>,
) -> bool {
    if method == "ping"@ {
        r matches Ok(Action::Ping)
    } else if method == "shutdown"@ {
        r matches Ok(Action::Shutdown)
    } else if method == "switch-profile"@ {
        match name {
            Some(n) => r matches Ok(Action::SwitchProfile(x)) && x@ == n,
            None => r matches Err(e) && e@ == "switch-profile requires a string `name`"@,
        }
    } else if method == "open-terminal"@ {
        r matches Ok(Action::OpenTerminal)
    } else if method == "restart"@ {
        r matches Ok(Action::Restart)
    } else {
        r matches Err(e) && e@ == "unknown method: "@ + method
    }
}

/// Route one method to a launcher capability.
pub fn dispatch(method: &str, name: &Option<String>) -> (r: Result<Action, String>)
    ensures
        is_routed(r, method@, opt_view(*name)),
{
    if same(method, "ping") {
        Ok(Action::Ping)
    } else if same(method, "shutdown") {
        Ok(Action::Shutdown)
    } else if same(method, "switch-profile") {
        match name {
            Some(n) => Ok(Action::SwitchProfile(n.clone())),
            None => Err("switch-profile requires a string `name`".to_owned()),
        }
    } else if same(method, "open-terminal") {
        Ok(Action::OpenTerminal)
    } else if same(method, "restart") {
        Ok(Action::Restart)
    } else {
        Err("unknown method: ".to_owned().concat(method))
    }
}

/// What to do about a frame of an accepted connection.
#[derive(Debug)]
pub enum Served {
    /// Answer with this.
    Reply(Response),
    /// Do this, and [`answer`] the request of this number.
    Perform(u64, Action),
}

/// Whether a frame of an accepted connection is served as it should be: only
/// requests are, and each gets what its method names.
pub open spec fn is_served(r: Served, frame: Option<Frame>) -> bool {
    match frame {
        None => r matches Served::Reply(x) && x.is_error(0, "invalid frame"@),
        Some(Frame::Hello { .. }) => r matches Served::Reply(x) && x.is_error(
            0,
            "expected request"@,
        ),
        Some(Frame::Request { id, method, name }) => match r {
            Served::Perform(i, a) => i == id && is_routed(Ok(a), method@, opt_view(name)),
            Served::Reply(x) => x.error is Some && x.is_error(id, x.error->0@) && is_routed(
                Err(x.error->0),
                method@,
                opt_view(name),
            ),
        },
    }
}

/// A frame of an accepted connection, if the line could be parsed as one: only
/// requests are served.
pub fn serve(frame: Option<Frame>) -> (r: Served)
    ensures
        is_served(r, frame),
{
    match frame {
        None => Served::Reply(Response::error(0, "invalid frame")),
        Some(Frame::Hello { .. }) => Served::Reply(Response::error(0, "expected request")),
        Some(Frame::Request { id, method, name }) => match dispatch(method.as_str(), &name) {
            Ok(action) => Served::Perform(id, action),
            Err(e) => Served::Reply(Response::error(id, e.as_str())),
        },
    }
}

/// Where a connection stands.
#[derive(Debug, Clone, Copy, PartialEq, Eq, Structural)]
pub enum Phase {
    /// Nothing came yet.
    Greeting,
    /// The client has shown the token.
    Serving,
    /// The connection is over.
    Closed,
}

/// What to do about a line.
#[derive(Debug)]
pub enum Step {
    /// Wait for the next line.
    Wait,
    /// Send this, and wait for the next line.
    Send(Response),
    /// Do this, send the [`answer`] to the request of this number, and wait
    /// for the next line.
    Perform(u64, Action),
    /// Send this, and close the connection.
    Refuse(Response),
    /// Close the connection.
    Close,
}

/// One connection: authenticate, then serve requests.
#[derive(Debug)]
pub struct Connection {
    pub phase: Phase,
}

/// Whether a line of `size` bytes is the handshake with the token of this
/// launch.
pub open spec fn is_handshake(size: usize, frame: Option<Frame>, endpoint: Option<Endpoint>) -> bool {
    &&& size <= MAX_FRAME_BYTES
    &&& frame matches Some(Frame::Hello { token })
    &&& endpoint matches Some(e)
    &&& token@ == e.token@
}

/// The phase after a line.
pub open spec fn phase_after(
    phase: Phase,
    size: usize,
    frame: Option<Frame>,
    endpoint: Option<Endpoint>,
) -> Phase {
    match phase {
        Phase::Greeting => if is_handshake(size, frame, endpoint) {
            Phase::Serving
        } else {
            Phase::Closed
        },
        Phase::Serving => Phase::Serving,
        Phase::Closed => Phase::Closed,
    }
}

/// Whether a step is the one to take on a line in a phase.
pub open spec fn is_step(
    r: Step,
    phase: Phase,
    line: Seq<char>,
    size: usize,
    frame: Option<Frame>,
    endpoint: Option<Endpoint>,
) -> bool {
    match phase {
        Phase::Closed => r is Close,
        Phase::Greeting => match r {
            Step::Wait => is_greeting(Greeting::Accept, size, frame, endpoint),
            Step::Close => is_greeting(Greeting::Close, size, frame, endpoint),
            Step::Refuse(x) => is_greeting(Greeting::Refuse(x), size, frame, endpoint),
            _ => false,
        },
        Phase::Serving => if size > MAX_FRAME_BYTES {
            r matches Step::Send(x) && x.is_error(0, "frame too large"@)
        } else if trimmed(line).len() == 0 {
            r is Wait
        } else {
            match r {
                Step::Send(x) => is_served(Served::Reply(x), frame),
                Step::Perform(id, action) => is_served(Served::Perform(id, action), frame),
                _ => false,
            }
        },
    }
}

impl Connection {
    /// A connection that was just accepted.
    pub fn new() -> (r: Connection)
        ensures
            r.phase == Phase::Greeting,
    {
        Connection { phase: Phase::Greeting }
    }

    /// Takes a line, and the frame that it stands for without the white space
    /// around it, if it could be parsed.
    pub fn line(&mut self, line: &str, frame: Option<Frame>, endpoint: &Option<Endpoint>) -> (r:
        Step)
        ensures
            is_step(r, old(self).phase, line@, line.len(), frame, *endpoint),
            final(self).phase == phase_after(old(self).phase, line.len(), frame, *endpoint),
    {
        match self.phase {
            Phase::Closed => Step::Close,
            Phase::Greeting => match greet(line.len(), frame, endpoint) {
                Greeting::Accept => {
                    self.phase = Phase::Serving;
                    Step::Wait
                },
                Greeting::Close => {
                    self.phase = Phase::Closed;
                    Step::Close
                },
                Greeting::Refuse(response) => {
                    self.phase = Phase::Closed;
                    Step::Refuse(response)
                },
            },
            Phase::Serving => match inspect(line) {
                Incoming::Blank => Step::Wait,
                Incoming::TooLarge(response) => Step::Send(response),
                Incoming::Text(_) => match serve(frame) {
                    Served::Reply(response) => Step::Send(response),
                    Served::Perform(id, action) => Step::Perform(id, action),
                },
            },
        }
    }
}

/// The error of a terminal that could not be opened.
pub fn terminal_error(no_directory: bool, err: &str) -> (r: String)
    ensures
        r@ == (if no_directory {
            "open-terminal: no working directory ("@ + err@ + ")"@
        } else {
            "open-terminal: "@ + err@
        }),
{
    if no_directory {
        "open-terminal: no working directory (".to_owned().concat(err).concat(")")
    } else {
        "open-terminal: ".to_owned().concat(err)
    }
}

/// Whether a reply is the one to an action.
pub open spec fn is_reply(r: Reply, action: Action, version: Seq<char>) -> bool {
    match action {
        Action::Ping => r matches Reply::Pong { version: v } && v@ == version,
        Action::SwitchProfile(name) => r matches Reply::Pending { name: n } && n@ == name@,
        _ => r is Done,
    }
}

/// The response to a request after its action was performed.
pub fn answer(id: u64, action: &Action, outcome: Result<(), String>, version: &str) -> (r: Response)
    ensures
        r.wf(),
        match outcome {
            Ok(_) => {
                &&& r.id == id
                &&& r.error is None
                &&& r.result is Some
                &&& is_reply(r.result->0, *action, version@)
            },
            Err(e) => r.is_error(id, e@),
        },
{
    match outcome {
        Err(e) => Response::error(id, e.as_str()),
        Ok(_) => {
            let reply = match action {
                Action::Ping => Reply::Pong { version: version.to_owned() },
                Action::SwitchProfile(name) => Reply::Pending { name: name.clone() },
                _ => Reply::Done,
            };
            Response::ok(id, reply)
        },
    }
}

// ---- pending profile (switch-profile) ------------------------------------

/// Path of the persisted pending profile; read once by the next launch and
/// then cleared, so a `switch-profile` survives a full launcher restart.
pub fn pending_profile_path(host: &Host) -> (r: String)
    ensures
        r@ == path_in2(host.os, host@.cache_dir(), "dshl"@, "pending-profile"@),
{
    join(host.os, join(host.os, cache_dir(host).as_str(), "dshl").as_str(), "pending-profile")
}

/// The profile that a file names, given its content.
pub open spec fn profile_of(content: Option<Seq<char>>) -> Option<Seq<char>> {
    match content {
        Some(text) => if trimmed(text).len() == 0 {
            None
        } else {
            Some(trimmed(text))
        },
        None => None,
    }
}

/// The persisted pending profile, if any, given the content of its file.
pub fn take_pending_profile(content: &Option<String>) -> (r: Option<String>)
    ensures
        opt_view(r) == profile_of(opt_view(*content)),
{
    match content {
        Some(text) => {
            let t = trim(text.as_str());
            if t.as_str().is_empty() {
                None
            } else {
                Some(t)
            }
        },
        None => None,
    }
}

/// The first place of the `--profile` flag, or the length.
pub open spec fn profile_at(flags: Seq<Seq<char>>, from: int) -> int
    decreases flags.len() - from,
{
    if from < 0 || from >= flags.len() {
        flags.len() as int
    } else if flags[from] == "--profile"@ {
        from
    } else {
        profile_at(flags, from + 1)
    }
}

/// Flags with another profile: the value of the first `--profile` is replaced,
/// a missing value added, and without the flag both are appended.
pub open spec fn with_profile(flags: Seq<Seq<char>>, profile: Seq<char>) -> Seq<Seq<char>> {
    let i = profile_at(flags, 0);
    if i >= flags.len() {
        flags.push("--profile"@).push(profile)
    } else if i + 1 < flags.len() {
        flags.update(i + 1, profile)
    } else {
        flags.push(profile)
    }
}

proof fn lemma_profile_at(flags: Seq<Seq<char>>, from: int)
    requires
        0 <= from <= flags.len(),
    ensures
        from <= profile_at(flags, from) <= flags.len(),
        profile_at(flags, from) < flags.len() ==> flags[profile_at(flags, from)] == "--profile"@,
        forall|j: int| from <= j < profile_at(flags, from) ==> flags[j] != "--profile"@,
    decreases flags.len() - from,
{
    if from < flags.len() && flags[from] != "--profile"@ {
        lemma_profile_at(flags, from + 1);
    }
}

/// Substitute the profile name in a dsh flag vector: replace the value that
/// follows `--profile`, or append `--profile <name>` when absent.
pub fn override_profile_flags(flags: Vec<String>, profile: &str) -> (r: Vec<String>)
    ensures
        views(r@) == with_profile(views(flags@), profile@),
{
    let mut out = flags;
    let ghost all = views(flags@);
    let mut i: usize = 0;
    while i < out.len() && !same(out[i].as_str(), "--profile")
        invariant
            0 <= i <= out@.len(),
            out@ == flags@,
            all == views(flags@),
            profile_at(all, 0) == profile_at(all, i as int),
        decreases out@.len() - i,
    {
        assert(all[i as int] == out@[i as int]@);
        i += 1;
    }
    if i < out.len() {
        assert(all[i as int] == out@[i as int]@);
    }
    if i >= out.len() {
        out.push("--profile".to_owned());
        out.push(profile.to_owned());
    } else if i < out.len() - 1 {
        out.set(i + 1, profile.to_owned());
    } else {
        out.push(profile.to_owned());
    }
    assert(views(out@) =~= with_profile(all, profile@));
    out
}

/// Flags with the pending profile, given the content of its file.
pub open spec fn with_pending(flags: Seq<Seq<char>>, content: Option<Seq<char>>) -> Seq<Seq<char>> {
    match profile_of(content) {
        Some(profile) => with_profile(flags, profile),
        None => flags,
    }
}

/// Apply the pending profile, if the content of its file names one, to the dsh
/// flags.
pub fn apply_pending_profile(flags: Vec<String>, content: &Option<String>) -> (r: Vec<String>)
    ensures
        views(r@) == with_pending(views(flags@), opt_view(*content)),
{
    match take_pending_profile(content) {
        Some(profile) => override_profile_flags(flags, profile.as_str()),
        None => flags,
    }
}

// ---- laws ----------------------------------------------------------------

/// After a switch dsh boots with the chosen profile: the first `--profile` of
/// its flags has it as its value.
pub proof fn the_chosen_profile_is_booted(flags: Seq<Seq<char>>, profile: Seq<char>)
    ensures
        ({
            let out = with_profile(flags, profile);
            let i = profile_at(out, 0);
            i + 1 < out.len() && out[i + 1] == profile
        }),
{
    let out = with_profile(flags, profile);
    let i = profile_at(flags, 0);
    lemma_profile_at(flags, 0);
    lemma_profile_at(out, 0);
    let k = profile_at(out, 0);
    let place = if i >= flags.len() {
        flags.len() as int
    } else {
        i
    };
    assert(out[place] == "--profile"@);
    assert forall|j: int| 0 <= j < place implies out[j] != "--profile"@ by {
        assert(out[j] == flags[j]);
    }
    assert(k == place);
}

/// The last switch counts: it leaves no trace of the ones before it.
pub proof fn the_last_switch_counts(flags: Seq<Seq<char>>, first: Seq<char>, second: Seq<char>)
    ensures
        with_profile(with_profile(flags, first), second) == with_profile(flags, second),
{
    let out = with_profile(flags, first);
    let i = profile_at(flags, 0);
    lemma_profile_at(flags, 0);
    lemma_profile_at(out, 0);
    let place = if i >= flags.len() {
        flags.len() as int
    } else {
        i
    };
    assert(out[place] == "--profile"@);
    assert forall|j: int| 0 <= j < place implies out[j] != "--profile"@ by {
        assert(out[j] == flags[j]);
    }
    assert(profile_at(out, 0) == place);
    assert(with_profile(out, second) =~= with_profile(flags, second));
}

/// Once the control plane is started on the port of a bound listener, which is
/// never 0, its descriptor is there, and no later start changes it. Its token
/// is not empty and holds no `@`, so the descriptor can be taken apart again.
pub proof fn the_endpoint_stays(
    started: Option<Endpoint>,
    port: u16,
    later: Option<Endpoint>,
    other_port: u16,
)
    requires
        port > 0,
        is_started(None, started, port),
        is_started(started, later, other_port),
    ensures
        slot_url(None) is None,
        started matches Some(e) && {
            &&& slot_url(started) == Some(
                "dshl://"@ + e.token@ + "@127.0.0.1:"@ + dec(port as nat),
            )
            &&& e.token@.len() > 0
            &&& !e.token@.contains('@')
            &&& 1 <= e.port <= 65535
        },
        slot_url(later) == slot_url(started),
{
    let token = started->0.token@;
    if token.contains('@') {
        let i = choose|i: int| 0 <= i < token.len() && token[i] == '@';
        assert(is_hex(token[i]));
    }
}

/// The phase of a connection after some lines: the sizes, and the frames that
/// they stand for.
pub open spec fn phase_after_all(
    lines: Seq<(usize, Option<Frame>)>,
    endpoint: Option<Endpoint>,
) -> Phase
    decreases lines.len(),
{
    if lines.len() == 0 {
        Phase::Greeting
    } else {
        phase_after(
            phase_after_all(lines.drop_last(), endpoint),
            lines.last().0,
            lines.last().1,
            endpoint,
        )
    }
}

/// A stray process cannot drive the launcher: a connection is served only if
/// its very first line was the handshake with the token of this launch.
pub proof fn a_served_connection_began_with_the_token(
    lines: Seq<(usize, Option<Frame>)>,
    endpoint: Option<Endpoint>,
)
    requires
        phase_after_all(lines, endpoint) == Phase::Serving,
    ensures
        lines.len() > 0,
        is_handshake(lines[0].0, lines[0].1, endpoint),
    decreases lines.len(),
{
    reveal_with_fuel(phase_after_all, 2);
    if lines.len() > 1 {
        let before = lines.drop_last();
        if phase_after_all(before, endpoint) == Phase::Serving {
            a_served_connection_began_with_the_token(before, endpoint);
            assert(before[0] == lines[0]);
        } else {
            lemma_one_greeting(before, endpoint);
        }
    }
}

proof fn lemma_one_greeting(lines: Seq<(usize, Option<Frame>)>, endpoint: Option<Endpoint>)
    requires
        lines.len() > 0,
    ensures
        phase_after_all(lines, endpoint) != Phase::Greeting,
    decreases lines.len(),
{
}

/// Nothing is done for a client that is not served, and what is done for one
/// that is was asked for by a request of that number.
pub proof fn only_requests_of_served_clients_are_performed(
    phase: Phase,
    line: Seq<char>,
    size: usize,
    frame: Option<Frame>,
    endpoint: Option<Endpoint>,
    id: u64,
    action: Action,
)
    requires
        is_step(Step::Perform(id, action), phase, line, size, frame, endpoint),
    ensures
        phase == Phase::Serving,
        frame matches Some(Frame::Request { id: asked, .. }) && asked == id,
{
}

/// A client is served only after it sent the token of this launch.
pub proof fn only_the_token_opens_the_door(
    r: Greeting,
    size: usize,
    frame: Option<Frame>,
    endpoint: Option<Endpoint>,
)
    requires
        is_greeting(r, size, frame, endpoint),
    ensures
        r is Accept ==> {
            &&& endpoint is Some
            &&& frame matches Some(Frame::Hello { token })
            &&& token@ == endpoint->0.token@
        },
{
}

/// The token opens the door: a handshake with it, of at most 65536 bytes, is
/// accepted; another token is refused, and everything else but a handshake is
/// told what was expected.
pub proof fn the_token_is_accepted(
    r: Greeting,
    size: usize,
    frame: Frame,
    endpoint: Endpoint,
)
    requires
        is_greeting(r, size, Some(frame), Some(endpoint)),
    ensures
        size > 65536 ==> r is Close,
        size <= 65536 ==> (frame matches Frame::Hello { token } ==> {
            &&& token@ == endpoint.token@ <==> r is Accept
            &&& token@ != endpoint.token@ <==> r is Refuse
            &&& r matches Greeting::Refuse(x) ==> x.id == 0 && x.result is None && opt_view(x.error)
                == Some("bad token"@)
        }),
        size <= 65536 && frame is Request ==> (r matches Greeting::Refuse(x) && opt_view(x.error)
            == Some("expected hello"@)),
        r is Accept <==> phase_after(Phase::Greeting, size, Some(frame), Some(endpoint))
            == Phase::Serving,
        r is Accept <==> is_handshake(size, Some(frame), Some(endpoint)),
{
}

/// A connection that is served stays so, and one that is closed stays so.
pub proof fn a_phase_is_left_only_by_the_greeting(
    size: usize,
    frame: Option<Frame>,
    endpoint: Option<Endpoint>,
)
    ensures
        phase_after(Phase::Serving, size, frame, endpoint) == Phase::Serving,
        phase_after(Phase::Closed, size, frame, endpoint) == Phase::Closed,
        phase_after(Phase::Greeting, size, frame, endpoint) != Phase::Greeting,
        endpoint is None ==> phase_after(Phase::Greeting, size, frame, endpoint) == Phase::Closed,
{
}

proof fn lemma_methods()
    ensures
        "ping"@.len() == 4,
        "shutdown"@.len() == 8,
        "switch-profile"@.len() == 14,
        "open-terminal"@.len() == 13,
        "restart"@.len() == 7,
{
    reveal_strlit("ping");
    reveal_strlit("shutdown");
    reveal_strlit("switch-profile");
    reveal_strlit("open-terminal");
    reveal_strlit("restart");
}

/// Each method does what it is called, and what no method is called is refused
/// by its name.
pub proof fn each_method_does_what_it_is_called(
    r: Result<Action, String>,
    method: Seq<char>,
    name: Option<Seq<char>>,
)
    requires
        is_routed(r, method, name),
    ensures
        r matches Ok(Action::Ping) <==> method == "ping"@,
        r matches Ok(Action::Shutdown) <==> method == "shutdown"@,
        r matches Ok(Action::OpenTerminal) <==> method == "open-terminal"@,
        r matches Ok(Action::Restart) <==> method == "restart"@,
        r matches Ok(Action::SwitchProfile(_)) <==> method == "switch-profile"@ && name is Some,
        r matches Ok(Action::SwitchProfile(x)) ==> name == Some(x@),
        method == "switch-profile"@ && name is None ==> (r matches Err(e) && e@
            == "switch-profile requires a string `name`"@),
        method != "ping"@ && method != "shutdown"@ && method != "open-terminal"@ && method
            != "restart"@ && method != "switch-profile"@ ==> (r matches Err(e) && e@
            == "unknown method: "@ + method),
{
    lemma_methods();
}

/// A request of a served client is answered under its own number: it is
/// performed where its method is known, and refused with the reason otherwise.
pub proof fn a_request_is_answered_under_its_number(
    r: Step,
    line: Seq<char>,
    size: usize,
    id: u64,
    method: String,
    name: Option<String>,
    endpoint: Option<Endpoint>,
)
    requires
        is_step(
            r,
            Phase::Serving,
            line,
            size,
            Some(Frame::Request { id, method, name }),
            endpoint,
        ),
        size <= 65536,
        trimmed(line).len() > 0,
    ensures
        r matches Step::Perform(n, action) ==> n == id && is_routed(
            Ok(action),
            method@,
            opt_view(name),
        ),
        r matches Step::Send(x) ==> x.id == id && x.result is None && x.error is Some,
        r is Perform || r is Send,
        r is Perform <==> method@ == "ping"@ || method@ == "shutdown"@ || method@
            == "open-terminal"@ || method@ == "restart"@ || (method@ == "switch-profile"@
            && name is Some),
        method@ == "ping"@ ==> r == Step::Perform(id, Action::Ping),
        method@ == "shutdown"@ ==> r == Step::Perform(id, Action::Shutdown),
        method@ == "open-terminal"@ ==> r == Step::Perform(id, Action::OpenTerminal),
        method@ == "restart"@ ==> r == Step::Perform(id, Action::Restart),
{
    lemma_methods();
    match r {
        Step::Perform(n, action) => {
            each_method_does_what_it_is_called(Ok(action), method@, opt_view(name));
        },
        Step::Send(x) => {
            each_method_does_what_it_is_called(Err(x.error->0), method@, opt_view(name));
        },
        _ => {},
    }
}

/// What no request is gets no action: a line that cannot be read or is a second
/// handshake is answered with what is wrong, a blank one not at all, and one
/// that is too large is refused whatever it holds.
pub proof fn what_is_no_request_is_not_performed(
    r: Step,
    line: Seq<char>,
    size: usize,
    frame: Option<Frame>,
    endpoint: Option<Endpoint>,
)
    requires
        is_step(r, Phase::Serving, line, size, frame, endpoint),
    ensures
        r matches Step::Send(x) ==> x.result is None,
        size > 65536 || !(frame matches Some(Frame::Request { .. })) ==> (
        r matches Step::Send(x) ==> x.id == 0),
        size > 65536 ==> (r matches Step::Send(x) && opt_view(x.error) == Some("frame too large"@)),
        size <= 65536 && trimmed(line).len() == 0 ==> r is Wait,
        size <= 65536 && trimmed(line).len() > 0 && frame is None ==> (r matches Step::Send(x)
            && opt_view(x.error) == Some("invalid frame"@)),
        size <= 65536 && trimmed(line).len() > 0 && (frame matches Some(Frame::Hello { .. })) ==> (
        r matches Step::Send(x) && opt_view(x.error) == Some("expected request"@)),
        !(r is Close) && !(r is Refuse),
{
}

/// An action is answered by what it came to: a ping with the version, a switch
/// with the profile, and the others with their being done.
pub proof fn an_action_is_answered_by_its_outcome(r: Reply, action: Action, version: Seq<char>)
    requires
        is_reply(r, action, version),
    ensures
        action is Ping <==> r is Pong,
        action is SwitchProfile <==> r is Pending,
        r matches Reply::Pong { version: v } ==> v@ == version,
        action matches Action::SwitchProfile(name) ==> (r matches Reply::Pending { name: n } && n@
            == name@),
        action is Shutdown || action is OpenTerminal || action is Restart ==> r is Done,
{
}

/// A switch changes the profile and nothing else: the value behind the first
/// `--profile` is replaced where it stands, and without the flag it is appended
/// with its value.
pub proof fn a_switch_changes_nothing_else(
    before: Seq<Seq<char>>,
    value: Seq<char>,
    after: Seq<Seq<char>>,
    profile: Seq<char>,
)
    requires
        forall|i: int| 0 <= i < before.len() ==> #[trigger] before[i] != "--profile"@,
    ensures
        with_profile(before, profile) == before + seq!["--profile"@, profile],
        with_profile(before.push("--profile"@), profile) == before + seq!["--profile"@, profile],
        with_profile(before + seq!["--profile"@, value] + after, profile) == before
            + seq!["--profile"@, profile] + after,
{
    let n = before.len() as int;
    let bare = before.push("--profile"@);
    let full = before + seq!["--profile"@, value] + after;
    lemma_profile_at(before, 0);
    lemma_profile_at(bare, 0);
    lemma_profile_at(full, 0);
    assert(profile_at(before, 0) == n);
    assert(bare[n] == "--profile"@);
    assert(profile_at(bare, 0) == n) by {
        let k = profile_at(bare, 0);
        if k < n {
            assert(before[k] == bare[k]);
        }
    }
    assert(full[n] == "--profile"@);
    assert(profile_at(full, 0) == n) by {
        let k = profile_at(full, 0);
        if k < n {
            assert(before[k] == full[k]);
        }
    }
    assert(with_profile(before, profile) =~= before + seq!["--profile"@, profile]);
    assert(with_profile(bare, profile) =~= before + seq!["--profile"@, profile]);
    assert(with_profile(full, profile) =~= before + seq!["--profile"@, profile] + after);
}

/// A profile that was persisted is read back, with white space around it or
/// without; a blank file names none.
pub proof fn a_persisted_profile_is_read_back(
    before: Seq<char>,
    profile: Seq<char>,
    after: Seq<char>,
)
    requires
        all_white(before),
        all_white(after),
        profile.len() > 0 ==> !is_white(profile[0]) && !is_white(profile.last()),
    ensures
        profile_of(Some(before + profile + after)) == (if profile.len() > 0 {
            Some(profile)
        } else {
            None
        }),
        profile_of(None) is None,
{
    white_space_around_a_text_is_trimmed(before, profile, after);
}

/// A response holds a result or an error, never both and never neither.
pub proof fn a_response_holds_one_of_both(r: Response, id: u64, text: Seq<char>)
    ensures
        r.result is Some && r.error is None ==> r.wf(),
        r.result is None && r.error is Some ==> r.wf(),
        r.result is Some && r.error is Some ==> !r.wf(),
        r.result is None && r.error is None ==> !r.wf(),
        r.is_error(id, text) ==> r.wf() && r.id == id && r.error is Some && r.error->0@ == text,
{
}

/// A pending profile is the one that dsh boots with next, and without one the
/// flags stay as they are.
pub proof fn a_pending_profile_is_applied(
    flags: Seq<Seq<char>>,
    before: Seq<char>,
    profile: Seq<char>,
    after: Seq<char>,
)
    requires
        all_white(before),
        all_white(after),
        profile.len() > 0 ==> !is_white(profile[0]) && !is_white(profile.last()),
    ensures
        profile.len() > 0 ==> ({
            let out = with_pending(flags, Some(before + profile + after));
            let i = profile_at(out, 0);
            i + 1 < out.len() && out[i + 1] == profile
        }),
        profile.len() == 0 ==> with_pending(flags, Some(before + profile + after)) == flags,
        with_pending(flags, None) == flags,
{
    a_persisted_profile_is_read_back(before, profile, after);
    the_chosen_profile_is_booted(flags, profile);
}

/// An empty slot is filled by exactly those endpoints that have the port and a
/// token, and a filled one by the endpoint that is there.
pub proof fn a_slot_is_filled_once(there: Endpoint, other: Endpoint, port: u16)
    ensures
        is_started(None, Some(other), port) <==> other.port == port && is_token(other.token@),
        !is_started(None, None, port),
        is_started(Some(there), Some(other), port) <==> other == there,
        !is_started(Some(there), None, port),
{
}

} // verus!
