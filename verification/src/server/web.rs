//! What the web surface answers: for each request, once the files are read
//! or written, the status of the reply, what its body holds, and the
//! command for the hub if there is one.

use crate::schedule::authored::{segments, texts, Schedule};
use crate::schedule::error::{ScheduleError, ScheduleErrorView};
use crate::schedule::normalized::{NormalizedSchedule, NormalizedStep};
use crate::schedule::parser::step_result;
use crate::schedule::text::chars_of;
use crate::server::command::{Command, Message};
use crate::server::manager::deliver;
use tokio::sync::mpsc::UnboundedSender;
use vstd::prelude::*;
use vstd::string::StringExecFns;

verus! {

/// The HTTP status of a request that was served.
pub const OK: u16 = 200;

/// The HTTP status of a request that cannot be read.
pub const BAD_REQUEST: u16 = 400;

/// The HTTP status of a request for what is not there.
pub const NOT_FOUND: u16 = 404;

/// The HTTP status of a request whose content is not acceptable.
pub const NOT_ACCEPTABLE: u16 = 406;

/// The HTTP status of a request that failed on the server's side.
pub const INTERNAL_SERVER_ERROR: u16 = 500;

/// The body of a reply that tells of a problem: what happened, in words,
/// and the error behind it.
#[derive(Clone, Debug, PartialEq, Eq)]
pub struct ErrorResponse {
    pub message: String,
    pub error: String,
}

/// What the body of a reply holds. All but `Text` is sent as JSON.
#[derive(Clone, Debug, PartialEq, Eq)]
pub enum Body {
    /// Text to send as it is.
    Text(String),
    Problem(ErrorResponse),
    Schedule(Schedule),
    Normalized(NormalizedSchedule),
    Step(NormalizedStep),
}

/// A reply: its HTTP status and its body.
#[derive(Clone, Debug, PartialEq, Eq)]
pub struct Reply {
    pub status: u16,
    pub body: Body,
}

/// A body as mathematics.
pub enum BodyView {
    Text(Seq<char>),
    Problem { message: Seq<char>, error: Seq<char> },
    Schedule(Schedule),
    Normalized(NormalizedSchedule),
    Step(NormalizedStep),
}

/// A reply as mathematics.
pub struct ReplyView {
    pub status: u16,
    pub body: BodyView,
}

impl View for Body {
    type V = BodyView;

    open spec fn view(&self) -> BodyView {
        match *self {
            Body::Text(text) => BodyView::Text(text@),
            Body::Problem(problem) => BodyView::Problem {
                message: problem.message@,
                error: problem.error@,
            },
            Body::Schedule(schedule) => BodyView::Schedule(schedule),
            Body::Normalized(schedule) => BodyView::Normalized(schedule),
            Body::Step(step) => BodyView::Step(step),
        }
    }
}

impl View for Reply {
    type V = ReplyView;

    open spec fn view(&self) -> ReplyView {
        ReplyView { status: self.status, body: self.body@ }
    }
}

/// The reply that tells of a problem.
pub open spec fn problem(status: u16, message: Seq<char>, error: Seq<char>) -> ReplyView {
    ReplyView { status, body: BodyView::Problem { message, error } }
}

/// The reply that sends a text.
pub open spec fn text(status: u16, text: Seq<char>) -> ReplyView {
    ReplyView { status, body: BodyView::Text(text) }
}

/// The reply to a request that failed with a schedule error: a schedule
/// that could not be read is not found, anything else is the server's
/// fault.
pub open spec fn failure(error: ScheduleErrorView, missing: Seq<char>, other: Seq<char>)
    -> ReplyView {
    match error {
        ScheduleErrorView::IOError { description } => problem(NOT_FOUND, missing, description),
        _ => problem(INTERNAL_SERVER_ERROR, other, error.message()),
    }
}

/// `prefix`, the name, and a closing bracket.
pub open spec fn naming(prefix: Seq<char>, name: Seq<char>) -> Seq<char> {
    prefix + name + "]"@
}

/// The body of the reply to a step that could not be parsed.
pub open spec fn step_problem(reason: Seq<char>) -> Seq<char> {
    "{ \"message\": \""@ + reason + "\" }"@
}

/// The text that percent-decoding gives, as the `percent-encoding` crate
/// decodes it: every `%` with two hexadecimal digits after it becomes the
/// byte they write, and the bytes are read as UTF-8. `None` where the bytes
/// are no UTF-8.
pub uninterp spec fn percent_decoded(input: Seq<char>) -> Option<Seq<char>>;

/// The id that a text writes, as the `uuid` crate reads it: 32
/// hexadecimal digits, plain, with hyphens, in braces or as a URN. `None`
/// for any other text.
pub uninterp spec fn uuid_parsed(input: Seq<char>) -> Option<u128>;

/// `percent_encoding::percent_decode` followed by `decode_utf8`: decodes
/// the percent-encoded bytes of the text and reads them as UTF-8, which
/// fails for bytes that are none. The answer depends on the text alone.
#[verifier::external_body]
fn decode_percent(input: &str) -> (decoded: Option<String>)
    ensures
        decoded matches Some(text) ==> percent_decoded(input@) == Some(text@),
        decoded is None ==> percent_decoded(input@) is None,
{
    match percent_encoding::percent_decode(input.as_bytes()).decode_utf8() {
        Ok(text) => Some(text.into_owned()),
        Err(_) => None,
    }
}

/// `uuid::Uuid::parse_str` followed by `as_u128`: reads the text as a
/// UUID, which fails for a text that writes none, and gives its 128 bits
/// as one number. The answer depends on the text alone.
#[verifier::external_body]
fn parse_id(input: &str) -> (id: Option<u128>)
    ensures
        id == uuid_parsed(input@),
{
    match uuid::Uuid::parse_str(input) {
        Ok(id) => Some(id.as_u128()),
        Err(_) => None,
    }
}

/// The media type that a path's extension stands for, as the `mime_guess`
/// crate has it in its table, `application/octet-stream` where the path has
/// no extension or the table has none for it.
pub uninterp spec fn mime_guessed(path: Seq<char>) -> Seq<char>;

/// `mime_guess::from_path` followed by `first_or_octet_stream`: looks the
/// path's extension up in the crate's table of media types and takes the
/// first, or `application/octet-stream` where there is none. The answer
/// depends on the path alone.
#[verifier::external_body]
fn guess_mime(path: &str) -> (mime: String)
    ensures
        mime@ == mime_guessed(path@),
{
    String::from(mime_guess::from_path(path).first_or_octet_stream().as_ref())
}

/// `uuid::Uuid::new_v4` followed by `as_u128`: a random UUID as one
/// number. Nothing is claimed of it.
#[verifier::external_body]
fn fresh_id() -> (id: u128) {
    uuid::Uuid::new_v4().as_u128()
}

fn problem_reply(status: u16, message: String, error: String) -> (reply: Reply)
    ensures
        reply@ == problem(status, message@, error@),
{
    Reply { status, body: Body::Problem(ErrorResponse { message, error }) }
}

fn text_reply(status: u16, body: String) -> (reply: Reply)
    ensures
        reply@ == text(status, body@),
{
    Reply { status, body: Body::Text(body) }
}

fn name_in(prefix: &str, name: &String) -> (sentence: String)
    ensures
        sentence@ == naming(prefix@, name@),
{
    String::from_str(prefix).concat(name.as_str()).concat("]")
}

/// The reply to a request that failed with a schedule error.
pub fn failure_reply(error: ScheduleError, missing: String, other: String) -> (reply: Reply)
    ensures
        reply@ == failure(error@, missing@, other@),
{
    match error {
        ScheduleError::IOError { description } => problem_reply(NOT_FOUND, missing, description),
        _ => {
            let text = error.message();
            problem_reply(INTERNAL_SERVER_ERROR, other, text)
        },
    }
}

/// Answers a request to start the schedule with the name, given what
/// loading it gave: the schedule is normalized and handed to the hub in a
/// command.
pub fn start(name: &String, loaded: Result<Schedule, ScheduleError>) -> (answer: (
    Reply,
    Option<Command>,
))
    ensures
        match loaded {
            Ok(schedule) => match segments(texts(schedule.steps@)) {
                Ok(steps) => {
                    &&& answer.0@ == text(OK, "{ \"message\": \"started\" }"@)
                    &&& answer.1 matches Some(Command::StartSchedule { schedule: normalized })
                    &&& normalized.steps@ == steps
                    &&& normalized.name == schedule.name
                    &&& normalized.description == schedule.description
                    &&& normalized.scale == schedule.scale
                },
                Err(reason) => answer.0@ == problem(
                    INTERNAL_SERVER_ERROR,
                    naming("error starting schedule with name: ["@, name@),
                    (ScheduleErrorView::InvalidStep { description: reason }).message(),
                ) && answer.1 is None,
            },
            Err(error) => answer.0@ == failure(
                error@,
                naming("unable to find schedule with name ["@, name@),
                naming("unknown error starting schedule with name ["@, name@),
            ) && answer.1 is None,
        },
{
    match loaded {
        Ok(schedule) => match schedule.normalize() {
            Ok(normalized) => (
                text_reply(OK, String::from_str("{ \"message\": \"started\" }")),
                Some(Command::StartSchedule { schedule: normalized }),
            ),
            Err(error) => (
                problem_reply(
                    INTERNAL_SERVER_ERROR,
                    name_in("error starting schedule with name: [", name),
                    error.message(),
                ),
                None,
            ),
        },
        Err(error) => (
            failure_reply(
                error,
                name_in("unable to find schedule with name [", name),
                name_in("unknown error starting schedule with name [", name),
            ),
            None,
        ),
    }
}

/// Answers a request to stop the kiln.
pub fn stop() -> (answer: (Reply, Command))
    ensures
        answer.0@ == text(OK, "{ \"message\": \"stopped\" }"@),
        answer.1 is StopSchedule,
{
    (text_reply(OK, String::from_str("{ \"message\": \"stopped\" }")), Command::StopSchedule)
}

/// Answers a request for the schedule with the name, normalized if asked
/// for, given what loading it gave.
pub fn by_name(name: &String, loaded: Result<Schedule, ScheduleError>, normalize: bool) -> (reply:
    Reply)
    ensures
        match loaded {
            Ok(schedule) => if normalize {
                match segments(texts(schedule.steps@)) {
                    Ok(steps) => {
                        &&& reply.status == OK
                        &&& reply.body matches Body::Normalized(normalized)
                        &&& normalized.steps@ == steps
                        &&& normalized.name == schedule.name
                        &&& normalized.description == schedule.description
                        &&& normalized.scale == schedule.scale
                    },
                    Err(reason) => reply@ == problem(
                        INTERNAL_SERVER_ERROR,
                        "unknown error querying for schedule"@,
                        (ScheduleErrorView::InvalidStep { description: reason }).message(),
                    ),
                }
            } else {
                reply@ == (ReplyView { status: OK, body: BodyView::Schedule(schedule) })
            },
            Err(error) => reply@ == failure(
                error@,
                naming("cannot find schedule with name ["@, name@),
                "unknown error querying for schedule"@,
            ),
        },
{
    match loaded {
        Ok(schedule) => {
            if normalize {
                match schedule.normalize() {
                    Ok(normalized) => Reply { status: OK, body: Body::Normalized(normalized) },
                    Err(error) => problem_reply(
                        INTERNAL_SERVER_ERROR,
                        String::from_str("unknown error querying for schedule"),
                        error.message(),
                    ),
                }
            } else {
                Reply { status: OK, body: Body::Schedule(schedule) }
            }
        },
        Err(error) => failure_reply(
            error,
            name_in("cannot find schedule with name [", name),
            String::from_str("unknown error querying for schedule"),
        ),
    }
}

/// Answers a request that stored or removed a schedule: the schedule's id,
/// or the problem under the given message.
fn stored_reply(stored: Result<String, ScheduleError>, message: &str) -> (reply: Reply)
    ensures
        match stored {
            Ok(id) => reply@ == text(OK, id@),
            Err(error) => reply@ == problem(INTERNAL_SERVER_ERROR, message@, error@.message()),
        },
{
    match stored {
        Ok(id) => text_reply(OK, id),
        Err(error) => {
            let text = error.message();
            problem_reply(INTERNAL_SERVER_ERROR, String::from_str(message), text)
        },
    }
}

/// Answers a request to create a schedule, given what storing it gave.
pub fn new(stored: Result<String, ScheduleError>) -> (reply: Reply)
    ensures
        match stored {
            Ok(id) => reply@ == text(OK, id@),
            Err(error) => reply@ == problem(
                INTERNAL_SERVER_ERROR,
                "unknown error creating new schedule"@,
                error@.message(),
            ),
        },
{
    stored_reply(stored, "unknown error creating new schedule")
}

/// Answers a request to replace a schedule, given what storing it gave.
pub fn update(stored: Result<String, ScheduleError>) -> (reply: Reply)
    ensures
        match stored {
            Ok(id) => reply@ == text(OK, id@),
            Err(error) => reply@ == problem(
                INTERNAL_SERVER_ERROR,
                "unknown error updating schedule"@,
                error@.message(),
            ),
        },
{
    stored_reply(stored, "unknown error updating schedule")
}

/// Answers a request to delete a schedule, given what removing it gave.
pub fn delete(removed: Result<String, ScheduleError>) -> (reply: Reply)
    ensures
        match removed {
            Ok(id) => reply@ == text(OK, id@),
            Err(error) => reply@ == problem(
                INTERNAL_SERVER_ERROR,
                "unknown error deleting schedule"@,
                error@.message(),
            ),
        },
{
    stored_reply(removed, "unknown error deleting schedule")
}

/// The folder that holds the files of the web application.
pub const ASSET_FOLDER: &'static str = "public";

/// Whether a requested path names a file below the folder of the web
/// application: it is not empty, does not start at the root, leads through
/// no parent folder, and has no backslash in it. To keep the test simple no
/// two points may follow each other anywhere in it.
pub open spec fn is_below(path: Seq<char>) -> bool {
    &&& path.len() > 0
    &&& path[0] != '/'
    &&& forall|i: int| 0 <= i < path.len() ==> #[trigger] path[i] != '\\'
    &&& forall|i: int| 0 <= i < path.len() - 1 ==> !(#[trigger] path[i] == '.' && path[i + 1] == '.')
}

/// Where the file for a requested path is kept, if the path may be asked for.
pub fn asset_path(path: &str) -> (file: Option<String>)
    ensures
        match file {
            Some(kept) => is_below(path@) && kept@ == ASSET_FOLDER@ + "/"@ + path@,
            None => !is_below(path@),
        },
{
    let chars = chars_of(path);
    if chars.len() == 0 || chars[0] == '/' {
        return None;
    }
    let mut i: usize = 0;
    while i < chars.len()
        invariant
            i <= chars.len(),
            chars@ == path@,
            forall|j: int| 0 <= j < i ==> #[trigger] chars[j] != '\\',
            forall|j: int| 0 <= j < i && j < chars.len() - 1 ==> !(#[trigger] chars[j] == '.'
                && chars[j + 1] == '.'),
        decreases chars.len() - i,
    {
        if chars[i] == '\\' {
            return None;
        }
        if chars[i] == '.' && i + 1 < chars.len() && chars[i + 1] == '.' {
            return None;
        }
        i += 1;
    }
    Some(String::from_str(ASSET_FOLDER).concat("/").concat(path))
}

/// The reply to a request for a file of the web application, without
/// the file itself: the status, and the media type to send the file as.
#[derive(Clone, Debug, PartialEq, Eq)]
pub struct FileReply {
    pub status: u16,
    pub content_type: Option<String>,
}

/// Answers a request for a file, given whether it was found and the
/// media type of its path.
pub fn file_reply(found: bool, mime: String) -> (reply: FileReply)
    ensures
        found ==> reply.status == OK && reply.content_type == Some(mime),
        !found ==> reply.status == NOT_FOUND && reply.content_type is None,
{
    if found {
        FileReply { status: OK, content_type: Some(mime) }
    } else {
        FileReply { status: NOT_FOUND, content_type: None }
    }
}

/// Answers a request for the file at `path`, given whether it was found:
/// a file that was found is sent as the media type of its extension.
pub fn serve_file(path: &str, found: bool) -> (reply: FileReply)
    ensures
        found ==> reply.status == OK && (reply.content_type matches Some(mime) && mime@
            == mime_guessed(path@)),
        !found ==> reply.status == NOT_FOUND && reply.content_type is None,
{
    file_reply(found, guess_mime(path))
}

/// What is answered to a request to parse a step, given what
/// percent-decoding the request gave.
pub open spec fn parse_answer(decoded: Option<Seq<char>>) -> ReplyView {
    match decoded {
        Some(input) => match step_result(input, None) {
            Ok(step) => ReplyView { status: OK, body: BodyView::Step(step) },
            Err(reason) => text(
                NOT_ACCEPTABLE,
                step_problem((ScheduleErrorView::InvalidStep { description: reason }).message()),
            ),
        },
        None => text(
            BAD_REQUEST,
            "{ \"message\": \"error parsing request\", \"error\": \"invalid utf-8 sequence\" }"@,
        ),
    }
}

/// Answers a request to parse a step, given what percent-decoding the
/// request gave: the step's segment, or why the text is not acceptable.
pub fn parse_decoded(decoded: Option<String>) -> (reply: Reply)
    ensures
        reply@ == parse_answer(
            match decoded {
                Some(input) => Some(input@),
                None => None,
            },
        ),
{
    match decoded {
        Some(input) => match Schedule::parse(&input) {
            Ok(step) => Reply { status: OK, body: Body::Step(step) },
            Err(error) => text_reply(
                NOT_ACCEPTABLE,
                String::from_str("{ \"message\": \"").concat(error.message().as_str()).concat(
                    "\" }",
                ),
            ),
        },
        None => text_reply(
            BAD_REQUEST,
            String::from_str(
                "{ \"message\": \"error parsing request\", \"error\": \"invalid utf-8 sequence\" }",
            ),
        ),
    }
}

/// Answers a request to parse the percent-encoded step.
pub fn parse(to_parse: &String) -> (reply: Reply)
    ensures
        reply@ == parse_answer(percent_decoded(to_parse@)),
{
    parse_decoded(decode_percent(to_parse.as_str()))
}

/// Answers a request to subscribe a client to a channel, given the id
/// that the request names, if it names one: the command for the hub, or a
/// bad request.
pub fn subscribe_as(id: Option<u128>, channel: String) -> (answer: (Reply, Option<Command>))
    ensures
        match id {
            Some(client) => {
                &&& answer.0@ == text(OK, "{}"@)
                &&& answer.1 matches Some(Command::Subscribe { channel: c, id: i })
                &&& c@ == channel@
                &&& i == client
            },
            None => answer.0@ == text(BAD_REQUEST, "{ \"message\": \"invalid client id\" }"@)
                && answer.1 is None,
        },
{
    match id {
        Some(client) => (
            text_reply(OK, String::from_str("{}")),
            Some(Command::Subscribe { channel, id: client }),
        ),
        None => (
            text_reply(BAD_REQUEST, String::from_str("{ \"message\": \"invalid client id\" }")),
            None,
        ),
    }
}

/// Answers a request to subscribe the client with the written id to a
/// channel.
pub fn subscribe(id: &String, channel: String) -> (answer: (Reply, Option<Command>))
    ensures
        match uuid_parsed(id@) {
            Some(client) => {
                &&& answer.0@ == text(OK, "{}"@)
                &&& answer.1 matches Some(Command::Subscribe { channel: c, id: i })
                &&& c@ == channel@
                &&& i == client
            },
            None => answer.0@ == text(BAD_REQUEST, "{ \"message\": \"invalid client id\" }"@)
                && answer.1 is None,
        },
{
    subscribe_as(parse_id(id.as_str()), channel)
}

/// Welcomes a client that connected with the queue `sender`: gives it a
/// fresh id, tells it the id, and makes the command that registers it with
/// the hub. `None` where the client could not be told, because it is gone
/// already.
pub fn on_connect(sender: UnboundedSender<Message>) -> (welcome: Option<(u128, Command)>)
    ensures
        exists|id: u128, delivered: bool| welcome == #[trigger] welcomed(id, delivered, sender),
        welcome matches Some((id, command)) ==> command == (Command::ClientRegister { id, sender }),
{
    let id = fresh_id();
    let delivered = deliver(&sender, Message::UserId(id));
    welcome_as(id, delivered, sender)
}

/// What a client is welcomed with, given the id that was drawn for it and
/// whether the message with the id was delivered to it: the id and the
/// command that registers the client under that id with its own queue, or
/// nothing for a client that could not be told.
pub open spec fn welcomed(id: u128, delivered: bool, sender: UnboundedSender<Message>) -> Option<
    (u128, Command),
> {
    if delivered {
        Some((id, Command::ClientRegister { id, sender }))
    } else {
        None
    }
}

/// Welcomes a client that has the queue `sender`, given the id that was
/// drawn for it and whether the message with the id was delivered to it.
pub fn welcome_as(id: u128, delivered: bool, sender: UnboundedSender<Message>) -> (welcome: Option<
    (u128, Command),
>)
    ensures
        welcome == welcomed(id, delivered, sender),
{
    if delivered {
        Some((id, Command::ClientRegister { id, sender }))
    } else {
        None
    }
}

} // verus!
