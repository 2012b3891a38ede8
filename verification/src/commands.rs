//! What is said to a player instance over its control channel, and how its
//! answer is read. A request is one line of JSON: an object whose member
//! `command` is the list of the operation's name and its arguments. An
//! answer is the first line that carries a status, its member `error`.

use vstd::prelude::*;
use vstd::string::StringExecFns;

use crate::index::{first_match, is_first, lemma_first_match};
use crate::json::{
    is_quoted, json_member, json_request, json_string, member_text, request_text, string_text,
    unquoted,
};

verus! {

/// One word of a command: the name of the operation or an argument.
#[derive(Debug)]
pub enum Argument {
    Text(String),
    Number(u64),
    Flag(bool),
}

/// What an `Argument` is in contracts.
pub enum ArgumentView {
    Text(Seq<char>),
    Number(u64),
    Flag(bool),
}

impl View for Argument {
    type V = ArgumentView;

    open spec fn view(&self) -> ArgumentView {
        match self {
            Argument::Text(text) => ArgumentView::Text(text@),
            Argument::Number(number) => ArgumentView::Number(*number),
            Argument::Flag(flag) => ArgumentView::Flag(*flag),
        }
    }
}

impl DeepView for Argument {
    type V = ArgumentView;

    open spec fn deep_view(&self) -> ArgumentView {
        self@
    }
}

/// A command for a player instance: the name of the operation, then its
/// arguments.
#[derive(Debug)]
pub struct Command {
    pub words: Vec<Argument>,
}

impl View for Command {
    type V = Seq<ArgumentView>;

    open spec fn view(&self) -> Seq<ArgumentView> {
        self.words.deep_view()
    }
}

/// A word of text, in contracts.
pub open spec fn word(text: &str) -> ArgumentView {
    ArgumentView::Text(text@)
}

fn text_word(text: &str) -> (argument: Argument)
    ensures
        argument@ == word(text),
{
    Argument::Text(String::from_str(text))
}

impl Command {
    /// The request line for this command, without the newline that ends it.
    pub fn render(&self) -> (line: String)
        ensures
            line@ == json_request("command"@, self@),
    {
        request_text("command", &self.words)
    }
}

/// The command that ends a player instance.
pub fn quit() -> (command: Command)
    ensures
        command@ == seq![word("quit")],
{
    let mut words: Vec<Argument> = Vec::new();
    words.push(text_word("quit"));
    Command { words }
}

/// The command that sets the volume of a player instance, in percent.
pub fn set_volume(volume: u8) -> (command: Command)
    ensures
        command@ == seq![
            word("set_property"),
            word("volume"),
            ArgumentView::Number(volume as u64),
        ],
{
    let mut words: Vec<Argument> = Vec::new();
    words.push(text_word("set_property"));
    words.push(text_word("volume"));
    words.push(Argument::Number(volume as u64));
    Command { words }
}

/// The command that asks a player instance for the property `name`.
pub fn get_property(name: &str) -> (command: Command)
    ensures
        command@ == seq![word("get_property"), word(name)],
{
    let mut words: Vec<Argument> = Vec::new();
    words.push(text_word("get_property"));
    words.push(text_word(name));
    Command { words }
}

/// The command that loads the item at `path` in place of what is loaded.
pub fn load_file(path: &str) -> (command: Command)
    ensures
        command@ == seq![word("loadfile"), word(path), word("replace")],
{
    let mut words: Vec<Argument> = Vec::new();
    words.push(text_word("loadfile"));
    words.push(text_word(path));
    words.push(text_word("replace"));
    Command { words }
}

/// The commands that start the item at `path` at `volume`: it is loaded,
/// then the volume is set. The item has started once its playback position
/// can be read.
pub fn start_video(path: &str, volume: u8) -> (commands: Vec<Command>)
    ensures
        commands.len() == 2,
        commands[0]@ == seq![word("loadfile"), word(path), word("replace")],
        commands[1]@ == seq![
            word("set_property"),
            word("volume"),
            ArgumentView::Number(volume as u64),
        ],
{
    let mut commands: Vec<Command> = Vec::new();
    commands.push(load_file(path));
    commands.push(set_volume(volume));
    commands
}

/// The commands that move a player instance to `screen` and fill it: full
/// screen off, the screen set, full screen on.
pub fn full_screen(screen: u64) -> (commands: Vec<Command>)
    ensures
        commands.len() == 3,
        commands[0]@ == seq![
            word("set_property"),
            word("fullscreen"),
            ArgumentView::Flag(false),
        ],
        commands[1]@ == seq![
            word("set_property"),
            word("fs-screen"),
            ArgumentView::Number(screen),
        ],
        commands[2]@ == seq![word("set_property"), word("fullscreen"), ArgumentView::Flag(true)],
{
    let mut commands: Vec<Command> = Vec::new();
    commands.push(set_flag("fullscreen", false));
    let mut words: Vec<Argument> = Vec::new();
    words.push(text_word("set_property"));
    words.push(text_word("fs-screen"));
    words.push(Argument::Number(screen));
    commands.push(Command { words });
    commands.push(set_flag("fullscreen", true));
    commands
}

fn set_flag(name: &str, flag: bool) -> (command: Command)
    ensures
        command@ == seq![word("set_property"), word(name), ArgumentView::Flag(flag)],
{
    let mut words: Vec<Argument> = Vec::new();
    words.push(text_word("set_property"));
    words.push(text_word(name));
    words.push(Argument::Flag(flag));
    Command { words }
}

/// What a player instance answers to a command that it has carried out: the
/// payload, its member `data`, as JSON text.
#[derive(Debug)]
pub struct Reply {
    pub data: Option<String>,
}

impl View for Reply {
    type V = Option<Seq<char>>;

    open spec fn view(&self) -> Option<Seq<char>> {
        self.data.deep_view()
    }
}

/// Why a command has no answer.
#[derive(Debug)]
pub enum ChannelError {
    /// The channel could not be opened.
    ConnectFailed(String),
    /// The command could not be written.
    WriteFailed(String),
    /// No line of the answer carries a status.
    MalformedResponse,
    /// The player reports another status than success: the status, as JSON
    /// text.
    RemoteError(String),
}

/// What a `ChannelError` is in contracts.
pub enum ChannelErrorView {
    ConnectFailed(Seq<char>),
    WriteFailed(Seq<char>),
    MalformedResponse,
    RemoteError(Seq<char>),
}

impl View for ChannelError {
    type V = ChannelErrorView;

    open spec fn view(&self) -> ChannelErrorView {
        match self {
            ChannelError::ConnectFailed(detail) => ChannelErrorView::ConnectFailed(detail@),
            ChannelError::WriteFailed(detail) => ChannelErrorView::WriteFailed(detail@),
            ChannelError::MalformedResponse => ChannelErrorView::MalformedResponse,
            ChannelError::RemoteError(detail) => ChannelErrorView::RemoteError(detail@),
        }
    }
}

/// The outcome of a command in contracts.
pub open spec fn outcome_view(outcome: Result<Reply, ChannelError>) -> Result<
    Option<Seq<char>>,
    ChannelErrorView,
> {
    match outcome {
        Ok(reply) => Ok(reply@),
        Err(error) => Err(error@),
    }
}

impl ChannelError {
    /// The error in words.
    pub fn message(&self) -> (text: String)
        ensures
            text@ == match self@ {
                ChannelErrorView::ConnectFailed(detail) => "Failed to connect to UNIX socket: "@
                    + detail,
                ChannelErrorView::WriteFailed(detail) => "Cannot write to UNIX socket: "@ + detail,
                ChannelErrorView::MalformedResponse => "Response from mpv is not valid JSON"@,
                ChannelErrorView::RemoteError(detail) => detail,
            },
    {
        match self {
            ChannelError::ConnectFailed(detail) => String::from_str(
                "Failed to connect to UNIX socket: ",
            ).concat(detail.as_str()),
            ChannelError::WriteFailed(detail) => String::from_str(
                "Cannot write to UNIX socket: ",
            ).concat(detail.as_str()),
            ChannelError::MalformedResponse => String::from_str(
                "Response from mpv is not valid JSON",
            ),
            ChannelError::RemoteError(detail) => detail.clone(),
        }
    }
}

/// What the client reads in one line of JSON: the status, its member
/// `error`, and the payload, its member `data`, each as JSON text.
#[derive(Debug)]
pub struct Line {
    pub status: Option<String>,
    pub data: Option<String>,
}

/// What a `Line` is in contracts.
pub struct LineView {
    pub status: Option<Seq<char>>,
    pub data: Option<Seq<char>>,
}

impl View for Line {
    type V = LineView;

    open spec fn view(&self) -> LineView {
        LineView { status: self.status.deep_view(), data: self.data.deep_view() }
    }
}

impl DeepView for Line {
    type V = LineView;

    open spec fn deep_view(&self) -> LineView {
        self@
    }
}

/// The status of a command that was carried out, as JSON text.
pub open spec fn success() -> Seq<char> {
    "\"success\""@
}

/// What `text` holds for the client: nothing where it is not JSON.
pub open spec fn line_of(text: Seq<char>) -> Option<LineView> {
    match json_member(text, "error"@) {
        Some(status) => Some(
            LineView {
                status,
                data: match json_member(text, "data"@) {
                    Some(data) => data,
                    None => None,
                },
            },
        ),
        None => None,
    }
}

/// What a line decides: nothing where it is not JSON or carries no status;
/// the payload where the status is success; else the status as an error.
pub open spec fn verdict_of(line: Option<LineView>) -> Option<
    Result<Option<Seq<char>>, ChannelErrorView>,
> {
    match line {
        Some(LineView { status: Some(status), data }) => Some(
            if status == success() {
                Ok(data)
            } else {
                Err(ChannelErrorView::RemoteError(status))
            },
        ),
        _ => None,
    }
}

/// For each line, whether it decides.
pub open spec fn decisive(lines: Seq<Option<LineView>>) -> Seq<bool> {
    Seq::new(lines.len(), |i: int| verdict_of(lines[i]) is Some)
}

/// What the lines of an answer decide: what the first line decides that
/// decides anything; where there is none, the answer is malformed.
pub open spec fn answer_of(lines: Seq<Option<LineView>>) -> Result<
    Option<Seq<char>>,
    ChannelErrorView,
> {
    match first_match(decisive(lines)) {
        Some(i) => verdict_of(lines[i]).unwrap(),
        None => Err(ChannelErrorView::MalformedResponse),
    }
}

/// The lines of a transcript, each as the client reads it.
pub open spec fn lines_of(transcript: Seq<String>) -> Seq<Option<LineView>> {
    Seq::new(transcript.len(), |i: int| line_of(transcript[i]@))
}

/// Reads one line of an answer.
pub fn read_line(text: &str) -> (line: Option<Line>)
    ensures
        line.deep_view() == line_of(text@),
{
    match member_text(text, "error") {
        Ok(status) => {
            let data: Option<String> = match member_text(text, "data") {
                Ok(data) => data,
                Err(_) => None,
            };
            Some(Line { status, data })
        },
        Err(_) => None,
    }
}

fn copy_of(text: &Option<String>) -> (copy: Option<String>)
    ensures
        copy.deep_view() == text.deep_view(),
{
    match text {
        Some(text) => Some(text.clone()),
        None => None,
    }
}

/// What one line of an answer decides; `None` where the answer is to be read
/// on.
pub fn verdict(line: &Option<Line>) -> (decided: Option<Result<Reply, ChannelError>>)
    ensures
        match decided {
            Some(outcome) => verdict_of(line.deep_view()) == Some(outcome_view(outcome)),
            None => verdict_of(line.deep_view()) is None,
        },
{
    match line {
        Some(Line { status: Some(status), data }) => {
            if *status == String::from_str("\"success\"") {
                Some(Ok(Reply { data: copy_of(data) }))
            } else {
                Some(Err(ChannelError::RemoteError(status.clone())))
            }
        },
        _ => None,
    }
}

/// What the lines of an answer decide, the lines being given as they were
/// read.
pub fn answer(lines: &Vec<Option<Line>>) -> (outcome: Result<Reply, ChannelError>)
    ensures
        outcome_view(outcome) == answer_of(lines.deep_view()),
{
    let ghost flags = decisive(lines.deep_view());
    proof {
        lemma_first_match(flags);
    }
    let mut i: usize = 0;
    while i < lines.len()
        invariant
            i <= lines.len(),
            flags == decisive(lines.deep_view()),
            forall|j: int| 0 <= j < i ==> !flags[j],
        decreases lines.len() - i,
    {
        match verdict(&lines[i]) {
            Some(outcome) => {
                assert(is_first(flags, i as int));
                return outcome;
            },
            None => {},
        }
        i += 1;
    }
    Err(ChannelError::MalformedResponse)
}

/// What is decided when a line of the answer comes in, and when the
/// channel ends: a line decides what `verdict` finds in it, and the end of
/// the channel, `None`, decides that the answer is malformed. `None` comes
/// back where the answer is to be read on.
pub fn hear(line: Option<&str>) -> (decided: Option<Result<Reply, ChannelError>>)
    ensures
        match line {
            Some(text) => match decided {
                Some(outcome) => verdict_of(line_of(text@)) == Some(outcome_view(outcome)),
                None => verdict_of(line_of(text@)) is None,
            },
            None => decided matches Some(Err(ChannelError::MalformedResponse)),
        },
{
    match line {
        Some(text) => verdict(&read_line(text)),
        None => Some(Err(ChannelError::MalformedResponse)),
    }
}

/// What the answer to a command is, given the lines that came back for it:
/// the payload of the first line that carries a status, if that status is
/// success; the status as an error, if it is another; and a malformed
/// response where no line carries one.
pub fn send_msg(transcript: &Vec<String>) -> (outcome: Result<Reply, ChannelError>)
    ensures
        outcome_view(outcome) == answer_of(lines_of(transcript@)),
{
    let mut lines: Vec<Option<Line>> = Vec::new();
    let mut i: usize = 0;
    while i < transcript.len()
        invariant
            i <= transcript.len(),
            lines.len() == i,
            forall|j: int| 0 <= j < i ==> lines[j].deep_view() == line_of(transcript[j]@),
        decreases transcript.len() - i,
    {
        lines.push(read_line(transcript[i].as_str()));
        i += 1;
    }
    assert(lines.deep_view() == lines_of(transcript@));
    answer(&lines)
}

/// The path that the payload of an answer holds: the string that the
/// payload is, where it is a JSON string.
pub open spec fn path_of(outcome: Result<Option<Seq<char>>, ChannelErrorView>) -> Option<
    Seq<char>,
> {
    match outcome {
        Ok(Some(data)) => json_string(data),
        _ => None,
    }
}

/// The path of the item that a player instance has loaded, given the
/// outcome of asking for it: the string that the payload of the answer
/// holds. `None` where the command has no answer, where the answer has no
/// payload, and where the payload is no string. A payload that is a run of
/// plain characters between two quotation marks holds just that run.
pub fn get_video_path(outcome: Result<Reply, ChannelError>) -> (path: Option<String>)
    ensures
        path.deep_view() == path_of(outcome_view(outcome)),
        outcome_view(outcome) matches Ok(Some(data)) ==> (is_quoted(data) ==> path.deep_view()
            == Some(unquoted(data))),
{
    match outcome {
        Ok(Reply { data: Some(data) }) => match string_text(data.as_str()) {
            Ok(path) => Some(path),
            Err(_) => None,
        },
        _ => None,
    }
}

} // verus!
