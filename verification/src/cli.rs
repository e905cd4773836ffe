//! The decisions and texts of the command-line front end: the chat screen's
//! state and key handling, the listing rows of sessions and memories, the
//! streamed first turn of a one-shot agent run, and the onboarding
//! configuration file.
use vstd::prelude::*;
use crate::message::Role;
use crate::provider::LlmChunk;
use crate::session::{role_name, role_to_str};
use crate::text::{
    chars_of, concat, concat3, decimal, eq_ignore_ascii_case, join_strings, joined, pad_right,
    pad_right_str, push_char, repeat_char, str_eq, str_eq_ignore_ascii_case, string_from_range, trim,
    trim_str, u64_to_decimal, views,
};

verus! {

/// The `sessions` subcommands.
#[derive(Debug)]
pub enum SessionCommands {
    /// List all sessions
    List,
    /// Clear all sessions
    Clear,
}

/// The `memory` subcommands.
#[derive(Debug)]
pub enum MemoryCommands {
    /// List all memory entries
    List,
    /// Search memory for a query
    Search { query: String, top_k: usize },
    /// Forget (delete) a memory entry by ID
    Forget { id: String },
    /// Clear all memory entries
    Clear,
}

/// The chat screen: the conversation shown (role, text), the line being
/// typed, and the status line.
#[derive(Debug)]
pub struct ChatState {
    pub messages: Vec<(String, String)>,
    pub input: String,
    pub status: String,
}

/// A key press, as the chat screen distinguishes them.
#[derive(Debug, Clone, Copy, PartialEq, Eq, Structural)]
pub enum ChatKey {
    /// Ctrl-C or Ctrl-D (with no other modifier).
    Quit,
    Enter,
    Backspace,
    /// Any other character key.
    Char(char),
    /// Anything else.
    Other,
}

/// What the chat loop does after a key.
#[derive(Debug)]
pub enum ChatAction {
    /// Leave the chat.
    Quit,
    /// Send this message to the assistant.
    Submit(String),
    /// Nothing beyond redrawing.
    Continue,
}

/// The status line of a chat session.
pub open spec fn session_status(session_id: Seq<char>) -> Seq<char> {
    "Session: "@ + session_id + "  (Ctrl-C / Ctrl-D to quit)"@
}

/// The status line of a chat session.
pub fn session_status_line(session_id: &str) -> (res: String)
    ensures
        res@ == session_status(session_id@),
{
    concat3("Session: ", session_id, "  (Ctrl-C / Ctrl-D to quit)")
}

/// What an editing key does to the line being typed: a character is
/// appended, Backspace removes the last character (if there is one), and
/// other keys leave the line alone.
pub open spec fn edited(input: Seq<char>, key: ChatKey) -> Seq<char> {
    match key {
        ChatKey::Char(c) => input.push(c),
        ChatKey::Backspace => if input.len() == 0 {
            input
        } else {
            input.drop_last()
        },
        _ => input,
    }
}

/// Typing a character and then pressing Backspace leaves the line as it was.
pub proof fn law_backspace_undoes_typing(input: Seq<char>, c: char)
    ensures
        edited(edited(input, ChatKey::Char(c)), ChatKey::Backspace) == input,
{
    assert(input.push(c).drop_last() =~= input);
}

impl ChatState {
    /// A screen showing `messages`, with an empty input line and the given
    /// status.
    pub fn new(messages: Vec<(String, String)>, status: String) -> (res: Self)
        ensures
            res.messages == messages,
            res.input@ == Seq::<char>::empty(),
            res.status == status,
    {
        ChatState { messages, input: String::new(), status }
    }

    /// Handles one key press.  Quit keys leave; Enter sends the trimmed
    /// input, unless it is empty, and then clears the input and shows
    /// `Thinking…`; Backspace removes the last typed character; a character
    /// key types it; other keys do nothing.
    pub fn handle_key(&mut self, key: ChatKey) -> (res: ChatAction)
        ensures
            final(self).messages == old(self).messages,
            match key {
                ChatKey::Quit => res is Quit && final(self).input == old(self).input && final(self).status
                    == old(self).status,
                ChatKey::Enter => if trim(old(self).input@).len() == 0 {
                    res is Continue && final(self).input == old(self).input && final(self).status
                        == old(self).status
                } else {
                    &&& res matches ChatAction::Submit(m) && m@ == trim(old(self).input@)
                    &&& final(self).input@ == Seq::<char>::empty()
                    &&& final(self).status@ == "Thinking…"@
                },
                ChatKey::Backspace => res is Continue && final(self).status == old(self).status
                    && final(self).input@ == edited(old(self).input@, key),
                ChatKey::Char(_) => res is Continue && final(self).status == old(self).status
                    && final(self).input@ == edited(old(self).input@, key),
                ChatKey::Other => res is Continue && final(self).input == old(self).input && final(self).status == old(self).status,
            },
    {
        match key {
            ChatKey::Quit => ChatAction::Quit,
            ChatKey::Enter => {
                let msg = trim_str(self.input.as_str());
                if msg.as_str().is_empty() {
                    return ChatAction::Continue;
                }
                self.input = String::new();
                self.status = "Thinking…".to_owned();
                ChatAction::Submit(msg)
            },
            ChatKey::Backspace => {
                let cs = chars_of(self.input.as_str());
                if cs.len() > 0 {
                    self.input = string_from_range(&cs, 0, cs.len() - 1);
                }
                ChatAction::Continue
            },
            ChatKey::Char(c) => {
                push_char(&mut self.input, c);
                ChatAction::Continue
            },
            ChatKey::Other => ChatAction::Continue,
        }
    }

    /// Shows a line of the conversation.
    pub fn show(&mut self, role: &str, text: String)
        ensures
            final(self).messages@.len() == old(self).messages@.len() + 1,
            final(self).messages@.subrange(0, old(self).messages@.len() as int) == old(self).messages@,
            final(self).messages@.last().0@ == role@,
            final(self).messages@.last().1 == text,
            final(self).input == old(self).input,
            final(self).status == old(self).status,
    {
        let ghost before = self.messages@;
        self.messages.push((role.to_owned(), text));
        assert(self.messages@.subrange(0, before.len() as int) =~= before);
    }
}

/// Which stored messages a resumed chat shows: only the user's and the
/// assistant's, under their role names.
pub fn display_entry(role: Role, text: String) -> (res: Option<(String, String)>)
    ensures
        (role == Role::User || role == Role::Assistant) ==> (res matches Some(e) && e.0@ == role_name(role)
            && e.1 == text),
        !(role == Role::User || role == Role::Assistant) ==> res is None,
{
    match role {
        Role::User | Role::Assistant => Some((role_to_str(role).to_owned(), text)),
        _ => None,
    }
}

/// Whether a chat turn should recall memories: only when memory is enabled
/// and the history holds nothing but the system prompt.
pub fn should_inject_memory(no_memory: bool, history_len: usize) -> (res: bool)
    ensures
        res == (!no_memory && history_len == 1),
{
    !no_memory && history_len == 1
}

/// The colour of a conversation line.
#[derive(Debug, Clone, Copy, PartialEq, Eq, Structural)]
pub enum LineColor {
    Cyan,
    Green,
    Red,
}

/// How a conversation line is drawn: the user's lines cyan and prefixed
/// `You`, the assistant's green and prefixed `ferroclaw`, anything else red
/// and prefixed `!`; the label is `[<prefix>] <text>`.
pub open spec fn line_style(role: Seq<char>) -> (LineColor, Seq<char>) {
    if role == "user"@ {
        (LineColor::Cyan, "You"@)
    } else if role == "assistant"@ {
        (LineColor::Green, "ferroclaw"@)
    } else {
        (LineColor::Red, "!"@)
    }
}

/// The colour and label of a conversation line.
pub fn chat_label(role: &str, text: &str) -> (res: (LineColor, String))
    ensures
        res.0 == line_style(role@).0,
        res.1@ == "["@ + line_style(role@).1 + "] "@ + text@,
{
    let (color, prefix) = if str_eq(role, "user") {
        (LineColor::Cyan, "You")
    } else if str_eq(role, "assistant") {
        (LineColor::Green, "ferroclaw")
    } else {
        (LineColor::Red, "!")
    };
    let head = concat3("[", prefix, "] ");
    (color, concat(head.as_str(), text))
}

/// How the first turn of a one-shot agent run is streamed: the text so far
/// and whether the model asked for tools.
#[derive(Debug)]
pub struct StreamTurn {
    pub text: String,
    pub has_tool_calls: bool,
}

impl StreamTurn {
    /// Nothing streamed yet.
    pub fn new() -> (res: Self)
        ensures
            res.text@ == Seq::<char>::empty(),
            !res.has_tool_calls,
    {
        StreamTurn { text: String::new(), has_tool_calls: false }
    }

    /// Takes one streamed chunk and says whether to keep reading: text is
    /// appended (and shown); tool calls mark the turn and stop it; the end
    /// of the stream stops it.
    pub fn on_chunk(&mut self, chunk: &LlmChunk) -> (keep_reading: bool)
        ensures
            match *chunk {
                LlmChunk::Text(t) => keep_reading && final(self).text@ == old(self).text@ + t@
                    && final(self).has_tool_calls == old(self).has_tool_calls,
                LlmChunk::ToolCalls(_) => !keep_reading && final(self).text == old(self).text
                    && final(self).has_tool_calls,
                LlmChunk::Done(_) => !keep_reading && final(self).text == old(self).text
                    && final(self).has_tool_calls == old(self).has_tool_calls,
            },
    {
        match chunk {
            LlmChunk::Text(t) => {
                self.text.append(t.as_str());
                true
            },
            LlmChunk::ToolCalls(_) => {
                self.has_tool_calls = true;
                false
            },
            LlmChunk::Done(_) => false,
        }
    }
}

/// The number of characters a memory listing shows of an entry.
pub const PREVIEW_CHARS: usize = 40;

/// A memory's content as listed: its first 40 characters and `…` when it is
/// longer, the whole content otherwise.
pub open spec fn preview(content: Seq<char>) -> Seq<char> {
    if content.len() > PREVIEW_CHARS {
        content.subrange(0, PREVIEW_CHARS as int) + "…"@
    } else {
        content
    }
}

/// A listed preview is the content itself when it has at most 40
/// characters; otherwise it is the content's first 40 characters and `…`.
/// Either way it starts with as much of the content as it shows.
pub proof fn law_preview_is_a_prefix(content: Seq<char>)
    ensures
        content.len() <= PREVIEW_CHARS ==> preview(content) == content,
        content.len() > PREVIEW_CHARS ==> {
            &&& preview(content).len() == PREVIEW_CHARS + 1
            &&& preview(content).subrange(0, PREVIEW_CHARS as int).is_prefix_of(content)
            &&& preview(content).last() == '…'
        },
{
    reveal_strlit("…");
    if content.len() > PREVIEW_CHARS {
        let p = preview(content);
        assert(p.subrange(0, PREVIEW_CHARS as int) =~= content.subrange(0, PREVIEW_CHARS as int));
        assert(content.subrange(0, PREVIEW_CHARS as int) =~= p.subrange(0, PREVIEW_CHARS as int));
    }
}

/// Shortens a memory's content for listing.
pub fn content_preview(content: &str) -> (res: String)
    ensures
        res@ == preview(content@),
{
    let cs = chars_of(content);
    if cs.len() > PREVIEW_CHARS {
        let cut = string_from_range(&cs, 0, PREVIEW_CHARS);
        concat(cut.as_str(), "…")
    } else {
        content.to_owned()
    }
}

/// A listing row: the first column padded to 36 characters, the second to
/// 20, then the third, separated by two spaces.
pub open spec fn listing_row(a: Seq<char>, b: Seq<char>, c: Seq<char>) -> Seq<char> {
    pad_right(a, 36) + "  "@ + pad_right(b, 20) + "  "@ + c
}

fn row(a: &str, b: &str, c: &str) -> (res: String)
    ensures
        res@ == listing_row(a@, b@, c@),
{
    let pa = pad_right_str(a, 36);
    let pb = pad_right_str(b, 20);
    let first = concat3(pa.as_str(), "  ", pb.as_str());
    concat3(first.as_str(), "  ", c)
}

/// The heading of the session listing.
pub fn session_list_header() -> (res: String)
    ensures
        res@ == listing_row("ID"@, "Updated"@, "Title"@),
{
    row("ID", "Updated", "Title")
}

/// A row of the session listing: id, last update, and title (`-` when
/// untitled).
pub fn session_row(id: &str, updated: &str, title: Option<&str>) -> (res: String)
    ensures
        res@ == listing_row(id@, updated@, match title {
            Some(t) => t@,
            None => "-"@,
        }),
{
    let t = match title {
        Some(t) => t,
        None => "-",
    };
    row(id, updated, t)
}

/// The heading of the memory listing.
pub fn memory_list_header() -> (res: String)
    ensures
        res@ == listing_row("ID"@, "Created"@, "Content"@),
{
    row("ID", "Created", "Content")
}

/// A row of the memory listing: id, creation time, and the content preview.
pub fn memory_row(id: &str, created: &str, content: &str) -> (res: String)
    ensures
        res@ == listing_row(id@, created@, preview(content@)),
{
    let p = content_preview(content);
    row(id, created, p.as_str())
}

/// A rule of `n` dashes under a listing heading.
pub fn rule(n: usize) -> (res: String)
    ensures
        res@ == Seq::new(n as nat, |i: int| '-'),
{
    repeat_char('-', n)
}

/// What `sessions clear` reports.
pub fn sessions_cleared_message(n: u64) -> (res: String)
    ensures
        res@ == "Cleared "@ + decimal(n as nat) + " session(s)."@,
{
    let digits = u64_to_decimal(n);
    concat3("Cleared ", digits.as_str(), " session(s).")
}

/// What `memory clear` reports.
pub fn memories_cleared_message(n: u64) -> (res: String)
    ensures
        res@ == "Cleared "@ + decimal(n as nat) + " memory entry/entries."@,
{
    let digits = u64_to_decimal(n);
    concat3("Cleared ", digits.as_str(), " memory entry/entries.")
}

/// What `memory forget` reports.
pub fn forget_message(deleted: bool, id: &str) -> (res: String)
    ensures
        deleted ==> res@ == "Forgotten: "@ + id@,
        !deleted ==> res@ == "Not found: "@ + id@,
{
    if deleted {
        concat("Forgotten: ", id)
    } else {
        concat("Not found: ", id)
    }
}

/// Whether an onboarding backend answer chooses Ollama: the trimmed answer
/// is `ollama` in any ASCII case.
pub fn chooses_ollama(answer: &str) -> (res: bool)
    ensures
        res == eq_ignore_ascii_case(trim(answer@), "ollama"@),
{
    let t = trim_str(answer);
    str_eq_ignore_ascii_case(t.as_str(), "ollama")
}

/// An optional onboarding answer: the trimmed answer, or `None` when blank.
pub fn optional_answer(answer: &str) -> (res: Option<String>)
    ensures
        trim(answer@).len() == 0 ==> res is None,
        trim(answer@).len() > 0 ==> (res matches Some(a) && a@ == trim(answer@)),
{
    let t = trim_str(answer);
    if t.as_str().is_empty() {
        None
    } else {
        Some(t)
    }
}

/// The model onboarding proposes for a backend.
pub fn onboard_default_model(use_ollama: bool) -> (res: &'static str)
    ensures
        use_ollama ==> res@ == "llama3"@,
        !use_ollama ==> res@ == "gpt-4o"@,
{
    if use_ollama {
        "llama3"
    } else {
        "gpt-4o"
    }
}

/// The lines of the configuration file that onboarding writes: the backend,
/// then the model, the API key and the base URL (under the backend's key)
/// for those that were given.
pub open spec fn onboard_lines(use_ollama: bool, model: Option<Seq<char>>, api_key: Option<Seq<char>>, base_url: Option<Seq<char>>) -> Seq<Seq<char>> {
    let backend_line = if use_ollama {
        "backend = \"ollama\""@
    } else {
        "backend = \"openai\""@
    };
    let model_lines = match model {
        Some(m) => seq!["model = \""@ + m + "\""@],
        None => Seq::empty(),
    };
    let key_lines = match api_key {
        Some(k) => seq!["openai_api_key = \""@ + k + "\""@],
        None => Seq::empty(),
    };
    let url_lines = match base_url {
        Some(u) => if use_ollama {
            seq!["ollama_base_url = \""@ + u + "\""@]
        } else {
            seq!["openai_base_url = \""@ + u + "\""@]
        },
        None => Seq::empty(),
    };
    seq![backend_line] + model_lines + key_lines + url_lines
}

/// Onboarding always writes the backend line first; a chosen model, for
/// either backend, is written on the very next line as `model = "<model>"`;
/// a given API key and base URL are written too, with the URL under the
/// chosen backend's key.
pub proof fn law_onboard_lines(use_ollama: bool, model: Option<Seq<char>>, api_key: Option<Seq<char>>, base_url: Option<Seq<char>>)
    ensures
        onboard_lines(use_ollama, model, api_key, base_url).len() >= 1,
        onboard_lines(use_ollama, model, api_key, base_url)[0] == if use_ollama {
            "backend = \"ollama\""@
        } else {
            "backend = \"openai\""@
        },
        model matches Some(m) ==> onboard_lines(use_ollama, model, api_key, base_url)[1] == "model = \""@ + m
            + "\""@,
        onboard_lines(use_ollama, model, api_key, base_url).len() == 1 + (if model is Some { 1int } else { 0 })
            + (if api_key is Some { 1int } else { 0 }) + (if base_url is Some { 1int } else { 0 }),
        api_key matches Some(k) ==> onboard_lines(use_ollama, model, api_key, base_url).contains(
            "openai_api_key = \""@ + k + "\""@,
        ),
        base_url matches Some(u) ==> onboard_lines(use_ollama, model, api_key, base_url).last() == if use_ollama {
            "ollama_base_url = \""@ + u + "\""@
        } else {
            "openai_base_url = \""@ + u + "\""@
        },
{
    let lines = onboard_lines(use_ollama, model, api_key, base_url);
    if let Some(k) = api_key {
        let pos: int = if model is Some { 2 } else { 1 };
        assert(lines[pos] == "openai_api_key = \""@ + k + "\""@);
    }
}

fn quoted_line(key: &str, value: &str) -> (res: String)
    ensures
        res@ == key@ + " = \""@ + value@ + "\""@,
{
    let head = concat3(key, " = \"", value);
    concat(head.as_str(), "\"")
}

/// The text of the configuration file onboarding writes: its lines, each
/// ended by a newline.
pub fn onboard_config_text(use_ollama: bool, model: Option<&str>, api_key: Option<&str>, base_url: Option<&str>) -> (res: String)
    ensures
        res@ == joined(
            onboard_lines(
                use_ollama,
                match model {
                    Some(m) => Some(m@),
                    None => None,
                },
                match api_key {
                    Some(k) => Some(k@),
                    None => None,
                },
                match base_url {
                    Some(u) => Some(u@),
                    None => None,
                },
            ),
            "\n"@,
        ) + "\n"@,
{
    proof {
        reveal_strlit("model");
        reveal_strlit("openai_api_key");
        reveal_strlit("ollama_base_url");
        reveal_strlit("openai_base_url");
        reveal_strlit(" = \"");
        reveal_strlit("\"");
        reveal_strlit("model = \"");
        reveal_strlit("openai_api_key = \"");
        reveal_strlit("ollama_base_url = \"");
        reveal_strlit("openai_base_url = \"");
    }
    let mut lines: Vec<String> = Vec::new();
    if use_ollama {
        lines.push("backend = \"ollama\"".to_owned());
    } else {
        lines.push("backend = \"openai\"".to_owned());
    }
    let ghost l0 = views(lines@);
    if let Some(m) = model {
        lines.push(quoted_line("model", m));
    }
    let ghost l1 = views(lines@);
    if let Some(k) = api_key {
        lines.push(quoted_line("openai_api_key", k));
    }
    let ghost l2 = views(lines@);
    if let Some(u) = base_url {
        if use_ollama {
            lines.push(quoted_line("ollama_base_url", u));
        } else {
            lines.push(quoted_line("openai_base_url", u));
        }
    }
    let ghost expected = onboard_lines(
        use_ollama,
        match model {
            Some(m) => Some(m@),
            None => None,
        },
        match api_key {
            Some(k) => Some(k@),
            None => None,
        },
        match base_url {
            Some(u) => Some(u@),
            None => None,
        },
    );
    assert("model"@ + " = \""@ =~= "model = \""@);
    assert("openai_api_key"@ + " = \""@ =~= "openai_api_key = \""@);
    assert("ollama_base_url"@ + " = \""@ =~= "ollama_base_url = \""@);
    assert("openai_base_url"@ + " = \""@ =~= "openai_base_url = \""@);
    assert(views(lines@) =~= expected);
    let mut text = join_strings(&lines, "\n");
    text.append("\n");
    text
}

} // verus!
