//! The decisions of the interactive chat: reading a line, adding fetched web
//! pages to a message, and keeping the conversation, its saved copy and the
//! model's context position in step.
use vstd::prelude::*;
use crate::session::{SavedMessage, auto_name_spec, auto_session_name, copy_messages, trim_end_char};
use crate::text::{all_whitespace, chars_of, is_blank, push_text, string_from_chars, text_eq};
use crate::timestamp::{chrono_now, timestamp_text};

verus! {

// ---------------------------------------------------------------------------
// Reading a line
// ---------------------------------------------------------------------------

/// What a line typed at the chat prompt asks for.
#[derive(Debug, Clone, Copy, PartialEq, Eq, Structural)]
pub enum ChatInput {
    /// Nothing was typed.
    Empty,
    /// `/exit`: end the chat.
    Exit,
    /// `/new`: forget the conversation and start again.
    NewChat,
    /// `/review`: pick a saved session and show it.
    Review,
    /// `/delete`: pick a saved session and delete it.
    Delete,
    /// `/sessions`: pick a saved session and continue it.
    Sessions,
    /// Anything else: a message for the model.
    Message,
}

/// A typed line without its trailing newlines, then its trailing carriage
/// returns.
pub open spec fn line_text_spec(line: Seq<char>) -> Seq<char> {
    trim_end_char(trim_end_char(line, '\n'), '\r')
}

/// What the (trimmed) line `msg` asks for.
pub open spec fn chat_input_spec(msg: Seq<char>) -> ChatInput {
    if msg.len() == 0 {
        ChatInput::Empty
    } else if msg == "/exit"@ {
        ChatInput::Exit
    } else if msg == "/new"@ {
        ChatInput::NewChat
    } else if msg == "/review"@ {
        ChatInput::Review
    } else if msg == "/delete"@ {
        ChatInput::Delete
    } else if msg == "/sessions"@ {
        ChatInput::Sessions
    } else {
        ChatInput::Message
    }
}

fn trim_end_of(v: Vec<char>, c: char) -> (res: Vec<char>)
    ensures
        res@ == trim_end_char(v@, c),
{
    let mut v = v;
    let ghost orig = v@;
    while v.len() > 0 && v[v.len() - 1] == c
        invariant
            trim_end_char(orig, c) == trim_end_char(v@, c),
        decreases v.len(),
    {
        v.pop();
    }
    v
}

/// The text of a typed line: without its trailing `\n`, then without its
/// trailing `\r`.
pub fn line_text(line: &str) -> (res: String)
    ensures
        res@ == line_text_spec(line@),
{
    let v = trim_end_of(chars_of(line), '\n');
    let v = trim_end_of(v, '\r');
    string_from_chars(v.as_slice())
}

/// What the line text `msg` asks for: nothing when empty, one of the chat
/// commands when it is exactly that command, otherwise a message.
pub fn chat_input(msg: &str) -> (res: ChatInput)
    ensures
        res == chat_input_spec(msg@),
{
    if msg.is_empty() {
        ChatInput::Empty
    } else if text_eq(msg, "/exit") {
        ChatInput::Exit
    } else if text_eq(msg, "/new") {
        ChatInput::NewChat
    } else if text_eq(msg, "/review") {
        ChatInput::Review
    } else if text_eq(msg, "/delete") {
        ChatInput::Delete
    } else if text_eq(msg, "/sessions") {
        ChatInput::Sessions
    } else {
        ChatInput::Message
    }
}

// ---------------------------------------------------------------------------
// Adding fetched pages to a message
// ---------------------------------------------------------------------------

/// What fetching one address gave.
#[derive(Debug, Clone)]
pub enum FetchOutcome {
    /// The text of the page.
    Text(String),
    /// The fetch failed, with this error message.
    Failed(String),
}

/// One fetched address and its outcome.
#[derive(Debug, Clone)]
pub struct FetchResult {
    pub url: String,
    pub outcome: FetchOutcome,
}

/// The block that reports one fetch ahead of the message.
pub open spec fn fetch_block_spec(r: FetchResult) -> Seq<char> {
    match r.outcome {
        FetchOutcome::Text(c) => if !all_whitespace(c@) {
            "[Retrieved content from "@ + r.url@ + "]\n"@ + c@ + "\n---\n"@
        } else {
            "[Could not retrieve text content from "@ + r.url@
                + " (page may require JavaScript)]\n---\n"@
        },
        FetchOutcome::Failed(e) => "[Fetch failed for "@ + r.url@ + ": "@ + e@ + "]\n---\n"@,
    }
}

/// The blocks of all fetches, in order.
pub open spec fn fetch_blocks_spec(rs: Seq<FetchResult>) -> Seq<char>
    decreases rs.len(),
{
    if rs.len() == 0 {
        seq![]
    } else {
        fetch_blocks_spec(rs.drop_last()) + fetch_block_spec(rs.last())
    }
}

/// The message handed to the model: the fetch blocks followed by what the
/// user typed, or just what the user typed when nothing was fetched.
pub open spec fn augmented_spec(user_msg: Seq<char>, rs: Seq<FetchResult>) -> Seq<char> {
    if fetch_blocks_spec(rs).len() == 0 {
        user_msg
    } else {
        fetch_blocks_spec(rs) + user_msg
    }
}

fn push_fetch_block(out: &mut String, r: &FetchResult)
    ensures
        final(out)@ == old(out)@ + fetch_block_spec(*r),
{
    let ghost start = out@;
    match &r.outcome {
        FetchOutcome::Text(c) => {
            if !is_blank(c.as_str()) {
                push_text(out, "[Retrieved content from ");
                push_text(out, r.url.as_str());
                push_text(out, "]\n");
                push_text(out, c.as_str());
                push_text(out, "\n---\n");
            } else {
                push_text(out, "[Could not retrieve text content from ");
                push_text(out, r.url.as_str());
                push_text(out, " (page may require JavaScript)]\n---\n");
            }
        },
        FetchOutcome::Failed(e) => {
            push_text(out, "[Fetch failed for ");
            push_text(out, r.url.as_str());
            push_text(out, ": ");
            push_text(out, e.as_str());
            push_text(out, "]\n---\n");
        },
    }
    assert(out@ =~= start + fetch_block_spec(*r));
}

/// The message handed to the model for `user_msg` once the addresses it
/// mentions were fetched: a block per fetch (the page text, a note that the
/// page had no text, or the error), then the message itself.
pub fn augment_message(user_msg: &str, fetched: &Vec<FetchResult>) -> (res: String)
    ensures
        res@ == augmented_spec(user_msg@, fetched@),
{
    let mut block = String::new();
    let mut i: usize = 0;
    while i < fetched.len()
        invariant
            i <= fetched.len(),
            block@ == fetch_blocks_spec(fetched@.take(i as int)),
        decreases fetched.len() - i,
    {
        assert(fetched@.take(i + 1).drop_last() =~= fetched@.take(i as int));
        push_fetch_block(&mut block, &fetched[i]);
        i = i + 1;
    }
    assert(fetched@.take(fetched.len() as int) =~= fetched@);
    if block.as_str().is_empty() {
        let v = chars_of(user_msg);
        string_from_chars(v.as_slice())
    } else {
        push_text(&mut block, user_msg);
        block
    }
}

// ---------------------------------------------------------------------------
// The conversation
// ---------------------------------------------------------------------------

/// A message as a `(role, content)` pair of texts.
pub open spec fn msg_view(m: SavedMessage) -> (Seq<char>, Seq<char>) {
    (m.role@, m.content@)
}

/// A list of messages as `(role, content)` pairs.
pub open spec fn log_view(v: Seq<SavedMessage>) -> Seq<(Seq<char>, Seq<char>)> {
    v.map_values(|m: SavedMessage| msg_view(m))
}

/// What a conversation starts with: the system prompt, if there is one.
pub open spec fn opening_log(system: Option<String>) -> Seq<(Seq<char>, Seq<char>)> {
    match system {
        Some(s) => seq![("system"@, s@)],
        None => seq![],
    }
}

/// The saved copy follows the prompt message for message: same length, same
/// roles, and the same content except in user messages, where the prompt
/// holds the message with its fetched pages and the copy what was typed.
pub open spec fn mirrors(prompt: Seq<(Seq<char>, Seq<char>)>, saved: Seq<(Seq<char>, Seq<char>)>) -> bool {
    &&& prompt.len() == saved.len()
    &&& forall|i: int| 0 <= i < prompt.len() ==> (#[trigger] prompt[i]).0 == saved[i].0
    &&& forall|i: int| 0 <= i < prompt.len() && prompt[i].0 != "user"@ ==> (#[trigger] prompt[i]).1 == saved[i].1
}

/// The state of an interactive chat: the system prompt given on the command
/// line, the messages the chat template is applied to, the copy that is saved
/// to disk, how many tokens of the conversation the model's context holds,
/// and the name the conversation is saved under, once it has one.
pub struct ChatSession {
    system: Option<String>,
    prompt: Vec<SavedMessage>,
    saved: Vec<SavedMessage>,
    n_past: usize,
    session_name: Option<String>,
}

fn message(role: &str, content: &str) -> (res: SavedMessage)
    ensures
        res.role@ == role@,
        res.content@ == content@,
{
    SavedMessage { role: role.to_owned(), content: content.to_owned() }
}

fn opening_messages(system: &Option<String>) -> (res: Vec<SavedMessage>)
    ensures
        log_view(res@) == opening_log(*system),
{
    let mut v: Vec<SavedMessage> = Vec::new();
    match system {
        Some(s) => {
            v.push(message("system", s.as_str()));
            assert(log_view(v@) =~= opening_log(*system));
        },
        None => {
            assert(log_view(v@) =~= opening_log(*system));
        },
    }
    v
}

proof fn lemma_log_push(v: Seq<SavedMessage>, m: SavedMessage)
    ensures
        log_view(v.push(m)) == log_view(v).push(msg_view(m)),
{
    assert(log_view(v.push(m)) =~= log_view(v).push(msg_view(m)));
}

proof fn lemma_log_drop_last(v: Seq<SavedMessage>)
    requires
        v.len() > 0,
    ensures
        log_view(v.drop_last()) == log_view(v).drop_last(),
{
    assert(log_view(v.drop_last()) =~= log_view(v).drop_last());
}

proof fn lemma_opening_mirrors(system: Option<String>)
    ensures
        mirrors(opening_log(system), opening_log(system)),
{
}

/// Appending a message to both logs keeps them in step when the roles agree
/// and, outside user messages, the contents agree too.
proof fn lemma_mirrors_push(
    p: Seq<(Seq<char>, Seq<char>)>,
    q: Seq<(Seq<char>, Seq<char>)>,
    a: (Seq<char>, Seq<char>),
    b: (Seq<char>, Seq<char>),
)
    requires
        mirrors(p, q),
        a.0 == b.0,
        a.0 != "user"@ ==> a.1 == b.1,
    ensures
        mirrors(p.push(a), q.push(b)),
{
    let p2 = p.push(a);
    let q2 = q.push(b);
    assert forall|i: int| 0 <= i < p2.len() implies (#[trigger] p2[i]).0 == q2[i].0 by {
        if i < p.len() {
            assert(p2[i] == p[i] && q2[i] == q[i]);
        }
    }
    assert forall|i: int| 0 <= i < p2.len() && p2[i].0 != "user"@ implies (#[trigger] p2[i]).1 == q2[i].1 by {
        if i < p.len() {
            assert(p2[i] == p[i] && q2[i] == q[i]);
        }
    }
}

/// Removing the last message from both logs keeps them in step.
proof fn lemma_mirrors_drop_last(p: Seq<(Seq<char>, Seq<char>)>, q: Seq<(Seq<char>, Seq<char>)>)
    requires
        mirrors(p, q),
        p.len() > 0,
    ensures
        mirrors(p.drop_last(), q.drop_last()),
{
    let p2 = p.drop_last();
    let q2 = q.drop_last();
    assert forall|i: int| 0 <= i < p2.len() implies (#[trigger] p2[i]).0 == q2[i].0 by {
        assert(p2[i] == p[i] && q2[i] == q[i]);
    }
    assert forall|i: int| 0 <= i < p2.len() && p2[i].0 != "user"@ implies (#[trigger] p2[i]).1 == q2[i].1 by {
        assert(p2[i] == p[i] && q2[i] == q[i]);
    }
}

impl ChatSession {
    /// The saved copy follows the prompt.
    #[verifier::type_invariant]
    spec fn logs_in_step(self) -> bool {
        mirrors(log_view(self.prompt@), log_view(self.saved@))
    }

    /// The system prompt given on the command line.
    pub closed spec fn system_prompt(&self) -> Option<String> {
        self.system
    }

    /// The prompt as `(role, content)` pairs.
    pub closed spec fn prompt_log(&self) -> Seq<(Seq<char>, Seq<char>)> {
        log_view(self.prompt@)
    }

    /// The saved copy as `(role, content)` pairs.
    pub closed spec fn saved_log(&self) -> Seq<(Seq<char>, Seq<char>)> {
        log_view(self.saved@)
    }

    /// How many tokens of the conversation the model's context holds.
    pub closed spec fn context_len(&self) -> nat {
        self.n_past as nat
    }

    /// The name the conversation is saved under, if it has one.
    pub closed spec fn name(&self) -> Option<String> {
        self.session_name
    }

    /// The system prompt given on the command line.
    pub fn system(&self) -> (r: &Option<String>)
        ensures
            *r == self.system_prompt(),
    {
        &self.system
    }

    /// The messages the chat template is applied to.
    pub fn prompt(&self) -> (r: &Vec<SavedMessage>)
        ensures
            log_view(r@) == self.prompt_log(),
    {
        &self.prompt
    }

    /// The messages that are saved to disk.
    pub fn saved(&self) -> (r: &Vec<SavedMessage>)
        ensures
            log_view(r@) == self.saved_log(),
    {
        &self.saved
    }

    /// How many tokens of the conversation the model's context holds.
    pub fn n_past(&self) -> (r: usize)
        ensures
            r == self.context_len(),
    {
        self.n_past
    }

    /// The name the conversation is saved under, if it has one.
    pub fn session_name(&self) -> (r: &Option<String>)
        ensures
            *r == self.name(),
    {
        &self.session_name
    }

    /// Leaves an empty chat in `self` and hands back its former parts.
    fn take_parts(&mut self) -> (parts: (Option<String>, Vec<SavedMessage>, Vec<SavedMessage>, usize, Option<String>))
        ensures
            parts.0 == old(self).system_prompt(),
            log_view(parts.1@) == old(self).prompt_log(),
            log_view(parts.2@) == old(self).saved_log(),
            parts.3 == old(self).context_len(),
            parts.4 == old(self).name(),
            mirrors(log_view(parts.1@), log_view(parts.2@)),
    {
        proof {
            use_type_invariant(&*self);
        }
        let mut taken = ChatSession { system: None, prompt: Vec::new(), saved: Vec::new(), n_past: 0, session_name: None };
        std::mem::swap(&mut taken, self);
        proof {
            use_type_invariant(&taken);
        }
        let ChatSession { system, prompt, saved, n_past, session_name } = taken;
        (system, prompt, saved, n_past, session_name)
    }

    /// A fresh chat: both logs hold just the system prompt, if any; nothing
    /// is in the model's context and the chat has no name yet.
    pub fn new(system: Option<String>) -> (res: ChatSession)
        ensures
            mirrors(res.prompt_log(), res.saved_log()),
            res.system_prompt() == system,
            res.prompt_log() == opening_log(system),
            res.saved_log() == opening_log(system),
            res.context_len() == 0,
            res.name() is None,
    {
        let prompt = opening_messages(&system);
        let saved = opening_messages(&system);
        proof {
            lemma_opening_mirrors(system);
        }
        ChatSession { system, prompt, saved, n_past: 0, session_name: None }
    }

    /// `/new`: the conversation is forgotten and starts again from the system
    /// prompt, with an empty context and no name.
    pub fn reset(&mut self)
        ensures
            mirrors(final(self).prompt_log(), final(self).saved_log()),
            final(self).system_prompt() == old(self).system_prompt(),
            final(self).prompt_log() == opening_log(old(self).system_prompt()),
            final(self).saved_log() == opening_log(old(self).system_prompt()),
            final(self).context_len() == 0,
            final(self).name() is None,
    {
        let (system, _, _, _, _) = self.take_parts();
        let prompt = opening_messages(&system);
        let saved = opening_messages(&system);
        proof {
            lemma_opening_mirrors(system);
        }
        *self = ChatSession { system, prompt, saved, n_past: 0, session_name: None };
    }

    /// A saved session is continued: both logs become its messages, the
    /// context is empty until restored, and the chat takes the session's name.
    pub fn load(&mut self, name: String, messages: Vec<SavedMessage>)
        ensures
            mirrors(final(self).prompt_log(), final(self).saved_log()),
            final(self).system_prompt() == old(self).system_prompt(),
            final(self).prompt_log() == log_view(messages@),
            final(self).saved_log() == log_view(messages@),
            final(self).context_len() == 0,
            final(self).name() == Some(name),
    {
        let (system, _, _, _, _) = self.take_parts();
        let saved = copy_messages(&messages);
        let prompt = messages;
        *self = ChatSession { system, prompt, saved, n_past: 0, session_name: Some(name) };
    }

    /// The restored conversation was decoded: the context holds its tokens.
    pub fn restore_context(&mut self, token_count: usize)
        ensures
            final(self).context_len() == token_count,
            final(self).system_prompt() == old(self).system_prompt(),
            final(self).prompt_log() == old(self).prompt_log(),
            final(self).saved_log() == old(self).saved_log(),
            final(self).name() == old(self).name(),
    {
        proof {
            use_type_invariant(&*self);
        }
        self.n_past = token_count;
    }

    /// A user message joins the conversation: the prompt gets it with its
    /// fetched pages, the saved copy as typed.  A chat without a name is
    /// named after the current time and this message.
    pub fn add_user_message(&mut self, user_msg: &str, augmented: &str)
        ensures
            mirrors(final(self).prompt_log(), final(self).saved_log()),
            final(self).prompt_log() == old(self).prompt_log().push(("user"@, augmented@)),
            final(self).saved_log() == old(self).saved_log().push(("user"@, user_msg@)),
            final(self).system_prompt() == old(self).system_prompt(),
            final(self).context_len() == old(self).context_len(),
            old(self).name() is Some ==> final(self).name() == old(self).name(),
            old(self).name() is None ==> exists|secs: u64|
                final(self).name() matches Some(n) && n@ == auto_name_spec(
                    #[trigger] timestamp_text(secs as nat),
                    user_msg@,
                ),
    {
        let (system, mut prompt, mut saved, n_past, mut session_name) = self.take_parts();
        let ghost old_prompt = prompt@;
        let ghost old_saved = saved@;
        prompt.push(message("user", augmented));
        saved.push(message("user", user_msg));
        proof {
            lemma_log_push(old_prompt, prompt@.last());
            lemma_log_push(old_saved, saved@.last());
            assert(prompt@ == old_prompt.push(prompt@.last()));
            assert(saved@ == old_saved.push(saved@.last()));
            lemma_mirrors_push(log_view(old_prompt), log_view(old_saved), ("user"@, augmented@), ("user"@, user_msg@));
        }
        if session_name.is_none() {
            let ts = chrono_now();
            session_name = Some(auto_session_name(ts.as_str(), user_msg));
        }
        *self = ChatSession { system, prompt, saved, n_past, session_name };
    }

    /// The conversation was rendered to `total_tokens` tokens.  When that is
    /// no more than the context already holds, the turn is abandoned: the
    /// last message leaves both logs and `None` is returned.  Otherwise the
    /// tokens from `Some(n_past)` on are to be decoded.
    pub fn plan_prompt(&mut self, total_tokens: usize) -> (res: Option<usize>)
        ensures
            mirrors(final(self).prompt_log(), final(self).saved_log()),
            final(self).system_prompt() == old(self).system_prompt(),
            final(self).context_len() == old(self).context_len(),
            final(self).name() == old(self).name(),
            total_tokens <= old(self).context_len() ==> {
                &&& res is None
                &&& final(self).prompt_log() == (if old(self).prompt_log().len() > 0 {
                    old(self).prompt_log().drop_last()
                } else {
                    old(self).prompt_log()
                })
                &&& final(self).saved_log() == (if old(self).saved_log().len() > 0 {
                    old(self).saved_log().drop_last()
                } else {
                    old(self).saved_log()
                })
            },
            total_tokens > old(self).context_len() ==> {
                &&& res == Some(old(self).context_len() as usize)
                &&& final(self).prompt_log() == old(self).prompt_log()
                &&& final(self).saved_log() == old(self).saved_log()
            },
    {
        proof {
            use_type_invariant(&*self);
        }
        if total_tokens <= self.n_past {
            let (system, mut prompt, mut saved, n_past, session_name) = self.take_parts();
            let ghost old_prompt = prompt@;
            let ghost old_saved = saved@;
            if prompt.len() > 0 {
                proof {
                    lemma_log_drop_last(old_prompt);
                    lemma_log_drop_last(old_saved);
                    lemma_mirrors_drop_last(log_view(old_prompt), log_view(old_saved));
                }
            }
            prompt.pop();
            saved.pop();
            *self = ChatSession { system, prompt, saved, n_past, session_name };
            None
        } else {
            Some(self.n_past)
        }
    }

    /// `count` more tokens were decoded into the context.
    pub fn advance(&mut self, count: usize)
        requires
            old(self).context_len() + count <= usize::MAX,
        ensures
            final(self).context_len() == old(self).context_len() + count,
            final(self).system_prompt() == old(self).system_prompt(),
            final(self).prompt_log() == old(self).prompt_log(),
            final(self).saved_log() == old(self).saved_log(),
            final(self).name() == old(self).name(),
    {
        proof {
            use_type_invariant(&*self);
        }
        self.n_past = self.n_past + count;
    }

    /// The model's answer joins both logs.  Returns whether the chat is to be
    /// saved now, which it is whenever it has a name.
    pub fn add_assistant_message(&mut self, text: &str) -> (save_now: bool)
        ensures
            mirrors(final(self).prompt_log(), final(self).saved_log()),
            final(self).prompt_log() == old(self).prompt_log().push(("assistant"@, text@)),
            final(self).saved_log() == old(self).saved_log().push(("assistant"@, text@)),
            final(self).system_prompt() == old(self).system_prompt(),
            final(self).context_len() == old(self).context_len(),
            final(self).name() == old(self).name(),
            save_now == old(self).name() is Some,
    {
        let (system, mut prompt, mut saved, n_past, session_name) = self.take_parts();
        let ghost old_prompt = prompt@;
        let ghost old_saved = saved@;
        prompt.push(message("assistant", text));
        saved.push(message("assistant", text));
        proof {
            lemma_log_push(old_prompt, prompt@.last());
            lemma_log_push(old_saved, saved@.last());
            assert(prompt@ == old_prompt.push(prompt@.last()));
            assert(saved@ == old_saved.push(saved@.last()));
            lemma_mirrors_push(log_view(old_prompt), log_view(old_saved), ("assistant"@, text@), ("assistant"@, text@));
        }
        let save_now = session_name.is_some();
        *self = ChatSession { system, prompt, saved, n_past, session_name };
        save_now
    }

    /// The name to save the chat under when it ends: its name, if it has one
    /// and the saved copy holds a message other than a system prompt.
    pub fn name_to_save_at_exit(&self) -> (res: Option<String>)
        ensures
            match res {
                Some(n) => self.name() == Some(n) && exists|i: int|
                    0 <= i < self.saved_log().len() && (#[trigger] self.saved_log()[i]).0 != "system"@,
                None => self.name() is None || forall|i: int|
                    0 <= i < self.saved_log().len() ==> (#[trigger] self.saved_log()[i]).0 == "system"@,
            },
    {
        match &self.session_name {
            None => None,
            Some(name) => {
                let mut i: usize = 0;
                while i < self.saved.len()
                    invariant
                        i <= self.saved.len(),
                        self.session_name == Some(*name),
                        forall|j: int| 0 <= j < i ==> (#[trigger] self.saved@[j]).role@ == "system"@,
                    decreases self.saved.len() - i,
                {
                    if !text_eq(self.saved[i].role.as_str(), "system") {
                        assert(self.saved_log()[i as int].0 != "system"@);
                        return Some(name.clone());
                    }
                    i = i + 1;
                }
                assert forall|j: int| 0 <= j < self.saved_log().len() implies (#[trigger] self.saved_log()[j]).0
                    == "system"@ by {
                    assert(self.saved_log()[j] == msg_view(self.saved@[j]));
                }
                None
            },
        }
    }
}

/// A turn abandoned by `plan_prompt` right after `add_user_message` leaves
/// both logs as they were before the user's message.
pub proof fn lemma_abandoned_turn_restores_logs(
    log: Seq<(Seq<char>, Seq<char>)>,
    msg: (Seq<char>, Seq<char>),
)
    ensures
        log.push(msg).len() > 0,
        log.push(msg).drop_last() == log,
{
    assert(log.push(msg).drop_last() =~= log);
}

/// The saved copy of a chat is the system prompt followed by each typed line
/// and each reply, in order.  `logs` are the saved copies of a chat that
/// began with `system` (from `new` or `reset`), taken after each completed
/// turn: `add_user_message` with the line the user typed, then
/// `add_assistant_message` with the reply, as their contracts describe.
/// After the `k` turns `turns` (typed line, reply), the copy holds the
/// opening, then for each turn the typed line as a user message (never the
/// fetched pages) and the reply as an assistant message.
pub proof fn lemma_saved_copy_after_turns(
    system: Option<String>,
    logs: Seq<Seq<(Seq<char>, Seq<char>)>>,
    turns: Seq<(Seq<char>, Seq<char>)>,
)
    requires
        logs.len() == turns.len() + 1,
        logs[0] == opening_log(system),
        forall|j: int|
            0 <= j < turns.len() ==> logs[j + 1] == logs[j].push(("user"@, (#[trigger] turns[j]).0)).push(
                ("assistant"@, turns[j].1),
            ),
    ensures
        ({
            let last = logs[turns.len() as int];
            let o = opening_log(system);
            &&& last.len() == o.len() + 2 * turns.len()
            &&& last.take(o.len() as int) == o
            &&& forall|j: int|
                0 <= j < turns.len() ==> last[o.len() + 2 * j] == ("user"@, (#[trigger] turns[j]).0) && last[o.len()
                    + 2 * j + 1] == ("assistant"@, turns[j].1)
        }),
    decreases turns.len(),
{
    let o = opening_log(system);
    let k = turns.len() as int;
    if k == 0 {
        assert(logs[0].take(o.len() as int) =~= o);
    } else {
        let prev_turns = turns.drop_last();
        let prev_logs = logs.drop_last();
        assert forall|j: int| 0 <= j < prev_turns.len() implies prev_logs[j + 1] == prev_logs[j].push(
            ("user"@, (#[trigger] prev_turns[j]).0),
        ).push(("assistant"@, prev_turns[j].1)) by {
            assert(prev_turns[j] == turns[j]);
            assert(prev_logs[j + 1] == logs[j + 1] && prev_logs[j] == logs[j]);
        }
        lemma_saved_copy_after_turns(system, prev_logs, prev_turns);
        let prev = logs[k - 1];
        let last = logs[k];
        assert(prev_logs[k - 1] == prev);
        assert(last == prev.push(("user"@, turns[k - 1].0)).push(("assistant"@, turns[k - 1].1)));
        assert(last.take(o.len() as int) =~= prev.take(o.len() as int));
        assert forall|j: int| 0 <= j < turns.len() implies last[o.len() + 2 * j] == ("user"@, (
        #[trigger] turns[j]).0) && last[o.len() + 2 * j + 1] == ("assistant"@, turns[j].1) by {
            if j < k - 1 {
                assert(prev_turns[j] == turns[j]);
                assert(prev[o.len() + 2 * j] == ("user"@, prev_turns[j].0));
                assert(prev[o.len() + 2 * j + 1] == ("assistant"@, prev_turns[j].1));
            }
        }
    }
}

// ---------------------------------------------------------------------------
// Decoding batches
// ---------------------------------------------------------------------------

/// The position (`i32`, wrapping as `as` does) of the `i`-th of `count`
/// tokens decoded from context position `start`, and whether its logits are
/// wanted (only for the last token).
pub open spec fn batch_entry(start: nat, count: nat, i: nat) -> (i32, bool) {
    (#[verifier::truncate] ((start + i) as i32), i + 1 == count)
}

/// The positions and logit flags of `count` tokens decoded from context
/// position `start`.
pub fn batch_positions(start: usize, count: usize) -> (res: Vec<(i32, bool)>)
    requires
        start + count <= usize::MAX,
    ensures
        res@.len() == count,
        forall|i: int| 0 <= i < count ==> #[trigger] res@[i] == batch_entry(start as nat, count as nat, i as nat),
{
    let mut out: Vec<(i32, bool)> = Vec::new();
    let mut i: usize = 0;
    while i < count
        invariant
            start + count <= usize::MAX,
            i <= count,
            out@.len() == i,
            forall|j: int| 0 <= j < i ==> #[trigger] out@[j] == batch_entry(start as nat, count as nat, j as nat),
        decreases count - i,
    {
        let pos = #[verifier::truncate] ((start + i) as i32);
        out.push((pos, i + 1 == count));
        i = i + 1;
    }
    out
}

} // verus!
