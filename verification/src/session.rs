//! Saved chat sessions: their file names, automatic names and listings.
use vstd::prelude::*;
use crate::timestamp::{timestamp_text, lemma_timestamp_chars};
use crate::text::{chars_of, is_alnum, is_alphanumeric, push_chars, push_text, string_from_chars};

verus! {

/// One message of a saved conversation.
#[derive(Debug, Clone)]
pub struct SavedMessage {
    /// `system`, `user` or `assistant`.
    pub role: String,
    /// The text of the message.
    pub content: String,
}

/// A saved conversation.
#[derive(Debug, Clone)]
pub struct SavedSession {
    /// The name the conversation was saved under.
    pub name: String,
    /// When it was saved, as `YYYY-MM-DD HH:MM`.
    pub created_at: String,
    /// The messages, oldest first.
    pub messages: Vec<SavedMessage>,
}

// ---------------------------------------------------------------------------
// File names
// ---------------------------------------------------------------------------

/// The characters a session file name keeps as they are.
pub open spec fn file_name_char(c: char) -> bool {
    is_alnum(c) || c == '-' || c == '_'
}

/// `name` with every character other than a letter, a digit, `-` or `_`
/// replaced by `_`.
pub open spec fn safe_name_spec(name: Seq<char>) -> Seq<char> {
    name.map_values(|c: char| if file_name_char(c) { c } else { '_' })
}

/// The name of the file a session called `name` is stored in.
pub open spec fn session_file_spec(name: Seq<char>) -> Seq<char> {
    safe_name_spec(name) + seq!['.', 'j', 's', 'o', 'n']
}

/// `name` made safe for a file name: letters, digits, `-` and `_` stay, every
/// other character becomes `_`.
pub fn safe_session_name(name: &str) -> (res: String)
    ensures
        res@ == safe_name_spec(name@),
{
    let v = chars_of(name);
    let mut out: Vec<char> = Vec::new();
    let mut i: usize = 0;
    while i < v.len()
        invariant
            v@ == name@,
            i <= v.len(),
            out@ == safe_name_spec(name@).take(i as int),
        decreases v.len() - i,
    {
        let c = v[i];
        let kept = is_alphanumeric(c) || c == '-' || c == '_';
        out.push(if kept { c } else { '_' });
        i = i + 1;
        assert(out@ =~= safe_name_spec(name@).take(i as int));
    }
    assert(safe_name_spec(name@).take(v.len() as int) =~= safe_name_spec(name@));
    string_from_chars(out.as_slice())
}

/// The file name (`<safe name>.json`) a session called `name` is saved in,
/// loaded from and deleted from.
pub fn session_file_name(name: &str) -> (res: String)
    ensures
        res@ == session_file_spec(name@),
{
    let mut out = safe_session_name(name);
    push_text(&mut out, ".json");
    proof {
        reveal_strlit(".json");
    }
    assert(out@ =~= session_file_spec(name@));
    out
}

/// A safe name is left as it is by making it safe again.
pub proof fn lemma_safe_name_idempotent(name: Seq<char>)
    ensures
        safe_name_spec(safe_name_spec(name)) == safe_name_spec(name),
        safe_name_spec(name).len() == name.len(),
        forall|i: int| 0 <= i < name.len() ==> file_name_char(#[trigger] safe_name_spec(name)[i]),
{
    assert(safe_name_spec(safe_name_spec(name)) =~= safe_name_spec(name));
}

// ---------------------------------------------------------------------------
// Automatic session names
// ---------------------------------------------------------------------------

/// The characters a slug keeps as they are.
pub open spec fn slug_char(c: char) -> bool {
    is_alnum(c) || c == '-'
}

/// `s` without the `c` characters at its start.
pub open spec fn trim_start_char(s: Seq<char>, c: char) -> Seq<char>
    decreases s.len(),
{
    if s.len() > 0 && s[0] == c {
        trim_start_char(s.drop_first(), c)
    } else {
        s
    }
}

/// `s` without the `c` characters at its end.
pub open spec fn trim_end_char(s: Seq<char>, c: char) -> Seq<char>
    decreases s.len(),
{
    if s.len() > 0 && s.last() == c {
        trim_end_char(s.drop_last(), c)
    } else {
        s
    }
}

/// The slug of a first message: its first 40 characters, each one other than
/// a letter, a digit or `-` replaced by `_`, with the `_` at both ends removed.
pub open spec fn slug_spec(msg: Seq<char>) -> Seq<char> {
    let head = if msg.len() <= 40 { msg } else { msg.take(40) };
    trim_end_char(
        trim_start_char(head.map_values(|c: char| if slug_char(c) { c } else { '_' }), '_'),
        '_',
    )
}

/// A timestamp with `:`, space and `-` replaced by `_`.
pub open spec fn timestamp_key_spec(ts: Seq<char>) -> Seq<char> {
    ts.map_values(|c: char| if c == ':' || c == ' ' || c == '-' { '_' } else { c })
}

/// The name given to a new conversation: the timestamp key, `_`, and the slug
/// of the first message.
pub open spec fn auto_name_spec(ts: Seq<char>, msg: Seq<char>) -> Seq<char> {
    timestamp_key_spec(ts) + seq!['_'] + slug_spec(msg)
}

proof fn lemma_trim_start_char_skip(s: Seq<char>, c: char, i: int)
    requires
        0 <= i <= s.len(),
        forall|j: int| 0 <= j < i ==> #[trigger] s[j] == c,
    ensures
        trim_start_char(s, c) == trim_start_char(s.skip(i), c),
    decreases i,
{
    if i > 0 {
        lemma_trim_start_char_skip(s.drop_first(), c, i - 1);
        assert(s.drop_first().skip(i - 1) =~= s.skip(i));
    } else {
        assert(s.skip(0) =~= s);
    }
}

proof fn lemma_trim_end_char_take(s: Seq<char>, c: char, k: int)
    requires
        0 <= k <= s.len(),
        forall|j: int| k <= j < s.len() ==> #[trigger] s[j] == c,
    ensures
        trim_end_char(s, c) == trim_end_char(s.take(k), c),
    decreases s.len() - k,
{
    if k < s.len() {
        assert(s.drop_last() =~= s.take(s.len() - 1));
        lemma_trim_end_char_take(s.drop_last(), c, k);
        assert(s.drop_last().take(k) =~= s.take(k));
    } else {
        assert(s.take(k) =~= s);
    }
}

/// `s` without the `c` characters at both ends.
fn trim_char(s: &[char], c: char) -> (res: Vec<char>)
    ensures
        res@ == trim_end_char(trim_start_char(s@, c), c),
{
    let mut i: usize = 0;
    while i < s.len() && s[i] == c
        invariant
            i <= s.len(),
            forall|j: int| 0 <= j < i ==> #[trigger] s@[j] == c,
        decreases s.len() - i,
    {
        i = i + 1;
    }
    proof {
        lemma_trim_start_char_skip(s@, c, i as int);
        assert(trim_start_char(s@.skip(i as int), c) == s@.skip(i as int));
    }
    let mut k: usize = s.len();
    while k > i && s[k - 1] == c
        invariant
            i <= k <= s.len(),
            forall|j: int| k <= j < s.len() ==> #[trigger] s@[j] == c,
        decreases k,
    {
        k = k - 1;
    }
    let mut out: Vec<char> = Vec::new();
    let mut j: usize = i;
    while j < k
        invariant
            i <= j <= k,
            k <= s.len(),
            out@ == s@.subrange(i as int, j as int),
        decreases k - j,
    {
        out.push(s[j]);
        j = j + 1;
        assert(out@ =~= s@.subrange(i as int, j as int));
    }
    proof {
        let t = s@.skip(i as int);
        assert forall|m: int| k - i <= m < t.len() implies #[trigger] t[m] == c by {
            assert(t[m] == s@[m + i]);
        }
        lemma_trim_end_char_take(t, c, k - i);
        assert(t.take(k - i) =~= s@.subrange(i as int, k as int));
        if k > i {
            assert(t.take(k - i).last() == s@[k - 1]);
        }
    }
    out
}

/// The slug made of the first 40 characters of `msg`: letters, digits and
/// `-` stay, every other character becomes `_`, and the `_` at both ends are
/// removed.
pub fn session_slug(msg: &str) -> (res: String)
    ensures
        res@ == slug_spec(msg@),
{
    let v = chars_of(msg);
    let n: usize = if v.len() <= 40 { v.len() } else { 40 };
    let ghost head = if msg@.len() <= 40 { msg@ } else { msg@.take(40) };
    let ghost mapped = head.map_values(|c: char| if slug_char(c) { c } else { '_' });
    let mut out: Vec<char> = Vec::new();
    let mut i: usize = 0;
    while i < n
        invariant
            v@ == msg@,
            n <= v.len(),
            n == head.len(),
            head == (if msg@.len() <= 40 { msg@ } else { msg@.take(40) }),
            mapped == head.map_values(|c: char| if slug_char(c) { c } else { '_' }),
            i <= n,
            out@ == mapped.take(i as int),
        decreases n - i,
    {
        let c = v[i];
        let kept = is_alphanumeric(c) || c == '-';
        out.push(if kept { c } else { '_' });
        i = i + 1;
        assert(out@ =~= mapped.take(i as int));
    }
    assert(mapped.take(n as int) =~= mapped);
    let t = trim_char(out.as_slice(), '_');
    string_from_chars(t.as_slice())
}

/// `ts` with `:`, space and `-` replaced by `_`.
pub fn timestamp_key(ts: &str) -> (res: String)
    ensures
        res@ == timestamp_key_spec(ts@),
{
    let v = chars_of(ts);
    let mut out: Vec<char> = Vec::new();
    let mut i: usize = 0;
    while i < v.len()
        invariant
            v@ == ts@,
            i <= v.len(),
            out@ == timestamp_key_spec(ts@).take(i as int),
        decreases v.len() - i,
    {
        let c = v[i];
        out.push(if c == ':' || c == ' ' || c == '-' { '_' } else { c });
        i = i + 1;
        assert(out@ =~= timestamp_key_spec(ts@).take(i as int));
    }
    assert(timestamp_key_spec(ts@).take(v.len() as int) =~= timestamp_key_spec(ts@));
    string_from_chars(out.as_slice())
}

/// The name a new conversation is saved under, made from the time `ts` it
/// starts and its first message `msg`: `<ts with :, space and - as _>_<slug>`.
pub fn auto_session_name(ts: &str, msg: &str) -> (res: String)
    ensures
        res@ == auto_name_spec(ts@, msg@),
{
    let mut out = timestamp_key(ts);
    crate::text::push_char(&mut out, '_');
    let slug = session_slug(msg);
    let sv = chars_of(slug.as_str());
    push_chars(&mut out, sv.as_slice());
    assert(out@ =~= auto_name_spec(ts@, msg@));
    out
}

/// The automatic name made from any timestamp and any first message is
/// already safe for a file name, so that session is saved in
/// `<name>.json` under exactly the name it was given.
pub proof fn lemma_auto_name_is_safe(secs: nat, msg: Seq<char>)
    ensures
        safe_name_spec(auto_name_spec(timestamp_text(secs), msg)) == auto_name_spec(
            timestamp_text(secs),
            msg,
        ),
{
    lemma_timestamp_chars(secs);
    let ts = timestamp_text(secs);
    let a = auto_name_spec(ts, msg);
    let key = timestamp_key_spec(ts);
    let head = if msg.len() <= 40 { msg } else { msg.take(40) };
    let mapped = head.map_values(|c: char| if slug_char(c) { c } else { '_' });
    let k1 = lemma_trim_start_char_is_skip(mapped, '_');
    let k2 = lemma_trim_end_char_is_take(mapped.skip(k1), '_');
    let slug = slug_spec(msg);
    assert(slug == mapped.skip(k1).take(k2));
    assert forall|i: int| 0 <= i < a.len() implies file_name_char(#[trigger] a[i]) by {
        if i < key.len() {
            assert(a[i] == key[i]);
            assert(key[i] == (if ts[i] == ':' || ts[i] == ' ' || ts[i] == '-' { '_' } else { ts[i] }));
        } else if i == key.len() {
        } else {
            assert(a[i] == slug[i - key.len() - 1]);
            assert(slug[i - key.len() - 1] == mapped[k1 + i - key.len() - 1]);
        }
    }
    assert(safe_name_spec(a) =~= a);
}

proof fn lemma_trim_start_char_is_skip(s: Seq<char>, c: char) -> (k: int)
    ensures
        0 <= k <= s.len(),
        trim_start_char(s, c) == s.skip(k),
    decreases s.len(),
{
    if s.len() > 0 && s[0] == c {
        let k = lemma_trim_start_char_is_skip(s.drop_first(), c);
        assert(s.drop_first().skip(k) =~= s.skip(k + 1));
        k + 1
    } else {
        assert(s.skip(0) =~= s);
        0
    }
}

proof fn lemma_trim_end_char_is_take(s: Seq<char>, c: char) -> (k: int)
    ensures
        0 <= k <= s.len(),
        trim_end_char(s, c) == s.take(k),
    decreases s.len(),
{
    if s.len() > 0 && s.last() == c {
        let k = lemma_trim_end_char_is_take(s.drop_last(), c);
        assert(s.drop_last().take(k) =~= s.take(k));
        k
    } else {
        assert(s.take(s.len() as int) =~= s);
        s.len() as int
    }
}

// ---------------------------------------------------------------------------
// Reviewing a saved session
// ---------------------------------------------------------------------------

/// The number of messages other than system prompts.
pub open spec fn non_system_count(msgs: Seq<SavedMessage>) -> nat
    decreases msgs.len(),
{
    if msgs.len() == 0 {
        0
    } else {
        non_system_count(msgs.drop_last()) + if msgs.last().role@ == "system"@ {
            0nat
        } else {
            1nat
        }
    }
}

/// How one message is shown in a review: system prompts dimmed, the user's
/// messages under a green `You:`, the assistant's in cyan under
/// `Assistant:`; messages of any other role are left out.
pub open spec fn review_message_spec(m: SavedMessage) -> Seq<char> {
    if m.role@ == "system"@ {
        "\n\x1b[2m[System]\x1b[0m\n"@ + "\x1b[2m"@ + m.content@ + "\x1b[0m\n"@
    } else if m.role@ == "user"@ {
        "\n\x1b[1m\x1b[32mYou:\x1b[0m\n"@ + m.content@ + seq!['\n']
    } else if m.role@ == "assistant"@ {
        "\n\x1b[1m\x1b[36mAssistant:\x1b[0m\n"@ + "\x1b[36m"@ + m.content@ + "\x1b[0m\n"@
    } else {
        seq![]
    }
}

/// The messages of a review, oldest first.
pub open spec fn review_messages_spec(msgs: Seq<SavedMessage>) -> Seq<char>
    decreases msgs.len(),
{
    if msgs.len() == 0 {
        seq![]
    } else {
        review_messages_spec(msgs.drop_last()) + review_message_spec(msgs.last())
    }
}

/// The full review of a saved session: a boxed header with its name, save
/// time and number of non-system messages, the messages, and a closing rule.
pub open spec fn review_spec(sess: SavedSession) -> Seq<char> {
    seq!['\n'] + seq!['┏'] + crate::text::repeated('━', 72) + seq!['\n'] + "┃ Session : "@ + sess.name@
        + seq!['\n'] + "┃ Saved   : "@ + sess.created_at@ + seq!['\n'] + "┃ Messages: "@
        + crate::text::decimal(non_system_count(sess.messages@)) + seq!['\n'] + seq!['┗']
        + crate::text::repeated('━', 72) + seq!['\n'] + review_messages_spec(sess.messages@)
        + seq!['\n'] + crate::text::repeated('─', 72) + seq!['\n'] + seq!['\n']
}

fn push_review_message(out: &mut String, m: &SavedMessage)
    ensures
        final(out)@ == old(out)@ + review_message_spec(*m),
{
    let ghost start = out@;
    let role = m.role.as_str();
    if crate::text::text_eq(role, "system") {
        push_text(out, "\n\x1b[2m[System]\x1b[0m\n");
        push_text(out, "\x1b[2m");
        push_text(out, m.content.as_str());
        push_text(out, "\x1b[0m\n");
    } else if crate::text::text_eq(role, "user") {
        push_text(out, "\n\x1b[1m\x1b[32mYou:\x1b[0m\n");
        push_text(out, m.content.as_str());
        crate::text::push_char(out, '\n');
    } else if crate::text::text_eq(role, "assistant") {
        push_text(out, "\n\x1b[1m\x1b[36mAssistant:\x1b[0m\n");
        push_text(out, "\x1b[36m");
        push_text(out, m.content.as_str());
        push_text(out, "\x1b[0m\n");
    }
    assert(out@ =~= start + review_message_spec(*m));
}

/// The number of messages of `msgs` other than system prompts.
pub fn count_non_system(msgs: &Vec<SavedMessage>) -> (res: usize)
    ensures
        res == non_system_count(msgs@),
{
    let mut n: usize = 0;
    let mut i: usize = 0;
    while i < msgs.len()
        invariant
            i <= msgs.len(),
            n == non_system_count(msgs@.take(i as int)),
            n <= i,
        decreases msgs.len() - i,
    {
        assert(msgs@.take(i + 1).drop_last() =~= msgs@.take(i as int));
        if !crate::text::text_eq(msgs[i].role.as_str(), "system") {
            n = n + 1;
        }
        i = i + 1;
    }
    assert(msgs@.take(msgs.len() as int) =~= msgs@);
    n
}

/// The text shown when a saved session is reviewed.
pub fn session_review_text(sess: &SavedSession) -> (res: String)
    ensures
        res@ == review_spec(*sess),
{
    let mut out = String::new();
    crate::text::push_char(&mut out, '\n');
    crate::text::push_char(&mut out, '┏');
    let heavy = crate::text::repeat_char('━', 72);
    push_chars(&mut out, heavy.as_slice());
    crate::text::push_char(&mut out, '\n');
    push_text(&mut out, "┃ Session : ");
    push_text(&mut out, sess.name.as_str());
    crate::text::push_char(&mut out, '\n');
    push_text(&mut out, "┃ Saved   : ");
    push_text(&mut out, sess.created_at.as_str());
    crate::text::push_char(&mut out, '\n');
    push_text(&mut out, "┃ Messages: ");
    let count = crate::text::decimal_chars(count_non_system(&sess.messages) as u64);
    push_chars(&mut out, count.as_slice());
    crate::text::push_char(&mut out, '\n');
    crate::text::push_char(&mut out, '┗');
    push_chars(&mut out, heavy.as_slice());
    crate::text::push_char(&mut out, '\n');
    let ghost head = out@;
    let mut i: usize = 0;
    while i < sess.messages.len()
        invariant
            i <= sess.messages.len(),
            out@ == head + review_messages_spec(sess.messages@.take(i as int)),
        decreases sess.messages.len() - i,
    {
        assert(sess.messages@.take(i + 1).drop_last() =~= sess.messages@.take(i as int));
        push_review_message(&mut out, &sess.messages[i]);
        i = i + 1;
        assert(out@ =~= head + review_messages_spec(sess.messages@.take(i as int)));
    }
    assert(sess.messages@.take(sess.messages.len() as int) =~= sess.messages@);
    crate::text::push_char(&mut out, '\n');
    let light = crate::text::repeat_char('─', 72);
    push_chars(&mut out, light.as_slice());
    crate::text::push_char(&mut out, '\n');
    crate::text::push_char(&mut out, '\n');
    assert(out@ =~= review_spec(*sess));
    out
}

/// An element-by-element copy of `v`.
pub(crate) fn copy_messages(v: &Vec<SavedMessage>) -> (res: Vec<SavedMessage>)
    ensures
        res@ == v@,
{
    let mut out: Vec<SavedMessage> = Vec::new();
    let mut i: usize = 0;
    while i < v.len()
        invariant
            i <= v.len(),
            out@ == v@.take(i as int),
        decreases v.len() - i,
    {
        let m = &v[i];
        out.push(SavedMessage { role: m.role.clone(), content: m.content.clone() });
        i = i + 1;
        assert(out@ =~= v@.take(i as int));
    }
    assert(v@.take(v.len() as int) =~= v@);
    out
}

impl SavedSession {
    /// The record saved for the conversation `messages` under `name`,
    /// stamped with the current time.
    pub fn snapshot(name: &str, messages: &Vec<SavedMessage>) -> (res: SavedSession)
        ensures
            res.name@ == name@,
            res.messages@ == messages@,
            exists|secs: u64| res.created_at@ == #[trigger] timestamp_text(secs as nat),
    {
        let copy = copy_messages(messages);
        SavedSession { name: name.to_owned(), created_at: crate::timestamp::chrono_now(), messages: copy }
    }
}

} // verus!
