//! Listing saved sessions: reading their timestamps, ordering them newest
//! first and labelling them for the session pickers.
use vstd::prelude::*;
use crate::text::{chars_of, push_chars, push_text, string_from_chars};
use crate::timestamp::{calendar_fields, lemma_timestamp_order, timestamp_text};

verus! {

// ---------------------------------------------------------------------------
// Reading the timestamp of a saved session
// ---------------------------------------------------------------------------

/// The string member `key` of the JSON object in `text`: `None` when `text`
/// is not JSON, is not an object, lacks `key`, or holds no string there.
pub uninterp spec fn json_string_member(text: Seq<char>, key: Seq<char>) -> Option<Seq<char>>;

/// Calls `serde_json::from_str::<serde_json::Value>` on `text`, then indexes
/// the value by `key` and calls `Value::as_str`.  Claimed: the outcome is a
/// fixed function of `text` and `key`, named `json_string_member`; a failed
/// parse gives `None`.  What that function is, JSON's grammar, is not stated.
#[verifier::external_body]
fn read_json_string_member(text: &str, key: &str) -> (res: Option<String>)
    ensures
        match res {
            Some(s) => json_string_member(text@, key@) == Some(s@),
            None => json_string_member(text@, key@) is None,
        },
{
    match serde_json::from_str::<serde_json::Value>(text) {
        Ok(v) => match v[key].as_str() {
            Some(s) => Some(s.to_owned()),
            None => None,
        },
        Err(_) => None,
    }
}

/// The `created_at` recorded in a session file, or the empty string when
/// there is none.
pub open spec fn created_at_spec(file_text: Seq<char>) -> Seq<char> {
    match json_string_member(file_text, "created_at"@) {
        Some(s) => s,
        None => Seq::empty(),
    }
}

/// The `created_at` string of the session file whose text is `file_text`,
/// or the empty string when the file is not JSON or holds no such string.
pub fn session_created_at(file_text: &str) -> (res: String)
    ensures
        res@ == created_at_spec(file_text@),
{
    match read_json_string_member(file_text, "created_at") {
        Some(s) => s,
        None => String::new(),
    }
}

// ---------------------------------------------------------------------------
// Ordering
// ---------------------------------------------------------------------------

/// `a` comes strictly before `b` in the order of `str`: character by
/// character by code point (the byte order of UTF-8), a proper prefix first.
pub open spec fn text_less(a: Seq<char>, b: Seq<char>) -> bool
    decreases a.len(),
{
    if a.len() == 0 {
        b.len() > 0
    } else if b.len() == 0 {
        false
    } else if a[0] != b[0] {
        a[0] < b[0]
    } else {
        text_less(a.drop_first(), b.drop_first())
    }
}

/// `text_less` is irreflexive.
pub proof fn lemma_text_less_irreflexive(a: Seq<char>)
    ensures
        !text_less(a, a),
    decreases a.len(),
{
    if a.len() > 0 {
        lemma_text_less_irreflexive(a.drop_first());
    }
}

/// `text_less` is asymmetric.
pub proof fn lemma_text_less_asymmetric(a: Seq<char>, b: Seq<char>)
    ensures
        text_less(a, b) ==> !text_less(b, a),
    decreases a.len(),
{
    if a.len() > 0 && b.len() > 0 {
        lemma_text_less_asymmetric(a.drop_first(), b.drop_first());
    }
}

/// Two different texts are ordered one way or the other.
pub proof fn lemma_text_less_total(a: Seq<char>, b: Seq<char>)
    ensures
        a != b ==> text_less(a, b) || text_less(b, a),
    decreases a.len(),
{
    if a.len() > 0 && b.len() > 0 {
        lemma_text_less_total(a.drop_first(), b.drop_first());
        if a[0] == b[0] && a != b {
            assert(a.drop_first() != b.drop_first()) by {
                if a.drop_first() == b.drop_first() {
                    assert(a =~= seq![a[0]] + a.drop_first());
                    assert(b =~= seq![b[0]] + b.drop_first());
                }
            }
        }
    }
    if a.len() == 0 && b.len() == 0 {
        assert(a =~= b);
    }
}

/// `text_less` is transitive.
pub proof fn lemma_text_less_transitive(a: Seq<char>, b: Seq<char>, c: Seq<char>)
    ensures
        text_less(a, b) && text_less(b, c) ==> text_less(a, c),
    decreases a.len(),
{
    if a.len() > 0 && b.len() > 0 && c.len() > 0 {
        lemma_text_less_transitive(a.drop_first(), b.drop_first(), c.drop_first());
    }
}

/// Whether `a` comes strictly before `b` in the order of `str`.
pub fn text_lt(a: &str, b: &str) -> (res: bool)
    ensures
        res == text_less(a@, b@),
{
    let va = chars_of(a);
    let vb = chars_of(b);
    let mut i: usize = 0;
    assert(a@.skip(0) =~= a@);
    assert(b@.skip(0) =~= b@);
    while i < va.len() && i < vb.len() && va[i] == vb[i]
        invariant
            va@ == a@,
            vb@ == b@,
            i <= va.len(),
            i <= vb.len(),
            text_less(a@, b@) == text_less(a@.skip(i as int), b@.skip(i as int)),
        decreases va.len() - i,
    {
        proof {
            let sa = a@.skip(i as int);
            let sb = b@.skip(i as int);
            assert(sa.drop_first() =~= a@.skip(i + 1));
            assert(sb.drop_first() =~= b@.skip(i + 1));
        }
        i = i + 1;
    }
    if i == va.len() {
        i < vb.len()
    } else if i == vb.len() {
        false
    } else {
        va[i] < vb[i]
    }
}

/// A session listing entry: the file stem and the recorded `created_at`.
pub type SessionEntry = (String, String);

/// The entries whose `created_at` is `k`.
pub open spec fn created_at_is(k: Seq<char>) -> spec_fn(SessionEntry) -> bool {
    |e: SessionEntry| e.1@ == k
}

/// No entry is followed by one whose `created_at` stamp sorts later.
pub open spec fn stamps_descending(s: Seq<SessionEntry>) -> bool {
    forall|i: int, j: int| 0 <= i < j < s.len() ==> !text_less(#[trigger] s[i].1@, #[trigger] s[j].1@)
}

proof fn lemma_filter_none(s: Seq<SessionEntry>, pred: spec_fn(SessionEntry) -> bool)
    requires
        forall|i: int| 0 <= i < s.len() ==> !pred(#[trigger] s[i]),
    ensures
        s.filter(pred) == Seq::<SessionEntry>::empty(),
    decreases s.len(),
{
    reveal(Seq::filter);
    if s.len() > 0 {
        lemma_filter_none(s.drop_last(), pred);
        assert(!pred(s[s.len() - 1]));
    }
}

proof fn lemma_filter_single(x: SessionEntry, pred: spec_fn(SessionEntry) -> bool)
    ensures
        seq![x].filter(pred) == (if pred(x) { seq![x] } else { Seq::<SessionEntry>::empty() }),
{
    reveal_with_fuel(Seq::filter, 2);
    assert(seq![x].drop_last() =~= Seq::<SessionEntry>::empty());
}

/// Where `x` goes in the newest-first list `res`: before the first entry
/// with an earlier `created_at`, after every entry at least as recent.
fn insertion_point(res: &Vec<SessionEntry>, x: &SessionEntry) -> (j: usize)
    ensures
        j <= res.len(),
        forall|a: int| 0 <= a < j ==> !text_less(#[trigger] res@[a].1@, x.1@),
        j < res.len() ==> text_less(res@[j as int].1@, x.1@),
{
    let mut j: usize = 0;
    while j < res.len()
        invariant
            j <= res.len(),
            forall|a: int| 0 <= a < j ==> !text_less(#[trigger] res@[a].1@, x.1@),
        decreases res.len() - j,
    {
        if text_lt(res[j].1.as_str(), x.1.as_str()) {
            return j;
        }
        j = j + 1;
    }
    j
}

/// The session entries ordered by `created_at`, latest stamp first, entries
/// with the same `created_at` keeping their relative order (a stable sort).
/// For stamps written by `chrono_now` this lists the sessions newest first:
/// see `lemma_listed_newest_first`.
pub fn sessions_newest_first(entries: Vec<SessionEntry>) -> (res: Vec<SessionEntry>)
    ensures
        stamps_descending(res@),
        forall|k: Seq<char>| #[trigger] res@.filter(created_at_is(k)) == entries@.filter(created_at_is(k)),
{
    let mut res: Vec<SessionEntry> = Vec::new();
    let mut i: usize = 0;
    while i < entries.len()
        invariant
            i <= entries.len(),
            stamps_descending(res@),
            forall|k: Seq<char>| #[trigger] res@.filter(created_at_is(k)) == entries@.take(i as int).filter(
                created_at_is(k),
            ),
        decreases entries.len() - i,
    {
        let x: SessionEntry = (entries[i].0.clone(), entries[i].1.clone());
        assert(x == entries@[i as int]);
        let j = insertion_point(&res, &x);
        let ghost old_res = res@;
        proof {
            assert forall|b: int| j <= b < old_res.len() implies text_less(#[trigger] old_res[b].1@, x.1@) by {
                if b > j {
                    assert(!text_less(old_res[j as int].1@, old_res[b].1@));
                    lemma_text_less_total(old_res[b].1@, old_res[j as int].1@);
                    lemma_text_less_transitive(old_res[b].1@, old_res[j as int].1@, x.1@);
                }
            }
        }
        res.insert(j, x);
        proof {
            let r = res@;
            assert(r =~= old_res.take(j as int) + seq![x] + old_res.skip(j as int));
            assert forall|a: int, b: int| 0 <= a < b < r.len() implies !text_less(#[trigger] r[a].1@, #[trigger] r[b].1@) by {
                if a < j && b < j {
                } else if a < j && b == j {
                } else if a < j && b > j {
                    assert(r[b] == old_res[b - 1]);
                } else if a == j {
                    assert(r[b] == old_res[b - 1]);
                    lemma_text_less_asymmetric(old_res[b - 1].1@, x.1@);
                } else {
                    assert(r[a] == old_res[a - 1]);
                    assert(r[b] == old_res[b - 1]);
                }
            }
            assert forall|k: Seq<char>| #[trigger] r.filter(created_at_is(k)) == entries@.take(i + 1).filter(
                created_at_is(k),
            ) by {
                let p = created_at_is(k);
                let pre = old_res.take(j as int);
                let post = old_res.skip(j as int);
                assert(entries@.take(i + 1) =~= entries@.take(i as int) + seq![x]);
                Seq::filter_distributes_over_add(entries@.take(i as int), seq![x], p);
                Seq::filter_distributes_over_add(pre + seq![x], post, p);
                Seq::filter_distributes_over_add(pre, seq![x], p);
                Seq::filter_distributes_over_add(pre, post, p);
                assert(old_res =~= pre + post);
                lemma_filter_single(x, p);
                if x.1@ == k {
                    assert forall|m: int| 0 <= m < post.len() implies !p(#[trigger] post[m]) by {
                        assert(post[m] == old_res[j + m]);
                        lemma_text_less_irreflexive(x.1@);
                    }
                    lemma_filter_none(post, p);
                    assert(pre.filter(p) + seq![x] + post.filter(p) =~= pre.filter(p) + post.filter(p)
                        + seq![x]);
                } else {
                    assert(pre.filter(p) + Seq::<SessionEntry>::empty() =~= pre.filter(p));
                    assert(entries@.take(i as int).filter(p) + Seq::<SessionEntry>::empty()
                        =~= entries@.take(i as int).filter(p));
                }
            }
        }
        i = i + 1;
    }
    assert(entries@.take(entries.len() as int) =~= entries@);
    res
}

/// Listing by stamp lists newest first: in a list ordered by
/// `sessions_newest_first` whose stamps were made from times `secs` (with
/// four-digit years), a session listed before another was not saved at an
/// earlier time, unless both were saved within the same minute.
pub proof fn lemma_listed_newest_first(s: Seq<SessionEntry>, secs: Seq<nat>)
    requires
        stamps_descending(s),
        secs.len() == s.len(),
        forall|k: int| 0 <= k < s.len() ==> #[trigger] s[k].1@ == timestamp_text(secs[k]),
        forall|k: int| 0 <= k < s.len() ==> #[trigger] calendar_fields(secs[k]).0 <= 9999,
    ensures
        forall|i: int, j: int|
            0 <= i < j < s.len() && secs[i] < secs[j] ==> #[trigger] s[i].1@ == #[trigger] s[j].1@,
{
    assert forall|i: int, j: int| 0 <= i < j < s.len() && secs[i] < secs[j] implies #[trigger] s[i].1@
        == #[trigger] s[j].1@ by {
        assert(calendar_fields(secs[j]).0 <= 9999);
        lemma_timestamp_order(secs[i], secs[j]);
        lemma_text_less_total(s[i].1@, s[j].1@);
    }
}

// ---------------------------------------------------------------------------
// Picker labels
// ---------------------------------------------------------------------------

/// The label of a session in the pickers: its name, followed by
/// `  [<created_at>]` when that is known.
pub open spec fn session_label_spec(e: SessionEntry) -> Seq<char> {
    if e.1@.len() == 0 {
        e.0@
    } else {
        e.0@ + seq![' ', ' ', '['] + e.1@ + seq![']']
    }
}

/// The picker labels of the listed sessions, in order.
pub fn session_labels(entries: &Vec<SessionEntry>) -> (res: Vec<String>)
    ensures
        res@.len() == entries@.len(),
        forall|i: int| 0 <= i < entries@.len() ==> #[trigger] res@[i]@ == session_label_spec(entries@[i]),
{
    let mut out: Vec<String> = Vec::new();
    let mut i: usize = 0;
    while i < entries.len()
        invariant
            i <= entries.len(),
            out@.len() == i,
            forall|m: int| 0 <= m < i ==> #[trigger] out@[m]@ == session_label_spec(entries@[m]),
        decreases entries.len() - i,
    {
        let name = &entries[i].0;
        let ts = &entries[i].1;
        let label = if ts.as_str().is_empty() {
            name.clone()
        } else {
            let mut l = name.clone();
            push_text(&mut l, "  [");
            push_text(&mut l, ts.as_str());
            crate::text::push_char(&mut l, ']');
            proof {
                reveal_strlit("  [");
            }
            l
        };
        out.push(label);
        i = i + 1;
    }
    out
}

} // verus!
