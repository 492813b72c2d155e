//! Finding the web addresses mentioned in a chat message.
use vstd::prelude::*;
use crate::page::join_with;
use crate::text::{chars_of, chars_eq, is_whitespace, string_from_chars, is_white_space};

verus! {

/// `pat` occurs in `s` starting at index `i`.
pub open spec fn matches_at(s: Seq<char>, i: int, pat: Seq<char>) -> bool {
    0 <= i && i + pat.len() <= s.len() && s.subrange(i, i + pat.len()) == pat
}

/// The first index at or after `from` where `pat` occurs in `s`.
pub open spec fn find_from(s: Seq<char>, pat: Seq<char>, from: int) -> Option<int>
    decreases s.len() - from,
{
    if from < 0 || from >= s.len() {
        None
    } else if matches_at(s, from, pat) {
        Some(from)
    } else {
        find_from(s, pat, from + 1)
    }
}

/// `https://`
pub open spec fn https_prefix() -> Seq<char> {
    seq!['h', 't', 't', 'p', 's', ':', '/', '/']
}

/// `http://`
pub open spec fn http_prefix() -> Seq<char> {
    seq!['h', 't', 't', 'p', ':', '/', '/']
}

/// Where the next address starts at or after `from`: the first occurrence of
/// `https://` or `http://`, whichever comes first.
pub open spec fn url_start(s: Seq<char>, from: int) -> Option<int> {
    match (find_from(s, https_prefix(), from), find_from(s, http_prefix(), from)) {
        (Some(a), Some(b)) => Some(if a <= b { a } else { b }),
        (Some(a), None) => Some(a),
        (None, Some(b)) => Some(b),
        (None, None) => None,
    }
}

/// The characters that end an address: white space, quotes, closing
/// brackets and commas.
pub open spec fn is_url_terminator(c: char) -> bool {
    is_white_space(c) || c == '"' || c == '\'' || c == ')' || c == ']' || c == '>' || c == ','
}

/// The index of the first terminator at or after `from`, or the length of
/// `s` when there is none.
pub open spec fn url_end(s: Seq<char>, from: int) -> int
    decreases s.len() - from,
{
    if from < 0 || from >= s.len() {
        s.len() as int
    } else if is_url_terminator(s[from]) {
        from
    } else {
        url_end(s, from + 1)
    }
}

/// `s` without the full stops at its end.
pub open spec fn trim_trailing_dots(s: Seq<char>) -> Seq<char>
    decreases s.len(),
{
    if s.len() > 0 && s.last() == '.' {
        trim_trailing_dots(s.drop_last())
    } else {
        s
    }
}

/// A match found from `from` lies at or after it, inside `s`.
pub proof fn lemma_find_from_bounds(s: Seq<char>, pat: Seq<char>, from: int)
    ensures
        find_from(s, pat, from) matches Some(p) ==> from <= p < s.len() && matches_at(s, p, pat),
    decreases s.len() - from,
{
    if from >= 0 && from < s.len() && !matches_at(s, from, pat) {
        lemma_find_from_bounds(s, pat, from + 1);
    }
}

/// The end of an address lies between its start and the end of the text.
pub proof fn lemma_url_end_bounds(s: Seq<char>, from: int)
    requires
        0 <= from <= s.len(),
    ensures
        from <= url_end(s, from) <= s.len(),
    decreases s.len() - from,
{
    if from < s.len() && !is_url_terminator(s[from]) {
        lemma_url_end_bounds(s, from + 1);
    }
}

/// An address found from `from` starts at or after it, inside `s`.
pub proof fn lemma_url_start_bounds(s: Seq<char>, from: int)
    ensures
        url_start(s, from) matches Some(p) ==> from <= p < s.len(),
{
    lemma_find_from_bounds(s, https_prefix(), from);
    lemma_find_from_bounds(s, http_prefix(), from);
}

/// The addresses found scanning `s` from index `from`: each starts at
/// `url_start`, runs up to the next terminator and loses its trailing full
/// stops; an empty one is skipped, and the scan goes on after it (one
/// character further when it ended where it started).
pub open spec fn urls_from(s: Seq<char>, from: int) -> Seq<Seq<char>>
    decreases s.len() - from,
{
    if from < 0 || from > s.len() {
        seq![]
    } else {
        match url_start(s, from) {
            None => seq![],
            Some(p) => {
                proof {
                    lemma_url_start_bounds(s, from);
                    lemma_url_end_bounds(s, p);
                }
                let e = url_end(s, p);
                let u = trim_trailing_dots(s.subrange(p, e));
                let next = if e == p { p + 1 } else { e };
                (if u.len() > 0 { seq![u] } else { seq![] }) + urls_from(s, next)
            },
        }
    }
}

/// `s` with each run of equal neighbours reduced to its first element.
pub open spec fn dedup_adjacent(s: Seq<Seq<char>>) -> Seq<Seq<char>>
    decreases s.len(),
{
    if s.len() <= 1 {
        s
    } else if s.last() == s[s.len() - 2] {
        dedup_adjacent(s.drop_last())
    } else {
        dedup_adjacent(s.drop_last()).push(s.last())
    }
}

/// The addresses mentioned in `text`, in order, with repeats in a row
/// dropped.
pub open spec fn extracted_urls(text: Seq<char>) -> Seq<Seq<char>> {
    dedup_adjacent(urls_from(text, 0))
}

/// The last element survives dropping repeats.
pub proof fn lemma_dedup_last(s: Seq<Seq<char>>)
    requires
        s.len() > 0,
    ensures
        dedup_adjacent(s).len() > 0,
        dedup_adjacent(s).last() == s.last(),
    decreases s.len(),
{
    if s.len() > 1 && s.last() == s[s.len() - 2] {
        lemma_dedup_last(s.drop_last());
    }
}

fn matches_at_exec(t: &[char], i: usize, pat: &[char]) -> (res: bool)
    ensures
        res == matches_at(t@, i as int, pat@),
{
    if i > t.len() || pat.len() > t.len() - i {
        return false;
    }
    let mut j: usize = 0;
    while j < pat.len()
        invariant
            i + pat.len() <= t.len(),
            j <= pat.len(),
            forall|k: int| 0 <= k < j ==> t@[i + k] == pat@[k],
        decreases pat.len() - j,
    {
        if t[i + j] != pat[j] {
            assert(t@.subrange(i as int, i + pat.len())[j as int] != pat@[j as int]);
            return false;
        }
        j = j + 1;
    }
    assert(t@.subrange(i as int, i + pat.len()) =~= pat@);
    true
}

fn find_from_exec(t: &[char], pat: &[char], from: usize) -> (res: Option<usize>)
    ensures
        match res {
            Some(p) => find_from(t@, pat@, from as int) == Some(p as int),
            None => find_from(t@, pat@, from as int) is None,
        },
{
    let mut i = from;
    while i < t.len()
        invariant
            from <= i,
            find_from(t@, pat@, from as int) == find_from(t@, pat@, i as int),
        decreases t.len() - i,
    {
        if matches_at_exec(t, i, pat) {
            return Some(i);
        }
        i = i + 1;
    }
    None
}

fn url_end_exec(t: &[char], from: usize) -> (res: usize)
    requires
        from <= t.len(),
    ensures
        res == url_end(t@, from as int),
{
    let mut i = from;
    while i < t.len()
        invariant
            from <= i <= t.len(),
            url_end(t@, from as int) == url_end(t@, i as int),
        decreases t.len() - i,
    {
        let c = t[i];
        if is_whitespace(c) || c == '"' || c == '\'' || c == ')' || c == ']' || c == '>' || c
            == ',' {
            return i;
        }
        i = i + 1;
    }
    i
}

fn copy_range(t: &[char], a: usize, b: usize) -> (res: Vec<char>)
    requires
        a <= b <= t.len(),
    ensures
        res@ == t@.subrange(a as int, b as int),
{
    let mut out: Vec<char> = Vec::new();
    let mut i = a;
    while i < b
        invariant
            a <= i <= b,
            b <= t.len(),
            out@ == t@.subrange(a as int, i as int),
        decreases b - i,
    {
        out.push(t[i]);
        i = i + 1;
        assert(out@ =~= t@.subrange(a as int, i as int));
    }
    out
}

/// The web addresses (`https://...` or `http://...`) mentioned in `text`, in
/// order of discovery, with repeats in a row dropped.
pub fn extract_urls(text: &str) -> (res: Vec<String>)
    ensures
        res@.map_values(|u: String| u@) == extracted_urls(text@),
{
    let tv = chars_of(text);
    let t = tv.as_slice();
    let https: Vec<char> = vec!['h', 't', 't', 'p', 's', ':', '/', '/'];
    let http: Vec<char> = vec!['h', 't', 't', 'p', ':', '/', '/'];
    assert(https@ =~= https_prefix());
    assert(http@ =~= http_prefix());
    let mut out: Vec<String> = Vec::new();
    let mut last: Vec<char> = Vec::new();
    let mut have_last = false;
    let ghost mut raw: Seq<Seq<char>> = seq![];
    let mut pos: usize = 0;
    loop
        invariant
            t@ == text@,
            https@ == https_prefix(),
            http@ == http_prefix(),
            pos <= t.len(),
            raw + urls_from(t@, pos as int) == urls_from(t@, 0),
            out@.map_values(|u: String| u@) == dedup_adjacent(raw),
            have_last == (raw.len() > 0),
            raw.len() > 0 ==> last@ == raw.last(),
        ensures
            out@.map_values(|u: String| u@) == dedup_adjacent(urls_from(text@, 0)),
        decreases t.len() - pos,
    {
        let start = match (
            find_from_exec(t, https.as_slice(), pos),
            find_from_exec(t, http.as_slice(), pos),
        ) {
            (Some(a), Some(b)) => if a <= b { a } else { b },
            (Some(a), None) => a,
            (None, Some(b)) => b,
            (None, None) => {
                assert(urls_from(t@, pos as int) =~= seq![]);
                assert(raw + seq![] =~= raw);
                break ;
            },
        };
        proof {
            lemma_url_start_bounds(t@, pos as int);
            assert(url_start(t@, pos as int) == Some(start as int));
            lemma_url_end_bounds(t@, start as int);
        }
        let e = url_end_exec(t, start);
        let mut k = e;
        while k > start && t[k - 1] == '.'
            invariant
                start <= k <= e,
                e <= t.len(),
                trim_trailing_dots(t@.subrange(start as int, e as int)) == trim_trailing_dots(
                    t@.subrange(start as int, k as int),
                ),
            decreases k,
        {
            assert(t@.subrange(start as int, k as int).drop_last() =~= t@.subrange(
                start as int,
                k - 1,
            ));
            k = k - 1;
        }
        let ghost u = trim_trailing_dots(t@.subrange(start as int, e as int));
        proof {
            if k > start {
                assert(t@.subrange(start as int, k as int).last() == t@[k - 1]);
            } else {
                assert(t@.subrange(start as int, k as int) =~= Seq::<char>::empty());
            }
            assert(u == t@.subrange(start as int, k as int));
        }
        let next = if e == start { start + 1 } else { e };
        let ghost piece: Seq<Seq<char>> = if u.len() > 0 { seq![u] } else { seq![] };
        assert(urls_from(t@, pos as int) == piece + urls_from(t@, next as int));
        let ghost old_raw = raw;
        if k > start {
            let v = copy_range(t, start, k);
            let ghost old_out = out@;
            let is_repeat = have_last && chars_eq(last.as_slice(), v.as_slice());
            proof {
                let s2 = raw.push(u);
                assert(s2.drop_last() =~= raw);
                if raw.len() > 0 {
                    assert(s2[s2.len() - 2] == raw.last());
                }
            }
            if !is_repeat {
                out.push(string_from_chars(v.as_slice()));
                assert(out@.map_values(|s: String| s@) =~= old_out.map_values(|s: String| s@).push(
                    u,
                ));
            }
            last = v;
            have_last = true;
            proof {
                raw = raw.push(u);
            }
        }
        proof {
            if u.len() > 0 {
                assert(raw =~= old_raw + piece);
            } else {
                assert(raw =~= old_raw + piece);
            }
            assert(raw + urls_from(t@, next as int) =~= old_raw + (piece + urls_from(
                t@,
                next as int,
            )));
        }
        pos = next;
    }
    out
}

/// An address as the scan produces it: it starts with `https://` or
/// `http://`, holds no terminator and does not end with a full stop.
pub open spec fn url_shaped(u: Seq<char>) -> bool {
    &&& (https_prefix().is_prefix_of(u) || http_prefix().is_prefix_of(u))
    &&& forall|j: int| 0 <= j < u.len() ==> !is_url_terminator(#[trigger] u[j])
    &&& u.last() != '.'
}

proof fn lemma_url_end_clear(s: Seq<char>, from: int)
    requires
        0 <= from <= s.len(),
    ensures
        forall|k: int| from <= k < url_end(s, from) ==> !is_url_terminator(#[trigger] s[k]),
    decreases s.len() - from,
{
    if from < s.len() && !is_url_terminator(s[from]) {
        lemma_url_end_clear(s, from + 1);
    }
}

proof fn lemma_url_end_at_least(s: Seq<char>, from: int, m: int)
    requires
        0 <= from <= m <= s.len(),
        forall|k: int| from <= k < m ==> !is_url_terminator(#[trigger] s[k]),
    ensures
        url_end(s, from) >= m,
    decreases s.len() - from,
{
    if from < m {
        lemma_url_end_at_least(s, from + 1, m);
    } else {
        lemma_url_end_bounds(s, from);
    }
}

proof fn lemma_trim_dots(x: Seq<char>) -> (k: int)
    ensures
        0 <= k <= x.len(),
        trim_trailing_dots(x) == x.take(k),
        k == 0 || x[k - 1] != '.',
        forall|j: int| k <= j < x.len() ==> x[j] == '.',
    decreases x.len(),
{
    if x.len() > 0 && x.last() == '.' {
        let k = lemma_trim_dots(x.drop_last());
        assert(x.drop_last().take(k) =~= x.take(k));
        assert forall|j: int| k <= j < x.len() implies x[j] == '.' by {
            if j < x.len() - 1 {
                assert(x.drop_last()[j] == x[j]);
            }
        }
        k
    } else {
        assert(x.take(x.len() as int) =~= x);
        x.len() as int
    }
}

proof fn lemma_prefix_not_terminator(pat: Seq<char>)
    requires
        pat == https_prefix() || pat == http_prefix(),
    ensures
        forall|j: int| 0 <= j < pat.len() ==> !is_url_terminator(#[trigger] pat[j]),
        pat.last() != '.',
{
}

proof fn lemma_piece_shaped(s: Seq<char>, p: int, pat: Seq<char>)
    requires
        pat == https_prefix() || pat == http_prefix(),
        0 <= p < s.len(),
        matches_at(s, p, pat),
    ensures
        url_shaped(trim_trailing_dots(s.subrange(p, url_end(s, p)))),
{
    lemma_prefix_not_terminator(pat);
    let m = p + pat.len();
    assert forall|k: int| p <= k < m implies !is_url_terminator(#[trigger] s[k]) by {
        assert(s[k] == s.subrange(p, m)[k - p]);
    }
    lemma_url_end_at_least(s, p, m);
    lemma_url_end_bounds(s, p);
    lemma_url_end_clear(s, p);
    let e = url_end(s, p);
    let x = s.subrange(p, e);
    let k = lemma_trim_dots(x);
    assert(x[pat.len() - 1] == pat.last()) by {
        assert(s.subrange(p, m)[pat.len() - 1] == pat[pat.len() - 1]);
    }
    assert(k >= pat.len());
    let u = x.take(k);
    assert(pat =~= u.subrange(0, pat.len() as int)) by {
        assert forall|j: int| 0 <= j < pat.len() implies pat[j] == u[j] by {
            assert(s.subrange(p, m)[j] == pat[j]);
        }
    }
    assert forall|j: int| 0 <= j < u.len() implies !is_url_terminator(#[trigger] u[j]) by {
        assert(u[j] == s[p + j]);
    }
}

proof fn lemma_urls_from_shaped(s: Seq<char>, from: int)
    ensures
        forall|i: int| 0 <= i < urls_from(s, from).len() ==> url_shaped(#[trigger] urls_from(s, from)[i]),
    decreases s.len() - from,
{
    if 0 <= from <= s.len() {
        match url_start(s, from) {
            None => {},
            Some(p) => {
                lemma_url_start_bounds(s, from);
                lemma_url_end_bounds(s, p);
                lemma_find_from_bounds(s, https_prefix(), from);
                lemma_find_from_bounds(s, http_prefix(), from);
                let e = url_end(s, p);
                let u = trim_trailing_dots(s.subrange(p, e));
                let next = if e == p { p + 1 } else { e };
                lemma_urls_from_shaped(s, next);
                if find_from(s, https_prefix(), from) == Some(p) {
                    lemma_piece_shaped(s, p, https_prefix());
                } else {
                    lemma_piece_shaped(s, p, http_prefix());
                }
                let head: Seq<Seq<char>> = if u.len() > 0 { seq![u] } else { seq![] };
                let all = head + urls_from(s, next);
                assert forall|i: int| 0 <= i < all.len() implies url_shaped(#[trigger] all[i]) by {
                    if i >= head.len() {
                        assert(all[i] == urls_from(s, next)[i - head.len()]);
                    }
                }
            },
        }
    }
}

/// Dropping repeats keeps only elements of the sequence, so a property of
/// every element still holds afterwards.
pub proof fn lemma_dedup_keeps(s: Seq<Seq<char>>, pred: spec_fn(Seq<char>) -> bool)
    requires
        forall|i: int| 0 <= i < s.len() ==> pred(#[trigger] s[i]),
    ensures
        forall|i: int| 0 <= i < dedup_adjacent(s).len() ==> pred(#[trigger] dedup_adjacent(s)[i]),
    decreases s.len(),
{
    if s.len() > 1 {
        let t = s.drop_last();
        assert forall|i: int| 0 <= i < t.len() implies pred(#[trigger] t[i]) by {
            assert(t[i] == s[i]);
        }
        lemma_dedup_keeps(t, pred);
        let d = dedup_adjacent(t);
        if s.last() != s[s.len() - 2] {
            assert forall|i: int| 0 <= i < d.push(s.last()).len() implies pred(
                #[trigger] d.push(s.last())[i],
            ) by {
                if i < d.len() {
                    assert(d.push(s.last())[i] == d[i]);
                }
            }
        }
    }
}

/// After dropping repeats no element equals the next.
pub proof fn lemma_dedup_no_repeats(s: Seq<Seq<char>>)
    ensures
        forall|i: int, j: int|
            0 <= i && j == i + 1 && j < dedup_adjacent(s).len() ==> #[trigger] dedup_adjacent(s)[i]
                != #[trigger] dedup_adjacent(s)[j],
    decreases s.len(),
{
    if s.len() > 1 {
        lemma_dedup_no_repeats(s.drop_last());
        if s.last() != s[s.len() - 2] {
            lemma_dedup_last(s.drop_last());
        }
    }
}

/// Every address `extract_urls` gives starts with `https://` or `http://`,
/// holds no white space, quote, `)`, `]`, `>` or `,`, and does not end with
/// a full stop; and no address directly repeats the one before it.
pub proof fn lemma_extracted_urls_shape(text: Seq<char>)
    ensures
        forall|i: int| 0 <= i < extracted_urls(text).len() ==> url_shaped(#[trigger] extracted_urls(text)[i]),
        forall|i: int, j: int|
            0 <= i && j == i + 1 && j < extracted_urls(text).len() ==> #[trigger] extracted_urls(text)[i]
                != #[trigger] extracted_urls(text)[j],
{
    lemma_urls_from_shaped(text, 0);
    lemma_dedup_keeps(urls_from(text, 0), |u: Seq<char>| url_shaped(u));
    lemma_dedup_no_repeats(urls_from(text, 0));
}

/// Dropping repeats keeps a sequence empty exactly when it was.
pub proof fn lemma_dedup_nonempty(s: Seq<Seq<char>>)
    ensures
        (dedup_adjacent(s).len() > 0) == (s.len() > 0),
{
    if s.len() > 0 {
        lemma_dedup_last(s);
    }
}

proof fn lemma_find_shift(c: Seq<char>, b: Seq<char>, pat: Seq<char>, i: int)
    requires
        0 <= i,
    ensures
        find_from(c + b, pat, c.len() + i) == match find_from(b, pat, i) {
            Some(p) => Some(p + c.len()),
            None => None::<int>,
        },
    decreases b.len() - i,
{
    let s = c + b;
    if i < b.len() {
        if i + pat.len() <= b.len() {
            assert(s.subrange(c.len() + i, c.len() + i + pat.len()) =~= b.subrange(i, i + pat.len()));
        }
        lemma_find_shift(c, b, pat, i + 1);
    }
}

proof fn lemma_url_end_shift(c: Seq<char>, b: Seq<char>, i: int)
    requires
        0 <= i,
    ensures
        url_end(c + b, c.len() + i) == url_end(b, i) + c.len(),
    decreases b.len() - i,
{
    if i < b.len() {
        assert((c + b)[c.len() + i] == b[i]);
        lemma_url_end_shift(c, b, i + 1);
    }
}

proof fn lemma_urls_shift(c: Seq<char>, b: Seq<char>, i: int)
    requires
        0 <= i,
    ensures
        urls_from(c + b, c.len() + i) == urls_from(b, i),
    decreases b.len() - i,
{
    let s = c + b;
    if i <= b.len() {
        lemma_find_shift(c, b, https_prefix(), i);
        lemma_find_shift(c, b, http_prefix(), i);
        match url_start(b, i) {
            None => {},
            Some(p) => {
                lemma_url_start_bounds(b, i);
                lemma_url_end_bounds(b, p);
                lemma_url_end_shift(c, b, p);
                let e = url_end(b, p);
                assert(s.subrange(c.len() + p, c.len() + e) =~= b.subrange(p, e));
                let next = if e == p { p + 1 } else { e };
                lemma_urls_shift(c, b, next);
            },
        }
    }
}

proof fn lemma_find_at(s: Seq<char>, pat: Seq<char>, i: int)
    requires
        0 <= i < s.len(),
        matches_at(s, i, pat),
    ensures
        find_from(s, pat, i) == Some(i),
{
}

proof fn lemma_url_end_over(s: Seq<char>, from: int, m: int)
    requires
        0 <= from <= m <= s.len(),
        forall|k: int| from <= k < m ==> !is_url_terminator(#[trigger] s[k]),
        m == s.len() || is_url_terminator(s[m]),
    ensures
        url_end(s, from) == m,
    decreases m - from,
{
    if from < m {
        lemma_url_end_over(s, from + 1, m);
    }
}

proof fn lemma_url_start_skip_space(s: Seq<char>, i: int)
    requires
        0 <= i < s.len(),
        s[i] == ' ',
    ensures
        url_start(s, i) == url_start(s, i + 1),
{
    assert(!matches_at(s, i, https_prefix())) by {
        if matches_at(s, i, https_prefix()) {
            assert(s.subrange(i, i + 8)[0] == s[i]);
        }
    }
    assert(!matches_at(s, i, http_prefix())) by {
        if matches_at(s, i, http_prefix()) {
            assert(s.subrange(i, i + 7)[0] == s[i]);
        }
    }
}

/// The address scan of `u`, followed by the rest of a text after a space,
/// finds `u` itself first and then what the rest holds.
proof fn lemma_urls_of_shaped_head(u: Seq<char>, rest: Seq<char>, with_rest: bool)
    requires
        url_shaped(u),
    ensures
        with_rest ==> urls_from(u + seq![' '] + rest, 0) == seq![u] + urls_from(rest, 0),
        !with_rest ==> urls_from(u, 0) == seq![u],
{
    let s = if with_rest { u + seq![' '] + rest } else { u };
    let pat = if https_prefix().is_prefix_of(u) { https_prefix() } else { http_prefix() };
    assert(pat.len() <= u.len());
    assert(forall|j: int| 0 <= j < u.len() ==> s[j] == u[j]);
    assert(s.subrange(0, pat.len() as int) =~= u.subrange(0, pat.len() as int));
    lemma_find_at(s, pat, 0);
    lemma_find_from_bounds(s, https_prefix(), 0);
    lemma_find_from_bounds(s, http_prefix(), 0);
    assert(url_start(s, 0) == Some(0int));
    lemma_url_end_over(s, 0, u.len() as int);
    assert(s.subrange(0, u.len() as int) =~= u);
    assert(trim_trailing_dots(u) == u);
    if with_rest {
        let n = u.len() as int;
        lemma_url_start_skip_space(s, n);
        assert(s =~= (u + seq![' ']) + rest);
        lemma_urls_shift(u + seq![' '], rest, 0);
        assert(urls_from(s, n) == urls_from(s, n + 1));
        assert(urls_from(s, 0) =~= seq![u] + urls_from(rest, 0));
    } else {
        assert(urls_from(s, u.len() as int) =~= Seq::<Seq<char>>::empty());
        assert(urls_from(s, 0) =~= seq![u]);
    }
}

proof fn lemma_join_front(us: Seq<Seq<char>>, sep: Seq<char>)
    requires
        us.len() >= 2,
    ensures
        join_with(us, sep) == us[0] + sep + join_with(us.drop_first(), sep),
    decreases us.len(),
{
    if us.len() > 2 {
        lemma_join_front(us.drop_last(), sep);
        let d = us.drop_first().drop_last();
        assert(us.drop_last().drop_first() =~= d);
        assert(us.drop_last()[0] == us[0]);
        assert(us.drop_first().last() == us.last());
        let a = join_with(d, sep);
        assert(join_with(us.drop_first(), sep) == a + sep + us.last());
        assert(join_with(us, sep) == join_with(us.drop_last(), sep) + sep + us.last());
        assert((us[0] + sep + a) + sep + us.last() =~= us[0] + sep + (a + sep + us.last()));
    } else {
        assert(us.drop_last() =~= seq![us[0]]);
        assert(us.drop_first() =~= seq![us[1]]);
        assert(join_with(us.drop_last(), sep) == us[0]);
        assert(join_with(us.drop_first(), sep) == us[1]);
    }
}

proof fn lemma_urls_of_joined(us: Seq<Seq<char>>)
    requires
        forall|i: int| 0 <= i < us.len() ==> url_shaped(#[trigger] us[i]),
    ensures
        urls_from(join_with(us, seq![' ']), 0) == us,
    decreases us.len(),
{
    if us.len() == 0 {
        assert(urls_from(Seq::<char>::empty(), 0) =~= Seq::<Seq<char>>::empty());
    } else if us.len() == 1 {
        assert(url_shaped(us[0]));
        lemma_urls_of_shaped_head(us[0], Seq::empty(), false);
        assert(seq![us[0]] =~= us);
    } else {
        let t = us.drop_first();
        assert forall|i: int| 0 <= i < t.len() implies url_shaped(#[trigger] t[i]) by {
            assert(t[i] == us[i + 1]);
        }
        lemma_urls_of_joined(t);
        lemma_join_front(us, seq![' ']);
        assert(url_shaped(us[0]));
        lemma_urls_of_shaped_head(us[0], join_with(t, seq![' ']), true);
        assert(seq![us[0]] + t =~= us);
    }
}

proof fn lemma_dedup_of_distinct_neighbours(s: Seq<Seq<char>>)
    requires
        forall|i: int, j: int| 0 <= i && j == i + 1 && j < s.len() ==> #[trigger] s[i] != #[trigger] s[j],
    ensures
        dedup_adjacent(s) == s,
    decreases s.len(),
{
    if s.len() > 1 {
        let t = s.drop_last();
        assert forall|i: int, j: int| 0 <= i && j == i + 1 && j < t.len() implies #[trigger] t[i]
            != #[trigger] t[j] by {
            assert(t[i] == s[i] && t[j] == s[j]);
        }
        lemma_dedup_of_distinct_neighbours(t);
        assert(s[s.len() - 2] != s[s.len() - 1]);
        assert(t.push(s.last()) =~= s);
    }
}

/// Extracting addresses from the extracted addresses written one after the
/// other, separated by spaces, gives them back unchanged.
pub proof fn lemma_extract_urls_idempotent(text: Seq<char>)
    ensures
        extracted_urls(join_with(extracted_urls(text), seq![' '])) == extracted_urls(text),
{
    let e = extracted_urls(text);
    lemma_extracted_urls_shape(text);
    lemma_urls_of_joined(e);
    lemma_dedup_of_distinct_neighbours(e);
}

/// Dropping repeats keeps the first element.
proof fn lemma_dedup_first(s: Seq<Seq<char>>)
    requires
        s.len() > 0,
    ensures
        dedup_adjacent(s).len() > 0,
        dedup_adjacent(s)[0] == s[0],
    decreases s.len(),
{
    if s.len() > 1 {
        lemma_dedup_first(s.drop_last());
        assert(s.drop_last()[0] == s[0]);
    }
}

/// The scan of `u`, then a character that ends addresses, then anything,
/// finds `u` first.
proof fn lemma_urls_of_head_then_end(u: Seq<char>, c: char, rest: Seq<char>)
    requires
        url_shaped(u),
        is_url_terminator(c),
    ensures
        urls_from(u + seq![c] + rest, 0).len() > 0,
        urls_from(u + seq![c] + rest, 0)[0] == u,
{
    let s = u + seq![c] + rest;
    let pat = if https_prefix().is_prefix_of(u) { https_prefix() } else { http_prefix() };
    assert(pat.len() <= u.len());
    assert(forall|j: int| 0 <= j < u.len() ==> s[j] == u[j]);
    assert(s.subrange(0, pat.len() as int) =~= u.subrange(0, pat.len() as int));
    lemma_find_at(s, pat, 0);
    lemma_find_from_bounds(s, https_prefix(), 0);
    lemma_find_from_bounds(s, http_prefix(), 0);
    assert(url_start(s, 0) == Some(0int));
    assert(s[u.len() as int] == c);
    lemma_url_end_over(s, 0, u.len() as int);
    assert(s.subrange(0, u.len() as int) =~= u);
    assert(trim_trailing_dots(u) == u);
    assert(urls_from(s, 0) == seq![u] + urls_from(s, u.len() as int));
}

/// An address runs from its `https://` or `http://` up to the first white
/// space (a Unicode `White_Space` character), `"`, `'`, `)`, `]`, `>` or `,`,
/// and no other character ends it: a text that is `https://` or `http://`
/// followed by characters none of those, not ending in a full stop, is
/// found whole; and followed by any one of those characters and anything
/// else, it is still the first address found.
pub proof fn lemma_address_extent(pre: Seq<char>, t: Seq<char>, c: char, rest: Seq<char>)
    requires
        pre == https_prefix() || pre == http_prefix(),
        forall|j: int|
            0 <= j < t.len() ==> !is_white_space(#[trigger] t[j]) && t[j] != '"' && t[j] != '\'' && t[j]
                != ')' && t[j] != ']' && t[j] != '>' && t[j] != ',',
        t.len() == 0 || t.last() != '.',
    ensures
        extracted_urls(pre + t) == seq![pre + t],
        (is_white_space(c) || c == '"' || c == '\'' || c == ')' || c == ']' || c == '>' || c == ',') ==> {
            &&& extracted_urls(pre + t + seq![c] + rest).len() > 0
            &&& extracted_urls(pre + t + seq![c] + rest)[0] == pre + t
        },
{
    let u = pre + t;
    assert(pre.is_prefix_of(u)) by {
        assert(u.subrange(0, pre.len() as int) =~= pre);
    }
    assert forall|j: int| 0 <= j < u.len() implies !is_url_terminator(#[trigger] u[j]) by {
        if j >= pre.len() {
            assert(u[j] == t[j - pre.len()]);
        } else {
            assert(u[j] == pre[j]);
        }
    }
    if t.len() == 0 {
        assert(u =~= pre);
    } else {
        assert(u.last() == t.last());
    }
    assert(url_shaped(u));
    lemma_urls_of_shaped_head(u, Seq::empty(), false);
    assert(dedup_adjacent(seq![u]) == seq![u]);
    if is_white_space(c) || c == '"' || c == '\'' || c == ')' || c == ']' || c == '>' || c == ',' {
        lemma_urls_of_head_then_end(u, c, rest);
        lemma_dedup_first(urls_from(u + seq![c] + rest, 0));
    }
}

} // verus!
