//! Turning a fetched web page into the plain text handed to the model.
use vstd::prelude::*;
use crate::text::{chars_of, char_utf8_width, is_whitespace, is_white_space, string_from_chars, utf8_len, utf8_width};
use crate::urls::dedup_adjacent;

verus! {

// ---------------------------------------------------------------------------
// The HTML parser
// ---------------------------------------------------------------------------

/// The text pieces of each element of the HTML document `document` that the
/// CSS selector group `selectors` matches, elements in the order the parser
/// created them and each element's descendant text nodes in order; `None`
/// when `selectors` is not a valid selector group.
pub uninterp spec fn html_selected_texts(document: Seq<char>, selectors: Seq<char>) -> Option<
    Seq<Seq<Seq<char>>>,
>;

/// The view of the text pieces of each selected element.
pub open spec fn pieces_view(v: Seq<Vec<String>>) -> Seq<Seq<Seq<char>>> {
    v.map_values(|e: Vec<String>| e@.map_values(|t: String| t@))
}

/// Calls `scraper::Selector::parse` on `selectors` and
/// `scraper::Html::parse_document` on `document`, then walks
/// `Html::select` and each element's `ElementRef::text`.  Claimed: the
/// outcome is a fixed function of the two texts, named
/// `html_selected_texts`, with `None` exactly when the selector fails to
/// parse.  How HTML is parsed and selectors are matched is not stated.
#[verifier::external_body]
fn select_element_texts(document: &str, selectors: &str) -> (res: Option<Vec<Vec<String>>>)
    ensures
        match res {
            Some(v) => html_selected_texts(document@, selectors@) == Some(pieces_view(v@)),
            None => html_selected_texts(document@, selectors@) is None,
        },
{
    let sel = match scraper::Selector::parse(selectors) {
        Ok(sel) => sel,
        Err(_) => return None,
    };
    let doc = scraper::Html::parse_document(document);
    let mut out = Vec::new();
    for el in doc.select(&sel) {
        let mut pieces = Vec::new();
        for t in el.text() {
            pieces.push(t.to_string());
        }
        out.push(pieces);
    }
    Some(out)
}

// ---------------------------------------------------------------------------
// Specifications
// ---------------------------------------------------------------------------

/// The elements whose text is collected: paragraphs, headings, list items,
/// table cells, quotations and articles.
pub open spec fn content_selector() -> Seq<char> {
    "p, h1, h2, h3, h4, h5, h6, li, td, th, blockquote, article"@
}

/// The texts of `list` with `sep` between neighbours.
pub open spec fn join_with(list: Seq<Seq<char>>, sep: Seq<char>) -> Seq<char>
    decreases list.len(),
{
    if list.len() == 0 {
        seq![]
    } else if list.len() == 1 {
        list[0]
    } else {
        join_with(list.drop_last(), sep) + sep + list.last()
    }
}

/// The index of the first white space at or after `from`, or the length of
/// `s` when there is none.
pub open spec fn next_white_space(s: Seq<char>, from: int) -> int
    decreases s.len() - from,
{
    if from < 0 || from >= s.len() {
        s.len() as int
    } else if is_white_space(s[from]) {
        from
    } else {
        next_white_space(s, from + 1)
    }
}

/// The next white space lies between `from` and the end of `s`, with none
/// before it.
pub proof fn lemma_next_white_space_bounds(s: Seq<char>, from: int)
    requires
        0 <= from <= s.len(),
    ensures
        from <= next_white_space(s, from) <= s.len(),
        forall|k: int| from <= k < next_white_space(s, from) ==> !is_white_space(#[trigger] s[k]),
    decreases s.len() - from,
{
    if from < s.len() && !is_white_space(s[from]) {
        lemma_next_white_space_bounds(s, from + 1);
    }
}

/// The words of `s` from index `from` on: its maximal runs of characters
/// other than white space.
pub open spec fn words_from(s: Seq<char>, from: int) -> Seq<Seq<char>>
    decreases s.len() - from,
{
    if from < 0 || from >= s.len() {
        seq![]
    } else if is_white_space(s[from]) {
        words_from(s, from + 1)
    } else {
        proof {
            lemma_next_white_space_bounds(s, from + 1);
        }
        let k = next_white_space(s, from);
        seq![s.subrange(from, k)] + words_from(s, k)
    }
}

/// `s` with its words separated by single spaces.
pub open spec fn collapse_spaces(s: Seq<char>) -> Seq<char> {
    join_with(words_from(s, 0), seq![' '])
}

/// The text of one element: its pieces joined by spaces, white space then
/// collapsed.
pub open spec fn element_text(pieces: Seq<Seq<char>>) -> Seq<char> {
    collapse_spaces(join_with(pieces, seq![' ']))
}

/// An element's text is kept when it is longer than three bytes.
pub open spec fn long_enough(t: Seq<char>) -> bool {
    utf8_len(t) > 3
}

/// The lines of a page: the texts of its elements that are long enough,
/// repeats in a row dropped.
pub open spec fn page_lines(blocks: Seq<Seq<Seq<char>>>) -> Seq<Seq<char>> {
    dedup_adjacent(blocks.map_values(|b: Seq<Seq<char>>| element_text(b)).filter(|t: Seq<char>| long_enough(t)))
}

/// The text of a page: its lines, one per line.
pub open spec fn page_text_spec(blocks: Seq<Seq<Seq<char>>>) -> Seq<char> {
    join_with(page_lines(blocks), seq!['\n'])
}

/// The most bytes of page text handed on.
pub open spec fn page_limit() -> nat {
    8000
}

/// `s.take(k)` is the longest prefix of `s` that fits in `n` bytes.
pub open spec fn longest_fit(s: Seq<char>, n: nat, k: int) -> bool {
    &&& 0 <= k <= s.len()
    &&& utf8_len(s.take(k)) <= n
    &&& (k == s.len() || utf8_len(s.take(k + 1)) > n)
}

/// The marker put after a cut page.
pub open spec fn truncation_marker() -> Seq<char> {
    "…[truncated]"@
}

/// A page text as handed on: when it is longer than 8000 bytes, its longest
/// prefix that fits in 8000 bytes (the cut falls between two characters),
/// followed by the marker.
pub open spec fn clipped_spec(t: Seq<char>) -> Seq<char> {
    if utf8_len(t) > page_limit() {
        t.take(choose|k: int| longest_fit(t, page_limit(), k)) + truncation_marker()
    } else {
        t
    }
}

// ---------------------------------------------------------------------------
// UTF-8 prefix lengths
// ---------------------------------------------------------------------------

proof fn lemma_utf8_take_step(s: Seq<char>, k: int)
    requires
        0 <= k < s.len(),
    ensures
        utf8_len(s.take(k + 1)) == utf8_len(s.take(k)) + utf8_width(s[k]),
{
    assert(s.take(k + 1).drop_last() =~= s.take(k));
}

proof fn lemma_utf8_take_monotone(s: Seq<char>, j: int, k: int)
    requires
        0 <= j <= k <= s.len(),
    ensures
        utf8_len(s.take(j)) + (k - j) <= utf8_len(s.take(k)),
    decreases k - j,
{
    if j < k {
        lemma_utf8_take_monotone(s, j, k - 1);
        lemma_utf8_take_step(s, k - 1);
    }
}

/// Whether `s` takes more than `limit` bytes in UTF-8.
fn utf8_len_exceeds(s: &[char], limit: usize) -> (res: bool)
    ensures
        res == (utf8_len(s@) > limit),
{
    let mut sum: usize = 0;
    let mut i: usize = 0;
    while i < s.len()
        invariant
            i <= s.len(),
            sum == utf8_len(s@.take(i as int)),
            sum <= limit,
        decreases s.len() - i,
    {
        proof {
            lemma_utf8_take_step(s@, i as int);
        }
        let w = char_utf8_width(s[i]);
        if w > limit - sum {
            proof {
                lemma_utf8_take_monotone(s@, i + 1, s.len() as int);
                assert(s@.take(s.len() as int) =~= s@);
            }
            return true;
        }
        sum = sum + w;
        i = i + 1;
    }
    assert(s@.take(s.len() as int) =~= s@);
    false
}

/// The number of characters of the longest prefix of `s` that fits in `n`
/// bytes.
fn fit_index(s: &[char], n: usize) -> (k: usize)
    ensures
        longest_fit(s@, n as nat, k as int),
{
    let mut sum: usize = 0;
    let mut i: usize = 0;
    assert(s@.take(0) =~= Seq::<char>::empty());
    while i < s.len()
        invariant
            i <= s.len(),
            sum == utf8_len(s@.take(i as int)),
            sum <= n,
        decreases s.len() - i,
    {
        proof {
            lemma_utf8_take_step(s@, i as int);
        }
        let w = char_utf8_width(s[i]);
        if w > n - sum {
            return i;
        }
        sum = sum + w;
        i = i + 1;
    }
    i
}

proof fn lemma_fit_from(s: Seq<char>, n: nat, k: int) -> (m: int)
    requires
        0 <= k <= s.len(),
        utf8_len(s.take(k)) <= n,
    ensures
        longest_fit(s, n, m),
    decreases s.len() - k,
{
    if k == s.len() || utf8_len(s.take(k + 1)) > n {
        k
    } else {
        lemma_fit_from(s, n, k + 1)
    }
}

/// Every text has a longest prefix that fits in `n` bytes, and only one.
pub proof fn lemma_longest_fit_unique(s: Seq<char>, n: nat, k: int)
    requires
        longest_fit(s, n, k),
    ensures
        (choose|m: int| longest_fit(s, n, m)) == k,
{
    let m = choose|m: int| longest_fit(s, n, m);
    assert(longest_fit(s, n, m));
    if m < k {
        lemma_utf8_take_monotone(s, m + 1, k);
    } else if m > k {
        lemma_utf8_take_monotone(s, k + 1, m);
    }
}

// ---------------------------------------------------------------------------
// Building the text
// ---------------------------------------------------------------------------

fn push_joined(out: &mut Vec<char>, sep: &[char], piece: &[char], first: bool)
    ensures
        final(out)@ == if first { old(out)@ + piece@ } else { old(out)@ + sep@ + piece@ },
{
    if !first {
        let mut i: usize = 0;
        let ghost start = out@;
        while i < sep.len()
            invariant
                i <= sep.len(),
                out@ == start + sep@.take(i as int),
            decreases sep.len() - i,
        {
            out.push(sep[i]);
            i = i + 1;
            assert(out@ =~= start + sep@.take(i as int));
        }
        assert(sep@.take(sep.len() as int) =~= sep@);
    }
    let ghost mid = out@;
    let mut j: usize = 0;
    while j < piece.len()
        invariant
            j <= piece.len(),
            out@ == mid + piece@.take(j as int),
        decreases piece.len() - j,
    {
        out.push(piece[j]);
        j = j + 1;
        assert(out@ =~= mid + piece@.take(j as int));
    }
    assert(piece@.take(piece.len() as int) =~= piece@);
}

proof fn lemma_join_push(list: Seq<Seq<char>>, sep: Seq<char>, x: Seq<char>)
    ensures
        join_with(list.push(x), sep) == if list.len() == 0 { x } else { join_with(list, sep) + sep + x },
{
    assert(list.push(x).drop_last() =~= list);
}

/// `s` with its words separated by single spaces.
pub fn collapse_white_space(s: &[char]) -> (res: Vec<char>)
    ensures
        res@ == collapse_spaces(s@),
{
    let sep: Vec<char> = vec![' '];
    let mut out: Vec<char> = Vec::new();
    let ghost mut done: Seq<Seq<char>> = seq![];
    let mut have_words = false;
    let mut i: usize = 0;
    assert(sep@ =~= seq![' ']);
    while i < s.len()
        invariant
            sep@ == seq![' '],
            have_words == (done.len() > 0),
            i <= s.len(),
            words_from(s@, 0) == done + words_from(s@, i as int),
            out@ == join_with(done, seq![' ']),
        decreases s.len() - i,
    {
        if is_whitespace(s[i]) {
            i = i + 1;
        } else {
            let mut k = i + 1;
            while k < s.len() && !is_whitespace(s[k])
                invariant
                    i < k <= s.len(),
                    next_white_space(s@, i as int) == next_white_space(s@, k as int),
                decreases s.len() - k,
            {
                k = k + 1;
            }
            proof {
                lemma_next_white_space_bounds(s@, i as int);
                assert(next_white_space(s@, i as int) == k);
            }
            let mut word: Vec<char> = Vec::new();
            let mut j = i;
            while j < k
                invariant
                    i <= j <= k,
                    k <= s.len(),
                    word@ == s@.subrange(i as int, j as int),
                decreases k - j,
            {
                word.push(s[j]);
                j = j + 1;
                assert(word@ =~= s@.subrange(i as int, j as int));
            }
            push_joined(&mut out, sep.as_slice(), word.as_slice(), !have_words);
            have_words = true;
            proof {
                lemma_join_push(done, seq![' '], word@);
                let old_done = done;
                done = done.push(word@);
                assert(done + words_from(s@, k as int) =~= old_done + (seq![word@] + words_from(
                    s@,
                    k as int,
                )));
            }
            i = k;
        }
    }
    assert(done + seq![] =~= done);
    out
}

/// The text of one element: its pieces joined by spaces, white space then
/// collapsed to single spaces between words.
pub fn element_text_of(pieces: &Vec<String>) -> (res: Vec<char>)
    ensures
        res@ == element_text(pieces@.map_values(|t: String| t@)),
{
    let ghost pv = pieces@.map_values(|t: String| t@);
    let sep: Vec<char> = vec![' '];
    let mut joined: Vec<char> = Vec::new();
    let mut i: usize = 0;
    while i < pieces.len()
        invariant
            pv == pieces@.map_values(|t: String| t@),
            sep@ == seq![' '],
            i <= pieces.len(),
            joined@ == join_with(pv.take(i as int), seq![' ']),
        decreases pieces.len() - i,
    {
        let piece = chars_of(pieces[i].as_str());
        push_joined(&mut joined, sep.as_slice(), piece.as_slice(), i == 0);
        proof {
            lemma_join_push(pv.take(i as int), seq![' '], pv[i as int]);
            assert(pv.take(i as int).push(pv[i as int]) =~= pv.take(i + 1));
        }
        i = i + 1;
    }
    assert(pv.take(pieces.len() as int) =~= pv);
    collapse_white_space(joined.as_slice())
}

/// The text of a page from the text pieces of its selected elements: each
/// element's text with white space collapsed, those of more than three bytes
/// kept, repeats in a row dropped, one per line.
pub fn page_text_from_blocks(blocks: &Vec<Vec<String>>) -> (res: String)
    ensures
        res@ == page_text_spec(pieces_view(blocks@)),
{
    let ghost pv = pieces_view(blocks@);
    let ghost mapped = pv.map_values(|b: Seq<Seq<char>>| element_text(b));
    let ghost p = |t: Seq<char>| long_enough(t);
    let sep: Vec<char> = vec!['\n'];
    let mut out: Vec<char> = Vec::new();
    let mut last: Vec<char> = Vec::new();
    let mut have_last = false;
    let ghost mut kept: Seq<Seq<char>> = seq![];
    let mut i: usize = 0;
    while i < blocks.len()
        invariant
            pv == pieces_view(blocks@),
            mapped == pv.map_values(|b: Seq<Seq<char>>| element_text(b)),
            p == (|t: Seq<char>| long_enough(t)),
            sep@ == seq!['\n'],
            i <= blocks.len(),
            kept == mapped.take(i as int).filter(p),
            have_last == (kept.len() > 0),
            kept.len() > 0 ==> last@ == kept.last(),
            out@ == join_with(dedup_adjacent(kept), seq!['\n']),
            have_last == (dedup_adjacent(kept).len() > 0),
        decreases blocks.len() - i,
    {
        let t = element_text_of(&blocks[i]);
        assert(t@ == mapped[i as int]);
        proof {
            reveal(Seq::filter);
            assert(mapped.take(i + 1).drop_last() =~= mapped.take(i as int));
        }
        if utf8_len_exceeds(t.as_slice(), 3) {
            let ghost old_kept = kept;
            let repeat = have_last && crate::text::chars_eq(last.as_slice(), t.as_slice());
            proof {
                kept = kept.push(t@);
                assert(kept.drop_last() =~= old_kept);
                if old_kept.len() > 0 {
                    assert(kept[kept.len() - 2] == old_kept.last());
                }
            }
            if !repeat {
                let ghost d = dedup_adjacent(old_kept);
                push_joined(&mut out, sep.as_slice(), t.as_slice(), !have_last);
                proof {
                    lemma_join_push(d, seq!['\n'], t@);
                }
            }
            last = t;
            have_last = true;
            proof {
                crate::urls::lemma_dedup_nonempty(kept);
            }
        }
        i = i + 1;
    }
    assert(mapped.take(blocks.len() as int) =~= mapped);
    string_from_chars(out.as_slice())
}

/// A page text cut to its longest prefix of at most 8000 bytes, followed by
/// `…[truncated]`, when it is longer than that; otherwise the text itself.
pub fn clip_page_text(text: &str) -> (res: String)
    ensures
        res@ == clipped_spec(text@),
{
    let v = chars_of(text);
    if utf8_len_exceeds(v.as_slice(), 8000) {
        let k = fit_index(v.as_slice(), 8000);
        proof {
            lemma_longest_fit_unique(text@, 8000, k as int);
        }
        let mut out: Vec<char> = Vec::new();
        let mut j: usize = 0;
        while j < k
            invariant
                j <= k,
                k <= v.len(),
                out@ == v@.take(j as int),
            decreases k - j,
        {
            out.push(v[j]);
            j = j + 1;
            assert(out@ =~= v@.take(j as int));
        }
        let mut res = string_from_chars(out.as_slice());
        crate::text::push_text(&mut res, "…[truncated]");
        res
    } else {
        string_from_chars(v.as_slice())
    }
}

/// The text handed to the model for the HTML page `body`; `None` only when
/// the content selector fails to parse.
pub open spec fn html_page_text_spec(body: Seq<char>) -> Option<Seq<char>> {
    match html_selected_texts(body, content_selector()) {
        None => None,
        Some(blocks) => Some(clipped_spec(page_text_spec(blocks))),
    }
}

/// The plain text of the HTML page `body`: the text of its paragraphs,
/// headings, list items, table cells, quotations and articles, one element
/// per line, cut to at most 8000 bytes.  `None` only when the selector fails
/// to parse.
pub fn html_page_text(body: &str) -> (res: Option<String>)
    ensures
        match res {
            Some(t) => html_page_text_spec(body@) == Some(t@),
            None => html_page_text_spec(body@) is None,
        },
{
    match select_element_texts(body, "p, h1, h2, h3, h4, h5, h6, li, td, th, blockquote, article") {
        None => None,
        Some(blocks) => {
            let text = page_text_from_blocks(&blocks);
            Some(clip_page_text(text.as_str()))
        },
    }
}

/// Every line of a page text holds more than three bytes and differs from
/// the line before it.
pub proof fn lemma_page_lines_shape(blocks: Seq<Seq<Seq<char>>>)
    ensures
        forall|i: int| 0 <= i < page_lines(blocks).len() ==> long_enough(#[trigger] page_lines(blocks)[i]),
        forall|i: int, j: int|
            0 <= i && j == i + 1 && j < page_lines(blocks).len() ==> #[trigger] page_lines(blocks)[i]
                != #[trigger] page_lines(blocks)[j],
{
    let p = |t: Seq<char>| long_enough(t);
    let f = blocks.map_values(|b: Seq<Seq<char>>| element_text(b)).filter(p);
    assert forall|i: int| 0 <= i < f.len() implies p(#[trigger] f[i]) by {
        blocks.map_values(|b: Seq<Seq<char>>| element_text(b)).lemma_filter_pred(p, i);
    }
    crate::urls::lemma_dedup_keeps(f, p);
    crate::urls::lemma_dedup_no_repeats(f);
}

/// The text handed on holds at most 8000 bytes of the page: a longer page
/// text is cut, between two characters, to its longest prefix of at most
/// 8000 bytes and followed by the marker; a shorter one is handed on whole.
pub proof fn lemma_clipped_page_bound(t: Seq<char>)
    ensures
        utf8_len(t) <= page_limit() ==> clipped_spec(t) == t,
        utf8_len(t) > page_limit() ==> exists|k: int|
            longest_fit(t, page_limit(), k) && clipped_spec(t) == #[trigger] t.take(k)
                + truncation_marker(),
{
    if utf8_len(t) > page_limit() {
        assert(t.take(0) =~= Seq::<char>::empty());
        let k = lemma_fit_from(t, page_limit(), 0);
        lemma_longest_fit_unique(t, page_limit(), k);
        assert(clipped_spec(t) == t.take(k) + truncation_marker());
    }
}

/// A page line is kept exactly when its text takes more than three bytes in
/// UTF-8: every line of a page text does, and a page of one element is that
/// element's collapsed text when it takes more than three bytes and empty
/// otherwise.  So two characters beyond U+07FF (three bytes each) make a
/// line, while three ASCII letters do not.
pub proof fn lemma_page_line_kept(blocks: Seq<Seq<Seq<char>>>, b: Seq<Seq<char>>)
    ensures
        forall|i: int| 0 <= i < page_lines(blocks).len() ==> utf8_len(#[trigger] page_lines(blocks)[i]) > 3,
        page_text_spec(seq![b]) == if utf8_len(element_text(b)) > 3 {
            element_text(b)
        } else {
            Seq::<char>::empty()
        },
{
    lemma_page_lines_shape(blocks);
    let t = element_text(b);
    let mapped = seq![b].map_values(|x: Seq<Seq<char>>| element_text(x));
    assert(mapped =~= seq![t]);
    let p = |u: Seq<char>| long_enough(u);
    reveal_with_fuel(Seq::filter, 2);
    assert(seq![t].drop_last() =~= Seq::<Seq<char>>::empty());
    let f = seq![t].filter(p);
    if long_enough(t) {
        assert(f =~= seq![t]);
    } else {
        assert(f =~= Seq::<Seq<char>>::empty());
    }
    assert(page_lines(seq![b]) == crate::urls::dedup_adjacent(f));
}

} // verus!
