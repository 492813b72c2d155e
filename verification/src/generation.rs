//! The decisions of the token generation loop: how many tokens may still be
//! sampled, when generation stops, and what the reply text is.
//!
//! The caller samples a token, tells `Generation::accept` whether it ends
//! generation and what text it stands for, and feeds the token back to the
//! model when `accept` says so.
use vstd::prelude::*;
use crate::text::push_text;

verus! {

/// The progress of one reply: at most `limit` tokens are produced, and the
/// first end-of-generation token stops the reply without becoming part of it.
pub struct Generation {
    limit: u32,
    count: u32,
    stopped: bool,
    reply: String,
}

/// The state of a reply in the making: tokens produced, whether an end
/// token was seen, and the text so far.
pub type GenerationState = (nat, bool, Seq<char>);

/// The effect of one sampled token on the state of a reply.
pub open spec fn generation_step(s: GenerationState, is_end: bool, piece: Seq<char>) -> GenerationState {
    if is_end {
        (s.0, true, s.2)
    } else {
        (s.0 + 1, false, s.2 + piece)
    }
}

/// Whether a reply in state `s` with room for `limit` tokens takes another.
pub open spec fn generation_open(limit: nat, s: GenerationState) -> bool {
    !s.1 && s.0 < limit
}

/// The state after offering `tokens` one by one, from the fresh state,
/// to a reply with room for `limit` tokens; tokens offered once the reply
/// takes no more are not looked at.
pub open spec fn generation_run(limit: nat, tokens: Seq<(bool, Seq<char>)>) -> GenerationState
    decreases tokens.len(),
{
    if tokens.len() == 0 {
        (0, false, Seq::empty())
    } else {
        let prev = generation_run(limit, tokens.drop_last());
        if generation_open(limit, prev) {
            generation_step(prev, tokens.last().0, tokens.last().1)
        } else {
            prev
        }
    }
}

/// How many of `tokens` make up the reply: those before the first end
/// token, and at most `limit` of them.
pub open spec fn reply_length(limit: nat, tokens: Seq<(bool, Seq<char>)>) -> nat
    decreases tokens.len(),
{
    if tokens.len() == 0 || limit == 0 || tokens[0].0 {
        0
    } else {
        1 + reply_length((limit - 1) as nat, tokens.drop_first())
    }
}

/// The text of a token sequence: its pieces one after the other.
pub open spec fn pieces_text(tokens: Seq<(bool, Seq<char>)>) -> Seq<char>
    decreases tokens.len(),
{
    if tokens.len() == 0 {
        Seq::empty()
    } else {
        pieces_text(tokens.drop_last()) + tokens.last().1
    }
}

impl Generation {
    /// The most tokens the reply may take.
    pub closed spec fn limit(&self) -> nat {
        self.limit as nat
    }

    /// The state of the reply: tokens produced, end seen, text so far.
    pub closed spec fn state(&self) -> GenerationState {
        (self.count as nat, self.stopped, self.reply@)
    }

    /// A fresh reply with room for `max_tokens` tokens.
    pub fn new(max_tokens: u32) -> (g: Generation)
        ensures
            g.limit() == max_tokens,
            g.state() == (0nat, false, Seq::<char>::empty()),
    {
        Generation { limit: max_tokens, count: 0, stopped: false, reply: String::new() }
    }

    /// Whether another token is to be sampled: no end token was seen and
    /// fewer than the limit were produced.
    pub fn wants_more(&self) -> (b: bool)
        ensures
            b == generation_open(self.limit(), self.state()),
    {
        !self.stopped && self.count < self.limit
    }

    /// Takes a sampled token: an end token stops the reply and is dropped;
    /// any other adds `piece` to the reply.  Returns whether the token is
    /// to be fed back to the model (and its text shown).
    pub fn accept(&mut self, is_end: bool, piece: &str) -> (fed: bool)
        requires
            generation_open(old(self).limit(), old(self).state()),
        ensures
            fed == !is_end,
            final(self).limit() == old(self).limit(),
            final(self).state() == generation_step(old(self).state(), is_end, piece@),
    {
        if is_end {
            self.stopped = true;
            false
        } else {
            self.count = self.count + 1;
            push_text(&mut self.reply, piece);
            true
        }
    }

    /// The reply text.
    pub fn into_reply(self) -> (s: String)
        ensures
            s@ == self.state().2,
    {
        self.reply
    }
}

proof fn lemma_reply_length_bound(limit: nat, tokens: Seq<(bool, Seq<char>)>)
    ensures
        reply_length(limit, tokens) <= limit,
        reply_length(limit, tokens) <= tokens.len(),
    decreases tokens.len(),
{
    if tokens.len() > 0 && limit > 0 && !tokens[0].0 {
        lemma_reply_length_bound((limit - 1) as nat, tokens.drop_first());
    }
}

/// `reply_length` grows by one when a token is appended to a sequence
/// whose tokens all count, while the limit allows and the token is no end.
proof fn lemma_reply_length_push(limit: nat, tokens: Seq<(bool, Seq<char>)>, t: (bool, Seq<char>))
    requires
        reply_length(limit, tokens) == tokens.len(),
    ensures
        reply_length(limit, tokens.push(t)) == if tokens.len() < limit && !t.0 {
            tokens.len() + 1
        } else {
            tokens.len() as nat
        },
    decreases tokens.len(),
{
    if tokens.len() == 0 {
        let one = tokens.push(t);
        assert(one.drop_first() =~= Seq::<(bool, Seq<char>)>::empty());
        assert(one[0] == t);
        if limit > 0 {
            assert(reply_length((limit - 1) as nat, one.drop_first()) == 0);
        }
    } else {
        let rest = tokens.drop_first();
        assert(tokens.push(t).drop_first() =~= rest.push(t));
        assert(tokens.push(t)[0] == tokens[0]);
        lemma_reply_length_push((limit - 1) as nat, rest, t);
    }
}

/// `reply_length` only looks as far as the tokens that count.
proof fn lemma_reply_length_stable(limit: nat, tokens: Seq<(bool, Seq<char>)>, t: (bool, Seq<char>))
    requires
        reply_length(limit, tokens) < tokens.len() || reply_length(limit, tokens) == limit,
    ensures
        reply_length(limit, tokens.push(t)) == reply_length(limit, tokens),
    decreases tokens.len(),
{
    if tokens.len() > 0 && limit > 0 && !tokens[0].0 {
        let rest = tokens.drop_first();
        assert(tokens.push(t).drop_first() =~= rest.push(t));
        lemma_reply_length_stable((limit - 1) as nat, rest, t);
    } else if tokens.len() > 0 {
        assert(tokens.push(t)[0] == tokens[0]);
    }
}

/// The reply of a generation loop is the text of the tokens before the
/// first end token, at most `limit` of them: after any sequence of sampled
/// tokens, the text is that of the first `reply_length` tokens, that many
/// tokens were produced, and the loop has stopped exactly when an end token
/// was among them or the limit is reached.
pub proof fn lemma_generation_reply(limit: nat, tokens: Seq<(bool, Seq<char>)>)
    ensures
        ({
            let s = generation_run(limit, tokens);
            let n = reply_length(limit, tokens);
            &&& s.0 == n
            &&& s.2 == pieces_text(tokens.take(n as int))
            &&& s.1 == (n < tokens.len() && n < limit)
        }),
    decreases tokens.len(),
{
    lemma_reply_length_bound(limit, tokens);
    if tokens.len() > 0 {
        let prev = tokens.drop_last();
        let t = tokens.last();
        lemma_generation_reply(limit, prev);
        lemma_reply_length_bound(limit, prev);
        assert(prev.push(t) =~= tokens);
        let n = reply_length(limit, prev);
        if n == prev.len() {
            lemma_reply_length_push(limit, prev, t);
            if n < limit && !t.0 {
                assert(tokens.take(n as int + 1).drop_last() =~= prev.take(n as int));
                assert(tokens.take(n as int + 1).last() == t);
            } else {
                assert(tokens.take(n as int) =~= prev.take(n as int));
            }
        } else {
            lemma_reply_length_stable(limit, prev, t);
            assert(tokens.take(n as int) =~= prev.take(n as int));
        }
    } else {
        assert(tokens.take(0) =~= Seq::<(bool, Seq<char>)>::empty());
    }
}

} // verus!
