use vstd::prelude::*;
use crate::keyed::StringTable;
use crate::llm::errors::{LLMError, LLMErrorView};
use crate::llm::manager::ConversationConfig;
use crate::runtime::value::JsonDatum;
use crate::text::{byte_count, chars_of, string_from_chars, text_len, to_uppercase, uppercase};

verus! {

/// One message of a conversation: who said it, what, and when (seconds since
/// the epoch, by the caller's clock).
#[derive(Debug, Clone)]
pub struct ConversationEntry {
    pub role: String,
    pub content: String,
    pub timestamp: u64,
    pub metadata: StringTable<JsonDatum>,
}

/// The last `n` items of `s` (all of them when there are fewer).
pub open spec fn last_n<A>(s: Seq<A>, n: nat) -> Seq<A> {
    if s.len() <= n { s } else { s.skip(s.len() - n) }
}

/// The line a message takes in a prompt: its role in capitals, a colon, and its text.
pub open spec fn context_line(e: ConversationEntry) -> Seq<char> {
    uppercase(e.role@) + ": "@ + e.content@
}

/// The lines of the messages joined by line breaks.
pub open spec fn context_text(es: Seq<ConversationEntry>) -> Seq<char>
    decreases es.len(),
{
    if es.len() == 0 {
        Seq::empty()
    } else if es.len() == 1 {
        context_line(es[0])
    } else {
        context_text(es.drop_last()) + seq!['\n'] + context_line(es.last())
    }
}

/// The messages of a conversation, the latest last, at most as many as the
/// configuration keeps.
#[derive(Debug)]
pub struct ConversationHistory {
    config: ConversationConfig,
    entries: Vec<ConversationEntry>,
}

impl ConversationHistory {
    /// The messages, oldest first.
    pub closed spec fn messages(&self) -> Seq<ConversationEntry> {
        self.entries@
    }

    /// The configuration.
    pub closed spec fn settings(&self) -> ConversationConfig {
        self.config
    }

    /// An empty conversation.
    pub fn new(config: ConversationConfig) -> (h: Self)
        ensures
            h.settings() == config,
            h.messages() == Seq::<ConversationEntry>::empty(),
    {
        ConversationHistory { config, entries: Vec::new() }
    }

    /// Adds a message said at `timestamp`, then drops the oldest messages while
    /// there are more than the configured maximum.
    pub fn add_message(&mut self, role: &str, content: &str, timestamp: u64)
        ensures
            final(self).settings() == old(self).settings(),
            final(self).messages().len() <= old(self).settings().max_history_length,
            exists|e: ConversationEntry| {
                &&& e.role@ == role@
                &&& e.content@ == content@
                &&& e.timestamp == timestamp
                &&& e.metadata.wf()
                &&& e.metadata.map() == Map::<Seq<char>, JsonDatum>::empty()
                &&& final(self).messages() == last_n(old(self).messages().push(e),
                    old(self).settings().max_history_length as nat)
            },
    {
        let entry = ConversationEntry {
            role: String::from_str(role),
            content: String::from_str(content),
            timestamp,
            metadata: StringTable::new(),
        };
        let ghost e = entry;
        let ghost added = self.entries@.push(entry);
        self.entries.push(entry);
        let max = self.config.max_history_length;
        let ghost mut dropped: int = 0;
        while self.entries.len() > max
            invariant
                max == self.config.max_history_length,
                self.config == old(self).config,
                0 <= dropped <= added.len(),
                dropped > 0 ==> added.len() - dropped >= max,
                self.entries@ == added.skip(dropped),
            decreases self.entries.len(),
        {
            self.entries.remove(0);
            proof {
                assert(self.entries@ =~= added.skip(dropped + 1));
                dropped = dropped + 1;
            }
        }
        proof {
            if added.len() <= max {
                assert(dropped == 0);
                assert(added.skip(0) =~= added);
            } else {
                assert(dropped == added.len() - max);
            }
            assert(self.entries@ == last_n(old(self).entries@.push(e), max as nat));
            assert(e.role@ == role@ && e.content@ == content@ && e.timestamp == timestamp);
            assert(e.metadata.wf() && e.metadata.map() == Map::<Seq<char>, JsonDatum>::empty());
        }
    }

    /// The messages, oldest first.
    pub fn get_history(&self) -> (r: &Vec<ConversationEntry>)
        ensures
            r@ == self.messages(),
    {
        &self.entries
    }

    /// Forgets every message.
    pub fn clear_history(&mut self)
        ensures
            final(self).settings() == old(self).settings(),
            final(self).messages() == Seq::<ConversationEntry>::empty(),
    {
        self.entries.clear();
    }

    /// The prompt text of the last `max_entries` messages (all of them when
    /// not given), one line each, as [`context_text`] states.
    pub fn build_context(&self, max_entries: Option<usize>) -> (r: String)
        ensures
            r@ == context_text(last_n(self.messages(), match max_entries {
                Some(n) => n as nat,
                None => self.messages().len(),
            })),
    {
        let n = self.entries.len();
        let limit = match max_entries {
            Some(m) => m,
            None => n,
        };
        let start = if n <= limit { 0 } else { n - limit };
        let ghost chosen = last_n(self.entries@, limit as nat);
        proof {
            if n <= limit {
                assert(chosen == self.entries@);
                assert(self.entries@.skip(0) =~= self.entries@);
            }
        }
        let mut out: Vec<char> = Vec::new();
        let mut i: usize = start;
        while i < n
            invariant
                start <= i <= n,
                n == self.entries@.len(),
                chosen == self.entries@.skip(start as int),
                out@ == context_text(self.entries@.subrange(start as int, i as int)),
            decreases n - i,
        {
            if i > start {
                out.push('\n');
            }
            let role = to_uppercase(self.entries[i].role.as_str());
            let rc = chars_of(role.as_str());
            let mut j: usize = 0;
            let ghost base = out@;
            while j < rc.len()
                invariant
                    j <= rc@.len(),
                    out@ == base + rc@.take(j as int),
                decreases rc.len() - j,
            {
                out.push(rc[j]);
                proof { assert(rc@.take(j + 1) =~= rc@.take(j as int).push(rc@[j as int])); }
                j = j + 1;
            }
            out.push(':');
            out.push(' ');
            let cc = chars_of(self.entries[i].content.as_str());
            let ghost base2 = out@;
            let mut k: usize = 0;
            while k < cc.len()
                invariant
                    k <= cc@.len(),
                    out@ == base2 + cc@.take(k as int),
                decreases cc.len() - k,
            {
                out.push(cc[k]);
                proof { assert(cc@.take(k + 1) =~= cc@.take(k as int).push(cc@[k as int])); }
                k = k + 1;
            }
            proof {
                reveal_strlit(": ");
                let sub = self.entries@.subrange(start as int, i + 1);
                assert(sub.drop_last() =~= self.entries@.subrange(start as int, i as int));
                assert(sub.last() == self.entries@[i as int]);
                assert(rc@.take(rc@.len() as int) =~= rc@);
                assert(cc@.take(cc@.len() as int) =~= cc@);
                if i == start {
                    assert(sub.len() == 1);
                    assert(out@ =~= context_line(self.entries@[i as int]));
                } else {
                    assert(out@ =~= context_text(sub.drop_last()) + seq!['\n'] + context_line(sub.last()));
                }
            }
            i = i + 1;
        }
        proof {
            assert(self.entries@.subrange(start as int, n as int) =~= chosen);
        }
        string_from_chars(out.as_slice())
    }
}

/// The texts of the successful replies, in order.
pub open spec fn successes(results: Seq<Result<String, String>>) -> Seq<Seq<char>>
    decreases results.len(),
{
    if results.len() == 0 {
        Seq::empty()
    } else {
        let rest = successes(results.drop_last());
        match results.last() {
            Ok(s) => rest.push(s@),
            Err(_) => rest,
        }
    }
}

/// Position `i` holds the last of the longest texts (by UTF-8 bytes).
pub open spec fn last_longest(texts: Seq<Seq<char>>, i: int) -> bool {
    &&& 0 <= i < texts.len()
    &&& forall|j: int| 0 <= j < texts.len() ==> byte_count(#[trigger] texts[j]) <= byte_count(texts[i])
    &&& forall|j: int| i < j < texts.len() ==> byte_count(#[trigger] texts[j]) < byte_count(texts[i])
}

/// Of several candidate replies (each a reply or the message of its failure),
/// the longest successful one, the last of equals; an error when none succeeded.
pub fn best_response(results: Vec<Result<String, String>>) -> (r: Result<String, LLMError>)
    ensures
        successes(results@).len() == 0 ==> (r matches Err(e)
            && e@ == LLMErrorView::ApiError("No successful responses were generated"@)),
        successes(results@).len() > 0 ==> (r matches Ok(best)
            && exists|i: int| last_longest(successes(results@), i) && best@ == successes(results@)[i]),
{
    let ghost all = results@;
    let mut best: Option<String> = None;
    let mut best_len: usize = 0;
    let ghost mut best_at: int = 0;
    let mut i: usize = 0;
    proof { assert(all.take(0) =~= Seq::<Result<String, String>>::empty()); }
    while i < results.len()
        invariant
            i <= all.len(),
            all == results@,
            best is None <==> successes(all.take(i as int)).len() == 0,
            best matches Some(b) ==> last_longest(successes(all.take(i as int)), best_at)
                && b@ == successes(all.take(i as int))[best_at]
                && best_len == byte_count(b@),
        decreases results.len() - i,
    {
        proof {
            assert(all.take(i + 1).drop_last() =~= all.take(i as int));
            assert(all.take(i + 1).last() == all[i as int]);
        }
        let ghost prev = successes(all.take(i as int));
        match &results[i] {
            Ok(t) => {
                let text = t.clone();
                let len = text_len(text.as_str());
                proof { assert(successes(all.take(i + 1)) == prev.push(text@)); }
                if best.is_none() || len >= best_len {
                    proof {
                        best_at = prev.len() as int;
                        let s = prev.push(text@);
                        assert forall|j: int| 0 <= j < s.len() implies byte_count(#[trigger] s[j]) <= byte_count(s[best_at]) by {
                            if j < prev.len() {
                                assert(s[j] == prev[j]);
                            }
                        }
                    }
                    best = Some(text);
                    best_len = len;
                } else {
                    proof {
                        let s = prev.push(text@);
                        assert forall|j: int| 0 <= j < s.len() implies byte_count(#[trigger] s[j]) <= byte_count(s[best_at]) by {
                            if j < prev.len() {
                                assert(s[j] == prev[j]);
                            }
                        }
                        assert forall|j: int| best_at < j < s.len() implies byte_count(#[trigger] s[j]) < byte_count(s[best_at]) by {
                            if j < prev.len() {
                                assert(s[j] == prev[j]);
                            }
                        }
                        assert(s[best_at] == prev[best_at]);
                    }
                }
            },
            Err(_) => {
                proof { assert(successes(all.take(i + 1)) == prev); }
            },
        }
        i = i + 1;
    }
    proof { assert(all.take(all.len() as int) =~= all); }
    match best {
        Some(b) => Ok(b),
        None => Err(LLMError::ApiError(String::from_str("No successful responses were generated"))),
    }
}

} // verus!
