use vstd::prelude::*;
use crate::keyed::StringTable;
use crate::llm::prompts::PromptContext;
use crate::text::{decimal_nat, push_decimal_u64, string_from_chars};

verus! {

/// `c` binds `key` to the text `text`.
pub open spec fn binds(c: Map<Seq<char>, String>, key: Seq<char>, text: Seq<char>) -> bool {
    c.contains_key(key) && c[key]@ == text
}

/// A context binding an agent's name, role and specialisation.
pub fn agent_context(agent_name: &str, agent_role: &str, agent_specialisation: &str) -> (c: PromptContext)
    ensures
        c.wf(),
        c.map().dom() == set!["agent_name"@, "agent_role"@, "agent_specialisation"@],
        binds(c.map(), "agent_name"@, agent_name@),
        binds(c.map(), "agent_role"@, agent_role@),
        binds(c.map(), "agent_specialisation"@, agent_specialisation@),
{
    proof {
        reveal_strlit("agent_name");
        reveal_strlit("agent_role");
        reveal_strlit("agent_specialisation");
        assert("agent_name"@[6] == 'n');
        assert("agent_role"@[6] == 'r');
    }
    let mut c: PromptContext = StringTable::new();
    c.insert(String::from_str("agent_name"), String::from_str(agent_name));
    c.insert(String::from_str("agent_role"), String::from_str(agent_role));
    c.insert(String::from_str("agent_specialisation"), String::from_str(agent_specialisation));
    assert(c.map().dom() =~= set!["agent_name"@, "agent_role"@, "agent_specialisation"@]);
    c
}

/// A context binding a task's description and the iteration number (in decimal).
pub fn task_context(task_description: &str, iteration: u32) -> (c: PromptContext)
    ensures
        c.wf(),
        c.map().dom() == set!["task_description"@, "iteration"@],
        binds(c.map(), "task_description"@, task_description@),
        binds(c.map(), "iteration"@, decimal_nat(iteration as nat)),
{
    proof {
        reveal_strlit("task_description");
        reveal_strlit("iteration");
        assert("task_description"@[0] == 't');
        assert("iteration"@[0] == 'i');
    }
    let mut digits: Vec<char> = Vec::new();
    push_decimal_u64(iteration as u64, &mut digits);
    let mut c: PromptContext = StringTable::new();
    c.insert(String::from_str("task_description"), String::from_str(task_description));
    c.insert(String::from_str("iteration"), string_from_chars(digits.as_slice()));
    assert(c.map().dom() =~= set!["task_description"@, "iteration"@]);
    c
}

/// A context binding a proposal's text and, when given, the feedback's text.
pub fn proposal_context(proposal: &str, feedback: Option<&str>) -> (c: PromptContext)
    ensures
        c.wf(),
        feedback is None ==> c.map().dom() == set!["proposal"@],
        feedback is Some ==> c.map().dom() == set!["proposal"@, "feedback"@],
        binds(c.map(), "proposal"@, proposal@),
        feedback matches Some(f) ==> binds(c.map(), "feedback"@, f@),
{
    proof {
        reveal_strlit("proposal");
        reveal_strlit("feedback");
        assert("proposal"@[0] == 'p');
        assert("feedback"@[0] == 'f');
    }
    let mut c: PromptContext = StringTable::new();
    c.insert(String::from_str("proposal"), String::from_str(proposal));
    match feedback {
        Some(f) => {
            c.insert(String::from_str("feedback"), String::from_str(f));
            assert(c.map().dom() =~= set!["proposal"@, "feedback"@]);
        },
        None => {
            assert(c.map().dom() =~= set!["proposal"@]);
        },
    }
    c
}

/// The bindings of several contexts together, a later context's binding
/// replacing an earlier one of the same variable.
pub open spec fn merged(cs: Seq<PromptContext>) -> Map<Seq<char>, String>
    decreases cs.len(),
{
    if cs.len() == 0 {
        Map::empty()
    } else {
        merged(cs.drop_last()).union_prefer_right(cs.last().map())
    }
}

/// The contexts merged in order, as [`merged`] states.
pub fn merge_contexts(contexts: &Vec<PromptContext>) -> (c: PromptContext)
    requires
        forall|i: int| 0 <= i < contexts@.len() ==> #[trigger] contexts@[i].wf(),
    ensures
        c.wf(),
        c.map() == merged(contexts@),
{
    let mut c: PromptContext = StringTable::new();
    let mut i: usize = 0;
    while i < contexts.len()
        invariant
            i <= contexts@.len(),
            c.wf(),
            c.map() == merged(contexts@.take(i as int)),
            forall|k: int| 0 <= k < contexts@.len() ==> #[trigger] contexts@[k].wf(),
        decreases contexts.len() - i,
    {
        let ctx = &contexts[i];
        let ghost base = c.map();
        let n = ctx.len();
        let mut j: usize = 0;
        while j < n
            invariant
                j <= n,
                n == ctx.entries().len(),
                ctx.wf(),
                c.wf(),
                c.map() == base.union_prefer_right(crate::keyed::map_of(ctx.entries().take(j as int))),
            decreases n - j,
        {
            proof {
                let es = ctx.entries();
                assert(es.take(j + 1) =~= es.take(j as int).push(es[j as int]));
                assert(crate::keyed::distinct_keys(es.take(j as int))) by {
                    assert forall|a: int, b: int| 0 <= a < j && 0 <= b < j && a != b implies
                        es.take(j as int)[a].0 != es.take(j as int)[b].0 by {
                        assert(es.take(j as int)[a] == es[a]);
                        assert(es.take(j as int)[b] == es[b]);
                    }
                }
                if crate::keyed::map_of(es.take(j as int)).contains_key(es[j as int].0) {
                    let m = choose|m: int| 0 <= m < es.take(j as int).len() && #[trigger] es.take(j as int)[m].0 == es[j as int].0;
                    assert(es.take(j as int)[m] == es[m]);
                }
                crate::keyed::lemma_map_of_push(es.take(j as int), es[j as int].0, es[j as int].1);
            }
            c.insert(ctx.key_at(j).clone(), ctx.value_at(j).clone());
            proof {
                let es = ctx.entries();
                assert(c.map() =~= base.union_prefer_right(crate::keyed::map_of(es.take(j + 1))));
            }
            j = j + 1;
        }
        proof {
            assert(ctx.entries().take(n as int) =~= ctx.entries());
            assert(contexts@.take(i + 1).drop_last() =~= contexts@.take(i as int));
            assert(contexts@.take(i + 1).last() == contexts@[i as int]);
        }
        i = i + 1;
    }
    assert(contexts@.take(contexts@.len() as int) =~= contexts@);
    c
}

} // verus!
