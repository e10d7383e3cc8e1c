pub mod context_builders;

use vstd::prelude::*;
use crate::keyed::StringTable;
use crate::llm::errors::{LLMError, LLMErrorView};
use crate::orchestration::adapter_logic::{replace_all, replace_all_chars};
use crate::text::{chars_of, concat_str, debug_strings, string_from_chars, strings_debug};

verus! {

/// A named prompt: a system text and a user text with `{{name}}` placeholders,
/// the variables a context must bind, and metadata (each value as its JSON text).
#[derive(Debug, Clone)]
pub struct PromptTemplate {
    pub name: String,
    pub description: String,
    pub system_template: String,
    pub user_template: String,
    pub variables: Vec<String>,
    pub metadata: StringTable<String>,
}

/// The contents of a list of strings.
pub open spec fn texts(v: Seq<String>) -> Seq<Seq<char>> {
    v.map_values(|s: String| s@)
}

/// `t` is the template `name` with the given texts and variables, no
/// description and no metadata.
pub open spec fn describes(t: PromptTemplate, name: Seq<char>, system: Seq<char>, user: Seq<char>, variables: Seq<Seq<char>>) -> bool {
    &&& t.name@ == name
    &&& t.description@ == Seq::<char>::empty()
    &&& t.system_template@ == system
    &&& t.user_template@ == user
    &&& texts(t.variables@) == variables
    &&& t.metadata.wf()
    &&& t.metadata.map() == Map::<Seq<char>, String>::empty()
}

impl PromptTemplate {
    /// A template with the given name and texts, no description, variables or metadata.
    pub fn new(name: &str, system_template: &str, user_template: &str) -> (t: Self)
        ensures
            describes(t, name@, system_template@, user_template@, Seq::empty()),
    {
        let t = PromptTemplate {
            name: String::from_str(name),
            description: String::new(),
            system_template: String::from_str(system_template),
            user_template: String::from_str(user_template),
            variables: Vec::new(),
            metadata: StringTable::new(),
        };
        assert(texts(t.variables@) =~= Seq::<Seq<char>>::empty());
        t
    }

    /// The template with the given description.
    pub fn with_description(self, description: &str) -> (t: Self)
        ensures
            t.description@ == description@,
            t.name == self.name,
            t.system_template == self.system_template,
            t.user_template == self.user_template,
            t.variables == self.variables,
            t.metadata == self.metadata,
    {
        let mut t = self;
        t.description = String::from_str(description);
        t
    }

    /// The template with the given variables.
    pub fn with_variables(self, variables: Vec<String>) -> (t: Self)
        ensures
            t.variables == variables,
            t.name == self.name,
            t.description == self.description,
            t.system_template == self.system_template,
            t.user_template == self.user_template,
            t.metadata == self.metadata,
    {
        let mut t = self;
        t.variables = variables;
        t
    }

    /// The template with `key` set to the JSON text `value` in its metadata.
    pub fn with_metadata(self, key: &str, value: String) -> (t: Self)
        requires
            self.metadata.wf(),
        ensures
            t.metadata.wf(),
            t.metadata.map() == self.metadata.map().insert(key@, value),
            t.name == self.name,
            t.description == self.description,
            t.system_template == self.system_template,
            t.user_template == self.user_template,
            t.variables == self.variables,
    {
        let mut t = self;
        t.metadata.insert(String::from_str(key), value);
        t
    }
}

/// The variables a prompt is filled from, each bound to the text that replaces
/// its placeholder (a JSON string's own text, any other JSON value as JSON).
pub type PromptContext = StringTable<String>;

/// The bindings of a context, in its order.
pub open spec fn bindings(entries: Seq<(Seq<char>, String)>) -> Seq<(Seq<char>, Seq<char>)> {
    entries.map_values(|e: (Seq<char>, String)| (e.0, e.1@))
}

/// The placeholder of a variable: its name in double braces.
pub open spec fn placeholder(name: Seq<char>) -> Seq<char> {
    seq!['{', '{'] + name + seq!['}', '}']
}

/// A template with each binding's placeholder replaced by its text, one binding
/// after another in order.
pub open spec fn filled(template: Seq<char>, binds: Seq<(Seq<char>, Seq<char>)>) -> Seq<char>
    decreases binds.len(),
{
    if binds.len() == 0 {
        template
    } else {
        replace_all(filled(template, binds.drop_last()), placeholder(binds.last().0), binds.last().1)
    }
}

/// Whether `ctx` leaves a variable unbound.
pub open spec fn unbound(ctx: Map<Seq<char>, String>) -> spec_fn(String) -> bool {
    |v: String| !ctx.contains_key(v@)
}

/// The variables of `vars` that `ctx` does not bind, in order.
pub open spec fn missing(vars: Seq<String>, ctx: Map<Seq<char>, String>) -> Seq<Seq<char>> {
    texts(vars.filter(unbound(ctx)))
}

/// Checking one more variable adds it to the unbound ones exactly when the context lacks it.
proof fn lemma_missing_step(vars: Seq<String>, ctx: Map<Seq<char>, String>, i: int)
    requires
        0 <= i < vars.len(),
    ensures
        missing(vars.take(i + 1), ctx) == if ctx.contains_key(vars[i]@) {
            missing(vars.take(i), ctx)
        } else {
            missing(vars.take(i), ctx).push(vars[i]@)
        },
{
    assert(vars.take(i + 1) =~= vars.take(i).push(vars[i]));
    vars.take(i).lemma_filter_push(vars[i], unbound(ctx));
    let f = vars.take(i).filter(unbound(ctx));
    assert(unbound(ctx)(vars[i]) == !ctx.contains_key(vars[i]@));
    assert(texts(f.push(vars[i])) =~= texts(f).push(vars[i]@));
}

/// Fills `template` from `context`, as [`filled`] states.
fn substitute_variables(template: &str, context: &PromptContext) -> (r: String)
    requires
        context.wf(),
    ensures
        r@ == filled(template@, bindings(context.entries())),
{
    let ghost bs = bindings(context.entries());
    let mut cur = chars_of(template);
    let mut k: usize = 0;
    let n = context.len();
    while k < n
        invariant
            k <= n,
            n == context.entries().len(),
            context.wf(),
            bs == bindings(context.entries()),
            cur@ == filled(template@, bs.take(k as int)),
        decreases n - k,
    {
        let key = chars_of(context.key_at(k).as_str());
        let mut pat: Vec<char> = Vec::new();
        pat.push('{');
        pat.push('{');
        let mut j: usize = 0;
        while j < key.len()
            invariant
                j <= key@.len(),
                pat@ == seq!['{', '{'] + key@.take(j as int),
            decreases key.len() - j,
        {
            pat.push(key[j]);
            j = j + 1;
        }
        pat.push('}');
        pat.push('}');
        let rep = chars_of(context.value_at(k).as_str());
        proof {
            assert(key@.take(key@.len() as int) =~= key@);
            assert(pat@ =~= placeholder(context.entries()[k as int].0));
            assert(bs.take(k + 1).drop_last() =~= bs.take(k as int));
            assert(bs.take(k + 1).last() == (context.entries()[k as int].0, context.entries()[k as int].1@));
        }
        cur = replace_all_chars(&cur, &pat, &rep);
        k = k + 1;
    }
    assert(bs.take(n as int) =~= bs);
    string_from_chars(cur.as_slice())
}

/// Keeps prompt templates by name and fills them from contexts.
#[derive(Debug)]
pub struct PromptBuilder {
    templates: StringTable<PromptTemplate>,
}

impl PromptBuilder {
    /// The templates, by name.
    pub closed spec fn templates(&self) -> Map<Seq<char>, PromptTemplate> {
        self.templates.map()
    }

    /// The template names in the order they were first added.
    pub closed spec fn names(&self) -> Seq<Seq<char>> {
        self.templates.entries().map_values(|e: (Seq<char>, PromptTemplate)| e.0)
    }

    /// The table holds each name once.
    pub closed spec fn wf(&self) -> bool {
        self.templates.wf()
    }

    /// A builder with no templates.
    pub fn new() -> (b: Self)
        ensures
            b.wf(),
            b.templates() == Map::<Seq<char>, PromptTemplate>::empty(),
    {
        PromptBuilder { templates: StringTable::new() }
    }

    /// A builder holding the agent collaboration templates.
    pub fn with_agent_templates() -> (b: Self)
        ensures
            b.wf(),
            b.templates().dom() == collaboration_names(),
            is_collaboration_set(b.templates()),
    {
        let mut b = Self::new();
        b.add_agent_collaboration_templates();
        proof {
            assert(b.templates().dom() =~= collaboration_names());
        }
        b
    }

    /// Adds `template` under its name, replacing one of that name.
    pub fn add_template(&mut self, template: PromptTemplate) -> (r: &mut Self)
        requires
            old(self).wf(),
        ensures
            r.wf(),
            r.templates() == old(self).templates().insert(template.name@, template),
            *final(self) == *final(r),
    {
        let name = template.name.clone();
        self.templates.insert(name, template);
        self
    }

    /// Takes out the template `name`, if there is one.
    pub fn remove_template(&mut self, name: &str) -> (r: Option<PromptTemplate>)
        requires
            old(self).wf(),
        ensures
            final(self).wf(),
            final(self).templates() == old(self).templates().remove(name@),
            old(self).templates().contains_key(name@) ==> r == Some(old(self).templates()[name@]),
            !old(self).templates().contains_key(name@) ==> r is None,
    {
        self.templates.remove(name)
    }

    /// Fills the system and user texts of the template `template_name` from
    /// `context`; an unknown name is a configuration error.
    pub fn build_prompt(&self, template_name: &str, context: &PromptContext) -> (r: Result<(String, String), LLMError>)
        requires
            self.wf(),
            context.wf(),
        ensures
            self.templates().contains_key(template_name@) ==> (r matches Ok((system, user))
                && system@ == filled(self.templates()[template_name@].system_template@, bindings(context.entries()))
                && user@ == filled(self.templates()[template_name@].user_template@, bindings(context.entries()))),
            !self.templates().contains_key(template_name@) ==> (r matches Err(e)
                && e@ == LLMErrorView::ConfigError("Template '"@ + template_name@ + "' not found"@)),
    {
        match self.templates.get(template_name) {
            Some(template) => {
                let system = substitute_variables(template.system_template.as_str(), context);
                let user = substitute_variables(template.user_template.as_str(), context);
                Ok((system, user))
            },
            None => Err(LLMError::ConfigError(not_found(template_name))),
        }
    }

    /// The template names, in the order they were first added.
    pub fn list_templates(&self) -> (r: Vec<String>)
        requires
            self.wf(),
        ensures
            texts(r@) == self.names(),
    {
        let mut r: Vec<String> = Vec::new();
        let n = self.templates.len();
        let mut i: usize = 0;
        while i < n
            invariant
                i <= n,
                n == self.templates.entries().len(),
                r@.len() == i,
                forall|j: int| 0 <= j < i ==> #[trigger] r@[j]@ == self.templates.entries()[j].0,
            decreases n - i,
        {
            r.push(self.templates.key_at(i).clone());
            i = i + 1;
        }
        assert(texts(r@) =~= self.names());
        r
    }

    /// The template `name`, if there is one.
    pub fn get_template(&self, name: &str) -> (r: Option<&PromptTemplate>)
        requires
            self.wf(),
        ensures
            self.templates().contains_key(name@) ==> r == Some(&self.templates()[name@]),
            !self.templates().contains_key(name@) ==> r is None,
    {
        self.templates.get(name)
    }

    /// Checks that `context` binds every variable of the template
    /// `template_name`; reports an unknown name, or the unbound variables in order.
    pub fn validate_context(&self, template_name: &str, context: &PromptContext) -> (r: Result<(), LLMError>)
        requires
            self.wf(),
            context.wf(),
        ensures
            !self.templates().contains_key(template_name@) ==> (r matches Err(e)
                && e@ == LLMErrorView::ConfigError("Template '"@ + template_name@ + "' not found"@)),
            self.templates().contains_key(template_name@) ==> {
                let m = missing(self.templates()[template_name@].variables@, context.map());
                &&& m.len() == 0 ==> r is Ok
                &&& m.len() > 0 ==> (r matches Err(e) && e@ == LLMErrorView::ConfigError(
                    "Missing required variables for template '"@ + template_name@ + "': "@ + strings_debug(m)))
            },
    {
        let template = match self.templates.get(template_name) {
            Some(t) => t,
            None => {
                return Err(LLMError::ConfigError(not_found(template_name)));
            },
        };
        let vars = &template.variables;
        let ghost ctx = context.map();
        let mut absent: Vec<String> = Vec::new();
        let mut i: usize = 0;
        while i < vars.len()
            invariant
                i <= vars@.len(),
                ctx == context.map(),
                context.wf(),
                texts(absent@) == missing(vars@.take(i as int), ctx),
            decreases vars.len() - i,
        {
            proof { lemma_missing_step(vars@, ctx, i as int); }
            let ghost before = absent@;
            if !context.contains_key(vars[i].as_str()) {
                absent.push(vars[i].clone());
                proof { assert(texts(absent@) =~= texts(before).push(vars@[i as int]@)); }
            }
            i = i + 1;
        }
        proof { assert(vars@.take(vars@.len() as int) =~= vars@); }
        if absent.len() == 0 {
            Ok(())
        } else {
            let listed = debug_strings(&absent);
            let head = concat_str("Missing required variables for template '", template_name);
            let head = concat_str(head.as_str(), "': ");
            Err(LLMError::ConfigError(concat_str(head.as_str(), listed.as_str())))
        }
    }

    /// Adds the templates the agent collaboration rounds use.
    pub fn add_agent_collaboration_templates(&mut self)
        requires
            old(self).wf(),
        ensures
            final(self).wf(),
            final(self).templates().dom() == old(self).templates().dom().union(collaboration_names()),
            forall|k: Seq<char>| #[trigger] old(self).templates().contains_key(k) && !collaboration_names().contains(k)
                ==> final(self).templates()[k] == old(self).templates()[k],
            is_collaboration_set(final(self).templates()),
    {
        let t = PromptTemplate::new("distil_feedback", DISTIL_FEEDBACK_SYSTEM, DISTIL_FEEDBACK_USER).with_variables(vec![String::from_str("goal"), String::from_str("proposal_concept"), String::from_str("raw_feedback")]);
        proof {
            reveal_strlit("goal"); reveal_strlit("proposal_concept"); reveal_strlit("raw_feedback");
            assert(texts(t.variables@) =~= seq!["goal"@, "proposal_concept"@, "raw_feedback"@]);
        }
        self.add_template(t);
        let t = PromptTemplate::new("initial_proposal", INITIAL_PROPOSAL_SYSTEM, INITIAL_PROPOSAL_USER).with_variables(vec![String::from_str("agent_name"), String::from_str("agent_role"), String::from_str("agent_specialisation"), String::from_str("task_description"), String::from_str("focus_directive")]);
        proof {
            reveal_strlit("agent_name"); reveal_strlit("agent_role"); reveal_strlit("agent_specialisation"); reveal_strlit("task_description"); reveal_strlit("focus_directive");
            assert(texts(t.variables@) =~= seq!["agent_name"@, "agent_role"@, "agent_specialisation"@, "task_description"@, "focus_directive"@]);
        }
        self.add_template(t);
        let t = PromptTemplate::new("refine_proposal", REFINE_PROPOSAL_SYSTEM, REFINE_PROPOSAL_USER).with_variables(vec![String::from_str("agent_name"), String::from_str("task_description"), String::from_str("iteration"), String::from_str("current_proposal"), String::from_str("distilled_feedback")]);
        proof {
            reveal_strlit("agent_name"); reveal_strlit("task_description"); reveal_strlit("iteration"); reveal_strlit("current_proposal"); reveal_strlit("distilled_feedback");
            assert(texts(t.variables@) =~= seq!["agent_name"@, "task_description"@, "iteration"@, "current_proposal"@, "distilled_feedback"@]);
        }
        self.add_template(t);
        let t = PromptTemplate::new("specialist_feedback", SPECIALIST_FEEDBACK_SYSTEM, SPECIALIST_FEEDBACK_USER).with_variables(vec![String::from_str("agent_name"), String::from_str("agent_role"), String::from_str("agent_specialisation"), String::from_str("task_description"), String::from_str("iteration"), String::from_str("proposal")]);
        proof {
            reveal_strlit("agent_name"); reveal_strlit("agent_role"); reveal_strlit("agent_specialisation"); reveal_strlit("task_description"); reveal_strlit("iteration"); reveal_strlit("proposal");
            assert(texts(t.variables@) =~= seq!["agent_name"@, "agent_role"@, "agent_specialisation"@, "task_description"@, "iteration"@, "proposal"@]);
        }
        self.add_template(t);
        let t = PromptTemplate::new("assess_proposal", ASSESS_PROPOSAL_SYSTEM, ASSESS_PROPOSAL_USER).with_variables(vec![String::from_str("arbiter_name"), String::from_str("arbiter_specialisation"), String::from_str("goal"), String::from_str("iteration"), String::from_str("proposal"), String::from_str("distilled_feedback")]);
        proof {
            reveal_strlit("arbiter_name"); reveal_strlit("arbiter_specialisation"); reveal_strlit("goal"); reveal_strlit("iteration"); reveal_strlit("proposal"); reveal_strlit("distilled_feedback");
            assert(texts(t.variables@) =~= seq!["arbiter_name"@, "arbiter_specialisation"@, "goal"@, "iteration"@, "proposal"@, "distilled_feedback"@]);
        }
        self.add_template(t);
        let t = PromptTemplate::new("evaluate_progress", EVALUATE_PROGRESS_SYSTEM, EVALUATE_PROGRESS_USER).with_variables(vec![String::from_str("iteration"), String::from_str("previous_proposal"), String::from_str("previous_feedback"), String::from_str("claimed_changes"), String::from_str("current_feedback")]);
        proof {
            reveal_strlit("iteration"); reveal_strlit("previous_proposal"); reveal_strlit("previous_feedback"); reveal_strlit("claimed_changes"); reveal_strlit("current_feedback");
            assert(texts(t.variables@) =~= seq!["iteration"@, "previous_proposal"@, "previous_feedback"@, "claimed_changes"@, "current_feedback"@]);
        }
        self.add_template(t);
        let t = PromptTemplate::new("breakout_strategy", BREAKOUT_STRATEGY_SYSTEM, BREAKOUT_STRATEGY_USER).with_variables(vec![String::from_str("goal"), String::from_str("iteration"), String::from_str("final_proposal"), String::from_str("feedback_history")]);
        proof {
            reveal_strlit("goal"); reveal_strlit("iteration"); reveal_strlit("final_proposal"); reveal_strlit("feedback_history");
            assert(texts(t.variables@) =~= seq!["goal"@, "iteration"@, "final_proposal"@, "feedback_history"@]);
        }
        self.add_template(t);
        proof {
            reveal_strlit("distil_feedback");
            reveal_strlit("initial_proposal");
            reveal_strlit("refine_proposal");
            reveal_strlit("specialist_feedback");
            reveal_strlit("assess_proposal");
            reveal_strlit("evaluate_progress");
            reveal_strlit("breakout_strategy");
            assert("distil_feedback"@[0] == 'd');
            assert("initial_proposal"@[0] == 'i');
            assert("refine_proposal"@[0] == 'r');
            assert("specialist_feedback"@[0] == 's');
            assert("assess_proposal"@[0] == 'a');
            assert("evaluate_progress"@[0] == 'e');
            assert("breakout_strategy"@[0] == 'b');
            assert(final(self).templates().dom() =~= old(self).templates().dom().union(collaboration_names()));
        }
    }
}

/// The names of the agent collaboration templates.
pub open spec fn collaboration_names() -> Set<Seq<char>> {
    Set::new(|k: Seq<char>| k == "distil_feedback"@ || k == "initial_proposal"@ || k == "refine_proposal"@ || k == "specialist_feedback"@ || k == "assess_proposal"@ || k == "evaluate_progress"@ || k == "breakout_strategy"@)
}

/// `templates` holds each agent collaboration template as written.
pub open spec fn is_collaboration_set(templates: Map<Seq<char>, PromptTemplate>) -> bool {
    &&& describes(templates["distil_feedback"@], "distil_feedback"@, DISTIL_FEEDBACK_SYSTEM@, DISTIL_FEEDBACK_USER@, seq!["goal"@, "proposal_concept"@, "raw_feedback"@])
    &&& describes(templates["initial_proposal"@], "initial_proposal"@, INITIAL_PROPOSAL_SYSTEM@, INITIAL_PROPOSAL_USER@, seq!["agent_name"@, "agent_role"@, "agent_specialisation"@, "task_description"@, "focus_directive"@])
    &&& describes(templates["refine_proposal"@], "refine_proposal"@, REFINE_PROPOSAL_SYSTEM@, REFINE_PROPOSAL_USER@, seq!["agent_name"@, "task_description"@, "iteration"@, "current_proposal"@, "distilled_feedback"@])
    &&& describes(templates["specialist_feedback"@], "specialist_feedback"@, SPECIALIST_FEEDBACK_SYSTEM@, SPECIALIST_FEEDBACK_USER@, seq!["agent_name"@, "agent_role"@, "agent_specialisation"@, "task_description"@, "iteration"@, "proposal"@])
    &&& describes(templates["assess_proposal"@], "assess_proposal"@, ASSESS_PROPOSAL_SYSTEM@, ASSESS_PROPOSAL_USER@, seq!["arbiter_name"@, "arbiter_specialisation"@, "goal"@, "iteration"@, "proposal"@, "distilled_feedback"@])
    &&& describes(templates["evaluate_progress"@], "evaluate_progress"@, EVALUATE_PROGRESS_SYSTEM@, EVALUATE_PROGRESS_USER@, seq!["iteration"@, "previous_proposal"@, "previous_feedback"@, "claimed_changes"@, "current_feedback"@])
    &&& describes(templates["breakout_strategy"@], "breakout_strategy"@, BREAKOUT_STRATEGY_SYSTEM@, BREAKOUT_STRATEGY_USER@, seq!["goal"@, "iteration"@, "final_proposal"@, "feedback_history"@])
}

/// The message of an unknown template name.
fn not_found(name: &str) -> (r: String)
    ensures
        r@ == "Template '"@ + name@ + "' not found"@,
{
    let head = concat_str("Template '", name);
    concat_str(head.as_str(), "' not found")
}

/// The system text of the `distil_feedback` template.
pub const DISTIL_FEEDBACK_SYSTEM: &'static str = "You are a Feedback Distillation Agent. Your task is to analyse feedback from multiple specialists and synthesise it into a single, non-redundant, and prioritised set of actionable instructions. Consolidate similar points, identify contradictions, and summarise the core message.";

/// The user text of the `distil_feedback` template.
pub const DISTIL_FEEDBACK_USER: &'static str = "GOAL: {{goal}}\n\nPROPOSAL CONCEPT:\n{{proposal_concept}}\n\nRAW TEAM FEEDBACK:\n{{raw_feedback}}\n\nSynthesise the raw feedback into a unified summary. De-duplicate points and prioritise the most critical concerns that block progress.\n\nRespond with JSON: {\n  \"summary\": \"(string) one-paragraph overview of the team's sentiment\",\n  \"prioritised_concerns\": [\"(string) list of the most critical issues to fix\"],\n  \"actionable_suggestions\": [\"(string) list of concrete, consolidated suggestions\"]\n}";

/// The system text of the `initial_proposal` template.
pub const INITIAL_PROPOSAL_SYSTEM: &'static str = "You are {{agent_name}}, a {{agent_role}} specialising in {{agent_specialisation}}. Your task is to create the team's INITIAL proposal.";

/// The user text of the `initial_proposal` template.
pub const INITIAL_PROPOSAL_USER: &'static str = "TASK: {{task_description}}\n{{focus_directive}}\n\nCreate a SINGLE, SPECIFIC, and DETAILED initial proposal to achieve the task. This will be the foundation for team collaboration. Be concrete and implementable.\n\nRespond with JSON containing:\n- 'concept' (string): High-level approach\n- 'details' (object): Specific implementation elements\n- 'rationale' (string): Explanation of the approach";

/// The system text of the `refine_proposal` template.
pub const REFINE_PROPOSAL_SYSTEM: &'static str = "You are a refinement specialist, embodying the role of {{agent_name}}. Your task is to intelligently upgrade a proposal based on team feedback.";

/// The user text of the `refine_proposal` template.
pub const REFINE_PROPOSAL_USER: &'static str = "TASK: {{task_description}}\nITERATION: {{iteration}}\n\nCURRENT PROPOSAL:\n{{current_proposal}}\n\nDISTILLED TEAM FEEDBACK (Prioritised):\n{{distilled_feedback}}\n\nYou MUST refine the proposal by addressing the specific concerns and suggestions from the feedback. Make concrete, technical changes to the 'details' object.\n\nCRITICAL REQUIREMENTS:\n1. The `details` object MUST be changed. Do not just change the rationale.\n2. The `changes_made` array MUST list the specific, technical modifications.\n3. Do NOT list conceptual changes like 'conducted research'.\n\nRespond with JSON containing:\n- 'concept' (string): Updated concept\n- 'details' (UPDATED object): Modified implementation details\n- 'rationale' (string): Explanation of changes\n- 'changes_made' (array): List of specific technical modifications";

/// The system text of the `specialist_feedback` template.
pub const SPECIALIST_FEEDBACK_SYSTEM: &'static str = "You are {{agent_name}}, a {{agent_role}} specialising in {{agent_specialisation}}. Provide expert feedback on a proposal from your domain.";

/// The user text of the `specialist_feedback` template.
pub const SPECIALIST_FEEDBACK_USER: &'static str = "TASK: {{task_description}}\nITERATION: {{iteration}}\n\nTEAM PROPOSAL TO REVIEW:\n{{proposal}}\n\nAnalyse this from your specific area of expertise ({{agent_specialisation}}). Provide constructive, actionable feedback.\n\nRespond with JSON containing:\n- 'strengths' (array): Positive aspects of the proposal\n- 'concerns' (array): Issues or problems identified\n- 'suggestions' (array): Specific recommendations for improvement";

/// The system text of the `assess_proposal` template.
pub const ASSESS_PROPOSAL_SYSTEM: &'static str = "You are {{arbiter_name}}, an arbiter with expertise in {{arbiter_specialisation}}. Your role is to be a STRICT and IMPARTIAL judge of whether a proposal definitively achieves the goal. YOU MUST RESPOND ONLY WITH VALID JSON - NO OTHER TEXT.";

/// The user text of the `assess_proposal` template.
pub const ASSESS_PROPOSAL_USER: &'static str = "GOAL: {{goal}}\nITERATION: {{iteration}}\n\nPROPOSAL TO ASSESS:\n{{proposal}}\n\nDISTILLED TEAM FEEDBACK:\n{{distilled_feedback}}\n\nPerform a RIGOROUS assessment. The goal is achieved ONLY if all critical concerns from the team feedback have been demonstrably resolved in the proposal details and the solution is complete and robust. Surface-level coherence is insufficient.\n\nCRITICAL: You MUST respond with ONLY valid JSON in this exact format, with no additional text, explanations, or markdown formatting:\n\n{\n  \"goal_achieved\": true,\n  \"confidence\": 0.85,\n  \"reasoning\": \"Your detailed analysis here\",\n  \"missing_elements\": [\"List any remaining gaps\"]\n}\n\nThe goal_achieved field MUST be either true or false (boolean).\nThe confidence field MUST be a number between 0.0 and 1.0.\nDo not include any text before or after the JSON.";

/// The system text of the `evaluate_progress` template.
pub const EVALUATE_PROGRESS_SYSTEM: &'static str = "You are a Progress Evaluation Agent. Objectively score the meaningful progress between two iterations on a scale of 1-10. 1=Regressive/Superficial, 5=Moderate, 10=Exceptional.";

/// The user text of the `evaluate_progress` template.
pub const EVALUATE_PROGRESS_USER: &'static str = "ITERATION: {{iteration}}\n\nEvaluate if the CURRENT PROPOSAL meaningfully addresses the PREVIOUS FEEDBACK compared to the PREVIOUS PROPOSAL. Focus on concrete changes listed in 'changes_made'.\n\nPREVIOUS PROPOSAL:\n{{previous_proposal}}\n\nPREVIOUS FEEDBACK:\n{{previous_feedback}}\n\nCURRENT PROPOSAL'S CLAIMED CHANGES:\n{{claimed_changes}}\n\nCURRENT FEEDBACK SUMMARY:\n{{current_feedback}}\n\nVerify if the changes are real and address the core of the feedback. Superficial changes (wording, version bumps) are low-score. Significant technical improvements that resolve concerns are high-score.\n\nRespond with JSON:\n{\n  \"score\": (integer 1-10),\n  \"reasoning\": \"(string) Justify the score based on change verification.\"\n}";

/// The system text of the `breakout_strategy` template.
pub const BREAKOUT_STRATEGY_SYSTEM: &'static str = "You are a Summarization Agent for breaking collaboration deadlocks. Analyse a stalled process and create a concise, actionable summary to help the team refocus.";

/// The user text of the `breakout_strategy` template.
pub const BREAKOUT_STRATEGY_USER: &'static str = "GOAL: {{goal}}\nSTALLED AT ITERATION: {{iteration}}\n\nThe team is stuck. Analyse the situation based on the final proposal and the history of feedback. Identify the core disagreements and a clear path forward.\n\nFINAL PROPOSAL:\n{{final_proposal}}\n\nFEEDBACK HISTORY (Summaries):\n{{feedback_history}}\n\nCreate a summary identifying:\n1. Core unresolved issues.\n2. A clear, single recommendation for the team's next focus.\n\nRespond with JSON:\n{\n  \"situation_summary\": \"(string)\",\n  \"critical_blockers\": [\"(string)\"],\n  \"recommended_focus\": \"(string) directive for the team's next attempt\"\n}";

} // verus!
