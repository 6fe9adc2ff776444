//! What the agent is given for a session.

use crate::context::lineage::{lineage_block, render_lineage, CompactContext};
use crate::context::system_prompt::{compose_system_prompt, opt_str, system_prompt};
use crate::session_tree::AgentMessage;
use crate::text::{opt_text, owned, texts};
use vstd::prelude::*;

verus! {

/// What the prompts of a daemon's sessions have in common.
#[derive(Debug)]
pub struct ContextService {
    pub cwd: String,
    pub memory: String,
    pub tool_names: Vec<String>,
    pub harness_intro: Option<String>,
}

/// What the agent is given for one session.
#[derive(Debug)]
pub struct ContextBundle {
    pub system_prompt: String,
    pub messages: Vec<AgentMessage>,
}

pub fn as_opt_str(o: &Option<String>) -> (r: Option<&str>)
    ensures
        opt_str(r) == opt_text(*o),
{
    match o {
        Some(s) => Some(s.as_str()),
        None => None,
    }
}

impl ContextService {
    pub fn new(cwd: &str, memory: &str, tool_names: Vec<String>, harness_intro: Option<String>) -> (r:
        ContextService)
        ensures
            r.cwd@ == cwd@,
            r.memory@ == memory@,
            r.tool_names == tool_names,
            r.harness_intro == harness_intro,
    {
        ContextService { cwd: owned(cwd), memory: owned(memory), tool_names, harness_intro }
    }

    /// The system prompt of a session, from what a collapse has left in it.
    pub fn system_prompt(&self, compact: &Option<CompactContext>, node_id: &Option<String>) -> (r:
        String)
        ensures
            r@ == system_prompt(
                self.cwd@,
                self.memory@,
                texts(self.tool_names@),
                lineage_block(*compact, opt_text(*node_id), false),
                opt_text(self.harness_intro),
            ),
    {
        let lineage = render_lineage(compact, node_id);
        compose_system_prompt(
            self.cwd.as_str(),
            self.memory.as_str(),
            &self.tool_names,
            as_opt_str(&lineage),
            as_opt_str(&self.harness_intro),
        )
    }

    /// What the agent is given for a session, from what was read of it: its messages, what a
    /// collapse has left in it, and the node of the collapse. The first of the three that could
    /// not be read is the error.
    pub fn load(
        &self,
        messages: Result<Vec<AgentMessage>, String>,
        compact: &Result<Option<CompactContext>, String>,
        node_id: &Result<Option<String>, String>,
    ) -> (r: Result<ContextBundle, String>)
        ensures
            match (messages, *compact, *node_id) {
                (Err(e), _, _) => r matches Err(m) && m == e,
                (Ok(_), Err(e), _) => r matches Err(m) && m@ == e@,
                (Ok(_), Ok(_), Err(e)) => r matches Err(m) && m@ == e@,
                (Ok(all), Ok(c), Ok(n)) => {
                    &&& r matches Ok(b)
                    &&& b.messages == all
                    &&& b.system_prompt@ == system_prompt(
                        self.cwd@,
                        self.memory@,
                        texts(self.tool_names@),
                        lineage_block(c, opt_text(n), false),
                        opt_text(self.harness_intro),
                    )
                },
            },
    {
        let messages = match messages {
            Ok(messages) => messages,
            Err(e) => {
                return Err(e);
            },
        };
        match (compact, node_id) {
            (Ok(c), Ok(n)) => Ok(
                ContextBundle { system_prompt: self.system_prompt(c, n), messages },
            ),
            (Err(e), _) => Err(e.clone()),
            (_, Err(e)) => Err(e.clone()),
        }
    }
}

} // verus!
