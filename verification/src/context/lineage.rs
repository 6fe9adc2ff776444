//! Where a session that came of a collapse comes from.

use crate::text::{contains_text, law_parts_stand_in_the_whole, opt_text, owned};
use vstd::prelude::*;

verus! {

/// What a collapse has left of the session that it folded.
#[derive(Debug)]
pub struct CompactContext {
    pub source_session_id: String,
    pub compact_text: String,
}

pub const GRAPH_HINT: &'static str =
    "Use session_graph_list / session_graph_read / session_graph_status / session_graph_wait / session_graph_attach to inspect or take over the old session graph.";

pub open spec fn node_line(node: Option<Seq<char>>) -> Seq<char> {
    match node {
        Some(id) => "Collapse node: "@ + id + "\n"@,
        None => Seq::empty(),
    }
}

pub open spec fn source_line(compact: Option<CompactContext>) -> Seq<char> {
    match compact {
        Some(c) => if c.source_session_id@.len() == 0 {
            Seq::empty()
        } else {
            "This session continues from "@ + c.source_session_id@ + ".\n"@
        },
        None => Seq::empty(),
    }
}

pub open spec fn summary_line(compact: Option<CompactContext>) -> Seq<char> {
    match compact {
        Some(c) => if c.compact_text@.len() == 0 {
            Seq::empty()
        } else {
            "Previous context summary: "@ + c.compact_text@ + "\n"@
        },
        None => Seq::empty(),
    }
}

/// The block on where a session comes from, with or without the summary of the old one;
/// nothing for a session that came of no collapse.
pub open spec fn lineage_block(
    compact: Option<CompactContext>,
    node: Option<Seq<char>>,
    with_summary: bool,
) -> Option<Seq<char>> {
    if compact is None && node is None {
        None
    } else {
        Some(
            "## Session lineage\n\n"@ + node_line(node) + source_line(compact) + (if with_summary {
                summary_line(compact)
            } else {
                Seq::empty()
            }) + GRAPH_HINT@,
        )
    }
}

fn line_of(label: &str, text: &str, end: &str) -> (r: String)
    ensures
        r@ == label@ + text@ + end@,
{
    let mut r = owned(label);
    r.push_str(text);
    r.push_str(end);
    r
}

pub(crate) fn render_block(
    compact: &Option<CompactContext>,
    node: &Option<String>,
    with_summary: bool,
) -> (r: Option<String>)
    ensures
        opt_text(r) == lineage_block(*compact, opt_text(*node), with_summary),
{
    if compact.is_none() && node.is_none() {
        return None;
    }
    let node_part = match node {
        Some(id) => line_of("Collapse node: ", id.as_str(), "\n"),
        None => String::new(),
    };
    assert(node_part@ =~= node_line(opt_text(*node)));
    let mut source_part = String::new();
    let mut summary_part = String::new();
    if let Some(c) = compact {
        if !c.source_session_id.as_str().is_empty() {
            source_part =
            line_of("This session continues from ", c.source_session_id.as_str(), ".\n");
        }
        if with_summary && !c.compact_text.as_str().is_empty() {
            summary_part = line_of("Previous context summary: ", c.compact_text.as_str(), "\n");
        }
    }
    assert(source_part@ =~= source_line(*compact));
    assert(summary_part@ =~= if with_summary {
        summary_line(*compact)
    } else {
        Seq::empty()
    });
    let mut block = owned("## Session lineage\n\n");
    block.push_str(node_part.as_str());
    block.push_str(source_part.as_str());
    block.push_str(summary_part.as_str());
    block.push_str(GRAPH_HINT);
    Some(block)
}

/// The block on where a session comes from, without the summary of the old one.
pub fn render_lineage(compact: &Option<CompactContext>, collapse_node_id: &Option<String>) -> (r:
    Option<String>)
    ensures
        opt_text(r) == lineage_block(*compact, opt_text(*collapse_node_id), false),
{
    render_block(compact, collapse_node_id, false)
}

/// A lineage is told exactly where there is one, with the node and the session that it comes
/// from, and with the summary only where that is asked for.
pub proof fn law_lineages_tell_where_a_session_comes_from(
    compact: Option<CompactContext>,
    node: Option<Seq<char>>,
    with_summary: bool,
)
    ensures
        lineage_block(compact, node, with_summary) is None <==> compact is None && node is None,
        lineage_block(compact, node, with_summary) matches Some(text) ==> {
            &&& node matches Some(id) ==> contains_text(text, "Collapse node: "@ + id + "\n"@)
            &&& compact matches Some(c) ==> (c.source_session_id@.len() > 0 ==> contains_text(
                text,
                "This session continues from "@ + c.source_session_id@ + ".\n"@,
            ))
            &&& compact matches Some(c) ==> (with_summary && c.compact_text@.len() > 0
                ==> contains_text(text, "Previous context summary: "@ + c.compact_text@ + "\n"@))
        },
{
    if let Some(text) = lineage_block(compact, node, with_summary) {
        let title = "## Session lineage\n\n"@;
        let a = node_line(node);
        let b = source_line(compact);
        let c = if with_summary {
            summary_line(compact)
        } else {
            Seq::empty()
        };
        let hint = GRAPH_HINT@;
        law_parts_stand_in_the_whole(title, a, b + c + hint);
        assert(title + a + (b + c + hint) =~= text);
        law_parts_stand_in_the_whole(title + a, b, c + hint);
        assert(title + a + b + (c + hint) =~= text);
        law_parts_stand_in_the_whole(title + a + b, c, hint);
    }
}

} // verus!
