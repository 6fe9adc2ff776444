//! The transcripts of subagent jobs: where they are kept on disk, and a store in memory.

use crate::json::{
    is_plain, items_view, parsed_document, pretty_text, Json, JsonView, MAX_DEPTH,
};
use crate::paths::{join_path, joined_path};
use crate::text::{chars_of, owned};
use crate::text_map::TextMap;
use vstd::prelude::*;

verus! {

/// How many characters of an identifier a path segment keeps.
pub const MAX_SEGMENT: usize = 80;

/// Whether a character stands in a path segment as it is.
pub open spec fn is_safe(c: char) -> bool {
    ('a' <= c && c <= 'z') || ('A' <= c && c <= 'Z') || ('0' <= c && c <= '9') || c == '-' || c
        == '_' || c == '.'
}

/// A character as it stands in a path segment.
pub open spec fn safe_char(c: char) -> char {
    if is_safe(c) {
        c
    } else {
        '_'
    }
}

/// Whether a segment stands for a directory itself or the one above it.
pub open spec fn is_dots(s: Seq<char>) -> bool {
    s == seq!['.'] || s == seq!['.', '.']
}

/// An identifier as a path segment. The dots of a segment that would name a directory are
/// unsafe too.
pub open spec fn segment(id: Seq<char>) -> Seq<char> {
    if id.len() == 0 {
        "default"@
    } else if is_dots(id) {
        Seq::new(id.len(), |i: int| '_')
    } else {
        Seq::new(
            if id.len() < MAX_SEGMENT {
                id.len()
            } else {
                MAX_SEGMENT as nat
            },
            |i: int| safe_char(id[i]),
        )
    }
}

/// An identifier as a path segment.
pub fn sanitize_path_segment(id: &str) -> (r: String)
    ensures
        r@ == segment(id@),
{
    let v = chars_of(id);
    let total: usize = v.len();
    if total == 0 {
        return owned("default");
    }
    if total == 1 && v[0] == '.' {
        proof {
            reveal_strlit("_");
            assert(id@ =~= seq!['.']);
            assert(segment(id@) =~= "_"@);
        }
        return owned("_");
    }
    if total == 2 && v[0] == '.' && v[1] == '.' {
        proof {
            reveal_strlit("__");
            assert(id@ =~= seq!['.', '.']);
            assert(segment(id@) =~= "__"@);
        }
        return owned("__");
    }
    assert(!is_dots(id@));
    let end: usize = if total < MAX_SEGMENT {
        total
    } else {
        MAX_SEGMENT
    };
    let mut r = String::new();
    let mut i: usize = 0;
    while i < end
        invariant
            i <= end <= v@.len(),
            v@ == id@,
            r@ == Seq::new(i as nat, |k: int| safe_char(id@[k])),
        decreases end - i,
    {
        let c = v[i];
        let ghost before = r@;
        if ('a' <= c && c <= 'z') || ('A' <= c && c <= 'Z') || ('0' <= c && c <= '9') || c == '-'
            || c == '_' || c == '.' {
            r.push(c);
        } else {
            r.push('_');
        }
        i += 1;
        assert(r@ =~= Seq::new(i as nat, |k: int| safe_char(id@[k])));
    }
    assert(r@ =~= segment(id@));
    r
}

/// The transcripts on disk.
#[derive(Debug)]
pub struct DiskTranscriptStore {
    pub dir: String,
}

/// Where the transcript of a node of a run is.
pub open spec fn node_path(dir: Seq<char>, run_id: Seq<char>, node_id: Seq<char>) -> Seq<char> {
    joined_path(joined_path(dir, segment(run_id)), segment(node_id) + ".json"@)
}

/// Where the transcript of a job is.
pub open spec fn job_path(dir: Seq<char>, job_id: Seq<char>) -> Seq<char> {
    joined_path(joined_path(dir, "subagent"@), segment(job_id) + ".json"@)
}

/// What a job belongs to.
#[derive(Debug)]
pub struct JobKey {
    pub run_id: Option<String>,
    pub node_id: Option<String>,
    pub job_id: String,
}

/// Where a transcript is written.
pub open spec fn save_path_of(dir: Seq<char>, key: JobKey) -> Seq<char> {
    match (key.run_id, key.node_id) {
        (Some(run), Some(node)) => node_path(dir, run@, node@),
        _ => job_path(dir, key.job_id@),
    }
}

/// The messages that a text holds: nothing where it is no JSON array.
pub open spec fn messages_of(text: Seq<char>) -> Option<Seq<JsonView>> {
    match parsed_document(text) {
        Ok(JsonView::Array(items)) => Some(items),
        _ => None,
    }
}

impl DiskTranscriptStore {
    pub fn new(dir: String) -> (r: DiskTranscriptStore)
        ensures
            r.dir == dir,
    {
        DiskTranscriptStore { dir }
    }

    pub fn messages_path_for_node(&self, run_id: &str, node_id: &str) -> (r: String)
        ensures
            r@ == node_path(self.dir@, run_id@, node_id@),
    {
        let mut name = sanitize_path_segment(node_id);
        name.push_str(".json");
        join_path(
            join_path(self.dir.as_str(), sanitize_path_segment(run_id).as_str()).as_str(),
            name.as_str(),
        )
    }

    pub fn messages_path_for_task(&self, job_id: &str) -> (r: String)
        ensures
            r@ == job_path(self.dir@, job_id@),
    {
        let mut name = sanitize_path_segment(job_id);
        name.push_str(".json");
        join_path(join_path(self.dir.as_str(), "subagent").as_str(), name.as_str())
    }

    /// Where a transcript is written: under its run and its node where it has both, else under
    /// its job.
    pub fn save_path(&self, key: &JobKey) -> (r: String)
        ensures
            r@ == save_path_of(self.dir@, *key),
    {
        match (&key.run_id, &key.node_id) {
            (Some(run), Some(node)) => self.messages_path_for_node(run.as_str(), node.as_str()),
            _ => self.messages_path_for_task(key.job_id.as_str()),
        }
    }

    /// The file that a transcript is written to, and the text that is written. The messages
    /// are read back from it as they were, where their numbers are integers.
    pub fn save(&self, key: &JobKey, messages: &Vec<Json>) -> (r: Option<(String, String)>)
        ensures
            r matches Some((path, text)) && path@ == save_path_of(self.dir@, *key) && text@
                == pretty_text(JsonView::Array(items_view(messages@))),
            is_plain(JsonView::Array(items_view(messages@)), MAX_DEPTH as nat) ==> (r matches Some((
                path,
                text,
            )) && messages_of(text@) == Some(items_view(messages@))),
    {
        let text = Json::array(copy_items(messages)).render_pretty()?;
        Some((self.save_path(key), text))
    }

    /// The messages that a file holds: nothing where it is no JSON array.
    pub fn messages_in(&self, text: &str) -> (r: Option<Vec<Json>>)
        ensures
            opt_items(r) == messages_of(text@),
    {
        match Json::parse(text) {
            Ok(document) => match document.as_items() {
                Some(items) => Some(copy_items(items)),
                None => None,
            },
            Err(_) => None,
        }
    }
}

/// A copy of values.
pub fn copy_items(v: &Vec<Json>) -> (r: Vec<Json>)
    ensures
        items_view(r@) == items_view(v@),
{
    let mut r: Vec<Json> = Vec::new();
    let ghost all = items_view(v@);
    let mut i: usize = 0;
    assert(items_view(r@) =~= all.take(0));
    while i < v.len()
        invariant
            i <= v@.len(),
            all == items_view(v@),
            items_view(r@) == all.take(i as int),
        decreases v@.len() - i,
    {
        let ghost before = items_view(r@);
        let item = v[i].copy();
        r.push(item);
        assert(items_view(r@) =~= before.push(all[i as int]));
        assert(all.take(i + 1) =~= all.take(i as int).push(all[i as int]));
        i += 1;
    }
    assert(all.take(i as int) =~= all);
    r
}

/// The transcripts in memory.
#[derive(Debug)]
pub struct MemoryTranscriptStore {
    pub inner: TextMap<Vec<Json>>,
}

pub open spec fn node_key(run_id: Seq<char>, node_id: Seq<char>) -> Seq<char> {
    "node:"@ + run_id + ":"@ + node_id
}

pub open spec fn job_key(job_id: Seq<char>) -> Seq<char> {
    "job:"@ + job_id
}

/// What a transcript is kept under: its run and its node where it has both, else its job.
pub open spec fn key_of(key: JobKey) -> Seq<char> {
    match (key.run_id, key.node_id) {
        (Some(run), Some(node)) => node_key(run@, node@),
        _ => job_key(key.job_id@),
    }
}

/// The content of what is kept under a key.
pub open spec fn kept(m: Map<Seq<char>, Vec<Json>>, key: Seq<char>) -> Option<Seq<JsonView>> {
    if m.dom().contains(key) {
        Some(items_view(m[key]@))
    } else {
        None
    }
}

pub open spec fn opt_items(o: Option<Vec<Json>>) -> Option<Seq<JsonView>> {
    match o {
        Some(v) => Some(items_view(v@)),
        None => None,
    }
}

fn key_for_node(run_id: &str, node_id: &str) -> (r: String)
    ensures
        r@ == node_key(run_id@, node_id@),
{
    let mut r = owned("node:");
    r.push_str(run_id);
    r.push_str(":");
    r.push_str(node_id);
    r
}

fn key_for_job(job_id: &str) -> (r: String)
    ensures
        r@ == job_key(job_id@),
{
    let mut r = owned("job:");
    r.push_str(job_id);
    r
}

impl MemoryTranscriptStore {
    pub fn new() -> (r: MemoryTranscriptStore)
        ensures
            r.inner@ == Map::<Seq<char>, Vec<Json>>::empty(),
    {
        MemoryTranscriptStore { inner: TextMap::new() }
    }

    fn key(key: &JobKey) -> (r: String)
        ensures
            r@ == key_of(*key),
    {
        match (&key.run_id, &key.node_id) {
            (Some(run), Some(node)) => key_for_node(run.as_str(), node.as_str()),
            _ => key_for_job(key.job_id.as_str()),
        }
    }

    /// Keeps the messages of a job in place of those that are there.
    pub fn save(&mut self, key: &JobKey, messages: &Vec<Json>)
        ensures
            kept(final(self).inner@, key_of(*key)) == Some(items_view(messages@)),
            forall|k: Seq<char>|
                k != key_of(*key) ==> kept(final(self).inner@, k) == kept(old(self).inner@, k),
    {
        self.inner.insert(Self::key(key), copy_items(messages));
    }

    fn load(&self, key: &str) -> (r: Option<Vec<Json>>)
        ensures
            opt_items(r) == kept(self.inner@, key@),
    {
        match self.inner.get(key) {
            Some(v) => Some(copy_items(v)),
            None => None,
        }
    }

    /// The messages of a node of a run.
    pub fn load_node(&self, run_id: &str, node_id: &str) -> (r: Option<Vec<Json>>)
        ensures
            opt_items(r) == kept(self.inner@, node_key(run_id@, node_id@)),
    {
        self.load(key_for_node(run_id, node_id).as_str())
    }

    /// The messages of a job.
    pub fn load_job(&self, job_id: &str) -> (r: Option<Vec<Json>>)
        ensures
            opt_items(r) == kept(self.inner@, job_key(job_id@)),
    {
        self.load(key_for_job(job_id).as_str())
    }
}

// Laws.

/// A path segment is short, is not empty, holds no separator, and names neither its directory
/// nor the one above it: whatever an identifier holds, it makes one segment, which does not
/// lead out of the store.
pub proof fn law_segments_are_safe(id: Seq<char>)
    ensures
        0 < segment(id).len() <= MAX_SEGMENT,
        forall|i: int| 0 <= i < segment(id).len() ==> is_safe(#[trigger] segment(id)[i]),
        !segment(id).contains('/'),
        segment(id) != "."@,
        segment(id) != ".."@,
{
    reveal_strlit("default");
    reveal_strlit(".");
    reveal_strlit("..");
    let s = segment(id);
    if s == "."@ || s == ".."@ {
        assert(s[0] == '.');
        assert(s[s.len() - 1] == '.');
        assert(id =~= seq!['.'] || id =~= seq!['.', '.']);
    }
}

/// An identifier that is safe and short, and names no directory by dots alone, stands in the
/// path as it is.
pub proof fn law_safe_identifiers_are_kept(id: Seq<char>)
    requires
        0 < id.len() <= MAX_SEGMENT,
        !is_dots(id),
        forall|i: int| 0 <= i < id.len() ==> is_safe(#[trigger] id[i]),
    ensures
        segment(id) == id,
{
    assert(segment(id) =~= id);
}

/// The transcript of a node is loaded under the run and the node that it was saved under, and
/// the transcript of a job under its job; the two never meet.
pub proof fn law_transcript_keys(key: JobKey, run_id: Seq<char>, node_id: Seq<char>, job_id: Seq<char>)
    ensures
        (key.run_id matches Some(run) && key.node_id matches Some(node)) ==> key_of(key)
            == node_key(key.run_id->0@, key.node_id->0@),
        (key.run_id is None || key.node_id is None) ==> key_of(key) == job_key(key.job_id@),
        node_key(run_id, node_id) != job_key(job_id),
{
    reveal_strlit("node:");
    reveal_strlit("job:");
    assert(node_key(run_id, node_id)[0] == 'n');
    assert(job_key(job_id)[0] == 'j');
}

/// A segment keeps the characters of an identifier that are safe in a path, each at its place,
/// and puts an underscore for every other.
pub proof fn law_other_characters_become_underscores(id: Seq<char>, i: int)
    requires
        0 <= i < id.len(),
        i < MAX_SEGMENT,
        !is_dots(id),
    ensures
        segment(id).len() == if id.len() < MAX_SEGMENT {
            id.len()
        } else {
            MAX_SEGMENT as nat
        },
        segment(id)[i] == id[i] || segment(id)[i] == '_',
        ('a' <= id[i] <= 'z' || 'A' <= id[i] <= 'Z' || '0' <= id[i] <= '9' || id[i] == '-' || id[i]
            == '_' || id[i] == '.') ==> segment(id)[i] == id[i],
        !('a' <= id[i] <= 'z' || 'A' <= id[i] <= 'Z' || '0' <= id[i] <= '9' || id[i] == '-'
            || id[i] == '_' || id[i] == '.') ==> segment(id)[i] == '_',
{
}

/// What was saved for a job is found where that job is looked for: a node under its run, and
/// any other job by itself.
pub proof fn law_transcripts_are_saved_where_they_are_looked_for(dir: Seq<char>, key: JobKey)
    ensures
        key.run_id is Some && key.node_id is Some ==> save_path_of(dir, key) == node_path(
            dir,
            key.run_id->0@,
            key.node_id->0@,
        ) && key_of(key) == node_key(key.run_id->0@, key.node_id->0@),
        key.run_id is None || key.node_id is None ==> save_path_of(dir, key) == job_path(
            dir,
            key.job_id@,
        ) && key_of(key) == job_key(key.job_id@),
{
}

/// An identifier of dots alone keeps its length and none of its dots, and an empty one has a
/// segment of its own.
pub proof fn law_dots_become_underscores(id: Seq<char>)
    ensures
        id == "."@ ==> segment(id) == "_"@,
        id == ".."@ ==> segment(id) == "__"@,
        id.len() == 0 ==> segment(id) == "default"@,
{
    reveal_strlit(".");
    reveal_strlit("..");
    reveal_strlit("_");
    reveal_strlit("__");
    if id == "."@ {
        assert(id =~= seq!['.']);
        assert(segment(id) =~= "_"@);
    }
    if id == ".."@ {
        assert(id =~= seq!['.', '.']);
        assert(segment(id) =~= "__"@);
    }
}

} // verus!
