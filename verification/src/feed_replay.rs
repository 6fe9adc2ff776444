//! The projection of session entries that a resumed or paginated feed shows.
//!
//! A record entry describes the user message that follows it. The two render as one: the
//! record gives the text and the attachments, and the message only its place and time. The
//! pairing is made once for a whole branch, so a page that holds the message but not the
//! record still renders the record.

use crate::session_tree::{
    is_user_message, AgentMessage, LlmMessage, SessionTreeEntry, USER_INPUT_ROLE,
};
use crate::text::{decimal_size, digits, owned};
use crate::user_input::{UserInput, UserInputView};
use vstd::prelude::*;

verus! {

/// Whether an entry is a record of user input, readable or not.
pub open spec fn is_record(e: SessionTreeEntry) -> bool {
    e matches SessionTreeEntry::Message { message: AgentMessage::Custom(c), .. } && c.role@
        == USER_INPUT_ROLE@
}

/// The record that an entry carries, where it is one that can be read.
pub open spec fn record_in(e: SessionTreeEntry) -> Option<UserInputView> {
    match e {
        SessionTreeEntry::Message { message: AgentMessage::Custom(c), .. } => if c.role@
            == USER_INPUT_ROLE@ {
            match c.input {
                Some(input) => Some(input@),
                None => None,
            }
        } else {
            None
        },
        _ => None,
    }
}

/// The identifier of a message entry.
pub open spec fn message_id(e: SessionTreeEntry) -> Option<Seq<char>> {
    match e {
        SessionTreeEntry::Message { id, .. } => Some(id@),
        _ => None,
    }
}

/// The position of the first message entry at or after `from`.
pub open spec fn next_message(entries: Seq<SessionTreeEntry>, from: int) -> Option<int>
    decreases entries.len() - from,
{
    if from < 0 || from >= entries.len() {
        None
    } else if entries[from] is Message {
        Some(from)
    } else {
        next_message(entries, from + 1)
    }
}

/// The identifier of the user message that a record before `from` describes: the first
/// message entry at or after `from`, where that is a user message.
pub open spec fn described_id(entries: Seq<SessionTreeEntry>, from: int) -> Option<Seq<char>> {
    match next_message(entries, from) {
        Some(i) => if is_user_message(entries[i]) {
            message_id(entries[i])
        } else {
            None
        },
        None => None,
    }
}

/// The records of the first `n` entries, by the identifiers of the messages that they
/// describe; of several records for one message the last counts.
pub open spec fn pairs(entries: Seq<SessionTreeEntry>, n: int) -> Map<Seq<char>, UserInputView>
    decreases n,
{
    if n <= 0 || n > entries.len() {
        Map::empty()
    } else {
        match (record_in(entries[n - 1]), described_id(entries, n)) {
            (Some(record), Some(id)) => pairs(entries, n - 1).insert(id, record),
            _ => pairs(entries, n - 1),
        }
    }
}

/// A record and the identifier of the message that it describes.
#[derive(Debug)]
pub struct PairedInput {
    pub id: String,
    pub input: UserInput,
}

/// The map that a list of pairs stands for; a later pair counts before an earlier one of
/// the same identifier.
pub open spec fn pairing(v: Seq<PairedInput>) -> Map<Seq<char>, UserInputView>
    decreases v.len(),
{
    if v.len() == 0 {
        Map::empty()
    } else {
        pairing(v.drop_last()).insert(v.last().id@, v.last().input@)
    }
}

/// Whether an entry is a record of user input, readable or not.
pub fn is_user_input_record(entry: &SessionTreeEntry) -> (r: bool)
    ensures
        r == is_record(*entry),
{
    match entry {
        SessionTreeEntry::Message { message: AgentMessage::Custom(c), .. } => c.role.as_str().eq(
            USER_INPUT_ROLE,
        ),
        _ => false,
    }
}

fn user_input_record(entry: &SessionTreeEntry) -> (r: Option<&UserInput>)
    ensures
        r matches Some(input) ==> record_in(*entry) == Some(input@),
        r is None ==> record_in(*entry) is None,
{
    match entry {
        SessionTreeEntry::Message { message: AgentMessage::Custom(c), .. } => {
            if c.role.as_str().eq(USER_INPUT_ROLE) {
                match &c.input {
                    Some(input) => Some(input),
                    None => None,
                }
            } else {
                None
            }
        },
        _ => None,
    }
}

fn paired_user_message_id(entries: &Vec<SessionTreeEntry>, from: usize) -> (r: Option<&String>)
    requires
        from <= entries@.len(),
    ensures
        r matches Some(id) ==> described_id(entries@, from as int) == Some(id@),
        r is None ==> described_id(entries@, from as int) is None,
{
    let mut i: usize = from;
    while i < entries.len()
        invariant
            from <= i <= entries@.len(),
            next_message(entries@, from as int) == next_message(entries@, i as int),
        decreases entries@.len() - i,
    {
        match &entries[i] {
            SessionTreeEntry::Message { id, message, .. } => {
                return match message {
                    AgentMessage::Llm(LlmMessage::User(_)) => Some(id),
                    _ => None,
                };
            },
            _ => {},
        }
        i += 1;
    }
    None
}

/// The records of a branch, paired with the messages that they describe.
pub fn paired_user_inputs(entries: &Vec<SessionTreeEntry>) -> (r: Vec<PairedInput>)
    ensures
        pairing(r@) == pairs(entries@, entries@.len() as int),
{
    let mut r: Vec<PairedInput> = Vec::new();
    let mut i: usize = 0;
    while i < entries.len()
        invariant
            i <= entries@.len(),
            pairing(r@) == pairs(entries@, i as int),
        decreases entries@.len() - i,
    {
        let ghost before = r@;
        if let Some(record) = user_input_record(&entries[i]) {
            if let Some(id) = paired_user_message_id(entries, i + 1) {
                r.push(PairedInput { id: id.clone(), input: record.copy() });
                assert(r@.drop_last() =~= before);
            }
        }
        i += 1;
    }
    r
}

fn paired_input<'a>(paired: &'a Vec<PairedInput>, id: &str) -> (r: Option<&'a UserInput>)
    ensures
        r matches Some(input) ==> pairing(paired@).contains_key(id@) && pairing(paired@)[id@]
            == input@,
        r is None ==> !pairing(paired@).contains_key(id@),
{
    let mut i: usize = paired.len();
    assert(paired@.take(i as int) =~= paired@);
    while i > 0
        invariant
            i <= paired@.len(),
            pairing(paired@).contains_key(id@) == pairing(paired@.take(i as int)).contains_key(id@),
            pairing(paired@.take(i as int)).contains_key(id@) ==> pairing(paired@)[id@] == pairing(
                paired@.take(i as int),
            )[id@],
        decreases i,
    {
        assert(paired@.take(i as int).drop_last() =~= paired@.take(i - 1));
        i -= 1;
        if paired[i].id.as_str().eq(id) {
            return Some(&paired[i].input);
        }
    }
    None
}

/// One item of the transcript that a feed replays.
#[derive(Debug)]
pub enum TranscriptItem {
    /// A record; a message that follows it at once is not rendered itself.
    UserInput(UserInput),
    /// The message of the entry at this position.
    Message(usize),
}

/// The content of a `TranscriptItem`.
pub enum ItemView {
    UserInput(UserInputView),
    Message(int),
}

impl View for TranscriptItem {
    type V = ItemView;

    open spec fn view(&self) -> ItemView {
        match *self {
            TranscriptItem::UserInput(input) => ItemView::UserInput(input@),
            TranscriptItem::Message(i) => ItemView::Message(i as int),
        }
    }
}

pub open spec fn item_views(v: Seq<TranscriptItem>) -> Seq<ItemView> {
    Seq::new(v.len(), |i: int| v[i]@)
}

/// Whether the record at a position is rendered by a message of the same entries.
pub open spec fn rendered_by_message(
    entries: Seq<SessionTreeEntry>,
    at: int,
    paired: Map<Seq<char>, UserInputView>,
) -> bool {
    described_id(entries, at + 1) matches Some(id) && paired.contains_key(id)
}

/// What the entry at a position contributes: a paired message its record and itself, a
/// record nothing where its message renders it and itself otherwise, any other model message
/// itself, and everything else nothing.
pub open spec fn items_of(
    entries: Seq<SessionTreeEntry>,
    paired: Map<Seq<char>, UserInputView>,
    at: int,
) -> Seq<ItemView> {
    match entries[at] {
        SessionTreeEntry::Message { id, message, .. } => if paired.contains_key(id@) {
            if message is Llm {
                seq![ItemView::UserInput(paired[id@]), ItemView::Message(at)]
            } else {
                Seq::empty()
            }
        } else {
            match record_in(entries[at]) {
                Some(record) => if rendered_by_message(entries, at, paired) {
                    Seq::empty()
                } else {
                    seq![ItemView::UserInput(record)]
                },
                None => if message is Llm {
                    seq![ItemView::Message(at)]
                } else {
                    Seq::empty()
                },
            }
        },
        _ => Seq::empty(),
    }
}

/// What the first `n` entries contribute, in order.
pub open spec fn items_upto(
    entries: Seq<SessionTreeEntry>,
    paired: Map<Seq<char>, UserInputView>,
    n: int,
) -> Seq<ItemView>
    decreases n,
{
    if n <= 0 || n > entries.len() {
        Seq::empty()
    } else {
        items_upto(entries, paired, n - 1) + items_of(entries, paired, n - 1)
    }
}

/// The transcript items of a slice of entries, with the pairing of the whole branch.
pub fn entries_wire_blocks(entries: &Vec<SessionTreeEntry>, paired: &Vec<PairedInput>) -> (r: Vec<
    TranscriptItem,
>)
    ensures
        item_views(r@) == items_upto(entries@, pairing(paired@), entries@.len() as int),
{
    let mut r: Vec<TranscriptItem> = Vec::new();
    let mut i: usize = 0;
    assert(item_views(r@) =~= Seq::empty());
    while i < entries.len()
        invariant
            i <= entries@.len(),
            item_views(r@) == items_upto(entries@, pairing(paired@), i as int),
        decreases entries@.len() - i,
    {
        let ghost before = r@;
        match &entries[i] {
            SessionTreeEntry::Message { id, message, .. } => {
                let shown = match message {
                    AgentMessage::Llm(_) => true,
                    _ => false,
                };
                match paired_input(paired, id.as_str()) {
                    Some(record) => {
                        if shown {
                            r.push(TranscriptItem::UserInput(record.copy()));
                            r.push(TranscriptItem::Message(i));
                        }
                    },
                    None => match user_input_record(&entries[i]) {
                        Some(record) => {
                            let rendered = match paired_user_message_id(entries, i + 1) {
                                Some(id) => paired_input(paired, id.as_str()).is_some(),
                                None => false,
                            };
                            if !rendered {
                                r.push(TranscriptItem::UserInput(record.copy()));
                            }
                        },
                        None => {
                            if shown {
                                r.push(TranscriptItem::Message(i));
                            }
                        },
                    },
                }
            },
            _ => {},
        }
        assert(item_views(r@) =~= item_views(before) + items_of(
            entries@,
            pairing(paired@),
            i as int,
        ));
        i += 1;
    }
    r
}

/// The transcript items of a whole branch.
pub fn replay_transcript(entries: &Vec<SessionTreeEntry>) -> (r: Vec<TranscriptItem>)
    ensures
        item_views(r@) == items_upto(
            entries@,
            pairs(entries@, entries@.len() as int),
            entries@.len() as int,
        ),
{
    let paired = paired_user_inputs(entries);
    entries_wire_blocks(entries, &paired)
}

/// The transcript items of a single entry that is read on its own: none for a record, which
/// renders through the message that it describes.
pub fn session_tree_entry_wire_blocks(entry: SessionTreeEntry) -> (r: Option<Vec<TranscriptItem>>)
    ensures
        ({
            let items = items_of(seq![entry], Map::empty(), 0);
            if is_record(entry) || items.len() == 0 {
                r is None
            } else {
                r matches Some(v) && item_views(v@) == items
            }
        }),
{
    if is_user_input_record(&entry) {
        return None;
    }
    let ghost e = entry;
    let entries: Vec<SessionTreeEntry> = vec![entry];
    let none: Vec<PairedInput> = Vec::new();
    let items = entries_wire_blocks(&entries, &none);
    proof {
        assert(entries@ =~= seq![e]);
        assert(pairing(none@) =~= Map::empty());
        assert(items_upto(entries@, Map::empty(), 0) + items_of(entries@, Map::empty(), 0)
            =~= items_of(entries@, Map::empty(), 0));
        assert(items_upto(entries@, Map::empty(), 1) == items_upto(entries@, Map::empty(), 0)
            + items_of(entries@, Map::empty(), 0));
        assert(item_views(items@).len() == items@.len());
    }
    if items.len() == 0 {
        None
    } else {
        Some(items)
    }
}

/// The entries that stand for a list of messages: each under an identifier made from its
/// position.
pub fn message_entries(messages: Vec<AgentMessage>) -> (r: Vec<SessionTreeEntry>)
    ensures
        r@.len() == messages@.len(),
        forall|i: int|
            0 <= i < r@.len() ==> ((#[trigger] r@[i]) matches SessionTreeEntry::Message {
                id,
                parent_id,
                message,
            } && id@ == "transcript-"@ + digits(i as nat) && parent_id is None && message
                == messages@[i]),
{
    let ghost all = messages@;
    let mut r: Vec<SessionTreeEntry> = Vec::new();
    let mut rest = messages;
    let len: usize = rest.len();
    let mut i: usize = 0;
    while i < len
        invariant
            i <= len == all.len(),
            rest@ == all.skip(i as int),
            r@.len() == i,
            forall|j: int|
                0 <= j < r@.len() ==> ((#[trigger] r@[j]) matches SessionTreeEntry::Message {
                    id,
                    parent_id,
                    message,
                } && id@ == "transcript-"@ + digits(j as nat) && parent_id is None && message
                    == all[j]),
        decreases len - i,
    {
        let message = rest.remove(0);
        let mut id = owned("transcript-");
        id.push_str(decimal_size(i).as_str());
        r.push(SessionTreeEntry::Message { id, parent_id: None, message });
        i += 1;
        assert(rest@ =~= all.skip(i as int));
    }
    r
}

// Laws.

proof fn lemma_pairs_grow(entries: Seq<SessionTreeEntry>, n: int, m: int, id: Seq<char>)
    requires
        0 <= n <= m <= entries.len(),
        pairs(entries, n).contains_key(id),
    ensures
        pairs(entries, m).contains_key(id),
    decreases m - n,
{
    if n < m {
        lemma_pairs_grow(entries, n, m - 1, id);
    }
}

/// In a branch that is read with its own pairing, a readable record that a user message
/// follows is rendered by that message and nowhere else: the pair makes one user block, with
/// a record in front of its message.
pub proof fn law_record_and_message_render_once(entries: Seq<SessionTreeEntry>, at: int)
    requires
        0 <= at < entries.len(),
        record_in(entries[at]) is Some,
        described_id(entries, at + 1) is Some,
    ensures
        ({
            let paired = pairs(entries, entries.len() as int);
            let id = described_id(entries, at + 1)->0;
            let next = next_message(entries, at + 1)->0;
            &&& paired.contains_key(id)
            &&& items_of(entries, paired, at).len() == 0
            &&& at < next < entries.len()
            &&& items_of(entries, paired, next) == seq![
                ItemView::UserInput(paired[id]),
                ItemView::Message(next),
            ]
        }),
{
    let n = entries.len() as int;
    let paired = pairs(entries, n);
    let id = described_id(entries, at + 1)->0;
    lemma_pairs_grow(entries, at + 1, n, id);
    lemma_next_message(entries, at + 1);
    let next = next_message(entries, at + 1)->0;
    assert(is_user_message(entries[next]));
    assert(items_of(entries, paired, next) =~= seq![
        ItemView::UserInput(paired[id]),
        ItemView::Message(next),
    ]);
}

proof fn lemma_next_message(entries: Seq<SessionTreeEntry>, from: int)
    requires
        0 <= from,
    ensures
        next_message(entries, from) matches Some(i) ==> from <= i < entries.len() && entries[i]
            is Message,
    decreases entries.len() - from,
{
    if from < entries.len() && !(entries[from] is Message) {
        lemma_next_message(entries, from + 1);
    }
}

/// A message whose record is in the pairing renders the record, wherever a page begins.
pub proof fn law_page_renders_the_record_of_an_earlier_page(
    page: Seq<SessionTreeEntry>,
    paired: Map<Seq<char>, UserInputView>,
    at: int,
)
    requires
        0 <= at < page.len(),
        is_user_message(page[at]),
        paired.contains_key(message_id(page[at])->0),
    ensures
        items_of(page, paired, at) == seq![
            ItemView::UserInput(paired[message_id(page[at])->0]),
            ItemView::Message(at),
        ],
{
}

/// An item with its position counted from another start.
pub open spec fn shifted(item: ItemView, by: int) -> ItemView {
    match item {
        ItemView::UserInput(r) => ItemView::UserInput(r),
        ItemView::Message(i) => ItemView::Message(i + by),
    }
}

pub open spec fn shifted_items(items: Seq<ItemView>, by: int) -> Seq<ItemView> {
    Seq::new(items.len(), |i: int| shifted(items[i], by))
}

proof fn lemma_next_message_prefix(a: Seq<SessionTreeEntry>, b: Seq<SessionTreeEntry>, from: int)
    requires
        0 <= from,
        next_message(a, from) is Some,
    ensures
        next_message(a + b, from) == next_message(a, from),
    decreases a.len() - from,
{
    assert((a + b)[from] == a[from]);
    if !(a[from] is Message) {
        lemma_next_message_prefix(a, b, from + 1);
    }
}

proof fn lemma_next_message_suffix(a: Seq<SessionTreeEntry>, b: Seq<SessionTreeEntry>, from: int)
    requires
        0 <= from,
    ensures
        next_message(a + b, a.len() + from) == (match next_message(b, from) {
            Some(i) => Some(a.len() + i),
            None => None,
        }),
    decreases b.len() - from,
{
    if from < b.len() {
        assert((a + b)[a.len() + from] == b[from]);
        if !(b[from] is Message) {
            lemma_next_message_suffix(a, b, from + 1);
        }
    }
}

proof fn lemma_items_prefix(
    a: Seq<SessionTreeEntry>,
    b: Seq<SessionTreeEntry>,
    paired: Map<Seq<char>, UserInputView>,
    n: int,
)
    requires
        0 <= n <= a.len(),
        forall|i: int|
            0 <= i < a.len() && record_in(#[trigger] a[i]) is Some ==> next_message(a, i + 1)
                is Some,
    ensures
        items_upto(a + b, paired, n) == items_upto(a, paired, n),
    decreases n,
{
    if n > 0 {
        lemma_items_prefix(a, b, paired, n - 1);
        assert((a + b)[n - 1] == a[n - 1]);
        if record_in(a[n - 1]) is Some {
            lemma_next_message_prefix(a, b, n);
            lemma_next_message(a, n);
            let k = next_message(a, n)->0;
            assert((a + b)[k] == a[k]);
        }
    }
}

proof fn lemma_items_suffix(
    a: Seq<SessionTreeEntry>,
    b: Seq<SessionTreeEntry>,
    paired: Map<Seq<char>, UserInputView>,
    n: int,
)
    requires
        0 <= n <= b.len(),
    ensures
        items_upto(a + b, paired, a.len() + n) == items_upto(a + b, paired, a.len() as int)
            + shifted_items(items_upto(b, paired, n), a.len() as int),
    decreases n,
{
    let len = a.len() as int;
    if n > 0 {
        lemma_items_suffix(a, b, paired, n - 1);
        assert((a + b)[len + n - 1] == b[n - 1]);
        lemma_next_message_suffix(a, b, n);
        if let Some(k) = next_message(b, n) {
            lemma_next_message(b, n);
            assert((a + b)[len + k] == b[k]);
        }
        assert(rendered_by_message(a + b, len + n - 1, paired) == rendered_by_message(
            b,
            n - 1,
            paired,
        ));
        let of_ab = items_of(a + b, paired, len + n - 1);
        let of_b = items_of(b, paired, n - 1);
        assert(of_ab =~= shifted_items(of_b, len));
        assert(shifted_items(items_upto(b, paired, n - 1), len) + shifted_items(of_b, len)
            =~= shifted_items(items_upto(b, paired, n - 1) + of_b, len));
        let head = items_upto(a + b, paired, len);
        let mid = shifted_items(items_upto(b, paired, n - 1), len);
        assert((head + mid) + of_ab =~= head + (mid + of_ab));
    } else {
        assert(items_upto(a + b, paired, len) + shifted_items(items_upto(b, paired, 0), len)
            =~= items_upto(a + b, paired, len));
    }
}

/// A branch that is cut into two pages shows what the pages show one after the other,
/// wherever the cut does not part a record from the message after it.
pub proof fn law_pages_compose(
    a: Seq<SessionTreeEntry>,
    b: Seq<SessionTreeEntry>,
    paired: Map<Seq<char>, UserInputView>,
)
    requires
        forall|i: int|
            0 <= i < a.len() && record_in(#[trigger] a[i]) is Some ==> next_message(a, i + 1)
                is Some,
    ensures
        items_upto(a + b, paired, (a + b).len() as int) == items_upto(a, paired, a.len() as int)
            + shifted_items(items_upto(b, paired, b.len() as int), a.len() as int),
{
    lemma_items_prefix(a, b, paired, a.len() as int);
    lemma_items_suffix(a, b, paired, b.len() as int);
}

proof fn lemma_next_message_is(entries: Seq<SessionTreeEntry>, from: int, next: int)
    requires
        0 <= from <= next < entries.len(),
        entries[next] is Message,
        forall|k: int| from <= k < next ==> !((#[trigger] entries[k]) is Message),
    ensures
        next_message(entries, from) == Some(next),
    decreases next - from,
{
    if from < next {
        assert(!(entries[from] is Message));
        lemma_next_message_is(entries, from + 1, next);
    }
}

proof fn lemma_no_message_between(entries: Seq<SessionTreeEntry>, from: int)
    requires
        0 <= from,
    ensures
        match next_message(entries, from) {
            Some(i) => {
                &&& from <= i < entries.len()
                &&& entries[i] is Message
                &&& forall|k: int| from <= k < i ==> !((#[trigger] entries[k]) is Message)
            },
            None => forall|k: int|
                from <= k < entries.len() ==> !((#[trigger] entries[k]) is Message),
        },
    decreases entries.len() - from,
{
    if from < entries.len() && !(entries[from] is Message) {
        lemma_no_message_between(entries, from + 1);
    }
}

/// The message that a record describes is the first message entry behind it: no other stands
/// between the two.
pub proof fn law_records_describe_the_next_message(
    entries: Seq<SessionTreeEntry>,
    from: int,
    next: int,
)
    requires
        0 <= from,
    ensures
        next_message(entries, from) == Some(next) <==> {
            &&& from <= next < entries.len()
            &&& entries[next] is Message
            &&& forall|k: int| from <= k < next ==> !((#[trigger] entries[k]) is Message)
        },
        described_id(entries, from) is Some ==> {
            let i = next_message(entries, from)->0;
            &&& entries[i] matches SessionTreeEntry::Message {
                id,
                message: AgentMessage::Llm(LlmMessage::User(_)),
                ..
            }
            &&& described_id(entries, from) == Some(id@)
        },
{
    lemma_no_message_between(entries, from);
    if from <= next < entries.len() && entries[next] is Message && (forall|k: int|
        from <= k < next ==> !((#[trigger] entries[k]) is Message)) {
        lemma_next_message_is(entries, from, next);
    }
}

proof fn lemma_pairs_come_from_records(entries: Seq<SessionTreeEntry>, n: int, id: Seq<char>)
    requires
        0 <= n <= entries.len(),
        pairs(entries, n).contains_key(id),
    ensures
        exists|b: int|
            0 <= b < n && record_in(#[trigger] entries[b]) == Some(pairs(entries, n)[id])
                && described_id(entries, b + 1) == Some(id),
    decreases n,
{
    if n > 0 {
        let record = record_in(entries[n - 1]);
        if record is Some && described_id(entries, n) == Some(id) {
            assert(pairs(entries, n)[id] == record->0);
        } else {
            lemma_pairs_come_from_records(entries, n - 1, id);
            assert(pairs(entries, n)[id] == pairs(entries, n - 1)[id]);
        }
    }
}

/// Every message that is shown with a record has that record in the branch, with no message
/// between the two.
pub proof fn law_shown_records_describe_their_message(
    entries: Seq<SessionTreeEntry>,
    id: Seq<char>,
)
    requires
        pairs(entries, entries.len() as int).contains_key(id),
    ensures
        exists|b: int, next: int|
            #![trigger entries[b], entries[next]]
            {
                &&& 0 <= b < next < entries.len()
                &&& entries[b] matches SessionTreeEntry::Message {
                    message: AgentMessage::Custom(c),
                    ..
                }
                &&& c.role@ == USER_INPUT_ROLE@
                &&& c.input is Some
                &&& c.input->0@ == pairs(entries, entries.len() as int)[id]
                &&& entries[next] matches SessionTreeEntry::Message {
                    id: i,
                    message: AgentMessage::Llm(LlmMessage::User(_)),
                    ..
                }
                &&& i@ == id
                &&& forall|k: int| b < k < next ==> !((#[trigger] entries[k]) is Message)
            },
{
    let n = entries.len() as int;
    lemma_pairs_come_from_records(entries, n, id);
    let b = choose|b: int|
        0 <= b < n && record_in(#[trigger] entries[b]) == Some(pairs(entries, n)[id])
            && described_id(entries, b + 1) == Some(id);
    lemma_no_message_between(entries, b + 1);
    let next = next_message(entries, b + 1)->0;
    assert(entries[next] is Message);
    assert(entries[b] is Message);
}

/// A message is shown with the record of its own round: the text and the attachments are those
/// of the record that stands before it with no message between, whatever other rounds the
/// branch holds.
pub proof fn law_messages_show_their_own_record(
    entries: Seq<SessionTreeEntry>,
    at: int,
    next: int,
    input: UserInput,
    id: String,
)
    requires
        0 <= at < next < entries.len(),
        entries[at] matches SessionTreeEntry::Message { message: AgentMessage::Custom(c), .. }
            && c.role@ == USER_INPUT_ROLE@ && c.input == Some(input),
        entries[next] matches SessionTreeEntry::Message {
            id: i,
            message: AgentMessage::Llm(LlmMessage::User(_)),
            ..
        } && i == id,
        forall|k: int| at < k < next ==> !((#[trigger] entries[k]) is Message),
        forall|i: int, j: int|
            #![trigger entries[i], entries[j]]
            0 <= i < j < entries.len() && entries[i] is Message && entries[j] is Message
                ==> message_id(entries[i]) != message_id(entries[j]),
    ensures
        ({
            let paired = pairs(entries, entries.len() as int);
            &&& paired.contains_key(id@)
            &&& paired[id@] == input@
            &&& items_of(entries, paired, at).len() == 0
            &&& items_of(entries, paired, next) == seq![
                ItemView::UserInput(input@),
                ItemView::Message(next),
            ]
        }),
{
    let n = entries.len() as int;
    lemma_next_message_is(entries, at + 1, next);
    law_record_and_message_render_once(entries, at);
    lemma_pairs_come_from_records(entries, n, id@);
    let b = choose|b: int|
        0 <= b < n && record_in(#[trigger] entries[b]) == Some(pairs(entries, n)[id@])
            && described_id(entries, b + 1) == Some(id@);
    lemma_no_message_between(entries, b + 1);
    let m = next_message(entries, b + 1)->0;
    assert(entries[m] is Message && entries[b] is Message && entries[at] is Message);
    assert(message_id(entries[m]) == Some(id@));
    if m < next {
        assert(message_id(entries[m]) != message_id(entries[next]));
    } else if next < m {
        assert(message_id(entries[next]) != message_id(entries[m]));
    }
    assert(m == next);
    if b < at {
        assert(b + 1 <= at < m);
    } else if at < b {
        assert(at < b < next);
    }
    assert(b == at);
}

/// A message that no readable record describes is shown by itself: a user message behind
/// another message, and every other message that the model sees.
pub proof fn law_messages_without_a_record_stand_alone(
    entries: Seq<SessionTreeEntry>,
    at: int,
    id: String,
    message: LlmMessage,
)
    requires
        0 <= at < entries.len(),
        entries[at] matches SessionTreeEntry::Message { id: i, message: AgentMessage::Llm(m), .. }
            && i == id && m == message,
        !(message is User) || forall|b: int|
            0 <= b < at && record_in(#[trigger] entries[b]) is Some ==> exists|k: int|
                b < k < at && (#[trigger] entries[k]) is Message,
        forall|i: int, j: int|
            #![trigger entries[i], entries[j]]
            0 <= i < j < entries.len() && entries[i] is Message && entries[j] is Message
                ==> message_id(entries[i]) != message_id(entries[j]),
    ensures
        items_of(entries, pairs(entries, entries.len() as int), at) == seq![ItemView::Message(at)],
{
    let n = entries.len() as int;
    let paired = pairs(entries, n);
    if paired.contains_key(id@) {
        lemma_pairs_come_from_records(entries, n, id@);
        let b = choose|b: int|
            0 <= b < n && record_in(#[trigger] entries[b]) == Some(pairs(entries, n)[id@])
                && described_id(entries, b + 1) == Some(id@);
        lemma_no_message_between(entries, b + 1);
        let m = next_message(entries, b + 1)->0;
        assert(entries[m] is Message && entries[at] is Message);
        assert(message_id(entries[m]) == Some(id@));
        if m < at {
            assert(message_id(entries[m]) != message_id(entries[at]));
        } else if at < m {
            assert(message_id(entries[at]) != message_id(entries[m]));
        }
        assert(m == at);
        assert(is_user_message(entries[at]));
        assert(b < at && record_in(entries[b]) is Some);
        let k = choose|k: int| b < k < at && (#[trigger] entries[k]) is Message;
        assert(!(entries[k] is Message));
    }
    assert(record_in(entries[at]) is None);
}

/// A record that no message renders is shown by itself, and nothing is shown of entries that
/// are no messages.
pub proof fn law_lone_records_are_shown(
    entries: Seq<SessionTreeEntry>,
    paired: Map<Seq<char>, UserInputView>,
    at: int,
)
    requires
        0 <= at < entries.len(),
    ensures
        !(entries[at] is Message) ==> items_of(entries, paired, at).len() == 0,
        (entries[at] matches SessionTreeEntry::Message { id, message: AgentMessage::Custom(c), .. }
            && !paired.contains_key(id@) && c.role@ == USER_INPUT_ROLE@ && c.input is Some && (
        forall|k: int| at < k < entries.len() ==> !((#[trigger] entries[k]) is Message))) ==> (
        entries[at] matches SessionTreeEntry::Message { message: AgentMessage::Custom(c), .. }
            && items_of(entries, paired, at) == seq![ItemView::UserInput(c.input->0@)]),
        (entries[at] matches SessionTreeEntry::Message { id, message: AgentMessage::Custom(c), .. }
            && (c.role@ != USER_INPUT_ROLE@ || c.input is None)) ==> items_of(
            entries,
            paired,
            at,
        ).len() == 0,
{
    lemma_no_message_between(entries, at + 1);
}

proof fn lemma_messages_shown(
    entries: Seq<SessionTreeEntry>,
    paired: Map<Seq<char>, UserInputView>,
    n: int,
)
    requires
        0 <= n <= entries.len(),
    ensures
        forall|k: int|
            #[trigger] items_upto(entries, paired, n).contains(ItemView::Message(k)) <==> 0 <= k < n
                && is_model_message(entries[k]),
        forall|i: int, j: int|
            #![trigger items_upto(entries, paired, n)[i], items_upto(entries, paired, n)[j]]
            0 <= i < j < items_upto(entries, paired, n).len() ==> items_in_order(
                items_upto(entries, paired, n)[i],
                items_upto(entries, paired, n)[j],
            ),
    decreases n,
{
    if n > 0 {
        lemma_messages_shown(entries, paired, n - 1);
        let before = items_upto(entries, paired, n - 1);
        let of = items_of(entries, paired, n - 1);
        let all = items_upto(entries, paired, n);
        assert(all == before + of);
        assert forall|k: int| #[trigger]
            all.contains(ItemView::Message(k)) <==> 0 <= k < n && is_model_message(entries[k]) by {
            let item = ItemView::Message(k);
            if before.contains(item) {
                let i = choose|i: int| 0 <= i < before.len() && before[i] == item;
                assert(all[i] == item);
            }
            if k == n - 1 && is_model_message(entries[k]) {
                assert(of[of.len() - 1] == item);
                assert(all[all.len() - 1] == item);
            }
            if all.contains(item) {
                let i = choose|i: int| 0 <= i < all.len() && all[i] == item;
                if i < before.len() {
                    assert(before[i] == item);
                } else {
                    assert(of[i - before.len()] == item);
                }
            }
        }
        assert forall|i: int, j: int|
            #![trigger all[i], all[j]]
            0 <= i < j < all.len() implies items_in_order(all[i], all[j]) by {
            if j < before.len() {
                assert(before[i] == all[i] && before[j] == all[j]);
            } else {
                assert(of[j - before.len()] == all[j]);
                if i < before.len() {
                    assert(before[i] == all[i]);
                    if let ItemView::Message(k) = all[i] {
                        assert(before.contains(ItemView::Message(k)));
                    }
                } else {
                    assert(of[i - before.len()] == all[i]);
                }
            }
        }
    }
}

/// Whether an entry holds a message that the model sees.
pub open spec fn is_model_message(e: SessionTreeEntry) -> bool {
    e matches SessionTreeEntry::Message { message: AgentMessage::Llm(_), .. }
}

/// Whether two items are in the order of their messages, where both are messages.
pub open spec fn items_in_order(a: ItemView, b: ItemView) -> bool {
    match (a, b) {
        (ItemView::Message(i), ItemView::Message(j)) => i < j,
        _ => true,
    }
}

/// Every message that the model sees is in the transcript, once and in the order of the branch,
/// and nothing else is there as a message.
pub proof fn law_every_message_is_replayed_in_order(
    entries: Seq<SessionTreeEntry>,
    paired: Map<Seq<char>, UserInputView>,
)
    ensures
        ({
            let items = items_upto(entries, paired, entries.len() as int);
            &&& forall|k: int|
                #[trigger] items.contains(ItemView::Message(k)) <==> 0 <= k < entries.len()
                    && is_model_message(entries[k])
            &&& forall|i: int, j: int|
                #![trigger items[i], items[j]]
                0 <= i < j < items.len() ==> items_in_order(items[i], items[j])
        }),
{
    lemma_messages_shown(entries, paired, entries.len() as int);
}

/// What an entry adds stands behind what the entries before it add.
pub proof fn law_entries_add_to_the_transcript(
    entries: Seq<SessionTreeEntry>,
    paired: Map<Seq<char>, UserInputView>,
    n: int,
)
    requires
        0 <= n < entries.len(),
    ensures
        items_upto(entries, paired, 0).len() == 0,
        items_upto(entries, paired, n + 1) == items_upto(entries, paired, n) + items_of(
            entries,
            paired,
            n,
        ),
{
}

/// Of the pairs of a list the newest counts, and a pair changes nothing for other messages.
pub proof fn law_newest_pair_counts(v: Seq<PairedInput>, p: PairedInput, other: Seq<char>)
    ensures
        pairing(v.push(p)).contains_key(p.id@),
        pairing(v.push(p))[p.id@] == p.input@,
        other != p.id@ ==> pairing(v.push(p)).contains_key(other) == pairing(v).contains_key(other),
        other != p.id@ && pairing(v).contains_key(other) ==> pairing(v.push(p))[other] == pairing(
            v,
        )[other],
        !pairing(Seq::empty()).contains_key(other),
{
    assert(v.push(p).drop_last() =~= v);
}

/// An item shows the input or the position that it holds.
pub proof fn law_items_show_what_they_hold(item: TranscriptItem)
    ensures
        item matches TranscriptItem::UserInput(input) ==> item@ == ItemView::UserInput(input@),
        item matches TranscriptItem::Message(i) ==> item@ == ItemView::Message(i as int),
{
}

} // verus!
