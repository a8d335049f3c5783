use vstd::prelude::*;

use crate::error::MyError;
use crate::event::{ChatRole, ConversationEvent, ConversationEventRecord, EventKind, EventType};
use crate::fresh::{first_free, lemma_probes_fit, next_candidate, probe};
use crate::ids::{now_millis, random_id};
use crate::payloads::ConversationMessagePayload;
use vstd::std_specs::convert::IntoSpec;

verus! {

/// The title of a conversation that was never renamed.
pub const DEFAULT_CONVERSATION_TITLE: &'static str = "Untitled Conversation";

/// What a conversation is: its id and its log.
pub struct ConversationView {
    pub id: u128,
    pub history: Seq<ConversationEventRecord>,
}

/// The ids of the records of a log.
pub open spec fn record_ids(h: Seq<ConversationEventRecord>) -> Set<u128> {
    h.map_values(|r: ConversationEventRecord| r.id).to_set()
}

/// No two records of the log share an id.
pub open spec fn record_ids_distinct(h: Seq<ConversationEventRecord>) -> bool {
    forall|i: int, j: int|
        0 <= i < h.len() && 0 <= j < h.len() && i != j ==> #[trigger] h[i].id != #[trigger] h[j].id
}

impl ConversationView {
    /// Every record belongs to this conversation and record ids are unique.
    pub open spec fn wf(&self) -> bool {
        &&& forall|i: int| 0 <= i < self.history.len() ==> #[trigger] self.history[i].conversation_id == self.id
        &&& record_ids_distinct(self.history)
    }
}

/// Index of the record of `kind` with the greatest timestamp, the later one
/// on a tie; -1 when the log holds no record of `kind`.
pub open spec fn latest_index(h: Seq<ConversationEventRecord>, kind: EventKind) -> int
    decreases h.len(),
{
    if h.len() == 0 {
        -1
    } else {
        let p = latest_index(h.drop_last(), kind);
        let l = h.len() - 1;
        if h[l].event.kind_spec() == kind && (p < 0 || h[p].timestamp <= h[l].timestamp) {
            l
        } else {
            p
        }
    }
}

/// The title derived from a log: that of its latest rename, or the default.
pub open spec fn title_of(h: Seq<ConversationEventRecord>) -> Seq<char> {
    let i = latest_index(h, EventKind::TitleChange);
    if i < 0 {
        DEFAULT_CONVERSATION_TITLE@
    } else {
        match h[i].event {
            ConversationEvent::TitleChange(t) => t.new_title@,
            ConversationEvent::MessageAdded(_) => DEFAULT_CONVERSATION_TITLE@,
        }
    }
}

/// The chat turns of a log, in the order they were appended.
pub open spec fn transcript_of(h: Seq<ConversationEventRecord>) -> Seq<ConversationMessagePayload>
    decreases h.len(),
{
    if h.len() == 0 {
        Seq::empty()
    } else {
        let prev = transcript_of(h.drop_last());
        match h.last().event {
            ConversationEvent::MessageAdded(m) => prev.push(
                ConversationMessagePayload { author: m.author, content: m.content },
            ),
            ConversationEvent::TitleChange(_) => prev,
        }
    }
}

/// The greatest of `now` and every timestamp of the log.
pub open spec fn stamp_after(h: Seq<ConversationEventRecord>, now: i64) -> i64
    decreases h.len(),
{
    if h.len() == 0 {
        now
    } else {
        let p = stamp_after(h.drop_last(), now);
        if h.last().timestamp > p {
            h.last().timestamp
        } else {
            p
        }
    }
}

/// `after` is `before` with one more record at the end, holding `event`,
/// stamped no earlier than any record before it, with an id of its own.
pub open spec fn appended(before: ConversationView, after: ConversationView, event: ConversationEvent) -> bool {
    let n = before.history.len();
    &&& after.id == before.id
    &&& after.history.len() == n + 1
    &&& after.history.take(n as int) == before.history
    &&& after.history[n as int].conversation_id == before.id
    &&& after.history[n as int].event == event
    &&& !record_ids(before.history).contains(after.history[n as int].id)
    &&& forall|i: int| 0 <= i < n ==> #[trigger] before.history[i].timestamp <= after.history[n as int].timestamp
}

/// `latest_index` is -1 or the index of a record of `kind`.
pub proof fn lemma_latest_index_range(h: Seq<ConversationEventRecord>, kind: EventKind)
    ensures
        -1 <= latest_index(h, kind) < h.len(),
        latest_index(h, kind) >= 0 ==> h[latest_index(h, kind)].event.kind_spec() == kind,
    decreases h.len(),
{
    if h.len() > 0 {
        lemma_latest_index_range(h.drop_last(), kind);
    }
}

/// `latest_index` picks, among the records of `kind`, one with the greatest
/// timestamp and, among those, the last appended; it is -1 exactly when the
/// log holds no record of `kind`.
pub proof fn lemma_latest_index_is_latest(h: Seq<ConversationEventRecord>, kind: EventKind)
    ensures
        latest_index(h, kind) < 0 <==> forall|j: int| 0 <= j < h.len() ==> (#[trigger] h[j]).event.kind_spec() != kind,
        latest_index(h, kind) >= 0 ==> forall|j: int|
            0 <= j < h.len() && (#[trigger] h[j]).event.kind_spec() == kind ==> h[j].timestamp < h[latest_index(h, kind)].timestamp
                || (h[j].timestamp == h[latest_index(h, kind)].timestamp && j <= latest_index(h, kind)),
    decreases h.len(),
{
    lemma_latest_index_range(h, kind);
    if h.len() > 0 {
        let f = h.drop_last();
        lemma_latest_index_is_latest(f, kind);
        lemma_latest_index_range(f, kind);
        assert forall|j: int| 0 <= j < h.len() - 1 implies #[trigger] h[j] == f[j] by {}
    }
}

/// `stamp_after` is no earlier than `now` nor than any record of the log.
pub proof fn lemma_stamp_after_bounds(h: Seq<ConversationEventRecord>, now: i64)
    ensures
        stamp_after(h, now) >= now,
        forall|i: int| 0 <= i < h.len() ==> #[trigger] h[i].timestamp <= stamp_after(h, now),
    decreases h.len(),
{
    if h.len() > 0 {
        lemma_stamp_after_bounds(h.drop_last(), now);
        assert forall|i: int| 0 <= i < h.len() implies #[trigger] h[i].timestamp <= stamp_after(h, now) by {
            if i < h.len() - 1 {
                assert(h.drop_last()[i] == h[i]);
            }
        }
    }
}

/// What `record_ids` holds, and that it is a finite set no larger than the log.
pub proof fn lemma_record_ids_contains(h: Seq<ConversationEventRecord>, x: u128)
    ensures
        record_ids(h).contains(x) <==> exists|i: int| 0 <= i < h.len() && #[trigger] h[i].id == x,
        record_ids(h).finite(),
        record_ids(h).len() <= h.len(),
{
    let ids = h.map_values(|r: ConversationEventRecord| r.id);
    ids.lemma_cardinality_of_set();
    if record_ids(h).contains(x) {
        let i = choose|i: int| 0 <= i < ids.len() && ids[i] == x;
        assert(h[i].id == x);
    }
    if exists|i: int| 0 <= i < h.len() && #[trigger] h[i].id == x {
        let i = choose|i: int| 0 <= i < h.len() && #[trigger] h[i].id == x;
        assert(ids[i] == x);
    }
    vstd::seq_lib::seq_to_set_is_finite(ids);
}

/// Appending a record adds exactly its id to the ids of a log.
pub proof fn lemma_record_ids_push(h: Seq<ConversationEventRecord>, r: ConversationEventRecord)
    ensures
        record_ids(h.push(r)) == record_ids(h).insert(r.id),
{
    let h2 = h.push(r);
    assert forall|x: u128| record_ids(h2).contains(x) <==> record_ids(h).insert(r.id).contains(x) by {
        lemma_record_ids_contains(h, x);
        lemma_record_ids_contains(h2, x);
        if exists|i: int| 0 <= i < h.len() && #[trigger] h[i].id == x {
            let i = choose|i: int| 0 <= i < h.len() && #[trigger] h[i].id == x;
            assert(h2[i] == h[i]);
        }
        if exists|i: int| 0 <= i < h2.len() && #[trigger] h2[i].id == x {
            let i = choose|i: int| 0 <= i < h2.len() && #[trigger] h2[i].id == x;
            if i < h.len() {
                assert(h2[i] == h[i]);
            }
        }
        if x == r.id {
            assert(h2[h.len() as int].id == x);
        }
    }
    assert(record_ids(h2) =~= record_ids(h).insert(r.id));
}

/// The empty log uses no id.
pub proof fn lemma_record_ids_empty(h: Seq<ConversationEventRecord>)
    requires
        h.len() == 0,
    ensures
        record_ids(h) == Set::<u128>::empty(),
{
    assert forall|x: u128| !record_ids(h).contains(x) by {
        lemma_record_ids_contains(h, x);
    }
    assert(record_ids(h) =~= Set::<u128>::empty());
}

/// A conversation: an id and the append-only log of what happened to it.
#[derive(Debug)]
pub struct Conversation {
    id: u128,
    history: Vec<ConversationEventRecord>,
}

impl View for Conversation {
    type V = ConversationView;

    closed spec fn view(&self) -> ConversationView {
        ConversationView { id: self.id, history: self.history@ }
    }
}

impl Clone for Conversation {
    fn clone(&self) -> (r: Self)
        ensures
            r@ == self@,
    {
        proof {
            use_type_invariant(self);
        }
        let history = self.history.clone();
        assert(history@ =~= self.history@);
        Conversation { id: self.id, history }
    }
}

impl Conversation {
    #[verifier::type_invariant]
    pub(crate) open spec fn inv(&self) -> bool {
        self@.wf()
    }

    /// An empty conversation under the given id.
    pub fn with_id(id: u128) -> (r: Conversation)
        ensures
            r@.id == id,
            r@.history.len() == 0,
    {
        Conversation { id, history: Vec::new() }
    }

    /// An empty conversation under a fresh random version-4 id.
    pub fn new() -> (r: Conversation)
        ensures
            r@.history.len() == 0,
            r@.id & 0xf000_0000_0000_0000_0000u128 == 0x4000_0000_0000_0000_0000u128,
            r@.id & 0xc000_0000_0000_0000u128 == 0x8000_0000_0000_0000u128,
    {
        Conversation::with_id(random_id())
    }

    /// The conversation's id.
    pub fn id(&self) -> (r: u128)
        ensures
            r == self@.id,
    {
        self.id
    }

    /// The conversation's log, oldest record first.
    pub fn history(&self) -> (r: &Vec<ConversationEventRecord>)
        ensures
            r@ == self@.history,
            self@.wf(),
    {
        proof {
            use_type_invariant(self);
        }
        &self.history
    }

    /// Whether some record of the log has the id `x`.
    fn has_record_id(&self, x: u128) -> (r: bool)
        ensures
            r == record_ids(self@.history).contains(x),
    {
        proof {
            lemma_record_ids_contains(self@.history, x);
        }
        let mut i: usize = 0;
        while i < self.history.len()
            invariant
                i <= self.history.len(),
                forall|j: int| 0 <= j < i ==> #[trigger] self.history@[j].id != x,
            decreases self.history.len() - i,
        {
            if self.history[i].id == x {
                proof {
                    lemma_record_ids_contains(self@.history, x);
                    assert(self@.history[i as int].id == x);
                }
                return true;
            }
            i = i + 1;
        }
        false
    }

    /// The first candidate from `drawn` on that no record of the log uses.
    fn fresh_record_id(&self, drawn: u128) -> (r: u128)
        ensures
            exists|k: nat| first_free(drawn, record_ids(self@.history), k) && r == probe(drawn, k),
    {
        let ghost taken = record_ids(self@.history);
        proof {
            lemma_record_ids_contains(self@.history, drawn);
        }
        let n = self.history.len();
        let mut c = drawn;
        let ghost mut k: nat = 0;
        assert(c == probe(drawn, 0));
        while self.has_record_id(c)
            invariant
                taken == record_ids(self@.history),
                taken.finite(),
                taken.len() <= self@.history.len() == n,
                k <= taken.len(),
                c == probe(drawn, k),
                forall|j: nat| j < k ==> taken.contains(#[trigger] probe(drawn, j)),
            decreases taken.len() - k,
        {
            proof {
                assert forall|j: nat| j < k + 1 implies taken.contains(#[trigger] probe(drawn, j)) by {
                    if j == k {
                        assert(taken.contains(c));
                    }
                }
                lemma_probes_fit(drawn, taken, k + 1);
            }
            c = next_candidate(c, Ghost(drawn), Ghost(k));
            proof {
                k = k + 1;
            }
        }
        c
    }

    /// The greatest of `now` and the timestamps of the log.
    fn stamp(&self, now: i64) -> (r: i64)
        ensures
            r == stamp_after(self@.history, now),
    {
        let mut t = now;
        let mut i: usize = 0;
        while i < self.history.len()
            invariant
                i <= self.history.len(),
                t == stamp_after(self.history@.take(i as int), now),
            decreases self.history.len() - i,
        {
            assert(self.history@.take(i + 1).drop_last() =~= self.history@.take(i as int));
            if self.history[i].timestamp > t {
                t = self.history[i].timestamp;
            }
            i = i + 1;
        }
        assert(self.history@.take(i as int) =~= self.history@);
        t
    }

    /// Appends `event` as a new record. Its id is `drawn`, or, where a record
    /// already uses that, the next value up (wrapping) that none uses; its
    /// timestamp is `now`, raised to the latest timestamp of the log so that
    /// the log never runs backwards. Returns the new record.
    pub fn append_with(&mut self, drawn: u128, now: i64, event: ConversationEvent) -> (r: ConversationEventRecord)
        ensures
            final(self)@.id == old(self)@.id,
            final(self)@.history == old(self)@.history.push(r),
            r.conversation_id == old(self)@.id,
            r.event == event,
            r.timestamp == stamp_after(old(self)@.history, now),
            exists|k: nat| first_free(drawn, record_ids(old(self)@.history), k) && r.id == probe(drawn, k),
            !record_ids(old(self)@.history).contains(drawn) ==> r.id == drawn,
            appended(old(self)@, final(self)@, event),
    {
        proof {
            use_type_invariant(&*self);
        }
        let id = self.fresh_record_id(drawn);
        proof {
            let k = choose|k: nat| first_free(drawn, record_ids(self@.history), k) && id == probe(drawn, k);
            if !record_ids(self@.history).contains(drawn) && k > 0 {
                assert(record_ids(self@.history).contains(probe(drawn, 0)));
            }
        }
        let timestamp = self.stamp(now);
        let record = ConversationEventRecord { id, conversation_id: self.id, timestamp, event };
        let r = record.clone();
        proof {
            lemma_stamp_after_bounds(self@.history, now);
            let h = self@.history;
            assert forall|i: int| 0 <= i < h.len() implies #[trigger] h[i].id != id by {
                lemma_record_ids_contains(h, id);
            }
        }
        let mut history: Vec<ConversationEventRecord> = Vec::new();
        std::mem::swap(&mut history, &mut self.history);
        history.push(record);
        std::mem::swap(&mut history, &mut self.history);
        proof {
            let h = old(self)@.history;
            let h2 = self@.history;
            assert(h2.take(h.len() as int) =~= h);
            assert(record_ids_distinct(h2));
        }
        r
    }

    /// Appends `event` as a new record with a fresh id and the current time
    /// (never earlier than the records before it). Returns the new record.
    pub fn add_event<E: Into<ConversationEvent>>(&mut self, event: E) -> (r: ConversationEventRecord)
        ensures
            final(self)@.history == old(self)@.history.push(r),
            r.conversation_id == old(self)@.id,
            E::obeys_into_spec() ==> r.event == event.into_spec(),
            appended(old(self)@, final(self)@, r.event),
    {
        let drawn = random_id();
        let now = now_millis();
        self.append_with(drawn, now, event.into())
    }

    /// The record of `kind` with the greatest timestamp (the later one on a
    /// tie), or `None` when the log holds no record of `kind`.
    pub fn latest_event_of_kind(&self, kind: EventKind) -> (r: Option<&ConversationEventRecord>)
        ensures
            latest_index(self@.history, kind) < 0 ==> r is None,
            latest_index(self@.history, kind) >= 0 ==> r == Some(&self@.history[latest_index(self@.history, kind)]),
            r is None <==> forall|j: int| 0 <= j < self@.history.len() ==> (#[trigger] self@.history[j]).event.kind_spec() != kind,
    {
        let mut best: Option<usize> = None;
        let mut i: usize = 0;
        while i < self.history.len()
            invariant
                i <= self.history.len(),
                match best {
                    None => latest_index(self.history@.take(i as int), kind) == -1,
                    Some(b) => latest_index(self.history@.take(i as int), kind) == b as int,
                },
            decreases self.history.len() - i,
        {
            let ghost prefix = self.history@.take(i + 1);
            assert(prefix.drop_last() =~= self.history@.take(i as int));
            proof {
                lemma_latest_index_range(self.history@.take(i as int), kind);
            }
            if self.history[i].event.kind() == kind {
                match best {
                    None => {
                        best = Some(i);
                    },
                    Some(b) => {
                        if self.history[b].timestamp <= self.history[i].timestamp {
                            best = Some(i);
                        }
                    },
                }
            }
            i = i + 1;
        }
        assert(self.history@.take(i as int) =~= self.history@);
        proof {
            lemma_latest_index_range(self.history@, kind);
            lemma_latest_index_is_latest(self.history@, kind);
        }
        match best {
            None => None,
            Some(b) => Some(&self.history[b]),
        }
    }

    /// The latest record whose event is of type `T` (see [`Self::latest_event_of_kind`]).
    pub fn get_latest_event<T: EventType>(&self) -> (r: Option<&ConversationEventRecord>)
        ensures
            latest_index(self@.history, T::kind_spec()) < 0 ==> r is None,
            latest_index(self@.history, T::kind_spec()) >= 0 ==> r == Some(
                &self@.history[latest_index(self@.history, T::kind_spec())],
            ),
    {
        self.latest_event_of_kind(T::kind())
    }

    /// The title: that of the latest rename, or the default title when the
    /// conversation was never renamed.
    pub fn get_title(&self) -> (r: String)
        ensures
            r@ == title_of(self@.history),
    {
        proof {
            lemma_latest_index_range(self@.history, EventKind::TitleChange);
        }
        match self.latest_event_of_kind(EventKind::TitleChange) {
            Some(record) => match &record.event {
                ConversationEvent::TitleChange(t) => t.new_title.clone(),
                ConversationEvent::MessageAdded(_) => DEFAULT_CONVERSATION_TITLE.to_owned(),
            },
            None => DEFAULT_CONVERSATION_TITLE.to_owned(),
        }
    }

    /// The chat turns of the conversation, in the order they were appended;
    /// renames are left out.
    pub fn transcript(&self) -> (r: Vec<ConversationMessagePayload>)
        ensures
            r@ == transcript_of(self@.history),
    {
        let mut out: Vec<ConversationMessagePayload> = Vec::new();
        let mut i: usize = 0;
        while i < self.history.len()
            invariant
                i <= self.history.len(),
                out@ == transcript_of(self.history@.take(i as int)),
            decreases self.history.len() - i,
        {
            assert(self.history@.take(i + 1).drop_last() =~= self.history@.take(i as int));
            match &self.history[i].event {
                ConversationEvent::MessageAdded(m) => {
                    out.push(ConversationMessagePayload { author: m.author, content: m.content.clone() });
                },
                ConversationEvent::TitleChange(_) => {},
            }
            i = i + 1;
        }
        assert(self.history@.take(i as int) =~= self.history@);
        out
    }

    /// What a reply request sends to the language model: the transcript
    /// without its last turn, as context, and the last turn's text, as the
    /// prompt. Fails with `ConversationEmptyFail` when the conversation holds
    /// no message and, when `require_user_turn` is set, with
    /// `UserNotLatestAuthorInConversationFail` when the last turn is not the
    /// user's.
    pub fn reply_prompt(&self, require_user_turn: bool) -> (r: Result<(Vec<ConversationMessagePayload>, String), MyError>)
        ensures
            ({
                let t = transcript_of(self@.history);
                &&& t.len() == 0 ==> r == Err::<(Vec<ConversationMessagePayload>, String), MyError>(MyError::ConversationEmptyFail)
                &&& t.len() > 0 && require_user_turn && t.last().author != ChatRole::User ==> r == Err::<
                    (Vec<ConversationMessagePayload>, String),
                    MyError,
                >(MyError::UserNotLatestAuthorInConversationFail)
                &&& t.len() > 0 && !(require_user_turn && t.last().author != ChatRole::User) ==> r is Ok
                    && r->Ok_0.0@ == t.drop_last() && r->Ok_0.1@ == t.last().content@
            }),
    {
        let mut context = self.transcript();
        match context.pop() {
            None => Err(MyError::ConversationEmptyFail),
            Some(last) => {
                if require_user_turn && last.author != ChatRole::User {
                    Err(MyError::UserNotLatestAuthorInConversationFail)
                } else {
                    Ok((context, last.content))
                }
            },
        }
    }

    /// A conversation made of an id and a log read back from storage; `None`
    /// when a record names another conversation or two records share an id.
    pub fn from_parts(id: u128, history: Vec<ConversationEventRecord>) -> (r: Option<Conversation>)
        ensures
            r is Some <==> (ConversationView { id, history: history@ }).wf(),
            r is Some ==> r->Some_0@ == (ConversationView { id, history: history@ }),
    {
        let n = history.len();
        let mut i: usize = 0;
        while i < n
            invariant
                n == history@.len(),
                i <= n,
                forall|a: int| 0 <= a < i ==> #[trigger] history@[a].conversation_id == id,
                forall|a: int, b: int| 0 <= a < i && 0 <= b < n && a != b ==> #[trigger] history@[a].id != #[trigger] history@[b].id,
            decreases n - i,
        {
            if history[i].conversation_id != id {
                return None;
            }
            let mut j: usize = 0;
            while j < n
                invariant
                    n == history@.len(),
                    i < n,
                    j <= n,
                    forall|b: int| 0 <= b < j && b != i ==> history@[i as int].id != #[trigger] history@[b].id,
                decreases n - j,
            {
                if j != i && history[i].id == history[j].id {
                    return None;
                }
                j = j + 1;
            }
            i = i + 1;
        }
        Some(Conversation { id, history })
    }
}

} // verus!
