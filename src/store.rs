use vstd::prelude::*;
use std::collections::HashMap;
use vstd::std_specs::hash::spec_hash_map_iter;
use vstd::std_specs::iter::IteratorSpec;

use crate::conversation::{
    appended, lemma_record_ids_empty, lemma_record_ids_push, record_ids, title_of, Conversation,
    ConversationView,
};
use crate::error::MyError;
use crate::event::{ConversationEvent, ConversationEventRecord, ConversationTitleChangedEvent};
use crate::fresh::{first_free, lemma_probes_fit, next_candidate, probe};
use crate::ids::{now_millis, random_id};

verus! {

/// What the store is: each conversation under its id.
pub type StoreView = Map<u128, ConversationView>;

/// Every record id used anywhere in the store.
pub open spec fn store_record_ids(m: StoreView) -> Set<u128> {
    Set::new(|x: u128| exists|k: u128| m.contains_key(k) && #[trigger] record_ids(m[k].history).contains(x))
}

/// Every conversation is well formed and kept under its own id, and no two
/// conversations use the same record id: record ids are unique store-wide.
pub open spec fn store_wf(m: StoreView) -> bool {
    &&& forall|k: u128| #[trigger] m.contains_key(k) ==> m[k].id == k && m[k].wf()
    &&& forall|k1: u128, k2: u128, x: u128|
        m.contains_key(k1) && m.contains_key(k2) && k1 != k2 && #[trigger] record_ids(m[k1].history).contains(x)
            ==> !#[trigger] record_ids(m[k2].history).contains(x)
}

/// Registering a new conversation whose record ids the store does not use yet.
pub proof fn lemma_store_insert(m: StoreView, k: u128, c: ConversationView)
    requires
        store_wf(m),
        !m.contains_key(k),
        c.id == k,
        c.wf(),
        forall|x: u128| #[trigger] record_ids(c.history).contains(x) ==> !store_record_ids(m).contains(x),
    ensures
        store_wf(m.insert(k, c)),
        store_record_ids(m.insert(k, c)) == store_record_ids(m).union(record_ids(c.history)),
{
    let m2 = m.insert(k, c);
    assert forall|k1: u128, k2: u128, x: u128|
        m2.contains_key(k1) && m2.contains_key(k2) && k1 != k2 && #[trigger] record_ids(m2[k1].history).contains(x)
            implies !#[trigger] record_ids(m2[k2].history).contains(x) by {
        if k1 == k {
            if record_ids(m2[k2].history).contains(x) {
                assert(m[k2] == m2[k2]);
                assert(store_record_ids(m).contains(x));
            }
        } else if k2 == k {
            assert(m[k1] == m2[k1]);
            assert(store_record_ids(m).contains(x));
        } else {
            assert(m[k1] == m2[k1]);
            assert(m[k2] == m2[k2]);
        }
    }
    assert forall|x: u128| store_record_ids(m2).contains(x) <==> store_record_ids(m).union(record_ids(c.history)).contains(x) by {
        if store_record_ids(m2).contains(x) {
            let j = choose|j: u128| m2.contains_key(j) && #[trigger] record_ids(m2[j].history).contains(x);
            if j != k {
                assert(m[j] == m2[j]);
            }
        }
        if store_record_ids(m).contains(x) {
            let j = choose|j: u128| m.contains_key(j) && #[trigger] record_ids(m[j].history).contains(x);
            assert(m[j] == m2[j]);
            assert(record_ids(m2[j].history).contains(x));
        }
        if record_ids(c.history).contains(x) {
            assert(record_ids(m2[k].history).contains(x));
        }
    }
    assert(store_record_ids(m2) =~= store_record_ids(m).union(record_ids(c.history)));
}

/// Replacing a conversation by itself with one more record, whose id the
/// store does not use yet.
pub proof fn lemma_store_append(m: StoreView, k: u128, c: ConversationView)
    requires
        store_wf(m),
        m.contains_key(k),
        c.id == k,
        c.wf(),
        c.history.len() > 0,
        c.history.drop_last() == m[k].history,
        !store_record_ids(m).contains(c.history.last().id),
    ensures
        store_wf(m.insert(k, c)),
        store_record_ids(m.insert(k, c)) == store_record_ids(m).insert(c.history.last().id),
{
    let m2 = m.insert(k, c);
    let y = c.history.last().id;
    assert(c.history == m[k].history.push(c.history.last()));
    lemma_record_ids_push(m[k].history, c.history.last());
    assert forall|k1: u128, k2: u128, x: u128|
        m2.contains_key(k1) && m2.contains_key(k2) && k1 != k2 && #[trigger] record_ids(m2[k1].history).contains(x)
            implies !#[trigger] record_ids(m2[k2].history).contains(x) by {
        if k1 == k {
            if record_ids(m2[k2].history).contains(x) {
                assert(m[k2] == m2[k2]);
                assert(store_record_ids(m).contains(x));
            }
        } else if k2 == k {
            assert(m[k1] == m2[k1]);
            assert(store_record_ids(m).contains(x));
        } else {
            assert(m[k1] == m2[k1]);
            assert(m[k2] == m2[k2]);
        }
    }
    assert forall|x: u128| store_record_ids(m2).contains(x) <==> store_record_ids(m).insert(y).contains(x) by {
        if store_record_ids(m2).contains(x) {
            let j = choose|j: u128| m2.contains_key(j) && #[trigger] record_ids(m2[j].history).contains(x);
            if j != k {
                assert(m[j] == m2[j]);
            } else if x != y {
                assert(record_ids(m[k].history).contains(x));
            }
        }
        if store_record_ids(m).contains(x) {
            let j = choose|j: u128| m.contains_key(j) && #[trigger] record_ids(m[j].history).contains(x);
            if j != k {
                assert(m[j] == m2[j]);
            }
            assert(record_ids(m2[j].history).contains(x));
        }
        if x == y {
            assert(record_ids(m2[k].history).contains(x));
        }
    }
    assert(store_record_ids(m2) =~= store_record_ids(m).insert(y));
}

/// The (id, conversation) pairs of a list of stored entries, as models.
pub open spec fn entries_view(s: Seq<(u128, Conversation)>) -> Seq<(u128, ConversationView)> {
    s.map_values(|e: (u128, Conversation)| (e.0, e.1@))
}

/// Stored entries from which a store can be rebuilt: each conversation is
/// well formed and listed under its own id, no id is listed twice, and no
/// record id is used by two conversations.
pub open spec fn entries_valid(s: Seq<(u128, ConversationView)>) -> bool {
    &&& forall|i: int| 0 <= i < s.len() ==> (#[trigger] s[i]).0 == s[i].1.id && s[i].1.wf()
    &&& forall|i: int, j: int| 0 <= i < s.len() && 0 <= j < s.len() && i != j ==> (#[trigger] s[i]).0 != (#[trigger] s[j]).0
    &&& forall|i: int, j: int, x: u128|
        0 <= i < s.len() && 0 <= j < s.len() && i != j && #[trigger] record_ids(s[i].1.history).contains(x)
            ==> !#[trigger] record_ids(s[j].1.history).contains(x)
}

/// The store that holds each listed conversation under its listed id.
pub open spec fn entries_map(s: Seq<(u128, ConversationView)>) -> StoreView
    decreases s.len(),
{
    if s.len() == 0 {
        Map::empty()
    } else {
        entries_map(s.drop_last()).insert(s.last().0, s.last().1)
    }
}

/// Every prefix of valid entries is valid.
pub proof fn lemma_entries_valid_prefix(s: Seq<(u128, ConversationView)>, j: int)
    requires
        entries_valid(s),
        0 <= j <= s.len(),
    ensures
        entries_valid(s.take(j)),
{
    let t = s.take(j);
    assert forall|a: int| 0 <= a < t.len() implies (#[trigger] t[a]).0 == t[a].1.id && t[a].1.wf() by {
        assert(t[a] == s[a]);
    }
    assert forall|a: int, b: int| 0 <= a < t.len() && 0 <= b < t.len() && a != b implies (#[trigger] t[a]).0 != (#[trigger] t[b]).0 by {
        assert(t[a] == s[a]);
        assert(t[b] == s[b]);
    }
    assert forall|a: int, b: int, x: u128|
        0 <= a < t.len() && 0 <= b < t.len() && a != b && #[trigger] record_ids(t[a].1.history).contains(x)
            implies !#[trigger] record_ids(t[b].1.history).contains(x) by {
        assert(t[a] == s[a]);
        assert(t[b] == s[b]);
    }
}

/// `s` lists every conversation of `m` once, under its id.
pub open spec fn lists_store(s: Seq<(u128, ConversationView)>, m: StoreView) -> bool {
    &&& forall|i: int| 0 <= i < s.len() ==> m.contains_key((#[trigger] s[i]).0) && m[s[i].0] == s[i].1
    &&& forall|k: u128| #[trigger] m.contains_key(k) ==> exists|i: int| 0 <= i < s.len() && s[i].0 == k
    &&& forall|i: int, j: int| 0 <= i < s.len() && 0 <= j < s.len() && i != j ==> (#[trigger] s[i]).0 != (#[trigger] s[j]).0
}

/// `entries_map` registers exactly the listed ids and, when no id is listed
/// twice, holds each listed conversation under its id.
pub proof fn lemma_entries_map(s: Seq<(u128, ConversationView)>)
    ensures
        forall|k: u128| #[trigger] entries_map(s).contains_key(k) <==> exists|i: int| 0 <= i < s.len() && s[i].0 == k,
        (forall|i: int, j: int| 0 <= i < s.len() && 0 <= j < s.len() && i != j ==> (#[trigger] s[i]).0 != (#[trigger] s[j]).0)
            ==> forall|i: int| 0 <= i < s.len() ==> #[trigger] entries_map(s)[s[i].0] == s[i].1,
    decreases s.len(),
{
    if s.len() > 0 {
        let f = s.drop_last();
        lemma_entries_map(f);
        assert forall|k: u128| #[trigger] entries_map(s).contains_key(k) implies exists|i: int| 0 <= i < s.len() && s[i].0 == k by {
            if k != s.last().0 {
                assert(entries_map(f).contains_key(k));
                let i = choose|i: int| 0 <= i < f.len() && f[i].0 == k;
                assert(s[i] == f[i]);
            } else {
                assert(s[s.len() - 1].0 == k);
            }
        }
        assert forall|k: u128| (exists|i: int| 0 <= i < s.len() && s[i].0 == k) implies #[trigger] entries_map(s).contains_key(k) by {
            let i = choose|i: int| 0 <= i < s.len() && s[i].0 == k;
            if i < s.len() - 1 {
                assert(f[i] == s[i]);
                assert(entries_map(f).contains_key(k));
            }
        }
        if forall|i: int, j: int| 0 <= i < s.len() && 0 <= j < s.len() && i != j ==> (#[trigger] s[i]).0 != (#[trigger] s[j]).0 {
            assert forall|i: int, j: int| 0 <= i < f.len() && 0 <= j < f.len() && i != j implies (#[trigger] f[i]).0 != (#[trigger] f[j]).0 by {
                assert(f[i] == s[i]);
                assert(f[j] == s[j]);
            }
            assert forall|i: int| 0 <= i < s.len() implies #[trigger] entries_map(s)[s[i].0] == s[i].1 by {
                if i < s.len() - 1 {
                    assert(f[i] == s[i]);
                    assert(s[i].0 != s[s.len() - 1].0);
                    assert(entries_map(f)[f[i].0] == f[i].1);
                }
            }
        }
    }
}

/// Round trip: the entries that a snapshot of a store lists rebuild exactly
/// that store, with the same ids and the same logs (hence the same titles
/// and transcripts).
pub proof fn lemma_restore_snapshot(m: StoreView, s: Seq<(u128, ConversationView)>)
    requires
        store_wf(m),
        lists_store(s, m),
    ensures
        entries_valid(s),
        entries_map(s) == m,
{
    lemma_entries_map(s);
    assert forall|i: int| 0 <= i < s.len() implies (#[trigger] s[i]).0 == s[i].1.id && s[i].1.wf() by {
        assert(m.contains_key(s[i].0));
    }
    assert forall|k: u128| #[trigger] m.contains_key(k) implies entries_map(s).contains_key(k) && entries_map(s)[k] == m[k] by {
        let i = choose|i: int| 0 <= i < s.len() && s[i].0 == k;
        assert(entries_map(s)[s[i].0] == s[i].1);
    }
    assert forall|k: u128| #[trigger] entries_map(s).contains_key(k) implies m.contains_key(k) by {
        let i = choose|i: int| 0 <= i < s.len() && s[i].0 == k;
        assert(m.contains_key(s[i].0));
    }
    assert(entries_map(s) =~= m);
}

/// The models of the conversations that a map holds, under the same keys.
pub open spec fn map_view(m: HashMap<u128, Conversation>) -> StoreView {
    m@.map_values(|c: Conversation| c@)
}

/// A map of conversations and an index of record ids that agree: the map
/// forms a well-formed store and the index holds exactly its record ids.
pub open spec fn parts_wf(m: HashMap<u128, Conversation>, index: HashMap<u128, ()>) -> bool {
    &&& store_wf(map_view(m))
    &&& index@.dom() == store_record_ids(map_view(m))
}

/// The first candidate from `drawn` on that is not a key of `m`.
fn first_free_key<V>(m: &HashMap<u128, V>, drawn: u128) -> (r: u128)
    ensures
        exists|k: nat| first_free(drawn, m@.dom(), k) && r == probe(drawn, k),
{
    let n = m.len();
    let ghost taken = m@.dom();
    let mut c = drawn;
    let ghost mut k: nat = 0;
    assert(c == probe(drawn, 0));
    while m.contains_key(&c)
        invariant
            taken == m@.dom(),
            taken.finite(),
            taken.len() == n,
            k <= taken.len(),
            c == probe(drawn, k),
            forall|j: nat| j < k ==> taken.contains(#[trigger] probe(drawn, j)),
        decreases taken.len() - k,
    {
        proof {
            assert forall|j: nat| j < k + 1 implies taken.contains(#[trigger] probe(drawn, j)) by {
                if j == k {
                    assert(taken.contains(c));
                }
            }
            lemma_probes_fit(drawn, taken, k + 1);
        }
        c = next_candidate(c, Ghost(drawn), Ghost(k));
        proof {
            k = k + 1;
        }
    }
    c
}

/// The id-keyed collection of every conversation of the process.
#[derive(Debug)]
pub struct ConversationManager {
    conversations: HashMap<u128, Conversation>,
    record_index: HashMap<u128, ()>,
}

impl View for ConversationManager {
    type V = StoreView;

    closed spec fn view(&self) -> StoreView {
        map_view(self.conversations)
    }
}

impl ConversationManager {
    #[verifier::type_invariant]
    spec fn inv(&self) -> bool {
        parts_wf(self.conversations, self.record_index)
    }

    /// An empty store.
    pub fn new() -> (r: ConversationManager)
        ensures
            r@ == Map::<u128, ConversationView>::empty(),
    {
        let conversations: HashMap<u128, Conversation> = HashMap::new();
        let record_index: HashMap<u128, ()> = HashMap::new();
        proof {
            assert(map_view(conversations) =~= Map::<u128, ConversationView>::empty());
            assert(record_index@.dom() =~= store_record_ids(map_view(conversations)));
        }
        ConversationManager { conversations, record_index }
    }

    /// Moves the store's contents out, leaving it empty.
    fn take(&mut self) -> (r: (HashMap<u128, Conversation>, HashMap<u128, ()>))
        ensures
            parts_wf(r.0, r.1),
            map_view(r.0) == old(self)@,
    {
        let mut whole = ConversationManager::new();
        std::mem::swap(self, &mut whole);
        proof {
            use_type_invariant(&whole);
        }
        let ConversationManager { conversations, record_index } = whole;
        (conversations, record_index)
    }

    /// Creates an empty conversation under an id that no conversation of the
    /// store has, registers it and returns a copy of it.
    pub fn create_conversation(&mut self) -> (r: Conversation)
        ensures
            !old(self)@.contains_key(r@.id),
            r@.history.len() == 0,
            final(self)@ == old(self)@.insert(r@.id, r@),
    {
        let (mut conversations, record_index) = self.take();
        let ghost m0 = map_view(conversations);
        let drawn = random_id();
        let id = first_free_key(&conversations, drawn);
        let c = Conversation::with_id(id);
        let r = c.clone();
        proof {
            use_type_invariant(&c);
            let k = choose|k: nat| first_free(drawn, conversations@.dom(), k) && id == probe(drawn, k);
            assert(!conversations@.dom().contains(id));
            assert(!m0.contains_key(id));
            lemma_record_ids_empty(c@.history);
            lemma_store_insert(m0, id, c@);
            assert(store_record_ids(m0).union(record_ids(c@.history)) =~= store_record_ids(m0));
        }
        conversations.insert(id, c);
        proof {
            assert(map_view(conversations) =~= m0.insert(id, r@));
        }
        *self = ConversationManager { conversations, record_index };
        r
    }

    /// Renames the conversation with the given id. Returns `Ok(false)` and
    /// changes nothing when `title` already is its title; otherwise appends
    /// the rename and returns `Ok(true)`. Fails with `FindByIDFail`, changing
    /// nothing, when no conversation has that id.
    pub fn set_title(&mut self, id: u128, title: String) -> (r: Result<bool, MyError>)
        ensures
            !old(self)@.contains_key(id) ==> r == Err::<bool, MyError>(MyError::FindByIDFail) && final(self)@ == old(self)@,
            old(self)@.contains_key(id) && title@ == title_of(old(self)@[id].history) ==> r == Ok::<bool, MyError>(false)
                && final(self)@ == old(self)@,
            old(self)@.contains_key(id) && title@ != title_of(old(self)@[id].history) ==> r == Ok::<bool, MyError>(true) && ({
                let after = final(self)@[id];
                &&& final(self)@ == old(self)@.insert(id, after)
                &&& appended(old(self)@[id], after, ConversationEvent::TitleChange(ConversationTitleChangedEvent { new_title: title }))
            }),
    {
        let current = match self.get(id) {
            None => {
                return Err(MyError::FindByIDFail);
            },
            Some(c) => c.get_title(),
        };
        if current == title {
            return Ok(false);
        }
        let event = ConversationEvent::TitleChange(ConversationTitleChangedEvent { new_title: title });
        match self.append_event(id, event) {
            Ok(_) => Ok(true),
            Err(e) => Err(e),
        }
    }

    /// Every conversation's title, under its id.
    pub fn title_index(&self) -> (r: HashMap<u128, String>)
        ensures
            r@.dom() == self@.dom(),
            forall|k: u128| #[trigger] r@.contains_key(k) ==> r@[k]@ == title_of(self@[k].history),
    {
        let mut out: HashMap<u128, String> = HashMap::new();
        proof {
            let v = spec_hash_map_iter(&self.conversations).remaining();
            assert forall|k: u128| #[trigger] self.conversations@.contains_key(k) implies exists|i: int|
                0 <= i < v.len() && *v[i].0 == k by {
                assert(v.contains((&k, &self.conversations@[k])));
            }
        }
        for e in it: self.conversations.iter()
            invariant
                forall|k: u128| #[trigger] out@.contains_key(k) ==> self@.contains_key(k) && out@[k]@ == title_of(self@[k].history),
                forall|i: int| 0 <= i < it.index() ==> #[trigger] out@.contains_key(*it.seq()[i].0),
                forall|k: u128| #[trigger] self.conversations@.contains_key(k) ==> exists|i: int|
                    0 <= i < it.seq().len() && *it.seq()[i].0 == k,
        {
            let (k, c) = e;
            out.insert(*k, c.get_title());
        }
        assert(out@.dom() =~= self@.dom());
        out
    }

    /// Every conversation of the store, once each, under its id: what a
    /// snapshot on disk holds.
    pub fn snapshot(&self) -> (r: Vec<(u128, Conversation)>)
        ensures
            lists_store(entries_view(r@), self@),
            store_wf(self@),
    {
        proof {
            use_type_invariant(self);
        }
        let mut out: Vec<(u128, Conversation)> = Vec::new();
        let ghost v = spec_hash_map_iter(&self.conversations).remaining();
        proof {
            assert forall|k: u128| #[trigger] self.conversations@.contains_key(k) implies exists|i: int|
                0 <= i < v.len() && *v[i].0 == k by {
                assert(v.contains((&k, &self.conversations@[k])));
            }
        }
        for e in it: self.conversations.iter()
            invariant
                it.seq() == v,
                v.no_duplicates(),
                forall|i: int| 0 <= i < v.len() ==> self.conversations@.contains_key(*(#[trigger] v[i]).0)
                    && self.conversations@[*v[i].0] == *v[i].1,
                forall|k: u128| #[trigger] self.conversations@.contains_key(k) ==> exists|i: int|
                    0 <= i < v.len() && *v[i].0 == k,
                out@.len() == it.index(),
                forall|i: int| 0 <= i < it.index() ==> (#[trigger] out@[i]).0 == *v[i].0 && out@[i].1@ == (*v[i].1)@,
        {
            let (k, c) = e;
            out.push((*k, c.clone()));
        }
        proof {
            let s = entries_view(out@);
            assert forall|i: int| 0 <= i < s.len() implies self@.contains_key((#[trigger] s[i]).0) && self@[s[i].0] == s[i].1 by {
                assert(out@[i].0 == *v[i].0);
            }
            assert forall|k: u128| #[trigger] self@.contains_key(k) implies exists|i: int| 0 <= i < s.len() && s[i].0 == k by {
                assert(self.conversations@.contains_key(k));
                let i = choose|i: int| 0 <= i < v.len() && *v[i].0 == k;
                assert(out@[i].0 == *v[i].0);
                assert(s[i].0 == k);
            }
            assert forall|i: int, j: int| 0 <= i < s.len() && 0 <= j < s.len() && i != j implies (#[trigger] s[i]).0 != (#[trigger] s[j]).0 by {
                assert(out@[i].0 == *v[i].0);
                assert(out@[j].0 == *v[j].0);
                if *v[i].0 == *v[j].0 {
                    assert(v[i] == v[j]);
                }
            }
        }
        out
    }

    /// Rebuilds a store from stored entries; `None` when an entry is listed
    /// under an id other than its conversation's, two entries share an id,
    /// or two conversations use the same record id.
    #[verifier::loop_isolation(false)]
    pub fn from_entries(entries: Vec<(u128, Conversation)>) -> (r: Option<ConversationManager>)
        ensures
            r is Some <==> entries_valid(entries_view(entries@)),
            r is Some ==> r->Some_0@ == entries_map(entries_view(entries@)),
    {
        let ghost s = entries_view(entries@);
        let mut conversations: HashMap<u128, Conversation> = HashMap::new();
        let mut record_index: HashMap<u128, ()> = HashMap::new();
        proof {
            assert(map_view(conversations) =~= Map::<u128, ConversationView>::empty());
            assert(record_index@.dom() =~= store_record_ids(map_view(conversations)));
        }
        let n = entries.len();
        let mut i: usize = 0;
        while i < n
            invariant
                n == entries@.len(),
                s == entries_view(entries@),
                i <= n,
                entries_valid(s.take(i as int)),
                map_view(conversations) == entries_map(s.take(i as int)),
                parts_wf(conversations, record_index),
            decreases n - i,
        {
            let ghost t = s.take(i as int);
            let ghost m0 = map_view(conversations);
            proof {
                lemma_entries_map(t);
                assert(s.take(i + 1).drop_last() =~= t);
                assert(s[i as int] == (entries@[i as int].0, entries@[i as int].1@));
            }
            let key = entries[i].0;
            let c = entries[i].1.clone();
            proof {
                use_type_invariant(&c);
                assert(s.take(i + 1)[i as int] == s[i as int]);
            }
            if key != c.id() {
                proof {
                    assert(!entries_valid(s.take(i + 1)));
                    if entries_valid(s) {
                        lemma_entries_valid_prefix(s, i + 1);
                    }
                }
                return None;
            }
            if conversations.contains_key(&key) {
                proof {
                    assert(m0.contains_key(key));
                    let j = choose|j: int| 0 <= j < t.len() && t[j].0 == key;
                    assert(s.take(i + 1)[j] == t[j]);
                    assert(!entries_valid(s.take(i + 1)));
                    if entries_valid(s) {
                        lemma_entries_valid_prefix(s, i + 1);
                    }
                }
                return None;
            }
            let h = c.history();
            let hn = h.len();
            let mut j: usize = 0;
            while j < hn
                invariant
                    hn == h@.len(),
                    h@ == c@.history,
                    j <= hn,
                    forall|a: int| 0 <= a < j ==> !record_index@.dom().contains(#[trigger] h@[a].id),
                decreases hn - j,
            {
                if record_index.contains_key(&h[j].id) {
                    proof {
                        let x = h@[j as int].id;
                        assert(store_record_ids(m0).contains(x));
                        let k = choose|k: u128| m0.contains_key(k) && #[trigger] record_ids(m0[k].history).contains(x);
                        assert(entries_map(t).contains_key(k));
                        let b = choose|b: int| 0 <= b < t.len() && t[b].0 == k;
                        assert(entries_map(t)[t[b].0] == t[b].1);
                        let t1 = s.take(i + 1);
                        assert(t1[b] == t[b]);
                        crate::conversation::lemma_record_ids_contains(c@.history, x);
                        assert(record_ids(t1[i as int].1.history).contains(x));
                        assert(record_ids(t1[b].1.history).contains(x));
                        assert(!entries_valid(t1));
                        if entries_valid(s) {
                            lemma_entries_valid_prefix(s, i + 1);
                        }
                    }
                    return None;
                }
                j = j + 1;
            }
            let ghost d0 = record_index@.dom();
            let mut j: usize = 0;
            while j < hn
                invariant
                    hn == h@.len(),
                    h@ == c@.history,
                    j <= hn,
                    forall|x: u128| #[trigger] record_index@.dom().contains(x) <==> d0.contains(x) || exists|a: int|
                        0 <= a < j && h@[a].id == x,
                decreases hn - j,
            {
                record_index.insert(h[j].id, ());
                proof {
                    assert forall|x: u128| #[trigger] record_index@.dom().contains(x) <==> d0.contains(x) || exists|a: int|
                        0 <= a < j + 1 && h@[a].id == x by {
                        if x == h@[j as int].id {
                            assert(h@[j as int].id == x);
                        }
                        if exists|a: int| 0 <= a < j + 1 && h@[a].id == x {
                            let a = choose|a: int| 0 <= a < j + 1 && h@[a].id == x;
                            if a < j {
                                assert(exists|a2: int| 0 <= a2 < j && h@[a2].id == x);
                            }
                        }
                    }
                }
                j = j + 1;
            }
            proof {
                assert forall|x: u128| #[trigger] record_ids(c@.history).contains(x) implies !store_record_ids(m0).contains(x) by {
                    crate::conversation::lemma_record_ids_contains(c@.history, x);
                    let a = choose|a: int| 0 <= a < c@.history.len() && #[trigger] c@.history[a].id == x;
                    assert(h@[a].id == x);
                }
                lemma_store_insert(m0, key, c@);
                assert forall|x: u128| record_index@.dom().contains(x) <==> store_record_ids(m0).union(record_ids(c@.history)).contains(x) by {
                    crate::conversation::lemma_record_ids_contains(c@.history, x);
                    if exists|a: int| 0 <= a < hn && h@[a].id == x {
                        let a = choose|a: int| 0 <= a < hn && h@[a].id == x;
                        assert(c@.history[a].id == x);
                    }
                    if exists|a: int| 0 <= a < c@.history.len() && #[trigger] c@.history[a].id == x {
                        let a = choose|a: int| 0 <= a < c@.history.len() && #[trigger] c@.history[a].id == x;
                        assert(h@[a].id == x);
                    }
                }
                assert(record_index@.dom() =~= store_record_ids(m0).union(record_ids(c@.history)));
            }
            let ghost cv = c@;
            conversations.insert(key, c);
            proof {
                assert(map_view(conversations) =~= m0.insert(key, cv));
                let t1 = s.take(i + 1);
                assert(t1[i as int] == (key, cv));
                assert(entries_map(t1) == entries_map(t).insert(key, cv));
                assert forall|a: int| 0 <= a < t1.len() implies (#[trigger] t1[a]).0 == t1[a].1.id && t1[a].1.wf() by {
                    if a < i {
                        assert(t1[a] == t[a]);
                    }
                }
                assert forall|a: int, b: int| 0 <= a < t1.len() && 0 <= b < t1.len() && a != b implies (#[trigger] t1[a]).0 != (#[trigger] t1[b]).0 by {
                    if a < i {
                        assert(t1[a] == t[a]);
                        assert(entries_map(t).contains_key(t[a].0));
                    }
                    if b < i {
                        assert(t1[b] == t[b]);
                        assert(entries_map(t).contains_key(t[b].0));
                    }
                }
                assert forall|a: int, b: int, x: u128|
                    0 <= a < t1.len() && 0 <= b < t1.len() && a != b && #[trigger] record_ids(t1[a].1.history).contains(x)
                        implies !#[trigger] record_ids(t1[b].1.history).contains(x) by {
                    if a < i && b < i {
                        assert(t1[a] == t[a]);
                        assert(t1[b] == t[b]);
                    } else if a < i {
                        assert(t1[a] == t[a]);
                        assert(entries_map(t).contains_key(t[a].0));
                        assert(m0[t[a].0] == t[a].1);
                        assert(record_ids(m0[t[a].0].history).contains(x));
                        assert(store_record_ids(m0).contains(x));
                    } else {
                        assert(t1[b] == t[b]);
                        assert(entries_map(t).contains_key(t[b].0));
                        assert(m0[t[b].0] == t[b].1);
                        if record_ids(t1[b].1.history).contains(x) {
                            assert(record_ids(m0[t[b].0].history).contains(x));
                            assert(store_record_ids(m0).contains(x));
                        }
                    }
                }
            }
            i = i + 1;
        }
        assert(s.take(n as int) =~= s);
        Some(ConversationManager { conversations, record_index })
    }

    /// The conversation with the given id, if there is one.
    pub fn get(&self, id: u128) -> (r: Option<&Conversation>)
        ensures
            r is None <==> !self@.contains_key(id),
            r is Some ==> r->Some_0@ == self@[id] && r->Some_0@.id == id && r->Some_0@.wf(),
    {
        proof {
            use_type_invariant(self);
        }
        let r = self.conversations.get(&id);
        proof {
            if r is Some {
                assert(self@.contains_key(id));
            }
        }
        r
    }

    /// Appends `event` to the conversation with the given id (see
    /// [`Conversation::append_with`]) and returns the new record, whose id no
    /// record of the whole store uses yet. Fails with `FindByIDFail`,
    /// changing nothing, when no conversation has that id.
    pub fn append_event(&mut self, id: u128, event: ConversationEvent) -> (r: Result<ConversationEventRecord, MyError>)
        ensures
            old(self)@.contains_key(id) <==> r is Ok,
            r is Err ==> r == Err::<ConversationEventRecord, MyError>(MyError::FindByIDFail) && final(self)@ == old(self)@,
            r is Ok ==> ({
                let after = final(self)@[id];
                &&& final(self)@ == old(self)@.insert(id, after)
                &&& appended(old(self)@[id], after, event)
                &&& after.history.last() == r->Ok_0
                &&& !store_record_ids(old(self)@).contains(r->Ok_0.id)
            }),
    {
        let (mut conversations, mut record_index) = self.take();
        let ghost m0 = map_view(conversations);
        let removed = conversations.remove(&id);
        match removed {
            None => {
                proof {
                    assert(map_view(conversations) =~= m0);
                }
                *self = ConversationManager { conversations, record_index };
                Err(MyError::FindByIDFail)
            },
            Some(mut c) => {
                proof {
                    assert(m0.contains_key(id));
                    assert(c@ == m0[id]);
                    assert(c@.id == id);
                }
                let drawn = random_id();
                let x = first_free_key(&record_index, drawn);
                proof {
                    let k = choose|k: nat| first_free(drawn, record_index@.dom(), k) && x == probe(drawn, k);
                    assert(!store_record_ids(m0).contains(x));
                    if record_ids(c@.history).contains(x) {
                        assert(store_record_ids(m0).contains(x));
                    }
                }
                let ghost c0 = c@;
                let record = c.append_with(x, now_millis(), event);
                proof {
                    use_type_invariant(&c);
                    assert(c@.history.drop_last() =~= c0.history);
                    lemma_store_append(m0, id, c@);
                }
                record_index.insert(x, ());
                let ghost cv = c@;
                conversations.insert(id, c);
                proof {
                    assert(map_view(conversations) =~= m0.insert(id, cv));
                    assert(record_index@.dom() =~= store_record_ids(m0).insert(x));
                }
                *self = ConversationManager { conversations, record_index };
                Ok(record)
            },
        }
    }
}

} // verus!
