//! Properties of conversations that span several calls, proved over the
//! models that the operations' contracts use.

use vstd::prelude::*;

use crate::conversation::{
    appended, latest_index, record_ids, title_of, transcript_of, ConversationView,
    DEFAULT_CONVERSATION_TITLE,
};
use crate::payloads::ConversationMessagePayload;
use crate::event::{ConversationEvent, ConversationTitleChangedEvent};

verus! {

proof fn lemma_appended_shape(a: ConversationView, b: ConversationView, e: ConversationEvent)
    requires
        appended(a, b, e),
    ensures
        b.history == a.history.push(b.history.last()),
{
    let n = a.history.len() as int;
    assert(b.history =~= b.history.take(n).push(b.history[n]));
}

/// Appending keeps a conversation well formed.
pub proof fn lemma_appended_wf(a: ConversationView, b: ConversationView, e: ConversationEvent)
    requires
        a.wf(),
        appended(a, b, e),
    ensures
        b.wf(),
{
    lemma_appended_shape(a, b, e);
    let n = a.history.len() as int;
    let fresh = b.history[n].id;
    assert forall|i: int| 0 <= i < n implies #[trigger] a.history[i].id != fresh by {
        assert(a.history.map_values(|r: crate::event::ConversationEventRecord| r.id)[i] == a.history[i].id);
        assert(record_ids(a.history).contains(a.history[i].id));
    }
    assert forall|i: int| 0 <= i < b.history.len() implies #[trigger] b.history[i].conversation_id == b.id by {
        if i < n {
            assert(b.history[i] == a.history[i]);
        }
    }
    assert forall|i: int, j: int| 0 <= i < b.history.len() && 0 <= j < b.history.len() && i != j
        implies #[trigger] b.history[i].id != #[trigger] b.history[j].id by {
        if i < n && j < n {
            assert(b.history[i] == a.history[i]);
            assert(b.history[j] == a.history[j]);
        } else if i < n {
            assert(b.history[i] == a.history[i]);
        } else if j < n {
            assert(b.history[j] == a.history[j]);
        }
    }
}

/// Append-only: a conversation that goes through `n` appends ends with its
/// earlier records unchanged and in place, followed by exactly `n` new ones,
/// the records of those appends in the order they were made, and no two of
/// its records share an id.
pub proof fn lemma_append_only(states: Seq<ConversationView>)
    requires
        states.len() >= 1,
        states[0].wf(),
        forall|i: int| 0 <= i < states.len() - 1 ==> appended(
            #[trigger] states[i],
            states[i + 1],
            states[i + 1].history.last().event,
        ),
    ensures
        states.last().history.len() == states[0].history.len() + states.len() - 1,
        states.last().history.take(states[0].history.len() as int) == states[0].history,
        states.last().wf(),
        states.last().id == states[0].id,
        forall|i: int| 0 <= i < states.len() - 1 ==> states.last().history[states[0].history.len() + i]
            == (#[trigger] states[i + 1]).history.last(),
    decreases states.len(),
{
    if states.len() > 1 {
        let front = states.drop_last();
        assert forall|i: int| 0 <= i < front.len() - 1 implies appended(
            #[trigger] front[i],
            front[i + 1],
            front[i + 1].history.last().event,
        ) by {
            assert(front[i] == states[i]);
            assert(front[i + 1] == states[i + 1]);
        }
        lemma_append_only(front);
        let k = states.len() - 2;
        let a = states[k];
        let b = states[k + 1];
        assert(front.last() == a);
        assert(appended(states[k], states[k + 1], states[k + 1].history.last().event));
        lemma_appended_wf(a, b, b.history.last().event);
        lemma_appended_shape(a, b, b.history.last().event);
        assert(b.history.take(states[0].history.len() as int) =~= a.history.take(
            states[0].history.len() as int,
        ));
        let n0 = states[0].history.len() as int;
        assert forall|i: int| 0 <= i < states.len() - 1 implies states.last().history[n0 + i]
            == (#[trigger] states[i + 1]).history.last() by {
            if i < states.len() - 2 {
                assert(front[i + 1] == states[i + 1]);
                assert(a.history[n0 + i] == front[i + 1].history.last());
                assert(b.history[n0 + i] == a.history[n0 + i]);
            }
        }
    }
}

/// A conversation with an empty log has the default title.
pub proof fn lemma_fresh_title(c: ConversationView)
    requires
        c.history.len() == 0,
    ensures
        title_of(c.history) == DEFAULT_CONVERSATION_TITLE@,
{
}

/// Latest rename wins: right after a rename is appended, the title is the
/// new one, whatever the log held before.
pub proof fn lemma_title_after_rename(a: ConversationView, b: ConversationView, t: ConversationTitleChangedEvent)
    requires
        appended(a, b, ConversationEvent::TitleChange(t)),
    ensures
        title_of(b.history) == t.new_title@,
{
    lemma_appended_shape(a, b, ConversationEvent::TitleChange(t));
    assert(b.history.drop_last() =~= a.history);
    crate::conversation::lemma_latest_index_range(a.history, crate::event::EventKind::TitleChange);
    let p = latest_index(a.history, crate::event::EventKind::TitleChange);
    if p >= 0 {
        assert(a.history[p].timestamp <= b.history[a.history.len() as int].timestamp);
    }
}

/// The transcript grows by the new turn when a message is appended, keeping
/// the earlier turns in order, and is left as it was by a rename.
pub proof fn lemma_transcript_after_append(a: ConversationView, b: ConversationView, e: ConversationEvent)
    requires
        appended(a, b, e),
    ensures
        transcript_of(b.history) == match e {
            ConversationEvent::MessageAdded(m) => transcript_of(a.history).push(
                ConversationMessagePayload { author: m.author, content: m.content },
            ),
            ConversationEvent::TitleChange(_) => transcript_of(a.history),
        },
{
    lemma_appended_shape(a, b, e);
    assert(b.history.drop_last() =~= a.history);
}

} // verus!
