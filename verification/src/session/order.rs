//! The order in which texts are served and shown.

use crate::conversation::{Author, MessageView};
use crate::ollama::{OllamaMessageView, WorkerState};
use crate::session::calls::{lemma_run_orderly, orderly};
use crate::session::{advance, initial, run, CallView, Session, SessionEvent};
use crate::text::trimmed;
use vstd::prelude::*;

verus! {

/// The texts that the user submits in `events`, in order.
pub open spec fn submissions(events: Seq<SessionEvent>) -> Seq<Seq<char>>
    decreases events.len(),
{
    if events.len() == 0 {
        Seq::empty()
    } else {
        let earlier = submissions(events.drop_last());
        match events.last() {
            SessionEvent::Submit { text } => earlier.push(text),
            _ => earlier,
        }
    }
}

/// The texts of the messages that `author` wrote in `shown`, in order.
pub open spec fn texts_of(shown: Seq<MessageView>, author: Author) -> Seq<Seq<char>>
    decreases shown.len(),
{
    if shown.len() == 0 {
        Seq::empty()
    } else {
        let earlier = texts_of(shown.drop_last(), author);
        if shown.last().author == author {
            earlier.push(shown.last().text)
        } else {
            earlier
        }
    }
}

/// The texts of the requests waiting in `queue`, in order.
pub open spec fn requests(queue: Seq<OllamaMessageView>) -> Seq<Seq<char>>
    decreases queue.len(),
{
    if queue.len() == 0 {
        Seq::empty()
    } else {
        match queue.first() {
            OllamaMessageView::Generate { text } => seq![text] + requests(queue.drop_first()),
            OllamaMessageView::Quit => requests(queue.drop_first()),
        }
    }
}

/// The prompts of `calls`, in order.
pub open spec fn prompts(calls: Seq<CallView>) -> Seq<Seq<char>> {
    Seq::new(calls.len(), |i: int| calls[i].request.prompt)
}

/// The reply to show for `call`: its trimmed text, if the call has succeeded.
pub open spec fn reply_of(call: CallView) -> Option<Seq<char>> {
    match call.outcome {
        Some(Ok(result)) => Some(trimmed(result.text)),
        _ => None,
    }
}

/// The replies to show for `calls`: that of each call that has succeeded,
/// in order.
pub open spec fn replies(calls: Seq<CallView>) -> Seq<Seq<char>>
    decreases calls.len(),
{
    if calls.len() == 0 {
        Seq::empty()
    } else {
        let earlier = replies(calls.drop_last());
        match reply_of(calls.last()) {
            Some(text) => earlier.push(text),
            None => earlier,
        }
    }
}

/// The failures to report for `calls`: the client's message of each call
/// that failed, in order.
pub open spec fn failures(calls: Seq<CallView>) -> Seq<Seq<char>>
    decreases calls.len(),
{
    if calls.len() == 0 {
        Seq::empty()
    } else {
        let earlier = failures(calls.drop_last());
        match calls.last().outcome {
            Some(Err(message)) => earlier.push(message),
            _ => earlier,
        }
    }
}

/// Whether `s` has served and shown the submissions of `events` first in,
/// first out.
pub open spec fn in_order(s: Session, events: Seq<SessionEvent>) -> bool {
    &&& texts_of(s.shown, Author::User) == submissions(events)
    &&& (prompts(s.calls) + requests(s.queue)).is_prefix_of(submissions(events))
    &&& s.connected ==> prompts(s.calls) + requests(s.queue) == submissions(events)
    &&& texts_of(s.shown, Author::Assistant) + s.scheduled == replies(s.calls)
    &&& s.reported == failures(s.calls)
    &&& forall|k: int|
        0 <= k <= s.shown.len() ==> texts_of(#[trigger] s.shown.take(k), Author::Assistant).len()
            <= texts_of(s.shown.take(k), Author::User).len()
}

/// A message sent joins the requests waiting at their end, if it is a request.
pub proof fn lemma_requests_push(queue: Seq<OllamaMessageView>, message: OllamaMessageView)
    ensures
        requests(queue.push(message)) == match message {
            OllamaMessageView::Generate { text } => requests(queue).push(text),
            OllamaMessageView::Quit => requests(queue),
        },
    decreases queue.len(),
{
    let longer = queue.push(message);
    if queue.len() == 0 {
        assert(longer.drop_first() =~= Seq::<OllamaMessageView>::empty());
        assert(requests(longer.drop_first()) =~= Seq::<Seq<char>>::empty());
        match message {
            OllamaMessageView::Generate { text } => {
                assert(seq![text] + Seq::<Seq<char>>::empty() =~= Seq::<Seq<char>>::empty().push(
                    text,
                ));
            },
            OllamaMessageView::Quit => {},
        }
    } else {
        let rest = queue.drop_first();
        assert(longer.drop_first() =~= rest.push(message));
        assert(longer.first() == queue.first());
        lemma_requests_push(rest, message);
        match (queue.first(), message) {
            (
                OllamaMessageView::Generate { text: head },
                OllamaMessageView::Generate { text },
            ) => {
                assert(seq![head] + requests(rest).push(text) =~= (seq![head] + requests(
                    rest,
                )).push(text));
            },
            _ => {},
        }
    }
}

/// There are no more replies than calls.
pub proof fn lemma_replies_are_fewer(calls: Seq<CallView>)
    ensures
        replies(calls).len() <= calls.len(),
    decreases calls.len(),
{
    if calls.len() > 0 {
        lemma_replies_are_fewer(calls.drop_last());
    }
}

proof fn lemma_advance_in_order(s: Session, events: Seq<SessionEvent>, event: SessionEvent)
    requires
        orderly(s),
        in_order(s, events),
    ensures
        in_order(advance(s, event), events.push(event)),
{
    let t = advance(s, event);
    let later = events.push(event);
    assert(later.drop_last() =~= events);
    assert(later.last() == event);
    let before = prompts(s.calls) + requests(s.queue);
    let after = prompts(t.calls) + requests(t.queue);
    match event {
        SessionEvent::Submit { text } => {
            let message = MessageView { text, author: Author::User };
            assert(t.shown.drop_last() =~= s.shown);
            assert(t.shown.last() == message);
            lemma_requests_push(s.queue, OllamaMessageView::Generate { text });
            if s.connected {
                assert(after =~= before.push(text));
            }
            assert forall|k: int| 0 <= k <= t.shown.len() implies texts_of(
                #[trigger] t.shown.take(k),
                Author::Assistant,
            ).len() <= texts_of(t.shown.take(k), Author::User).len() by {
                if k <= s.shown.len() {
                    assert(t.shown.take(k) =~= s.shown.take(k));
                } else {
                    assert(t.shown.take(k) =~= t.shown);
                    assert(s.shown.take(s.shown.len() as int) =~= s.shown);
                }
            }
        },
        SessionEvent::Shutdown => {
            lemma_requests_push(s.queue, OllamaMessageView::Quit);
        },
        SessionEvent::Disconnect => {},
        SessionEvent::Receive => {
            if s.worker.state == WorkerState::Idle && s.queue.len() > 0 {
                match s.queue.first() {
                    OllamaMessageView::Generate { text } => {
                        assert(t.calls.drop_last() =~= s.calls);
                        assert(prompts(t.calls) =~= prompts(s.calls).push(text));
                        assert(after =~= before);
                    },
                    OllamaMessageView::Quit => {},
                }
            }
        },
        SessionEvent::Complete { outcome } => {
            if s.worker.state == WorkerState::Generating {
                assert(s.calls.len() > 0 && s.calls.last().outcome is None);
                assert(t.calls.drop_last() =~= s.calls.drop_last());
                assert(prompts(t.calls) =~= prompts(s.calls));
                match outcome {
                    Ok(result) => {
                        let reply = trimmed(result.text);
                        assert(t.scheduled == s.scheduled.push(reply));
                        assert(texts_of(s.shown, Author::Assistant) + s.scheduled.push(reply)
                            =~= (texts_of(s.shown, Author::Assistant) + s.scheduled).push(reply));
                    },
                    Err(_) => {},
                }
            }
        },
        SessionEvent::Present => {
            if s.scheduled.len() > 0 {
                let reply = s.scheduled.first();
                assert(t.shown.drop_last() =~= s.shown);
                assert(t.shown.last() == MessageView { text: reply, author: Author::Assistant });
                assert(texts_of(s.shown, Author::Assistant).push(reply) + s.scheduled.drop_first()
                    =~= texts_of(s.shown, Author::Assistant) + s.scheduled);
                lemma_replies_are_fewer(s.calls);
                assert(before.len() <= submissions(events).len());
                assert forall|k: int| 0 <= k <= t.shown.len() implies texts_of(
                    #[trigger] t.shown.take(k),
                    Author::Assistant,
                ).len() <= texts_of(t.shown.take(k), Author::User).len() by {
                    if k <= s.shown.len() {
                        assert(t.shown.take(k) =~= s.shown.take(k));
                    } else {
                        assert(t.shown.take(k) =~= t.shown);
                    }
                }
            }
        },
    }
}

/// Whatever the order and rate of the events, texts are served and shown
/// first in, first out:
/// - the user's messages shown are the texts submitted, in order;
/// - the calls made, followed by the requests still waiting, are for the
///   texts submitted while the queue could be sent to, in order;
/// - the assistant's messages shown, followed by the replies still to be
///   shown, are the trimmed replies of the calls that succeeded, in order;
/// - the failures reported are the messages of the calls that failed, in
///   order;
/// - up to any point of the conversation, the assistant has not spoken more
///   often than the user; so while no call has failed, each reply stands
///   after the text that it answers.
pub proof fn lemma_first_in_first_out(model: Seq<char>, events: Seq<SessionEvent>)
    ensures
        in_order(run(initial(model), events), events),
    decreases events.len(),
{
    let s = run(initial(model), events);
    if events.len() == 0 {
        assert(prompts(s.calls) + requests(s.queue) =~= submissions(events));
        assert(texts_of(s.shown, Author::Assistant) + s.scheduled =~= replies(s.calls));
        assert forall|k: int| 0 <= k <= s.shown.len() implies texts_of(
            #[trigger] s.shown.take(k),
            Author::Assistant,
        ).len() <= texts_of(s.shown.take(k), Author::User).len() by {
            assert(s.shown.take(k) =~= s.shown);
        }
    } else {
        let earlier = events.drop_last();
        lemma_first_in_first_out(model, earlier);
        lemma_run_orderly(model, earlier);
        lemma_advance_in_order(run(initial(model), earlier), earlier, events.last());
        assert(earlier.push(events.last()) =~= events);
    }
}

} // verus!
