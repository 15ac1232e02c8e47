//! Turns: when the conversation alternates between the user and the
//! assistant.
//!
//! A user's text is shown the moment it is submitted, so texts submitted in
//! quick succession stand together, ahead of their replies. The conversation
//! alternates where the user takes turns with the assistant: where each text
//! is submitted only after the reply to the one before has been shown.

use crate::conversation::{Author, MessageView};
use crate::inference::{GenerationRequestView, GenerationResultView};
use crate::ollama::{OllamaMessageView, WorkerState, WorkerView};
use crate::session::calls::{all_but_last_ended, lemma_run_orderly};
use crate::session::order::{
    lemma_first_in_first_out, lemma_requests_push, prompts, replies, reply_of, requests,
    submissions, texts_of,
};
use crate::session::{advance, initial, run, CallView, Session, SessionEvent};
use crate::text::trimmed;
use vstd::prelude::*;

verus! {

/// Whether nothing of an earlier turn is under way in `s`: the worker loop
/// is idle, and neither a message nor a reply is waiting.
pub open spec fn at_rest(s: Session) -> bool {
    &&& s.connected
    &&& s.worker.state == WorkerState::Idle
    &&& s.queue.len() == 0
    &&& s.scheduled.len() == 0
}

/// Whether, in the run of `events` from `s`, the user submits only while the
/// session is at rest, and no call fails.
pub open spec fn turn_by_turn(s: Session, events: Seq<SessionEvent>) -> bool
    decreases events.len(),
{
    events.len() == 0 || {
        let before = run(s, events.drop_last());
        &&& turn_by_turn(s, events.drop_last())
        &&& match events.last() {
            SessionEvent::Submit { .. } => at_rest(before),
            SessionEvent::Complete { outcome } => before.worker.state == WorkerState::Generating
                ==> outcome is Ok,
            _ => true,
        }
    }
}

/// Whether `shown` alternates between the user and the assistant, the user
/// first.
pub open spec fn alternating(shown: Seq<MessageView>) -> bool {
    forall|i: int|
        0 <= i < shown.len() ==> (#[trigger] shown[i]).author == if i % 2 == 0 {
            Author::User
        } else {
            Author::Assistant
        }
}

/// The number of turns under way in `s`: requests waiting, calls in flight,
/// and replies not yet shown.
pub open spec fn under_way(s: Session) -> int {
    requests(s.queue).len() + s.scheduled.len() + if s.worker.state == WorkerState::Generating {
        1int
    } else {
        0int
    }
}

/// Whether every call of `calls` that has ended has succeeded.
pub open spec fn none_failed(calls: Seq<CallView>) -> bool {
    forall|k: int|
        0 <= k < calls.len() ==> (#[trigger] calls[k]).outcome is Some ==> calls[k].outcome->0 is Ok
}

/// Whether `s` is a session of turns: at most one turn is under way, the
/// conversation alternates, and it ends with the user's text exactly while a
/// turn is under way.
pub open spec fn paced(s: Session) -> bool {
    &&& 0 <= under_way(s) <= 1
    &&& s.shown.len() % 2 == under_way(s)
    &&& alternating(s.shown)
    &&& none_failed(s.calls)
}

proof fn lemma_advance_paced(s: Session, event: SessionEvent)
    requires
        paced(s),
        event is Submit ==> at_rest(s),
        event matches SessionEvent::Complete { outcome } ==> s.worker.state
            == WorkerState::Generating ==> outcome is Ok,
    ensures
        paced(advance(s, event)),
{
    let t = advance(s, event);
    match event {
        SessionEvent::Submit { text } => {
            lemma_requests_push(s.queue, OllamaMessageView::Generate { text });
            assert(requests(s.queue) =~= Seq::<Seq<char>>::empty());
        },
        SessionEvent::Shutdown => {
            lemma_requests_push(s.queue, OllamaMessageView::Quit);
        },
        SessionEvent::Disconnect => {},
        SessionEvent::Receive => {},
        SessionEvent::Complete { outcome } => {
            if s.worker.state == WorkerState::Generating {
                assert forall|k: int| 0 <= k < t.calls.len() && (
                    #[trigger] t.calls[k]
                ).outcome is Some implies t.calls[k].outcome->0 is Ok by {
                    if k < s.calls.len() - 1 {
                        assert(t.calls[k] == s.calls[k]);
                    }
                }
            }
        },
        SessionEvent::Present => {},
    }
}

/// A run in which the user submits only while the session is at rest, and
/// in which no call fails, leads to a session of turns.
pub proof fn lemma_run_paced(model: Seq<char>, events: Seq<SessionEvent>)
    requires
        turn_by_turn(initial(model), events),
    ensures
        paced(run(initial(model), events)),
    decreases events.len(),
{
    if events.len() == 0 {
        assert(requests(initial(model).queue) =~= Seq::<Seq<char>>::empty());
    } else {
        lemma_run_paced(model, events.drop_last());
        lemma_advance_paced(run(initial(model), events.drop_last()), events.last());
    }
}

/// In a conversation that alternates, the message at position `i` is the
/// `i / 2`-th of its author.
pub proof fn lemma_alternating_texts(shown: Seq<MessageView>)
    requires
        alternating(shown),
    ensures
        texts_of(shown, Author::User).len() == (shown.len() + 1) / 2,
        texts_of(shown, Author::Assistant).len() == shown.len() / 2,
        forall|i: int|
            0 <= i < shown.len() ==> texts_of(shown, (#[trigger] shown[i]).author)[i / 2]
                == shown[i].text,
    decreases shown.len(),
{
    if shown.len() > 0 {
        let earlier = shown.drop_last();
        assert forall|i: int| 0 <= i < earlier.len() implies (#[trigger] earlier[i]).author
            == if i % 2 == 0 {
            Author::User
        } else {
            Author::Assistant
        } by {
            assert(earlier[i] == shown[i]);
        }
        lemma_alternating_texts(earlier);
        assert forall|i: int| 0 <= i < shown.len() implies texts_of(
            shown,
            (#[trigger] shown[i]).author,
        )[i / 2] == shown[i].text by {
            if i < earlier.len() {
                assert(earlier[i] == shown[i]);
            }
        }
    }
}

/// Where no call has failed, the replies are those of the calls that have
/// ended, one for one.
pub proof fn lemma_replies_of_successes(calls: Seq<CallView>)
    requires
        none_failed(calls),
        all_but_last_ended(calls),
    ensures
        replies(calls).len() == if calls.len() > 0 && calls.last().outcome is None {
            calls.len() - 1
        } else {
            calls.len() as int
        },
        forall|k: int|
            0 <= k < replies(calls).len() ==> reply_of(#[trigger] calls[k]) == Some(
                replies(calls)[k],
            ),
    decreases calls.len(),
{
    if calls.len() > 0 {
        let earlier = calls.drop_last();
        assert forall|k: int| 0 <= k < earlier.len() implies (#[trigger] earlier[k]).outcome is Some
            && earlier[k].outcome->0 is Ok by {
            assert(earlier[k] == calls[k]);
        }
        lemma_replies_of_successes(earlier);
        assert forall|k: int| 0 <= k < replies(calls).len() implies reply_of(
            #[trigger] calls[k],
        ) == Some(replies(calls)[k]) by {
            if k < earlier.len() {
                assert(earlier[k] == calls[k]);
            }
        }
    }
}

/// Where the user takes turns with the assistant and no call fails, the
/// conversation shows the texts submitted and the replies to them in
/// alternation: at an even position `i` stands the text submitted as number
/// `i / 2`, and after it, once it has been shown, the trimmed reply of the
/// call that was made for that text.
pub proof fn lemma_turns_alternate(model: Seq<char>, events: Seq<SessionEvent>, i: int)
    requires
        turn_by_turn(initial(model), events),
        0 <= i < run(initial(model), events).shown.len(),
    ensures
        ({
            let s = run(initial(model), events);
            let k = i / 2;
            &&& 0 <= k < submissions(events).len()
            &&& i % 2 == 0 ==> s.shown[i] == MessageView {
                text: submissions(events)[k],
                author: Author::User,
            }
            &&& i % 2 == 1 ==> {
                &&& k < s.calls.len()
                &&& s.calls[k].request.prompt == submissions(events)[k]
                &&& reply_of(s.calls[k]) is Some
                &&& s.shown[i] == MessageView {
                    text: reply_of(s.calls[k])->0,
                    author: Author::Assistant,
                }
            }
        }),
{
    let s = run(initial(model), events);
    let k = i / 2;
    lemma_run_paced(model, events);
    lemma_run_orderly(model, events);
    lemma_first_in_first_out(model, events);
    lemma_alternating_texts(s.shown);
    lemma_replies_of_successes(s.calls);
    assert(texts_of(s.shown, s.shown[i].author)[k] == s.shown[i].text);
    if i % 2 == 1 {
        let shown_replies = texts_of(s.shown, Author::Assistant);
        assert((shown_replies + s.scheduled)[k] == shown_replies[k]);
        assert(k < replies(s.calls).len());
        assert(s.calls[k].outcome is Some);
        let served = prompts(s.calls) + requests(s.queue);
        assert(served[k] == prompts(s.calls)[k]);
        assert(served[k] == submissions(events)[k]);
    }
}

/// Where the user takes turns with the assistant and no call fails, every
/// text submitted is shown, and each but the one whose turn is under way is
/// followed by its reply.
pub proof fn lemma_turns_are_shown(model: Seq<char>, events: Seq<SessionEvent>)
    requires
        turn_by_turn(initial(model), events),
    ensures
        ({
            let s = run(initial(model), events);
            &&& alternating(s.shown)
            &&& 0 <= under_way(s) <= 1
            &&& s.shown.len() == 2 * submissions(events).len() - under_way(s)
        }),
{
    let s = run(initial(model), events);
    lemma_run_paced(model, events);
    lemma_first_in_first_out(model, events);
    lemma_alternating_texts(s.shown);
}

/// One exchange: what the user submits and what the inference client answers.
pub struct Turn {
    pub text: Seq<char>,
    pub result: GenerationResultView,
}

/// The events of a turn that is over before the next begins: the user
/// submits, the worker loop takes the request, the call succeeds, and the
/// reply is shown.
pub open spec fn turn_events(turn: Turn) -> Seq<SessionEvent> {
    seq![
        SessionEvent::Submit { text: turn.text },
        SessionEvent::Receive,
        SessionEvent::Complete { outcome: Ok(turn.result) },
        SessionEvent::Present,
    ]
}

/// The events of `turns`, each over before the next begins.
pub open spec fn events_of(turns: Seq<Turn>) -> Seq<SessionEvent>
    decreases turns.len(),
{
    if turns.len() == 0 {
        Seq::empty()
    } else {
        events_of(turns.drop_last()) + turn_events(turns.last())
    }
}

/// The conversation that `turns` make: for each turn, in order, the user's
/// text followed by the assistant's trimmed reply.
pub open spec fn dialogue(turns: Seq<Turn>) -> Seq<MessageView> {
    Seq::new(
        2 * turns.len(),
        |i: int|
            if i % 2 == 0 {
                MessageView { text: turns[i / 2].text, author: Author::User }
            } else {
                MessageView { text: trimmed(turns[i / 2].result.text), author: Author::Assistant }
            },
    )
}

/// The call that turn `i` of `turns` makes: its prompt is the user's text,
/// its token the one that the turn before returned.
pub open spec fn turn_call(model: Seq<char>, turns: Seq<Turn>, i: int) -> CallView {
    CallView {
        model,
        request: GenerationRequestView {
            prompt: turns[i].text,
            continuation: if i == 0 {
                None
            } else {
                turns[i - 1].result.new_continuation
            },
        },
        outcome: Some(Ok(turns[i].result)),
    }
}

/// Running `first` and then `second` is running the two in a row.
pub proof fn lemma_run_concat(s: Session, first: Seq<SessionEvent>, second: Seq<SessionEvent>)
    ensures
        run(s, first + second) == run(run(s, first), second),
    decreases second.len(),
{
    if second.len() == 0 {
        assert(first + second =~= first);
    } else {
        lemma_run_concat(s, first, second.drop_last());
        assert((first + second).drop_last() =~= first + second.drop_last());
        assert((first + second).last() == second.last());
    }
}

/// The session after the four events of `turn`, from a session in which
/// nothing is waiting.
proof fn lemma_one_turn(s: Session, turn: Turn)
    requires
        s.worker.state == WorkerState::Idle,
        s.queue.len() == 0,
        s.scheduled.len() == 0,
        s.connected,
    ensures
        run(s, turn_events(turn)) == (Session {
            shown: s.shown.push(MessageView { text: turn.text, author: Author::User }).push(
                MessageView { text: trimmed(turn.result.text), author: Author::Assistant },
            ),
            worker: WorkerView { continuation: turn.result.new_continuation, ..s.worker },
            calls: s.calls.push(
                CallView {
                    model: s.worker.model,
                    request: GenerationRequestView {
                        prompt: turn.text,
                        continuation: s.worker.continuation,
                    },
                    outcome: Some(Ok(turn.result)),
                },
            ),
            ..s
        }),
{
    let events = turn_events(turn);
    let e3 = events.drop_last();
    let e2 = e3.drop_last();
    let e1 = e2.drop_last();
    let s1 = advance(s, events[0]);
    let s2 = advance(s1, events[1]);
    let s3 = advance(s2, events[2]);
    let s4 = advance(s3, events[3]);
    assert(run(s, e1.drop_last()) == s);
    assert(e1.last() == events[0] && run(s, e1) == s1);
    assert(e2.last() == events[1] && run(s, e2) == s2);
    assert(e3.last() == events[2] && run(s, e3) == s3);
    assert(events.last() == events[3] && run(s, events) == s4);
    assert(s1.queue.first() == OllamaMessageView::Generate { text: turn.text });
    assert(s2.queue =~= s.queue);
    assert(s3.calls =~= s.calls.push(
        CallView {
            model: s.worker.model,
            request: GenerationRequestView {
                prompt: turn.text,
                continuation: s.worker.continuation,
            },
            outcome: Some(Ok(turn.result)),
        },
    ));
    assert(s3.scheduled.first() == trimmed(turn.result.text));
    assert(s4.scheduled =~= s.scheduled);
}

/// Running `first` and then `second` turn by turn is running the two in a
/// row turn by turn.
pub proof fn lemma_turn_by_turn_concat(
    s: Session,
    first: Seq<SessionEvent>,
    second: Seq<SessionEvent>,
)
    requires
        turn_by_turn(s, first),
        turn_by_turn(run(s, first), second),
    ensures
        turn_by_turn(s, first + second),
    decreases second.len(),
{
    if second.len() == 0 {
        assert(first + second =~= first);
    } else {
        lemma_turn_by_turn_concat(s, first, second.drop_last());
        lemma_run_concat(s, first, second.drop_last());
        assert((first + second).drop_last() =~= first + second.drop_last());
        assert((first + second).last() == second.last());
    }
}

/// The four events of a turn, from a session at rest, are taken turn by turn.
proof fn lemma_one_turn_by_turn(s: Session, turn: Turn)
    requires
        at_rest(s),
    ensures
        turn_by_turn(s, turn_events(turn)),
{
    let events = turn_events(turn);
    let e3 = events.drop_last();
    let e2 = e3.drop_last();
    let e1 = e2.drop_last();
    assert(turn_by_turn(s, e1.drop_last()) && run(s, e1.drop_last()) == s);
    assert(e1.last() == events[0] && turn_by_turn(s, e1));
    assert(e2.last() == events[1] && turn_by_turn(s, e2));
    assert(e3.last() == events[2] && turn_by_turn(s, e3));
    assert(events.last() == events[3]);
}

/// After any number of successful turns, each over before the next begins,
/// the conversation shows the user's texts and the assistant's replies in
/// alternation and in the order of submission; one call was made per turn,
/// with the token that the turn before returned; and nothing is left waiting.
pub proof fn lemma_turns_make_dialogue(model: Seq<char>, turns: Seq<Turn>)
    ensures
        ({
            let s = run(initial(model), events_of(turns));
            &&& s.shown == dialogue(turns)
            &&& s.calls == Seq::new(turns.len(), |i: int| turn_call(model, turns, i))
            &&& s.worker == WorkerView {
                model,
                state: WorkerState::Idle,
                continuation: if turns.len() == 0 {
                    None
                } else {
                    turns.last().result.new_continuation
                },
            }
            &&& s.queue.len() == 0
            &&& s.scheduled.len() == 0
            &&& s.connected
        }),
        turn_by_turn(initial(model), events_of(turns)),
    decreases turns.len(),
{
    let s = run(initial(model), events_of(turns));
    if turns.len() == 0 {
        assert(s.shown =~= dialogue(turns));
        assert(s.calls =~= Seq::new(turns.len(), |i: int| turn_call(model, turns, i)));
    } else {
        let before = turns.drop_last();
        let n = before.len() as int;
        let s0 = run(initial(model), events_of(before));
        lemma_turns_make_dialogue(model, before);
        lemma_run_concat(initial(model), events_of(before), turn_events(turns.last()));
        lemma_one_turn(s0, turns.last());
        lemma_one_turn_by_turn(s0, turns.last());
        lemma_turn_by_turn_concat(initial(model), events_of(before), turn_events(turns.last()));
        assert(s.shown =~= dialogue(turns)) by {
            assert forall|i: int| 0 <= i < 2 * n + 2 implies s.shown[i] == dialogue(turns)[i] by {
                if i < 2 * n {
                    assert(s.shown[i] == dialogue(before)[i]);
                    assert(before[i / 2] == turns[i / 2]);
                }
            }
        }
        assert(s.calls =~= Seq::new(turns.len(), |i: int| turn_call(model, turns, i))) by {
            assert forall|i: int| 0 <= i < n + 1 implies s.calls[i] == turn_call(
                model,
                turns,
                i,
            ) by {
                if i < n {
                    assert(s.calls[i] == s0.calls[i]);
                    assert(before[i] == turns[i]);
                }
                if 0 < i {
                    assert(before[i - 1] == turns[i - 1]);
                }
            }
        }
    }
}

} // verus!
