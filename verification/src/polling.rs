//! Asking Twitter for mentions: what the agent does next, given what happened.
use vstd::prelude::*;

use crate::passages;
use crate::platforms;
use crate::platforms::{TweetData, UserData};
use crate::text;

verus! {

/// Where the agent stands with Twitter.
#[derive(Clone, Debug)]
pub enum Polling {
    /// It asks who it is.
    Identifying,
    /// It waits until the interval is over.
    Waiting { user_id: String, since_id: Option<String> },
    /// It asks for the mentions behind a tweet.
    Asking { user_id: String, since_id: Option<String> },
    /// It does nothing any more.
    Ended,
}

/// What happened.
#[derive(Clone, Debug)]
pub enum PollEvent {
    /// The agent's own account came.
    Identified(UserData),
    /// The account did not come.
    Unknown,
    /// The interval is over.
    Elapsed,
    /// Mentions came, with the accounts that made them and the newest tweet.
    Mentioned { tweets: Vec<TweetData>, users: Vec<UserData>, newest_id: Option<String> },
    /// No answer came.
    Unanswered,
    /// The service is to stop.
    Shutdown,
}

/// What is to be done.
#[derive(Clone, Debug)]
pub enum PollAction {
    /// Ask for the agent's own account.
    Identify,
    /// Wait for the interval or the end of the service.
    Wait,
    /// Ask at this address.
    Ask(String),
    /// Answer these tweets in order, and wait.
    Answer { tweets: Vec<TweetData>, users: Vec<UserData> },
    /// Leave.
    Leave,
}

/// The tweet behind which the next mentions are asked for.
pub open spec fn since(p: Polling) -> Option<Seq<char>> {
    match p {
        Polling::Waiting { since_id, .. } => text::opt_text(since_id),
        Polling::Asking { since_id, .. } => text::opt_text(since_id),
        _ => None,
    }
}

/// The account whose mentions are asked for.
pub open spec fn account(p: Polling) -> Option<Seq<char>> {
    match p {
        Polling::Waiting { user_id, .. } => Some(user_id@),
        Polling::Asking { user_id, .. } => Some(user_id@),
        _ => None,
    }
}

/// Where the agent stands behind an event. One that cannot come there ends it.
pub open spec fn next_polling(p: Polling, e: PollEvent) -> Polling {
    match (p, e) {
        (Polling::Identifying, PollEvent::Identified(me)) => Polling::Waiting {
            user_id: me.id,
            since_id: None,
        },
        (Polling::Waiting { user_id, since_id }, PollEvent::Elapsed) => Polling::Asking {
            user_id,
            since_id,
        },
        (
            Polling::Asking { user_id, since_id },
            PollEvent::Mentioned { newest_id, .. },
        ) => Polling::Waiting {
            user_id,
            since_id: if newest_id is Some {
                newest_id
            } else {
                since_id
            },
        },
        (Polling::Asking { user_id, since_id }, PollEvent::Unanswered) => Polling::Waiting {
            user_id,
            since_id,
        },
        _ => Polling::Ended,
    }
}

/// What is to be done, where the agent stands so behind an event.
pub open spec fn calls_for(p: Polling, e: PollEvent, a: PollAction) -> bool {
    match p {
        Polling::Identifying => a is Identify,
        Polling::Waiting { .. } => match e {
            PollEvent::Mentioned { tweets, users, .. } => a == (PollAction::Answer {
                tweets,
                users,
            }),
            _ => a is Wait,
        },
        Polling::Asking { user_id, since_id } => a is Ask && a->Ask_0@
            == platforms::mentions_address(user_id@, text::opt_text(since_id)),
        Polling::Ended => a is Leave,
    }
}

impl Polling {
    /// The start, and what is to be done there.
    pub fn start() -> (r: (Polling, PollAction))
        ensures
            r.0 == Polling::Identifying,
            r.1 == PollAction::Identify,
    {
        (Polling::Identifying, PollAction::Identify)
    }

    /// Where the agent stands behind an event, and what is to be done there.
    pub fn step(self, event: PollEvent) -> (r: (Polling, PollAction))
        ensures
            r.0 == next_polling(self, event),
            calls_for(r.0, event, r.1),
    {
        match self {
            Polling::Identifying => match event {
                PollEvent::Identified(me) => (
                    Polling::Waiting { user_id: me.id, since_id: None },
                    PollAction::Wait,
                ),
                _ => (Polling::Ended, PollAction::Leave),
            },
            Polling::Waiting { user_id, since_id } => match event {
                PollEvent::Elapsed => {
                    let url = platforms::mentions_url(user_id.as_str(), &since_id);
                    (Polling::Asking { user_id, since_id }, PollAction::Ask(url))
                },
                _ => (Polling::Ended, PollAction::Leave),
            },
            Polling::Asking { user_id, since_id } => match event {
                PollEvent::Mentioned { tweets, users, newest_id } => (
                    Polling::Waiting {
                        user_id,
                        since_id: platforms::next_since(since_id, newest_id),
                    },
                    PollAction::Answer { tweets, users },
                ),
                PollEvent::Unanswered => (
                    Polling::Waiting { user_id, since_id },
                    PollAction::Wait,
                ),
                _ => (Polling::Ended, PollAction::Leave),
            },
            Polling::Ended => (Polling::Ended, PollAction::Leave),
        }
    }
}

/// Where the agent stands behind several events.
pub open spec fn after(p: Polling, events: Seq<PollEvent>) -> Polling
    decreases events.len(),
{
    if events.len() == 0 {
        p
    } else {
        next_polling(after(p, events.drop_last()), events.last())
    }
}

/// The newest tweet that the events tell of.
pub open spec fn newest_told(events: Seq<PollEvent>) -> Option<Seq<char>>
    decreases events.len(),
{
    if events.len() == 0 {
        None
    } else {
        match events.last() {
            PollEvent::Mentioned { newest_id: Some(id), .. } => Some(id@),
            _ => newest_told(events.drop_last()),
        }
    }
}

/// Until the service ends, mentions are asked for behind the newest tweet that any
/// answer told of, and of one account. Failures change neither.
pub proof fn polls_go_on_from_the_newest(events: Seq<PollEvent>)
    requires
        events.len() > 0,
        !(after(Polling::Identifying, events) is Ended),
    ensures
        events[0] is Identified,
        account(after(Polling::Identifying, events)) == Some(events[0]->Identified_0.id@),
        since(after(Polling::Identifying, events)) == newest_told(events),
    decreases events.len(),
{
    let front = events.drop_last();
    if front.len() == 0 {
        assert(after(Polling::Identifying, front) == Polling::Identifying);
        assert(newest_told(front) is None);
    } else {
        polls_go_on_from_the_newest(front);
        assert(front[0] == events[0]);
    }
}

/// Where the service has ended, no event makes it go on.
pub proof fn the_end_is_final(events: Seq<PollEvent>)
    ensures
        after(Polling::Ended, events) == Polling::Ended,
    decreases events.len(),
{
    if events.len() > 0 {
        the_end_is_final(events.drop_last());
    }
}

/// Behind an answer the agent answers exactly the tweets that came, with the accounts
/// that came with them, and goes on asking behind the newest of them. Behind the interval
/// it asks for the mentions of its own account behind the newest tweet.
pub proof fn mentions_are_answered(p: Polling, e: PollEvent, a: PollAction)
    requires
        calls_for(next_polling(p, e), e, a),
    ensures
        p is Asking && e is Mentioned ==> a is Answer && a->Answer_tweets == e->Mentioned_tweets
            && a->Answer_users == e->Mentioned_users && account(next_polling(p, e)) == account(p)
            && since(next_polling(p, e)) == if e->newest_id is Some {
            text::opt_text(e->newest_id)
        } else {
            since(p)
        },
        p is Asking && e is Unanswered ==> a is Wait && account(next_polling(p, e)) == account(p)
            && since(next_polling(p, e)) == since(p),
        p is Waiting && e is Elapsed ==> a is Ask && text::has(a->Ask_0@, account(p).unwrap()) && (
        since(p) is Some ==> passages::in_order(
            a->Ask_0@,
            seq![account(p).unwrap(), since(p).unwrap()],
        )),
        a is Answer ==> p is Asking && e is Mentioned,
        a is Ask ==> p is Waiting && e is Elapsed,
{
    if p is Waiting && e is Elapsed {
        let who = account(p).unwrap();
        match since(p) {
            Some(s) => {
                platforms::mentions_are_asked_for(who, s);
                passages::lemma_each(a->Ask_0@, seq![who, s], 0);
            },
            None => {
                platforms::mentions_are_asked_for(who, Seq::empty());
            },
        }
    }
}

} // verus!
