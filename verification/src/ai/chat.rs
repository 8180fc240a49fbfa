//! The record of a conversation, and what the chat server answers.

use vstd::prelude::*;

verus! {

/// A conversation as the chat server keeps it: a list of turns, each turn the
/// user's message followed by the reply. `internal` is what the model is
/// given, `visible` what is shown.
#[derive(Debug, Clone)]
pub struct History {
    pub internal: Vec<Vec<String>>,
    pub visible: Vec<Vec<String>>,
}

/// A conversation as plain sequences.
pub struct HistoryView {
    pub internal: Seq<Seq<Seq<char>>>,
    pub visible: Seq<Seq<Seq<char>>>,
}

/// `turns` without its last turn; the empty list stays empty.
pub open spec fn without_last(turns: Seq<Seq<Seq<char>>>) -> Seq<Seq<Seq<char>>> {
    if turns.len() == 0 {
        turns
    } else {
        turns.drop_last()
    }
}

impl HistoryView {
    /// The conversation with the last turn taken off both lists.
    pub open spec fn undone(self) -> HistoryView {
        HistoryView { internal: without_last(self.internal), visible: without_last(self.visible) }
    }

    /// The reply of the last internal turn, if there is a turn.
    pub open spec fn last_reply(self) -> Option<Seq<char>> {
        if self.internal.len() == 0 {
            None
        } else {
            Some(self.internal.last()[1])
        }
    }

    /// Whether the last internal turn, if there is one, holds a reply.
    pub open spec fn last_turn_is_complete(self) -> bool {
        self.internal.len() > 0 ==> self.internal.last().len() >= 2
    }
}

impl View for History {
    type V = HistoryView;

    open spec fn view(&self) -> HistoryView {
        HistoryView { internal: self.internal.deep_view(), visible: self.visible.deep_view() }
    }
}

/// Copies a list of turns.
fn copy_turns(turns: &Vec<Vec<String>>) -> (copy: Vec<Vec<String>>)
    ensures
        copy.deep_view() == turns.deep_view(),
{
    let mut copy: Vec<Vec<String>> = Vec::new();
    let mut i: usize = 0;
    while i < turns.len()
        invariant
            i <= turns.len(),
            copy.len() == i,
            forall|k: int| 0 <= k < i ==> copy@[k].deep_view() == turns@[k].deep_view(),
        decreases turns.len() - i,
    {
        let turn: &Vec<String> = &turns[i];
        let mut lines: Vec<String> = Vec::new();
        let mut j: usize = 0;
        while j < turn.len()
            invariant
                j <= turn.len(),
                lines.len() == j,
                forall|k: int| 0 <= k < j ==> lines@[k]@ == turn@[k]@,
            decreases turn.len() - j,
        {
            lines.push(turn[j].clone());
            j += 1;
        }
        assert(lines.deep_view() =~= turn.deep_view());
        copy.push(lines);
        i += 1;
    }
    assert(copy.deep_view() =~= turns.deep_view());
    copy
}

impl History {
    /// Takes the last turn off the conversation and returns a copy of what is
    /// left.
    pub fn undo(&mut self) -> (rest: History)
        ensures
            final(self)@ == old(self)@.undone(),
            rest@ == old(self)@.undone(),
    {
        let _ = self.internal.pop();
        let _ = self.visible.pop();
        assert(self.internal.deep_view() =~= without_last(old(self).internal.deep_view()));
        assert(self.visible.deep_view() =~= without_last(old(self).visible.deep_view()));
        History { internal: copy_turns(&self.internal), visible: copy_turns(&self.visible) }
    }

    /// The reply of the last turn, or `None` for an empty conversation.
    pub fn last(self) -> (reply: Option<String>)
        requires
            self@.last_turn_is_complete(),
        ensures
            reply.deep_view() == self@.last_reply(),
    {
        let mut history: History = self;
        match history.internal.pop() {
            Some(turn) => {
                assert(turn.deep_view() == self@.internal.last());
                Some(turn[1].clone())
            },
            None => None,
        }
    }
}

/// One answer of the chat server.
#[derive(Debug, Clone)]
pub struct ChatResult {
    pub history: History,
}

/// The body of the chat server's response.
#[derive(Debug)]
pub struct ApiResponse {
    pub results: Vec<ChatResult>,
}

/// Why a request to the chat server gave no answer.
#[derive(Debug, Clone, Copy, PartialEq, Eq, Structural)]
pub enum ApiError {
    ServerNotUp,
    SeverStarting,
    ImageServerNotUp,
    Unknown,
}

/// The error that a response stands for when its body is no answer, by HTTP
/// status.
pub open spec fn error_of_status(status: u16) -> ApiError {
    if status == 401 {
        ApiError::SeverStarting
    } else if status == 404 {
        ApiError::ServerNotUp
    } else if status == 200 {
        ApiError::ImageServerNotUp
    } else {
        ApiError::Unknown
    }
}

/// Names the error for a response whose body could not be read as an answer.
pub fn error_for_status(status: u16) -> (error: ApiError)
    ensures
        error == error_of_status(status),
{
    if status == 401 {
        ApiError::SeverStarting
    } else if status == 404 {
        ApiError::ServerNotUp
    } else if status == 200 {
        ApiError::ImageServerNotUp
    } else {
        ApiError::Unknown
    }
}

} // verus!
