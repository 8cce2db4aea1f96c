//! The conversation history and the order of the steps of one interaction.

use vstd::prelude::*;

verus! {

/// Who a message is from.
#[derive(Clone, Copy, Debug, PartialEq, Eq, Structural)]
pub enum Role {
    /// The instructions given to the assistant.
    System,
    /// The person speaking.
    User,
    /// The assistant's reply.
    Assistant,
}

/// One entry of the history.
#[derive(Debug)]
pub struct Message {
    /// Who the message is from.
    pub role: Role,
    /// What it says.
    pub content: String,
}

/// Whether the message at `index` is the assistant's latest: it is from the
/// assistant, and no message after it is.
pub open spec fn is_last_reply(history: Seq<(Role, Seq<char>)>, index: int) -> bool {
    &&& 0 <= index < history.len()
    &&& history[index].0 == Role::Assistant
    &&& forall|later: int|
        index < later < history.len() ==> (#[trigger] history[later]).0 != Role::Assistant
}

/// The history of a conversation: it opens with the system message and only
/// ever grows at its end.
#[derive(Debug)]
pub struct Conversation {
    messages: Vec<Message>,
}

impl View for Conversation {
    type V = Seq<(Role, Seq<char>)>;

    closed spec fn view(&self) -> Seq<(Role, Seq<char>)> {
        Seq::new(self.messages@.len(), |i: int| (self.messages@[i].role, self.messages@[i].content@))
    }
}

impl Conversation {
    /// A history that holds the system message alone.
    pub fn new(system_prompt: String) -> (conversation: Conversation)
        ensures
            conversation@ == seq![(Role::System, system_prompt@)],
    {
        let mut messages: Vec<Message> = Vec::new();
        messages.push(Message { role: Role::System, content: system_prompt });
        let conversation = Conversation { messages };
        proof {
            assert(conversation@ =~= seq![(Role::System, system_prompt@)]);
        }
        conversation
    }

    /// Appends a message; all earlier messages stay as they are.
    pub fn push(&mut self, role: Role, content: String)
        ensures
            final(self)@ == old(self)@.push((role, content@)),
    {
        self.messages.push(Message { role, content });
        proof {
            assert(self@ =~= old(self)@.push((role, content@)));
        }
    }

    /// The number of messages.
    pub fn len(&self) -> (len: usize)
        ensures
            len == self@.len(),
    {
        self.messages.len()
    }

    /// The assistant's latest message, which is the reply to be spoken;
    /// `None` where the assistant has said nothing yet.
    pub fn last_reply(&self) -> (reply: Option<&Message>)
        ensures
            reply is None <==> forall|i: int|
                0 <= i < self@.len() ==> (#[trigger] self@[i]).0 != Role::Assistant,
            reply matches Some(message) ==> exists|index: int|
                is_last_reply(self@, index) && #[trigger] self@[index] == (
                    message.role,
                    message.content@,
                ),
    {
        let mut index: usize = self.messages.len();
        while index > 0
            invariant
                index <= self.messages@.len(),
                forall|later: int|
                    index <= later < self@.len() ==> (#[trigger] self@[later]).0
                        != Role::Assistant,
            decreases index,
        {
            index = index - 1;
            let message = &self.messages[index];
            if message.role == Role::Assistant {
                proof {
                    assert(self@[index as int] == (message.role, message.content@));
                    assert(is_last_reply(self@, index as int));
                }
                return Some(message);
            }
        }
        None
    }

    /// The message at `index`, counted from the system message.
    pub fn message(&self, index: usize) -> (message: &Message)
        requires
            index < self@.len(),
        ensures
            (message.role, message.content@) == self@[index as int],
    {
        &self.messages[index]
    }
}

/// Where one interaction stands, from the finished recording to the end of
/// playback. Each stage but the last two names the collaborator to call
/// next.
#[derive(Clone, Copy, Debug, PartialEq, Eq, Structural)]
pub enum Stage {
    /// The recording is to be transcribed.
    Transcribing,
    /// A reply to the history is to be generated.
    Responding,
    /// The reply is to be turned into speech.
    Synthesizing,
    /// The speech is to be played.
    Playing,
    /// Everything was done.
    Done,
    /// A step failed, and what would have followed it was left out.
    Aborted,
}

/// What a collaborator came back with.
#[derive(Debug)]
pub enum Outcome {
    /// A text: the transcript, or the reply.
    Text(String),
    /// Success with nothing to hand back.
    Completed,
    /// The call failed.
    Failed,
}

/// The stage that follows `stage` once its collaborator came back with
/// `outcome`: the next in order where the outcome is the one that stage
/// waits for, `Aborted` otherwise.
pub open spec fn stage_after(stage: Stage, outcome: Outcome) -> Stage {
    match (stage, outcome) {
        (Stage::Transcribing, Outcome::Text(_)) => Stage::Responding,
        (Stage::Responding, Outcome::Text(_)) => Stage::Synthesizing,
        (Stage::Synthesizing, Outcome::Completed) => Stage::Playing,
        (Stage::Playing, Outcome::Completed) => Stage::Done,
        _ => Stage::Aborted,
    }
}

/// The history after that step: the transcript joins it as a user message,
/// the reply as an assistant message; nothing else changes it.
pub open spec fn history_after(
    history: Seq<(Role, Seq<char>)>,
    stage: Stage,
    outcome: Outcome,
) -> Seq<(Role, Seq<char>)> {
    match (stage, outcome) {
        (Stage::Transcribing, Outcome::Text(text)) => history.push((Role::User, text@)),
        (Stage::Responding, Outcome::Text(text)) => history.push((Role::Assistant, text@)),
        _ => history,
    }
}

/// Whether an interaction at `stage` has nothing left to do.
pub fn is_over(stage: Stage) -> (over: bool)
    ensures
        over == (stage == Stage::Done || stage == Stage::Aborted),
{
    match stage {
        Stage::Done => true,
        Stage::Aborted => true,
        _ => false,
    }
}

/// Moves one interaction on by one step: records in `conversation` what the
/// collaborator of `stage` handed back and says what comes next.
pub fn advance(stage: Stage, outcome: Outcome, conversation: &mut Conversation) -> (next: Stage)
    ensures
        next == stage_after(stage, outcome),
        final(conversation)@ == history_after(old(conversation)@, stage, outcome),
{
    match (stage, outcome) {
        (Stage::Transcribing, Outcome::Text(text)) => {
            conversation.push(Role::User, text);
            Stage::Responding
        },
        (Stage::Responding, Outcome::Text(text)) => {
            conversation.push(Role::Assistant, text);
            Stage::Synthesizing
        },
        (Stage::Synthesizing, Outcome::Completed) => Stage::Playing,
        (Stage::Playing, Outcome::Completed) => Stage::Done,
        _ => Stage::Aborted,
    }
}

/// The history only grows: after any step every earlier message is still in
/// its place.
pub proof fn lemma_history_grows(history: Seq<(Role, Seq<char>)>, stage: Stage, outcome: Outcome)
    ensures
        history.len() <= history_after(history, stage, outcome).len(),
        history_after(history, stage, outcome).take(history.len() as int) == history,
{
    assert(history_after(history, stage, outcome).take(history.len() as int) =~= history);
}

/// Once the reply has been recorded, it is the assistant's latest message.
pub proof fn lemma_reply_is_last(history: Seq<(Role, Seq<char>)>, outcome: Outcome)
    requires
        outcome is Text,
    ensures
        is_last_reply(history_after(history, Stage::Responding, outcome), history.len() as int),
        history_after(history, Stage::Responding, outcome)[history.len() as int] == (
            Role::Assistant,
            outcome->Text_0@,
        ),
{
}

} // verus!
