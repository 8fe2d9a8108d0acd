//! The five pipeline stages of an application, their wire tokens and display
//! forms, and the cyclic successor relation between them.

use vstd::prelude::*;
use vstd::string::*;
use crate::text::same_text;

verus! {

/// The pipeline stage of an application.
#[derive(Clone, Copy, PartialEq, Eq, Structural, Debug, Hash)]
pub enum Status {
    ToDo,
    Solicitated,
    Pending,
    Accepted,
    Rejected,
}

impl Default for Status {
    fn default() -> (status: Self)
        ensures
            status == Status::ToDo,
    {
        Status::ToDo
    }
}

/// The message that rejects `text` as a status token.
pub open spec fn invalid_status_message(text: Seq<char>) -> Seq<char> {
    "Invalid status: "@ + text
}

impl Status {
    /// The canonical wire token, used for persistence and parsing.
    pub open spec fn token(self) -> Seq<char> {
        match self {
            Status::ToDo => "ToDo"@,
            Status::Solicitated => "Solicitated"@,
            Status::Pending => "Pending"@,
            Status::Accepted => "Accepted"@,
            Status::Rejected => "Rejected"@,
        }
    }

    /// The status whose wire token is exactly `text`, if there is one.
    pub open spec fn from_token(text: Seq<char>) -> Option<Status> {
        if text == Status::ToDo.token() {
            Some(Status::ToDo)
        } else if text == Status::Solicitated.token() {
            Some(Status::Solicitated)
        } else if text == Status::Pending.token() {
            Some(Status::Pending)
        } else if text == Status::Accepted.token() {
            Some(Status::Accepted)
        } else if text == Status::Rejected.token() {
            Some(Status::Rejected)
        } else {
            None
        }
    }

    /// The label shown in the list and on a card.
    pub open spec fn label_text(self) -> Seq<char> {
        match self {
            Status::ToDo => "To Do"@,
            Status::Solicitated => "Solicitated"@,
            Status::Pending => "Pending"@,
            Status::Accepted => "Accepted"@,
            Status::Rejected => "Rejected"@,
        }
    }

    /// The label shown for the status as a choice in a select box.
    pub open spec fn option_text(self) -> Seq<char> {
        match self {
            Status::Solicitated => "Applied"@,
            _ => self.label_text(),
        }
    }

    /// The presentation class tag.
    pub open spec fn class_text(self) -> Seq<char> {
        match self {
            Status::ToDo => "status-todo"@,
            Status::Solicitated => "status-solicitated"@,
            Status::Pending => "status-pending"@,
            Status::Accepted => "status-accepted"@,
            Status::Rejected => "status-rejected"@,
        }
    }

    /// The next stage in the cycle
    /// `ToDo → Solicitated → Pending → Accepted → Rejected → ToDo`.
    pub open spec fn successor(self) -> Status {
        match self {
            Status::ToDo => Status::Solicitated,
            Status::Solicitated => Status::Pending,
            Status::Pending => Status::Accepted,
            Status::Accepted => Status::Rejected,
            Status::Rejected => Status::ToDo,
        }
    }

    /// The stages in pipeline order.
    pub open spec fn pipeline() -> Seq<Status> {
        seq![
            Status::ToDo,
            Status::Solicitated,
            Status::Pending,
            Status::Accepted,
            Status::Rejected,
        ]
    }

    /// The canonical wire token, used for persistence and parsing.
    pub fn as_str(&self) -> (token: &'static str)
        ensures
            token@ == self.token(),
    {
        match self {
            Status::ToDo => "ToDo",
            Status::Solicitated => "Solicitated",
            Status::Pending => "Pending",
            Status::Accepted => "Accepted",
            Status::Rejected => "Rejected",
        }
    }

    /// Parses a wire token. The match is exact: case matters and nothing is
    /// trimmed. Any other text is rejected with a message that quotes it.
    pub fn from_str(s: &str) -> (parsed: Result<Status, String>)
        ensures
            match Status::from_token(s@) {
                Some(status) => parsed == Ok::<Status, String>(status),
                None => parsed matches Err(message) && message@ == invalid_status_message(s@),
            },
    {
        if same_text(s, "ToDo") {
            Ok(Status::ToDo)
        } else if same_text(s, "Solicitated") {
            Ok(Status::Solicitated)
        } else if same_text(s, "Pending") {
            Ok(Status::Pending)
        } else if same_text(s, "Accepted") {
            Ok(Status::Accepted)
        } else if same_text(s, "Rejected") {
            Ok(Status::Rejected)
        } else {
            let mut message = String::from_str("Invalid status: ");
            message.append(s);
            Err(message)
        }
    }

    /// The label shown in the list and on a card.
    pub fn label(&self) -> (label: &'static str)
        ensures
            label@ == self.label_text(),
    {
        match self {
            Status::ToDo => "To Do",
            Status::Solicitated => "Solicitated",
            Status::Pending => "Pending",
            Status::Accepted => "Accepted",
            Status::Rejected => "Rejected",
        }
    }

    /// The label shown for the status as a choice in a select box. It
    /// differs from `label` for `Solicitated` alone, which is offered as
    /// "Applied".
    pub fn option_label(&self) -> (label: &'static str)
        ensures
            label@ == self.option_text(),
    {
        match self {
            Status::Solicitated => "Applied",
            _ => self.label(),
        }
    }

    /// The presentation class tag.
    pub fn css_class(&self) -> (class: &'static str)
        ensures
            class@ == self.class_text(),
    {
        match self {
            Status::ToDo => "status-todo",
            Status::Solicitated => "status-solicitated",
            Status::Pending => "status-pending",
            Status::Accepted => "status-accepted",
            Status::Rejected => "status-rejected",
        }
    }

    /// The label and the presentation class tag, as a pair.
    pub fn render(&self) -> (shown: (&'static str, &'static str))
        ensures
            shown.0@ == self.label_text(),
            shown.1@ == self.class_text(),
    {
        (self.label(), self.css_class())
    }

    /// Moves one step along the cycle.
    pub fn advance(self) -> (next: Status)
        ensures
            next == self.successor(),
    {
        match self {
            Status::ToDo => Status::Solicitated,
            Status::Solicitated => Status::Pending,
            Status::Pending => Status::Accepted,
            Status::Accepted => Status::Rejected,
            Status::Rejected => Status::ToDo,
        }
    }

    /// The stages in pipeline order, as a select box offers them.
    pub fn all() -> (stages: Vec<Status>)
        ensures
            stages@ == Status::pipeline(),
    {
        let mut stages: Vec<Status> = Vec::new();
        stages.push(Status::ToDo);
        stages.push(Status::Solicitated);
        stages.push(Status::Pending);
        stages.push(Status::Accepted);
        stages.push(Status::Rejected);
        assert(stages@ =~= Status::pipeline());
        stages
    }
}

/// The message that rejects a text is never empty, and it ends with the
/// text that it rejects.
pub proof fn lemma_invalid_status_message_is_not_empty(text: Seq<char>)
    ensures
        invalid_status_message(text).len() == 16 + text.len(),
        invalid_status_message(text).subrange(16, 16 + text.len() as int) == text,
{
    reveal_strlit("Invalid status: ");
    assert(invalid_status_message(text).subrange(16, 16 + text.len() as int) =~= text);
}

/// The five wire tokens are pairwise different.
pub proof fn lemma_tokens_differ(a: Status, b: Status)
    ensures
        a.token() == b.token() <==> a == b,
{
    reveal_strlit("ToDo");
    reveal_strlit("Solicitated");
    reveal_strlit("Pending");
    reveal_strlit("Accepted");
    reveal_strlit("Rejected");
    if a != b {
        assert(a.token().len() != b.token().len() || a.token()[0] != b.token()[0]);
    }
}

/// Parsing the token of a status gives that status back.
pub proof fn lemma_token_round_trip(status: Status)
    ensures
        Status::from_token(status.token()) == Some(status),
{
    lemma_tokens_differ(status, Status::ToDo);
    lemma_tokens_differ(status, Status::Solicitated);
    lemma_tokens_differ(status, Status::Pending);
    lemma_tokens_differ(status, Status::Accepted);
    lemma_tokens_differ(status, Status::Rejected);
}

/// Parsing is the inverse of the token mapping: a text parses to a status
/// exactly when it is that status's token, and to nothing exactly when it is
/// the token of no status.
pub proof fn lemma_from_token_is_inverse(text: Seq<char>)
    ensures
        forall|status: Status|
            Status::from_token(text) == Some(status) <==> #[trigger] status.token() == text,
        Status::from_token(text) is None <==> forall|status: Status|
            #[trigger] status.token() != text,
{
    assert forall|status: Status|
        Status::from_token(text) == Some(status) <==> #[trigger] status.token() == text by {
        lemma_token_round_trip(status);
    }
}

/// Five steps along the cycle lead back to the start, and fewer do not.
pub proof fn lemma_advance_cycle(status: Status)
    ensures
        status.successor().successor().successor().successor().successor() == status,
        status.successor() != status,
        status.successor().successor() != status,
        status.successor().successor().successor() != status,
        status.successor().successor().successor().successor() != status,
{
}

/// Every stage is reached from `ToDo` by fewer than five steps, in pipeline
/// order.
pub proof fn lemma_pipeline_follows_successor()
    ensures
        Status::pipeline().len() == 5,
        Status::pipeline()[0] == Status::ToDo,
        forall|i: int|
            0 <= i < 4 ==> Status::pipeline()[i + 1] == (#[trigger] Status::pipeline()[
                i
            ]).successor(),
        forall|status: Status| Status::pipeline().contains(status),
{
    assert forall|status: Status| Status::pipeline().contains(status) by {
        match status {
            Status::ToDo => assert(Status::pipeline()[0] == status),
            Status::Solicitated => assert(Status::pipeline()[1] == status),
            Status::Pending => assert(Status::pipeline()[2] == status),
            Status::Accepted => assert(Status::pipeline()[3] == status),
            Status::Rejected => assert(Status::pipeline()[4] == status),
        }
    }
}

} // verus!
