//! What a card of the list decides: the application it shows carries a
//! status that the user changes by choosing a token or by stepping along
//! the cycle, and each change asks for one status update.

use vstd::prelude::*;
use vstd::string::*;
use crate::ident::Id;
use crate::model::AllApplicationsResponse;
use crate::status::Status;

verus! {

/// A request to give the application `id` the status `status`.
#[derive(Clone, Copy, PartialEq, Eq, Structural, Debug, Hash)]
pub struct StatusUpdate {
    pub id: Id,
    pub status: Status,
}

/// The state of one card: the application it stands for and the status it
/// shows, which runs ahead of the stored one until the list is fetched
/// again.
#[derive(Clone, Copy, PartialEq, Eq, Structural, Debug, Hash)]
pub struct Card {
    pub id: Id,
    pub status: Status,
}

/// The class of the select box of a card that shows `status`.
pub open spec fn select_class_text(status: Status) -> Seq<char> {
    "status-select "@ + status.class_text()
}

impl Card {
    /// The card for a list entry.
    pub fn new(application: &AllApplicationsResponse) -> (card: Card)
        ensures
            card == (Card { id: application.id, status: application.status }),
    {
        Card { id: application.id, status: application.status }
    }

    /// The user has chosen `value` in the select box. Where it is a status
    /// token, the card shows that status at once and asks for the update;
    /// any other value is ignored.
    pub fn select(&mut self, value: &str) -> (update: Option<StatusUpdate>)
        ensures
            match Status::from_token(value@) {
                Some(status) => *final(self) == (Card { id: old(self).id, status }) && update
                    == Some(StatusUpdate { id: old(self).id, status }),
                None => *final(self) == *old(self) && update is None,
            },
    {
        match Status::from_str(value) {
            Ok(status) => {
                self.status = status;
                Some(StatusUpdate { id: self.id, status })
            },
            Err(_) => None,
        }
    }

    /// The user has clicked to step along the cycle. The card shows the
    /// next status at once and asks for the update.
    pub fn advance(&mut self) -> (update: StatusUpdate)
        ensures
            *final(self) == (Card { id: old(self).id, status: old(self).status.successor() }),
            update == (StatusUpdate { id: old(self).id, status: old(self).status.successor() }),
    {
        self.status = self.status.advance();
        StatusUpdate { id: self.id, status: self.status }
    }

    /// Whether the select box marks `option` as the chosen one.
    pub fn is_selected(&self, option: Status) -> (chosen: bool)
        ensures
            chosen == (self.status == option),
    {
        self.status == option
    }

    /// The class of the select box.
    pub fn select_class(&self) -> (class: String)
        ensures
            class@ == select_class_text(self.status),
    {
        let mut class = String::from_str("status-select ");
        class.append(self.status.css_class());
        class
    }
}

} // verus!
