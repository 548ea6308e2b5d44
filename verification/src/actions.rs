//! The actions that the games and menus hand to the bot: edits of an embed, pauses,
//! reactions, replies, and money moved.

use vstd::prelude::*;

verus! {

/// What a game or a menu asks the bot to do, in order.
pub enum Action {
    /// Edit the embed of the bot's message: a title and, where there is one, a description.
    Edit { title: String, description: Option<String> },
    /// Add a reaction to the bot's message.
    React(char),
    /// Wait this many milliseconds.
    Pause(u64),
    /// Add this amount to the wallet of the user who started it.
    Credit(i64),
    /// Add this amount to the server's pool of lost money.
    AddToPool(i64),
    /// Reply to the user's command message.
    Reply(String),
    /// Write a line to the bot's console.
    Log(String),
}

/// An action as the contracts see it.
pub enum ActionView {
    Edit(Seq<char>, Option<Seq<char>>),
    React(char),
    Pause(u64),
    Credit(i64),
    AddToPool(i64),
    Reply(Seq<char>),
    Log(Seq<char>),
}

impl View for Action {
    type V = ActionView;

    open spec fn view(&self) -> ActionView {
        match self {
            Action::Edit { title, description } => ActionView::Edit(
                title@,
                match description { Some(d) => Some(d@), None => None },
            ),
            Action::React(c) => ActionView::React(*c),
            Action::Pause(ms) => ActionView::Pause(*ms),
            Action::Credit(a) => ActionView::Credit(*a),
            Action::AddToPool(a) => ActionView::AddToPool(*a),
            Action::Reply(s) => ActionView::Reply(s@),
            Action::Log(s) => ActionView::Log(s@),
        }
    }
}

/// The actions of a list, as the contracts see them.
pub open spec fn actions_view(acts: Seq<Action>) -> Seq<ActionView> {
    acts.map_values(|a: Action| a@)
}

/// Appends an action to a list.
pub fn emit(acts: &mut Vec<Action>, a: Action)
    ensures
        actions_view(final(acts)@) == actions_view(old(acts)@).push(a@),
{
    let ghost v = a@;
    acts.push(a);
    assert(actions_view(acts@) =~= actions_view(old(acts)@).push(v));
}

/// The title and the description of an embed.
pub struct EditContent {
    pub title: String,
    pub description: String,
}

impl Clone for EditContent {
    fn clone(&self) -> (r: EditContent)
        ensures
            r.title@ == self.title@,
            r.description@ == self.description@,
    {
        EditContent { title: self.title.clone(), description: self.description.clone() }
    }
}

} // verus!
