//! Chat participants, messages and the annotation spans over their text.

use vstd::prelude::*;

verus! {

/// A link target, carried unchanged from the caller to the composed message.
#[verifier::external_type_specification]
#[verifier::external_body]
pub struct ExUrl(reqwest::Url);

/// A chat participant.
#[derive(Clone, Debug, PartialEq, Eq)]
pub struct User {
    pub id: u64,
    pub is_bot: bool,
    pub first_name: String,
    pub last_name: Option<String>,
    pub username: Option<String>,
}

/// Whom a notice credits: a known participant, or only the text of an
/// `@name` mention, which carries no identity.
#[derive(Clone, Debug, PartialEq, Eq)]
pub enum Addressee {
    Resolved(User),
    Unresolved(String),
}

/// What an annotation span marks.
#[derive(Debug, PartialEq, Eq)]
pub enum EntityKind {
    /// An `@name` mention; the name is the text that the span covers.
    Mention,
    /// A mention that carries the participant it names.
    TextMention { user: User },
    /// Text that links to `url`.
    TextLink { url: reqwest::Url },
    /// Any other kind of span (formatting, commands, ...).
    Other,
}

/// An annotation span: `length` UTF-16 code units starting `offset` code
/// units into the text it belongs to.
#[derive(Debug, PartialEq, Eq)]
pub struct Entity {
    pub kind: EntityKind,
    pub offset: usize,
    pub length: usize,
}

/// The message that a message answers, as far as it matters here.
#[derive(Clone, Debug, PartialEq, Eq)]
pub struct Reply {
    pub from: Option<User>,
}

/// An incoming chat message.
#[derive(Debug, PartialEq, Eq)]
pub struct Message {
    pub text: Option<String>,
    pub from: Option<User>,
    pub reply_to: Option<Reply>,
    pub entities: Vec<Entity>,
}

/// `first`, followed by a space and `last` where there is a last name.
pub open spec fn full_name(first: Seq<char>, last: Option<String>) -> Seq<char> {
    match last {
        Some(l) => first + " "@ + l@,
        None => first,
    }
}

/// How a participant is named in a notice.
pub open spec fn user_name(u: User) -> Seq<char> {
    full_name(u.first_name@, u.last_name)
}

/// How an addressee is named in a notice.
pub open spec fn addressee_name(a: Addressee) -> Seq<char> {
    match a {
        Addressee::Resolved(u) => user_name(u),
        Addressee::Unresolved(name) => name@,
    }
}

/// The names of `addressees`, in order.
pub open spec fn addressee_names(addressees: Seq<Addressee>) -> Seq<Seq<char>> {
    addressees.map_values(|a: Addressee| addressee_name(a))
}

/// The text of `m`, where it has one.
pub open spec fn text_of(m: Message) -> Option<Seq<char>> {
    match m.text {
        Some(t) => Some(t@),
        None => None,
    }
}

/// The sender of the message that `m` answers, where both exist.
pub open spec fn reply_sender(m: Message) -> Option<User> {
    match m.reply_to {
        Some(r) => r.from,
        None => None,
    }
}

fn copy_text(s: &Option<String>) -> (r: Option<String>)
    ensures
        r == *s,
{
    match s {
        Some(t) => Some(t.clone()),
        None => None,
    }
}

impl User {
    /// An exact copy of this participant.
    pub fn copy(&self) -> (r: User)
        ensures
            r == *self,
    {
        User {
            id: self.id,
            is_bot: self.is_bot,
            first_name: self.first_name.clone(),
            last_name: copy_text(&self.last_name),
            username: copy_text(&self.username),
        }
    }
}

} // verus!
