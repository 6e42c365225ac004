//! Writing a notice: plain text plus link spans whose positions are counted
//! in UTF-16 code units of the text written so far.

use vstd::prelude::*;
use crate::model::{Addressee, Entity, EntityKind, User, addressee_name, addressee_names, user_name};
use crate::units::{units, utf16_len, lemma_units_concat};

verus! {

/// The phrase that ends every notice.
pub open spec fn planted() -> Seq<char> {
    " 种了一棵草。"@
}

/// The phrase between the sender and the addressees.
pub open spec fn planted_for() -> Seq<char> {
    " 为 "@
}

/// The glyph between two addressee names.
pub open spec fn name_separator() -> Seq<char> {
    "、"@
}

/// `names` with `sep` between each two neighbours.
pub open spec fn joined(names: Seq<Seq<char>>, sep: Seq<char>) -> Seq<char>
    decreases names.len(),
{
    if names.len() == 0 {
        Seq::empty()
    } else if names.len() == 1 {
        names[0]
    } else {
        joined(names.drop_last(), sep) + sep + names.last()
    }
}

/// The notice that `sender` planted grass for no one in particular.
pub open spec fn self_notice(sender: User) -> Seq<char> {
    user_name(sender) + planted()
}

/// The notice that `sender` planted grass for `addressees`.
pub open spec fn credit_notice(sender: User, addressees: Seq<Addressee>) -> Seq<char> {
    user_name(sender) + planted_for() + joined(addressee_names(addressees), name_separator())
        + planted()
}

/// The notice for `sender` and `addressees`: credited where there is someone
/// to credit, otherwise the sender's own.
pub open spec fn notice(sender: User, addressees: Seq<Addressee>) -> Seq<char> {
    if addressees.len() == 0 {
        self_notice(sender)
    } else {
        credit_notice(sender, addressees)
    }
}

/// A notice being written: its text so far and the spans over that text.
pub struct MessageBuilder {
    text: String,
    entities: Vec<Entity>,
}

impl View for MessageBuilder {
    type V = (Seq<char>, Seq<Entity>);

    closed spec fn view(&self) -> (Seq<char>, Seq<Entity>) {
        (self.text@, self.entities@)
    }
}

impl MessageBuilder {
    /// Every span ends within the text.
    pub open spec fn wf(&self) -> bool {
        forall|i: int|
            0 <= i < self@.1.len() ==> #[trigger] self@.1[i].offset + self@.1[i].length <= units(
                self@.0,
            )
    }

    /// An empty notice.
    pub fn new() -> (r: MessageBuilder)
        ensures
            r@.0 == Seq::<char>::empty(),
            r@.1 == Seq::<Entity>::empty(),
            r.wf(),
    {
        MessageBuilder { text: String::new(), entities: Vec::new() }
    }

    /// Appends `text` with no span over it.
    pub fn push_text(&mut self, text: &str)
        requires
            old(self).wf(),
        ensures
            final(self)@.0 == old(self)@.0 + text@,
            final(self)@.1 == old(self)@.1,
            final(self).wf(),
    {
        self.text.append(text);
        proof {
            lemma_units_concat(old(self)@.0, text@);
        }
    }

    /// Appends `text` and a link span to `url` that covers exactly it: it
    /// starts at the code-unit length of the text before it and is as long as
    /// `text` in code units.
    pub fn push_text_link(&mut self, text: &str, url: reqwest::Url)
        requires
            old(self).wf(),
        ensures
            final(self)@.0 == old(self)@.0 + text@,
            final(self)@.1 == old(self)@.1.push(
                Entity {
                    kind: EntityKind::TextLink { url },
                    offset: units(old(self)@.0) as usize,
                    length: units(text@) as usize,
                },
            ),
            final(self).wf(),
    {
        let offset = utf16_len(self.text.as_str());
        let length = utf16_len(text);
        self.text.append(text);
        proof {
            lemma_units_concat(old(self)@.0, text@);
        }
        let entity = Entity { kind: EntityKind::TextLink { url }, offset, length };
        self.entities.push(entity);
    }

    /// The finished text and spans, or `None` where nothing was written.
    pub fn build(self) -> (r: Option<(String, Vec<Entity>)>)
        ensures
            r is None <==> self@.0.len() == 0,
            r matches Some(m) ==> m.0@ == self@.0 && m.1@ == self@.1,
    {
        if self.text.as_str().is_empty() {
            return None;
        }
        Some((self.text, self.entities))
    }
}

impl Default for MessageBuilder {
    fn default() -> (r: MessageBuilder)
        ensures
            r@.0 == Seq::<char>::empty(),
            r@.1 == Seq::<Entity>::empty(),
            r.wf(),
    {
        MessageBuilder::new()
    }
}

/// Appends how `user` is named: the first name, then a space and the last name
/// where there is one.
fn push_user_name(builder: &mut MessageBuilder, user: &User)
    requires
        old(builder).wf(),
    ensures
        final(builder)@.0 == old(builder)@.0 + user_name(*user),
        final(builder)@.1 == old(builder)@.1,
        final(builder).wf(),
{
    builder.push_text(user.first_name.as_str());
    if let Some(last_name) = &user.last_name {
        builder.push_text(" ");
        builder.push_text(last_name.as_str());
        assert(builder@.0 =~= old(builder)@.0 + user_name(*user));
    }
}

/// Appends how `addressee` is named.
fn push_addressee_name(builder: &mut MessageBuilder, addressee: &Addressee)
    requires
        old(builder).wf(),
    ensures
        final(builder)@.0 == old(builder)@.0 + addressee_name(*addressee),
        final(builder)@.1 == old(builder)@.1,
        final(builder).wf(),
{
    match addressee {
        Addressee::Resolved(user) => push_user_name(builder, user),
        Addressee::Unresolved(name) => builder.push_text(name.as_str()),
    }
}

/// Appends the notice that `from_user` planted grass.
pub fn grow(builder: &mut MessageBuilder, from_user: &User)
    requires
        old(builder).wf(),
    ensures
        final(builder)@.0 == old(builder)@.0 + self_notice(*from_user),
        final(builder)@.1 == old(builder)@.1,
        final(builder).wf(),
{
    push_user_name(builder, from_user);
    builder.push_text(" 种了一棵草。");
    assert(builder@.0 =~= old(builder)@.0 + self_notice(*from_user));
}

/// Appends the notice that `from_user` planted grass for `to_users`, whose
/// names stand in their order, separated by the separator glyph; where
/// `to_users` is empty, the sender's own notice.
pub fn grow_for(builder: &mut MessageBuilder, from_user: &User, to_users: &[Addressee])
    requires
        old(builder).wf(),
    ensures
        final(builder)@.0 == old(builder)@.0 + notice(*from_user, to_users@),
        final(builder)@.1 == old(builder)@.1,
        final(builder).wf(),
{
    if to_users.len() == 0 {
        grow(builder, from_user);
        return;
    }
    push_user_name(builder, from_user);
    builder.push_text(" 为 ");
    let ghost base = builder@.0;
    let ghost names = addressee_names(to_users@);
    let n = to_users.len();
    let mut i: usize = 0;
    while i < n
        invariant
            0 <= i <= n,
            n == to_users@.len(),
            names == addressee_names(to_users@),
            names.len() == n,
            builder.wf(),
            builder@.1 == old(builder)@.1,
            builder@.0 == base + joined(names.take(i as int), name_separator()),
        decreases n - i,
    {
        let ghost before = builder@.0;
        if i > 0 {
            builder.push_text("、");
        }
        push_addressee_name(builder, &to_users[i]);
        proof {
            let next = names.take(i + 1);
            assert(next.drop_last() =~= names.take(i as int));
            assert(next.last() == addressee_name(to_users@[i as int]));
            if i == 0 {
                assert(names.take(0) =~= Seq::<Seq<char>>::empty());
                assert(builder@.0 =~= base + joined(next, name_separator()));
            } else {
                assert(builder@.0 =~= base + joined(next, name_separator()));
            }
        }
        i = i + 1;
    }
    builder.push_text(" 种了一棵草。");
    assert(names.take(n as int) =~= names);
    assert(builder@.0 =~= old(builder)@.0 + credit_notice(*from_user, to_users@));
}

} // verus!
