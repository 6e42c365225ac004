//! Deciding whom a message credits: the sender of the message it answers, or
//! else everyone it mentions, in the order of the mentions.

use vstd::prelude::*;
use crate::compose::{MessageBuilder, grow_for, notice};
use crate::model::{
    Addressee, Entity, EntityKind, Message, addressee_name, addressee_names, reply_sender, text_of,
};
use crate::units::{lemma_span_text_unique, slice_units, span_fits, span_text};

verus! {

/// Why the addressees of a message could not be found.
#[derive(Clone, Copy, Debug, PartialEq, Eq)]
pub enum ResolveError {
    /// An `@name` mention stands in a message without text.
    MissingText,
    /// An `@name` mention's span leaves the text or splits a character.
    InvalidSpan { offset: usize, length: usize },
}

/// `e` names someone: an `@name` mention or a mention that carries a participant.
pub open spec fn is_mention(e: Entity) -> bool {
    e.kind is Mention || e.kind is TextMention
}

/// The mentions among `es`, in order.
pub open spec fn mentions_of(es: Seq<Entity>) -> Seq<Entity>
    decreases es.len(),
{
    if es.len() == 0 {
        Seq::empty()
    } else if is_mention(es.last()) {
        mentions_of(es.drop_last()).push(es.last())
    } else {
        mentions_of(es.drop_last())
    }
}

/// The mentions of `m`, in order.
pub open spec fn mentions(m: Message) -> Seq<Entity> {
    mentions_of(m.entities@)
}

/// The mention `e` can be turned into an addressee: where it is an `@name`
/// mention, the message has text and the span fits it.
pub open spec fn mention_resolves(text: Option<Seq<char>>, e: Entity) -> bool {
    e.kind is Mention ==> (text matches Some(t) && span_fits(t, e.offset as int, e.length as int))
}

/// `a` is the addressee that mention `e` over `text` stands for: the participant
/// it carries, or for an `@name` mention the text that its span covers.
pub open spec fn addressee_of(text: Option<Seq<char>>, e: Entity, a: Addressee) -> bool {
    match e.kind {
        EntityKind::TextMention { user } => a == Addressee::Resolved(user),
        EntityKind::Mention => match (text, a) {
            (Some(t), Addressee::Unresolved(name)) => span_text(
                t,
                e.offset as int,
                e.length as int,
                name@,
            ),
            _ => false,
        },
        _ => false,
    }
}

/// The addressees of `m` can be found: it answers a message with a sender, or
/// each of its mentions resolves.
pub open spec fn resolvable(m: Message) -> bool {
    reply_sender(m) is Some || forall|i: int|
        0 <= i < mentions(m).len() ==> mention_resolves(text_of(m), #[trigger] mentions(m)[i])
}

/// `e` explains why the addressees of `m` cannot be found: an `@name` mention
/// in a message without text, or one whose span does not fit the text.
pub open spec fn fails_with(m: Message, e: ResolveError) -> bool {
    match e {
        ResolveError::MissingText => m.text is None,
        ResolveError::InvalidSpan { offset, length } => match text_of(m) {
            Some(t) => exists|i: int|
                0 <= i < mentions(m).len() && (#[trigger] mentions(m)[i]).kind is Mention
                    && mentions(m)[i].offset == offset && mentions(m)[i].length == length
                    && !span_fits(t, offset as int, length as int),
            None => false,
        },
    }
}

/// `v` are the addressees of `m`: the sender of the message it answers alone,
/// where there is one; otherwise one addressee for each mention, in order.
pub open spec fn resolved_as(m: Message, v: Seq<Addressee>) -> bool {
    match reply_sender(m) {
        Some(u) => v == seq![Addressee::Resolved(u)],
        None => {
            &&& v.len() == mentions(m).len()
            &&& forall|i: int|
                0 <= i < v.len() ==> addressee_of(text_of(m), #[trigger] mentions(m)[i], v[i])
        },
    }
}

/// Two lists that both hold the addressees of `m` name the same people in
/// the same order: the mentions fix the names, whatever text the spans cover.
pub proof fn lemma_resolved_names_unique(m: Message, v: Seq<Addressee>, w: Seq<Addressee>)
    requires
        resolved_as(m, v),
        resolved_as(m, w),
    ensures
        addressee_names(v) == addressee_names(w),
{
    if reply_sender(m) is None {
        assert forall|i: int| 0 <= i < v.len() implies addressee_names(v)[i] == addressee_names(
            w,
        )[i] by {
            let e = mentions(m)[i];
            assert(addressee_of(text_of(m), e, v[i]));
            assert(addressee_of(text_of(m), e, w[i]));
            if e.kind is Mention {
                lemma_span_text_unique(
                    text_of(m)->0,
                    e.offset as int,
                    e.length as int,
                    addressee_name(v[i]),
                    addressee_name(w[i]),
                );
            }
        }
        assert(addressee_names(v) =~= addressee_names(w));
    }
}

/// The addressee that mention `e` over the text of `message` stands for.
fn resolve_mention(message: &Message, e: &Entity) -> (r: Result<Addressee, ResolveError>)
    requires
        is_mention(*e),
    ensures
        r is Ok <==> mention_resolves(text_of(*message), *e),
        r matches Ok(a) ==> addressee_of(text_of(*message), *e, a),
        r matches Err(ResolveError::MissingText) ==> message.text is None,
        r matches Err(ResolveError::InvalidSpan { offset, length }) ==> {
            &&& e.kind is Mention
            &&& offset == e.offset && length == e.length
            &&& (text_of(*message) matches Some(t) && !span_fits(t, offset as int, length as int))
        },
{
    match &e.kind {
        EntityKind::TextMention { user } => Ok(Addressee::Resolved(user.copy())),
        _ => match &message.text {
            None => Err(ResolveError::MissingText),
            Some(t) => match slice_units(t.as_str(), e.offset, e.length) {
                Some(name) => Ok(Addressee::Unresolved(name)),
                None => Err(ResolveError::InvalidSpan { offset: e.offset, length: e.length }),
            },
        },
    }
}

/// The addressees of `message`: the sender of the message it answers, where
/// there is one; otherwise one for each mention, in the order of the mentions,
/// which is empty where there are none. Fails on the first `@name` mention
/// that cannot be read from the text.
pub fn resolve_addressees(message: &Message) -> (r: Result<Vec<Addressee>, ResolveError>)
    ensures
        r is Ok <==> resolvable(*message),
        r matches Ok(v) ==> resolved_as(*message, v@),
        r matches Err(e) ==> fails_with(*message, e),
{
    if let Some(reply) = &message.reply_to {
        if let Some(to_user) = &reply.from {
            let mut v: Vec<Addressee> = Vec::new();
            v.push(Addressee::Resolved(to_user.copy()));
            assert(v@ =~= seq![Addressee::Resolved(*to_user)]);
            return Ok(v);
        }
    }
    let ghost es = message.entities@;
    let mut v: Vec<Addressee> = Vec::new();
    let n = message.entities.len();
    let mut i: usize = 0;
    while i < n
        invariant
            0 <= i <= n,
            n == es.len(),
            es == message.entities@,
            reply_sender(*message) is None,
            v@.len() == mentions_of(es.take(i as int)).len(),
            forall|k: int|
                0 <= k < v@.len() ==> addressee_of(
                    text_of(*message),
                    #[trigger] mentions_of(es.take(i as int))[k],
                    v@[k],
                ),
            forall|k: int|
                0 <= k < v@.len() ==> mention_resolves(
                    text_of(*message),
                    #[trigger] mentions_of(es.take(i as int))[k],
                ),
        decreases n - i,
    {
        let e = &message.entities[i];
        let ghost prev = mentions_of(es.take(i as int));
        assert(es.take(i + 1).drop_last() =~= es.take(i as int));
        assert(es.take(i + 1).last() == es[i as int]);
        let named = match &e.kind {
            EntityKind::Mention => true,
            EntityKind::TextMention { .. } => true,
            _ => false,
        };
        if named {
            match resolve_mention(message, e) {
                Ok(a) => {
                    v.push(a);
                },
                Err(err) => {
                    proof {
                        let all = mentions_of(es);
                        lemma_mentions_prefix(es, i as int + 1);
                        let k = prev.len() as int;
                        assert(mentions_of(es.take(i + 1))[k] == es[i as int]);
                        assert(all[k] == es[i as int]);
                        assert(es.take(es.len() as int) =~= es);
                        assert(!mention_resolves(text_of(*message), all[k]));
                        assert(mentions(*message) == all);
                        assert(0 <= k < mentions(*message).len());
                        assert(!resolvable(*message));
                        assert(fails_with(*message, err));
                    }
                    return Err(err);
                },
            }
        }
        i = i + 1;
    }
    proof {
        assert(es.take(n as int) =~= es);
    }
    Ok(v)
}

/// The mentions of a prefix of `es` are a prefix of the mentions of `es`.
proof fn lemma_mentions_prefix(es: Seq<Entity>, i: int)
    requires
        0 <= i <= es.len(),
    ensures
        mentions_of(es.take(i)).len() <= mentions_of(es).len(),
        forall|k: int|
            0 <= k < mentions_of(es.take(i)).len() ==> #[trigger] mentions_of(es.take(i))[k]
                == mentions_of(es)[k],
    decreases es.len() - i,
{
    if i < es.len() {
        lemma_mentions_prefix(es, i + 1);
        let longer = es.take(i + 1);
        assert(longer.drop_last() =~= es.take(i));
        assert(longer.len() > 0);
        let a = mentions_of(es.take(i));
        let b = mentions_of(longer);
        assert(b == a || b == a.push(longer.last()));
        assert forall|k: int| 0 <= k < a.len() implies #[trigger] a[k] == mentions_of(es)[k] by {
            assert(a[k] == b[k]);
        }
    } else {
        assert(es.take(i) =~= es);
    }
}

/// Writes the notice for `message`: nothing where it has no sender; otherwise
/// the sender's notice, crediting the addressees that `resolve_addressees`
/// finds. Where they cannot be found, writes nothing and fails as it does.
pub fn farm(builder: &mut MessageBuilder, message: &Message) -> (r: Result<(), ResolveError>)
    requires
        old(builder).wf(),
    ensures
        final(builder).wf(),
        final(builder)@.1 == old(builder)@.1,
        r is Err <==> message.from is Some && !resolvable(*message),
        r matches Err(e) ==> fails_with(*message, e),
        r is Err || message.from is None ==> final(builder)@ == old(builder)@,
        message.from matches Some(sender) ==> (r is Ok ==> exists|v: Seq<Addressee>|
            resolved_as(*message, v) && final(builder)@.0 == old(builder)@.0 + notice(sender, v)),
{
    if let Some(from_user) = &message.from {
        match resolve_addressees(message) {
            Ok(to_users) => {
                grow_for(builder, from_user, to_users.as_slice());
                assert(resolved_as(*message, to_users@));
                Ok(())
            },
            Err(e) => Err(e),
        }
    } else {
        Ok(())
    }
}

} // verus!
