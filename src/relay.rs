//! One message through the whole pipeline: filter, resolve, compose.

use vstd::prelude::*;
use crate::compose::{MessageBuilder, notice, planted};
use crate::model::{Addressee, Entity, Message, User, addressee_names};
use crate::resolve::{
    ResolveError, fails_with, farm, lemma_resolved_names_unique, resolvable, resolved_as,
};
use crate::trigger::{is_trigger, occurs_any, trigger_words};

verus! {

/// `out` is the notice for `m`: none where `m` has no sender; otherwise the
/// sender's notice for the addressees of `m`, with no spans.
pub open spec fn notice_outcome(m: Message, out: Option<(String, Vec<Entity>)>) -> bool {
    match m.from {
        None => out is None,
        Some(sender) => out matches Some(c) && c.1@.len() == 0 && exists|v: Seq<Addressee>|
            resolved_as(m, v) && c.0@ == notice(sender, v),
    }
}

/// A message has one notice: every list of its addressees gives the same text.
pub proof fn lemma_notice_determined(m: Message, sender: User, v: Seq<Addressee>, w: Seq<Addressee>)
    requires
        resolved_as(m, v),
        resolved_as(m, w),
    ensures
        notice(sender, v) == notice(sender, w),
{
    lemma_resolved_names_unique(m, v, w);
    assert(v.len() == addressee_names(v).len());
    assert(w.len() == addressee_names(w).len());
}

/// The notice for `message`, whatever its text: `None` where it has no sender;
/// fails where its addressees cannot be found.
pub fn compose(message: &Message) -> (r: Result<Option<(String, Vec<Entity>)>, ResolveError>)
    ensures
        r is Err <==> message.from is Some && !resolvable(*message),
        r matches Err(e) ==> fails_with(*message, e),
        r matches Ok(out) ==> notice_outcome(*message, out),
{
    let mut builder = MessageBuilder::new();
    match farm(&mut builder, message) {
        Ok(()) => {
            proof {
                reveal_strlit(" 种了一棵草。");
                assert(planted().len() > 0);
                if message.from is Some {
                    let sender = message.from->0;
                    let v = choose|v: Seq<Addressee>|
                        resolved_as(*message, v) && builder@.0 == notice(sender, v);
                    assert(notice(sender, v).last() == planted().last());
                }
            }
            Ok(builder.build())
        },
        Err(e) => Err(e),
    }
}

/// The notice that `message` calls for: `None` where it has no text or
/// contains no trigger keyword, otherwise what `compose` gives.
pub fn rebroadcast(message: &Message) -> (r: Result<Option<(String, Vec<Entity>)>, ResolveError>)
    ensures
        message.text is None ==> r matches Ok(None),
        message.text matches Some(t) ==> if occurs_any(t@, trigger_words()) {
            &&& (r is Err <==> message.from is Some && !resolvable(*message))
            &&& (r matches Err(e) ==> fails_with(*message, e))
            &&& (r matches Ok(out) ==> notice_outcome(*message, out))
        } else {
            r matches Ok(None)
        },
{
    match &message.text {
        None => Ok(None),
        Some(text) => {
            if is_trigger(text.as_str()) {
                compose(message)
            } else {
                Ok(None)
            }
        },
    }
}

} // verus!
