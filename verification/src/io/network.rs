//! The name resolver: the single owner of the directory from node names to
//! addresses. It takes one message at a time, so reading an entry and
//! answering with it cannot be torn apart by a write.

use crate::channel::deliver;
use crate::text::optional_text;
use crate::text_map::TextMap;
use std::sync::mpsc::Sender;
use vstd::prelude::*;

verus! {

/// The directory and its single owner.
pub struct NameResolver {
    directory: TextMap,
}

/// What can be asked of the resolver.
pub enum ResolverMessage {
    /// Write an address under a name.
    AddAddress((String, String)),
    /// Answer with the address under a name.
    GetAddress(NameRequest),
}

/// A lookup and the private channel for its answer.
pub struct NameRequest {
    pub name: String,
    /// Where the answer goes; the asking side waits on the other end.
    pub reply_channel: Sender<Option<String>>,
}

/// What the resolver did with a message.
#[derive(Clone, Debug, PartialEq, Eq)]
pub enum ResolverReply {
    /// An address was written.
    Stored,
    /// A lookup was answered with `address`; `delivered` tells whether the
    /// asking side was still there to take it.
    Answered { address: Option<String>, delivered: bool },
}

/// The address under a name, if the directory holds one.
pub open spec fn resolve(directory: Map<Seq<char>, Seq<char>>, name: Seq<char>) -> Option<Seq<char>> {
    if directory.contains_key(name) {
        Some(directory[name])
    } else {
        None
    }
}

/// The directory after `address` has been written under `name`.
pub open spec fn upserted(
    directory: Map<Seq<char>, Seq<char>>,
    name: Seq<char>,
    address: Seq<char>,
) -> Map<Seq<char>, Seq<char>> {
    directory.insert(name, address)
}

/// The directory after a message.
pub open spec fn after_message(directory: Map<Seq<char>, Seq<char>>, message: ResolverMessage) -> Map<
    Seq<char>,
    Seq<char>,
> {
    match message {
        ResolverMessage::AddAddress((name, address)) => upserted(directory, name@, address@),
        ResolverMessage::GetAddress(_) => directory,
    }
}

impl View for NameResolver {
    type V = Map<Seq<char>, Seq<char>>;

    closed spec fn view(&self) -> Map<Seq<char>, Seq<char>> {
        self.directory@
    }
}

impl NameResolver {
    /// A resolver whose directory holds the seed entries.
    pub fn start(map: TextMap) -> (resolver: NameResolver)
        ensures
            resolver@ == map@,
    {
        NameResolver { directory: map }
    }

    /// Writes `address` under `name`, replacing what was there.
    pub fn upsert(&mut self, name: String, address: String)
        ensures
            final(self)@ == upserted(old(self)@, name@, address@),
    {
        self.directory.insert(name, address);
    }

    /// The address under `name`; `None` if there is none.
    pub fn lookup(&self, name: &str) -> (address: Option<String>)
        ensures
            optional_text(address) == resolve(self@, name@),
    {
        self.directory.get(name)
    }

    /// Takes one message. A write changes the directory and is not
    /// answered. A lookup leaves the directory as it is and sends the
    /// answer on the request's reply channel; if the asking side has gone,
    /// the answer is dropped and the resolver carries on.
    pub fn handle(&mut self, message: ResolverMessage) -> (reply: ResolverReply)
        ensures
            final(self)@ == after_message(old(self)@, message),
            match message {
                ResolverMessage::AddAddress(_) => reply is Stored,
                ResolverMessage::GetAddress(request) => reply matches ResolverReply::Answered {
                    address,
                    ..
                } && optional_text(address) == resolve(old(self)@, request.name@),
            },
    {
        match message {
            ResolverMessage::AddAddress((name, address)) => {
                self.upsert(name, address);
                ResolverReply::Stored
            },
            ResolverMessage::GetAddress(request) => {
                let address = self.lookup(request.name.as_str());
                let answer = match &address {
                    Some(a) => Some(a.clone()),
                    None => None,
                };
                let delivered = deliver(&request.reply_channel, answer);
                ResolverReply::Answered { address, delivered }
            },
        }
    }
}

/// Of two writes under one name the later one is read.
pub proof fn lemma_last_upsert_wins(
    directory: Map<Seq<char>, Seq<char>>,
    name: Seq<char>,
    first: Seq<char>,
    second: Seq<char>,
)
    ensures
        resolve(upserted(upserted(directory, name, first), name, second), name) == Some(second),
        upserted(upserted(directory, name, first), name, second) == upserted(
            directory,
            name,
            second,
        ),
{
    assert(upserted(upserted(directory, name, first), name, second) =~= upserted(
        directory,
        name,
        second,
    ));
}

/// A name that was never written resolves to nothing, and a write under
/// one name leaves every other name as it was.
pub proof fn lemma_other_names_untouched(
    directory: Map<Seq<char>, Seq<char>>,
    name: Seq<char>,
    address: Seq<char>,
    other: Seq<char>,
)
    requires
        other != name,
    ensures
        resolve(upserted(directory, name, address), other) == resolve(directory, other),
        !directory.contains_key(other) ==> resolve(upserted(directory, name, address), other)
            is None,
{
}

/// A lookup does not change what any later lookup reads.
pub proof fn lemma_lookup_changes_nothing(directory: Map<Seq<char>, Seq<char>>, request: NameRequest)
    ensures
        after_message(directory, ResolverMessage::GetAddress(request)) == directory,
{
}

} // verus!
