//! The exit actor's table of live streams.

use vstd::prelude::*;
use crate::cryptde::PublicKey;
use crate::route::Route;
use crate::stream::StreamKey;
use crate::wallet::{clone_wallet, wallet_view, Wallet};

verus! {

/// What the exit actor remembers about a stream: the way back to the
/// client, the key to seal answers for, and who pays.
#[derive(Debug, PartialEq, Eq)]
pub struct StreamContext {
    pub return_route: Route,
    pub payload_destination_key: PublicKey,
    pub consuming_wallet: Option<Wallet>,
}

/// A stream context as a mathematical value.
pub struct StreamContextView {
    pub return_route: Seq<Seq<u8>>,
    pub payload_destination_key: Seq<u8>,
    pub consuming_wallet: Option<Seq<char>>,
}

impl View for StreamContext {
    type V = StreamContextView;

    open spec fn view(&self) -> StreamContextView {
        StreamContextView {
            return_route: self.return_route@,
            payload_destination_key: self.payload_destination_key@,
            consuming_wallet: wallet_view(self.consuming_wallet),
        }
    }
}

impl Clone for StreamContext {
    fn clone(&self) -> (copy: Self)
        ensures
            copy@ == self@,
    {
        StreamContext {
            return_route: self.return_route.clone(),
            payload_destination_key: self.payload_destination_key.clone(),
            consuming_wallet: clone_wallet(&self.consuming_wallet),
        }
    }
}

/// The map that a list of entries stands for. Where a key occurs twice the
/// later entry counts.
pub open spec fn contexts_of(entries: Seq<(StreamKey, StreamContext)>) -> Map<
    Seq<u8>,
    StreamContextView,
>
    decreases entries.len(),
{
    if entries.len() == 0 {
        Map::empty()
    } else {
        contexts_of(entries.drop_last()).insert(entries.last().0@, entries.last().1@)
    }
}

/// The contexts of the live streams, by stream key.
#[derive(Debug, PartialEq, Eq)]
pub struct StreamContexts {
    pub entries: Vec<(StreamKey, StreamContext)>,
}

impl View for StreamContexts {
    type V = Map<Seq<u8>, StreamContextView>;

    open spec fn view(&self) -> Map<Seq<u8>, StreamContextView> {
        contexts_of(self.entries@)
    }
}

impl StreamContexts {
    pub fn new() -> (table: StreamContexts)
        ensures
            table@ == Map::<Seq<u8>, StreamContextView>::empty(),
    {
        StreamContexts { entries: Vec::new() }
    }

    /// The context of the stream `key`, if the stream is live.
    pub fn get(&self, key: &StreamKey) -> (r: Option<&StreamContext>)
        ensures
            match r {
                Some(context) => self@.contains_key(key@) && self@[key@] == context@,
                None => !self@.contains_key(key@),
            },
    {
        let mut i: usize = self.entries.len();
        assert(self.entries@.subrange(0, i as int) =~= self.entries@);
        while i > 0
            invariant
                i <= self.entries@.len(),
                self@.contains_key(key@) == contexts_of(
                    self.entries@.subrange(0, i as int),
                ).contains_key(key@),
                self@.contains_key(key@) ==> self@[key@] == contexts_of(
                    self.entries@.subrange(0, i as int),
                )[key@],
            decreases i,
        {
            let ghost upto = self.entries@.subrange(0, i as int);
            assert(upto.drop_last() =~= self.entries@.subrange(0, i as int - 1));
            assert(upto.last() == self.entries@[i as int - 1]);
            i -= 1;
            if self.entries[i].0.equals(key) {
                return Some(&self.entries[i].1);
            }
        }
        None
    }

    /// Forgets the stream `key`. Says whether it was live.
    pub fn remove(&mut self, key: &StreamKey) -> (was_live: bool)
        ensures
            final(self)@ == old(self)@.remove(key@),
            was_live == old(self)@.contains_key(key@),
    {
        let mut kept: Vec<(StreamKey, StreamContext)> = Vec::new();
        let mut was_live = false;
        let mut entries: Vec<(StreamKey, StreamContext)> = Vec::new();
        std::mem::swap(&mut self.entries, &mut entries);
        let ghost all = entries@;
        assert(all.subrange(0, 0) =~= Seq::<(StreamKey, StreamContext)>::empty());
        assert(contexts_of(kept@) =~= contexts_of(all.subrange(0, 0)).remove(key@));
        for entry in it: entries
            invariant
                it.seq() == all,
                contexts_of(kept@) == contexts_of(all.subrange(0, it.index() as int)).remove(key@),
                was_live == contexts_of(all.subrange(0, it.index() as int)).contains_key(key@),
        {
            let ghost seen = all.subrange(0, it.index() as int + 1);
            assert(seen.drop_last() =~= all.subrange(0, it.index() as int));
            assert(seen.last() == entry);
            let ghost before = kept@;
            if entry.0.equals(key) {
                was_live = true;
                assert(contexts_of(kept@) =~= contexts_of(seen).remove(key@));
            } else {
                kept.push(entry);
                assert(kept@.drop_last() =~= before);
                assert(contexts_of(kept@) =~= contexts_of(seen).remove(key@));
            }
        }
        assert(all.subrange(0, all.len() as int) =~= all);
        self.entries = kept;
        was_live
    }

    /// Remembers `context` for the stream `key`, in place of whatever was
    /// remembered for it before.
    pub fn insert(&mut self, key: StreamKey, context: StreamContext)
        ensures
            final(self)@ == old(self)@.insert(key@, context@),
    {
        self.remove(&key);
        let ghost before = self.entries@;
        self.entries.push((key, context));
        assert(self.entries@.drop_last() =~= before);
        assert(self@ =~= old(self)@.insert(key@, context@));
    }

    /// The number of entries held.
    pub fn len(&self) -> (n: usize)
        ensures
            n == self.entries@.len(),
    {
        self.entries.len()
    }
}

} // verus!
