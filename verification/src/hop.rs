//! One layer of a route, in the clear.

use vstd::prelude::*;
use crate::cryptde::{
    decodex, decodex_spec, decodex_view, encodex, encodex_spec, sealed_view, CryptDE, CryptData,
    CryptdecError, PublicKey,
};
use crate::dispatcher::Component;
use crate::wallet::{wallet_view, Wallet};
use crate::wire::{
    blob, lemma_blob_parsed, lemma_optional_text_parsed, lemma_parse_blob,
    lemma_parse_optional_text, lemma_parse_tag, lemma_tag_parsed, optional_text, optional_text_fits,
    parse_blob, parse_optional_text, parse_tag, put_blob, put_optional_text, put_tag, take_blob,
    take_optional_text, take_tag, Wire,
};

verus! {

/// The byte every hop directive starts with: the head of a list of three.
/// Padding never starts with it.
pub const HOP_MARK: u8 = 0x83;

/// What a node learns when it opens the hop addressed to it: where the
/// package goes next, who pays, and which of its own components takes it.
#[derive(Debug, PartialEq, Eq)]
pub struct LiveHop {
    /// The node to pass the package to; empty at the end of the route.
    pub public_key: PublicKey,
    pub consuming_wallet: Option<Wallet>,
    pub component: Component,
}

/// A hop directive as a mathematical value.
pub struct LiveHopView {
    pub public_key: Seq<u8>,
    pub consuming_wallet: Option<Seq<char>>,
    pub component: Component,
}

impl View for LiveHop {
    type V = LiveHopView;

    open spec fn view(&self) -> LiveHopView {
        LiveHopView {
            public_key: self.public_key@,
            consuming_wallet: wallet_view(self.consuming_wallet),
            component: self.component,
        }
    }
}

impl Clone for LiveHop {
    fn clone(&self) -> (copy: Self)
        ensures
            copy@ == self@,
    {
        LiveHop {
            public_key: self.public_key.clone(),
            consuming_wallet: crate::wallet::clone_wallet(&self.consuming_wallet),
            component: self.component,
        }
    }
}

impl Wire for LiveHop {
    open spec fn wire(v: LiveHopView) -> Seq<u8> {
        seq![HOP_MARK] + blob(v.public_key) + optional_text(v.consuming_wallet) + seq![
            v.component.tag_spec(),
        ]
    }

    open spec fn parse(s: Seq<u8>) -> Option<(LiveHopView, Seq<u8>)> {
        match parse_tag(s) {
            Some((mark, after_mark)) => if mark == HOP_MARK {
                match parse_blob(after_mark) {
                    Some((public_key, after_key)) => match parse_optional_text(after_key) {
                        Some((consuming_wallet, after_wallet)) => match parse_tag(after_wallet) {
                            Some((tag, rest)) => match Component::from_tag_spec(tag) {
                                Some(component) => Some(
                                    (LiveHopView { public_key, consuming_wallet, component }, rest),
                                ),
                                None => None,
                            },
                            None => None,
                        },
                        None => None,
                    },
                    None => None,
                }
            } else {
                None
            },
            None => None,
        }
    }

    open spec fn fits(v: LiveHopView) -> bool {
        v.public_key.len() <= u64::MAX && optional_text_fits(v.consuming_wallet)
    }

    fn put(&self, out: &mut Vec<u8>) {
        put_tag(out, HOP_MARK);
        put_blob(out, self.public_key.as_slice());
        match &self.consuming_wallet {
            Some(w) => put_optional_text(out, Some(w.address.as_str())),
            None => put_optional_text(out, None),
        }
        put_tag(out, self.component.tag());
        assert(out@ =~= old(out)@ + Self::wire(self@));
    }

    fn take<'a>(input: &'a [u8]) -> (r: Option<(Self, &'a [u8])>) {
        let (mark, after_mark) = take_tag(input)?;
        if mark != HOP_MARK {
            return None;
        }
        let (key, after_key) = take_blob(after_mark)?;
        let (address, after_wallet) = take_optional_text(after_key)?;
        let (tag, rest) = take_tag(after_wallet)?;
        let component = Component::from_tag(tag)?;
        let consuming_wallet = match address {
            Some(a) => Some(Wallet { address: a }),
            None => None,
        };
        Some((LiveHop { public_key: PublicKey::new(key), consuming_wallet, component }, rest))
    }

    proof fn lemma_parse_wire(v: LiveHopView, rest: Seq<u8>) {
        let tail = seq![v.component.tag_spec()] + rest;
        let after_key = optional_text(v.consuming_wallet) + tail;
        let after_mark = blob(v.public_key) + after_key;
        assert(Self::wire(v) + rest =~= seq![HOP_MARK] + after_mark);
        lemma_parse_tag(HOP_MARK, after_mark);
        lemma_parse_blob(v.public_key, after_key);
        lemma_parse_optional_text(v.consuming_wallet, tail);
        lemma_parse_tag(v.component.tag_spec(), rest);
    }

    proof fn lemma_wire_parsed(s: Seq<u8>) {
        let (v, rest) = Self::parse(s)->Some_0;
        lemma_tag_parsed(s);
        let after_mark = parse_tag(s)->Some_0.1;
        lemma_blob_parsed(after_mark);
        let after_key = parse_blob(after_mark)->Some_0.1;
        lemma_optional_text_parsed(after_key);
        let after_wallet = parse_optional_text(after_key)->Some_0.1;
        lemma_tag_parsed(after_wallet);
        assert(Self::wire(v) + rest =~= seq![HOP_MARK] + (blob(v.public_key) + (optional_text(
            v.consuming_wallet,
        ) + (seq![v.component.tag_spec()] + rest))));
    }
}

impl LiveHop {
    pub fn new(key: &PublicKey, consuming_wallet: Option<Wallet>, component: Component) -> (hop:
        LiveHop)
        ensures
            hop@ == (LiveHopView {
                public_key: key@,
                consuming_wallet: wallet_view(consuming_wallet),
                component,
            }),
    {
        LiveHop { public_key: key.clone(), consuming_wallet, component }
    }

    /// Opens the blob `crypt_data` and reads the hop directive in it.
    pub fn decode<C: CryptDE>(cryptde: &C, crypt_data: &CryptData) -> (r: Result<
        LiveHop,
        CryptdecError,
    >)
        ensures
            decodex_view(r) == decodex_spec::<C, LiveHop>(cryptde, crypt_data@),
    {
        decodex::<C, LiveHop>(cryptde, crypt_data)
    }

    /// Seals this directive for the node that holds `public_key`.
    pub fn encode<C: CryptDE>(&self, public_key: &PublicKey, cryptde: &C) -> (r: Result<
        CryptData,
        CryptdecError,
    >)
        ensures
            sealed_view(r) == encodex_spec::<C, LiveHop>(public_key@, self@),
    {
        encodex(cryptde, public_key, self)
    }
}

} // verus!
