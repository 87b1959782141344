//! The parts of a node that a hop can be addressed to.

use vstd::prelude::*;

verus! {

/// The component of the receiving node that a hop hands its package to.
#[derive(Debug, Clone, Copy, PartialEq, Eq, Structural)]
pub enum Component {
    Neighborhood,
    Hopper,
    ProxyServer,
    ProxyClient,
}

impl Component {
    /// The byte that names this component on the wire.
    pub open spec fn tag_spec(self) -> u8 {
        match self {
            Component::Neighborhood => 0,
            Component::Hopper => 1,
            Component::ProxyServer => 2,
            Component::ProxyClient => 3,
        }
    }

    /// The component that a byte names, if it names one.
    pub open spec fn from_tag_spec(tag: u8) -> Option<Component> {
        if tag == 0 {
            Some(Component::Neighborhood)
        } else if tag == 1 {
            Some(Component::Hopper)
        } else if tag == 2 {
            Some(Component::ProxyServer)
        } else if tag == 3 {
            Some(Component::ProxyClient)
        } else {
            None
        }
    }

    pub fn tag(self) -> (t: u8)
        ensures
            t == self.tag_spec(),
    {
        match self {
            Component::Neighborhood => 0,
            Component::Hopper => 1,
            Component::ProxyServer => 2,
            Component::ProxyClient => 3,
        }
    }

    pub fn from_tag(tag: u8) -> (c: Option<Component>)
        ensures
            c == Self::from_tag_spec(tag),
    {
        if tag == 0 {
            Some(Component::Neighborhood)
        } else if tag == 1 {
            Some(Component::Hopper)
        } else if tag == 2 {
            Some(Component::ProxyServer)
        } else if tag == 3 {
            Some(Component::ProxyClient)
        } else {
            None
        }
    }
}

} // verus!
