//! The fixed list of bootstrap nodes that a node contacts to join the
//! network.

use vstd::prelude::*;
use crate::peer_id::is_peer_id;

verus! {

/// The relay node that currently serves as the only bootstrap node.
pub const RELAY_NODE: &'static str = "/ip4/35.237.133.42/tcp/4001/p2p/12D3KooWBeY3FuPXggnUu8f56TQde1xfvFpdsLV5coXptn5ztVJG";

/// The bootstrap addresses, in the order in which they are tried.
pub open spec fn bootstrap_node_list() -> Seq<Seq<char>> {
    seq![RELAY_NODE@]
}

/// `s` is a multiaddress that ends in a peer identity: it starts with `/`
/// and ends with `/p2p/` followed by a peer identifier.
pub open spec fn is_multiaddr_with_identity(s: Seq<char>) -> bool {
    &&& s.len() > 0
    &&& s[0] == '/'
    &&& exists|i: int|
        0 <= i && i + 5 <= s.len() && #[trigger] s.subrange(i, i + 5) == "/p2p/"@
            && is_peer_id(s.skip(i + 5))
}

/// The bootstrap addresses, in order. The list is the same on every call.
pub fn get_bootstrap_nodes() -> (r: Vec<String>)
    ensures
        r@.len() == bootstrap_node_list().len(),
        forall|i: int| 0 <= i < r@.len() ==> #[trigger] r@[i]@ == bootstrap_node_list()[i],
{
    let mut nodes: Vec<String> = Vec::new();
    nodes.push(String::from_str(RELAY_NODE));
    nodes
}

/// The bootstrap list is not empty, and each of its entries is a
/// multiaddress with a peer identity.
pub proof fn lemma_bootstrap_nodes_well_formed()
    ensures
        bootstrap_node_list().len() > 0,
        forall|i: int|
            0 <= i < bootstrap_node_list().len() ==> is_multiaddr_with_identity(
                #[trigger] bootstrap_node_list()[i],
            ),
{
    reveal_strlit("/ip4/35.237.133.42/tcp/4001/p2p/12D3KooWBeY3FuPXggnUu8f56TQde1xfvFpdsLV5coXptn5ztVJG");
    reveal_strlit("/p2p/");
    reveal_strlit("12D3");
    let s = RELAY_NODE@;
    assert(s.subrange(27, 32) =~= "/p2p/"@);
    let t = s.skip(32);
    assert(t.subrange(0, 4) =~= crate::peer_id::PEER_ID_PREFIX@);
    assert(is_peer_id(t));
    assert(s.len() > 0 && s[0] == '/');
    let i: int = 27;
    assert(0 <= i && i + 5 <= s.len() && s.subrange(i, i + 5) == "/p2p/"@ && is_peer_id(
        s.skip(i + 5),
    ));
    assert(is_multiaddr_with_identity(s));
}

} // verus!
