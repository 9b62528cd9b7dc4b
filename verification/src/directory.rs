//! Entries of the feed directory, as it publishes them.

use vstd::prelude::*;

verus! {

/// A feed of the directory.
#[derive(Clone, Debug)]
pub struct FeedRaw {
    pub contract_address: String,
    pub contract_type: String,
    pub decimal_places: u8,
    pub name: String,
    pub path: String,
}

/// A node of the directory.
#[derive(Clone, Debug)]
pub struct NodeRaw {
    pub id: String,
    pub name: String,
    pub status: String,
    pub node_address: Vec<String>,
}

/// What to encode on the command line: a list of bytes, read as a key pair
/// or as plain material.
#[derive(Clone, Debug)]
pub struct Encode {
    pub keypair: bool,
    pub input: String,
}

} // verus!
