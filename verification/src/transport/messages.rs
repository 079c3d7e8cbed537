//! What client and server tell each other.

use vstd::prelude::*;

use crate::types::ChangeHash;

verus! {

/// Which view of which repository an exchange is about. The token travels in the metadata of
/// the request, and the field for it stays empty.
#[derive(Debug)]
pub struct ViewRequest {
    /// The owner of the repository.
    pub owner: String,
    /// The name of the repository.
    pub repo: String,
    /// The view.
    pub view: String,
    /// The field for the token.
    pub token: String,
}

/// A request for the changes of a view that are not in a list.
#[derive(Debug)]
pub struct PullRequest {
    /// Which view.
    pub target: ViewRequest,
    /// The hashes of the changes that are not wanted.
    pub have_hashes: Vec<Vec<u8>>,
}

/// The request names the view, and no token.
pub open spec fn asks_for(
    request: ViewRequest,
    owner: Seq<char>,
    repo: Seq<char>,
    view: Seq<char>,
) -> bool {
    &&& request.owner@ == owner
    &&& request.repo@ == repo
    &&& request.view@ == view
    &&& request.token@ == Seq::<char>::empty()
}

/// A request about a view.
pub fn view_request(owner: &String, repo: &String, view: &String) -> (request: ViewRequest)
    ensures
        asks_for(request, owner@, repo@, view@),
{
    ViewRequest {
        owner: owner.clone(),
        repo: repo.clone(),
        view: view.clone(),
        token: String::new(),
    }
}

/// The list holds the bytes of the hashes, in their order.
pub open spec fn is_have_list(list: Seq<Vec<u8>>, hashes: Seq<ChangeHash>) -> bool {
    &&& list.len() == hashes.len()
    &&& forall|i: int| 0 <= i < list.len() ==> (#[trigger] list[i])@ == hashes[i].bytes@
}

/// The bytes of the hashes, in their order.
pub fn have_list(hashes: &Vec<ChangeHash>) -> (list: Vec<Vec<u8>>)
    ensures
        is_have_list(list@, hashes@),
{
    let mut list: Vec<Vec<u8>> = Vec::new();
    let mut i: usize = 0;
    while i < hashes.len()
        invariant
            i <= hashes@.len(),
            list@.len() == i,
            forall|j: int| 0 <= j < i ==> (#[trigger] list@[j])@ == hashes@[j].bytes@,
        decreases hashes@.len() - i,
    {
        list.push(hashes[i].to_vec());
        i = i + 1;
    }
    list
}

/// The changes of a store whose hashes could be read.
pub open spec fn readable(listed: Seq<Option<ChangeHash>>) -> Seq<ChangeHash>
    decreases listed.len(),
{
    if listed.len() == 0 {
        Seq::empty()
    } else {
        match listed.last() {
            Some(hash) => readable(listed.drop_last()).push(hash),
            None => readable(listed.drop_last()),
        }
    }
}

/// The changes of a store whose hashes could be read.
pub fn readable_hashes(listed: &Vec<Option<ChangeHash>>) -> (hashes: Vec<ChangeHash>)
    ensures
        hashes@ == readable(listed@),
{
    let mut hashes: Vec<ChangeHash> = Vec::new();
    let mut i: usize = 0;
    while i < listed.len()
        invariant
            i <= listed@.len(),
            hashes@ == readable(listed@.take(i as int)),
        decreases listed@.len() - i,
    {
        assert(listed@.take(i + 1).drop_last() =~= listed@.take(i as int));
        match &listed[i] {
            Some(hash) => {
                hashes.push(*hash);
            },
            None => {},
        }
        i = i + 1;
    }
    assert(listed@.take(i as int) =~= listed@);
    hashes
}

} // verus!
