//! Which attestations and provenance graphs go with a push.

use vstd::prelude::*;

use crate::text;
use crate::text::take_bytes;
use crate::types::{contains_hash, ChangeHash, ChangeSet};

verus! {

/// An attestation or a provenance graph that was found for a pushed change.
#[derive(Debug)]
pub struct Attached {
    /// Its own hash.
    pub hash: ChangeHash,
    /// The changes that it covers or explains.
    pub covers: Vec<ChangeHash>,
}

/// Every change that it covers was pushed.
pub open spec fn is_covered(covers: Seq<ChangeHash>, pushed: Seq<ChangeHash>) -> bool {
    forall|i: int| 0 <= i < covers.len() ==> pushed.contains(#[trigger] covers[i])
}

/// It is among what was found.
pub open spec fn is_found(found: Seq<Attached>, hash: ChangeHash) -> bool {
    exists|i: int| 0 <= i < found.len() && (#[trigger] found[i]).hash == hash
}

/// What goes with the push: each that was found once, where everything it covers was
/// pushed, in the order in which they were found first.
pub open spec fn selected(found: Seq<Attached>, pushed: Seq<ChangeHash>) -> Seq<ChangeHash>
    decreases found.len(),
{
    if found.len() == 0 {
        Seq::empty()
    } else {
        let earlier = found.drop_last();
        let last = found.last();
        if !is_found(earlier, last.hash) && is_covered(last.covers@, pushed) {
            selected(earlier, pushed).push(last.hash)
        } else {
            selected(earlier, pushed)
        }
    }
}

/// Whether every change that it covers was pushed.
pub fn all_covered(covers: &Vec<ChangeHash>, pushed: &Vec<ChangeHash>) -> (covered: bool)
    ensures
        covered == is_covered(covers@, pushed@),
{
    let mut i: usize = 0;
    while i < covers.len()
        invariant
            i <= covers@.len(),
            forall|j: int| 0 <= j < i ==> pushed@.contains(#[trigger] covers@[j]),
        decreases covers@.len() - i,
    {
        if !contains_hash(pushed, &covers[i]) {
            assert(!pushed@.contains(covers@[i as int]));
            return false;
        }
        i = i + 1;
    }
    true
}

/// What goes with the push of the changes `pushed`, of all that was found for them.
pub fn select_attached(found: &Vec<Attached>, pushed: &Vec<ChangeHash>) -> (hashes: Vec<
    ChangeHash,
>)
    ensures
        hashes@ == selected(found@, pushed@),
{
    let mut seen = ChangeSet::new();
    let mut hashes: Vec<ChangeHash> = Vec::new();
    let mut i: usize = 0;
    while i < found.len()
        invariant
            i <= found@.len(),
            hashes@ == selected(found@.take(i as int), pushed@),
            forall|h: ChangeHash| #[trigger]
                seen@.contains(h) <==> is_found(found@.take(i as int), h),
        decreases found@.len() - i,
    {
        let item = &found[i];
        let ghost before = found@.take(i as int);
        let ghost after = found@.take(i + 1);
        let ghost known = seen@;
        assert(after.drop_last() =~= before);
        assert(after.last() == *item);
        let first = seen.insert(item.hash);
        if first && all_covered(&item.covers, pushed) {
            hashes.push(item.hash);
        }
        assert forall|h: ChangeHash| #[trigger] seen@.contains(h) <==> is_found(after, h) by {
            if is_found(before, h) {
                let j = choose|j: int| 0 <= j < before.len() && (#[trigger] before[j]).hash == h;
                assert(after[j].hash == h);
            }
            if is_found(after, h) {
                let j = choose|j: int| 0 <= j < after.len() && (#[trigger] after[j]).hash == h;
                if j < before.len() {
                    assert(before[j].hash == h);
                }
            }
            if h == item.hash {
                assert(after[i as int].hash == h);
            }
            assert(known.contains(h) <==> is_found(before, h));
        }
        i = i + 1;
    }
    assert(found@.take(i as int) =~= found@);
    hashes
}

/// How many bytes of a hash a warning shows.
pub const SHOWN_HASH_BYTES: usize = 12;

/// What to say of an attestation or a provenance graph that could not be uploaded: `what` it
/// is, the beginning of its hash as text, and why. The hash must have twelve bytes at least,
/// and the twelfth must end a character.
pub fn upload_warning(what: &str, name: &str, why: &str) -> (warning: String)
    requires
        vstd::utf8::encode_utf8(name@).len() >= 12,
        text::has_byte_head(name@, 12),
    ensures
        warning@ == "Failed to upload "@ + what@ + " "@ + text::byte_head(name@, 12) + ": "@ + why@,
{
    let mut warning = "Failed to upload ".to_string();
    warning.append(what);
    warning.append(" ");
    warning.append(take_bytes(name, SHOWN_HASH_BYTES));
    warning.append(": ");
    warning.append(why);
    warning
}

/// Nothing goes with a push twice.
pub proof fn law_attached_once(found: Seq<Attached>, pushed: Seq<ChangeHash>)
    ensures
        selected(found, pushed).no_duplicates(),
{
    lemma_selected(found, pushed);
}

/// What goes with a push was found for it, and covers pushed changes only.
pub proof fn law_attached_are_covered(found: Seq<Attached>, pushed: Seq<ChangeHash>)
    ensures
        forall|h: ChangeHash| #[trigger]
            selected(found, pushed).contains(h) <==> exists|i: int|
                is_first_of(found, h, i) && is_covered((#[trigger] found[i]).covers@, pushed),
{
    lemma_selected(found, pushed);
}

/// The first that was found with this hash is the `i`-th.
pub open spec fn is_first_of(found: Seq<Attached>, hash: ChangeHash, i: int) -> bool {
    &&& 0 <= i < found.len()
    &&& found[i].hash == hash
    &&& !is_found(found.take(i), hash)
}

proof fn lemma_selected(found: Seq<Attached>, pushed: Seq<ChangeHash>)
    ensures
        selected(found, pushed).no_duplicates(),
        forall|h: ChangeHash| #[trigger]
            selected(found, pushed).contains(h) <==> exists|i: int|
                is_first_of(found, h, i) && is_covered((#[trigger] found[i]).covers@, pushed),
    decreases found.len(),
{
    let s = selected(found, pushed);
    if found.len() > 0 {
        let earlier = found.drop_last();
        let e = selected(earlier, pushed);
        let n = found.len() - 1;
        lemma_selected(earlier, pushed);
        assert(found.take(n) =~= earlier);
        assert forall|h: ChangeHash| #[trigger] s.contains(h) <==> exists|i: int|
            is_first_of(found, h, i) && is_covered((#[trigger] found[i]).covers@, pushed) by {
            if s.contains(h) {
                let k = choose|k: int| 0 <= k < s.len() && s[k] == h;
                if k < e.len() {
                    assert(e[k] == h);
                    assert(e.contains(h));
                    let i = choose|i: int|
                        is_first_of(earlier, h, i) && is_covered(
                            (#[trigger] earlier[i]).covers@,
                            pushed,
                        );
                    assert(found[i] == earlier[i]);
                    assert(found.take(i) =~= earlier.take(i));
                    assert(is_first_of(found, h, i));
                } else {
                    assert(is_first_of(found, h, n));
                    assert(is_covered(found[n].covers@, pushed));
                }
            }
            if exists|i: int|
                is_first_of(found, h, i) && is_covered((#[trigger] found[i]).covers@, pushed) {
                let i = choose|i: int|
                    is_first_of(found, h, i) && is_covered((#[trigger] found[i]).covers@, pushed);
                if i < n {
                    assert(found[i] == earlier[i]);
                    assert(found.take(i) =~= earlier.take(i));
                    assert(is_first_of(earlier, h, i));
                    assert(e.contains(h));
                    let k = choose|k: int| 0 <= k < e.len() && e[k] == h;
                    assert(s[k] == h);
                } else {
                    assert(s[e.len() as int] == h);
                }
            }
        }
        if !is_found(earlier, found.last().hash) && is_covered(found.last().covers@, pushed) {
            assert(!e.contains(found.last().hash)) by {
                if e.contains(found.last().hash) {
                    let i = choose|i: int|
                        is_first_of(earlier, found.last().hash, i) && is_covered(
                            (#[trigger] earlier[i]).covers@,
                            pushed,
                        );
                    assert(earlier[i].hash == found.last().hash);
                }
            }
            assert forall|a: int, b: int|
                0 <= a < s.len() && 0 <= b < s.len() && a != b implies s[a] != s[b] by {
                if a == e.len() {
                    assert(e.contains(e[b]));
                }
                if b == e.len() {
                    assert(e.contains(e[a]));
                }
            }
        }
    }
}

/// The hash is one of the list.
pub open spec fn stands_in(hash: ChangeHash, list: Seq<ChangeHash>) -> bool {
    exists|m: int| 0 <= m < list.len() && #[trigger] list[m] == hash
}

/// No earlier find has the hash, and every change that it covers is one of the pushed.
pub open spec fn is_good_find(
    found: Seq<Attached>,
    next: Attached,
    pushed: Seq<ChangeHash>,
) -> bool {
    &&& forall|i: int| 0 <= i < found.len() ==> (#[trigger] found[i]).hash != next.hash
    &&& forall|k: int|
        0 <= k < next.covers@.len() ==> stands_in(#[trigger] next.covers@[k], pushed)
}

/// What goes with a push is found one by one: one more find adds its hash at the end exactly
/// where no earlier find has that hash and every change that it covers is among the pushed.
pub proof fn law_one_more_find_is_judged_by_itself(
    found: Seq<Attached>,
    next: Attached,
    pushed: Seq<ChangeHash>,
)
    ensures
        selected(Seq::empty(), pushed).len() == 0,
        is_good_find(found, next, pushed) ==> selected(found.push(next), pushed) == selected(
            found,
            pushed,
        ).push(next.hash),
        !is_good_find(found, next, pushed) ==> selected(found.push(next), pushed) == selected(
            found,
            pushed,
        ),
{
    let all = found.push(next);
    assert(all.drop_last() =~= found);
    assert(all.last() == next);
    if is_covered(next.covers@, pushed) {
        assert forall|k: int| 0 <= k < next.covers@.len() implies stands_in(
            #[trigger] next.covers@[k],
            pushed,
        ) by {
            assert(pushed.contains(next.covers@[k]));
        }
    } else {
        let k = choose|k: int|
            0 <= k < next.covers@.len() && !pushed.contains(#[trigger] next.covers@[k]);
        assert(!stands_in(next.covers@[k], pushed));
    }
}

} // verus!
