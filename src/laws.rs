use vstd::prelude::*;
use crate::post::{Post, stamp, bytes_less, lemma_bytes_less_asymmetric};
use crate::db::{ids_unique, newest_first, has_id, added, deleted, synced};

verus! {

/// After a post is added, the listing holds exactly one record with its id,
/// and that record is the post itself.
pub proof fn lemma_added_listed_once(before: Seq<Post>, p: Post, after: Seq<Post>)
    requires
        ids_unique(before),
        added(before, p, after),
    ensures
        exists|i: int|
            0 <= i < after.len() && after[i] == p && forall|j: int|
                0 <= j < after.len() && j != i ==> (#[trigger] after[j]).id@ != p.id@,
{
    let k = choose|k: int| 0 <= k <= before.len() && after == before.insert(k, p);
    assert(after[k] == p);
    assert forall|j: int| 0 <= j < after.len() && j != k implies (#[trigger] after[j]).id@ != p.id@ by {
        let b = if j < k { j } else { j - 1 };
        assert(after[j] == before[b]);
        if before[b].id@ == p.id@ {
            assert(has_id(before, p.id@));
        }
    }
}

/// Three posts created in strictly increasing time order are listed newest
/// first: the last one created comes first.
pub proof fn lemma_listed_newest_first(s: Seq<Post>, a: Post, b: Post, c: Post)
    requires
        newest_first(s),
        s.len() == 3,
        s.contains(a),
        s.contains(b),
        s.contains(c),
        bytes_less(stamp(a), stamp(b)),
        bytes_less(stamp(b), stamp(c)),
    ensures
        s == seq![c, b, a],
{
    let ia = choose|i: int| 0 <= i < s.len() && s[i] == a;
    let ib = choose|i: int| 0 <= i < s.len() && s[i] == b;
    let ic = choose|i: int| 0 <= i < s.len() && s[i] == c;
    lemma_bytes_less_asymmetric(stamp(a), stamp(b));
    lemma_bytes_less_asymmetric(stamp(b), stamp(c));
    if ia <= ib {
        assert(ia != ib);
        assert(!bytes_less(stamp(s[ia]), stamp(s[ib])));
    }
    if ib <= ic {
        assert(ib != ic);
        assert(!bytes_less(stamp(s[ib]), stamp(s[ic])));
    }
    assert(ic == 0 && ib == 1 && ia == 2);
    assert(s =~= seq![c, b, a]);
}

/// Deleting a stored id removes that id and shrinks the listing by one.
pub proof fn lemma_delete_existing(before: Seq<Post>, id: Seq<char>, after: Seq<Post>)
    requires
        ids_unique(before),
        has_id(before, id),
        deleted(before, id, after),
    ensures
        !has_id(after, id),
        after.len() == before.len() - 1,
{
    let i = choose|i: int| 0 <= i < before.len() && before[i].id@ == id && after == before.remove(i);
    if has_id(after, id) {
        let j = choose|j: int| 0 <= j < after.len() && after[j].id@ == id;
        let b = if j < i { j } else { j + 1 };
        assert(before[b] == after[j]);
    }
}

/// Deleting an id that is not stored leaves the listing as it was.
pub proof fn lemma_delete_missing(before: Seq<Post>, id: Seq<char>, after: Seq<Post>)
    requires
        !has_id(before, id),
        deleted(before, id, after),
    ensures
        after == before,
{
}

/// Updating the sync flag of no ids leaves every post as it was.
pub proof fn lemma_update_none(before: Seq<Post>, ids: Seq<String>, flag: bool, after: Seq<Post>)
    requires
        ids.len() == 0,
        synced(before, ids, flag, after),
    ensures
        after == before,
{
    assert forall|i: int| 0 <= i < before.len() implies #[trigger] after[i] == before[i] by {
        assert(after[i] == before[i]);
    }
    assert(after =~= before);
}

} // verus!
