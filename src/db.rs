use vstd::prelude::*;
use crate::post::{Post, stamp, bytes_less, created_before, lemma_bytes_less_transitive};

verus! {

/// Why a store operation was refused.
#[derive(Debug, Clone, Copy, PartialEq, Eq, Structural)]
pub enum StoreError {
    /// A post with the same id is already stored.
    DuplicateId,
}

/// No two posts share an id.
pub open spec fn ids_unique(s: Seq<Post>) -> bool {
    forall|i: int, j: int|
        0 <= i < s.len() && 0 <= j < s.len() && i != j ==> #[trigger] s[i].id@ != #[trigger] s[j].id@
}

/// Posts are ordered by creation time, newest first.
pub open spec fn newest_first(s: Seq<Post>) -> bool {
    forall|i: int, j: int|
        0 <= i < j < s.len() ==> !bytes_less(#[trigger] stamp(s[i]), #[trigger] stamp(s[j]))
}

/// Some post in `s` has the given id.
pub open spec fn has_id(s: Seq<Post>, id: Seq<char>) -> bool {
    exists|i: int| 0 <= i < s.len() && #[trigger] s[i].id@ == id
}

/// `after` is `before` with `p` placed at one position, `p`'s id being new.
pub open spec fn added(before: Seq<Post>, p: Post, after: Seq<Post>) -> bool {
    &&& !has_id(before, p.id@)
    &&& exists|k: int| 0 <= k <= before.len() && after == before.insert(k, p)
}

/// `after` is `before` without the post whose id is `id`, if there was one.
pub open spec fn deleted(before: Seq<Post>, id: Seq<char>, after: Seq<Post>) -> bool {
    if has_id(before, id) {
        exists|i: int| 0 <= i < before.len() && before[i].id@ == id && after == before.remove(i)
    } else {
        after == before
    }
}

/// `id` is one of `ids`.
pub open spec fn listed(ids: Seq<String>, id: Seq<char>) -> bool {
    exists|j: int| 0 <= j < ids.len() && #[trigger] ids[j]@ == id
}

/// `p` with its sync flag set to `flag`.
pub open spec fn with_sync(p: Post, flag: bool) -> Post {
    Post { is_synced: flag, ..p }
}

/// `after` is `before` with the sync flag of every post listed in `ids` set to `flag`.
pub open spec fn synced(before: Seq<Post>, ids: Seq<String>, flag: bool, after: Seq<Post>) -> bool {
    &&& after.len() == before.len()
    &&& forall|i: int|
        0 <= i < before.len() ==> #[trigger] after[i] == if listed(ids, before[i].id@) {
            with_sync(before[i], flag)
        } else {
            before[i]
        }
}

/// The stored posts, held newest first.
pub struct PostStore {
    posts: Vec<Post>,
}

impl View for PostStore {
    type V = Seq<Post>;

    closed spec fn view(&self) -> Seq<Post> {
        self.posts@
    }
}

impl PostStore {
    /// Ids are unique and posts are newest first.
    pub open spec fn wf(&self) -> bool {
        ids_unique(self@) && newest_first(self@)
    }

    /// An empty store.
    pub fn new() -> (s: PostStore)
        ensures
            s.wf(),
            s@ == Seq::<Post>::empty(),
    {
        PostStore { posts: Vec::new() }
    }
}

/// Where `p` goes in `posts` so that the order stays newest first, after any
/// post created at the same time.
fn insert_position(posts: &Vec<Post>, p: &Post) -> (k: usize)
    requires
        newest_first(posts@),
    ensures
        k <= posts@.len(),
        forall|j: int| 0 <= j < k ==> !bytes_less(#[trigger] stamp(posts@[j]), stamp(*p)),
        forall|j: int| k <= j < posts@.len() ==> !bytes_less(stamp(*p), #[trigger] stamp(posts@[j])),
{
    let mut k: usize = 0;
    while k < posts.len() && !created_before(&posts[k], p)
        invariant
            k <= posts@.len(),
            forall|j: int| 0 <= j < k ==> !bytes_less(#[trigger] stamp(posts@[j]), stamp(*p)),
        decreases posts@.len() - k,
    {
        k = k + 1;
    }
    assert forall|j: int| k <= j < posts@.len() implies !bytes_less(stamp(*p), #[trigger] stamp(posts@[j])) by {
        if j > k && bytes_less(stamp(*p), stamp(posts@[j])) {
            lemma_bytes_less_transitive(stamp(posts@[k as int]), stamp(*p), stamp(posts@[j]));
        }
    }
    k
}

/// Index of the post with the given id, if any.
fn find_id(posts: &Vec<Post>, id: &String) -> (r: Option<usize>)
    ensures
        match r {
            Some(i) => i < posts@.len() && posts@[i as int].id@ == id@,
            None => !has_id(posts@, id@),
        },
{
    let mut i: usize = 0;
    while i < posts.len()
        invariant
            i <= posts@.len(),
            forall|j: int| 0 <= j < i ==> #[trigger] posts@[j].id@ != id@,
        decreases posts@.len() - i,
    {
        if posts[i].id == *id {
            return Some(i);
        }
        i = i + 1;
    }
    None
}

/// Stores `post`, keeping the order newest first. Refused when its id is taken.
pub fn add_post_to_db(store: &mut PostStore, post: Post) -> (r: Result<(), StoreError>)
    requires
        old(store).wf(),
    ensures
        final(store).wf(),
        has_id(old(store)@, post.id@) ==> r == Err::<(), StoreError>(StoreError::DuplicateId)
            && final(store)@ == old(store)@,
        !has_id(old(store)@, post.id@) ==> r is Ok && added(old(store)@, post, final(store)@),
{
    if find_id(&store.posts, &post.id).is_some() {
        return Err(StoreError::DuplicateId);
    }
    let k = insert_position(&store.posts, &post);
    let ghost before = store.posts@;
    let ghost p = post;
    store.posts.insert(k, post);
    let ghost after = store.posts@;
    assert(after == before.insert(k as int, p));
    assert forall|i: int, j: int| 0 <= i < j < after.len() implies !bytes_less(
        #[trigger] stamp(after[i]),
        #[trigger] stamp(after[j]),
    ) by {
        if j < k {
        } else if j == k {
        } else if i < k {
            assert(after[j] == before[j - 1]);
            if bytes_less(stamp(after[i]), stamp(after[j])) {
                assert(!bytes_less(stamp(before[i]), stamp(p)));
                if bytes_less(stamp(p), stamp(before[j - 1])) {
                } else {
                    assert(!bytes_less(stamp(before[i]), stamp(before[j - 1])));
                }
            }
        } else if i == k {
        } else {
        }
    }
    assert forall|i: int, j: int|
        0 <= i < after.len() && 0 <= j < after.len() && i != j implies #[trigger] after[i].id@
        != #[trigger] after[j].id@ by {
        if i != k && j != k {
            let bi = if i < k { i } else { i - 1 };
            let bj = if j < k { j } else { j - 1 };
            assert(before[bi].id@ != before[bj].id@);
        } else if i == k {
            let bj = if j < k { j } else { j - 1 };
            assert(before[bj].id@ != p.id@);
        } else {
            let bi = if i < k { i } else { i - 1 };
            assert(before[bi].id@ != p.id@);
        }
    }
    Ok(())
}

/// All stored posts, newest first.
pub fn get_posts(store: &PostStore) -> (r: Vec<Post>)
    requires
        store.wf(),
    ensures
        r@ == store@,
        ids_unique(r@),
        newest_first(r@),
{
    let mut out: Vec<Post> = Vec::new();
    let mut i: usize = 0;
    while i < store.posts.len()
        invariant
            i <= store.posts@.len(),
            out@ == store.posts@.subrange(0, i as int),
        decreases store.posts@.len() - i,
    {
        out.push(store.posts[i].duplicate());
        i = i + 1;
    }
    assert(out@ == store.posts@);
    out
}

/// Removes the post with the given id; an id that is not stored changes nothing.
pub fn delete_post(store: &mut PostStore, id: String)
    requires
        old(store).wf(),
    ensures
        final(store).wf(),
        deleted(old(store)@, id@, final(store)@),
{
    match find_id(&store.posts, &id) {
        Some(i) => {
            let ghost before = store.posts@;
            store.posts.remove(i);
            assert(store.posts@ == before.remove(i as int));
            assert forall|a: int, b: int| 0 <= a < b < store.posts@.len() implies !bytes_less(
                #[trigger] stamp(store.posts@[a]),
                #[trigger] stamp(store.posts@[b]),
            ) by {
                let ba = if a < i { a } else { a + 1 };
                let bb = if b < i { b } else { b + 1 };
                assert(!bytes_less(stamp(before[ba]), stamp(before[bb])));
            }
            assert forall|a: int, b: int|
                0 <= a < store.posts@.len() && 0 <= b < store.posts@.len() && a != b implies
                #[trigger] store.posts@[a].id@ != #[trigger] store.posts@[b].id@ by {
                let ba = if a < i { a } else { a + 1 };
                let bb = if b < i { b } else { b + 1 };
                assert(before[ba].id@ != before[bb].id@);
            }
        },
        None => {},
    }
}

/// Whether `id` is one of `ids`.
fn is_listed(ids: &Vec<String>, id: &String) -> (r: bool)
    ensures
        r == listed(ids@, id@),
{
    let mut j: usize = 0;
    while j < ids.len()
        invariant
            j <= ids@.len(),
            forall|m: int| 0 <= m < j ==> #[trigger] ids@[m]@ != id@,
        decreases ids@.len() - j,
    {
        if ids[j] == *id {
            return true;
        }
        j = j + 1;
    }
    false
}

/// Sets the sync flag of every stored post whose id is in `ids` to `is_synced`,
/// all at once; ids that are not stored are skipped. Every other field,
/// `updated_at` included, is left as it was.
pub fn update_sync_status(store: &mut PostStore, ids: Vec<String>, is_synced: bool)
    requires
        old(store).wf(),
    ensures
        final(store).wf(),
        synced(old(store)@, ids@, is_synced, final(store)@),
{
    let mut out: Vec<Post> = Vec::new();
    let mut i: usize = 0;
    while i < store.posts.len()
        invariant
            i <= store.posts@.len(),
            out@.len() == i,
            forall|m: int| 0 <= m < i ==> #[trigger] out@[m] == if listed(ids@, store.posts@[m].id@) {
                with_sync(store.posts@[m], is_synced)
            } else {
                store.posts@[m]
            },
        decreases store.posts@.len() - i,
    {
        let mut p = store.posts[i].duplicate();
        if is_listed(&ids, &p.id) {
            p.is_synced = is_synced;
        }
        out.push(p);
        i = i + 1;
    }
    let ghost before = store.posts@;
    store.posts = out;
    assert forall|m: int| 0 <= m < before.len() implies stamp(#[trigger] store.posts@[m]) == stamp(before[m])
        && store.posts@[m].id@ == before[m].id@ by {
        assert(store.posts@[m] == if listed(ids@, before[m].id@) {
            with_sync(before[m], is_synced)
        } else {
            before[m]
        });
    }
    assert forall|a: int, b: int| 0 <= a < b < store.posts@.len() implies !bytes_less(
        #[trigger] stamp(store.posts@[a]),
        #[trigger] stamp(store.posts@[b]),
    ) by {
        assert(stamp(store.posts@[a]) == stamp(before[a]));
        assert(stamp(store.posts@[b]) == stamp(before[b]));
    }
    assert forall|a: int, b: int|
        0 <= a < store.posts@.len() && 0 <= b < store.posts@.len() && a != b implies
        #[trigger] store.posts@[a].id@ != #[trigger] store.posts@[b].id@ by {
        assert(store.posts@[a].id@ == before[a].id@);
        assert(store.posts@[b].id@ == before[b].id@);
    }
}

/// A lowercase hexadecimal digit.
pub open spec fn is_lower_hex(c: char) -> bool {
    ('0' <= c && c <= '9') || ('a' <= c && c <= 'f')
}

/// The hyphenated text of a random (version 4) UUID: 36 characters, hyphens
/// at 8, 13, 18 and 23, lowercase hex digits elsewhere, the version digit `4`
/// at 14 and a variant digit among `8`, `9`, `a`, `b` at 19.
pub open spec fn is_uuid_v4_text(s: Seq<char>) -> bool {
    &&& s.len() == 36
    &&& forall|i: int|
        0 <= i < 36 ==> if i == 8 || i == 13 || i == 18 || i == 23 {
            #[trigger] s[i] == '-'
        } else {
            is_lower_hex(s[i])
        }
    &&& s[14] == '4'
    &&& (s[19] == '8' || s[19] == '9' || s[19] == 'a' || s[19] == 'b')
}

/// RFC 3339 text of a UTC instant: it ends in the offset `+00:00`.
pub open spec fn is_utc_rfc3339_text(s: Seq<char>) -> bool {
    &&& s.len() > 6
    &&& s.subrange(s.len() - 6, s.len() as int) == seq!['+', '0', '0', ':', '0', '0']
}

/// A fresh random identifier.
///
/// Relies on `uuid::Uuid::new_v4` for a random version-4 UUID, rendered by its
/// `Display` impl, which writes the hyphenated lowercase form.
#[verifier::external_body]
fn new_id() -> (r: String)
    ensures
        is_uuid_v4_text(r@),
{
    uuid::Uuid::new_v4().to_string()
}

/// The current time as RFC 3339 text.
///
/// Relies on `chrono::Utc::now` for the clock and `DateTime::to_rfc3339` for
/// the rendering, which for UTC writes the offset as `+00:00`.
#[verifier::external_body]
fn now_rfc3339() -> (r: String)
    ensures
        is_utc_rfc3339_text(r@),
{
    chrono::Utc::now().to_rfc3339()
}

/// Creates and stores a post holding `content`, with a fresh id, both
/// timestamps set to now and the sync flag cleared, and returns it.
/// Refused, changing nothing, only if the fresh id is already taken, so
/// never on an empty store.
pub fn add_post(store: &mut PostStore, content: String) -> (r: Result<Post, StoreError>)
    requires
        old(store).wf(),
    ensures
        final(store).wf(),
        match r {
            Ok(p) => {
                &&& p.content == content
                &&& !p.is_synced
                &&& p.created_at == p.updated_at
                &&& is_uuid_v4_text(p.id@)
                &&& is_utc_rfc3339_text(p.created_at@)
                &&& added(old(store)@, p, final(store)@)
            },
            Err(e) => {
                &&& e == StoreError::DuplicateId
                &&& final(store)@ == old(store)@
                &&& old(store)@.len() > 0
                &&& exists|id: Seq<char>| is_uuid_v4_text(id) && has_id(old(store)@, id)
            },
        },
{
    let id = new_id();
    let now = now_rfc3339();
    let post = Post { id, content, created_at: now.clone(), updated_at: now, is_synced: false };
    let made = post.duplicate();
    match add_post_to_db(store, post) {
        Ok(()) => Ok(made),
        Err(e) => Err(e),
    }
}

/// A store holding `rows`, newest first. Refused if two rows share an id.
pub fn from_posts(rows: Vec<Post>) -> (r: Result<PostStore, StoreError>)
    ensures
        match r {
            Ok(s) => {
                &&& s.wf()
                &&& ids_unique(rows@)
                &&& s@.len() == rows@.len()
                &&& forall|j: int| 0 <= j < rows@.len() ==> s@.contains(#[trigger] rows@[j])
            },
            Err(e) => e == StoreError::DuplicateId && !ids_unique(rows@),
        },
{
    let mut store = PostStore::new();
    let mut i: usize = 0;
    while i < rows.len()
        invariant
            i <= rows@.len(),
            store.wf(),
            store@.len() == i,
            ids_unique(rows@.subrange(0, i as int)),
            forall|j: int| 0 <= j < i ==> store@.contains(#[trigger] rows@[j]),
            forall|m: int|
                0 <= m < store@.len() ==> exists|j: int| 0 <= j < i && #[trigger] store@[m] == rows@[j],
        decreases rows@.len() - i,
    {
        let ghost before = store@;
        let row = rows[i].duplicate();
        match add_post_to_db(&mut store, row) {
            Ok(()) => {
                let ghost k = choose|k: int| 0 <= k <= before.len() && store@ == before.insert(k, rows@[i as int]);
                assert forall|j: int| 0 <= j <= i implies store@.contains(#[trigger] rows@[j]) by {
                    if j < i {
                        let m = choose|m: int| 0 <= m < before.len() && before[m] == rows@[j];
                        if m < k {
                            assert(store@[m] == rows@[j]);
                        } else {
                            assert(store@[m + 1] == rows@[j]);
                        }
                    } else {
                        assert(store@[k] == rows@[j]);
                    }
                }
                assert forall|m: int| 0 <= m < store@.len() implies exists|j: int|
                    0 <= j < i + 1 && #[trigger] store@[m] == rows@[j] by {
                    if m < k {
                        assert(store@[m] == before[m]);
                    } else if m == k {
                        assert(store@[m] == rows@[i as int]);
                    } else {
                        assert(store@[m] == before[m - 1]);
                    }
                }
                let ghost sub = rows@.subrange(0, i as int + 1);
                assert forall|a: int, b: int| 0 <= a < sub.len() && 0 <= b < sub.len() && a != b
                    implies #[trigger] sub[a].id@ != #[trigger] sub[b].id@ by {
                    if a < i && b < i {
                        assert(rows@.subrange(0, i as int)[a] == sub[a]);
                        assert(rows@.subrange(0, i as int)[b] == sub[b]);
                    } else if a == i {
                        if sub[a].id@ == sub[b].id@ {
                            assert(store@.contains(rows@[b]));
                            let m = choose|m: int| 0 <= m < before.len() && before[m] == rows@[b];
                            assert(before[m].id@ == rows@[i as int].id@);
                        }
                    } else {
                        if sub[a].id@ == sub[b].id@ {
                            let m = choose|m: int| 0 <= m < before.len() && before[m] == rows@[a];
                            assert(before[m].id@ == rows@[i as int].id@);
                        }
                    }
                }
            },
            Err(e) => {
                let ghost m = choose|m: int| 0 <= m < before.len() && before[m].id@ == rows@[i as int].id@;
                let ghost j = choose|j: int| 0 <= j < i && before[m] == rows@[j];
                assert(rows@[j].id@ == rows@[i as int].id@);
                return Err(e);
            },
        }
        i = i + 1;
    }
    assert(rows@.subrange(0, rows@.len() as int) == rows@);
    Ok(store)
}

} // verus!
