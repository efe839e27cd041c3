use vstd::prelude::*;
use vstd::utf8::encode_utf8;

verus! {

/// A stored note record.
#[derive(Debug, Clone)]
pub struct Post {
    /// Unique identifier of the post.
    pub id: String,
    /// Text of the post.
    pub content: String,
    /// Creation timestamp (RFC 3339 text).
    pub created_at: String,
    /// Last-update timestamp (RFC 3339 text).
    pub updated_at: String,
    /// Whether the post has been mirrored to cloud storage.
    pub is_synced: bool,
}

/// The bytes by which a post's creation time is ordered: its UTF-8 encoding,
/// compared as the storage engine compares text.
pub open spec fn stamp(p: Post) -> Seq<u8> {
    encode_utf8(p.created_at@)
}

/// `a` and `b` agree on their first `k` bytes.
pub open spec fn agree_upto(a: Seq<u8>, b: Seq<u8>, k: int) -> bool {
    forall|j: int| 0 <= j < k ==> a[j] == b[j]
}

/// `k` is where `a` falls below `b` in byte-wise lexicographic order.
pub open spec fn less_at(a: Seq<u8>, b: Seq<u8>, k: int) -> bool {
    &&& 0 <= k <= a.len()
    &&& k <= b.len()
    &&& agree_upto(a, b, k)
    &&& (k == a.len() && k < b.len()) || (k < a.len() && k < b.len() && a[k] < b[k])
}

/// Strict byte-wise lexicographic order.
pub open spec fn bytes_less(a: Seq<u8>, b: Seq<u8>) -> bool {
    exists|k: int| less_at(a, b, k)
}

/// Byte-wise lexicographic order is transitive.
pub proof fn lemma_bytes_less_transitive(a: Seq<u8>, b: Seq<u8>, c: Seq<u8>)
    requires
        bytes_less(a, b),
        bytes_less(b, c),
    ensures
        bytes_less(a, c),
{
    let k1 = choose|k: int| less_at(a, b, k);
    let k2 = choose|k: int| less_at(b, c, k);
    if k1 < k2 {
        assert(less_at(a, c, k1));
    } else if k2 < k1 {
        assert(less_at(a, c, k2));
    } else {
        assert(less_at(a, c, k1));
    }
}

/// Byte-wise lexicographic order is irreflexive and asymmetric.
pub proof fn lemma_bytes_less_asymmetric(a: Seq<u8>, b: Seq<u8>)
    requires
        bytes_less(a, b),
    ensures
        !bytes_less(b, a),
{
    let k1 = choose|k: int| less_at(a, b, k);
    if bytes_less(b, a) {
        let k2 = choose|k: int| less_at(b, a, k);
        if k1 < k2 {
            assert(b[k1] == a[k1]);
        } else if k2 < k1 {
            assert(a[k2] == b[k2]);
        }
    }
}

/// Compares two byte strings lexicographically.
pub fn less_bytes(a: &[u8], b: &[u8]) -> (r: bool)
    ensures
        r == bytes_less(a@, b@),
{
    let mut i: usize = 0;
    while i < a.len() && i < b.len() && a[i] == b[i]
        invariant
            0 <= i <= a@.len(),
            i <= b@.len(),
            agree_upto(a@, b@, i as int),
        decreases a@.len() - i,
    {
        i = i + 1;
    }
    if i < a.len() && i < b.len() {
        let r = a[i] < b[i];
        if r {
            assert(less_at(a@, b@, i as int));
        } else {
            assert forall|k: int| !less_at(a@, b@, k) by {
                if less_at(a@, b@, k) && k > i {
                    assert(a@[i as int] == b@[i as int]);
                }
            }
        }
        r
    } else {
        let r = i == a.len() && i < b.len();
        if r {
            assert(less_at(a@, b@, i as int));
        } else {
            assert forall|k: int| !less_at(a@, b@, k) by {
                if less_at(a@, b@, k) && k > i {
                    assert(a@[i as int] == b@[i as int]);
                }
            }
        }
        r
    }
}

/// Whether `p` was created strictly before `q`.
pub fn created_before(p: &Post, q: &Post) -> (r: bool)
    ensures
        r == bytes_less(stamp(*p), stamp(*q)),
{
    less_bytes(p.created_at.as_str().as_bytes(), q.created_at.as_str().as_bytes())
}

impl Post {
    /// A field-by-field copy of the post.
    pub fn duplicate(&self) -> (r: Post)
        ensures
            r == *self,
    {
        Post {
            id: self.id.clone(),
            content: self.content.clone(),
            created_at: self.created_at.clone(),
            updated_at: self.updated_at.clone(),
            is_synced: self.is_synced,
        }
    }
}

} // verus!
