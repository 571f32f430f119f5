//! An in-memory stand-in for the storage collaborator. It holds the objects
//! written so far, newest last, and lets the pipeline's behaviour be stated,
//! proved and exercised; the hosting binary performs the same steps against
//! the real bucket service.

use crate::keys::str_eq;
use vstd::prelude::*;

verus! {

/// One object at rest: where it lives, its bytes, and its declared media
/// type.
pub struct StoredObject {
    pub bucket: String,
    pub key: String,
    pub body: Vec<u8>,
    pub content_type: String,
}

/// Whether `o` sits in `bucket` under `key`.
pub open spec fn obj_at(o: StoredObject, bucket: Seq<char>, key: Seq<char>) -> bool {
    o.bucket@ == bucket && o.key@ == key
}

/// The bytes under `(bucket, key)`: those of the most recent write, if any.
pub open spec fn lookup(objs: Seq<StoredObject>, bucket: Seq<char>, key: Seq<char>) -> Option<
    Seq<u8>,
>
    decreases objs.len(),
{
    if objs.len() == 0 {
        None
    } else if obj_at(objs.last(), bucket, key) {
        Some(objs.last().body@)
    } else {
        lookup(objs.drop_last(), bucket, key)
    }
}

/// The objects a bucket service holds, newest last.
pub struct Store {
    pub objects: Vec<StoredObject>,
}

impl Store {
    /// An empty store.
    pub fn new() -> (r: Store)
        ensures
            r.objects@.len() == 0,
    {
        Store { objects: Vec::new() }
    }

    /// Fetches the bytes under `(bucket, key)`.
    pub fn get(&self, bucket: &str, key: &str) -> (r: Option<&Vec<u8>>)
        ensures
            r is Some <==> lookup(self.objects@, bucket@, key@) is Some,
            r matches Some(b) ==> lookup(self.objects@, bucket@, key@) == Some(b@),
    {
        let n = self.objects.len();
        let mut i: usize = n;
        assert(self.objects@.take(n as int) =~= self.objects@);
        while i > 0
            invariant
                0 <= i <= n,
                n == self.objects@.len(),
                lookup(self.objects@, bucket@, key@) == lookup(
                    self.objects@.take(i as int),
                    bucket@,
                    key@,
                ),
            decreases i,
        {
            let o = &self.objects[i - 1];
            let bucket_hit = str_eq(o.bucket.as_str(), bucket);
            let key_hit = str_eq(o.key.as_str(), key);
            proof {
                assert(self.objects@.take(i as int).last() == self.objects@[i - 1]);
                assert(self.objects@.take(i as int).drop_last() =~= self.objects@.take(i - 1));
            }
            if bucket_hit && key_hit {
                return Some(&o.body);
            }
            i = i - 1;
        }
        assert(self.objects@.take(0) =~= Seq::<StoredObject>::empty());
        None
    }

    /// Writes `body` under `(bucket, key)` with the declared content type,
    /// and reports the status of the write (here always 200).
    pub fn put(
        &mut self,
        bucket: String,
        key: String,
        body: Vec<u8>,
        content_type: String,
    ) -> (code: u16)
        ensures
            final(self).objects@ == old(self).objects@.push(
                (StoredObject { bucket, key, body, content_type }),
            ),
            code == 200,
    {
        self.objects.push(StoredObject { bucket, key, body, content_type });
        200
    }
}

} // verus!
