use vstd::prelude::*;
use crate::error::DataError;
use crate::fs::{entry_path_spec, key_path, key_path_spec, push_all};
use crate::key::Request;

verus! {

/// The path under which a blob holds the data of `req`: `plurals/cardinal@1/en-US`.
pub open spec fn resource_path_spec(req: Request) -> Seq<u8> {
    key_path_spec(req.key) + seq![0x2fu8] + entry_path_spec(req.locale)
}

/// The path under which a blob holds the data of `req`.
pub fn resource_path(req: &Request) -> (r: Vec<u8>)
    ensures
        r@ == resource_path_spec(*req),
{
    let mut out = key_path(&req.key);
    out.push(0x2f);
    match &req.locale.variant {
        Some(v) => {
            push_all(&mut out, v.as_str().as_bytes());
            out.push(0x2f);
        },
        None => {},
    }
    let locale = req.locale.langid.to_bytes();
    push_all(&mut out, locale.as_slice());
    proof {
        assert(out@ =~= resource_path_spec(*req));
    }
    out
}

/// Do the two byte strings hold the same bytes?
fn bytes_eq(a: &[u8], b: &[u8]) -> (r: bool)
    ensures
        r == (a@ == b@),
{
    if a.len() != b.len() {
        return false;
    }
    let mut i: usize = 0;
    while i < a.len()
        invariant
            i <= a@.len(),
            a@.len() == b@.len(),
            forall|k: int| 0 <= k < i ==> a@[k] == b@[k],
        decreases a@.len() - i,
    {
        if a[i] != b[i] {
            return false;
        }
        i = i + 1;
    }
    proof {
        assert(a@ =~= b@);
    }
    true
}

/// The bytes of the first resource whose path is `path`.
pub open spec fn find_resource(res: Seq<(String, Vec<u8>)>, path: Seq<u8>) -> Option<Vec<u8>>
    decreases res.len(),
{
    if res.len() == 0 {
        None
    } else if vstd::utf8::encode_utf8(res[0].0@) == path {
        Some(res[0].1)
    } else {
        find_resource(res.drop_first(), path)
    }
}

/// A blob of data files, each under the path of its key and locale, as the
/// static blob backing store holds them once it is read into memory.
pub struct BlobDataProvider {
    pub resources: Vec<(String, Vec<u8>)>,
}

impl BlobDataProvider {
    /// The bytes that the blob holds for `req`; `UnsupportedDataKey` where it
    /// holds none.
    pub fn get_file(&self, req: &Request) -> (r: Result<&Vec<u8>, DataError>)
        ensures
            match find_resource(self.resources@, resource_path_spec(*req)) {
                Some(b) => r == Ok::<&Vec<u8>, DataError>(&b),
                None => r == Err::<&Vec<u8>, DataError>(DataError::UnsupportedDataKey(req.key)),
            },
    {
        let path = resource_path(req);
        let ghost all = self.resources@;
        let mut i: usize = 0;
        proof {
            assert(all.subrange(0, all.len() as int) == all);
        }
        while i < self.resources.len()
            invariant
                i <= all.len(),
                all == self.resources@,
                path@ == resource_path_spec(*req),
                find_resource(all, path@) == find_resource(all.subrange(i as int, all.len() as int), path@),
            decreases all.len() - i,
        {
            proof {
                let rest = all.subrange(i as int, all.len() as int);
                assert(rest.drop_first() == all.subrange(i + 1, all.len() as int));
                assert(rest[0] == all[i as int]);
            }
            if bytes_eq(self.resources[i].0.as_str().as_bytes(), path.as_slice()) {
                return Ok(&self.resources[i].1);
            }
            i = i + 1;
        }
        Err(DataError::UnsupportedDataKey(req.key.duplicate()))
    }
}

} // verus!
