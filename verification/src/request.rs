//! Requests and their header collections: a header list whose names
//! stay unique, viewed in specifications as a map with
//! last-occurrence-wins insertion.

use vstd::prelude::*;
use crate::bytes::bytes_eq;
use crate::bytes::subvec;

verus! {

/// One request header as received: a name and a value.
pub struct Header {
    pub name: Vec<u8>,
    pub value: Vec<u8>,
}

/// Mathematical image of a `Header`.
pub struct HeaderM {
    pub name: Seq<u8>,
    pub value: Seq<u8>,
}

impl View for Header {
    type V = HeaderM;

    open spec fn view(&self) -> HeaderM {
        HeaderM { name: self.name@, value: self.value@ }
    }
}

/// The views of a header list.
pub open spec fn hview(hs: Seq<Header>) -> Seq<HeaderM> {
    hs.map_values(|h: Header| h@)
}

/// The map a header list denotes; a later entry overrides an earlier
/// one with the same name.
pub open spec fn headers_map(hs: Seq<HeaderM>) -> Map<Seq<u8>, Seq<u8>>
    decreases hs.len(),
{
    if hs.len() == 0 {
        Map::empty()
    } else {
        headers_map(hs.drop_last()).insert(hs.last().name, hs.last().value)
    }
}

/// No two entries share a name.
pub open spec fn unique_names(hs: Seq<HeaderM>) -> bool {
    forall|i: int, j: int| 0 <= i < j < hs.len() ==> hs[i].name != hs[j].name
}

/// An entry of a unique-named list is what the map holds for its name.
pub proof fn lemma_headers_map_index(hs: Seq<HeaderM>, i: int)
    requires
        unique_names(hs),
        0 <= i < hs.len(),
    ensures
        headers_map(hs).contains_key(hs[i].name),
        headers_map(hs)[hs[i].name] == hs[i].value,
    decreases hs.len(),
{
    if i < hs.len() - 1 {
        assert(unique_names(hs.drop_last()));
        lemma_headers_map_index(hs.drop_last(), i);
        assert(hs[i].name != hs.last().name);
    }
}

/// A name no entry carries is not in the map.
pub proof fn lemma_headers_map_absent(hs: Seq<HeaderM>, n: Seq<u8>)
    requires
        forall|i: int| 0 <= i < hs.len() ==> hs[i].name != n,
    ensures
        !headers_map(hs).contains_key(n),
    decreases hs.len(),
{
    if hs.len() > 0 {
        lemma_headers_map_absent(hs.drop_last(), n);
    }
}

/// Replacing the entry that already carries `h.name` updates the map
/// exactly as an insertion does.
pub proof fn lemma_headers_map_update(hs: Seq<HeaderM>, i: int, h: HeaderM)
    requires
        unique_names(hs),
        0 <= i < hs.len(),
        hs[i].name == h.name,
    ensures
        headers_map(hs.update(i, h)) == headers_map(hs).insert(h.name, h.value),
        unique_names(hs.update(i, h)),
    decreases hs.len(),
{
    let upd = hs.update(i, h);
    if i == hs.len() - 1 {
        assert(upd.drop_last() =~= hs.drop_last());
        assert(upd.last() == h);
        assert(headers_map(upd) =~= headers_map(hs).insert(h.name, h.value));
    } else {
        assert(unique_names(hs.drop_last()));
        lemma_headers_map_update(hs.drop_last(), i, h);
        assert(upd.drop_last() =~= hs.drop_last().update(i, h));
        assert(upd.last() == hs.last());
        assert(hs.last().name != h.name);
        assert(headers_map(upd)
            == headers_map(hs.drop_last()).insert(h.name, h.value)
                .insert(hs.last().name, hs.last().value));
        assert(headers_map(upd) =~= headers_map(hs).insert(h.name, h.value));
    }
}

/// Insert a header; a duplicate name overwrites the earlier value,
/// so names stay unique.
pub fn insert_header(hs: &mut Vec<Header>, name: Vec<u8>, value: Vec<u8>)
    requires
        unique_names(hview(old(hs)@)),
    ensures
        unique_names(hview(final(hs)@)),
        headers_map(hview(final(hs)@)) == headers_map(hview(old(hs)@)).insert(name@, value@),
{
    let mut i: usize = 0;
    while i < hs.len()
        invariant
            0 <= i <= hs@.len(),
            hs@ == old(hs)@,
            unique_names(hview(hs@)),
            forall|k: int| 0 <= k < i ==> hview(hs@)[k].name != name@,
        decreases hs@.len() - i,
    {
        if bytes_eq(&hs[i].name, &name) {
            let ghost hm = hview(hs@);
            let h = Header { name, value };
            let ghost hvm = h@;
            proof {
                assert(hm[i as int].name == hvm.name);
            }
            hs.set(i, h);
            proof {
                assert(hview(hs@) =~= hm.update(i as int, hvm));
                lemma_headers_map_update(hm, i as int, hvm);
            }
            return;
        }
        i = i + 1;
    }
    let ghost pre = hview(hs@);
    let h = Header { name, value };
    let ghost hvm = h@;
    hs.push(h);
    proof {
        assert(hview(hs@) =~= pre.push(hvm));
        assert forall|a: int, b: int|
            0 <= a < b < pre.push(hvm).len() implies pre.push(hvm)[a].name != pre.push(
            hvm,
        )[b].name by {
            if b < pre.len() {
                assert(pre[a].name != pre[b].name);
            } else {
                assert(pre.push(hvm)[a] == pre[a]);
                assert(pre[a].name != name@);
            }
        }
        assert(unique_names(hview(hs@)));
        assert(pre.push(hvm).drop_last() =~= pre);
        assert(headers_map(hview(hs@)) == headers_map(pre).insert(hvm.name, hvm.value));
    }
}

/// Look a name up in a header list; a fresh copy of the value.
pub fn find_header(hs: &Vec<Header>, name: &Vec<u8>) -> (r: Option<Vec<u8>>)
    requires
        unique_names(hview(hs@)),
    ensures
        match r {
            Some(v) => headers_map(hview(hs@)).contains_key(name@)
                && headers_map(hview(hs@))[name@] == v@,
            None => !headers_map(hview(hs@)).contains_key(name@),
        },
{
    let mut i: usize = 0;
    while i < hs.len()
        invariant
            0 <= i <= hs@.len(),
            unique_names(hview(hs@)),
            forall|k: int| 0 <= k < i ==> hview(hs@)[k].name != name@,
        decreases hs@.len() - i,
    {
        if bytes_eq(&hs[i].name, name) {
            let v = subvec(&hs[i].value, 0, hs[i].value.len());
            proof {
                lemma_headers_map_index(hview(hs@), i as int);
                assert(v@ =~= hs@[i as int].value@);
            }
            return Some(v);
        }
        i = i + 1;
    }
    proof {
        lemma_headers_map_absent(hview(hs@), name@);
    }
    None
}

/// A parsed HTTP request.
pub struct Request {
    pub method: Vec<u8>,
    pub path: Vec<u8>,
    pub version: Vec<u8>,
    pub header: Vec<Header>,
    pub body: Vec<u8>,
}

/// Mathematical image of a `Request`: the header list collapses to
/// the map it denotes.
pub struct RequestM {
    pub method: Seq<u8>,
    pub path: Seq<u8>,
    pub version: Seq<u8>,
    pub headers: Map<Seq<u8>, Seq<u8>>,
    pub body: Seq<u8>,
}

impl View for Request {
    type V = RequestM;

    open spec fn view(&self) -> RequestM {
        RequestM {
            method: self.method@,
            path: self.path@,
            version: self.version@,
            headers: headers_map(hview(self.header@)),
            body: self.body@,
        }
    }
}

impl Request {
    /// Header names are unique, as the data model requires.
    pub open spec fn wf(&self) -> bool {
        unique_names(hview(self.header@))
    }

    /// An empty request: every field empty, no headers, no body.
    pub fn new() -> (r: Self)
        ensures
            r.wf(),
            r@.method == Seq::<u8>::empty(),
            r@.path == Seq::<u8>::empty(),
            r@.version == Seq::<u8>::empty(),
            r@.headers == Map::<Seq<u8>, Seq<u8>>::empty(),
            r@.body == Seq::<u8>::empty(),
    {
        let r = Request {
            method: Vec::new(),
            path: Vec::new(),
            version: Vec::new(),
            header: Vec::new(),
            body: Vec::new(),
        };
        proof {
            assert(hview(r.header@) =~= Seq::<HeaderM>::empty());
        }
        r
    }
}

} // verus!
