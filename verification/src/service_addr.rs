//! A named, dialable endpoint: a transport address paired with a service
//! id, written canonically as `id://address` (for example
//! `echo://tcp@127.0.0.1:8080`). Parsing splits on the last `://` of the
//! text, so an id may itself hold the separator; the right side must then
//! parse as an address. The compact form is the ordered pair `(id, addr)`.

use vstd::prelude::*;
use vstd::string::StrSliceExecFns;
use vstd::string::StringExecFns;

use crate::addr::{
    lemma_addr_text_round_trip, spec_addr_ok, spec_addr_parses, spec_addr_text, Addr, Scheme,
};
use crate::error::Error;

verus! {

/// The three separator characters stand at position `j` of `s`.
pub open spec fn sep_at(s: Seq<char>, j: int) -> bool {
    s[j] == ':' && s[j + 1] == '/' && s[j + 2] == '/'
}

/// `p` is the position of the last `://` in `s`.
pub open spec fn is_last_sep(s: Seq<char>, p: int) -> bool {
    &&& 0 <= p
    &&& p + 3 <= s.len()
    &&& sep_at(s, p)
    &&& forall|j: int| p < j && j + 3 <= s.len() ==> !sep_at(s, j)
}

/// `s` is well-formed endpoint text: anything before the last `://`, then
/// parseable address text.
pub open spec fn spec_service_addr_parses(s: Seq<char>) -> bool {
    exists|p: int| is_last_sep(s, p) && spec_addr_parses(s.subrange(p + 3, s.len() as int))
}

/// Endpoint text `s` splits into this id and this address.
pub open spec fn spec_service_addr_ok(
    s: Seq<char>,
    id: Seq<char>,
    scheme: Scheme,
    target: Seq<char>,
) -> bool {
    exists|p: int|
        is_last_sep(s, p) && id == s.subrange(0, p) && spec_addr_ok(
            s.subrange(p + 3, s.len() as int),
            scheme,
            target,
        )
}

/// The canonical text of an endpoint: id, `://`, address text.
pub open spec fn spec_service_addr_text(id: Seq<char>, scheme: Scheme, target: Seq<char>) -> Seq<
    char,
> {
    id + seq![':', '/', '/'] + spec_addr_text(scheme, target)
}

/// A service endpoint: where to dial, and which service id to request
/// there. Ordering and hashing go by the `(addr, id)` pair in field order.
#[derive(Clone, Debug, PartialEq, Eq, Hash, PartialOrd, Ord)]
pub struct ServiceAddr {
    pub addr: Addr,
    pub id: String,
}

/// Position of the last `://` in `s`, if any.
fn rfind_sep(s: &str) -> (r: Option<usize>)
    ensures
        match r {
            Some(p) => is_last_sep(s@, p as int),
            None => forall|j: int| 0 <= j && j + 3 <= s@.len() ==> !sep_at(s@, j),
        },
{
    let n = s.unicode_len();
    if n < 3 {
        return None;
    }
    let mut last: Option<usize> = None;
    let mut i: usize = 0;
    while i <= n - 3
        invariant
            3 <= n,
            i <= n - 2,
            n == s@.len(),
            match last {
                Some(p) => p < i && sep_at(s@, p as int) && (forall|j: int|
                    p < j < i ==> !sep_at(s@, j)),
                None => forall|j: int| 0 <= j < i ==> !sep_at(s@, j),
            },
        decreases n - i,
    {
        if s.get_char(i) == ':' && s.get_char(i + 1) == '/' && s.get_char(i + 2) == '/' {
            last = Some(i);
        }
        i += 1;
    }
    last
}

impl ServiceAddr {
    /// A well-formed endpoint renders to text that parses back to itself.
    pub open spec fn wf(self) -> bool {
        self.addr.wf()
    }

    /// Parse endpoint text: everything before the last `://` is the id,
    /// what follows must parse as an address. Fails with an invalid-input
    /// error when no separator is present or the address text is bad.
    pub fn from_str(s: &str) -> (r: Result<ServiceAddr, Error>)
        ensures
            match r {
                Ok(sa) => sa.wf() && spec_service_addr_ok(
                    s@,
                    sa.id@,
                    sa.addr.scheme,
                    sa.addr.target@,
                ),
                Err(e) => e == Error::InvalidInput && !spec_service_addr_parses(s@),
            },
    {
        let n = s.unicode_len();
        match rfind_sep(s) {
            None => Err(Error::InvalidInput),
            Some(p) => {
                let addr_text = s.substring_char(p + 3, n);
                proof {
                    assert(addr_text@ =~= s@.subrange(p + 3, s@.len() as int));
                }
                match Addr::from_str(addr_text) {
                    Err(_) => {
                        proof {
                            assert forall|p2: int|
                                !(is_last_sep(s@, p2) && spec_addr_parses(
                                    s@.subrange(p2 + 3, s@.len() as int),
                                )) by {
                                if is_last_sep(s@, p2) {
                                    assert(p2 == p as int);
                                }
                            }
                        }
                        Err(Error::InvalidInput)
                    },
                    Ok(addr) => {
                        let id = s.substring_char(0, p).to_owned();
                        let sa = ServiceAddr { addr, id };
                        proof {
                            assert(spec_service_addr_ok(
                                s@,
                                sa.id@,
                                sa.addr.scheme,
                                sa.addr.target@,
                            ));
                        }
                        Ok(sa)
                    },
                }
            },
        }
    }

    /// Parse endpoint text; the same contract as `from_str`.
    pub fn new(s: &str) -> (r: Result<ServiceAddr, Error>)
        ensures
            match r {
                Ok(sa) => sa.wf() && spec_service_addr_ok(
                    s@,
                    sa.id@,
                    sa.addr.scheme,
                    sa.addr.target@,
                ),
                Err(e) => e == Error::InvalidInput && !spec_service_addr_parses(s@),
            },
    {
        Self::from_str(s)
    }

    /// The transport address of the endpoint.
    pub fn addr(&self) -> (r: &Addr)
        ensures
            *r == self.addr,
    {
        &self.addr
    }

    /// The service id requested at the endpoint.
    pub fn id(&self) -> (r: &String)
        ensures
            *r == self.id,
    {
        &self.id
    }

    /// Decompose the endpoint into its two parts, address first: the
    /// ordered pair of the compact encoding, read back by rebuilding the
    /// endpoint from exactly these two values.
    pub fn inner(self) -> (r: (Addr, String))
        ensures
            r.0 == self.addr,
            r.1 == self.id,
    {
        (self.addr, self.id)
    }

    /// Render the endpoint as its canonical `id://address` text.
    pub fn to_text(&self) -> (t: String)
        ensures
            t@ == spec_service_addr_text(self.id@, self.addr.scheme, self.addr.target@),
    {
        let mut t = self.id.clone();
        t.append("://");
        let at = self.addr.text();
        t.append(at.as_str());
        proof {
            reveal_strlit("://");
            assert(t@ =~= spec_service_addr_text(self.id@, self.addr.scheme, self.addr.target@));
        }
        t
    }
}

/// A scheme name never holds a separator character.
proof fn lemma_scheme_text_plain(sch: Scheme)
    ensures
        forall|k: int|
            0 <= k < sch.spec_text().len() ==> sch.spec_text()[k] != ':' && sch.spec_text()[k]
                != '/' && sch.spec_text()[k] != '@',
{
}

/// Round trip: the canonical text of a well-formed endpoint whose address
/// target holds no `://` splits back into exactly its own id, scheme and
/// target, and into no other triple. An address target that itself holds
/// `://` would shift the split, since parsing takes the last occurrence.
pub proof fn lemma_service_addr_text_round_trip(sa: ServiceAddr)
    requires
        sa.wf(),
        forall|j: int| 0 <= j && j + 3 <= sa.addr.target@.len() ==> !sep_at(sa.addr.target@, j),
    ensures
        spec_service_addr_ok(
            spec_service_addr_text(sa.id@, sa.addr.scheme, sa.addr.target@),
            sa.id@,
            sa.addr.scheme,
            sa.addr.target@,
        ),
        forall|id2: Seq<char>, sch2: Scheme, t2: Seq<char>|
            spec_service_addr_ok(
                spec_service_addr_text(sa.id@, sa.addr.scheme, sa.addr.target@),
                id2,
                sch2,
                t2,
            ) ==> id2 == sa.id@ && sch2 == sa.addr.scheme && t2 == sa.addr.target@,
{
    let id = sa.id@;
    let sch = sa.addr.scheme;
    let target = sa.addr.target@;
    let s = spec_service_addr_text(id, sch, target);
    let p = id.len() as int;
    let atext = spec_addr_text(sch, target);
    let apos = p + 3 + sch.spec_text().len();
    lemma_scheme_text_plain(sch);
    assert(s.len() == p + 3 + atext.len());
    assert(sep_at(s, p));
    assert forall|j: int| p < j && j + 3 <= s.len() implies !sep_at(s, j) by {
        if j < p + 3 {
            assert(s[j] == '/');
        } else if j < apos {
            assert(s[j] == sch.spec_text()[j - p - 3]);
        } else if j == apos {
            assert(s[j] == '@');
        } else {
            assert(s[j] == target[j - apos - 1]);
            assert(s[j + 1] == target[j - apos]);
            assert(s[j + 2] == target[j - apos + 1]);
            assert(!sep_at(target, j - apos - 1));
        }
    }
    assert(is_last_sep(s, p));
    assert(s.subrange(0, p) =~= id);
    assert(s.subrange(p + 3, s.len() as int) =~= atext);
    lemma_addr_text_round_trip(sa.addr);
    assert(spec_service_addr_ok(s, id, sch, target));
    assert forall|id2: Seq<char>, sch2: Scheme, t2: Seq<char>|
        spec_service_addr_ok(s, id2, sch2, t2) implies id2 == id && sch2 == sch && t2
        == target by {
        let p2 = choose|p2: int|
            is_last_sep(s, p2) && id2 == s.subrange(0, p2) && spec_addr_ok(
                s.subrange(p2 + 3, s.len() as int),
                sch2,
                t2,
            );
        assert(p2 == p);
        assert(id2 =~= id);
        assert(spec_addr_ok(atext, sch2, t2));
    }
}

} // verus!
