//! Transport addresses, in the collaborator's `scheme@target` text form:
//! the scheme is one of six provider names, the target names a socket
//! address, a socket path or a web-socket host, and parsing splits on the
//! last `@` of the text. The dispatcher only carries an address between its
//! text form and its two parts; dialing or binding it, and any deeper
//! validation of the target, happen in the transport layer.

use vstd::prelude::*;
use vstd::string::StrSliceExecFns;
use vstd::string::StringExecFns;

use crate::error::Error;
use crate::path::str_eq;

verus! {

/// The transport mechanism an address names, encrypted or not.
#[derive(Clone, Copy, Debug, PartialEq, Eq, Hash, PartialOrd, Ord, Structural)]
pub enum Scheme {
    Tcp,
    InsecureTcp,
    Unix,
    InsecureUnix,
    Wss,
    InsecureWss,
}

impl Scheme {
    /// The scheme's name in address text.
    pub open spec fn spec_text(self) -> Seq<char> {
        match self {
            Scheme::Tcp => seq!['t', 'c', 'p'],
            Scheme::InsecureTcp => seq!['i', 't', 'c', 'p'],
            Scheme::Unix => seq!['u', 'n', 'i', 'x'],
            Scheme::InsecureUnix => seq!['i', 'u', 'n', 'i', 'x'],
            Scheme::Wss => seq!['w', 's', 's'],
            Scheme::InsecureWss => seq!['w', 's'],
        }
    }

    /// The scheme's name, as an owned string.
    pub fn text(self) -> (t: String)
        ensures
            t@ == self.spec_text(),
    {
        match self {
            Scheme::Tcp => {
                let t = String::from_str("tcp");
                proof {
                    reveal_strlit("tcp");
                    assert(t@ =~= self.spec_text());
                }
                t
            },
            Scheme::InsecureTcp => {
                let t = String::from_str("itcp");
                proof {
                    reveal_strlit("itcp");
                    assert(t@ =~= self.spec_text());
                }
                t
            },
            Scheme::Unix => {
                let t = String::from_str("unix");
                proof {
                    reveal_strlit("unix");
                    assert(t@ =~= self.spec_text());
                }
                t
            },
            Scheme::InsecureUnix => {
                let t = String::from_str("iunix");
                proof {
                    reveal_strlit("iunix");
                    assert(t@ =~= self.spec_text());
                }
                t
            },
            Scheme::Wss => {
                let t = String::from_str("wss");
                proof {
                    reveal_strlit("wss");
                    assert(t@ =~= self.spec_text());
                }
                t
            },
            Scheme::InsecureWss => {
                let t = String::from_str("ws");
                proof {
                    reveal_strlit("ws");
                    assert(t@ =~= self.spec_text());
                }
                t
            },
        }
    }

    /// Recognise a scheme name.
    pub fn parse(s: &str) -> (r: Option<Scheme>)
        ensures
            match r {
                Some(sch) => s@ == sch.spec_text(),
                None => forall|sch: Scheme| s@ != sch.spec_text(),
            },
    {
        proof {
            reveal_strlit("tcp");
            reveal_strlit("itcp");
            reveal_strlit("unix");
            reveal_strlit("iunix");
            reveal_strlit("wss");
            reveal_strlit("ws");
        }
        if str_eq(s, "tcp") {
            proof {
                assert(s@ =~= Scheme::Tcp.spec_text());
            }
            Some(Scheme::Tcp)
        } else if str_eq(s, "itcp") {
            proof {
                assert(s@ =~= Scheme::InsecureTcp.spec_text());
            }
            Some(Scheme::InsecureTcp)
        } else if str_eq(s, "unix") {
            proof {
                assert(s@ =~= Scheme::Unix.spec_text());
            }
            Some(Scheme::Unix)
        } else if str_eq(s, "iunix") {
            proof {
                assert(s@ =~= Scheme::InsecureUnix.spec_text());
            }
            Some(Scheme::InsecureUnix)
        } else if str_eq(s, "wss") {
            proof {
                assert(s@ =~= Scheme::Wss.spec_text());
            }
            Some(Scheme::Wss)
        } else if str_eq(s, "ws") {
            proof {
                assert(s@ =~= Scheme::InsecureWss.spec_text());
            }
            Some(Scheme::InsecureWss)
        } else {
            proof {
                assert(forall|sch: Scheme| s@ != sch.spec_text()) by {
                    assert(s@ !~= "tcp"@);
                    assert(s@ !~= "itcp"@);
                    assert(s@ !~= "unix"@);
                    assert(s@ !~= "iunix"@);
                    assert(s@ !~= "wss"@);
                    assert(s@ !~= "ws"@);
                }
            }
            None
        }
    }
}

/// `p` is the position of the last `@` in `s`.
pub open spec fn is_last_at(s: Seq<char>, p: int) -> bool {
    &&& 0 <= p < s.len()
    &&& s[p] == '@'
    &&& forall|j: int| p < j < s.len() ==> s[j] != '@'
}

/// `s` is well-formed address text: a recognised scheme name, the last `@`
/// of the text, then the target.
pub open spec fn spec_addr_parses(s: Seq<char>) -> bool {
    exists|sch: Scheme, p: int| is_last_at(s, p) && s.subrange(0, p) == sch.spec_text()
}

/// Address text `s` splits into this scheme and target.
pub open spec fn spec_addr_ok(s: Seq<char>, scheme: Scheme, target: Seq<char>) -> bool {
    exists|p: int|
        is_last_at(s, p) && s.subrange(0, p) == scheme.spec_text() && target == s.subrange(
            p + 1,
            s.len() as int,
        )
}

/// The canonical text of an address: scheme name, `@`, target.
pub open spec fn spec_addr_text(scheme: Scheme, target: Seq<char>) -> Seq<char> {
    scheme.spec_text() + seq!['@'] + target
}

/// A transport address: a scheme and the target it names, kept as the text
/// the collaborator's own parser will read when the address is dialed.
#[derive(Clone, Debug, PartialEq, Eq, Hash, PartialOrd, Ord)]
pub struct Addr {
    pub scheme: Scheme,
    pub target: String,
}

/// Position of the last `@` in `s`, if any.
fn rfind_at(s: &str) -> (r: Option<usize>)
    ensures
        match r {
            Some(p) => is_last_at(s@, p as int),
            None => forall|j: int| 0 <= j < s@.len() ==> s@[j] != '@',
        },
{
    let n = s.unicode_len();
    let mut last: Option<usize> = None;
    let mut i: usize = 0;
    while i < n
        invariant
            i <= n,
            n == s@.len(),
            match last {
                Some(p) => p < i && s@[p as int] == '@' && (forall|j: int|
                    p < j < i ==> s@[j] != '@'),
                None => forall|j: int| 0 <= j < i ==> s@[j] != '@',
            },
        decreases n - i,
    {
        if s.get_char(i) == '@' {
            last = Some(i);
        }
        i += 1;
    }
    last
}

impl Addr {
    /// The target never holds an `@`: parsing keeps only what follows the
    /// last one, so a well-formed address renders back to text that parses
    /// to the same parts.
    pub open spec fn wf(self) -> bool {
        forall|j: int| 0 <= j < self.target@.len() ==> self.target@[j] != '@'
    }

    /// Build an address from its two parts; a target holding an `@` is
    /// rejected, since no address text can carry it.
    pub fn new(scheme: Scheme, target: String) -> (r: Result<Addr, Error>)
        ensures
            match r {
                Ok(a) => a.scheme == scheme && a.target@ == target@ && a.wf(),
                Err(e) => e == Error::InvalidInput && exists|j: int|
                    0 <= j < target@.len() && target@[j] == '@',
            },
    {
        match rfind_at(target.as_str()) {
            Some(_) => Err(Error::InvalidInput),
            None => Ok(Addr { scheme, target }),
        }
    }

    /// Parse address text: the name before the last `@` is the scheme, what
    /// follows is the target. Fails with an invalid-input error when there
    /// is no `@` or the scheme name is unknown.
    pub fn from_str(s: &str) -> (r: Result<Addr, Error>)
        ensures
            match r {
                Ok(a) => a.wf() && spec_addr_ok(s@, a.scheme, a.target@),
                Err(e) => e == Error::InvalidInput && !spec_addr_parses(s@),
            },
    {
        let n = s.unicode_len();
        match rfind_at(s) {
            None => Err(Error::InvalidInput),
            Some(p) => {
                let proto = s.substring_char(0, p);
                match Scheme::parse(proto) {
                    None => {
                        proof {
                            assert forall|sch: Scheme, p2: int|
                                !(is_last_at(s@, p2) && s@.subrange(0, p2)
                                    == sch.spec_text()) by {
                                if is_last_at(s@, p2) {
                                    assert(p2 == p as int);
                                }
                            }
                        }
                        Err(Error::InvalidInput)
                    },
                    Some(scheme) => {
                        let target = s.substring_char(p + 1, n).to_owned();
                        proof {
                            assert forall|j: int|
                                0 <= j < target@.len() implies target@[j] != '@' by {
                                assert(target@[j] == s@[p + 1 + j]);
                            }
                            assert(spec_addr_ok(s@, scheme, target@));
                        }
                        Ok(Addr { scheme, target })
                    },
                }
            },
        }
    }

    /// Render the address as its canonical `scheme@target` text.
    pub fn text(&self) -> (t: String)
        ensures
            t@ == spec_addr_text(self.scheme, self.target@),
    {
        let mut t = self.scheme.text();
        t.append("@");
        t.append(self.target.as_str());
        proof {
            reveal_strlit("@");
            assert(t@ =~= spec_addr_text(self.scheme, self.target@));
        }
        t
    }
}

/// Scheme names tell schemes apart: equal names mean equal schemes.
pub proof fn lemma_scheme_text_injective(s1: Scheme, s2: Scheme)
    requires
        s1.spec_text() == s2.spec_text(),
    ensures
        s1 == s2,
{
    assert(Scheme::Tcp.spec_text().len() == 3 && Scheme::Tcp.spec_text()[0] == 't');
    assert(Scheme::InsecureTcp.spec_text().len() == 4 && Scheme::InsecureTcp.spec_text()[0] == 'i');
    assert(Scheme::Unix.spec_text().len() == 4 && Scheme::Unix.spec_text()[0] == 'u');
    assert(Scheme::InsecureUnix.spec_text().len() == 5);
    assert(Scheme::Wss.spec_text().len() == 3 && Scheme::Wss.spec_text()[0] == 'w');
    assert(Scheme::InsecureWss.spec_text().len() == 2);
    assert(s1.spec_text().len() == s2.spec_text().len());
    assert(s1.spec_text()[0] == s2.spec_text()[0]);
}

/// Round trip: the canonical text of a well-formed address splits back into
/// exactly its own scheme and target, and into no other pair.
pub proof fn lemma_addr_text_round_trip(a: Addr)
    requires
        a.wf(),
    ensures
        spec_addr_ok(spec_addr_text(a.scheme, a.target@), a.scheme, a.target@),
        forall|sch: Scheme, t: Seq<char>|
            spec_addr_ok(spec_addr_text(a.scheme, a.target@), sch, t) ==> sch == a.scheme && t
                == a.target@,
{
    let s = spec_addr_text(a.scheme, a.target@);
    let p = a.scheme.spec_text().len() as int;
    assert(s[p] == '@');
    assert forall|j: int| p < j < s.len() implies s[j] != '@' by {
        assert(s[j] == a.target@[j - p - 1]);
    }
    assert(is_last_at(s, p));
    assert(s.subrange(0, p) =~= a.scheme.spec_text());
    assert(a.target@ =~= s.subrange(p + 1, s.len() as int));
    assert(spec_addr_ok(s, a.scheme, a.target@));
    assert forall|sch: Scheme, t: Seq<char>| spec_addr_ok(s, sch, t) implies sch == a.scheme && t
        == a.target@ by {
        let p2 = choose|p2: int|
            is_last_at(s, p2) && s.subrange(0, p2) == sch.spec_text() && t == s.subrange(
                p2 + 1,
                s.len() as int,
            );
        assert(p2 == p);
        lemma_scheme_text_injective(sch, a.scheme);
    }
}

} // verus!
