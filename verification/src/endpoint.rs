use vstd::prelude::*;
use vstd::string::StrSliceExecFns;
use vstd::string::StringExecFns;

use crate::errors::ConnectError;

verus! {

/// Whether an address begins with the secure scheme `https://` and has a
/// nonempty remainder after it.
pub open spec fn has_secure_scheme(s: Seq<char>) -> bool {
    s.len() > 8 && s.subrange(0, 8) == "https://"@
}

/// Whether `s` starts with `https://` followed by at least one character.
fn starts_with_https(s: &str) -> (r: bool)
    ensures
        r == has_secure_scheme(s@),
{
    proof {
        reveal_strlit("https://");
    }
    let n = s.unicode_len();
    if n <= 8 {
        return false;
    }
    let r = s.get_char(0) == 'h' && s.get_char(1) == 't' && s.get_char(2) == 't' && s.get_char(3)
        == 'p' && s.get_char(4) == 's' && s.get_char(5) == ':' && s.get_char(6) == '/'
        && s.get_char(7) == '/';
    proof {
        if r {
            assert(s@.subrange(0, 8) =~= "https://"@);
        } else {
            assert(s@.subrange(0, 8) != "https://"@) by {
                if s@.subrange(0, 8) == "https://"@ {
                    assert(forall|i: int| 0 <= i < 8 ==> s@[i] == ("https://"@)[i]);
                }
            }
        }
    }
    r
}

/// A destination address that has been checked to use the secure scheme.
/// Parsed once, before any connection work; a malformed address surfaces
/// immediately as `InvalidAddress`.
#[derive(Debug, Clone)]
pub struct Endpoint {
    uri: String,
}

impl Endpoint {
    /// The validated address text.
    pub closed spec fn uri_spec(&self) -> Seq<char> {
        self.uri@
    }

    /// Validity: the address uses the secure scheme.
    pub open spec fn wf(&self) -> bool {
        has_secure_scheme(self.uri_spec())
    }

    /// Validates `address`: accepted exactly when it begins with the
    /// secure scheme `https://` and names a destination after it;
    /// otherwise the address comes back inside `InvalidAddress`.
    pub fn parse(address: String) -> (r: Result<Endpoint, ConnectError>)
        ensures
            match r {
                Ok(e) => has_secure_scheme(address@) && e.uri_spec() == address@ && e.wf(),
                Err(e) => !has_secure_scheme(address@) && (e matches ConnectError::InvalidAddress {
                    address: a,
                    cause: _,
                } && a@ == address@),
            },
    {
        if starts_with_https(address.as_str()) {
            Ok(Endpoint { uri: address })
        } else {
            Err(
                ConnectError::InvalidAddress {
                    address,
                    cause: String::from_str("the address must begin with https://"),
                },
            )
        }
    }

    /// The address text, for handing to the transport that opens the
    /// connection.
    pub fn uri(&self) -> (r: &String)
        ensures
            r@ == self.uri_spec(),
    {
        &self.uri
    }
}

} // verus!
