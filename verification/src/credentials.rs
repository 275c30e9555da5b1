//! The username/password pair and the Basic-auth header value derived
//! from it.
use vstd::prelude::*;
use vstd::string::StringSliceAdditionalSpecFns;
use base64::Engine;

verus! {

/// The base64 text of a byte sequence, standard alphabet with padding,
/// as the outside encoder produces it.
pub uninterp spec fn spec_base64(bytes: Seq<u8>) -> Seq<char>;

/// Relies on base64's `STANDARD` engine `encode`: the standard-alphabet
/// padded base64 text of the argument's bytes, a pure function of those
/// bytes.
#[verifier::external_body]
fn base64_encode(s: &str) -> (r: String)
    ensures
        r@ == spec_base64(s.spec_bytes()),
{
    base64::engine::general_purpose::STANDARD.encode(s.as_bytes())
}

/// A username/password pair, supplied once by configuration and
/// consumed by every request the core issues.
#[derive(Debug, Default)]
pub struct Credentials {
    pub user: String,
    pub password: String,
}

impl Credentials {
    /// The Basic-auth header value: `Basic ` followed by the base64
    /// text of `user:password`.
    pub fn encode(&self) -> (r: String)
        ensures
            r@ == "Basic "@ + spec_base64(
                vstd::utf8::encode_utf8(self.user@ + ":"@ + self.password@),
            ),
    {
        let mut plain = String::new();
        plain.append(self.user.as_str());
        plain.append(":");
        plain.append(self.password.as_str());
        proof {
            assert(plain@ =~= self.user@ + ":"@ + self.password@);
        }
        let encoded = base64_encode(plain.as_str());
        let mut out = String::new();
        out.append("Basic ");
        out.append(encoded.as_str());
        proof {
            assert(out@ =~= "Basic "@ + spec_base64(
                vstd::utf8::encode_utf8(self.user@ + ":"@ + self.password@),
            ));
        }
        out
    }
}

/// Builds the credentials the core consumes from a plain username and
/// password.
pub fn get_credentials(user: String, password: String) -> (r: Credentials)
    ensures
        r.user == user,
        r.password == password,
{
    Credentials { user, password }
}

} // verus!
