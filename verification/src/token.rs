//! The bearer-token credential.

use vstd::prelude::*;

verus! {

/// The secret bearer token that authenticates requests to the vendor API.
///
/// The secret is immutable after construction and is exposed only through
/// its canonical header rendering, [`Token::header_value`].
pub struct Token {
    secret: String,
}

impl View for Token {
    type V = Seq<char>;

    closed spec fn view(&self) -> Seq<char> {
        self.secret@
    }
}

impl Token {
    /// Wrap a secret string as a credential. Construction cannot fail and
    /// performs no transformation (no trimming, no validation).
    pub fn new(token: String) -> (t: Token)
        ensures
            t@ == token@,
    {
        Token { secret: token }
    }

    /// The canonical `Authorization` header value: exactly `Bearer `
    /// followed by the secret.
    pub fn header_value(&self) -> (r: String)
        ensures
            r@ == "Bearer "@ + self@,
    {
        let mut out = String::from_str("Bearer ");
        out.append(self.secret.as_str());
        out
    }
}

} // verus!
