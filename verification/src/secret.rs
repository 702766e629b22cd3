use vstd::prelude::*;

verus! {

/// An owned string that holds credential material.
///
/// The wrapped value is private: it is reachable only through
/// [`SecretString::expose_secret`], so a reader can find every place where a
/// secret leaves the type, and nothing prints or serializes one by accident.
pub struct SecretString {
    inner: String,
}

impl SecretString {
    /// The wrapped value, by exposed characters.
    pub closed spec fn spec_expose(&self) -> Seq<char> {
        self.inner@
    }

    pub fn new(value: String) -> (r: SecretString)
        ensures
            r.spec_expose() == value@,
    {
        SecretString { inner: value }
    }

    /// The one gate through which the wrapped value leaves in cleartext.
    pub fn expose_secret(&self) -> (r: &str)
        ensures
            r@ == self.spec_expose(),
    {
        self.inner.as_str()
    }
}

impl Clone for SecretString {
    /// A clone wraps the same value.
    fn clone(&self) -> (r: Self)
        ensures
            r == *self,
    {
        SecretString { inner: self.inner.clone() }
    }
}

impl PartialEq for SecretString {
    /// Secrets compare by exposed value.
    fn eq(&self, other: &Self) -> (r: bool) {
        self.inner == other.inner
    }
}

impl vstd::std_specs::cmp::PartialEqSpecImpl for SecretString {
    open spec fn obeys_eq_spec() -> bool {
        true
    }

    open spec fn eq_spec(&self, other: &SecretString) -> bool {
        self.spec_expose() == other.spec_expose()
    }
}

/// The exposed view of an optional secret.
pub open spec fn opt_secret_view(o: Option<SecretString>) -> Option<Seq<char>> {
    match o {
        Some(s) => Some(s.spec_expose()),
        None => None,
    }
}

/// Clones an optional secret, keeping its value.
pub fn clone_opt_secret(o: &Option<SecretString>) -> (r: Option<SecretString>)
    ensures
        r == *o,
{
    match o {
        Some(s) => Some(s.clone()),
        None => None,
    }
}

} // verus!
