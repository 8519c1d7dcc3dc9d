//! The identity under which notes are written and published.

use vstd::prelude::*;

verus! {

/// Who publishes: the sender address of the notes, the domain under which
/// version tokens are minted, and the name of the mail server.
#[derive(Debug)]
pub struct Profile {
    pub email: String,
    pub domain: String,
    pub imap_server: String,
}

/// The mathematical model of a `Profile`.
pub struct ProfileView {
    pub email: Seq<char>,
    pub domain: Seq<char>,
    pub imap_server: Seq<char>,
}

impl View for Profile {
    type V = ProfileView;

    open spec fn view(&self) -> ProfileView {
        ProfileView { email: self.email@, domain: self.domain@, imap_server: self.imap_server@ }
    }
}

impl Clone for Profile {
    fn clone(&self) -> (copy: Self)
        ensures
            copy@ == self@,
    {
        Profile {
            email: self.email.clone(),
            domain: self.domain.clone(),
            imap_server: self.imap_server.clone(),
        }
    }
}

impl Profile {
    /// The domain under which version tokens are minted.
    pub fn domain(&self) -> (domain: String)
        ensures
            domain@ == self@.domain,
    {
        self.domain.clone()
    }
}

} // verus!
