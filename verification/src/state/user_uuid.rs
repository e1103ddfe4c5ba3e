use vstd::prelude::*;
use vstd::std_specs::cmp::PartialEqSpecImpl;
use vstd::string::StringExecFns;

verus! {

/// How many bytes the text of an identity has.
pub const UUID_LENGTH: usize = 36;

/// The identity of a user: a text of 36 bytes.
#[derive(Debug, Eq, Hash)]
pub struct UserUUID(String);

impl View for UserUUID {
    type V = Seq<char>;

    closed spec fn view(&self) -> Seq<char> {
        self.0@
    }
}

impl PartialEq for UserUUID {
    /// Two identities are equal if their texts are.
    fn eq(&self, other: &UserUUID) -> (r: bool) {
        self.0 == other.0
    }
}

impl PartialEqSpecImpl for UserUUID {
    open spec fn obeys_eq_spec() -> bool {
        true
    }

    open spec fn eq_spec(&self, other: &UserUUID) -> bool {
        self@ == other@
    }
}

impl Clone for UserUUID {
    /// A copy with the same text.
    fn clone(&self) -> (r: UserUUID)
        ensures
            r@ == self@,
    {
        proof {
            use_type_invariant(self);
        }
        UserUUID(self.0.clone())
    }
}

impl UserUUID {
    /// How many bytes a text has.
    pub open spec fn byte_len(text: Seq<char>) -> nat {
        vstd::utf8::encode_utf8(text).len()
    }

    /// Every identity has a text of 36 bytes.
    #[verifier::type_invariant]
    closed spec fn has_length(&self) -> bool {
        UserUUID::byte_len(self.0@) == UUID_LENGTH
    }

    /// The identity with the text `uuid`, if the text has 36 bytes.
    pub fn new(uuid: String) -> (r: Result<UserUUID, &'static str>)
        ensures
            r is Ok <==> UserUUID::byte_len(uuid@) == UUID_LENGTH,
            r matches Ok(id) ==> id@ == uuid@,
            r matches Err(e) ==> e@ == "Invalid UUID format"@,
    {
        let text = uuid.as_str();
        if text.as_bytes().len() != UUID_LENGTH {
            return Err("Invalid UUID format");
        }
        Ok(UserUUID(uuid))
    }

    /// The text of the identity.
    pub fn as_str(&self) -> (r: &str)
        ensures
            r@ == self@,
            UserUUID::byte_len(r@) == UUID_LENGTH,
    {
        proof {
            use_type_invariant(self);
        }
        self.0.as_str()
    }

    /// The address of the socket on which the server speaks to this user.
    pub open spec fn socket_address(self) -> Seq<char> {
        "ws://127.0.0.1:8000/ws/"@ + self@
    }

    /// The address of the socket on which the server speaks to this user.
    pub fn socket_url(&self) -> (r: String)
        ensures
            r@ == self.socket_address(),
    {
        let mut r = String::from_str("ws://127.0.0.1:8000/ws/");
        r.append(self.as_str());
        r
    }
}

impl std::str::FromStr for UserUUID {
    type Err = &'static str;

    /// The identity with the text `s`, if the text has 36 bytes.
    fn from_str(s: &str) -> (r: Result<UserUUID, &'static str>)
        ensures
            r is Ok <==> UserUUID::byte_len(s@) == UUID_LENGTH,
            r matches Ok(id) ==> id@ == s@,
            r matches Err(e) ==> e@ == "Invalid UUID format"@,
    {
        UserUUID::new(s.to_owned())
    }
}

} // verus!
