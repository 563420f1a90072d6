//! Names of the slots of the key store.

use vstd::prelude::*;

verus! {

/// The slots of the key store that the binding protocol reads and writes.
#[allow(non_camel_case_types)]
#[derive(Debug)]
pub enum ConfigKeys {
    /// The transient key that comes from the one-time token.
    KEY_CLIENT_KEY,
    /// The durable application key, present once binding is complete.
    KEY_APP_KEY,
    /// The public key of the application's owner.
    KEY_OWNER_PUBLIC_KEY,
}

impl ConfigKeys {
    /// The text under which the slot is stored.
    pub open spec fn name(self) -> Seq<char> {
        match self {
            ConfigKeys::KEY_CLIENT_KEY => "client_key"@,
            ConfigKeys::KEY_APP_KEY => "app_key"@,
            ConfigKeys::KEY_OWNER_PUBLIC_KEY => "owner_public_key"@,
        }
    }

    /// Returns the stable name of the slot.
    pub fn as_str(&self) -> (r: &str)
        ensures
            r@ == self.name(),
    {
        match self {
            ConfigKeys::KEY_CLIENT_KEY => "client_key",
            ConfigKeys::KEY_APP_KEY => "app_key",
            ConfigKeys::KEY_OWNER_PUBLIC_KEY => "owner_public_key",
        }
    }

    /// No two slots share a name, so a write to one slot leaves the others as
    /// they were.
    pub proof fn lemma_names_distinct(a: ConfigKeys, b: ConfigKeys)
        ensures
            a.name() == b.name() <==> a == b,
    {
        reveal_strlit("client_key");
        reveal_strlit("app_key");
        reveal_strlit("owner_public_key");
        assert("client_key"@.len() == 10);
        assert("app_key"@.len() == 7);
        assert("owner_public_key"@.len() == 16);
    }
}

} // verus!
