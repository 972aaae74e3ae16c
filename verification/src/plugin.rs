//! The preview generator plug-in: the handles that the host passes in, the
//! identifiers that the plug-in answers to, and the reference count that
//! decides when an instance is freed.
use vstd::prelude::*;

verus! {

/// A CoreFoundation UUID, only ever handled behind a pointer.
pub struct CFUUID {
    _private: [u8; 0],
}

/// A CoreFoundation string, only ever handled behind a pointer.
pub struct CFString {
    _private: [u8; 0],
}

/// A CoreFoundation data buffer, only ever handled behind a pointer.
pub struct CFData {
    _private: [u8; 0],
}

/// A CoreFoundation URL, only ever handled behind a pointer.
pub struct CFURL {
    _private: [u8; 0],
}

/// A Quick Look preview request, only ever handled behind a pointer.
pub struct QLPreviewRequest {
    _private: [u8; 0],
}

/// The status a COM-style call returns on success.
pub const S_OK: u32 = 0;

/// The status `query_interface` returns for an interface it does not offer.
pub const E_NOINTERFACE: u32 = 0x8000_0004;

/// The type of plug-in that the host asks the factory for.
pub const GENERATOR_TYPE_ID: &'static str = "5E2D9680-5022-40FA-B806-43349622E5B9";

/// The generator interface that an instance offers.
pub const GENERATOR_INTERFACE_ID: &'static str = "865AF5E0-6D30-4345-951B-D37105754F2D";

/// The identifier of this plug-in's factory.
pub const GENERATOR_FACTORY_ID: &'static str = "39336648-DACF-4E30-8C0F-BAA312BC22BB";

/// The number of references to a plug-in instance.  An instance is created
/// with one reference and freed when the last one is released.
pub struct RefCount {
    count: u32,
}

impl View for RefCount {
    type V = nat;

    open spec fn view(&self) -> nat {
        self.spec_count() as nat
    }
}

impl RefCount {
    /// The number of references held.
    pub closed spec fn spec_count(self) -> u32 {
        self.count
    }

    /// The count of a new instance: its creator's one reference.
    pub fn new() -> (r: RefCount)
        ensures
            r@ == 1,
    {
        RefCount { count: 1 }
    }

    /// The number of references held.
    pub fn count(&self) -> (r: u32)
        ensures
            r == self@,
    {
        self.count
    }

    /// Adds a reference; returns the new count.
    pub fn add_ref(&mut self) -> (r: u32)
        requires
            old(self)@ < u32::MAX,
        ensures
            final(self)@ == old(self)@ + 1,
            r == final(self)@,
    {
        self.count = self.count + 1;
        self.count
    }

    /// Drops a reference; returns the new count.  At zero the instance must be
    /// freed.
    pub fn release(&mut self) -> (r: u32)
        requires
            old(self)@ > 0,
        ensures
            final(self)@ == old(self)@ - 1,
            r == final(self)@,
    {
        self.count = self.count - 1;
        self.count
    }

    /// Whether the last reference has been released.
    pub fn is_released(&self) -> (r: bool)
        ensures
            r == (self@ == 0),
    {
        self.count == 0
    }

    /// Answers a request for an interface: when the requested interface is
    /// the one offered (`offered`), the caller gets a new reference and
    /// `S_OK`; otherwise nothing changes and the answer is `E_NOINTERFACE`.
    pub fn query_interface(&mut self, offered: bool) -> (r: u32)
        requires
            offered ==> old(self)@ < u32::MAX,
        ensures
            r == if offered {
                S_OK
            } else {
                E_NOINTERFACE
            },
            final(self)@ == old(self)@ + if offered {
                1nat
            } else {
                0nat
            },
    {
        if offered {
            self.add_ref();
            S_OK
        } else {
            E_NOINTERFACE
        }
    }
}

/// Releasing a reference undoes adding one: the count is back where it was.
pub proof fn law_release_undoes_add_ref(before: RefCount, added: RefCount, released: RefCount)
    requires
        added@ == before@ + 1,
        released@ == added@ - 1,
    ensures
        released@ == before@,
{
}

/// A new instance is freed by its first release.
pub proof fn law_new_freed_by_one_release(created: RefCount, released: RefCount)
    requires
        created@ == 1,
        released@ == created@ - 1,
    ensures
        released@ == 0,
{
}

} // verus!
