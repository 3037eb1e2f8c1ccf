//! Boundary-stable layouts.
//!
//! A plugin and the host exchange exactly two shapes of data: the
//! [`Host`] record, whose string fields are length-paired byte strings
//! with an explicit absent state, and opaque handles.  A handle names a
//! resource in a host-owned table; a plugin may hold, pass and return
//! one but can neither forge nor dereference it, and the host checks
//! its validity on every use.

use vstd::prelude::*;

verus! {

/// Opaque handle to a host-owned options map.
///
/// The field is private on purpose: the only way to obtain a live
/// handle is through the mutation API, so the host never has to trust
/// a handle's bit pattern beyond a validity check.
#[derive(Clone, Copy, Debug, PartialEq, Eq, Structural)]
pub struct OptionsMapHandle {
    index: usize,
}

impl OptionsMapHandle {
    /// The table slot this handle names.
    pub closed spec fn id(self) -> int {
        self.index as int
    }

    pub(crate) fn from_index(index: usize) -> (r: OptionsMapHandle)
        ensures
            r.id() == index,
    {
        OptionsMapHandle { index }
    }

    pub(crate) fn index(self) -> (r: usize)
        ensures
            r == self.id(),
    {
        self.index
    }
}

/// Opaque handle to a host-owned list of byte buffers.
#[derive(Clone, Copy, Debug, PartialEq, Eq, Structural)]
pub struct ListHandle {
    index: usize,
}

impl ListHandle {
    /// The table slot this handle names.
    pub closed spec fn id(self) -> int {
        self.index as int
    }

    pub(crate) fn from_index(index: usize) -> (r: ListHandle)
        ensures
            r.id() == index,
    {
        ListHandle { index }
    }

    pub(crate) fn index(self) -> (r: usize)
        ensures
            r == self.id(),
    {
        self.index
    }
}

/// Mathematical value of a boundary [`Host`] record.
#[verifier::ext_equal]
pub ghost struct HostView {
    pub name: Seq<u8>,
    pub host_name: Option<Seq<u8>>,
    pub user: Option<Seq<u8>>,
    pub other: int,
}

/// The one exchangeable record: a host entry in its boundary form.
///
/// Each string travels as a byte buffer carrying its own length, never
/// as terminator-delimited text, so an absent optional field is an
/// explicit `None` rather than sentinel bytes inside the string.  The
/// `other` handle names the options map holding the entry's
/// unrecognized options; it is readable during selection calls and
/// otherwise unused.
#[derive(Debug, PartialEq, Eq)]
pub struct Host {
    pub name: Vec<u8>,
    pub host_name: Option<Vec<u8>>,
    pub user: Option<Vec<u8>>,
    pub other: OptionsMapHandle,
}

impl View for Host {
    type V = HostView;

    open spec fn view(&self) -> HostView {
        HostView {
            name: self.name@,
            host_name: self.host_name.deep_view(),
            user: self.user.deep_view(),
            other: self.other.id(),
        }
    }
}

/// How a malformed value or handle arriving from a plugin is reported.
///
/// The boundary as observed in the wild leaves both situations
/// undefined; here they are upgraded to checked errors that reject the
/// single call and leave the host state untouched.
#[derive(Clone, Copy, Debug, PartialEq, Eq, Structural)]
pub enum MarshalError {
    /// A byte string that is not well-formed UTF-8.
    InvalidUtf8,
    /// A handle that does not name a live resource: destroyed already,
    /// invalidated by a later mutation, or never issued.
    StaleHandle,
}

} // verus!
