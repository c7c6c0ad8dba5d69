//! Names of definitions.
use vstd::prelude::*;

verus! {

/// The number of the crate that is being compiled.
pub const LOCAL_CRATE: u32 = 0;

/// A definition, by the number of its crate and its index in that crate.
#[derive(Clone, Copy, PartialEq, Eq, Hash, Debug, Structural)]
pub struct DefId {
    pub krate: u32,
    pub index: u32,
}

/// A definition of the crate that is being compiled.
#[derive(Clone, Copy, PartialEq, Eq, Hash, Debug, Structural)]
pub struct LocalDefId {
    pub index: u32,
}

impl DefId {
    /// Whether the definition belongs to the crate that is being compiled.
    pub open spec fn local(self) -> bool {
        self.krate == LOCAL_CRATE
    }

    /// The same definition as a local one, where it is.
    pub open spec fn local_def_id(self) -> Option<LocalDefId> {
        if self.local() {
            Some(LocalDefId { index: self.index })
        } else {
            None
        }
    }

    /// Whether the definition belongs to the crate that is being compiled.
    pub fn is_local(self) -> (local: bool)
        ensures
            local == self.local(),
            local <==> self.krate == LOCAL_CRATE,
    {
        self.krate == LOCAL_CRATE
    }

    /// The same definition as a local one, where it is.
    pub fn as_local(self) -> (local: Option<LocalDefId>)
        ensures
            local == self.local_def_id(),
            local is Some <==> self.krate == LOCAL_CRATE,
            local matches Some(found) ==> found.index == self.index,
    {
        if self.krate == LOCAL_CRATE {
            Some(LocalDefId { index: self.index })
        } else {
            None
        }
    }
}

impl LocalDefId {
    /// The definition, with the number of the local crate.
    pub open spec fn def_id(self) -> DefId {
        DefId { krate: LOCAL_CRATE, index: self.index }
    }

    /// The definition, with the number of the local crate.
    pub fn to_def_id(self) -> (def_id: DefId)
        ensures
            def_id == self.def_id(),
            def_id.krate == LOCAL_CRATE && def_id.index == self.index,
    {
        DefId { krate: LOCAL_CRATE, index: self.index }
    }
}

/// A local definition is found again under its full name, and only a local one
/// has a local name.
pub proof fn law_local_round_trip(local: LocalDefId, def_id: DefId)
    ensures
        local.def_id().local_def_id() == Some(local),
        def_id.local() <==> def_id.local_def_id() is Some,
        def_id.local_def_id() matches Some(found) ==> found.def_id() == def_id,
{
}

/// Which definitions are local is a matter of the crate alone, and the local name
/// of a definition tells it apart from all others of that crate.
pub proof fn law_locality_is_by_crate(a: DefId, b: DefId)
    ensures
        a.local() <==> a.krate == LOCAL_CRATE,
        a.krate == b.krate ==> a.local() == b.local(),
        a.local() && b.local() ==> (a.local_def_id() == b.local_def_id() <==> a.index == b.index),
        a.local_def_id() matches Some(local) ==> local.index == a.index,
{
}

/// What the conversions between the two kinds of names give.
pub proof fn law_conversions(
    def_id: DefId,
    found: Option<LocalDefId>,
    is_local: bool,
    local: LocalDefId,
    named: DefId,
)
    requires
        call_ensures(DefId::as_local, (def_id,), found),
        call_ensures(DefId::is_local, (def_id,), is_local),
        call_ensures(LocalDefId::to_def_id, (local,), named),
    ensures
        is_local <==> def_id.krate == LOCAL_CRATE,
        is_local <==> found is Some,
        found == Some(local) <==> named == def_id,
        named.krate == LOCAL_CRATE,
        named.index == local.index,
{
}

} // verus!
