//! Names of the server's built-in tools.

use vstd::prelude::*;

use crate::text::str_eq;

verus! {

/// The built-in tools of the server.
#[derive(Debug, Clone, Copy, PartialEq, Eq, Structural)]
pub enum ToolName {
    LoadComponent,
    UnloadComponent,
    ListComponents,
    GetPolicy,
    GrantStoragePermission,
    GrantNetworkPermission,
    GrantEnvironmentVariablePermission,
    GrantMemoryPermission,
    RevokeStoragePermission,
    RevokeNetworkPermission,
    RevokeEnvironmentVariablePermission,
    ResetPermission,
}

/// A name that is not one of the built-in tools.
#[derive(Debug, Clone, PartialEq, Eq)]
pub struct UnknownToolName {
    /// The name that was given.
    pub name: String,
}

/// The wire name of each built-in tool.
pub open spec fn tool_name_text(t: ToolName) -> Seq<char> {
    match t {
        ToolName::LoadComponent => "load-component"@,
        ToolName::UnloadComponent => "unload-component"@,
        ToolName::ListComponents => "list-components"@,
        ToolName::GetPolicy => "get-policy"@,
        ToolName::GrantStoragePermission => "grant-storage-permission"@,
        ToolName::GrantNetworkPermission => "grant-network-permission"@,
        ToolName::GrantEnvironmentVariablePermission => "grant-environment-variable-permission"@,
        ToolName::GrantMemoryPermission => "grant-memory-permission"@,
        ToolName::RevokeStoragePermission => "revoke-storage-permission"@,
        ToolName::RevokeNetworkPermission => "revoke-network-permission"@,
        ToolName::RevokeEnvironmentVariablePermission => "revoke-environment-variable-permission"@,
        ToolName::ResetPermission => "reset-permission"@,
    }
}

/// The tool whose wire name is `s`, if any.
pub open spec fn tool_named(s: Seq<char>) -> Option<ToolName> {
    if s == "load-component"@ {
        Some(ToolName::LoadComponent)
    } else if s == "unload-component"@ {
        Some(ToolName::UnloadComponent)
    } else if s == "list-components"@ {
        Some(ToolName::ListComponents)
    } else if s == "get-policy"@ {
        Some(ToolName::GetPolicy)
    } else if s == "grant-storage-permission"@ {
        Some(ToolName::GrantStoragePermission)
    } else if s == "grant-network-permission"@ {
        Some(ToolName::GrantNetworkPermission)
    } else if s == "grant-environment-variable-permission"@ {
        Some(ToolName::GrantEnvironmentVariablePermission)
    } else if s == "grant-memory-permission"@ {
        Some(ToolName::GrantMemoryPermission)
    } else if s == "revoke-storage-permission"@ {
        Some(ToolName::RevokeStoragePermission)
    } else if s == "revoke-network-permission"@ {
        Some(ToolName::RevokeNetworkPermission)
    } else if s == "revoke-environment-variable-permission"@ {
        Some(ToolName::RevokeEnvironmentVariablePermission)
    } else if s == "reset-permission"@ {
        Some(ToolName::ResetPermission)
    } else {
        None
    }
}

impl ToolName {
    /// The wire name of the tool.
    pub fn as_str(&self) -> (r: &'static str)
        ensures
            r@ == tool_name_text(*self),
    {
        match self {
            ToolName::LoadComponent => "load-component",
            ToolName::UnloadComponent => "unload-component",
            ToolName::ListComponents => "list-components",
            ToolName::GetPolicy => "get-policy",
            ToolName::GrantStoragePermission => "grant-storage-permission",
            ToolName::GrantNetworkPermission => "grant-network-permission",
            ToolName::GrantEnvironmentVariablePermission => "grant-environment-variable-permission",
            ToolName::GrantMemoryPermission => "grant-memory-permission",
            ToolName::RevokeStoragePermission => "revoke-storage-permission",
            ToolName::RevokeNetworkPermission => "revoke-network-permission",
            ToolName::RevokeEnvironmentVariablePermission => "revoke-environment-variable-permission",
            ToolName::ResetPermission => "reset-permission",
        }
    }

    /// The tool whose wire name is `value`.
    pub fn from_name(value: &str) -> (r: Result<ToolName, UnknownToolName>)
        ensures
            match tool_named(value@) {
                Some(t) => r == Ok::<ToolName, UnknownToolName>(t),
                None => r is Err && r->Err_0.name@ == value@,
            },
    {
        if str_eq(value, "load-component") {
            Ok(ToolName::LoadComponent)
        } else if str_eq(value, "unload-component") {
            Ok(ToolName::UnloadComponent)
        } else if str_eq(value, "list-components") {
            Ok(ToolName::ListComponents)
        } else if str_eq(value, "get-policy") {
            Ok(ToolName::GetPolicy)
        } else if str_eq(value, "grant-storage-permission") {
            Ok(ToolName::GrantStoragePermission)
        } else if str_eq(value, "grant-network-permission") {
            Ok(ToolName::GrantNetworkPermission)
        } else if str_eq(value, "grant-environment-variable-permission") {
            Ok(ToolName::GrantEnvironmentVariablePermission)
        } else if str_eq(value, "grant-memory-permission") {
            Ok(ToolName::GrantMemoryPermission)
        } else if str_eq(value, "revoke-storage-permission") {
            Ok(ToolName::RevokeStoragePermission)
        } else if str_eq(value, "revoke-network-permission") {
            Ok(ToolName::RevokeNetworkPermission)
        } else if str_eq(value, "revoke-environment-variable-permission") {
            Ok(ToolName::RevokeEnvironmentVariablePermission)
        } else if str_eq(value, "reset-permission") {
            Ok(ToolName::ResetPermission)
        } else {
            Err(UnknownToolName { name: String::from_str(value) })
        }
    }
}

impl<'a> vstd::std_specs::convert::TryFromSpecImpl<&'a str> for ToolName {
    open spec fn obeys_try_from_spec() -> bool {
        false
    }

    open spec fn try_from_spec(v: &'a str) -> Result<ToolName, UnknownToolName> {
        arbitrary()
    }
}

impl vstd::std_specs::convert::TryFromSpecImpl<String> for ToolName {
    open spec fn obeys_try_from_spec() -> bool {
        false
    }

    open spec fn try_from_spec(v: String) -> Result<ToolName, UnknownToolName> {
        arbitrary()
    }
}

impl<'a> TryFrom<&'a str> for ToolName {
    type Error = UnknownToolName;

    fn try_from(value: &'a str) -> (r: Result<ToolName, UnknownToolName>)
        ensures
            match tool_named(value@) {
                Some(t) => r == Ok::<ToolName, UnknownToolName>(t),
                None => r is Err && r->Err_0.name@ == value@,
            },
    {
        ToolName::from_name(value)
    }
}

impl TryFrom<String> for ToolName {
    type Error = UnknownToolName;

    fn try_from(value: String) -> (r: Result<ToolName, UnknownToolName>)
        ensures
            match tool_named(value@) {
                Some(t) => r == Ok::<ToolName, UnknownToolName>(t),
                None => r is Err && r->Err_0.name@ == value@,
            },
    {
        ToolName::from_name(value.as_str())
    }
}

/// Every tool's wire name reads back as that tool.
pub proof fn lemma_tool_name_round_trip(t: ToolName)
    ensures
        tool_named(tool_name_text(t)) == Some(t),
{
    reveal_strlit("load-component");
    reveal_strlit("unload-component");
    reveal_strlit("list-components");
    reveal_strlit("get-policy");
    reveal_strlit("grant-storage-permission");
    reveal_strlit("grant-network-permission");
    reveal_strlit("grant-environment-variable-permission");
    reveal_strlit("grant-memory-permission");
    reveal_strlit("revoke-storage-permission");
    reveal_strlit("revoke-network-permission");
    reveal_strlit("revoke-environment-variable-permission");
    reveal_strlit("reset-permission");
    assert("load-component"@.len() == 14);
    assert("unload-component"@.len() == 16);
    assert("list-components"@.len() == 15);
    assert("get-policy"@.len() == 10);
    assert("grant-storage-permission"@.len() == 24);
    assert("grant-network-permission"@.len() == 24);
    assert("grant-environment-variable-permission"@.len() == 37);
    assert("grant-memory-permission"@.len() == 23);
    assert("revoke-storage-permission"@.len() == 25);
    assert("revoke-network-permission"@.len() == 25);
    assert("revoke-environment-variable-permission"@.len() == 38);
    assert("reset-permission"@.len() == 16);
    assert("grant-storage-permission"@[6] != "grant-network-permission"@[6]);
    assert("revoke-storage-permission"@[7] != "revoke-network-permission"@[7]);
    assert("reset-permission"@[0] != "unload-component"@[0]);
}

} // verus!
