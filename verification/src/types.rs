//! Privileges, storage URI schemes, token types and securable types.

use crate::text::{chars_of, has_prefix, starts_with, str_eq};
use vstd::prelude::*;

verus! {

/// A privilege that can be granted on a securable. `Owner` and
/// `AllPrivileges` are umbrella privileges; every other one is specific.
#[derive(Debug, Clone, Copy, PartialEq, Eq, Hash, Structural)]
pub enum Privilege {
    Owner,
    AllPrivileges,
    CreateCatalog,
    UseCatalog,
    CreateSchema,
    UseSchema,
    CreateTable,
    Select,
    Modify,
    CreateFunction,
    Execute,
    CreateVolume,
    ReadVolume,
    CreateModel,
    CreateExternalLocation,
    ReadFiles,
    WriteFiles,
    CreateExternalTable,
    CreateExternalVolume,
    CreateManagedStorage,
    CreateStorageCredential,
}

/// The string a privilege is stored under in a policy rule.
pub open spec fn casbin_name_of(p: Privilege) -> Seq<char> {
    match p {
        Privilege::Owner => "OWNER"@,
        Privilege::AllPrivileges => "ALL_PRIVILEGES"@,
        Privilege::CreateCatalog => "CREATE_CATALOG"@,
        Privilege::UseCatalog => "USE_CATALOG"@,
        Privilege::CreateSchema => "CREATE_SCHEMA"@,
        Privilege::UseSchema => "USE_SCHEMA"@,
        Privilege::CreateTable => "CREATE_TABLE"@,
        Privilege::Select => "SELECT"@,
        Privilege::Modify => "MODIFY"@,
        Privilege::CreateFunction => "CREATE_FUNCTION"@,
        Privilege::Execute => "EXECUTE"@,
        Privilege::CreateVolume => "CREATE_VOLUME"@,
        Privilege::ReadVolume => "READ_VOLUME"@,
        Privilege::CreateModel => "CREATE_MODEL"@,
        Privilege::CreateExternalLocation => "CREATE_EXTERNAL_LOCATION"@,
        Privilege::ReadFiles => "READ_FILES"@,
        Privilege::WriteFiles => "WRITE_FILES"@,
        Privilege::CreateExternalTable => "CREATE_EXTERNAL_TABLE"@,
        Privilege::CreateExternalVolume => "CREATE_EXTERNAL_VOLUME"@,
        Privilege::CreateManagedStorage => "CREATE_MANAGED_STORAGE"@,
        Privilege::CreateStorageCredential => "CREATE_STORAGE_CREDENTIAL"@,
    }
}

/// The privilege stored under `s`, if any.
pub open spec fn privilege_named(s: Seq<char>) -> Option<Privilege> {
    if s == "OWNER"@ {
        Some(Privilege::Owner)
    } else if s == "ALL_PRIVILEGES"@ {
        Some(Privilege::AllPrivileges)
    } else if s == "CREATE_CATALOG"@ {
        Some(Privilege::CreateCatalog)
    } else if s == "USE_CATALOG"@ {
        Some(Privilege::UseCatalog)
    } else if s == "CREATE_SCHEMA"@ {
        Some(Privilege::CreateSchema)
    } else if s == "USE_SCHEMA"@ {
        Some(Privilege::UseSchema)
    } else if s == "CREATE_TABLE"@ {
        Some(Privilege::CreateTable)
    } else if s == "SELECT"@ {
        Some(Privilege::Select)
    } else if s == "MODIFY"@ {
        Some(Privilege::Modify)
    } else if s == "CREATE_FUNCTION"@ {
        Some(Privilege::CreateFunction)
    } else if s == "EXECUTE"@ {
        Some(Privilege::Execute)
    } else if s == "CREATE_VOLUME"@ {
        Some(Privilege::CreateVolume)
    } else if s == "READ_VOLUME"@ {
        Some(Privilege::ReadVolume)
    } else if s == "CREATE_MODEL"@ {
        Some(Privilege::CreateModel)
    } else if s == "CREATE_EXTERNAL_LOCATION"@ {
        Some(Privilege::CreateExternalLocation)
    } else if s == "READ_FILES"@ {
        Some(Privilege::ReadFiles)
    } else if s == "WRITE_FILES"@ {
        Some(Privilege::WriteFiles)
    } else if s == "CREATE_EXTERNAL_TABLE"@ {
        Some(Privilege::CreateExternalTable)
    } else if s == "CREATE_EXTERNAL_VOLUME"@ {
        Some(Privilege::CreateExternalVolume)
    } else if s == "CREATE_MANAGED_STORAGE"@ {
        Some(Privilege::CreateManagedStorage)
    } else if s == "CREATE_STORAGE_CREDENTIAL"@ {
        Some(Privilege::CreateStorageCredential)
    } else {
        None
    }
}

/// The specific privileges, in declaration order.
pub open spec fn specific_privileges() -> Seq<Privilege> {
    seq![
        Privilege::CreateCatalog,
        Privilege::UseCatalog,
        Privilege::CreateSchema,
        Privilege::UseSchema,
        Privilege::CreateTable,
        Privilege::Select,
        Privilege::Modify,
        Privilege::CreateFunction,
        Privilege::Execute,
        Privilege::CreateVolume,
        Privilege::ReadVolume,
        Privilege::CreateModel,
        Privilege::CreateExternalLocation,
        Privilege::ReadFiles,
        Privilege::WriteFiles,
        Privilege::CreateExternalTable,
        Privilege::CreateExternalVolume,
        Privilege::CreateManagedStorage,
        Privilege::CreateStorageCredential,
    ]
}

impl Privilege {
    /// The string stored in policy rows.
    pub fn as_casbin_str(&self) -> (s: &'static str)
        ensures
            s@ == casbin_name_of(*self),
    {
        match self {
            Privilege::Owner => "OWNER",
            Privilege::AllPrivileges => "ALL_PRIVILEGES",
            Privilege::CreateCatalog => "CREATE_CATALOG",
            Privilege::UseCatalog => "USE_CATALOG",
            Privilege::CreateSchema => "CREATE_SCHEMA",
            Privilege::UseSchema => "USE_SCHEMA",
            Privilege::CreateTable => "CREATE_TABLE",
            Privilege::Select => "SELECT",
            Privilege::Modify => "MODIFY",
            Privilege::CreateFunction => "CREATE_FUNCTION",
            Privilege::Execute => "EXECUTE",
            Privilege::CreateVolume => "CREATE_VOLUME",
            Privilege::ReadVolume => "READ_VOLUME",
            Privilege::CreateModel => "CREATE_MODEL",
            Privilege::CreateExternalLocation => "CREATE_EXTERNAL_LOCATION",
            Privilege::ReadFiles => "READ_FILES",
            Privilege::WriteFiles => "WRITE_FILES",
            Privilege::CreateExternalTable => "CREATE_EXTERNAL_TABLE",
            Privilege::CreateExternalVolume => "CREATE_EXTERNAL_VOLUME",
            Privilege::CreateManagedStorage => "CREATE_MANAGED_STORAGE",
            Privilege::CreateStorageCredential => "CREATE_STORAGE_CREDENTIAL",
        }
    }

    /// The privilege stored under `s`; `None` for any other string.
    pub fn from_casbin_str(s: &str) -> (r: Option<Privilege>)
        ensures
            r == privilege_named(s@),
    {
        if str_eq(s, "OWNER") {
            Some(Privilege::Owner)
        } else if str_eq(s, "ALL_PRIVILEGES") {
            Some(Privilege::AllPrivileges)
        } else if str_eq(s, "CREATE_CATALOG") {
            Some(Privilege::CreateCatalog)
        } else if str_eq(s, "USE_CATALOG") {
            Some(Privilege::UseCatalog)
        } else if str_eq(s, "CREATE_SCHEMA") {
            Some(Privilege::CreateSchema)
        } else if str_eq(s, "USE_SCHEMA") {
            Some(Privilege::UseSchema)
        } else if str_eq(s, "CREATE_TABLE") {
            Some(Privilege::CreateTable)
        } else if str_eq(s, "SELECT") {
            Some(Privilege::Select)
        } else if str_eq(s, "MODIFY") {
            Some(Privilege::Modify)
        } else if str_eq(s, "CREATE_FUNCTION") {
            Some(Privilege::CreateFunction)
        } else if str_eq(s, "EXECUTE") {
            Some(Privilege::Execute)
        } else if str_eq(s, "CREATE_VOLUME") {
            Some(Privilege::CreateVolume)
        } else if str_eq(s, "READ_VOLUME") {
            Some(Privilege::ReadVolume)
        } else if str_eq(s, "CREATE_MODEL") {
            Some(Privilege::CreateModel)
        } else if str_eq(s, "CREATE_EXTERNAL_LOCATION") {
            Some(Privilege::CreateExternalLocation)
        } else if str_eq(s, "READ_FILES") {
            Some(Privilege::ReadFiles)
        } else if str_eq(s, "WRITE_FILES") {
            Some(Privilege::WriteFiles)
        } else if str_eq(s, "CREATE_EXTERNAL_TABLE") {
            Some(Privilege::CreateExternalTable)
        } else if str_eq(s, "CREATE_EXTERNAL_VOLUME") {
            Some(Privilege::CreateExternalVolume)
        } else if str_eq(s, "CREATE_MANAGED_STORAGE") {
            Some(Privilege::CreateManagedStorage)
        } else if str_eq(s, "CREATE_STORAGE_CREDENTIAL") {
            Some(Privilege::CreateStorageCredential)
        } else {
            None
        }
    }

    /// Every concrete privilege: all but the umbrella `Owner` and
    /// `AllPrivileges`.
    pub fn specific() -> (v: Vec<Privilege>)
        ensures
            v@ == specific_privileges(),
    {
        let v = vec![
            Privilege::CreateCatalog,
            Privilege::UseCatalog,
            Privilege::CreateSchema,
            Privilege::UseSchema,
            Privilege::CreateTable,
            Privilege::Select,
            Privilege::Modify,
            Privilege::CreateFunction,
            Privilege::Execute,
            Privilege::CreateVolume,
            Privilege::ReadVolume,
            Privilege::CreateModel,
            Privilege::CreateExternalLocation,
            Privilege::ReadFiles,
            Privilege::WriteFiles,
            Privilege::CreateExternalTable,
            Privilege::CreateExternalVolume,
            Privilege::CreateManagedStorage,
            Privilege::CreateStorageCredential,
        ];
        assert(v@ =~= specific_privileges());
        v
    }

    /// Privilege-implication edges: `OWNER -> ALL_PRIVILEGES`, then
    /// `ALL_PRIVILEGES -> p` for each specific privilege `p` in order.
    pub fn hierarchy_edges() -> (edges: Vec<(&'static str, &'static str)>)
        ensures
            edges@.len() == 1 + specific_privileges().len(),
            edges@[0].0@ == casbin_name_of(Privilege::Owner),
            edges@[0].1@ == casbin_name_of(Privilege::AllPrivileges),
            forall|i: int|
                1 <= i < edges@.len() ==> (#[trigger] edges@[i]).0@ == casbin_name_of(
                    Privilege::AllPrivileges,
                ) && edges@[i].1@ == casbin_name_of(specific_privileges()[i - 1]),
    {
        let mut edges: Vec<(&'static str, &'static str)> = Vec::new();
        edges.push((Privilege::Owner.as_casbin_str(), Privilege::AllPrivileges.as_casbin_str()));
        let specific = Privilege::specific();
        let mut i: usize = 0;
        while i < specific.len()
            invariant
                specific@ == specific_privileges(),
                i <= specific@.len(),
                edges@.len() == 1 + i,
                edges@[0].0@ == casbin_name_of(Privilege::Owner),
                edges@[0].1@ == casbin_name_of(Privilege::AllPrivileges),
                forall|j: int|
                    1 <= j < edges@.len() ==> (#[trigger] edges@[j]).0@ == casbin_name_of(
                        Privilege::AllPrivileges,
                    ) && edges@[j].1@ == casbin_name_of(specific_privileges()[j - 1]),
            decreases specific@.len() - i,
        {
            let p = specific[i];
            edges.push((Privilege::AllPrivileges.as_casbin_str(), p.as_casbin_str()));
            i = i + 1;
        }
        edges
    }
}

/// Reading back the string a privilege is stored under gives that privilege.
pub proof fn lemma_casbin_name_round_trip(p: Privilege)
    ensures
        privilege_named(casbin_name_of(p)) == Some(p),
{
    match p {
        Privilege::Owner => {
            reveal_strlit("OWNER");
        },
        Privilege::AllPrivileges => {
            reveal_strlit("ALL_PRIVILEGES");
            reveal_strlit("OWNER");
            assert("ALL_PRIVILEGES"@.len() != "OWNER"@.len());
        },
        Privilege::CreateCatalog => {
            reveal_strlit("CREATE_CATALOG");
            reveal_strlit("OWNER");
            assert("CREATE_CATALOG"@.len() != "OWNER"@.len());
            reveal_strlit("ALL_PRIVILEGES");
            assert("CREATE_CATALOG"@[0] != "ALL_PRIVILEGES"@[0]);
        },
        Privilege::UseCatalog => {
            reveal_strlit("USE_CATALOG");
            reveal_strlit("OWNER");
            assert("USE_CATALOG"@.len() != "OWNER"@.len());
            reveal_strlit("ALL_PRIVILEGES");
            assert("USE_CATALOG"@.len() != "ALL_PRIVILEGES"@.len());
            reveal_strlit("CREATE_CATALOG");
            assert("USE_CATALOG"@.len() != "CREATE_CATALOG"@.len());
        },
        Privilege::CreateSchema => {
            reveal_strlit("CREATE_SCHEMA");
            reveal_strlit("OWNER");
            assert("CREATE_SCHEMA"@.len() != "OWNER"@.len());
            reveal_strlit("ALL_PRIVILEGES");
            assert("CREATE_SCHEMA"@.len() != "ALL_PRIVILEGES"@.len());
            reveal_strlit("CREATE_CATALOG");
            assert("CREATE_SCHEMA"@.len() != "CREATE_CATALOG"@.len());
            reveal_strlit("USE_CATALOG");
            assert("CREATE_SCHEMA"@.len() != "USE_CATALOG"@.len());
        },
        Privilege::UseSchema => {
            reveal_strlit("USE_SCHEMA");
            reveal_strlit("OWNER");
            assert("USE_SCHEMA"@.len() != "OWNER"@.len());
            reveal_strlit("ALL_PRIVILEGES");
            assert("USE_SCHEMA"@.len() != "ALL_PRIVILEGES"@.len());
            reveal_strlit("CREATE_CATALOG");
            assert("USE_SCHEMA"@.len() != "CREATE_CATALOG"@.len());
            reveal_strlit("USE_CATALOG");
            assert("USE_SCHEMA"@.len() != "USE_CATALOG"@.len());
            reveal_strlit("CREATE_SCHEMA");
            assert("USE_SCHEMA"@.len() != "CREATE_SCHEMA"@.len());
        },
        Privilege::CreateTable => {
            reveal_strlit("CREATE_TABLE");
            reveal_strlit("OWNER");
            assert("CREATE_TABLE"@.len() != "OWNER"@.len());
            reveal_strlit("ALL_PRIVILEGES");
            assert("CREATE_TABLE"@.len() != "ALL_PRIVILEGES"@.len());
            reveal_strlit("CREATE_CATALOG");
            assert("CREATE_TABLE"@.len() != "CREATE_CATALOG"@.len());
            reveal_strlit("USE_CATALOG");
            assert("CREATE_TABLE"@.len() != "USE_CATALOG"@.len());
            reveal_strlit("CREATE_SCHEMA");
            assert("CREATE_TABLE"@.len() != "CREATE_SCHEMA"@.len());
            reveal_strlit("USE_SCHEMA");
            assert("CREATE_TABLE"@.len() != "USE_SCHEMA"@.len());
        },
        Privilege::Select => {
            reveal_strlit("SELECT");
            reveal_strlit("OWNER");
            assert("SELECT"@.len() != "OWNER"@.len());
            reveal_strlit("ALL_PRIVILEGES");
            assert("SELECT"@.len() != "ALL_PRIVILEGES"@.len());
            reveal_strlit("CREATE_CATALOG");
            assert("SELECT"@.len() != "CREATE_CATALOG"@.len());
            reveal_strlit("USE_CATALOG");
            assert("SELECT"@.len() != "USE_CATALOG"@.len());
            reveal_strlit("CREATE_SCHEMA");
            assert("SELECT"@.len() != "CREATE_SCHEMA"@.len());
            reveal_strlit("USE_SCHEMA");
            assert("SELECT"@.len() != "USE_SCHEMA"@.len());
            reveal_strlit("CREATE_TABLE");
            assert("SELECT"@.len() != "CREATE_TABLE"@.len());
        },
        Privilege::Modify => {
            reveal_strlit("MODIFY");
            reveal_strlit("OWNER");
            assert("MODIFY"@.len() != "OWNER"@.len());
            reveal_strlit("ALL_PRIVILEGES");
            assert("MODIFY"@.len() != "ALL_PRIVILEGES"@.len());
            reveal_strlit("CREATE_CATALOG");
            assert("MODIFY"@.len() != "CREATE_CATALOG"@.len());
            reveal_strlit("USE_CATALOG");
            assert("MODIFY"@.len() != "USE_CATALOG"@.len());
            reveal_strlit("CREATE_SCHEMA");
            assert("MODIFY"@.len() != "CREATE_SCHEMA"@.len());
            reveal_strlit("USE_SCHEMA");
            assert("MODIFY"@.len() != "USE_SCHEMA"@.len());
            reveal_strlit("CREATE_TABLE");
            assert("MODIFY"@.len() != "CREATE_TABLE"@.len());
            reveal_strlit("SELECT");
            assert("MODIFY"@[0] != "SELECT"@[0]);
        },
        Privilege::CreateFunction => {
            reveal_strlit("CREATE_FUNCTION");
            reveal_strlit("OWNER");
            assert("CREATE_FUNCTION"@.len() != "OWNER"@.len());
            reveal_strlit("ALL_PRIVILEGES");
            assert("CREATE_FUNCTION"@.len() != "ALL_PRIVILEGES"@.len());
            reveal_strlit("CREATE_CATALOG");
            assert("CREATE_FUNCTION"@.len() != "CREATE_CATALOG"@.len());
            reveal_strlit("USE_CATALOG");
            assert("CREATE_FUNCTION"@.len() != "USE_CATALOG"@.len());
            reveal_strlit("CREATE_SCHEMA");
            assert("CREATE_FUNCTION"@.len() != "CREATE_SCHEMA"@.len());
            reveal_strlit("USE_SCHEMA");
            assert("CREATE_FUNCTION"@.len() != "USE_SCHEMA"@.len());
            reveal_strlit("CREATE_TABLE");
            assert("CREATE_FUNCTION"@.len() != "CREATE_TABLE"@.len());
            reveal_strlit("SELECT");
            assert("CREATE_FUNCTION"@.len() != "SELECT"@.len());
            reveal_strlit("MODIFY");
            assert("CREATE_FUNCTION"@.len() != "MODIFY"@.len());
        },
        Privilege::Execute => {
            reveal_strlit("EXECUTE");
            reveal_strlit("OWNER");
            assert("EXECUTE"@.len() != "OWNER"@.len());
            reveal_strlit("ALL_PRIVILEGES");
            assert("EXECUTE"@.len() != "ALL_PRIVILEGES"@.len());
            reveal_strlit("CREATE_CATALOG");
            assert("EXECUTE"@.len() != "CREATE_CATALOG"@.len());
            reveal_strlit("USE_CATALOG");
            assert("EXECUTE"@.len() != "USE_CATALOG"@.len());
            reveal_strlit("CREATE_SCHEMA");
            assert("EXECUTE"@.len() != "CREATE_SCHEMA"@.len());
            reveal_strlit("USE_SCHEMA");
            assert("EXECUTE"@.len() != "USE_SCHEMA"@.len());
            reveal_strlit("CREATE_TABLE");
            assert("EXECUTE"@.len() != "CREATE_TABLE"@.len());
            reveal_strlit("SELECT");
            assert("EXECUTE"@.len() != "SELECT"@.len());
            reveal_strlit("MODIFY");
            assert("EXECUTE"@.len() != "MODIFY"@.len());
            reveal_strlit("CREATE_FUNCTION");
            assert("EXECUTE"@.len() != "CREATE_FUNCTION"@.len());
        },
        Privilege::CreateVolume => {
            reveal_strlit("CREATE_VOLUME");
            reveal_strlit("OWNER");
            assert("CREATE_VOLUME"@.len() != "OWNER"@.len());
            reveal_strlit("ALL_PRIVILEGES");
            assert("CREATE_VOLUME"@.len() != "ALL_PRIVILEGES"@.len());
            reveal_strlit("CREATE_CATALOG");
            assert("CREATE_VOLUME"@.len() != "CREATE_CATALOG"@.len());
            reveal_strlit("USE_CATALOG");
            assert("CREATE_VOLUME"@.len() != "USE_CATALOG"@.len());
            reveal_strlit("CREATE_SCHEMA");
            assert("CREATE_VOLUME"@[7] != "CREATE_SCHEMA"@[7]);
            reveal_strlit("USE_SCHEMA");
            assert("CREATE_VOLUME"@.len() != "USE_SCHEMA"@.len());
            reveal_strlit("CREATE_TABLE");
            assert("CREATE_VOLUME"@.len() != "CREATE_TABLE"@.len());
            reveal_strlit("SELECT");
            assert("CREATE_VOLUME"@.len() != "SELECT"@.len());
            reveal_strlit("MODIFY");
            assert("CREATE_VOLUME"@.len() != "MODIFY"@.len());
            reveal_strlit("CREATE_FUNCTION");
            assert("CREATE_VOLUME"@.len() != "CREATE_FUNCTION"@.len());
            reveal_strlit("EXECUTE");
            assert("CREATE_VOLUME"@.len() != "EXECUTE"@.len());
        },
        Privilege::ReadVolume => {
            reveal_strlit("READ_VOLUME");
            reveal_strlit("OWNER");
            assert("READ_VOLUME"@.len() != "OWNER"@.len());
            reveal_strlit("ALL_PRIVILEGES");
            assert("READ_VOLUME"@.len() != "ALL_PRIVILEGES"@.len());
            reveal_strlit("CREATE_CATALOG");
            assert("READ_VOLUME"@.len() != "CREATE_CATALOG"@.len());
            reveal_strlit("USE_CATALOG");
            assert("READ_VOLUME"@[0] != "USE_CATALOG"@[0]);
            reveal_strlit("CREATE_SCHEMA");
            assert("READ_VOLUME"@.len() != "CREATE_SCHEMA"@.len());
            reveal_strlit("USE_SCHEMA");
            assert("READ_VOLUME"@.len() != "USE_SCHEMA"@.len());
            reveal_strlit("CREATE_TABLE");
            assert("READ_VOLUME"@.len() != "CREATE_TABLE"@.len());
            reveal_strlit("SELECT");
            assert("READ_VOLUME"@.len() != "SELECT"@.len());
            reveal_strlit("MODIFY");
            assert("READ_VOLUME"@.len() != "MODIFY"@.len());
            reveal_strlit("CREATE_FUNCTION");
            assert("READ_VOLUME"@.len() != "CREATE_FUNCTION"@.len());
            reveal_strlit("EXECUTE");
            assert("READ_VOLUME"@.len() != "EXECUTE"@.len());
            reveal_strlit("CREATE_VOLUME");
            assert("READ_VOLUME"@.len() != "CREATE_VOLUME"@.len());
        },
        Privilege::CreateModel => {
            reveal_strlit("CREATE_MODEL");
            reveal_strlit("OWNER");
            assert("CREATE_MODEL"@.len() != "OWNER"@.len());
            reveal_strlit("ALL_PRIVILEGES");
            assert("CREATE_MODEL"@.len() != "ALL_PRIVILEGES"@.len());
            reveal_strlit("CREATE_CATALOG");
            assert("CREATE_MODEL"@.len() != "CREATE_CATALOG"@.len());
            reveal_strlit("USE_CATALOG");
            assert("CREATE_MODEL"@.len() != "USE_CATALOG"@.len());
            reveal_strlit("CREATE_SCHEMA");
            assert("CREATE_MODEL"@.len() != "CREATE_SCHEMA"@.len());
            reveal_strlit("USE_SCHEMA");
            assert("CREATE_MODEL"@.len() != "USE_SCHEMA"@.len());
            reveal_strlit("CREATE_TABLE");
            assert("CREATE_MODEL"@[7] != "CREATE_TABLE"@[7]);
            reveal_strlit("SELECT");
            assert("CREATE_MODEL"@.len() != "SELECT"@.len());
            reveal_strlit("MODIFY");
            assert("CREATE_MODEL"@.len() != "MODIFY"@.len());
            reveal_strlit("CREATE_FUNCTION");
            assert("CREATE_MODEL"@.len() != "CREATE_FUNCTION"@.len());
            reveal_strlit("EXECUTE");
            assert("CREATE_MODEL"@.len() != "EXECUTE"@.len());
            reveal_strlit("CREATE_VOLUME");
            assert("CREATE_MODEL"@.len() != "CREATE_VOLUME"@.len());
            reveal_strlit("READ_VOLUME");
            assert("CREATE_MODEL"@.len() != "READ_VOLUME"@.len());
        },
        Privilege::CreateExternalLocation => {
            reveal_strlit("CREATE_EXTERNAL_LOCATION");
            reveal_strlit("OWNER");
            assert("CREATE_EXTERNAL_LOCATION"@.len() != "OWNER"@.len());
            reveal_strlit("ALL_PRIVILEGES");
            assert("CREATE_EXTERNAL_LOCATION"@.len() != "ALL_PRIVILEGES"@.len());
            reveal_strlit("CREATE_CATALOG");
            assert("CREATE_EXTERNAL_LOCATION"@.len() != "CREATE_CATALOG"@.len());
            reveal_strlit("USE_CATALOG");
            assert("CREATE_EXTERNAL_LOCATION"@.len() != "USE_CATALOG"@.len());
            reveal_strlit("CREATE_SCHEMA");
            assert("CREATE_EXTERNAL_LOCATION"@.len() != "CREATE_SCHEMA"@.len());
            reveal_strlit("USE_SCHEMA");
            assert("CREATE_EXTERNAL_LOCATION"@.len() != "USE_SCHEMA"@.len());
            reveal_strlit("CREATE_TABLE");
            assert("CREATE_EXTERNAL_LOCATION"@.len() != "CREATE_TABLE"@.len());
            reveal_strlit("SELECT");
            assert("CREATE_EXTERNAL_LOCATION"@.len() != "SELECT"@.len());
            reveal_strlit("MODIFY");
            assert("CREATE_EXTERNAL_LOCATION"@.len() != "MODIFY"@.len());
            reveal_strlit("CREATE_FUNCTION");
            assert("CREATE_EXTERNAL_LOCATION"@.len() != "CREATE_FUNCTION"@.len());
            reveal_strlit("EXECUTE");
            assert("CREATE_EXTERNAL_LOCATION"@.len() != "EXECUTE"@.len());
            reveal_strlit("CREATE_VOLUME");
            assert("CREATE_EXTERNAL_LOCATION"@.len() != "CREATE_VOLUME"@.len());
            reveal_strlit("READ_VOLUME");
            assert("CREATE_EXTERNAL_LOCATION"@.len() != "READ_VOLUME"@.len());
            reveal_strlit("CREATE_MODEL");
            assert("CREATE_EXTERNAL_LOCATION"@.len() != "CREATE_MODEL"@.len());
        },
        Privilege::ReadFiles => {
            reveal_strlit("READ_FILES");
            reveal_strlit("OWNER");
            assert("READ_FILES"@.len() != "OWNER"@.len());
            reveal_strlit("ALL_PRIVILEGES");
            assert("READ_FILES"@.len() != "ALL_PRIVILEGES"@.len());
            reveal_strlit("CREATE_CATALOG");
            assert("READ_FILES"@.len() != "CREATE_CATALOG"@.len());
            reveal_strlit("USE_CATALOG");
            assert("READ_FILES"@.len() != "USE_CATALOG"@.len());
            reveal_strlit("CREATE_SCHEMA");
            assert("READ_FILES"@.len() != "CREATE_SCHEMA"@.len());
            reveal_strlit("USE_SCHEMA");
            assert("READ_FILES"@[0] != "USE_SCHEMA"@[0]);
            reveal_strlit("CREATE_TABLE");
            assert("READ_FILES"@.len() != "CREATE_TABLE"@.len());
            reveal_strlit("SELECT");
            assert("READ_FILES"@.len() != "SELECT"@.len());
            reveal_strlit("MODIFY");
            assert("READ_FILES"@.len() != "MODIFY"@.len());
            reveal_strlit("CREATE_FUNCTION");
            assert("READ_FILES"@.len() != "CREATE_FUNCTION"@.len());
            reveal_strlit("EXECUTE");
            assert("READ_FILES"@.len() != "EXECUTE"@.len());
            reveal_strlit("CREATE_VOLUME");
            assert("READ_FILES"@.len() != "CREATE_VOLUME"@.len());
            reveal_strlit("READ_VOLUME");
            assert("READ_FILES"@.len() != "READ_VOLUME"@.len());
            reveal_strlit("CREATE_MODEL");
            assert("READ_FILES"@.len() != "CREATE_MODEL"@.len());
            reveal_strlit("CREATE_EXTERNAL_LOCATION");
            assert("READ_FILES"@.len() != "CREATE_EXTERNAL_LOCATION"@.len());
        },
        Privilege::WriteFiles => {
            reveal_strlit("WRITE_FILES");
            reveal_strlit("OWNER");
            assert("WRITE_FILES"@.len() != "OWNER"@.len());
            reveal_strlit("ALL_PRIVILEGES");
            assert("WRITE_FILES"@.len() != "ALL_PRIVILEGES"@.len());
            reveal_strlit("CREATE_CATALOG");
            assert("WRITE_FILES"@.len() != "CREATE_CATALOG"@.len());
            reveal_strlit("USE_CATALOG");
            assert("WRITE_FILES"@[0] != "USE_CATALOG"@[0]);
            reveal_strlit("CREATE_SCHEMA");
            assert("WRITE_FILES"@.len() != "CREATE_SCHEMA"@.len());
            reveal_strlit("USE_SCHEMA");
            assert("WRITE_FILES"@.len() != "USE_SCHEMA"@.len());
            reveal_strlit("CREATE_TABLE");
            assert("WRITE_FILES"@.len() != "CREATE_TABLE"@.len());
            reveal_strlit("SELECT");
            assert("WRITE_FILES"@.len() != "SELECT"@.len());
            reveal_strlit("MODIFY");
            assert("WRITE_FILES"@.len() != "MODIFY"@.len());
            reveal_strlit("CREATE_FUNCTION");
            assert("WRITE_FILES"@.len() != "CREATE_FUNCTION"@.len());
            reveal_strlit("EXECUTE");
            assert("WRITE_FILES"@.len() != "EXECUTE"@.len());
            reveal_strlit("CREATE_VOLUME");
            assert("WRITE_FILES"@.len() != "CREATE_VOLUME"@.len());
            reveal_strlit("READ_VOLUME");
            assert("WRITE_FILES"@[0] != "READ_VOLUME"@[0]);
            reveal_strlit("CREATE_MODEL");
            assert("WRITE_FILES"@.len() != "CREATE_MODEL"@.len());
            reveal_strlit("CREATE_EXTERNAL_LOCATION");
            assert("WRITE_FILES"@.len() != "CREATE_EXTERNAL_LOCATION"@.len());
            reveal_strlit("READ_FILES");
            assert("WRITE_FILES"@.len() != "READ_FILES"@.len());
        },
        Privilege::CreateExternalTable => {
            reveal_strlit("CREATE_EXTERNAL_TABLE");
            reveal_strlit("OWNER");
            assert("CREATE_EXTERNAL_TABLE"@.len() != "OWNER"@.len());
            reveal_strlit("ALL_PRIVILEGES");
            assert("CREATE_EXTERNAL_TABLE"@.len() != "ALL_PRIVILEGES"@.len());
            reveal_strlit("CREATE_CATALOG");
            assert("CREATE_EXTERNAL_TABLE"@.len() != "CREATE_CATALOG"@.len());
            reveal_strlit("USE_CATALOG");
            assert("CREATE_EXTERNAL_TABLE"@.len() != "USE_CATALOG"@.len());
            reveal_strlit("CREATE_SCHEMA");
            assert("CREATE_EXTERNAL_TABLE"@.len() != "CREATE_SCHEMA"@.len());
            reveal_strlit("USE_SCHEMA");
            assert("CREATE_EXTERNAL_TABLE"@.len() != "USE_SCHEMA"@.len());
            reveal_strlit("CREATE_TABLE");
            assert("CREATE_EXTERNAL_TABLE"@.len() != "CREATE_TABLE"@.len());
            reveal_strlit("SELECT");
            assert("CREATE_EXTERNAL_TABLE"@.len() != "SELECT"@.len());
            reveal_strlit("MODIFY");
            assert("CREATE_EXTERNAL_TABLE"@.len() != "MODIFY"@.len());
            reveal_strlit("CREATE_FUNCTION");
            assert("CREATE_EXTERNAL_TABLE"@.len() != "CREATE_FUNCTION"@.len());
            reveal_strlit("EXECUTE");
            assert("CREATE_EXTERNAL_TABLE"@.len() != "EXECUTE"@.len());
            reveal_strlit("CREATE_VOLUME");
            assert("CREATE_EXTERNAL_TABLE"@.len() != "CREATE_VOLUME"@.len());
            reveal_strlit("READ_VOLUME");
            assert("CREATE_EXTERNAL_TABLE"@.len() != "READ_VOLUME"@.len());
            reveal_strlit("CREATE_MODEL");
            assert("CREATE_EXTERNAL_TABLE"@.len() != "CREATE_MODEL"@.len());
            reveal_strlit("CREATE_EXTERNAL_LOCATION");
            assert("CREATE_EXTERNAL_TABLE"@.len() != "CREATE_EXTERNAL_LOCATION"@.len());
            reveal_strlit("READ_FILES");
            assert("CREATE_EXTERNAL_TABLE"@.len() != "READ_FILES"@.len());
            reveal_strlit("WRITE_FILES");
            assert("CREATE_EXTERNAL_TABLE"@.len() != "WRITE_FILES"@.len());
        },
        Privilege::CreateExternalVolume => {
            reveal_strlit("CREATE_EXTERNAL_VOLUME");
            reveal_strlit("OWNER");
            assert("CREATE_EXTERNAL_VOLUME"@.len() != "OWNER"@.len());
            reveal_strlit("ALL_PRIVILEGES");
            assert("CREATE_EXTERNAL_VOLUME"@.len() != "ALL_PRIVILEGES"@.len());
            reveal_strlit("CREATE_CATALOG");
            assert("CREATE_EXTERNAL_VOLUME"@.len() != "CREATE_CATALOG"@.len());
            reveal_strlit("USE_CATALOG");
            assert("CREATE_EXTERNAL_VOLUME"@.len() != "USE_CATALOG"@.len());
            reveal_strlit("CREATE_SCHEMA");
            assert("CREATE_EXTERNAL_VOLUME"@.len() != "CREATE_SCHEMA"@.len());
            reveal_strlit("USE_SCHEMA");
            assert("CREATE_EXTERNAL_VOLUME"@.len() != "USE_SCHEMA"@.len());
            reveal_strlit("CREATE_TABLE");
            assert("CREATE_EXTERNAL_VOLUME"@.len() != "CREATE_TABLE"@.len());
            reveal_strlit("SELECT");
            assert("CREATE_EXTERNAL_VOLUME"@.len() != "SELECT"@.len());
            reveal_strlit("MODIFY");
            assert("CREATE_EXTERNAL_VOLUME"@.len() != "MODIFY"@.len());
            reveal_strlit("CREATE_FUNCTION");
            assert("CREATE_EXTERNAL_VOLUME"@.len() != "CREATE_FUNCTION"@.len());
            reveal_strlit("EXECUTE");
            assert("CREATE_EXTERNAL_VOLUME"@.len() != "EXECUTE"@.len());
            reveal_strlit("CREATE_VOLUME");
            assert("CREATE_EXTERNAL_VOLUME"@.len() != "CREATE_VOLUME"@.len());
            reveal_strlit("READ_VOLUME");
            assert("CREATE_EXTERNAL_VOLUME"@.len() != "READ_VOLUME"@.len());
            reveal_strlit("CREATE_MODEL");
            assert("CREATE_EXTERNAL_VOLUME"@.len() != "CREATE_MODEL"@.len());
            reveal_strlit("CREATE_EXTERNAL_LOCATION");
            assert("CREATE_EXTERNAL_VOLUME"@.len() != "CREATE_EXTERNAL_LOCATION"@.len());
            reveal_strlit("READ_FILES");
            assert("CREATE_EXTERNAL_VOLUME"@.len() != "READ_FILES"@.len());
            reveal_strlit("WRITE_FILES");
            assert("CREATE_EXTERNAL_VOLUME"@.len() != "WRITE_FILES"@.len());
            reveal_strlit("CREATE_EXTERNAL_TABLE");
            assert("CREATE_EXTERNAL_VOLUME"@.len() != "CREATE_EXTERNAL_TABLE"@.len());
        },
        Privilege::CreateManagedStorage => {
            reveal_strlit("CREATE_MANAGED_STORAGE");
            reveal_strlit("OWNER");
            assert("CREATE_MANAGED_STORAGE"@.len() != "OWNER"@.len());
            reveal_strlit("ALL_PRIVILEGES");
            assert("CREATE_MANAGED_STORAGE"@.len() != "ALL_PRIVILEGES"@.len());
            reveal_strlit("CREATE_CATALOG");
            assert("CREATE_MANAGED_STORAGE"@.len() != "CREATE_CATALOG"@.len());
            reveal_strlit("USE_CATALOG");
            assert("CREATE_MANAGED_STORAGE"@.len() != "USE_CATALOG"@.len());
            reveal_strlit("CREATE_SCHEMA");
            assert("CREATE_MANAGED_STORAGE"@.len() != "CREATE_SCHEMA"@.len());
            reveal_strlit("USE_SCHEMA");
            assert("CREATE_MANAGED_STORAGE"@.len() != "USE_SCHEMA"@.len());
            reveal_strlit("CREATE_TABLE");
            assert("CREATE_MANAGED_STORAGE"@.len() != "CREATE_TABLE"@.len());
            reveal_strlit("SELECT");
            assert("CREATE_MANAGED_STORAGE"@.len() != "SELECT"@.len());
            reveal_strlit("MODIFY");
            assert("CREATE_MANAGED_STORAGE"@.len() != "MODIFY"@.len());
            reveal_strlit("CREATE_FUNCTION");
            assert("CREATE_MANAGED_STORAGE"@.len() != "CREATE_FUNCTION"@.len());
            reveal_strlit("EXECUTE");
            assert("CREATE_MANAGED_STORAGE"@.len() != "EXECUTE"@.len());
            reveal_strlit("CREATE_VOLUME");
            assert("CREATE_MANAGED_STORAGE"@.len() != "CREATE_VOLUME"@.len());
            reveal_strlit("READ_VOLUME");
            assert("CREATE_MANAGED_STORAGE"@.len() != "READ_VOLUME"@.len());
            reveal_strlit("CREATE_MODEL");
            assert("CREATE_MANAGED_STORAGE"@.len() != "CREATE_MODEL"@.len());
            reveal_strlit("CREATE_EXTERNAL_LOCATION");
            assert("CREATE_MANAGED_STORAGE"@.len() != "CREATE_EXTERNAL_LOCATION"@.len());
            reveal_strlit("READ_FILES");
            assert("CREATE_MANAGED_STORAGE"@.len() != "READ_FILES"@.len());
            reveal_strlit("WRITE_FILES");
            assert("CREATE_MANAGED_STORAGE"@.len() != "WRITE_FILES"@.len());
            reveal_strlit("CREATE_EXTERNAL_TABLE");
            assert("CREATE_MANAGED_STORAGE"@.len() != "CREATE_EXTERNAL_TABLE"@.len());
            reveal_strlit("CREATE_EXTERNAL_VOLUME");
            assert("CREATE_MANAGED_STORAGE"@[7] != "CREATE_EXTERNAL_VOLUME"@[7]);
        },
        Privilege::CreateStorageCredential => {
            reveal_strlit("CREATE_STORAGE_CREDENTIAL");
            reveal_strlit("OWNER");
            assert("CREATE_STORAGE_CREDENTIAL"@.len() != "OWNER"@.len());
            reveal_strlit("ALL_PRIVILEGES");
            assert("CREATE_STORAGE_CREDENTIAL"@.len() != "ALL_PRIVILEGES"@.len());
            reveal_strlit("CREATE_CATALOG");
            assert("CREATE_STORAGE_CREDENTIAL"@.len() != "CREATE_CATALOG"@.len());
            reveal_strlit("USE_CATALOG");
            assert("CREATE_STORAGE_CREDENTIAL"@.len() != "USE_CATALOG"@.len());
            reveal_strlit("CREATE_SCHEMA");
            assert("CREATE_STORAGE_CREDENTIAL"@.len() != "CREATE_SCHEMA"@.len());
            reveal_strlit("USE_SCHEMA");
            assert("CREATE_STORAGE_CREDENTIAL"@.len() != "USE_SCHEMA"@.len());
            reveal_strlit("CREATE_TABLE");
            assert("CREATE_STORAGE_CREDENTIAL"@.len() != "CREATE_TABLE"@.len());
            reveal_strlit("SELECT");
            assert("CREATE_STORAGE_CREDENTIAL"@.len() != "SELECT"@.len());
            reveal_strlit("MODIFY");
            assert("CREATE_STORAGE_CREDENTIAL"@.len() != "MODIFY"@.len());
            reveal_strlit("CREATE_FUNCTION");
            assert("CREATE_STORAGE_CREDENTIAL"@.len() != "CREATE_FUNCTION"@.len());
            reveal_strlit("EXECUTE");
            assert("CREATE_STORAGE_CREDENTIAL"@.len() != "EXECUTE"@.len());
            reveal_strlit("CREATE_VOLUME");
            assert("CREATE_STORAGE_CREDENTIAL"@.len() != "CREATE_VOLUME"@.len());
            reveal_strlit("READ_VOLUME");
            assert("CREATE_STORAGE_CREDENTIAL"@.len() != "READ_VOLUME"@.len());
            reveal_strlit("CREATE_MODEL");
            assert("CREATE_STORAGE_CREDENTIAL"@.len() != "CREATE_MODEL"@.len());
            reveal_strlit("CREATE_EXTERNAL_LOCATION");
            assert("CREATE_STORAGE_CREDENTIAL"@.len() != "CREATE_EXTERNAL_LOCATION"@.len());
            reveal_strlit("READ_FILES");
            assert("CREATE_STORAGE_CREDENTIAL"@.len() != "READ_FILES"@.len());
            reveal_strlit("WRITE_FILES");
            assert("CREATE_STORAGE_CREDENTIAL"@.len() != "WRITE_FILES"@.len());
            reveal_strlit("CREATE_EXTERNAL_TABLE");
            assert("CREATE_STORAGE_CREDENTIAL"@.len() != "CREATE_EXTERNAL_TABLE"@.len());
            reveal_strlit("CREATE_EXTERNAL_VOLUME");
            assert("CREATE_STORAGE_CREDENTIAL"@.len() != "CREATE_EXTERNAL_VOLUME"@.len());
            reveal_strlit("CREATE_MANAGED_STORAGE");
            assert("CREATE_STORAGE_CREDENTIAL"@.len() != "CREATE_MANAGED_STORAGE"@.len());
        },
    }
}

/// Neither umbrella privilege is specific.
pub proof fn lemma_umbrella_privileges_are_not_specific()
    ensures
        !specific_privileges().contains(Privilege::Owner),
        !specific_privileges().contains(Privilege::AllPrivileges),
{
    assert forall|i: int| 0 <= i < specific_privileges().len() implies specific_privileges()[i]
        != Privilege::Owner && specific_privileges()[i] != Privilege::AllPrivileges by {}
}

/// Unicode lower-casing of a string, as `str::to_lowercase` computes it.
pub uninterp spec fn lowercase_of(s: Seq<char>) -> Seq<char>;

/// Unicode upper-casing of a string, as `str::to_uppercase` computes it.
pub uninterp spec fn uppercase_of(s: Seq<char>) -> Seq<char>;

/// `str::to_lowercase`: the result is the Unicode lower-case mapping of the
/// input, named `lowercase_of`; the mapping itself is not restated here.
#[verifier::external_body]
fn to_lowercase(s: &str) -> (r: String)
    ensures
        r@ == lowercase_of(s@),
{
    s.to_lowercase()
}

/// `str::to_uppercase`: the result is the Unicode upper-case mapping of the
/// input, named `uppercase_of`; the mapping itself is not restated here.
#[verifier::external_body]
fn to_uppercase(s: &str) -> (r: String)
    ensures
        r@ == uppercase_of(s@),
{
    s.to_uppercase()
}

/// Storage location URI schemes, used to pick a credential vendor.
#[derive(Debug, Clone, Copy, PartialEq, Eq, Structural)]
pub enum UriScheme {
    S3,
    Abfs,
    Abfss,
    Gs,
    File,
    Null,
}

/// The scheme of an already lower-cased location.
pub open spec fn scheme_of_lowercase(l: Seq<char>) -> UriScheme {
    if starts_with(l, "s3://"@) || starts_with(l, "s3a://"@) {
        UriScheme::S3
    } else if starts_with(l, "abfss://"@) {
        UriScheme::Abfss
    } else if starts_with(l, "abfs://"@) {
        UriScheme::Abfs
    } else if starts_with(l, "gs://"@) {
        UriScheme::Gs
    } else if starts_with(l, "file://"@) || starts_with(l, seq!['/']) {
        UriScheme::File
    } else {
        UriScheme::Null
    }
}

impl UriScheme {
    /// The scheme of a location, matched case-insensitively.
    pub fn from_url(url: &str) -> (r: UriScheme)
        ensures
            r == scheme_of_lowercase(lowercase_of(url@)),
    {
        let lower = to_lowercase(url);
        UriScheme::from_lowercase_url(lower.as_str())
    }

    /// The scheme of a location that is already lower case.
    pub fn from_lowercase_url(lower: &str) -> (r: UriScheme)
        ensures
            r == scheme_of_lowercase(lower@),
    {
        let l = chars_of(lower);
        let l = l.as_slice();
        let slash = vec!['/'];
        if has_prefix(l, chars_of("s3://").as_slice()) || has_prefix(l, chars_of("s3a://").as_slice()) {
            UriScheme::S3
        } else if has_prefix(l, chars_of("abfss://").as_slice()) {
            UriScheme::Abfss
        } else if has_prefix(l, chars_of("abfs://").as_slice()) {
            UriScheme::Abfs
        } else if has_prefix(l, chars_of("gs://").as_slice()) {
            UriScheme::Gs
        } else if has_prefix(l, chars_of("file://").as_slice()) || has_prefix(l, slash.as_slice()) {
            assert(slash@ =~= seq!['/']);
            UriScheme::File
        } else {
            assert(slash@ =~= seq!['/']);
            UriScheme::Null
        }
    }
}

/// The `token_type` claim of a JWT.
#[derive(Debug, Clone, Copy, PartialEq, Eq, Structural)]
pub enum TokenType {
    Access,
    Service,
}

/// Resource types that can carry permissions.
#[derive(Debug, Clone, Copy, PartialEq, Eq, Hash, Structural)]
pub enum SecurableType {
    Metastore,
    Catalog,
    Schema,
    Table,
    Volume,
    Function,
    RegisteredModel,
    ExternalLocation,
    StorageCredential,
}

/// The securable type named by an upper-cased string, if any.
pub open spec fn securable_named(u: Seq<char>) -> Option<SecurableType> {
    if u == "METASTORE"@ {
        Some(SecurableType::Metastore)
    } else if u == "CATALOG"@ {
        Some(SecurableType::Catalog)
    } else if u == "SCHEMA"@ {
        Some(SecurableType::Schema)
    } else if u == "TABLE"@ {
        Some(SecurableType::Table)
    } else if u == "VOLUME"@ {
        Some(SecurableType::Volume)
    } else if u == "FUNCTION"@ {
        Some(SecurableType::Function)
    } else if u == "REGISTERED_MODEL"@ || u == "MODEL"@ {
        Some(SecurableType::RegisteredModel)
    } else if u == "EXTERNAL_LOCATION"@ {
        Some(SecurableType::ExternalLocation)
    } else if u == "STORAGE_CREDENTIAL"@ {
        Some(SecurableType::StorageCredential)
    } else {
        None
    }
}

impl SecurableType {
    /// The securable type named by `s`, matched case-insensitively.
    pub fn parse(s: &str) -> (r: Option<SecurableType>)
        ensures
            r == securable_named(uppercase_of(s@)),
    {
        let upper = to_uppercase(s);
        SecurableType::parse_uppercase(upper.as_str())
    }

    /// The securable type named by an already upper-cased string.
    pub fn parse_uppercase(u: &str) -> (r: Option<SecurableType>)
        ensures
            r == securable_named(u@),
    {
        if str_eq(u, "METASTORE") {
            Some(SecurableType::Metastore)
        } else if str_eq(u, "CATALOG") {
            Some(SecurableType::Catalog)
        } else if str_eq(u, "SCHEMA") {
            Some(SecurableType::Schema)
        } else if str_eq(u, "TABLE") {
            Some(SecurableType::Table)
        } else if str_eq(u, "VOLUME") {
            Some(SecurableType::Volume)
        } else if str_eq(u, "FUNCTION") {
            Some(SecurableType::Function)
        } else if str_eq(u, "REGISTERED_MODEL") || str_eq(u, "MODEL") {
            Some(SecurableType::RegisteredModel)
        } else if str_eq(u, "EXTERNAL_LOCATION") {
            Some(SecurableType::ExternalLocation)
        } else if str_eq(u, "STORAGE_CREDENTIAL") {
            Some(SecurableType::StorageCredential)
        } else {
            None
        }
    }
}

} // verus!
