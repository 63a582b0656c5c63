use vstd::prelude::*;

verus! {

/// A backup location.
#[derive(Clone, Debug, PartialEq, Eq)]
pub enum Location {
    /// A directory of the file system.
    Path { path: String },
}

/// Commands on local database storage.
#[derive(Clone, Debug, PartialEq, Eq)]
pub enum StorageCommand {
    /// Backs the storage up to the location.
    Backup(Location),
    /// Restores the storage from the location.
    Restore(Location),
}

/// What storage is asked to do, and where.
#[derive(Clone, Debug, PartialEq, Eq)]
pub enum StorageAction {
    /// Back the storage up into the directory.
    Backup { path: String },
    /// Restore the storage from the directory.
    Restore { path: String },
}

impl Location {
    /// The directory of this location.
    pub open spec fn path_view(&self) -> Seq<char> {
        match self {
            Location::Path { path } => path@,
        }
    }

    /// Backs storage up to this location: the action to perform.
    pub fn backup(&self) -> (r: StorageAction)
        ensures
            r matches StorageAction::Backup { path } && path@ == self.path_view(),
    {
        match self {
            Location::Path { path } => StorageAction::Backup { path: path.clone() },
        }
    }

    /// Restores storage from this location: the action to perform.
    pub fn restore(&self) -> (r: StorageAction)
        ensures
            r matches StorageAction::Restore { path } && path@ == self.path_view(),
    {
        match self {
            Location::Path { path } => StorageAction::Restore { path: path.clone() },
        }
    }
}

impl StorageCommand {
    /// The action this command performs on storage.
    pub fn execute_on(&self) -> (r: StorageAction)
        ensures
            match self {
                StorageCommand::Backup(location) => r matches StorageAction::Backup { path } && path@
                    == location.path_view(),
                StorageCommand::Restore(location) => r matches StorageAction::Restore { path } && path@
                    == location.path_view(),
            },
    {
        match self {
            StorageCommand::Backup(location) => location.backup(),
            StorageCommand::Restore(location) => location.restore(),
        }
    }
}

/// Commands that manage a server's certificate.
#[derive(Clone, Debug, PartialEq, Eq)]
pub enum Command {
    /// Installs a self-signed certificate for `server_name`, replacing an
    /// existing one only when `overwrite` is set.
    InstallSelfSigned { server_name: String, overwrite: bool },
    /// Installs the private key and certificate chain read from these files,
    /// both in PEM format.
    Install { private_key: String, certificate_chain: String },
}

} // verus!
