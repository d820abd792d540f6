//! The capability contracts of the tree's nodes: validity,
//! mountability, activation, and configuration round-tripping.

use vstd::prelude::*;

use crate::error::Error;
use crate::{Cmd, CmdModel, Step, StepModel};

verus! {

/// Structural validity of a configuration entity.
pub trait Validate {
    /// What it means for this entity to be structurally valid.
    spec fn valid_spec(&self) -> bool;

    /// Decide structural validity.
    fn is_valid(&self) -> (r: bool)
        ensures
            r == self.valid_spec(),
    ;
}

/// A node that can be mounted at a filesystem path and unmounted again.
/// Both operations are idempotent: they return the command to run when the
/// state has to change, and `None` (with the state unchanged) when it is
/// already as asked.
pub trait Mountable: Sized {
    /// Whether the node is currently mounted.
    spec fn mounted_spec(&self) -> bool;

    /// The stable device identity to mount, when it is known.
    spec fn mount_device_spec(&self) -> Option<Seq<char>>;

    /// The mount command for this node at the given mountpoint.
    spec fn mount_cmd_spec(&self, mountpoint: Seq<char>) -> CmdModel;

    /// The unmount command for this node.
    spec fn unmount_cmd_spec(&self) -> CmdModel;

    /// The node with only its mounted flag changed.
    spec fn with_mounted_spec(&self, m: bool) -> Self;

    /// The error reported when the node has no device to mount.
    spec fn no_device_error_spec(&self) -> Seq<char>;

    /// Mount the node: yields the command to run, or nothing when already
    /// mounted, or an error when the node's device is not yet resolved.
    fn mount(&mut self, mountpoint: &str) -> (r: Result<Option<Cmd>, Error>)
        ensures
            old(self).mounted_spec() ==> (r matches Ok(o) && o is None
                && *final(self) == *old(self)),
            !old(self).mounted_spec() && old(self).mount_device_spec() is Some ==> (r matches Ok(o)
                && o matches Some(c) && c@ == old(self).mount_cmd_spec(mountpoint@)
                && *final(self) == old(self).with_mounted_spec(true)),
            !old(self).mounted_spec() && old(self).mount_device_spec() is None ==> (r matches Err(
                e,
            ) && e@.kind is Generic && e@.description == old(self).no_device_error_spec()
                && *final(self) == *old(self)),
    ;

    /// Unmount the node: yields the command to run, or nothing when not
    /// mounted, or an error when the node's device is not yet resolved.
    fn unmount(&mut self) -> (r: Result<Option<Cmd>, Error>)
        ensures
            !old(self).mounted_spec() ==> (r matches Ok(o) && o is None
                && *final(self) == *old(self)),
            old(self).mounted_spec() && old(self).mount_device_spec() is Some ==> (r matches Ok(o)
                && o matches Some(c) && c@ == old(self).unmount_cmd_spec()
                && *final(self) == old(self).with_mounted_spec(false)),
            old(self).mounted_spec() && old(self).mount_device_spec() is None ==> (r matches Err(
                e,
            ) && e@.kind is Generic && e@.description == old(self).no_device_error_spec()
                && *final(self) == *old(self)),
    ;
}

/// A node that can be activated (opened) and deactivated (closed) as a
/// unit: decryption, volume-group activation, or both in order. Opening
/// and closing are idempotent in the in-memory state: a node already in
/// the asked state yields an empty plan and does not change.
pub trait Openable: Sized {
    /// Whether the node is currently open.
    spec fn opened_spec(&self) -> bool;

    /// What opening needs of the node: resolved identities for whatever
    /// has to be decrypted.
    spec fn can_open_spec(&self) -> bool;

    /// The plan that opens the node, outer layer first.
    spec fn open_plan_spec(&self, passphrase: Seq<char>) -> Seq<StepModel>;

    /// The node's state after opening.
    spec fn open_next_spec(&self) -> Self;

    /// The plan that closes the node, inner layer first.
    spec fn close_plan_spec(&self) -> Seq<StepModel>;

    /// The node's state after closing.
    spec fn close_next_spec(&self) -> Self;

    /// Open the node: yields the plan to carry out.
    fn open(&mut self, passphrase: &str) -> (r: Vec<Step>)
        requires
            old(self).can_open_spec(),
        ensures
            old(self).opened_spec() ==> r.deep_view() == Seq::<StepModel>::empty()
                && *final(self) == *old(self),
            !old(self).opened_spec() ==> r.deep_view() == old(self).open_plan_spec(passphrase@)
                && *final(self) == old(self).open_next_spec(),
    ;

    /// Close the node: yields the plan to carry out.
    fn close(&mut self) -> (r: Vec<Step>)
        ensures
            !old(self).opened_spec() ==> r.deep_view() == Seq::<StepModel>::empty()
                && *final(self) == *old(self),
            old(self).opened_spec() ==> r.deep_view() == old(self).close_plan_spec()
                && *final(self) == old(self).close_next_spec(),
    ;
}

/// A runtime entity built from a configuration and convertible back to
/// one. Building may normalize the configuration (sort partitions by id);
/// converting back always succeeds and reports exactly the entity's
/// current configuration.
pub trait Configurable<T: View>: Sized {
    /// The configuration this entity currently carries.
    spec fn config_spec(&self) -> <T as View>::V;

    /// How building normalizes a configuration.
    spec fn normalize_spec(c: <T as View>::V) -> <T as View>::V;

    /// A freshly built entity carries no runtime activation state: nothing
    /// in it is opened or mounted.
    spec fn fresh_spec(&self) -> bool;

    /// Build the entity from a configuration.
    fn from_config(config: &T) -> (r: Self)
        ensures
            r.config_spec() == Self::normalize_spec(config@),
            r.fresh_spec(),
    ;

    /// Convert the entity back to a configuration.
    fn config(&self) -> (r: Result<T, Error>)
        ensures
            r matches Ok(c) && c@ == self.config_spec(),
    ;
}

} // verus!
