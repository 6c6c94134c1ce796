//! The sync orchestrators' decision cores: one type per sync direction,
//! carrying the run's configuration, and the per-path decisions the
//! directory walkers make while converging the destination.
//!
//! The configuration is immutable for the lifetime of one sync run:
//! `force_overwrite` disables change detection, and `concurrency` bounds the
//! transfer jobs in flight at one directory level. The methods here decide;
//! the caller lists, reads metadata, and executes.

use vstd::prelude::*;

use crate::errors::Error;
use crate::plan::DstState;
use crate::plan::SyncPlan;
use crate::plan::plan_spec;
use crate::plan::plan_sync;
use crate::plan::count_actions;
use crate::plan::SourceItem;
use crate::policy::ObjectMeta;
use crate::policy::needs_transfer;
use crate::policy::needs_transfer_spec;

verus! {

/// What a local path holds, as a metadata read reports it.
#[derive(Debug, Clone, Copy, PartialEq, Eq, Structural)]
pub enum PathState {
    /// Nothing exists at the path.
    Missing,
    /// The path is a directory.
    IsDir,
    /// The path exists and is not a directory.
    IsFile,
}

/// What to do about a destination file's parent directory before writing.
#[derive(Debug, Clone, Copy, PartialEq, Eq, Structural)]
pub enum ParentAction {
    /// The parent already is a directory: leave it.
    Keep,
    /// The parent is missing: create it and its ancestors.
    CreateAll,
    /// A non-directory stands where the parent belongs and overwriting is
    /// forced: remove it.
    RemoveFile,
}

/// The decision for a destination file's parent path.
pub open spec fn parent_action_spec(force: bool, parent: PathState) -> Option<ParentAction> {
    match parent {
        PathState::IsDir => Some(ParentAction::Keep),
        PathState::Missing => Some(ParentAction::CreateAll),
        PathState::IsFile => if force {
            Some(ParentAction::RemoveFile)
        } else {
            None
        },
    }
}

/// Decides what to do about the parent directory of the destination path
/// `path`, whose parent a metadata read found in state `parent`. A
/// non-directory in the parent's place is a destination conflict unless
/// overwriting is forced.
pub fn parent_dir_action(force: bool, parent: PathState, path: &Vec<u8>) -> (r: Result<
    ParentAction,
    Error,
>)
    ensures
        match r {
            Ok(a) => parent_action_spec(force, parent) == Some(a),
            Err(e) => parent_action_spec(force, parent) is None && (e
                matches Error::AlreadyExists { path: p } && p@ == path@),
        },
{
    match parent {
        PathState::IsDir => Ok(ParentAction::Keep),
        PathState::Missing => Ok(ParentAction::CreateAll),
        PathState::IsFile => {
            if force {
                Ok(ParentAction::RemoveFile)
            } else {
                Err(Error::AlreadyExists { path: path.clone() })
            }
        },
    }
}

/// What to do where a directory (marker) is needed.
#[derive(Debug, Clone, Copy, PartialEq, Eq, Structural)]
pub enum DirAction {
    /// A directory already stands there: nothing to write, count 0.
    Keep,
    /// Nothing stands there: create the directory, count 1.
    Create,
    /// A non-directory stands there and overwriting is forced: remove it,
    /// then create the directory, count 1.
    ReplaceFile,
}

/// The decision for a destination path that must become a directory.
pub open spec fn dir_action_spec(force: bool, dst: PathState) -> Option<DirAction> {
    match dst {
        PathState::IsDir => Some(DirAction::Keep),
        PathState::Missing => Some(DirAction::Create),
        PathState::IsFile => if force {
            Some(DirAction::ReplaceFile)
        } else {
            None
        },
    }
}

/// Decides idempotent directory creation at `path`, found in state `dst`: a
/// no-op where a directory already stands, creation where nothing does, and
/// replacement of a non-directory only where overwriting is forced.
pub fn maybe_create_dir_action(force: bool, dst: PathState, path: &Vec<u8>) -> (r: Result<
    DirAction,
    Error,
>)
    ensures
        match r {
            Ok(a) => dir_action_spec(force, dst) == Some(a),
            Err(e) => dir_action_spec(force, dst) is None && (e matches Error::AlreadyExists {
                path: p,
            } && p@ == path@),
        },
{
    match dst {
        PathState::IsDir => Ok(DirAction::Keep),
        PathState::Missing => Ok(DirAction::Create),
        PathState::IsFile => {
            if force {
                Ok(DirAction::ReplaceFile)
            } else {
                Err(Error::AlreadyExists { path: path.clone() })
            }
        },
    }
}

/// The remote-bucket-sourced engine: syncs a bucket prefix to a local tree
/// (plan) or to another bucket (unconditional copies).
#[derive(Debug)]
pub struct GcsSource {
    pub force_overwrite: bool,
    pub concurrency: usize,
}

impl GcsSource {
    /// A sync engine with the given overwrite policy and concurrency bound.
    pub fn new(force_overwrite: bool, concurrency: usize) -> (r: Self)
        requires
            1 <= concurrency,
        ensures
            r.force_overwrite == force_overwrite,
            r.concurrency == concurrency,
    {
        GcsSource { force_overwrite, concurrency }
    }

    /// Whether a listed object must be downloaded over what stands at its
    /// local destination.
    pub fn should_download(&self, src: ObjectMeta, dst: Option<ObjectMeta>) -> (r: bool)
        ensures
            r == needs_transfer_spec(self.force_overwrite, src, dst),
    {
        needs_transfer(self.force_overwrite, src, dst)
    }

    /// Plans a bucket-to-local sync of the listed items against the
    /// snapshot of the destination tree.
    pub fn plan_to_local(&self, items: &Vec<SourceItem>, dst: &DstState) -> (r: Result<
        SyncPlan,
        Error,
    >)
        ensures
            match r {
                Ok(p) => plan_spec(self.force_overwrite, items@, dst@) == Some(p.actions@)
                    && p.op_count == count_actions(p.actions@),
                Err(e) => plan_spec(self.force_overwrite, items@, dst@) is None && e
                    matches Error::AlreadyExists { .. },
            },
    {
        plan_sync(self.force_overwrite, items, dst)
    }

    /// The count of a bucket-to-bucket sync: a server-side copy is issued
    /// per listed object, unconditionally — no change detection — so every
    /// listed item is counted.
    pub fn plan_to_gcs(&self, items: &Vec<SourceItem>) -> (r: usize)
        ensures
            r == items@.len(),
    {
        items.len()
    }
}

/// The bucket-to-local engine.
#[derive(Debug)]
pub struct GCS2Local {
    pub force_overwrite: bool,
    pub concurrency: usize,
}

impl GCS2Local {
    /// Whether a listed object must be downloaded over what stands at its
    /// local destination.
    pub fn should_download(&self, src: ObjectMeta, dst: Option<ObjectMeta>) -> (r: bool)
        ensures
            r == needs_transfer_spec(self.force_overwrite, src, dst),
    {
        needs_transfer(self.force_overwrite, src, dst)
    }

    /// Plans the bucket-to-local sync of the listed items against the
    /// snapshot of the destination tree.
    pub fn plan_sync_to_local(&self, items: &Vec<SourceItem>, dst: &DstState) -> (r: Result<
        SyncPlan,
        Error,
    >)
        ensures
            match r {
                Ok(p) => plan_spec(self.force_overwrite, items@, dst@) == Some(p.actions@)
                    && p.op_count == count_actions(p.actions@),
                Err(e) => plan_spec(self.force_overwrite, items@, dst@) is None && e
                    matches Error::AlreadyExists { .. },
            },
    {
        plan_sync(self.force_overwrite, items, dst)
    }
}

/// The local-tree-sourced engine: syncs a local file or directory tree to a
/// bucket prefix.
#[derive(Debug)]
pub struct LocalSource {
    pub force_overwrite: bool,
    pub concurrency: usize,
}

impl LocalSource {
    /// A sync engine with the given overwrite policy and concurrency bound.
    pub fn new(force_overwrite: bool, concurrency: usize) -> (r: Self)
        requires
            1 <= concurrency,
        ensures
            r.force_overwrite == force_overwrite,
            r.concurrency == concurrency,
    {
        LocalSource { force_overwrite, concurrency }
    }

    /// Whether a local file must be uploaded over what stands at its
    /// destination key. An object whose metadata could not be read is
    /// handed in as absent and so is transferred — reading errors are not
    /// told apart from a missing object.
    pub fn should_upload_local(&self, src: ObjectMeta, dst: Option<ObjectMeta>) -> (r: bool)
        ensures
            r == needs_transfer_spec(self.force_overwrite, src, dst),
    {
        needs_transfer(self.force_overwrite, src, dst)
    }

    /// Plans a local-to-bucket sync of the walked items against the
    /// snapshot of the destination prefix.
    pub fn plan_to_gcs(&self, items: &Vec<SourceItem>, dst: &DstState) -> (r: Result<
        SyncPlan,
        Error,
    >)
        ensures
            match r {
                Ok(p) => plan_spec(self.force_overwrite, items@, dst@) == Some(p.actions@)
                    && p.op_count == count_actions(p.actions@),
                Err(e) => plan_spec(self.force_overwrite, items@, dst@) is None && e
                    matches Error::AlreadyExists { .. },
            },
    {
        plan_sync(self.force_overwrite, items, dst)
    }
}

} // verus!
