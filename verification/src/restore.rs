use vstd::prelude::*;

use crate::context::Context;

verus! {

/// The original bytes of one package's manifest, tied to its path. At most
/// one backup exists per package at a time; restoration writes these bytes
/// back exactly, never a re-rendering of a parsed document.
pub struct ManifestBackup {
    pub path: String,
    pub original: String,
}

/// The single restoration slot of a sequential run: whether this run
/// restores manifests at all, and the backup currently held, if any.
pub struct Restore {
    /// A temporary removal restores the manifest afterwards; a permanent one
    /// never takes a backup.
    pub needs_restore: bool,
    pub slot: Option<ManifestBackup>,
}

/// The state after a manifest is registered: a backup of the original bytes
/// when this run restores, nothing otherwise.
pub open spec fn after_set(r: Restore, path: String, original: String) -> Restore {
    Restore {
        needs_restore: r.needs_restore,
        slot: if r.needs_restore {
            Option::Some(ManifestBackup { path, original })
        } else {
            Option::None
        },
    }
}

/// What release hands back: the held backup's path and original bytes.
pub open spec fn close_result(r: Restore) -> Option<(String, String)> {
    match r.slot {
        Option::Some(b) => Option::Some((b.path, b.original)),
        Option::None => Option::None,
    }
}

impl Restore {
    /// A run's restoration state: temporary dev-dependency removal restores,
    /// permanent removal does not.
    pub fn new(cx: &Context) -> (r: Restore)
        ensures
            r.needs_restore == cx.no_dev_deps,
            r.slot is None,
    {
        Restore { needs_restore: cx.no_dev_deps, slot: None }
    }

    /// Register a manifest about to be edited: its original bytes are held
    /// until released. Only one backup may be held at a time.
    pub fn set_manifest(&mut self, path: &String, original: &String)
        requires
            old(self).slot is None,
        ensures
            *final(self) == after_set(*old(self), *path, *original),
    {
        if self.needs_restore {
            self.slot = Some(
                ManifestBackup { path: path.clone(), original: original.clone() },
            );
        }
    }

    /// Release the held backup: hand back the path and the exact original
    /// bytes to write, and empty the slot so release happens at most once.
    pub fn close(&mut self) -> (r: Option<(String, String)>)
        ensures
            final(self).needs_restore == old(self).needs_restore,
            final(self).slot is None,
            r == close_result(*old(self)),
    {
        let held = self.slot.take();
        match held {
            Some(b) => Some((b.path, b.original)),
            None => None,
        }
    }
}

/// Edit/restore round trip: for any manifest, registering it and later
/// releasing the backup hands back exactly the original bytes at the
/// original path. The edited document's text never reaches the backup, so
/// whatever the dev-dependency removal produced on disk, writing the
/// released bytes reproduces the original input byte for byte.
pub proof fn lemma_edit_restore_round_trip(r0: Restore, path: String, original: String)
    requires
        r0.needs_restore,
        r0.slot is None,
    ensures
        close_result(after_set(r0, path, original)) == Option::Some((path, original)),
{
}

} // verus!
