//! Static cursors: CUR files, which are cursor directories.

pub mod asset;
pub mod decoder;

use crate::icon::{IconDir, IconDirView};
use vstd::prelude::*;

verus! {

/// A decoded CUR file: its directory.
#[derive(Debug)]
pub struct StaticCursor(pub IconDir);

impl View for StaticCursor {
    type V = IconDirView;

    open spec fn view(&self) -> IconDirView {
        self.0@
    }
}

} // verus!
