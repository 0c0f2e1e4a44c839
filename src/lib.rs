//! Local-disk back end of a file manager: entry classification, directory
//! listing filters, preview caching and concurrency limits, layered-image
//! header parsing, icon caching and the naming and planning rules of bulk
//! file operations.

use vstd::prelude::*;

pub mod text;
pub mod classify;
pub mod listing;
pub mod gate;
pub mod encoding;
pub mod preview;
pub mod render;
pub mod naming;
pub mod icons;
pub mod ops;
pub mod textfile;

verus! {

} // verus!
