//! Typed construction of GPU buffer layouts and render passes.
//!
//! `layout` packs index, attribute, uniform and storage regions into one buffer, each
//! region aligned as the device demands, and checks that views are only used with
//! buffers of their own layout. `render_pass` checks a declarative description of
//! attachments and subpasses and derives the native attachments, subpass references and
//! every dependency the pass needs.

use vstd::prelude::*;

pub mod attributes;
pub mod descriptor;
pub mod image;
pub mod layout;
pub mod pipeline;
pub mod render_pass;
pub mod swapchain;

verus! {

} // verus!
