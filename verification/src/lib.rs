//! Verified core of an image UI widget for a retained-mode, entity-based UI.
//!
//! The widget tracks an external image asset through asynchronous loading and
//! re-derives the layout of its rendering surface from the asset's intrinsic
//! size and the container box.  Entities and asset handles are carried as
//! plain integer identifiers; geometry is carried in abstract integer units
//! and exact rational results, so every rule of the pipeline is provable.
//!
//! The pipeline runs in three ordered stages once per pass:
//! load tracking ([`img::load_img`]), size update ([`img::update_img_size`]),
//! and layout ([`layout::update_img_layout`]).

pub mod assets;
pub mod events;
pub mod ids;
pub mod img;
pub mod layout;
pub mod mode;
pub mod registry;
pub mod source;
