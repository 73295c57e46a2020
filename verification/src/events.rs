use crate::ids::{EntityId, HandleId};
use vstd::prelude::*;

verus! {

/// The three ordered stages of the per-pass pipeline.  Load tracking runs
/// first, size update after it, layout last.
#[derive(Debug, Clone, Copy, PartialEq, Eq, Hash, Structural)]
pub enum ImgLabel {
    Load,
    UpdateSize,
    UpdatLayout,
}

/// A lifecycle notification emitted by load tracking, carrying the widget
/// entities whose bound asset became available or unavailable.
pub enum ImgEvent {
    Loaded(Vec<EntityId>),
    Unloaded(Vec<EntityId>),
}

/// Holds where `ev` is a "loaded" notification for exactly the entity `e`.
pub open spec fn sig_loaded(ev: ImgEvent, e: EntityId) -> bool {
    ev matches ImgEvent::Loaded(v) && v@ == seq![e]
}

/// Holds where `ev` is an "unloaded" notification for exactly the entity `e`.
pub open spec fn sig_unloaded(ev: ImgEvent, e: EntityId) -> bool {
    ev matches ImgEvent::Unloaded(v) && v@ == seq![e]
}

/// The entities a notification carries.
pub open spec fn spec_sources(ev: ImgEvent) -> Seq<EntityId> {
    match ev {
        ImgEvent::Loaded(v) => v@,
        ImgEvent::Unloaded(v) => v@,
    }
}

impl ImgEvent {
    /// Whether this notification reports an asset having become available.
    pub fn loaded(&self) -> (r: bool)
        ensures
            r == (*self matches ImgEvent::Loaded(_)),
    {
        match self {
            ImgEvent::Loaded(_) => true,
            ImgEvent::Unloaded(_) => false,
        }
    }

    /// Whether this notification reports an asset having become unavailable.
    pub fn unloaded(&self) -> (r: bool)
        ensures
            r == (*self matches ImgEvent::Unloaded(_)),
    {
        match self {
            ImgEvent::Loaded(_) => false,
            ImgEvent::Unloaded(_) => true,
        }
    }

    /// The widget entities this notification is about.
    pub fn sources(&self) -> (r: &Vec<EntityId>)
        ensures
            r@ == spec_sources(*self),
    {
        match self {
            ImgEvent::Loaded(entities) => entities,
            ImgEvent::Unloaded(entities) => entities,
        }
    }

    /// A "loaded" notification for one widget entity.
    pub fn loaded_for(e: EntityId) -> (r: ImgEvent)
        ensures
            sig_loaded(r, e),
    {
        let mut v: Vec<EntityId> = Vec::new();
        v.push(e);
        proof {
            assert(v@ =~= seq![e]);
        }
        ImgEvent::Loaded(v)
    }

    /// An "unloaded" notification for one widget entity.
    pub fn unloaded_for(e: EntityId) -> (r: ImgEvent)
        ensures
            sig_unloaded(r, e),
    {
        let mut v: Vec<EntityId> = Vec::new();
        v.push(e);
        proof {
            assert(v@ =~= seq![e]);
        }
        ImgEvent::Unloaded(v)
    }
}

/// A lifecycle notification of the backing asset store for one resource
/// handle: its data was created, modified, or removed.
#[derive(Debug, Clone, Copy, PartialEq, Eq, Structural)]
pub enum AssetEvent {
    Created(HandleId),
    Modified(HandleId),
    Removed(HandleId),
}

impl AssetEvent {
    /// The handle this notification is about.
    pub open spec fn spec_handle(self) -> HandleId {
        match self {
            AssetEvent::Created(h) => h,
            AssetEvent::Modified(h) => h,
            AssetEvent::Removed(h) => h,
        }
    }
}

} // verus!
