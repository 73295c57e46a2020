use crate::assets::{Assets, Size2};
use crate::events::{sig_loaded, sig_unloaded, AssetEvent, ImgEvent};
use crate::ids::{EntityId, HandleId, DEFAULT_HANDLE};
use crate::mode::{spec_parse_mode, ImgMode};
use crate::registry::ImageRegistry;
use crate::source::{spec_describe, AssetSource, Color, Variant};
use vstd::prelude::*;

verus! {

/// Per-widget state of one image element.  The widget entity owns a
/// companion surface entity, created once at construction, which renders
/// the image; the element records which resolved asset the surface mirrors
/// and the asset's last known intrinsic size.
#[derive(Debug)]
pub struct Img {
    /// The user-configured asset reference.
    pub src: AssetSource,
    /// The user-configured fit mode.
    pub mode: ImgMode,
    /// The user-configured tint color, multiplied over the image.
    pub modulate: Color,
    /// Internal: the handle the reference resolved to at the last
    /// load-tracking pass.  It lags `src` by at most one pass.
    pub handle: HandleId,
    /// Internal: the companion surface entity, never reassigned.
    pub entity: EntityId,
    /// Internal: the last known intrinsic size of the bound asset; zero
    /// while no asset data is present.
    pub size: Size2,
}

/// Holds where the user-visible configuration and the companion surface of
/// `b` are those of `a`: only resolved handle and cached size may differ.
pub open spec fn same_widget_config(a: Img, b: Img) -> bool {
    &&& a.src == b.src
    &&& a.mode == b.mode
    &&& a.modulate == b.modulate
    &&& a.entity == b.entity
}

/// Holds where the asset reference is the default: the empty path.
pub open spec fn is_default_src(s: AssetSource) -> bool {
    s matches AssetSource::Path(p) && p@.len() == 0
}

impl Img {
    /// A fresh element bound to its companion surface entity: nothing is
    /// resolved yet and no size is known.
    pub fn new(src: AssetSource, mode: ImgMode, modulate: Color, entity: EntityId) -> (r: Img)
        ensures
            r.src == src,
            r.mode == mode,
            r.modulate == modulate,
            r.handle == DEFAULT_HANDLE,
            r.entity == entity,
            r.size == (Size2 { width: 0, height: 0 }),
    {
        Img { src, mode, modulate, handle: DEFAULT_HANDLE, entity, size: Size2::zero() }
    }

    /// Builds the element from the configuration values the markup
    /// supplied: a missing value falls back to the field's default, but a
    /// supplied value of the wrong shape is a configuration error that
    /// fails construction, carrying the description of the first offending
    /// value (asset reference first, then fit mode, then tint).  The
    /// companion surface entity is spawned by the caller in the same step.
    pub fn from_world_and_params(
        entity: EntityId,
        src: Option<Variant>,
        mode: Option<Variant>,
        modulate: Option<Variant>,
    ) -> (r: Result<Img, String>)
        ensures
            ({
                let src_bad = match src {
                    Some(v) => !(v is String) && !(v is Handle),
                    None => false,
                };
                let mode_bad = match mode {
                    Some(v) => match v {
                        Variant::Mode(_) => false,
                        Variant::String(s) => spec_parse_mode(s@) is None,
                        _ => true,
                    },
                    None => false,
                };
                let mod_bad = match modulate {
                    Some(v) => !(v is Color),
                    None => false,
                };
                match r {
                    Ok(img) => {
                        &&& !src_bad && !mode_bad && !mod_bad
                        &&& img.handle == DEFAULT_HANDLE
                        &&& img.entity == entity
                        &&& img.size == (Size2 { width: 0, height: 0 })
                        &&& match src {
                            Some(v) => match v {
                                Variant::String(p) => img.src == AssetSource::Path(p),
                                Variant::Handle(h) => img.src == AssetSource::Handle(h),
                                _ => false,
                            },
                            None => is_default_src(img.src),
                        }
                        &&& img.mode == (match mode {
                            Some(v) => match v {
                                Variant::Mode(m) => m,
                                Variant::String(s) => spec_parse_mode(s@)->Some_0,
                                _ => ImgMode::Fit,
                            },
                            None => ImgMode::Fit,
                        })
                        &&& img.modulate == (match modulate {
                            Some(v) => match v {
                                Variant::Color(c) => c,
                                _ => (Color { red: 255, green: 255, blue: 255, alpha: 255 }),
                            },
                            None => (Color { red: 255, green: 255, blue: 255, alpha: 255 }),
                        })
                    },
                    Err(e) => {
                        &&& (src_bad || mode_bad || mod_bad)
                        &&& e@ == (if src_bad {
                            spec_describe(src->Some_0)
                        } else if mode_bad {
                            spec_describe(mode->Some_0)
                        } else {
                            spec_describe(modulate->Some_0)
                        })
                    },
                }
            }),
    {
        let src_val = match src {
            Some(v) => match AssetSource::try_from(v) {
                Ok(s) => s,
                Err(e) => {
                    return Err(e);
                },
            },
            None => AssetSource::default(),
        };
        let mode_val = match mode {
            Some(v) => match v.get_or_parse_mode() {
                Ok(m) => m,
                Err(e) => {
                    return Err(e);
                },
            },
            None => ImgMode::default(),
        };
        let modulate_val = match modulate {
            Some(v) => match v.get_color() {
                Ok(c) => c,
                Err(e) => {
                    return Err(e);
                },
            },
            None => Color::default(),
        };
        Ok(Img::new(src_val, mode_val, modulate_val, entity))
    }
}

/// A widget entity paired with its image element, as a pipeline pass sees
/// the entity graph.
pub struct ImgElement {
    pub entity: EntityId,
    pub img: Img,
}

/// Holds where no widget entity occurs twice.
pub open spec fn distinct_entities(s: Seq<ImgElement>) -> bool {
    forall|i: int, j: int| 0 <= i < j < s.len() ==> s[i].entity != s[j].entity
}

/// The registry invariant of the pipeline: each of the given widgets is
/// registered under exactly its resolved handle.  Load tracking preserves
/// it (see [`load_img`]); the other passes leave the registry alone.
pub open spec fn registry_consistent(s: Seq<ImgElement>, reg: ImageRegistry) -> bool {
    forall|k: int, h: HandleId|
        0 <= k < s.len() ==> ((#[trigger] reg.contains_entry(h, s[k].entity)) <==> s[k].img.handle
            == h)
}

/// The effective handle of an asset reference: an empty path denotes no
/// asset, a non-empty path resolves to the handle its load request
/// returned, a direct handle is used verbatim.
pub open spec fn spec_effective_handle(src: AssetSource, loaded: HandleId) -> HandleId {
    match src {
        AssetSource::Path(p) => if p@.len() == 0 {
            DEFAULT_HANDLE
        } else {
            loaded
        },
        AssetSource::Handle(h) => h,
    }
}

/// The path a load request must be issued for, where the reference names
/// one: loading is fire-and-forget, its handle is passed back into
/// [`effective_handle`].
pub fn load_path(src: &AssetSource) -> (r: Option<&String>)
    ensures
        match r {
            Some(p) => *src matches AssetSource::Path(q) && q@ == p@ && p@.len() > 0,
            None => match *src {
                AssetSource::Path(q) => q@.len() == 0,
                AssetSource::Handle(_) => true,
            },
        },
{
    match src {
        AssetSource::Path(p) => if p.as_str().is_empty() {
            None
        } else {
            Some(p)
        },
        AssetSource::Handle(_) => None,
    }
}

/// Resolves an asset reference against the handle its load request
/// returned (ignored unless the reference is a non-empty path).
pub fn effective_handle(src: &AssetSource, loaded: HandleId) -> (h: HandleId)
    ensures
        h == spec_effective_handle(*src, loaded),
{
    match src {
        AssetSource::Path(p) => if p.as_str().is_empty() {
            DEFAULT_HANDLE
        } else {
            loaded
        },
        AssetSource::Handle(hh) => *hh,
    }
}

/// What load tracking writes to the companion surface entity: the image it
/// must mirror and whether it is shown this pass.
#[derive(Clone, Copy, Debug, PartialEq, Eq, Structural)]
pub struct SurfaceCmd {
    pub surface: EntityId,
    pub image: HandleId,
    pub visible: bool,
}

/// One widget's share of the load-tracking pass.  Resolves the reference,
/// moves the entity between registry buckets on a handle change (emitting
/// "unloaded" first where the old asset was present), mirrors the handle to
/// the surface, and either announces the present asset (forcing a size
/// recalculation and emitting "loaded") or zeroes the cached size and hides
/// the surface.
pub fn load_img_element(
    entity: EntityId,
    img: &mut Img,
    loaded: HandleId,
    assets: &Assets,
    registry: &mut ImageRegistry,
    events: &mut Vec<AssetEvent>,
    signals: &mut Vec<ImgEvent>,
) -> (cmd: SurfaceCmd)
    requires
        old(registry).wf(),
        assets.wf(),
    ensures
        final(registry).wf(),
        same_widget_config(*final(img), *old(img)),
        final(img).handle == spec_effective_handle(old(img).src, loaded),
        ({
            let eff = spec_effective_handle(old(img).src, loaded);
            &&& (!assets.spec_contains(eff) ==> final(img).size == (Size2 {
                width: 0,
                height: 0,
            }))
            &&& (assets.spec_contains(eff) ==> final(img).size == old(img).size)
        }),
        ({
            let eff = spec_effective_handle(old(img).src, loaded);
            if eff != old(img).handle {
                &&& !final(registry).contains_entry(old(img).handle, entity)
                &&& final(registry).contains_entry(eff, entity)
                &&& forall|h2: HandleId, e2: EntityId|
                    !(h2 == old(img).handle && e2 == entity) && !(h2 == eff && e2 == entity)
                        ==> (final(registry).contains_entry(h2, e2) <==> old(
                    registry).contains_entry(h2, e2))
            } else {
                *final(registry) == *old(registry)
            }
        }),
        ({
            let eff = spec_effective_handle(old(img).src, loaded);
            let unload = eff != old(img).handle && assets.spec_contains(old(img).handle);
            let load = assets.spec_contains(eff);
            &&& final(signals)@.len() == old(signals)@.len() + (if unload {
                1 as int
            } else {
                0
            }) + (if load {
                1 as int
            } else {
                0
            })
            &&& forall|k: int|
                0 <= k < old(signals)@.len() ==> final(signals)@[k] == old(signals)@[k]
            &&& (unload ==> sig_unloaded(final(signals)@[old(signals)@.len() as int], entity))
            &&& (load ==> sig_loaded(final(signals)@[final(signals)@.len() - 1], entity))
            &&& final(events)@ == (if load {
                old(events)@.push(AssetEvent::Modified(eff))
            } else {
                old(events)@
            })
        }),
        cmd.surface == old(img).entity,
        cmd.image == spec_effective_handle(old(img).src, loaded),
        cmd.visible == assets.spec_contains(spec_effective_handle(old(img).src, loaded)),
{
    let handle = effective_handle(&img.src, loaded);
    if handle != img.handle {
        if assets.contains(img.handle) {
            signals.push(ImgEvent::unloaded_for(entity));
        }
        registry.remove_entity(img.handle, entity);
        registry.insert_entity(handle, entity);
        img.handle = handle;
    }
    let visible = assets.contains(handle);
    if visible {
        events.push(AssetEvent::Modified(handle));
        signals.push(ImgEvent::loaded_for(entity));
    } else {
        img.size = Size2::zero();
    }
    SurfaceCmd { surface: img.entity, image: handle, visible }
}

/// Changing a widget's reference so that it resolves to another handle
/// moves its registry entry: under the registry invariant that
/// [`load_img`] preserves, the widget is registered under its new resolved
/// handle and under no other, so the bucket of the old handle has lost it
/// and the bucket of the new one has gained it.
pub proof fn lemma_switch_moves_registry_entry(
    s: Seq<ImgElement>,
    reg: ImageRegistry,
    i: int,
    h_old: HandleId,
)
    requires
        registry_consistent(s, reg),
        0 <= i < s.len(),
        s[i].img.handle != h_old,
    ensures
        !reg.contains_entry(h_old, s[i].entity),
        reg.contains_entry(s[i].img.handle, s[i].entity),
{
    assert(reg.contains_entry(h_old, s[i].entity) <==> s[i].img.handle == h_old);
    assert(reg.contains_entry(s[i].img.handle, s[i].entity) <==> s[i].img.handle == s[i].img.handle);
}

/// The forced size-recalculation events the first `n` widgets of the
/// load-tracking pass emit, in order: one Modified notification per widget
/// whose effective asset is present, so the size-update pass runs for it
/// even when no natural notification fires this pass.
pub open spec fn spec_pass_events(
    s: Seq<ImgElement>,
    loaded: Seq<HandleId>,
    assets: Assets,
    n: int,
) -> Seq<AssetEvent>
    decreases n,
{
    if n <= 0 {
        Seq::empty()
    } else {
        let eff = spec_effective_handle(s[n - 1].img.src, loaded[n - 1]);
        spec_pass_events(s, loaded, assets, n - 1) + (if assets.spec_contains(eff) {
            seq![AssetEvent::Modified(eff)]
        } else {
            Seq::empty()
        })
    }
}

/// The lifecycle notifications the first `n` widgets of the load-tracking
/// pass emit, in emission order, as (is-loaded, entity) descriptors: an
/// "unloaded" for a widget whose handle switches away from a present
/// asset, then a "loaded" for a widget whose effective asset is present,
/// and nothing else.
pub open spec fn spec_pass_signals(
    s: Seq<ImgElement>,
    loaded: Seq<HandleId>,
    assets: Assets,
    n: int,
) -> Seq<(bool, EntityId)>
    decreases n,
{
    if n <= 0 {
        Seq::empty()
    } else {
        let e = s[n - 1];
        let eff = spec_effective_handle(e.img.src, loaded[n - 1]);
        let unload: Seq<(bool, EntityId)> = if eff != e.img.handle && assets.spec_contains(
            e.img.handle,
        ) {
            seq![(false, e.entity)]
        } else {
            Seq::empty()
        };
        let load: Seq<(bool, EntityId)> = if assets.spec_contains(eff) {
            seq![(true, e.entity)]
        } else {
            Seq::empty()
        };
        spec_pass_signals(s, loaded, assets, n - 1) + unload + load
    }
}

/// Holds where the notification is the one the descriptor announces.
pub open spec fn sig_matches(ev: ImgEvent, d: (bool, EntityId)) -> bool {
    if d.0 {
        sig_loaded(ev, d.1)
    } else {
        sig_unloaded(ev, d.1)
    }
}

/// The load-tracking pass over the widgets whose configuration changed:
/// each element is resolved and tracked as [`load_img_element`] says, in
/// order, against the handle its load request returned (`loaded`, one per
/// element).  Returns the surface writes of the pass.
pub fn load_img(
    elements: &mut Vec<ImgElement>,
    loaded: &Vec<HandleId>,
    assets: &Assets,
    registry: &mut ImageRegistry,
    events: &mut Vec<AssetEvent>,
    signals: &mut Vec<ImgEvent>,
) -> (cmds: Vec<SurfaceCmd>)
    requires
        loaded@.len() == old(elements)@.len(),
        old(registry).wf(),
        assets.wf(),
    ensures
        final(registry).wf(),
        final(elements)@.len() == old(elements)@.len(),
        cmds@.len() == old(elements)@.len(),
        forall|i: int|
            #![trigger old(elements)@[i]]
            0 <= i < old(elements)@.len() ==> {
                let oe = old(elements)@[i];
                let ne = final(elements)@[i];
                let eff = spec_effective_handle(oe.img.src, loaded@[i]);
                &&& ne.entity == oe.entity
                &&& same_widget_config(ne.img, oe.img)
                &&& ne.img.handle == eff
                &&& (!assets.spec_contains(eff) ==> ne.img.size == (Size2 {
                    width: 0,
                    height: 0,
                }))
                &&& (assets.spec_contains(eff) ==> ne.img.size == oe.img.size)
                &&& cmds@[i] == (SurfaceCmd {
                    surface: oe.img.entity,
                    image: eff,
                    visible: assets.spec_contains(eff),
                })
            },
        forall|k: int| 0 <= k < old(signals)@.len() ==> final(signals)@[k] == old(signals)@[k],
        ({
            let sigs = spec_pass_signals(
                old(elements)@,
                loaded@,
                *assets,
                old(elements)@.len() as int,
            );
            &&& final(signals)@.len() == old(signals)@.len() + sigs.len()
            &&& forall|k: int|
                #![trigger sigs[k]]
                0 <= k < sigs.len() ==> sig_matches(
                    final(signals)@[old(signals)@.len() + k],
                    sigs[k],
                )
        }),
        final(events)@ == old(events)@ + spec_pass_events(
            old(elements)@,
            loaded@,
            *assets,
            old(elements)@.len() as int,
        ),
        forall|h2: HandleId, e2: EntityId|
            (forall|j: int|
                0 <= j < old(elements)@.len() ==> (#[trigger] old(elements)@[j]).entity != e2)
                ==> ((#[trigger] final(registry).contains_entry(h2, e2)) <==> old(
            registry).contains_entry(h2, e2)),
        distinct_entities(old(elements)@) && registry_consistent(old(elements)@, *old(registry))
            ==> registry_consistent(final(elements)@, *final(registry)),
{
    let ghost orig = elements@;
    let mut cmds: Vec<SurfaceCmd> = Vec::new();
    let mut i: usize = 0;
    while i < elements.len()
        invariant
            orig.len() == loaded@.len(),
            elements@.len() == orig.len(),
            i <= orig.len(),
            cmds@.len() == i,
            registry.wf(),
            assets.wf(),
            forall|k: int| i <= k < orig.len() ==> elements@[k] == orig[k],
            forall|k: int|
                #![trigger orig[k]]
                0 <= k < i ==> {
                    let oe = orig[k];
                    let ne = elements@[k];
                    let eff = spec_effective_handle(oe.img.src, loaded@[k]);
                    &&& ne.entity == oe.entity
                    &&& same_widget_config(ne.img, oe.img)
                    &&& ne.img.handle == eff
                    &&& (!assets.spec_contains(eff) ==> ne.img.size == (Size2 {
                        width: 0,
                        height: 0,
                    }))
                    &&& (assets.spec_contains(eff) ==> ne.img.size == oe.img.size)
                    &&& cmds@[k] == (SurfaceCmd {
                        surface: oe.img.entity,
                        image: eff,
                        visible: assets.spec_contains(eff),
                    })
                },
            forall|k: int| 0 <= k < old(signals)@.len() ==> signals@[k] == old(signals)@[k],
            ({
                let sigs = spec_pass_signals(orig, loaded@, *assets, i as int);
                &&& signals@.len() == old(signals)@.len() + sigs.len()
                &&& forall|k: int|
                    #![trigger sigs[k]]
                    0 <= k < sigs.len() ==> sig_matches(
                        signals@[old(signals)@.len() + k],
                        sigs[k],
                    )
            }),
            events@ == old(events)@ + spec_pass_events(orig, loaded@, *assets, i as int),
            forall|h2: HandleId, e2: EntityId|
                (forall|j: int| 0 <= j < orig.len() ==> (#[trigger] orig[j]).entity != e2) ==> ((
                #[trigger] registry.contains_entry(h2, e2)) <==> old(registry).contains_entry(
                h2,
                e2,
                )),
            distinct_entities(orig) && registry_consistent(orig, *old(registry))
                ==> registry_consistent(elements@, *registry),
        decreases orig.len() - i,
    {
        let entity = elements[i].entity;
        let loaded_i = loaded[i];
        let ghost prev_elems = elements@;
        let ghost prev_reg = *registry;
        let ghost prev_signals = signals@;
        let img_ref = &mut elements[i].img;
        let cmd = load_img_element(entity, img_ref, loaded_i, assets, registry, events, signals);
        cmds.push(cmd);
        proof {
            let ii = i as int;
            let eff = spec_effective_handle(prev_elems[ii].img.src, loaded@[ii]);
            let old_h = prev_elems[ii].img.handle;
            let unload = eff != old_h && assets.spec_contains(old_h);
            let ld = assets.spec_contains(eff);
            assert(prev_elems[ii] == orig[ii]);
            assert(events@ =~= old(events)@ + spec_pass_events(orig, loaded@, *assets, ii + 1));
            let sigs_i = spec_pass_signals(orig, loaded@, *assets, ii);
            let sigs_n = spec_pass_signals(orig, loaded@, *assets, ii + 1);
            let du: Seq<(bool, EntityId)> = if unload {
                seq![(false, entity)]
            } else {
                Seq::empty()
            };
            let dl: Seq<(bool, EntityId)> = if ld {
                seq![(true, entity)]
            } else {
                Seq::empty()
            };
            assert(sigs_n =~= sigs_i + du + dl);
            assert(signals@.len() == old(signals)@.len() + sigs_n.len());
            assert forall|k: int|
                #![trigger sigs_n[k]]
                0 <= k < sigs_n.len() implies sig_matches(
                signals@[old(signals)@.len() + k],
                sigs_n[k],
            ) by {
                if k < sigs_i.len() {
                    assert(sigs_n[k] == sigs_i[k]);
                    assert(old(signals)@.len() + k < prev_signals.len());
                    assert(signals@[old(signals)@.len() + k] == prev_signals[old(signals)@.len()
                        + k]);
                    assert(sig_matches(prev_signals[old(signals)@.len() + k], sigs_i[k]));
                } else if unload && k == sigs_i.len() {
                    assert(sigs_n[k] == (false, entity));
                    assert(old(signals)@.len() + k == prev_signals.len());
                    assert(sig_unloaded(signals@[prev_signals.len() as int], entity));
                } else {
                    assert(ld && k == sigs_n.len() - 1);
                    assert(sigs_n[k] == (true, entity));
                    assert(old(signals)@.len() + k == signals@.len() - 1);
                    assert(sig_loaded(signals@[signals@.len() - 1], entity));
                }
            }
            assert forall|h2: HandleId, e2: EntityId|
                (forall|j: int| 0 <= j < orig.len() ==> (#[trigger] orig[j]).entity != e2)
                    implies ((#[trigger] registry.contains_entry(h2, e2))
                <==> old(registry).contains_entry(h2, e2)) by {
                assert(orig[ii].entity != e2);
                assert(e2 != entity);
                assert(registry.contains_entry(h2, e2) <==> prev_reg.contains_entry(h2, e2));
            }
            if distinct_entities(orig) && registry_consistent(orig, *old(registry)) {
                assert(prev_elems[ii].entity == orig[ii].entity);
                assert forall|k: int, h: HandleId|
                    0 <= k < elements@.len() implies ((#[trigger] registry.contains_entry(
                    h,
                    elements@[k].entity,
                )) <==> elements@[k].img.handle == h) by {
                    let ek = elements@[k].entity;
                    assert(ek == prev_elems[k].entity && prev_elems[k].entity == orig[k].entity);
                    if k == ii {
                        if eff != old_h {
                            if h != old_h && h != eff {
                                assert(registry.contains_entry(h, ek) <==> prev_reg.contains_entry(
                                    h,
                                    ek,
                                ));
                            }
                        }
                    } else {
                        assert(orig[k].entity != orig[ii].entity);
                        if eff != old_h {
                            assert(registry.contains_entry(h, ek) <==> prev_reg.contains_entry(
                                h,
                                ek,
                            ));
                        }
                        assert(elements@[k] == prev_elems[k]);
                    }
                }
            }
        }
        i += 1;
    }
    cmds
}

/// The target the size-update pass writes for one asset lifecycle
/// notification: zero on removal, the asset's natural size where its data
/// is retrievable, nothing otherwise.
pub open spec fn spec_event_size(event: AssetEvent, assets: Assets) -> Option<Size2> {
    match event {
        AssetEvent::Removed(_) => Some(Size2 { width: 0, height: 0 }),
        AssetEvent::Created(h) | AssetEvent::Modified(h) => if assets.spec_contains(h) {
            Some(assets.spec_size(h))
        } else {
            None
        },
    }
}

fn find_element(elements: &Vec<ImgElement>, e: EntityId) -> (r: Option<usize>)
    ensures
        match r {
            Some(i) => i < elements@.len() && elements@[i as int].entity == e,
            None => forall|k: int|
                0 <= k < elements@.len() ==> (#[trigger] elements@[k]).entity != e,
        },
{
    let mut i: usize = 0;
    while i < elements.len()
        invariant
            i <= elements@.len(),
            forall|k: int| 0 <= k < i ==> (#[trigger] elements@[k]).entity != e,
        decreases elements@.len() - i,
    {
        if elements[i].entity == e {
            return Some(i);
        }
        i += 1;
    }
    None
}

/// One notification's share of the size-update pass.  On removal, every
/// widget registered under the handle has its cached size zeroed; on
/// creation or modification, every such widget whose asset data is
/// retrievable has it set to the asset's natural size.  Stale registrations
/// (entities with no element) are skipped; the registry is only read.
pub fn apply_asset_event(
    event: &AssetEvent,
    elements: &mut Vec<ImgElement>,
    assets: &Assets,
    registry: &ImageRegistry,
)
    requires
        distinct_entities(old(elements)@),
        registry.wf(),
        assets.wf(),
    ensures
        final(elements)@.len() == old(elements)@.len(),
        distinct_entities(final(elements)@),
        forall|k: int|
            #![trigger old(elements)@[k]]
            0 <= k < old(elements)@.len() ==> {
                let oe = old(elements)@[k];
                let ne = final(elements)@[k];
                &&& ne.entity == oe.entity
                &&& same_widget_config(ne.img, oe.img)
                &&& ne.img.handle == oe.img.handle
                &&& ne.img.size == (match spec_event_size(*event, *assets) {
                    Some(t) => if registry.contains_entry(event.spec_handle(), oe.entity) {
                        t
                    } else {
                        oe.img.size
                    },
                    None => oe.img.size,
                })
            },
{
    let h = match event {
        AssetEvent::Created(h) => *h,
        AssetEvent::Modified(h) => *h,
        AssetEvent::Removed(h) => *h,
    };
    let target: Option<Size2> = match event {
        AssetEvent::Removed(_) => Some(Size2::zero()),
        _ => assets.get(h),
    };
    let ghost orig = elements@;
    match registry.get_bucket(h) {
        None => {},
        Some(bucket) => {
            match target {
                None => {},
                Some(t) => {
                    let mut j: usize = 0;
                    while j < bucket.len()
                        invariant
                            elements@.len() == orig.len(),
                            distinct_entities(orig),
                            distinct_entities(elements@),
                            j <= bucket@.len(),
                            forall|k: int|
                                #![trigger orig[k]]
                                0 <= k < orig.len() ==> {
                                    let oe = orig[k];
                                    let ne = elements@[k];
                                    &&& ne.entity == oe.entity
                                    &&& same_widget_config(ne.img, oe.img)
                                    &&& ne.img.handle == oe.img.handle
                                    &&& (bucket@.take(j as int).contains(oe.entity)
                                        ==> ne.img.size == t)
                                    &&& (!bucket@.take(j as int).contains(oe.entity)
                                        ==> ne.img.size == oe.img.size)
                                },
                        decreases bucket@.len() - j,
                    {
                        let ent = bucket[j];
                        let ghost jj = j as int;
                        match find_element(elements, ent) {
                            None => {
                                proof {
                                    assert(bucket@.take(jj + 1) =~= bucket@.take(jj).push(ent));
                                    assert forall|k: int|
                                        0 <= k < orig.len() && bucket@.take(jj + 1).contains(
                                            (#[trigger] orig[k]).entity,
                                        ) implies bucket@.take(jj).contains(orig[k].entity) by {
                                        assert(elements@[k].entity == orig[k].entity);
                                        assert(orig[k].entity != ent);
                                        let m = choose|m: int|
                                            #![trigger bucket@.take(jj + 1)[m]]
                                            0 <= m < bucket@.take(jj + 1).len() && bucket@.take(
                                                jj + 1,
                                            )[m] == orig[k].entity;
                                        assert(m < jj);
                                        assert(bucket@.take(jj)[m] == orig[k].entity);
                                    }
                                    assert forall|k: int|
                                        0 <= k < orig.len() && bucket@.take(jj).contains(
                                            (#[trigger] orig[k]).entity,
                                        ) implies bucket@.take(jj + 1).contains(
                                        orig[k].entity,
                                    ) by {
                                        let m = choose|m: int|
                                            #![trigger bucket@.take(jj)[m]]
                                            0 <= m < bucket@.take(jj).len() && bucket@.take(
                                                jj,
                                            )[m] == orig[k].entity;
                                        assert(bucket@.take(jj + 1)[m] == orig[k].entity);
                                    }
                                }
                            },
                            Some(idx) => {
                                let ghost before = elements@;
                                let elem = &mut elements[idx].img;
                                elem.size = t;
                                proof {
                                    assert(bucket@.take(jj + 1) =~= bucket@.take(jj).push(ent));
                                    assert(bucket@.take(jj + 1)[jj] == ent);
                                    assert(bucket@.take(jj + 1).contains(ent));
                                    assert(orig[idx as int].entity == ent);
                                    assert forall|k: int|
                                        0 <= k < orig.len() && k != idx implies (
                                        #[trigger] orig[k]).entity != ent by {
                                        assert(before[k].entity == orig[k].entity);
                                        assert(orig[idx as int].entity == ent);
                                    }
                                    assert forall|k: int|
                                        #![trigger orig[k]]
                                        0 <= k < orig.len() && k != idx implies (bucket@.take(
                                            jj + 1,
                                        ).contains(orig[k].entity) <==> bucket@.take(jj).contains(
                                            orig[k].entity,
                                        )) by {
                                        if bucket@.take(jj + 1).contains(orig[k].entity) {
                                            let m = choose|m: int|
                                                #![trigger bucket@.take(jj + 1)[m]]
                                                0 <= m < bucket@.take(jj + 1).len()
                                                    && bucket@.take(jj + 1)[m] == orig[k].entity;
                                            assert(m < jj);
                                            assert(bucket@.take(jj)[m] == orig[k].entity);
                                        }
                                        if bucket@.take(jj).contains(orig[k].entity) {
                                            let m = choose|m: int|
                                                #![trigger bucket@.take(jj)[m]]
                                                0 <= m < bucket@.take(jj).len() && bucket@.take(
                                                    jj,
                                                )[m] == orig[k].entity;
                                            assert(bucket@.take(jj + 1)[m] == orig[k].entity);
                                        }
                                    }
                                }
                            },
                        }
                        j += 1;
                    }
                    proof {
                        assert(bucket@.take(bucket@.len() as int) =~= bucket@);
                    }
                },
            }
        },
    }
}

/// The cached size a widget ends the size-update pass with: the pass's
/// notifications applied in order over the size it began with.  Each
/// notification overwrites the size of every widget registered under its
/// handle with [`spec_event_size`]'s target, where there is one, so the
/// last notification naming the widget's bucket wins.
pub open spec fn spec_size_after(
    events: Seq<AssetEvent>,
    assets: Assets,
    registry: ImageRegistry,
    entity: EntityId,
    s0: Size2,
) -> Size2
    decreases events.len(),
{
    if events.len() == 0 {
        s0
    } else {
        let prev = spec_size_after(events.drop_last(), assets, registry, entity, s0);
        let ev = events.last();
        match spec_event_size(ev, assets) {
            Some(t) => if registry.contains_entry(ev.spec_handle(), entity) {
                t
            } else {
                prev
            },
            None => prev,
        }
    }
}

/// Size recomputation is idempotent: consuming a notification twice in a
/// row leaves every widget with the same cached size as consuming it once,
/// so the redundant forced notification of load tracking is harmless.
pub proof fn lemma_duplicate_event_idempotent(
    events: Seq<AssetEvent>,
    assets: Assets,
    registry: ImageRegistry,
    entity: EntityId,
    s0: Size2,
    ev: AssetEvent,
)
    ensures
        spec_size_after(events.push(ev).push(ev), assets, registry, entity, s0)
            == spec_size_after(events.push(ev), assets, registry, entity, s0),
{
    assert(events.push(ev).push(ev).drop_last() =~= events.push(ev));
    assert(events.push(ev).drop_last() =~= events);
}

/// The size-update pass: consumes the asset store's lifecycle notifications
/// of this pass in order, each as [`apply_asset_event`] says.  Cached sizes
/// are the only state this pass writes, and each widget ends the pass with
/// exactly the size the notification fold prescribes.
pub fn update_img_size(
    elements: &mut Vec<ImgElement>,
    asset_events: &Vec<AssetEvent>,
    assets: &Assets,
    registry: &ImageRegistry,
)
    requires
        distinct_entities(old(elements)@),
        registry.wf(),
        assets.wf(),
    ensures
        final(elements)@.len() == old(elements)@.len(),
        distinct_entities(final(elements)@),
        forall|k: int|
            #![trigger old(elements)@[k]]
            0 <= k < old(elements)@.len() ==> {
                let oe = old(elements)@[k];
                let ne = final(elements)@[k];
                &&& ne.entity == oe.entity
                &&& same_widget_config(ne.img, oe.img)
                &&& ne.img.handle == oe.img.handle
                &&& ne.img.size == spec_size_after(
                    asset_events@,
                    *assets,
                    *registry,
                    oe.entity,
                    oe.img.size,
                )
            },
{
    let mut i: usize = 0;
    let ghost orig = elements@;
    while i < asset_events.len()
        invariant
            elements@.len() == orig.len(),
            distinct_entities(elements@),
            registry.wf(),
            assets.wf(),
            i <= asset_events@.len(),
            forall|k: int|
                #![trigger orig[k]]
                0 <= k < orig.len() ==> {
                    let oe = orig[k];
                    let ne = elements@[k];
                    &&& ne.entity == oe.entity
                    &&& same_widget_config(ne.img, oe.img)
                    &&& ne.img.handle == oe.img.handle
                    &&& ne.img.size == spec_size_after(
                        asset_events@.take(i as int),
                        *assets,
                        *registry,
                        oe.entity,
                        oe.img.size,
                    )
                },
        decreases asset_events@.len() - i,
    {
        let event = &asset_events[i];
        let ghost prev_elems = elements@;
        apply_asset_event(event, elements, assets, registry);
        proof {
            let ii = i as int;
            assert(asset_events@.take(ii + 1).drop_last() =~= asset_events@.take(ii));
            assert(asset_events@.take(ii + 1).last() == asset_events@[ii]);
            assert forall|k: int| #![trigger orig[k]] 0 <= k < orig.len() implies elements@[k].img.size
                == spec_size_after(
                asset_events@.take(ii + 1),
                *assets,
                *registry,
                orig[k].entity,
                orig[k].img.size,
            ) by {
                assert(prev_elems[k].entity == orig[k].entity);
                assert(prev_elems[k].img.size == spec_size_after(
                    asset_events@.take(ii),
                    *assets,
                    *registry,
                    orig[k].entity,
                    orig[k].img.size,
                ));
            }
        }
        i += 1;
    }
    proof {
        assert(asset_events@.take(asset_events@.len() as int) =~= asset_events@);
    }
}

} // verus!
