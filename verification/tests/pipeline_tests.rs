use img_widget::assets::{Assets, Size2};
use img_widget::events::{AssetEvent, ImgLabel};
use img_widget::img::{
    apply_asset_event, effective_handle, load_img, load_img_element, load_path, update_img_size,
    Img, ImgElement,
};
use img_widget::mode::ImgMode;
use img_widget::registry::ImageRegistry;
use img_widget::source::{AssetSource, Color, Variant};

const HANDLE_A: u64 = 11;
const HANDLE_B: u64 = 12;

fn widget(src: AssetSource, surface: u64) -> Img {
    Img::new(src, ImgMode::default(), Color::default(), surface)
}

#[test]
fn empty_path_resolves_to_null_handle() {
    let src = AssetSource::from(String::new());
    assert!(load_path(&src).is_none());
    assert_eq!(effective_handle(&src, 99), 0);
}

#[test]
fn nonempty_path_resolves_to_loaded_handle() {
    let src = AssetSource::from("img/a.png".to_string());
    assert_eq!(load_path(&src).unwrap(), "img/a.png");
    assert_eq!(effective_handle(&src, HANDLE_A), HANDLE_A);
}

#[test]
fn direct_handle_is_used_verbatim() {
    let src = AssetSource::from(HANDLE_B);
    assert!(load_path(&src).is_none());
    assert_eq!(effective_handle(&src, HANDLE_A), HANDLE_B);
}

#[test]
fn switching_paths_moves_the_registry_entry() {
    // Bind the widget to path A first, with A's asset data present.
    let entity = 1;
    let mut img = widget(AssetSource::from("a.png".to_string()), 2);
    let mut assets = Assets::new();
    assets.insert(HANDLE_A, Size2 { width: 8, height: 8 });
    let mut registry = ImageRegistry::new();
    let mut events = Vec::new();
    let mut signals = Vec::new();
    let cmd = load_img_element(
        entity,
        &mut img,
        HANDLE_A,
        &assets,
        &mut registry,
        &mut events,
        &mut signals,
    );
    assert_eq!(img.handle, HANDLE_A);
    assert!(cmd.visible);
    assert!(registry.get_bucket(HANDLE_A).unwrap().contains(&entity));
    assert_eq!(signals.len(), 1);
    assert!(signals[0].loaded());

    // Change the reference to path B: A's bucket loses the entity, B's
    // gains it, and an "unloaded" notification fires first.
    img.src = AssetSource::from("b.png".to_string());
    signals.clear();
    events.clear();
    let cmd = load_img_element(
        entity,
        &mut img,
        HANDLE_B,
        &assets,
        &mut registry,
        &mut events,
        &mut signals,
    );
    assert_eq!(img.handle, HANDLE_B);
    assert!(!registry.get_bucket(HANDLE_A).unwrap().contains(&entity));
    assert!(registry.get_bucket(HANDLE_B).unwrap().contains(&entity));
    assert!(signals[0].unloaded());
    assert_eq!(signals[0].sources(), &vec![entity]);
    // B's data is not present yet: hidden surface, size zeroed, no event.
    assert!(!cmd.visible);
    assert_eq!(img.size, Size2 { width: 0, height: 0 });
    assert_eq!(signals.len(), 1);
    assert!(events.is_empty());
}

#[test]
fn present_asset_forces_size_recalculation() {
    let entity = 1;
    let mut img = widget(AssetSource::from(HANDLE_A), 2);
    let mut assets = Assets::new();
    assets.insert(HANDLE_A, Size2 { width: 64, height: 32 });
    let mut registry = ImageRegistry::new();
    let mut events = Vec::new();
    let mut signals = Vec::new();
    let cmd = load_img_element(
        entity,
        &mut img,
        0,
        &assets,
        &mut registry,
        &mut events,
        &mut signals,
    );
    assert!(cmd.visible);
    assert_eq!(cmd.surface, 2);
    assert_eq!(cmd.image, HANDLE_A);
    assert_eq!(events, vec![AssetEvent::Modified(HANDLE_A)]);
    assert_eq!(signals.len(), 1);
    assert!(signals[0].loaded());
}

#[test]
fn created_data_updates_every_bound_widget() {
    // Two widgets bound to the same handle, data arriving later.
    let mut elements = vec![
        ImgElement { entity: 1, img: widget(AssetSource::from(HANDLE_A), 10) },
        ImgElement { entity: 2, img: widget(AssetSource::from(HANDLE_A), 20) },
        ImgElement { entity: 3, img: widget(AssetSource::from(HANDLE_B), 30) },
    ];
    let loaded = vec![0, 0, 0];
    let mut registry = ImageRegistry::new();
    let mut events = Vec::new();
    let mut signals = Vec::new();
    let empty = Assets::new();
    let cmds = load_img(
        &mut elements,
        &loaded,
        &empty,
        &mut registry,
        &mut events,
        &mut signals,
    );
    assert_eq!(cmds.len(), 3);
    assert!(cmds.iter().all(|c| !c.visible));
    assert!(signals.is_empty());

    // The store now holds A's data and announces it.
    let mut assets = Assets::new();
    assets.insert(HANDLE_A, Size2 { width: 40, height: 30 });
    apply_asset_event(
        &AssetEvent::Created(HANDLE_A),
        &mut elements,
        &assets,
        &registry,
    );
    assert_eq!(elements[0].img.size, Size2 { width: 40, height: 30 });
    assert_eq!(elements[1].img.size, Size2 { width: 40, height: 30 });
    assert_eq!(elements[2].img.size, Size2 { width: 0, height: 0 });
}

#[test]
fn removed_data_zeroes_every_bound_widget() {
    let mut elements = vec![
        ImgElement { entity: 1, img: widget(AssetSource::from(HANDLE_A), 10) },
        ImgElement { entity: 2, img: widget(AssetSource::from(HANDLE_A), 20) },
    ];
    let loaded = vec![0, 0];
    let mut registry = ImageRegistry::new();
    let mut events = Vec::new();
    let mut signals = Vec::new();
    let mut assets = Assets::new();
    assets.insert(HANDLE_A, Size2 { width: 40, height: 30 });
    load_img(&mut elements, &loaded, &assets, &mut registry, &mut events, &mut signals);
    // The pass announces the present asset once per widget, and forces a
    // size recalculation for each.
    assert_eq!(signals.len(), 2);
    assert!(signals.iter().all(|s| s.loaded()));
    assert_eq!(signals[0].sources(), &vec![1]);
    assert_eq!(signals[1].sources(), &vec![2]);
    assert_eq!(
        events,
        vec![AssetEvent::Modified(HANDLE_A), AssetEvent::Modified(HANDLE_A)]
    );
    apply_asset_event(&AssetEvent::Modified(HANDLE_A), &mut elements, &assets, &registry);
    assert_eq!(elements[0].img.size, Size2 { width: 40, height: 30 });

    // The data disappears from the store.
    let gone = Assets::new();
    apply_asset_event(&AssetEvent::Removed(HANDLE_A), &mut elements, &gone, &registry);
    assert_eq!(elements[0].img.size, Size2 { width: 0, height: 0 });
    assert_eq!(elements[1].img.size, Size2 { width: 0, height: 0 });
}

#[test]
fn stale_registrations_are_skipped() {
    let mut registry = ImageRegistry::new();
    registry.insert_entity(HANDLE_A, 77);
    let mut elements = vec![ImgElement {
        entity: 1,
        img: widget(AssetSource::from(HANDLE_A), 10),
    }];
    let mut assets = Assets::new();
    assets.insert(HANDLE_A, Size2 { width: 5, height: 6 });
    // Entity 77 no longer exists: the event is applied without complaint
    // and touches nothing else.
    apply_asset_event(&AssetEvent::Created(HANDLE_A), &mut elements, &assets, &registry);
    assert_eq!(elements[0].img.size, Size2 { width: 0, height: 0 });
}

#[test]
fn from_world_and_params_defaults() {
    let img = Img::from_world_and_params(5, None, None, None).unwrap();
    assert_eq!(img.entity, 5);
    assert_eq!(img.handle, 0);
    assert_eq!(img.size, Size2 { width: 0, height: 0 });
    assert_eq!(img.mode, ImgMode::Fit);
    assert_eq!(img.modulate, Color::default());
    match img.src {
        AssetSource::Path(p) => assert_eq!(p, String::new()),
        AssetSource::Handle(_) => panic!("default source must be a path"),
    }
}

#[test]
fn from_world_and_params_reads_values() {
    let img = Img::from_world_and_params(
        5,
        Some(Variant::String("tex.png".to_string())),
        Some(Variant::String("cover".to_string())),
        Some(Variant::Color(Color { red: 1, green: 2, blue: 3, alpha: 4 })),
    )
    .unwrap();
    match img.src {
        AssetSource::Path(p) => assert_eq!(p, "tex.png".to_string()),
        AssetSource::Handle(_) => panic!("expected a path"),
    }
    assert_eq!(img.mode, ImgMode::Cover);
    assert_eq!(img.modulate, Color { red: 1, green: 2, blue: 3, alpha: 4 });
}

#[test]
fn size_update_consumes_events_in_order() {
    let mut elements = vec![ImgElement { entity: 1, img: widget(AssetSource::from(HANDLE_A), 10) }];
    let loaded = vec![0];
    let mut registry = ImageRegistry::new();
    let mut events = Vec::new();
    let mut signals = Vec::new();
    let mut assets = Assets::new();
    assets.insert(HANDLE_A, Size2 { width: 7, height: 9 });
    load_img(&mut elements, &loaded, &assets, &mut registry, &mut events, &mut signals);
    // A modification followed by a removal: the last event wins.
    let batch = vec![AssetEvent::Modified(HANDLE_A), AssetEvent::Removed(HANDLE_A)];
    update_img_size(&mut elements, &batch, &assets, &registry);
    assert_eq!(elements[0].img.size, Size2 { width: 0, height: 0 });
    // The removal alone, then the modification: sizes come back.
    let batch = vec![AssetEvent::Removed(HANDLE_A), AssetEvent::Modified(HANDLE_A)];
    update_img_size(&mut elements, &batch, &assets, &registry);
    assert_eq!(elements[0].img.size, Size2 { width: 7, height: 9 });
}

#[test]
fn pipeline_stages_are_distinct() {
    assert_ne!(ImgLabel::Load, ImgLabel::UpdateSize);
    assert_ne!(ImgLabel::UpdateSize, ImgLabel::UpdatLayout);
    assert_ne!(ImgLabel::Load, ImgLabel::UpdatLayout);
}

#[test]
fn from_world_and_params_rejects_bad_values() {
    // A wrongly shaped value fails construction with its description;
    // the asset reference is checked first, then the mode, then the tint.
    let err = Img::from_world_and_params(5, Some(Variant::Mode(ImgMode::Fit)), None, None)
        .unwrap_err();
    assert_eq!(err, "mode".to_string());
    let err =
        Img::from_world_and_params(5, None, Some(Variant::String("bogus".to_string())), None)
            .unwrap_err();
    assert_eq!(err, "bogus".to_string());
    let err = Img::from_world_and_params(5, None, None, Some(Variant::Handle(3))).unwrap_err();
    assert_eq!(err, "handle".to_string());
    let err = Img::from_world_and_params(
        5,
        Some(Variant::Other("mystery".to_string())),
        Some(Variant::String("bogus".to_string())),
        None,
    )
    .unwrap_err();
    assert_eq!(err, "mystery".to_string());
}
