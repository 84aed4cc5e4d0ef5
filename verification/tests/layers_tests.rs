use ggoled::bitmap::Bitmap;
use ggoled::layers::DrawLayer;
use ggoled::layers::LayerId;
use ggoled::layers::LayerStore;

fn image(w: usize, h: usize) -> DrawLayer {
    DrawLayer::Image { bitmap: Bitmap::new(w, h, true), x: 0, y: 0 }
}

#[test]
fn none_is_the_reserved_zero_id() {
    assert_eq!(LayerId::none(), LayerId(0));
}

#[test]
fn ids_grow_and_are_never_zero() {
    let mut store = LayerStore::new();
    let a = store.add_layer(image(1, 1), 0);
    let b = store.add_layer(image(1, 1), 0);
    assert_ne!(a, LayerId::none());
    assert_ne!(b, LayerId::none());
    assert!(a.0 < b.0);
    assert_eq!(store.len(), 2);
}

#[test]
fn remove_keeps_the_order_of_the_rest() {
    let mut store = LayerStore::new();
    let a = store.add_layer(image(1, 1), 0);
    let b = store.add_layer(image(2, 2), 0);
    let c = store.add_layer(image(3, 3), 0);
    store.remove_layer(b);
    assert_eq!(store.len(), 2);
    assert_eq!(store.entries[0].id, a);
    assert_eq!(store.entries[1].id, c);
}

#[test]
fn remove_of_absent_id_changes_nothing() {
    let mut store = LayerStore::new();
    let a = store.add_layer(image(1, 1), 0);
    store.remove_layer(LayerId(99));
    store.remove_layer(LayerId::none());
    assert_eq!(store.len(), 1);
    assert_eq!(store.entries[0].id, a);
}

#[test]
fn ids_are_not_reused_after_removal() {
    let mut store = LayerStore::new();
    let a = store.add_layer(image(1, 1), 0);
    store.remove_layer(a);
    let b = store.add_layer(image(1, 1), 0);
    assert!(b.0 > a.0);
}

#[test]
fn remove_layers_takes_a_batch() {
    let mut store = LayerStore::new();
    let a = store.add_layer(image(1, 1), 0);
    let b = store.add_layer(image(2, 2), 0);
    let c = store.add_layer(image(3, 3), 0);
    let d = store.add_layer(image(4, 4), 0);
    store.remove_layers(&vec![a, c]);
    assert_eq!(store.len(), 2);
    assert_eq!(store.entries[0].id, b);
    assert_eq!(store.entries[1].id, d);
}

#[test]
fn clear_layers_empties_the_store() {
    let mut store = LayerStore::new();
    store.add_layer(image(1, 1), 0);
    store.add_layer(image(2, 2), 0);
    store.clear_layers();
    assert_eq!(store.len(), 0);
    let next = store.add_layer(image(1, 1), 0);
    assert_eq!(next.0, 3);
}

#[test]
fn replace_layers_is_one_batched_edit() {
    let mut store = LayerStore::new();
    let a = store.add_layer(image(1, 1), 0);
    let b = store.add_layer(image(2, 2), 0);
    let c = store.add_layer(image(3, 3), 0);
    let new_ids = store.replace_layers(&vec![a, c], vec![image(5, 5), image(6, 6)], 10);
    assert_eq!(new_ids.len(), 2);
    assert_eq!(store.len(), 3);
    assert_eq!(store.entries[0].id, b);
    assert_eq!(store.entries[1].id, new_ids[0]);
    assert_eq!(store.entries[2].id, new_ids[1]);
    assert!(new_ids[0].0 > c.0);
    assert!(new_ids[1].0 > new_ids[0].0);
    match &store.entries[1].layer {
        DrawLayer::Image { bitmap, .. } => assert_eq!(bitmap.w, 5),
        _ => panic!("expected an image layer"),
    }
}

#[test]
fn fresh_scroll_state_starts_at_the_left_edge() {
    let mut store = LayerStore::new();
    store.add_layer(DrawLayer::Scroll { bitmap: Bitmap::new(40, 8, true), y: 0 }, 7);
    assert_eq!(store.entries[0].state.scroll_x, 0);
    assert_eq!(store.entries[0].state.anim_ticks, 0);
    assert_eq!(store.entries[0].state.anim_next_ms, 7);
}
