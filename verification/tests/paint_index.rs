use breeze_shell::paint_index::{PaintIndex, PaintItem, PaintItemKind, ITEMS_PER_CHUNK};

/// Orders floats as their total order does; the browser keys extents the same way.
fn key(value: f32) -> i64 {
    let bits = value.to_bits() as i32;
    i64::from(bits ^ ((((bits >> 31) as u32) >> 1) as i32))
}

fn bounds(y: f32, height: f32) -> (i64, i64) {
    let top = y.min(y + height);
    let bottom = y.max(y + height);
    if top.is_finite() && bottom.is_finite() {
        (key(top), key(bottom))
    } else {
        (key(f32::NEG_INFINITY), key(f32::INFINITY))
    }
}

fn item(y: f32, height: f32) -> PaintItem {
    let (top, bottom) = bounds(y, height);
    PaintItem { kind: PaintItemKind::Other, top, bottom }
}

fn group(kind: PaintItemKind) -> PaintItem {
    let (top, bottom) = bounds(0.0, 3_000.0);
    PaintItem { kind, top, bottom }
}

#[test]
fn long_pages_only_visit_nearby_display_list_chunks() {
    let items = (0..4_096).map(|index| item(index as f32 * 20.0, 10.0)).collect::<Vec<_>>();
    let mut index = PaintIndex::new();
    index.rebuild(&items);

    let ranges = index.visible_ranges(key(40_000.0), key(40_600.0));
    let candidates = ranges.iter().map(|(start, end)| end - start).sum::<usize>();

    assert!(candidates <= ITEMS_PER_CHUNK * 2, "{ranges:?}");
    assert!(ranges.windows(2).all(|pair| pair[0].1 <= pair[1].0));
}

#[test]
fn tall_items_keep_their_original_paint_chunk_visible() {
    let mut items = vec![item(0.0, 100_000.0)];
    items.extend((1..256).map(|index| item(index as f32 * 20.0, 10.0)));
    let mut index = PaintIndex::new();
    index.rebuild(&items);

    let ranges = index.visible_ranges(key(80_000.0), key(80_600.0));

    assert_eq!(ranges.first(), Some(&(0, ITEMS_PER_CHUNK)));
}

#[test]
fn opacity_groups_are_never_split_across_paint_chunks() {
    let mut items = vec![group(PaintItemKind::BeginGroup)];
    items.extend((0..300).map(|index| item(index as f32 * 10.0, 8.0)));
    items.push(group(PaintItemKind::EndGroup));
    items.push(item(4_000.0, 10.0));
    let mut index = PaintIndex::new();
    index.rebuild(&items);

    assert_eq!(index.visible_ranges(key(1_000.0), key(1_100.0)), vec![(0, 302)]);
}

#[test]
fn clip_groups_are_never_split_across_paint_chunks() {
    let mut items = vec![group(PaintItemKind::BeginGroup)];
    items.extend((0..300).map(|index| item(index as f32 * 10.0, 8.0)));
    items.push(group(PaintItemKind::EndGroup));
    items.push(item(4_000.0, 10.0));
    let mut index = PaintIndex::new();
    index.rebuild(&items);

    assert_eq!(index.visible_ranges(key(1_000.0), key(1_100.0)), vec![(0, 302)]);
}

#[test]
fn chunks_tile_the_display_list() {
    let items = (0..300).map(|index| item(index as f32, 1.0)).collect::<Vec<_>>();
    let mut index = PaintIndex::new();
    index.rebuild(&items);
    let bounds = index.chunks.iter().map(|c| (c.start, c.end)).collect::<Vec<_>>();
    assert_eq!(bounds, vec![(0, 128), (128, 256), (256, 300)]);
    index.rebuild(&[]);
    assert!(index.chunks.is_empty());
}
