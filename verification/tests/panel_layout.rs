use breeze_shell::geometry::{scale_dip, Rect};
use breeze_shell::panel_layout::{clamp_scroll_row, scroll_detail_rows, PanelLayout, METRIC_ROW_COUNT};

fn client(width_dip: i32, height_dip: i32, dpi: u32) -> Rect {
    Rect { left: 0, top: 0, right: scale_dip(width_dip, dpi), bottom: scale_dip(height_dip, dpi) }
}

fn contained(inner: Rect, outer: Rect) -> bool {
    inner.left >= outer.left
        && inner.top >= outer.top
        && inner.right <= outer.right
        && inner.bottom <= outer.bottom
        && inner.left <= inner.right
        && inner.top <= inner.bottom
}

#[test]
fn full_panel_sections_are_contained_at_100_and_125_percent_dpi() {
    for dpi in [96, 120] {
        let client = client(480, 520, dpi);
        let layout = PanelLayout::new(&client, dpi);
        assert_eq!(layout.visible_metric_rows, METRIC_ROW_COUNT);
        assert!(layout.visible_detail_rows() >= 8);
        assert!(contained(layout.heading, client));
        assert!(contained(layout.metrics, client));
        assert!(contained(layout.details, client));
        assert!(contained(layout.graph.unwrap(), client));
        assert!(contained(layout.copy_button, client));
        assert!(contained(layout.close_button, client));
        assert!(layout.details.bottom <= layout.graph.unwrap().top);
        assert!(layout.copy_button.right < layout.close_button.left);
    }
}

#[test]
fn constrained_panel_keeps_controls_and_text_regions_disjoint() {
    let client = client(420, 280, 120);
    let layout = PanelLayout::new(&client, 120);
    assert!(layout.graph.is_none());
    assert!(layout.visible_metric_rows > 0);
    assert!(layout.visible_detail_rows() > 0);
    assert!(layout.metrics.bottom <= layout.details.top);
    assert!(layout.details.bottom <= layout.copy_button.top);
    assert!(contained(layout.copy_button, client));
    assert!(contained(layout.close_button, client));
}

#[test]
fn scrollbar_and_wheel_navigation_stay_bounded() {
    let client = client(480, 430, 96);
    let layout = PanelLayout::new(&client, 96);
    let visible = layout.visible_detail_rows();
    let total = 40;
    let maximum = total - visible;
    assert_eq!(scroll_detail_rows(0, -120, total, visible), 3);
    assert_eq!(scroll_detail_rows(3, 120, total, visible), 0);
    assert_eq!(scroll_detail_rows(usize::MAX, -120, total, visible), maximum);
    let thumb = layout.scrollbar_thumb(total, maximum).unwrap();
    assert!(contained(thumb, layout.scrollbar));
    assert_eq!(thumb.bottom, layout.scrollbar.bottom);
}

#[test]
fn scroll_rows_clamp_to_the_last_page() {
    assert_eq!(clamp_scroll_row(50, 40, 10), 30);
    assert_eq!(clamp_scroll_row(5, 4, 10), 0);
    assert_eq!(clamp_scroll_row(7, 40, 10), 7);
}

#[test]
fn panel_regions_stack_for_odd_and_tiny_clients() {
    let clients = [
        (Rect { left: -40, top: 25, right: 300, bottom: 900 }, 144),
        (Rect { left: 0, top: 0, right: 10, bottom: 12 }, 96),
        (Rect { left: 5, top: 5, right: 480, bottom: 60 }, 192),
    ];
    for (client, dpi) in clients {
        let l = PanelLayout::new(&client, dpi);
        assert!(l.row_height >= 1);
        assert!(l.visible_metric_rows <= METRIC_ROW_COUNT);
        assert_eq!(l.metrics.bottom - l.metrics.top, l.visible_metric_rows as i32 * l.row_height);
        assert!(l.metrics.bottom <= l.details.top && l.details.top <= l.details.bottom);
        assert!(l.details.left <= l.scrollbar.left && l.scrollbar.left <= l.scrollbar.right);
        assert_eq!(l.scrollbar.right, l.details.right);
        assert_eq!((l.scrollbar.top, l.scrollbar.bottom), (l.details.top, l.details.bottom));
        if let Some(g) = l.graph {
            assert!(l.details.bottom <= g.top);
        }
        let rows = l.visible_detail_rows() as i32;
        let height = l.details.bottom - l.details.top;
        assert!(rows * l.row_height <= height && height < (rows + 1) * l.row_height);
    }
}

#[test]
fn very_large_clients_lay_out_without_overflow() {
    let client = Rect { left: 0, top: 0, right: 0x5000_0000, bottom: 0x5000_0000 };
    let l = PanelLayout::new(&client, 96);
    assert_eq!(l.row_height, 18);
    assert_eq!(l.visible_metric_rows, METRIC_ROW_COUNT);
    assert_eq!(l.details.right, 0x5000_0000 - 16);
    assert_eq!(l.graph.unwrap().bottom, 0x5000_0000 - 48 - 10);
    assert!(l.metrics.bottom <= l.details.top && l.details.bottom <= l.graph.unwrap().top);
    let huge = PanelLayout::new(&Rect { left: 0, top: 0, right: 2000, bottom: 2000 }, u32::MAX);
    assert_eq!(huge.row_height, 805_306_368);
    assert_eq!(huge.visible_metric_rows, 0);
}
