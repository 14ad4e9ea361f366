use ruiss::geometry::{enter_position, hit_edge, map_coords, Edge};

#[test]
fn hit_right_edge() {
    assert_eq!(hit_edge(1279, 500, 1280, 800, 2), Edge::Right);
    assert_eq!(hit_edge(1270, 500, 1280, 800, 2), Edge::Inside);
}

#[test]
fn enter_from_right() {
    assert_eq!(enter_position(Edge::Right, 300, 0, 1280, 800), (4, 300));
}

#[test]
fn map_small_to_large() {
    assert_eq!(map_coords(1280, 800, 1280, 800, 1920, 1080), (1920, 1080));
    assert_eq!(map_coords(640, 400, 1280, 800, 1920, 1080), (960, 540));
}

#[test]
fn map_large_to_small() {
    assert_eq!(map_coords(2560, 1440, 2560, 1440, 1280, 800), (1280, 800));
    assert_eq!(map_coords(1280, 720, 2560, 1440, 1280, 800), (640, 400));
}

#[test]
fn map_same_or_zero_passthrough() {
    assert_eq!(map_coords(100, 200, 1920, 1080, 1920, 1080), (100, 200));
    assert_eq!(map_coords(100, 200, 0, 0, 1920, 1080), (100, 200));
    assert_eq!(map_coords(100, 200, 1920, 1080, 0, 0), (100, 200));
}

#[test]
fn edges_in_their_order() {
    assert_eq!(hit_edge(0, 0, 100, 100, 2), Edge::Left);
    assert_eq!(hit_edge(1, 50, 100, 100, 2), Edge::Left);
    assert_eq!(hit_edge(2, 1, 100, 100, 2), Edge::Top);
    assert_eq!(hit_edge(50, 98, 100, 100, 2), Edge::Bottom);
    assert_eq!(hit_edge(98, 98, 100, 100, 2), Edge::Right);
    assert_eq!(hit_edge(50, 50, 100, 100, 2), Edge::Inside);
}

#[test]
fn entry_points_of_every_edge() {
    assert_eq!(enter_position(Edge::Left, 300, 0, 1280, 800), (1275, 300));
    assert_eq!(enter_position(Edge::Top, 0, 77, 1280, 800), (77, 795));
    assert_eq!(enter_position(Edge::Bottom, 0, 77, 1280, 800), (77, 4));
    assert_eq!(enter_position(Edge::Inside, 5, 6, 1280, 800), (6, 5));
    assert_eq!(enter_position(Edge::Right, 300, 0, 3, 3), (2, 300));
    assert_eq!(enter_position(Edge::Left, 300, 0, 3, 3), (0, 300));
}

#[test]
fn mapping_keeps_order_and_stays_on_screen() {
    let mut last = -1;
    for x in 0..1366 {
        let (mx, _) = map_coords(x, 0, 1366, 768, 1000, 500);
        assert!(mx >= last && (0..1000).contains(&mx));
        last = mx;
    }
    assert_eq!(map_coords(-3, -3, 2, 2, 3, 3), (-4, -4));
}
