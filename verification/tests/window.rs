use pristimer::window::{position_on_screen, MonitorArea};

#[test]
fn saved_positions_must_stay_reachable() {
    let monitors = vec![
        MonitorArea { x: 0, y: 0, width: 1920, height: 1080 },
        MonitorArea { x: 1920, y: 0, width: 1280, height: 1024 },
    ];
    assert!(position_on_screen(100, 100, 800, 600, &monitors));
    assert!(position_on_screen(2000, 100, 800, 600, &monitors));
    assert!(!position_on_screen(-790, 100, 800, 600, &monitors));
    assert!(position_on_screen(-759, 100, 800, 600, &monitors));
    assert!(!position_on_screen(3160, 100, 800, 600, &monitors));
    assert!(!position_on_screen(100, 100, 800, 600, &Vec::new()));
}
