use wc_lock::color::Color;
use wc_lock::window::{Resolution, SurfaceRequest, Window, MODE_CURRENT};

fn res(w: u32, h: u32) -> Resolution {
    Resolution { w, h }
}

fn repeat(pixel: [u8; 4], n: usize) -> Vec<u8> {
    let mut bytes = Vec::new();
    for _ in 0..n {
        bytes.extend_from_slice(&pixel);
    }
    bytes
}

#[test]
fn new_resolution_is_zero() {
    let r = Resolution::new();
    assert_eq!((r.w, r.h), (0, 0));
    assert_eq!(r.size(), 0);
}

#[test]
fn size_is_width_times_height() {
    assert_eq!(res(1920, 1080).size(), 2_073_600);
    assert_eq!(res(3, 0).size(), 0);
    assert_eq!(res(65535, 65537).size(), 4_294_967_295);
}

#[test]
fn zero_area_resolution_is_not_allocatable() {
    assert!(!Resolution::new().can_allocate());
    assert!(!res(0, 1080).can_allocate());
    assert!(!res(1920, 0).can_allocate());
}

#[test]
fn allocatable_up_to_the_signed_size_limit() {
    assert!(res(1, 1).can_allocate());
    assert!(res(1920, 1080).can_allocate());
    // 23170 * 23170 * 4 = 2_147_395_600 <= i32::MAX
    assert!(res(23170, 23170).can_allocate());
    // 536_870_911 * 4 = 2_147_483_644 <= i32::MAX
    assert!(res(536_870_911, 1).can_allocate());
    // 536_870_912 * 4 = 2_147_483_648 > i32::MAX
    assert!(!res(536_870_912, 1).can_allocate());
    assert!(!res(u32::MAX, u32::MAX).can_allocate());
}

#[test]
fn mode_stores_only_the_current_mode() {
    let mut r = Resolution::new();
    r.mode(MODE_CURRENT, 1920, 1080);
    assert_eq!(r, res(1920, 1080));
    r.mode(0, 640, 480);
    assert_eq!(r, res(1920, 1080));
    r.mode(0x2, 800, 600);
    assert_eq!(r, res(1920, 1080));
    r.mode(0x3, 1280, 720);
    assert_eq!(r, res(1280, 720));
}

#[test]
fn mode_reinterprets_negative_sizes() {
    let mut r = Resolution::new();
    r.mode(MODE_CURRENT, -1, 5);
    assert_eq!(r, res(u32::MAX, 5));
}

#[test]
fn fresh_window_has_four_bytes_per_pixel() {
    for &(w, h) in [(1u32, 1u32), (2, 3), (7, 5), (64, 48)].iter() {
        let window = Window::new(res(w, h));
        assert_eq!(window.bytes().len(), (w * h * 4) as usize);
        assert_eq!(window.resolution(), res(w, h));
    }
}

#[test]
fn fresh_window_is_opaque_black() {
    let window = Window::new(res(3, 2));
    assert_eq!(window.bytes(), repeat([0, 0, 0, 255], 6).as_slice());
}

#[test]
fn fresh_window_queues_its_creation() {
    let mut window = Window::new(res(3, 2));
    assert_eq!(
        window.take_requests(),
        vec![
            SurfaceRequest::CreateBuffer { size: 24, width: 3, height: 2, stride: 12 },
            SurfaceRequest::SetFullscreen,
            SurfaceRequest::Attach { x: 0, y: 0 },
            SurfaceRequest::Commit,
        ]
    );
}

#[test]
fn take_requests_empties_the_queue() {
    let mut window = Window::new(res(1, 1));
    assert_eq!(window.take_requests().len(), 4);
    assert!(window.take_requests().is_empty());
    assert_eq!(window.bytes(), [0, 0, 0, 255]);
}

#[test]
fn update_color_fills_every_pixel() {
    let mut window = Window::new(res(4, 3));
    window.update_color(Color::solid_color(1, 2, 3), res(4, 3));
    assert_eq!(window.bytes(), repeat([1, 2, 3, 255], 12).as_slice());
}

#[test]
fn update_color_overwrites_whatever_was_there() {
    let mut window = Window::new(res(2, 2));
    let noise: Vec<u8> = (0..16).map(|i| (i * 17) as u8).collect();
    window.write_bytes(res(2, 2), &noise);
    window.update_color(Color { red: 9, green: 8, blue: 7, alpha: 6 }, res(2, 2));
    assert_eq!(window.bytes(), repeat([9, 8, 7, 6], 4).as_slice());
    window.update_color(Color::solid_color(200, 100, 50), res(2, 2));
    assert_eq!(window.bytes(), repeat([200, 100, 50, 255], 4).as_slice());
}

#[test]
fn update_color_queues_damage_attach_commit() {
    let mut window = Window::new(res(4, 3));
    window.take_requests();
    window.update_color(Color::solid_color(1, 2, 3), res(4, 3));
    assert_eq!(
        window.take_requests(),
        vec![
            SurfaceRequest::Damage { x: 0, y: 0, width: 4, height: 3 },
            SurfaceRequest::Attach { x: 0, y: 0 },
            SurfaceRequest::Commit,
        ]
    );
}

#[test]
fn update_color_is_idempotent_on_the_buffer() {
    let mut window = Window::new(res(5, 1));
    let color = Color::solid_color(11, 22, 33);
    window.update_color(color, res(5, 1));
    let once = window.bytes().to_vec();
    window.update_color(color, res(5, 1));
    assert_eq!(window.bytes(), once.as_slice());
}

#[test]
fn write_bytes_replaces_the_whole_buffer() {
    let mut window = Window::new(res(2, 1));
    window.take_requests();
    window.write_bytes(res(2, 1), &[1, 2, 3, 4, 5, 6, 7, 8]);
    assert_eq!(window.bytes(), [1, 2, 3, 4, 5, 6, 7, 8]);
    assert_eq!(
        window.take_requests(),
        vec![
            SurfaceRequest::Damage { x: 0, y: 0, width: 2, height: 1 },
            SurfaceRequest::Attach { x: 0, y: 0 },
            SurfaceRequest::Commit,
        ]
    );
}

#[test]
fn resize_allocates_the_buffer_anew() {
    let mut window = Window::new(res(2, 1));
    window.take_requests();
    window.update_color(Color::solid_color(5, 6, 7), res(3, 2));
    assert_eq!(window.resolution(), res(3, 2));
    assert_eq!(window.bytes(), repeat([5, 6, 7, 255], 6).as_slice());
    assert_eq!(
        window.take_requests(),
        vec![
            SurfaceRequest::CreateBuffer { size: 24, width: 3, height: 2, stride: 12 },
            SurfaceRequest::Damage { x: 0, y: 0, width: 3, height: 2 },
            SurfaceRequest::Attach { x: 0, y: 0 },
            SurfaceRequest::Commit,
        ]
    );
}

#[test]
fn requests_keep_their_order() {
    let mut window = Window::new(res(1, 1));
    window.ping(7);
    window.update_color(Color::solid_color(1, 1, 1), res(1, 1));
    window.ping(8);
    let requests = window.take_requests();
    assert_eq!(requests.len(), 9);
    assert_eq!(requests[4], SurfaceRequest::Pong { serial: 7 });
    assert_eq!(requests[5], SurfaceRequest::Damage { x: 0, y: 0, width: 1, height: 1 });
    assert_eq!(requests[8], SurfaceRequest::Pong { serial: 8 });
}

#[test]
fn ping_is_answered_with_the_same_serial() {
    let mut window = Window::new(res(1, 1));
    window.take_requests();
    window.ping(0xdead_beef);
    assert_eq!(window.take_requests(), vec![SurfaceRequest::Pong { serial: 0xdead_beef }]);
    assert_eq!(window.bytes(), [0, 0, 0, 255]);
}

#[test]
fn window_of_zero_area_is_not_created() {
    assert!(Window::try_new(Resolution::new()).is_none());
    assert!(Window::try_new(res(0, 1080)).is_none());
    assert!(Window::try_new(res(1920, 0)).is_none());
    assert!(Window::try_new(res(536_870_912, 1)).is_none());
}

#[test]
fn try_new_creates_the_window_of_new() {
    let mut window = Window::try_new(res(3, 2)).expect("no window");
    assert_eq!(window.bytes(), repeat([0, 0, 0, 255], 6).as_slice());
    assert_eq!(window.resolution(), res(3, 2));
    assert_eq!(window.take_requests(), Window::new(res(3, 2)).take_requests());
}
