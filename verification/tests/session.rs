use wc_lock::color::Color;
use wc_lock::effects::blur::{get_screen, Phase};
use wc_lock::input::{KeyState, XKB_KEY_RETURN};
use wc_lock::session::{Capture, Outcome, Session, Turn};
use wc_lock::window::{Resolution, SurfaceRequest, MODE_CURRENT};

fn res(w: u32, h: u32) -> Resolution {
    Resolution { w, h }
}

fn capture(w: u32, h: u32, seed: u8) -> Capture {
    let pixels = (0..w * h * 4).map(|i| (i as u8).wrapping_mul(7).wrapping_add(seed)).collect();
    Capture { resolution: res(w, h), pixels }
}

fn captures(k: usize) -> Vec<Capture> {
    (0..k).map(|i| capture(2 + i as u32, 1 + i as u32, i as u8)).collect()
}

fn session(k: usize, passes: u32) -> Session {
    Session::new(String::from("user"), &captures(k), passes)
}

fn halve(image: &[u8]) -> Vec<u8> {
    image.iter().map(|b| b / 2).collect()
}

fn log_in(session: &mut Session) {
    let submit = session.key(XKB_KEY_RETURN, KeyState::Pressed, None);
    assert!(submit.is_some());
    session.verdict(true);
}

#[test]
fn one_lock_for_every_output() {
    for k in 0..5 {
        let captures = captures(k);
        let session = Session::new(String::from("user"), &captures, 3);
        assert_eq!(session.outputs(), k);
        for i in 0..k {
            let resolution = captures[i].resolution;
            let image = get_screen(captures[i].pixels.clone(), resolution);
            assert_eq!(session.resolution(i), resolution);
            assert_eq!(session.window(i).resolution(), resolution);
            assert_eq!(session.window(i).bytes(), image.as_slice());
            assert_eq!(session.blur(i).image(), image.as_slice());
            assert_eq!(session.blur(i).phase(), Phase::Refining(3));
        }
        assert!(!session.input().is_logged_in());
    }
}

#[test]
fn new_session_queues_creation_and_first_frame() {
    let mut session = session(2, 1);
    assert_eq!(
        session.take_requests(1),
        vec![
            SurfaceRequest::CreateBuffer { size: 24, width: 3, height: 2, stride: 12 },
            SurfaceRequest::SetFullscreen,
            SurfaceRequest::Attach { x: 0, y: 0 },
            SurfaceRequest::Commit,
            SurfaceRequest::Damage { x: 0, y: 0, width: 3, height: 2 },
            SurfaceRequest::Attach { x: 0, y: 0 },
            SurfaceRequest::Commit,
        ]
    );
    assert!(session.take_requests(1).is_empty());
    assert_eq!(session.take_requests(0).len(), 7);
}

#[test]
fn login_unlocks_every_output() {
    for k in 0..5 {
        let mut session = session(k, 0);
        assert_eq!(session.settle(), Outcome::Locked);
        assert_eq!(session.outputs(), k);
        log_in(&mut session);
        assert_eq!(session.settle(), Outcome::Unlocked { requests: k });
        assert_eq!(session.outputs(), 0);
    }
}

#[test]
fn failed_login_keeps_every_output_locked() {
    let mut session = session(3, 0);
    session.key(0x61, KeyState::Pressed, Some(String::from("a")));
    let submit = session.key(XKB_KEY_RETURN, KeyState::Pressed, None).expect("no credentials");
    assert_eq!(submit.username, "user");
    assert_eq!(submit.password, "a");
    session.verdict(false);
    assert_eq!(session.settle(), Outcome::Locked);
    assert_eq!(session.outputs(), 3);
    assert_eq!(session.input().failed_attempts(), 1);
}

#[test]
fn turn_refines_while_a_pass_is_pending() {
    let mut session = session(2, 1);
    assert_eq!(session.turn(), Turn::Refine);
    let image = session.pending_pass(0).expect("no pending image").to_vec();
    session.refine(0, halve(&image));
    assert_eq!(session.turn(), Turn::Refine);
    let image = session.pending_pass(1).expect("no pending image").to_vec();
    session.refine(1, halve(&image));
    assert_eq!(session.turn(), Turn::Await);
    assert!(session.pending_pass(0).is_none());
    assert!(session.pending_pass(1).is_none());
}

#[test]
fn turn_awaits_without_outputs() {
    assert_eq!(session(0, 5).turn(), Turn::Await);
    assert_eq!(session(3, 0).turn(), Turn::Await);
}

#[test]
fn refinement_applies_the_filter_once_per_pass() {
    let passes = 4;
    let k = 3;
    let captures = captures(k);
    let mut session = Session::new(String::from("user"), &captures, passes);
    let mut expected: Vec<Vec<u8>> =
        captures.iter().map(|c| get_screen(c.pixels.clone(), c.resolution)).collect();
    for image in expected.iter_mut() {
        for _ in 0..passes {
            *image = halve(image);
        }
    }
    let mut calls = vec![0; k];
    let mut turns = 0;
    while session.turn() == Turn::Refine {
        turns += 1;
        for i in 0..session.outputs() {
            let pending = session.pending_pass(i).map(|image| image.to_vec());
            if let Some(image) = pending {
                calls[i] += 1;
                session.refine(i, halve(&image));
            }
        }
        assert!(turns <= passes);
    }
    assert_eq!(turns, passes);
    assert_eq!(calls, vec![passes; k]);
    for i in 0..k {
        assert_eq!(session.blur(i).image(), expected[i].as_slice());
        assert_eq!(session.window(i).bytes(), expected[i].as_slice());
        assert_eq!(session.blur(i).phase(), Phase::Steady);
    }
}

#[test]
fn refine_changes_one_output_only() {
    let mut session = session(3, 2);
    let before0 = session.window(0).bytes().to_vec();
    let before2 = session.window(2).bytes().to_vec();
    for i in 0..3 {
        session.take_requests(i);
    }
    let image = session.pending_pass(1).expect("no pending image").to_vec();
    session.refine(1, halve(&image));
    assert_eq!(session.window(0).bytes(), before0.as_slice());
    assert_eq!(session.window(2).bytes(), before2.as_slice());
    assert_eq!(session.window(1).bytes(), halve(&image).as_slice());
    assert_eq!(session.blur(0).phase(), Phase::Refining(2));
    assert_eq!(session.blur(1).phase(), Phase::Refining(1));
    assert_eq!(session.blur(2).phase(), Phase::Refining(2));
    assert!(session.take_requests(0).is_empty());
    assert_eq!(session.take_requests(1).len(), 3);
    assert!(session.take_requests(2).is_empty());
}

#[test]
fn feedback_color_reaches_every_window() {
    let mut session = session(3, 0);
    session.key(0x61, KeyState::Pressed, Some(String::from("a")));
    assert_eq!(session.settle(), Outcome::Locked);
    let color = Color::solid_color(97, 32, 48);
    for i in 0..3 {
        let area = session.resolution(i).size() as usize;
        let bytes = session.window(i).bytes();
        assert_eq!(bytes.len(), area * 4);
        for pixel in bytes.chunks(4) {
            assert_eq!(pixel, [color.red, color.green, color.blue, color.alpha]);
        }
    }
    assert_eq!(session.input().new_color, None);
}

#[test]
fn feedback_color_is_propagated_once() {
    let mut session = session(2, 0);
    session.key(0x61, KeyState::Pressed, Some(String::from("a")));
    session.settle();
    for i in 0..2 {
        session.take_requests(i);
    }
    assert_eq!(session.settle(), Outcome::Locked);
    for i in 0..2 {
        assert!(session.take_requests(i).is_empty());
    }
}

#[test]
fn mode_changes_the_resolution_of_one_output() {
    let mut session = session(2, 0);
    session.mode(1, MODE_CURRENT, 4, 2);
    session.mode(0, 0, 9, 9);
    assert_eq!(session.resolution(0), res(2, 1));
    assert_eq!(session.resolution(1), res(4, 2));
    // the window follows with the next frame
    assert_eq!(session.window(1).resolution(), res(3, 2));
    for i in 0..2 {
        session.take_requests(i);
    }
    session.key(0x61, KeyState::Pressed, Some(String::from("a")));
    session.settle();
    assert_eq!(session.window(1).resolution(), res(4, 2));
    assert_eq!(session.window(1).bytes().len(), 32);
    assert_eq!(
        session.take_requests(1)[0],
        SurfaceRequest::CreateBuffer { size: 32, width: 4, height: 2, stride: 16 }
    );
    assert_eq!(
        session.take_requests(0)[0],
        SurfaceRequest::Damage { x: 0, y: 0, width: 2, height: 1 }
    );
}

#[test]
fn ping_reaches_the_window_of_its_output() {
    let mut session = session(2, 0);
    for i in 0..2 {
        session.take_requests(i);
    }
    session.ping(1, 42);
    assert!(session.take_requests(0).is_empty());
    assert_eq!(session.take_requests(1), vec![SurfaceRequest::Pong { serial: 42 }]);
}

#[test]
fn whole_lock_cycle() {
    let verify = |user: &str, password: &str| user == "user" && password == "ac";
    let mut session = session(2, 2);
    let mut unlocks = 0;
    let mut keys = vec![
        (0x61, Some("a")),
        (0x62, Some("b")),
        (wc_lock::input::XKB_KEY_BACKSPACE, None),
        (0x63, Some("c")),
        (XKB_KEY_RETURN, None),
    ]
    .into_iter();
    let mut turns = 0;
    loop {
        turns += 1;
        assert!(turns < 100);
        if session.turn() == Turn::Refine {
            for i in 0..session.outputs() {
                let pending = session.pending_pass(i).map(|image| image.to_vec());
                if let Some(image) = pending {
                    session.refine(i, halve(&image));
                }
            }
            continue;
        }
        if let Some((keysym, text)) = keys.next() {
            let submit = session.key(keysym, KeyState::Pressed, text.map(String::from));
            if let Some(credentials) = submit {
                session.verdict(verify(&credentials.username, &credentials.password));
            }
        }
        match session.settle() {
            Outcome::Unlocked { requests } => {
                unlocks += requests;
                break;
            }
            Outcome::Locked => {}
        }
    }
    assert_eq!(unlocks, 2);
    assert_eq!(turns, 2 + 5);
    assert_eq!(session.outputs(), 0);
    assert!(session.input().is_logged_in());
}

#[test]
fn capture_fits_its_resolution() {
    assert!(capture(2, 3, 0).is_fit());
    assert!(Capture { resolution: res(1, 1), pixels: vec![0; 4] }.is_fit());
}

#[test]
fn capture_of_wrong_length_does_not_fit() {
    assert!(!Capture { resolution: res(2, 3), pixels: vec![0; 23] }.is_fit());
    assert!(!Capture { resolution: res(2, 3), pixels: vec![0; 25] }.is_fit());
    assert!(!Capture { resolution: res(2, 3), pixels: Vec::new() }.is_fit());
}

#[test]
fn capture_of_zero_area_does_not_fit() {
    assert!(!Capture { resolution: res(0, 0), pixels: Vec::new() }.is_fit());
    assert!(!Capture { resolution: res(0, 7), pixels: Vec::new() }.is_fit());
    assert!(!Capture { resolution: res(7, 0), pixels: Vec::new() }.is_fit());
}

#[test]
fn try_new_locks_fitting_captures() {
    let captures = captures(3);
    let session = Session::try_new(String::from("user"), &captures, 2).expect("no session");
    assert_eq!(session.outputs(), 3);
    for i in 0..3 {
        let image = get_screen(captures[i].pixels.clone(), captures[i].resolution);
        assert_eq!(session.window(i).bytes(), image.as_slice());
        assert_eq!(session.blur(i).phase(), Phase::Refining(2));
    }
    assert!(Session::try_new(String::from("user"), &[], 2).is_some());
}

#[test]
fn try_new_refuses_an_output_without_pixels() {
    let mut captures = captures(3);
    captures[1] = Capture { resolution: res(0, 0), pixels: Vec::new() };
    assert!(Session::try_new(String::from("user"), &captures, 2).is_none());
    let mut captures = self::captures(2);
    captures[0] = Capture { resolution: res(0, 4), pixels: Vec::new() };
    assert!(Session::try_new(String::from("user"), &captures, 2).is_none());
}

#[test]
fn try_new_refuses_a_capture_of_the_wrong_length() {
    let mut captures = captures(2);
    captures[1].pixels.pop();
    assert!(Session::try_new(String::from("user"), &captures, 2).is_none());
}

#[test]
fn settling_needs_allocatable_outputs_for_a_color() {
    let mut session = session(2, 0);
    assert!(session.can_settle());
    session.mode(1, MODE_CURRENT, 0, 0);
    // nothing is due to the windows
    assert!(session.can_settle());
    assert_eq!(session.settle(), Outcome::Locked);
    session.key(0x61, KeyState::Pressed, Some(String::from("a")));
    assert!(!session.can_settle());
    session.mode(1, MODE_CURRENT, 5, 5);
    assert!(session.can_settle());
    assert_eq!(session.settle(), Outcome::Locked);
    assert_eq!(session.window(1).bytes().len(), 100);
}

#[test]
fn settling_after_login_needs_no_resolution() {
    let mut session = session(2, 0);
    session.key(0x61, KeyState::Pressed, Some(String::from("a")));
    session.mode(0, MODE_CURRENT, 0, 0);
    assert!(!session.can_settle());
    session.key(XKB_KEY_RETURN, KeyState::Pressed, None);
    session.verdict(true);
    assert!(session.can_settle());
    assert_eq!(session.settle(), Outcome::Unlocked { requests: 2 });
}
