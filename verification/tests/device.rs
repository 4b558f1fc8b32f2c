use makepad_host::gps::{claim_fake_gps, GpsFix, GpsState};
use makepad_host::home::{
    makepad_home, platform_data_dir, resolve_home, set_platform_data_dir, storage_dir,
    PlatformDataDir,
};
use makepad_host::markdown::color;
use makepad_host::qr_scan::{scanned, ScanState};

/// Metres between two places.
fn metres(a: (f64, f64), b: (f64, f64)) -> f64 {
    let (la, lo, lb, lp) = (a.0.to_radians(), a.1.to_radians(), b.0.to_radians(), b.1.to_radians());
    let h = ((lb - la) / 2.0).sin().powi(2) + la.cos() * lb.cos() * ((lp - lo) / 2.0).sin().powi(2);
    6371000.0 * 2.0 * h.sqrt().asin()
}

/// A fix, as a host hands it on: whether the epoch was bumped.
fn set_fix(state: &mut GpsState, lat: f64, lon: f64, acc: f32) -> bool {
    let valid = lat.is_finite() && lon.is_finite() && lat.abs() <= 90.0 && lon.abs() <= 180.0;
    let far = state.epoch_fix.map_or(true, |p| {
        metres((f64::from_bits(p.lat), f64::from_bits(p.lon)), (lat, lon)) >= 40.0
    });
    let fix = GpsFix { lat: lat.to_bits(), lon: lon.to_bits(), acc: acc.to_bits() };
    state.set_gps_fix(fix, valid, far).bump_epoch
}

#[test]
fn a_fix_bumps_the_epoch_only_when_it_moved() {
    let mut state = GpsState::new();
    let mut epoch = 0;
    let mut set = |epoch: &mut i32, lat: f64, lon: f64| {
        if set_fix(&mut state, lat, lon, 8.0) {
            *epoch += 1;
        }
        state.last_gps_fix()
    };
    let before = epoch;
    set(&mut epoch, 37.2600, -122.0300);
    assert!(epoch > before, "the first fix must bump");

    let settled = epoch;
    set(&mut epoch, 37.260090, -122.030000);
    assert_eq!(epoch, settled, "drift must not re-resolve every card");

    for i in 2..=4 {
        set(&mut epoch, 37.2600 + i as f64 * 0.00009, -122.0300);
    }
    assert!(epoch > settled, "cumulative movement must refresh data");
    let settled = epoch;
    let last = set(&mut epoch, f64::NAN, -122.03);
    assert_eq!(epoch, settled);
    assert!(f64::from_bits(last.unwrap().lat).is_finite());

    set(&mut epoch, 37.260900, -122.030000);
    assert!(epoch > settled, "real movement must refresh the banner");
}

#[test]
fn an_injected_track_owns_the_position() {
    let mut state = GpsState::new();
    let fix = GpsFix { lat: 1, lon: 2, acc: 3 };
    assert!(state.set_gps_fix_from_listener(fix, true, true).wake);
    claim_fake_gps(&mut state);
    let other = GpsFix { lat: 4, lon: 5, acc: 6 };
    let news = state.set_gps_fix_from_listener(other, true, true);
    assert!(!news.wake && !news.bump_epoch);
    assert_eq!(state.last_gps_fix(), Some(fix));
    assert!(state.set_gps_fix(other, true, true).wake);
}

#[test]
fn an_explicit_home_wins_then_the_platform_directory_then_the_user_home() {
    let p = |s: &str| Some(s.to_string());
    assert_eq!(resolve_home(p("/custom"), p("/data/app/files/.makepad"), p("/home/me"), "/tmp"), "/custom");
    assert_eq!(
        resolve_home(None, p("/data/app/files/.makepad"), p("/"), "/tmp"),
        "/data/app/files/.makepad",
        "Android: the files directory, not the read-only HOME"
    );
    assert_eq!(resolve_home(None, None, p("/home/me"), "/tmp"), "/home/me/.makepad");
    assert_eq!(resolve_home(None, None, None, "/tmp"), "/tmp/.makepad");
}

#[test]
fn the_first_platform_directory_stays() {
    let mut slot = PlatformDataDir::new();
    set_platform_data_dir(&mut slot, "");
    assert_eq!(platform_data_dir(&slot), None);
    set_platform_data_dir(&mut slot, "/data/app/files");
    set_platform_data_dir(&mut slot, "/elsewhere");
    assert_eq!(platform_data_dir(&slot).as_deref(), Some("/data/app/files"));
    assert_eq!(makepad_home(&slot, None, None, "/tmp"), "/data/app/files/.makepad");
    assert_eq!(storage_dir(&slot, None, None, "/tmp"), "/data/app/files/.makepad/storage");
}

#[test]
fn scans_are_measured_and_cancellations_counted() {
    assert_eq!(scanned("héllo"), "Scanned 5 chars (6 bytes)");
    let mut state = ScanState { cancel_count: 0 };
    assert_eq!(state.cancelled("unsupported"), "Cancelled: 1 (last reason: unsupported)");
    assert_eq!(state.cancelled("closed"), "Cancelled: 2 (last reason: closed)");
}

#[test]
fn colors_have_four_bytes() {
    let c = color(0x99aabbcc);
    assert_eq!((c.red, c.green, c.blue, c.alpha), (0xaa, 0xbb, 0xcc, 255));
}
