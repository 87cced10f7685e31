use std::sync::Mutex;

use aip_desktop::native_overlay_region::{
    check_install_request, check_reset_request, install_with, reset_with, NativeRegionError,
    NativeRegionInstaller, PhysicalRegion,
};

#[derive(Default)]
struct RecordingInstaller {
    installs: Mutex<Vec<Vec<PhysicalRegion>>>,
    resets: Mutex<usize>,
    fail: bool,
}

impl NativeRegionInstaller for RecordingInstaller {
    fn install(
        &self,
        _native_window: isize,
        regions: &[PhysicalRegion],
    ) -> Result<(), NativeRegionError> {
        if self.fail {
            return Err(NativeRegionError::InstallationFailed);
        }
        self.installs
            .lock()
            .expect("recording installer lock should remain valid")
            .push(regions.to_vec());
        Ok(())
    }

    fn reset(&self, _native_window: isize) -> Result<(), NativeRegionError> {
        *self
            .resets
            .lock()
            .expect("recording installer lock should remain valid") += 1;
        Ok(())
    }
}

#[test]
fn native_adapter_maps_empty_and_interactive_shapes() {
    let installer = RecordingInstaller::default();
    install_with(&installer, 1, &[]).expect("empty pass-through shape should install");
    let painted = PhysicalRegion {
        left: 20,
        top: 10,
        right: 40,
        bottom: 30,
    };
    install_with(&installer, 1, &[painted]).expect("interactive painted shape should install");
    assert_eq!(
        *installer
            .installs
            .lock()
            .expect("recording installer lock should remain valid"),
        vec![vec![], vec![painted]]
    );
}

#[test]
fn native_adapter_propagates_installation_failure() {
    let installer = RecordingInstaller {
        installs: Mutex::new(Vec::new()),
        resets: Mutex::new(0),
        fail: true,
    };
    assert_eq!(
        install_with(&installer, 1, &[]),
        Err(NativeRegionError::InstallationFailed)
    );
}

#[test]
fn native_adapter_releases_region_state_on_teardown() {
    let installer = RecordingInstaller::default();
    reset_with(&installer, 1).expect("native shape should reset");
    assert_eq!(
        *installer
            .resets
            .lock()
            .expect("recording installer lock should remain valid"),
        1
    );
}

#[test]
fn native_requests_reject_null_windows_and_empty_regions() {
    let painted = PhysicalRegion { left: 20, top: 10, right: 40, bottom: 30 };
    let empty = PhysicalRegion { left: 20, top: 10, right: 20, bottom: 30 };
    let negative = PhysicalRegion { left: -1, top: 10, right: 20, bottom: 30 };
    assert!(painted.is_valid());
    assert!(!empty.is_valid());
    assert!(!negative.is_valid());
    assert_eq!(check_install_request(0, &[painted]), Err(NativeRegionError::InvalidWindow));
    assert_eq!(check_install_request(7, &[painted, empty]), Err(NativeRegionError::InvalidRegion));
    assert_eq!(check_install_request(7, &[painted]), Ok(()));
    assert_eq!(check_install_request(7, &[]), Ok(()));
    assert_eq!(check_reset_request(0), Err(NativeRegionError::InvalidWindow));
    assert_eq!(check_reset_request(3), Ok(()));
}

#[test]
fn native_errors_describe_themselves() {
    assert_eq!(NativeRegionError::InvalidWindow.message(), "invalid native window handle");
    assert_eq!(NativeRegionError::InstallationFailed.message(), "native region installation failed");
    assert_eq!(NativeRegionError::Unsupported.message(), "native overlay regions are unsupported");
}
