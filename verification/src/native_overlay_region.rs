//! Installation of the clickable shape of a native overlay window.
use vstd::prelude::*;

verus! {

/// A rectangle in physical window pixels.
#[derive(Clone, Copy, Debug, PartialEq, Eq, Structural)]
pub struct PhysicalRegion {
    pub left: i32,
    pub top: i32,
    pub right: i32,
    pub bottom: i32,
}

impl PhysicalRegion {
    pub open spec fn valid(self) -> bool {
        self.left >= 0 && self.top >= 0 && self.right > self.left && self.bottom > self.top
    }

    /// A region is valid when it starts at non-negative coordinates and is not empty.
    pub fn is_valid(self) -> (r: bool)
        ensures
            r == self.valid(),
    {
        self.left >= 0 && self.top >= 0 && self.right > self.left && self.bottom > self.top
    }
}

#[derive(Clone, Copy, Debug, PartialEq, Eq, Structural)]
pub enum NativeRegionError {
    InvalidWindow,
    InvalidRegion,
    AllocationFailed,
    CombinationFailed,
    InstallationFailed,
    Unsupported,
}

impl NativeRegionError {
    /// The message that describes the error.
    pub fn message(&self) -> (r: &'static str)
        ensures
            *self == NativeRegionError::InvalidWindow ==> r@ == "invalid native window handle"@,
            *self == NativeRegionError::InvalidRegion ==> r@ == "invalid physical region"@,
            *self == NativeRegionError::AllocationFailed ==> r@
                == "native region allocation failed"@,
            *self == NativeRegionError::CombinationFailed ==> r@
                == "native region combination failed"@,
            *self == NativeRegionError::InstallationFailed ==> r@
                == "native region installation failed"@,
            *self == NativeRegionError::Unsupported ==> r@
                == "native overlay regions are unsupported"@,
    {
        match self {
            NativeRegionError::InvalidWindow => "invalid native window handle",
            NativeRegionError::InvalidRegion => "invalid physical region",
            NativeRegionError::AllocationFailed => "native region allocation failed",
            NativeRegionError::CombinationFailed => "native region combination failed",
            NativeRegionError::InstallationFailed => "native region installation failed",
            NativeRegionError::Unsupported => "native overlay regions are unsupported",
        }
    }
}

/// Installs and resets the shape of a native window; the platform provides one, and tests
/// provide recording ones.
pub trait NativeRegionInstaller {
    fn install(&self, native_window: isize, regions: &[PhysicalRegion]) -> Result<
        (),
        NativeRegionError,
    >;

    fn reset(&self, native_window: isize) -> Result<(), NativeRegionError>;
}

/// What an installer checks before it touches a window: a non-null handle, then valid regions.
pub open spec fn install_request_check(native_window: isize, regions: Seq<PhysicalRegion>) -> Result<
    (),
    NativeRegionError,
> {
    if native_window == 0 {
        Err(NativeRegionError::InvalidWindow)
    } else if exists|k: int| 0 <= k < regions.len() && !(#[trigger] regions[k]).valid() {
        Err(NativeRegionError::InvalidRegion)
    } else {
        Ok(())
    }
}

/// Checks an installation request before any native call.
pub fn check_install_request(native_window: isize, regions: &[PhysicalRegion]) -> (r: Result<
    (),
    NativeRegionError,
>)
    ensures
        r == install_request_check(native_window, regions@),
{
    if native_window == 0 {
        return Err(NativeRegionError::InvalidWindow);
    }
    let mut i: usize = 0;
    while i < regions.len()
        invariant
            native_window != 0,
            i <= regions@.len(),
            forall|k: int| 0 <= k < i ==> (#[trigger] regions@[k]).valid(),
        decreases regions@.len() - i,
    {
        if !regions[i].is_valid() {
            assert(0 <= i < regions@.len() && !(regions@[i as int]).valid());
            assert(exists|k: int| 0 <= k < regions@.len() && !(#[trigger] regions@[k]).valid());
            return Err(NativeRegionError::InvalidRegion);
        }
        i = i + 1;
    }
    Ok(())
}

/// What a reset checks before it touches a window: a non-null handle.
pub fn check_reset_request(native_window: isize) -> (r: Result<(), NativeRegionError>)
    ensures
        r is Err <==> native_window == 0,
        r is Err ==> r == Err::<(), NativeRegionError>(NativeRegionError::InvalidWindow),
{
    if native_window == 0 {
        Err(NativeRegionError::InvalidWindow)
    } else {
        Ok(())
    }
}

/// Installs `regions` on the window through `installer`, handing it the window and the
/// regions unchanged, and reports what it reports.
pub fn install_with<I: NativeRegionInstaller>(
    installer: &I,
    native_window: isize,
    regions: &[PhysicalRegion],
) -> (r: Result<(), NativeRegionError>)
    ensures
        call_ensures(I::install, (installer, native_window, regions), r),
{
    installer.install(native_window, regions)
}

/// Restores the window's full shape through `installer`, handing it the window unchanged,
/// and reports what it reports.
pub fn reset_with<I: NativeRegionInstaller>(installer: &I, native_window: isize) -> (r: Result<
    (),
    NativeRegionError,
>)
    ensures
        call_ensures(I::reset, (installer, native_window), r),
{
    installer.reset(native_window)
}

} // verus!
