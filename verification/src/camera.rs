//! The camera's pixel grid and field of view.

use vstd::prelude::*;

verus! {

/// Why a camera could not be built.
#[derive(Clone, Copy, Debug, PartialEq, Eq, Structural)]
pub enum CameraError {
    /// Fewer than two pixel columns: the horizontal step between pixels would
    /// divide by zero.
    Width,
    /// Fewer than two pixel rows: the vertical step between pixels would
    /// divide by zero.
    Height,
}

/// The configuration of a camera, as a value.
pub struct CameraView {
    /// Pixel columns.
    pub width: nat,
    /// Pixel rows.
    pub height: nat,
    /// Vertical field of view, in degrees.
    pub fov: nat,
}

impl CameraView {
    /// Both dimensions leave at least one step between the first and the last
    /// pixel.
    pub open spec fn wf(self) -> bool {
        self.width >= 2 && self.height >= 2
    }

    /// `(i, j)` names a pixel: column `i`, row `j`.
    pub open spec fn contains(self, i: nat, j: nat) -> bool {
        i < self.width && j < self.height
    }
}

/// What `Camera::new` returns for given dimensions: the width is looked at
/// first.
pub open spec fn checked_camera(width: u32, height: u32, fov: u16) -> Result<
    CameraView,
    CameraError,
> {
    if width < 2 {
        Err(CameraError::Width)
    } else if height < 2 {
        Err(CameraError::Height)
    } else {
        Ok(CameraView { width: width as nat, height: height as nat, fov: fov as nat })
    }
}

/// A pinhole camera's resolution and field of view. The lens looks down the
/// negative z axis; pixel `(0, 0)` is the top left corner of the image.
pub struct Camera {
    width: u32,
    height: u32,
    fov: u16,
}

impl View for Camera {
    type V = CameraView;

    closed spec fn view(&self) -> CameraView {
        CameraView { width: self.width as nat, height: self.height as nat, fov: self.fov as nat }
    }
}

impl Camera {
    #[verifier::type_invariant]
    spec fn inv(self) -> bool {
        self@.wf()
    }

    /// Builds a camera of `width` by `height` pixels with a vertical field of
    /// view of `fov` degrees. A dimension below two is refused.
    pub fn new(width: u32, height: u32, fov: u16) -> (camera: Result<Camera, CameraError>)
        ensures
            match camera {
                Ok(c) => checked_camera(width, height, fov) == Ok::<CameraView, CameraError>(c@),
                Err(e) => checked_camera(width, height, fov) == Err::<CameraView, CameraError>(e),
            },
    {
        if width < 2 {
            Err(CameraError::Width)
        } else if height < 2 {
            Err(CameraError::Height)
        } else {
            Ok(Camera { width, height, fov })
        }
    }

    /// Pixel columns; at least two.
    pub fn width(&self) -> (width: u32)
        ensures
            width == self@.width,
            width >= 2,
    {
        proof {
            use_type_invariant(self);
        }
        self.width
    }

    /// Pixel rows; at least two.
    pub fn height(&self) -> (height: u32)
        ensures
            height == self@.height,
            height >= 2,
    {
        proof {
            use_type_invariant(self);
        }
        self.height
    }

    /// Vertical field of view, in degrees, as it was given: the lens spans
    /// half of it above the optical axis and half below.
    pub fn fov(&self) -> (fov: u16)
        ensures
            fov == self@.fov,
    {
        self.fov
    }

    /// The number of steps from the first pixel to the last, along a row and
    /// along a column: the lens is divided by these, and neither is zero.
    pub fn steps(&self) -> (steps: (u32, u32))
        ensures
            steps.0 == self@.width - 1,
            steps.1 == self@.height - 1,
            steps.0 >= 1,
            steps.1 >= 1,
    {
        proof {
            use_type_invariant(self);
        }
        (self.width - 1, self.height - 1)
    }

    /// Whether `(i, j)` names a pixel of this camera, that is, whether a
    /// primary ray exists for it.
    pub fn contains(&self, i: u32, j: u32) -> (inside: bool)
        ensures
            inside == self@.contains(i as nat, j as nat),
    {
        i < self.width && j < self.height
    }
}

} // verus!
