//! Reference frames: the bodies at their centre and the orientation of their axes.

use crate::text::{integer_in_three, padded, signed_decimal};
use vstd::prelude::*;

verus! {

/// A reference frame. The physical constants of a body are of the type `R`, which
/// the frame carries and never computes with.
#[derive(Clone, Copy, Debug, PartialEq)]
pub enum Frame<R> {
    /// Any celestial frame which only has a gravitational parameter.
    Celestial { axb_id: i32, exb_id: i32, gm: R, parent_axb_id: Option<i32>, parent_exb_id: Option<i32> },
    /// Any geoid, which has a gravitational parameter, a flattening and two radii.
    Geoid {
        axb_id: i32,
        exb_id: i32,
        gm: R,
        parent_axb_id: Option<i32>,
        parent_exb_id: Option<i32>,
        flattening: R,
        equatorial_radius: R,
        semi_major_radius: R,
    },
    /// Velocity, normal, cross.
    VNC,
    /// Radial, cross, normal.
    RCN,
    /// Radial, in-track, normal.
    RIC,
}

/// The name of the body with the identifier `exb_id`: its usual name where it has
/// one, and else the identifier in three characters.
pub open spec fn body_name(exb_id: i32) -> Seq<char> {
    if exb_id == 0 {
        "SSB"@
    } else if exb_id == 10 {
        "Sun"@
    } else if exb_id == 100 {
        "Mercury"@
    } else if exb_id == 200 {
        "Venus"@
    } else if exb_id == 300 {
        "Earth-Moon barycenter"@
    } else if exb_id == 399 {
        "Earth"@
    } else if exb_id == 400 {
        "Mars barycenter"@
    } else if exb_id == 500 {
        "Jupiter barycenter"@
    } else if exb_id == 600 {
        "Saturn barycenter"@
    } else if exb_id == 700 {
        "Uranus barycenter"@
    } else if exb_id == 800 {
        "Neptune barycenter"@
    } else {
        padded(signed_decimal(exb_id as int), 3)
    }
}

/// The hundreds of an identifier, rounded toward zero.
pub open spec fn hundreds(id: i32) -> int {
    if id >= 0 {
        id as int / 100
    } else {
        -((-(id as int)) / 100)
    }
}

/// The name of the orientation with the identifier `axb_id`, about the body with
/// the identifier `exb_id`: a body-fixed one where the two are equal or 99 apart,
/// and else the one that the hundreds of `axb_id` name.
pub open spec fn orientation_name(axb_id: i32, exb_id: i32) -> Seq<char> {
    if axb_id == exb_id || exb_id - axb_id == 99 {
        "IAU Fixed"@
    } else if hundreds(axb_id) == 0 {
        "J2000"@
    } else if hundreds(axb_id) == 10 {
        "IAU Sun"@
    } else if hundreds(axb_id) == 1 {
        "Mercury IAU Fixed"@
    } else if hundreds(axb_id) == 2 {
        "Venus IAU Fixed"@
    } else if hundreds(axb_id) == 3 {
        "Earth IAU Fixed"@
    } else if hundreds(axb_id) == 4 {
        "Mars IAU Fixed"@
    } else if hundreds(axb_id) == 5 {
        "Jupiter IAU Fixed"@
    } else if hundreds(axb_id) == 6 {
        "Saturn IAU Fixed"@
    } else if hundreds(axb_id) == 7 {
        "Uranus IAU Fixed"@
    } else if hundreds(axb_id) == 8 {
        "Neptune IAU Fixed"@
    } else {
        padded(signed_decimal(axb_id as int), 3)
    }
}

/// The name of a frame: the body and the orientation of one that has them, and
/// the letters of a local frame.
pub open spec fn frame_name<R>(frame: Frame<R>) -> Seq<char> {
    match frame {
        Frame::Celestial { axb_id, exb_id, .. } => body_name(exb_id) + " "@ + orientation_name(
            axb_id,
            exb_id,
        ),
        Frame::Geoid { axb_id, exb_id, .. } => body_name(exb_id) + " "@ + orientation_name(
            axb_id,
            exb_id,
        ),
        Frame::VNC => "VNC"@,
        Frame::RCN => "RCN"@,
        Frame::RIC => "RIC"@,
    }
}

fn body_text(exb_id: i32) -> (r: String)
    ensures
        r@ == body_name(exb_id),
{
    if exb_id == 0 {
        String::from_str("SSB")
    } else if exb_id == 10 {
        String::from_str("Sun")
    } else if exb_id == 100 {
        String::from_str("Mercury")
    } else if exb_id == 200 {
        String::from_str("Venus")
    } else if exb_id == 300 {
        String::from_str("Earth-Moon barycenter")
    } else if exb_id == 399 {
        String::from_str("Earth")
    } else if exb_id == 400 {
        String::from_str("Mars barycenter")
    } else if exb_id == 500 {
        String::from_str("Jupiter barycenter")
    } else if exb_id == 600 {
        String::from_str("Saturn barycenter")
    } else if exb_id == 700 {
        String::from_str("Uranus barycenter")
    } else if exb_id == 800 {
        String::from_str("Neptune barycenter")
    } else {
        integer_in_three(exb_id)
    }
}

fn orientation_text(axb_id: i32, exb_id: i32) -> (r: String)
    ensures
        r@ == orientation_name(axb_id, exb_id),
{
    let apart: i64 = exb_id as i64 - axb_id as i64;
    if axb_id == exb_id || apart == 99 {
        return String::from_str("IAU Fixed");
    }
    let h: i32 = axb_id / 100;
    assert(h == hundreds(axb_id));
    if h == 0 {
        String::from_str("J2000")
    } else if h == 10 {
        String::from_str("IAU Sun")
    } else if h == 1 {
        String::from_str("Mercury IAU Fixed")
    } else if h == 2 {
        String::from_str("Venus IAU Fixed")
    } else if h == 3 {
        String::from_str("Earth IAU Fixed")
    } else if h == 4 {
        String::from_str("Mars IAU Fixed")
    } else if h == 5 {
        String::from_str("Jupiter IAU Fixed")
    } else if h == 6 {
        String::from_str("Saturn IAU Fixed")
    } else if h == 7 {
        String::from_str("Uranus IAU Fixed")
    } else if h == 8 {
        String::from_str("Neptune IAU Fixed")
    } else {
        integer_in_three(axb_id)
    }
}

impl<R: Copy> Frame<R> {
    /// Whether the frame is centred on a body: a celestial frame or a geoid.
    pub open spec fn has_body(self) -> bool {
        self is Celestial || self is Geoid
    }

    /// Whether the frame is a geoid.
    pub fn is_geoid(&self) -> (r: bool)
        ensures
            r == (*self is Geoid),
    {
        match self {
            Frame::Geoid { .. } => true,
            _ => false,
        }
    }

    /// Whether the frame is a celestial frame that is no geoid.
    pub fn is_celestial(&self) -> (r: bool)
        ensures
            r == (*self is Celestial),
    {
        match self {
            Frame::Celestial { .. } => true,
            _ => false,
        }
    }

    /// The gravitational parameter of the body.
    pub fn gm(&self) -> (r: R)
        requires
            self.has_body(),
        ensures
            *self matches Frame::Celestial { gm, .. } ==> r == gm,
            *self matches Frame::Geoid { gm, .. } ==> r == gm,
    {
        match self {
            Frame::Celestial { gm, .. } => *gm,
            Frame::Geoid { gm, .. } => *gm,
            _ => vstd::pervasive::unreached(),
        }
    }

    /// The equatorial radius of a geoid.
    pub fn equatorial_radius(&self) -> (r: R)
        requires
            *self is Geoid,
        ensures
            *self matches Frame::Geoid { equatorial_radius, .. } ==> r == equatorial_radius,
    {
        match self {
            Frame::Geoid { equatorial_radius, .. } => *equatorial_radius,
            _ => vstd::pervasive::unreached(),
        }
    }

    /// The flattening of a geoid.
    pub fn flattening(&self) -> (r: R)
        requires
            *self is Geoid,
        ensures
            *self matches Frame::Geoid { flattening, .. } ==> r == flattening,
    {
        match self {
            Frame::Geoid { flattening, .. } => *flattening,
            _ => vstd::pervasive::unreached(),
        }
    }

    /// The semi-major radius of a geoid.
    pub fn semi_major_radius(&self) -> (r: R)
        requires
            *self is Geoid,
        ensures
            *self matches Frame::Geoid { semi_major_radius, .. } ==> r == semi_major_radius,
    {
        match self {
            Frame::Geoid { semi_major_radius, .. } => *semi_major_radius,
            _ => vstd::pervasive::unreached(),
        }
    }

    /// The identifier of the orientation of the axes.
    pub fn axb_id(&self) -> (r: i32)
        requires
            self.has_body(),
        ensures
            *self matches Frame::Celestial { axb_id, .. } ==> r == axb_id,
            *self matches Frame::Geoid { axb_id, .. } ==> r == axb_id,
    {
        match self {
            Frame::Celestial { axb_id, .. } => *axb_id,
            Frame::Geoid { axb_id, .. } => *axb_id,
            _ => vstd::pervasive::unreached(),
        }
    }

    /// The identifier of the body at the centre.
    pub fn exb_id(&self) -> (r: i32)
        requires
            self.has_body(),
        ensures
            *self matches Frame::Celestial { exb_id, .. } ==> r == exb_id,
            *self matches Frame::Geoid { exb_id, .. } ==> r == exb_id,
    {
        match self {
            Frame::Celestial { exb_id, .. } => *exb_id,
            Frame::Geoid { exb_id, .. } => *exb_id,
            _ => vstd::pervasive::unreached(),
        }
    }

    /// The identifier of the orientation from which this one is defined.
    pub fn parent_axb_id(&self) -> (r: Option<i32>)
        requires
            self.has_body(),
        ensures
            *self matches Frame::Celestial { parent_axb_id, .. } ==> r == parent_axb_id,
            *self matches Frame::Geoid { parent_axb_id, .. } ==> r == parent_axb_id,
    {
        match self {
            Frame::Celestial { parent_axb_id, .. } => *parent_axb_id,
            Frame::Geoid { parent_axb_id, .. } => *parent_axb_id,
            _ => vstd::pervasive::unreached(),
        }
    }

    /// The identifier of the body about which this one moves.
    pub fn parent_exb_id(&self) -> (r: Option<i32>)
        requires
            self.has_body(),
        ensures
            *self matches Frame::Celestial { parent_exb_id, .. } ==> r == parent_exb_id,
            *self matches Frame::Geoid { parent_exb_id, .. } ==> r == parent_exb_id,
    {
        match self {
            Frame::Celestial { parent_exb_id, .. } => *parent_exb_id,
            Frame::Geoid { parent_exb_id, .. } => *parent_exb_id,
            _ => vstd::pervasive::unreached(),
        }
    }

    /// The name of the frame.
    pub fn name(&self) -> (r: String)
        ensures
            r@ == frame_name(*self),
    {
        match self {
            Frame::Celestial { axb_id, exb_id, .. } => {
                let orientation = orientation_text(*axb_id, *exb_id);
                body_text(*exb_id).concat(" ").concat(orientation.as_str())
            },
            Frame::Geoid { axb_id, exb_id, .. } => {
                let orientation = orientation_text(*axb_id, *exb_id);
                body_text(*exb_id).concat(" ").concat(orientation.as_str())
            },
            Frame::VNC => String::from_str("VNC"),
            Frame::RCN => String::from_str("RCN"),
            Frame::RIC => String::from_str("RIC"),
        }
    }
}

} // verus!
