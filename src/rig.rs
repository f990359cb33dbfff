//! Static rig geometry of the supported carriers and airplanes.
//!
//! Positions are platform-relative, in millimetres, with +z pointing to the
//! bow and +y up.
use vstd::prelude::*;
use crate::geometry::{Point, Turn, Vec3, UNIT, div_trunc, div_trunc_exec};

verus! {

/// A pair of pendant end points of one arresting wire.
#[derive(Clone, Copy, Debug, PartialEq, Eq, Structural)]
pub struct Pendants {
    pub left: Vec3,
    pub right: Vec3,
}

#[derive(Clone, Copy, Debug, PartialEq, Eq, Structural)]
pub struct CarrierInfo {
    /// Counter-clockwise offset from the base course to the landing area, in
    /// ten-thousandths of a degree.
    pub deck_angle: i64,
    /// The turn by the deck angle: turns the heading onto the landing area.
    pub deck_turn: Turn,
    /// The turn applied to the carrier's forward vector to give the axis along
    /// which touchdown is compared with the wires; it points aft along the
    /// landing area.
    pub arrest_turn: Turn,
    /// Height of the deck, in millimetres.
    pub deck_altitude: i64,
    pub cable1: Pendants,
    pub cable2: Pendants,
    pub cable3: Pendants,
    pub cable4: Pendants,
}

/// A qualitative rating of the angle of attack.
#[derive(Clone, Copy, Debug, PartialEq, Eq, Structural)]
pub enum Aoa {
    Fast,
    SlightlyFast,
    OnSpeed,
    SlightlySlow,
    Slow,
}

/// The angle-of-attack brackets of one airplane, in hundredths of a degree.
#[derive(Clone, Copy, Debug, PartialEq, Eq, Structural)]
pub struct AoaBrackets {
    /// At most this is fast.
    pub fast: i64,
    /// At most this (and above `fast`) is slightly fast.
    pub slightly_fast: i64,
    /// Below this (and above `slightly_fast`) is on speed.
    pub on_speed: i64,
    /// Below this (and at least `on_speed`) is slightly slow; from here on slow.
    pub slightly_slow: i64,
}

#[derive(Clone, Copy, Debug, PartialEq, Eq, Structural)]
pub struct AirplaneInfo {
    /// Hook position relative to the airplane's origin, in millimetres.
    pub hook: Vec3,
    /// The optimal glide slope, in tenths of a degree.
    pub glide_slope: i64,
    /// The pitch-down turn by the glide slope (within the y/z plane).
    pub glide_turn: Turn,
    pub aoa: AoaBrackets,
}

pub open spec fn pendants(l: (i64, i64, i64), r: (i64, i64, i64)) -> Pendants {
    Pendants {
        left: Vec3 { x: l.0, y: l.1, z: l.2 },
        right: Vec3 { x: r.0, y: r.1, z: r.2 },
    }
}

/// Nimitz class carriers.
pub open spec fn nimitz() -> CarrierInfo {
    CarrierInfo {
        deck_angle: 91359,
        deck_turn: Turn { cos: 987315, sin: 158777 },
        arrest_turn: Turn { cos: -958564i64, sin: -284877i64 },
        deck_altitude: 20149,
        cable1: pendants((-17622i64, 20202, -112129i64), (18445, 20202, -106040i64)),
        cable2: pendants((-19585i64, 20202, -99914i64), (16520, 20202, -93864i64)),
        cable3: pendants((-21579i64, 20202, -87524i64), (14471, 20202, -81400i64)),
        cable4: pendants((-23610i64, 20202, -74960i64), (12445, 20202, -68854i64)),
    }
}

/// The Forrestal.
pub open spec fn forrestal() -> CarrierInfo {
    CarrierInfo {
        deck_angle: 94200,
        deck_turn: Turn { cos: 986515, sin: 163670 },
        arrest_turn: Turn { cos: -999989i64, sin: -4778i64 },
        deck_altitude: 18460,
        cable1: pendants((-17749i64, 18474, -96792i64), (17089, 18474, -90162i64)),
        cable2: pendants((-19517i64, 18475, -87193i64), (15312, 18475, -80510i64)),
        cable3: pendants((-21247i64, 18482, -76619i64), (13583, 18482, -69941i64)),
        cable4: pendants((-23128i64, 18492, -66397i64), (11704, 18492, -59733i64)),
    }
}

pub open spec fn hornet_brackets() -> AoaBrackets {
    AoaBrackets { fast: 690, slightly_fast: 740, on_speed: 880, slightly_slow: 930 }
}

pub open spec fn fa18c() -> AirplaneInfo {
    AirplaneInfo {
        hook: Vec3 { x: 0, y: -2241i64, z: -7237i64 },
        glide_slope: 35,
        glide_turn: Turn { cos: 998135, sin: -61049i64 },
        aoa: hornet_brackets(),
    }
}

pub open spec fn f14() -> AirplaneInfo {
    AirplaneInfo {
        hook: Vec3 { x: 0, y: -1979i64, z: -6564i64 },
        glide_slope: 35,
        glide_turn: Turn { cos: 998135, sin: -61049i64 },
        aoa: AoaBrackets { fast: 970, slightly_fast: 1020, on_speed: 1110, slightly_slow: 1160 },
    }
}

/// The T-45 uses the brackets of the F/A-18C.
pub open spec fn t45() -> AirplaneInfo {
    AirplaneInfo {
        hook: Vec3 { x: 0, y: -1779i64, z: -4783i64 },
        glide_slope: 35,
        glide_turn: Turn { cos: 998135, sin: -61049i64 },
        aoa: hornet_brackets(),
    }
}

/// The carrier rig of a unit type, if it is supported.
pub open spec fn carrier_of_type(t: Seq<char>) -> Option<CarrierInfo> {
    if t == "CVN_71"@ || t == "CVN_72"@ || t == "CVN_73"@ || t == "CVN_75"@ || t == "Stennis"@ {
        Some(nimitz())
    } else if t == "Forrestal"@ {
        Some(forrestal())
    } else {
        None
    }
}

/// The airplane rig of a unit type, if it is supported.
pub open spec fn airplane_of_type(t: Seq<char>) -> Option<AirplaneInfo> {
    if t == "FA-18C_hornet"@ {
        Some(fa18c())
    } else if t == "F-14A-135-GR"@ || t == "F-14B"@ {
        Some(f14())
    } else if t == "T-45"@ {
        Some(t45())
    } else {
        None
    }
}

pub open spec fn rate_aoa(b: AoaBrackets, aoa: int) -> Aoa {
    if aoa <= b.fast {
        Aoa::Fast
    } else if aoa <= b.slightly_fast {
        Aoa::SlightlyFast
    } else if aoa < b.on_speed {
        Aoa::OnSpeed
    } else if aoa < b.slightly_slow {
        Aoa::SlightlySlow
    } else {
        Aoa::Slow
    }
}

/// Pendant end points and the hook lie within this many millimetres of the origin.
pub const RIG_LIMIT: i64 = 1_000_000;

impl Pendants {
    pub open spec fn wf(self) -> bool {
        self.left.bounded(RIG_LIMIT as int) && self.right.bounded(RIG_LIMIT as int)
    }

    /// The middle of the wire, as `left - (left - right) / 2`.
    pub open spec fn mid(self) -> Point {
        Point {
            x: self.left.x - div_trunc(self.left.x - self.right.x, 2),
            y: self.left.y - div_trunc(self.left.y - self.right.y, 2),
            z: self.left.z - div_trunc(self.left.z - self.right.z, 2),
        }
    }
}

impl CarrierInfo {
    pub open spec fn wf(self) -> bool {
        &&& self.deck_turn.wf()
        &&& self.arrest_turn.wf()
        &&& -RIG_LIMIT <= self.deck_altitude <= RIG_LIMIT
        &&& self.cable1.wf()
        &&& self.cable2.wf()
        &&& self.cable3.wf()
        &&& self.cable4.wf()
    }

    /// The wire with the given number (1 to 4).
    pub open spec fn cable(self, nr: int) -> Pendants {
        if nr == 1 {
            self.cable1
        } else if nr == 2 {
            self.cable2
        } else if nr == 3 {
            self.cable3
        } else {
            self.cable4
        }
    }

    /// The point halfway between the inboard end of the second wire and the
    /// outboard end of the third, where the hook should touch down.
    pub open spec fn touchdown_target(self) -> Point {
        Point {
            x: self.cable3.right.x + div_trunc(self.cable2.left.x - self.cable3.right.x, 2),
            y: self.cable3.right.y + div_trunc(self.cable2.left.y - self.cable3.right.y, 2),
            z: self.cable3.right.z + div_trunc(self.cable2.left.z - self.cable3.right.z, 2),
        }
    }

    /// Offset from the carrier's origin to where the optimal glide path of
    /// `plane` meets the deck: the touchdown target minus the hook offset pitched
    /// down by the glide slope.
    pub open spec fn landing_offset(self, plane: AirplaneInfo) -> Point {
        let t = self.touchdown_target();
        let h = plane.glide_hook();
        Point { x: t.x - h.x, y: t.y - h.y, z: t.z - h.z }
    }

    pub fn by_type(t: &str) -> (r: Option<CarrierInfo>)
        ensures
            r == carrier_of_type(t@),
            r matches Some(c) ==> c.wf(),
    {
        if str_eq(t, "CVN_71") || str_eq(t, "CVN_72") || str_eq(t, "CVN_73") || str_eq(t, "CVN_75")
            || str_eq(t, "Stennis") {
            Some(nimitz_info())
        } else if str_eq(t, "Forrestal") {
            Some(forrestal_info())
        } else {
            None
        }
    }

    /// Offset from the carrier's origin where the optimal glide path of `plane`
    /// hits the deck.
    pub fn optimal_landing_offset(&self, plane: &AirplaneInfo) -> (r: Vec3)
        requires
            self.wf(),
            plane.wf(),
        ensures
            r.point() == self.landing_offset(*plane),
            r.bounded(3 * RIG_LIMIT as int),
    {
        let h = plane.glide_hook_exec();
        let tx = self.cable3.right.x + div2(self.cable2.left.x - self.cable3.right.x);
        let ty = self.cable3.right.y + div2(self.cable2.left.y - self.cable3.right.y);
        let tz = self.cable3.right.z + div2(self.cable2.left.z - self.cable3.right.z);
        Vec3 { x: tx - h.x, y: ty - h.y, z: tz - h.z }
    }
}

impl AirplaneInfo {
    pub open spec fn wf(self) -> bool {
        self.hook.bounded(RIG_LIMIT as int) && self.glide_turn.wf()
    }

    /// The hook offset pitched down by the glide slope.
    pub open spec fn glide_hook(self) -> Point {
        let t = self.glide_turn;
        let h = self.hook;
        Point {
            x: h.x as int,
            y: div_trunc(t.cos * h.y - t.sin * h.z, UNIT as int),
            z: div_trunc(t.sin * h.y + t.cos * h.z, UNIT as int),
        }
    }

    pub fn glide_hook_exec(&self) -> (r: Vec3)
        requires
            self.wf(),
        ensures
            r.point() == self.glide_hook(),
            r.bounded(2 * RIG_LIMIT as int),
    {
        let t = self.glide_turn;
        let h = self.hook;
        proof {
            crate::geometry::lemma_mul_bound(t.cos as int, h.y as int, UNIT as int, RIG_LIMIT as int);
            crate::geometry::lemma_mul_bound(t.sin as int, h.z as int, UNIT as int, RIG_LIMIT as int);
            crate::geometry::lemma_mul_bound(t.sin as int, h.y as int, UNIT as int, RIG_LIMIT as int);
            crate::geometry::lemma_mul_bound(t.cos as int, h.z as int, UNIT as int, RIG_LIMIT as int);
        }
        let y = (t.cos as i128) * (h.y as i128) - (t.sin as i128) * (h.z as i128);
        let z = (t.sin as i128) * (h.y as i128) + (t.cos as i128) * (h.z as i128);
        let y = div_trunc_exec(y, UNIT as i128);
        let z = div_trunc_exec(z, UNIT as i128);
        proof {
            crate::geometry::lemma_div_trunc_bound(
                t.cos * h.y - t.sin * h.z, UNIT as int, 2 * UNIT * RIG_LIMIT);
            crate::geometry::lemma_div_trunc_bound(
                t.sin * h.y + t.cos * h.z, UNIT as int, 2 * UNIT * RIG_LIMIT);
            lemma_div_unit_shrinks(t.cos * h.y - t.sin * h.z);
            lemma_div_unit_shrinks(t.sin * h.y + t.cos * h.z);
        }
        Vec3 { x: h.x, y: y as i64, z: z as i64 }
    }

    pub fn by_type(t: &str) -> (r: Option<AirplaneInfo>)
        ensures
            r == airplane_of_type(t@),
            r matches Some(p) ==> p.wf(),
    {
        if str_eq(t, "FA-18C_hornet") {
            Some(fa18c_info())
        } else if str_eq(t, "F-14A-135-GR") || str_eq(t, "F-14B") {
            Some(f14_info())
        } else if str_eq(t, "T-45") {
            Some(t45_info())
        } else {
            None
        }
    }

    /// The rating of an angle of attack given in hundredths of a degree.
    pub fn aoa_rating(&self, aoa: i64) -> (r: Aoa)
        ensures
            r == rate_aoa(self.aoa, aoa as int),
    {
        let b = self.aoa;
        if aoa <= b.fast {
            Aoa::Fast
        } else if aoa <= b.slightly_fast {
            Aoa::SlightlyFast
        } else if aoa < b.on_speed {
            Aoa::OnSpeed
        } else if aoa < b.slightly_slow {
            Aoa::SlightlySlow
        } else {
            Aoa::Slow
        }
    }
}

proof fn lemma_div_unit_shrinks(a: int)
    requires
        -2i64 * UNIT * RIG_LIMIT <= a <= 2 * UNIT * RIG_LIMIT,
    ensures
        -2i64 * RIG_LIMIT <= div_trunc(a, UNIT as int) <= 2 * RIG_LIMIT,
{
    if a >= 0 {
        assert(a / (UNIT as int) <= 2 * RIG_LIMIT) by (nonlinear_arith)
            requires
                0 <= a <= 2 * UNIT * RIG_LIMIT,
        ;
        assert(a / (UNIT as int) >= 0) by (nonlinear_arith)
            requires
                0 <= a,
        ;
    } else {
        let b = -a;
        assert(b / (UNIT as int) <= 2 * RIG_LIMIT) by (nonlinear_arith)
            requires
                0 <= b <= 2 * UNIT * RIG_LIMIT,
        ;
        assert(b / (UNIT as int) >= 0) by (nonlinear_arith)
            requires
                0 <= b,
        ;
    }
}

/// Half of `a`, rounded toward zero.
fn div2(a: i64) -> (r: i64)
    requires
        -4i64 * RIG_LIMIT <= a <= 4 * RIG_LIMIT,
    ensures
        r == div_trunc(a as int, 2),
        -2i64 * RIG_LIMIT <= r <= 2 * RIG_LIMIT,
{
    if a >= 0 {
        a / 2
    } else {
        -((-a) / 2)
    }
}

/// Whether two strings hold the same characters.
pub fn str_eq(a: &str, b: &str) -> (r: bool)
    ensures
        r == (a@ == b@),
{
    let a = a.to_owned();
    let b = b.to_owned();
    a == b
}

fn pendants_exec(l: (i64, i64, i64), r: (i64, i64, i64)) -> (p: Pendants)
    ensures
        p == pendants(l, r),
{
    Pendants {
        left: Vec3 { x: l.0, y: l.1, z: l.2 },
        right: Vec3 { x: r.0, y: r.1, z: r.2 },
    }
}

fn nimitz_info() -> (r: CarrierInfo)
    ensures
        r == nimitz(),
{
    CarrierInfo {
        deck_angle: 91359,
        deck_turn: Turn { cos: 987315, sin: 158777 },
        arrest_turn: Turn { cos: -958564i64, sin: -284877i64 },
        deck_altitude: 20149,
        cable1: pendants_exec((-17622i64, 20202, -112129i64), (18445, 20202, -106040i64)),
        cable2: pendants_exec((-19585i64, 20202, -99914i64), (16520, 20202, -93864i64)),
        cable3: pendants_exec((-21579i64, 20202, -87524i64), (14471, 20202, -81400i64)),
        cable4: pendants_exec((-23610i64, 20202, -74960i64), (12445, 20202, -68854i64)),
    }
}

fn forrestal_info() -> (r: CarrierInfo)
    ensures
        r == forrestal(),
{
    CarrierInfo {
        deck_angle: 94200,
        deck_turn: Turn { cos: 986515, sin: 163670 },
        arrest_turn: Turn { cos: -999989i64, sin: -4778i64 },
        deck_altitude: 18460,
        cable1: pendants_exec((-17749i64, 18474, -96792i64), (17089, 18474, -90162i64)),
        cable2: pendants_exec((-19517i64, 18475, -87193i64), (15312, 18475, -80510i64)),
        cable3: pendants_exec((-21247i64, 18482, -76619i64), (13583, 18482, -69941i64)),
        cable4: pendants_exec((-23128i64, 18492, -66397i64), (11704, 18492, -59733i64)),
    }
}

fn hornet_brackets_exec() -> (r: AoaBrackets)
    ensures
        r == hornet_brackets(),
{
    AoaBrackets { fast: 690, slightly_fast: 740, on_speed: 880, slightly_slow: 930 }
}

fn fa18c_info() -> (r: AirplaneInfo)
    ensures
        r == fa18c(),
{
    AirplaneInfo {
        hook: Vec3 { x: 0, y: -2241i64, z: -7237i64 },
        glide_slope: 35,
        glide_turn: Turn { cos: 998135, sin: -61049i64 },
        aoa: hornet_brackets_exec(),
    }
}

fn f14_info() -> (r: AirplaneInfo)
    ensures
        r == f14(),
{
    AirplaneInfo {
        hook: Vec3 { x: 0, y: -1979i64, z: -6564i64 },
        glide_slope: 35,
        glide_turn: Turn { cos: 998135, sin: -61049i64 },
        aoa: AoaBrackets { fast: 970, slightly_fast: 1020, on_speed: 1110, slightly_slow: 1160 },
    }
}

fn t45_info() -> (r: AirplaneInfo)
    ensures
        r == t45(),
{
    AirplaneInfo {
        hook: Vec3 { x: 0, y: -1779i64, z: -4783i64 },
        glide_slope: 35,
        glide_turn: Turn { cos: 998135, sin: -61049i64 },
        aoa: hornet_brackets_exec(),
    }
}

} // verus!
