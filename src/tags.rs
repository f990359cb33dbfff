//! Type tags and colors of the entities written to the replay log.
use vstd::prelude::*;
use crate::rig::str_eq;

verus! {

/// The set of type tags of an entity.
#[derive(Clone, Copy, Debug, PartialEq, Eq, Structural)]
pub struct TagSet {
    pub sea: bool,
    pub watercraft: bool,
    pub aircraft_carrier: bool,
    pub air: bool,
    pub fixed_wing: bool,
}

#[derive(Clone, Copy, Debug, PartialEq, Eq, Structural)]
pub enum Coalition {
    All,
    Neutral,
    Red,
    Blue,
}

#[derive(Clone, Copy, Debug, PartialEq, Eq, Structural)]
pub enum Color {
    Grey,
    Red,
    Blue,
}

pub open spec fn has_attr(attrs: Seq<String>, name: Seq<char>) -> bool {
    exists|i: int| 0 <= i < attrs.len() && (#[trigger] attrs[i])@ == name
}

/// The tags that a unit's attributes give: `Ships` makes it a watercraft at
/// sea, `AircraftCarrier` a carrier, `Air` an air unit and `Planes` a fixed-wing one.
pub open spec fn tags_of(attrs: Seq<String>) -> TagSet {
    TagSet {
        sea: has_attr(attrs, "Ships"@),
        watercraft: has_attr(attrs, "Ships"@),
        aircraft_carrier: has_attr(attrs, "AircraftCarrier"@),
        air: has_attr(attrs, "Air"@),
        fixed_wing: has_attr(attrs, "Planes"@),
    }
}

pub fn tags(attrs: &Vec<String>) -> (r: TagSet)
    ensures
        r == tags_of(attrs@),
{
    let mut r = TagSet { sea: false, watercraft: false, aircraft_carrier: false, air: false, fixed_wing: false };
    let mut i: usize = 0;
    while i < attrs.len()
        invariant
            i <= attrs@.len(),
            r == tags_of(attrs@.subrange(0, i as int)),
        decreases attrs@.len() - i,
    {
        let a = attrs[i].as_str();
        let ghost before = attrs@.subrange(0, i as int);
        let ghost after = attrs@.subrange(0, i + 1);
        proof {
            reveal_strlit("Ships");
            reveal_strlit("AircraftCarrier");
            reveal_strlit("Air");
            reveal_strlit("Planes");
            assert("Ships"@.len() != "Air"@.len());
            assert("Ships"@.len() != "Planes"@.len());
            assert("Ships"@.len() != "AircraftCarrier"@.len());
            assert("Air"@.len() != "Planes"@.len());
            assert("Air"@.len() != "AircraftCarrier"@.len());
            assert("Planes"@.len() != "AircraftCarrier"@.len());
            assert forall|name: Seq<char>| #[trigger] has_attr(after, name) == (has_attr(before, name)
                || attrs@[i as int]@ == name) by {
                if has_attr(after, name) && !(attrs@[i as int]@ == name) {
                    let j = choose|j: int| 0 <= j < after.len() && (#[trigger] after[j])@ == name;
                    assert(before[j] == after[j]);
                }
                if has_attr(before, name) {
                    let j = choose|j: int| 0 <= j < before.len() && (#[trigger] before[j])@ == name;
                    assert(before[j] == after[j]);
                }
                if attrs@[i as int]@ == name {
                    assert(after[i as int] == attrs@[i as int]);
                }
            }
        }
        if str_eq(a, "Ships") {
            r.sea = true;
            r.watercraft = true;
        } else if str_eq(a, "AircraftCarrier") {
            r.aircraft_carrier = true;
        } else if str_eq(a, "Air") {
            r.air = true;
        } else if str_eq(a, "Planes") {
            r.fixed_wing = true;
        }
        i = i + 1;
    }
    proof {
        assert(attrs@.subrange(0, i as int) =~= attrs@);
    }
    r
}

pub open spec fn color_spec(c: Coalition) -> Color {
    match c {
        Coalition::All | Coalition::Neutral => Color::Grey,
        Coalition::Red => Color::Red,
        Coalition::Blue => Color::Blue,
    }
}

/// The color of a coalition: grey for neutral units.
pub fn color(coalition: Coalition) -> (r: Color)
    ensures
        r == color_spec(coalition),
{
    match coalition {
        Coalition::All | Coalition::Neutral => Color::Grey,
        Coalition::Red => Color::Red,
        Coalition::Blue => Color::Blue,
    }
}

} // verus!
