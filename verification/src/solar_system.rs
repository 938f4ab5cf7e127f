//! The bodies of the scene: their parameters, and where they are and how
//! they are turned at a given time.
//!
//! Orbits are circles in the plane `y = 0` around the origin.
use vstd::prelude::*;
use crate::fixed::UNIT;
use crate::fixed::clamp_i32;
use crate::fixed::div_floor;
use crate::fixed::limited;
use crate::fixed::mul_fixed;
use crate::fixed::mul_unit;
use crate::fixed::saturate;
use crate::fixed::saturated;
use crate::fragment_shaders::FragmentShader;
use crate::vector::Vec3;

verus! {

/// The kinds of body.
#[derive(Clone, Copy, Debug, PartialEq, Eq, Structural)]
pub enum CelestialBodyType {
    Star,
    RockyPlanet,
    GasGiant,
    Moon,
    Ring,
}

/// A moon of a body.
#[derive(Debug)]
pub struct Moon {
    pub name: String,
    pub radius: i32,
    pub orbit_radius: i32,
    pub orbit_speed: i32,
    pub initial_angle: i32,
}

/// A star or a planet, with its rings and moons.
#[derive(Debug)]
pub struct CelestialBody {
    pub name: String,
    pub body_type: CelestialBodyType,
    pub radius: i32,
    pub orbit_radius: i32,
    /// Radians per second along the orbit.
    pub orbit_speed: i32,
    /// Radians per second about the body's own axis.
    pub rotation_speed: i32,
    /// Angle along the orbit at time zero.
    pub initial_angle: i32,
    pub shader: FragmentShader,
    pub has_rings: bool,
    pub ring_inner: i32,
    pub ring_outer: i32,
    pub moons: Vec<Moon>,
}

/// The bodies and the time that has passed.
#[derive(Debug)]
pub struct SolarSystem {
    pub bodies: Vec<CelestialBody>,
    pub time: i32,
}

/// The surface shader of a kind of body.
pub open spec fn shader_for(body_type: CelestialBodyType) -> FragmentShader {
    match body_type {
        CelestialBodyType::Star => FragmentShader::Star,
        CelestialBodyType::RockyPlanet => FragmentShader::RockyPlanet,
        CelestialBodyType::GasGiant => FragmentShader::GasGiant,
        CelestialBodyType::Moon => FragmentShader::Moon,
        CelestialBodyType::Ring => FragmentShader::Ring,
    }
}

/// The angle along an orbit at a time: the initial angle plus speed times
/// time, limited to the range of a scalar.
pub open spec fn orbit_angle(initial_angle: int, orbit_speed: int, time: int) -> int {
    saturated(initial_angle + mul_unit(time, orbit_speed))
}

/// The point of a circle of the given radius in the plane `y = 0`, given the
/// sine and cosine of the angle.
pub open spec fn orbit_point(radius: int, trig: (i32, i32)) -> Vec3 {
    Vec3 {
        x: saturated(mul_unit(radius, limited(trig.1 as int))) as i32,
        y: 0,
        z: saturated(mul_unit(radius, limited(trig.0 as int))) as i32,
    }
}

/// The spin of a body at a time: the full spin about x, seven tenths of it
/// about y, none about z.
pub open spec fn spin_at(rotation_speed: int, time: int) -> Vec3 {
    let spin = mul_unit(time, rotation_speed);
    Vec3 { x: saturated(spin) as i32, y: saturated(spin * 7_000 / (UNIT as int)) as i32, z: 0 }
}

impl CelestialBody {
    /// A body without rings or moons, shaded as its kind is.
    pub fn new(
        name: String,
        body_type: CelestialBodyType,
        radius: i32,
        orbit_radius: i32,
        orbit_speed: i32,
        rotation_speed: i32,
        initial_angle: i32,
    ) -> (body: CelestialBody)
        ensures
            body.name == name,
            body.body_type == body_type,
            body.radius == radius,
            body.orbit_radius == orbit_radius,
            body.orbit_speed == orbit_speed,
            body.rotation_speed == rotation_speed,
            body.initial_angle == initial_angle,
            body.shader == shader_for(body_type),
            !body.has_rings,
            body.ring_inner == 0,
            body.ring_outer == 0,
            body.moons@.len() == 0,
    {
        let shader: FragmentShader = match body_type {
            CelestialBodyType::Star => FragmentShader::Star,
            CelestialBodyType::RockyPlanet => FragmentShader::RockyPlanet,
            CelestialBodyType::GasGiant => FragmentShader::GasGiant,
            CelestialBodyType::Moon => FragmentShader::Moon,
            CelestialBodyType::Ring => FragmentShader::Ring,
        };
        CelestialBody {
            name,
            body_type,
            radius,
            orbit_radius,
            orbit_speed,
            rotation_speed,
            initial_angle,
            shader,
            has_rings: false,
            ring_inner: 0,
            ring_outer: 0,
            moons: Vec::new(),
        }
    }

    /// The body with rings between the two radii.
    pub fn with_rings(self, inner: i32, outer: i32) -> (body: CelestialBody)
        ensures
            body == (CelestialBody { has_rings: true, ring_inner: inner, ring_outer: outer, ..self }),
    {
        let mut body = self;
        body.has_rings = true;
        body.ring_inner = inner;
        body.ring_outer = outer;
        body
    }

    /// The body with one more moon, after those it has.
    pub fn add_moon(self, moon: Moon) -> (body: CelestialBody)
        ensures
            body.moons@ == self.moons@.push(moon),
            body == (CelestialBody { moons: body.moons, ..self }),
    {
        let mut body = self;
        body.moons.push(moon);
        body
    }

    /// Where the body is at a time.  `sin_cos` maps an angle to its sine and
    /// cosine.
    pub fn get_position<T: Fn(i32) -> (i32, i32)>(&self, time: i32, sin_cos: &T) -> (p: Vec3)
        requires
            forall|a: i32| call_requires(*sin_cos, (a,)),
        ensures
            exists|trig: (i32, i32)|
                #[trigger] call_ensures(
                    *sin_cos,
                    (orbit_angle(self.initial_angle as int, self.orbit_speed as int, time as int) as i32,),
                    trig,
                ) && p == orbit_point(self.orbit_radius as int, trig),
    {
        let angle: i32 = saturate(self.initial_angle as i128 + mul_fixed(time, self.orbit_speed) as i128);
        let trig: (i32, i32) = sin_cos(angle);
        let sin: i32 = clamp_i32(trig.0, -UNIT, UNIT);
        let cos: i32 = clamp_i32(trig.1, -UNIT, UNIT);
        let p: Vec3 = Vec3 {
            x: saturate(mul_fixed(self.orbit_radius, cos) as i128),
            y: 0,
            z: saturate(mul_fixed(self.orbit_radius, sin) as i128),
        };
        assert(angle == orbit_angle(
            self.initial_angle as int,
            self.orbit_speed as int,
            time as int,
        ));
        assert(call_ensures(
            *sin_cos,
            (orbit_angle(self.initial_angle as int, self.orbit_speed as int, time as int) as i32,),
            trig,
        ));
        p
    }

    /// How the body is turned at a time.
    pub fn get_rotation(&self, time: i32) -> (r: Vec3)
        ensures
            r == spin_at(self.rotation_speed as int, time as int),
    {
        let spin: i64 = mul_fixed(time, self.rotation_speed);
        Vec3 {
            x: saturate(spin as i128),
            y: saturate(div_floor(spin as i128 * 7_000, UNIT as i128)),
            z: 0,
        }
    }
}

/// The parameters of a moon.
pub struct MoonEntry {
    pub name: Seq<char>,
    pub radius: int,
    pub orbit_radius: int,
    pub orbit_speed: int,
    pub initial_angle: int,
}

/// The parameters of a body.
pub struct BodyEntry {
    pub name: Seq<char>,
    pub body_type: CelestialBodyType,
    pub radius: int,
    pub orbit_radius: int,
    pub orbit_speed: int,
    pub rotation_speed: int,
    pub initial_angle: int,
    /// Inner and outer radius of the rings, if the body has rings.
    pub rings: Option<(int, int)>,
    pub moons: Seq<MoonEntry>,
}

impl Moon {
    /// The moon has the given parameters.
    pub open spec fn matches_entry(self, entry: MoonEntry) -> bool {
        &&& self.name@ == entry.name
        &&& self.radius == entry.radius
        &&& self.orbit_radius == entry.orbit_radius
        &&& self.orbit_speed == entry.orbit_speed
        &&& self.initial_angle == entry.initial_angle
    }
}

impl CelestialBody {
    /// The body has the given parameters, rings and moons, and the shader of
    /// its kind.
    pub open spec fn matches_entry(self, entry: BodyEntry) -> bool {
        &&& self.name@ == entry.name
        &&& self.body_type == entry.body_type
        &&& self.radius == entry.radius
        &&& self.orbit_radius == entry.orbit_radius
        &&& self.orbit_speed == entry.orbit_speed
        &&& self.rotation_speed == entry.rotation_speed
        &&& self.initial_angle == entry.initial_angle
        &&& self.shader == shader_for(entry.body_type)
        &&& match entry.rings {
            Some(rings) => self.has_rings && self.ring_inner == rings.0 && self.ring_outer
                == rings.1,
            None => !self.has_rings && self.ring_inner == 0 && self.ring_outer == 0,
        }
        &&& self.moons@.len() == entry.moons.len()
        &&& forall|i: int|
            0 <= i < entry.moons.len() ==> (#[trigger] self.moons@[i]).matches_entry(entry.moons[i])
    }
}

/// The six bodies of the scene: a star at the centre, and around it two
/// rocky planets with a moon each, a ringed gas giant with two moons, a
/// rocky planet without a moon and a ringed gas giant without one.
pub open spec fn catalogue(i: int) -> BodyEntry {
    if i == 0 {
        BodyEntry {
            name: "Sol"@,
            body_type: CelestialBodyType::Star,
            radius: 500_000,
            orbit_radius: 0,
            orbit_speed: 0,
            rotation_speed: 5_000,
            initial_angle: 0,
            rings: None,
            moons: seq![],
        }
    } else if i == 1 {
        BodyEntry {
            name: "Mercurio"@,
            body_type: CelestialBodyType::RockyPlanet,
            radius: 150_000,
            orbit_radius: 2_000_000,
            orbit_speed: 8_000,
            rotation_speed: 6_000,
            initial_angle: 0,
            rings: None,
            moons: seq![
                MoonEntry {
                    name: "Luna 1"@,
                    radius: 50_000,
                    orbit_radius: 400_000,
                    orbit_speed: 12_000,
                    initial_angle: 0,
                },
            ],
        }
    } else if i == 2 {
        BodyEntry {
            name: "Terra"@,
            body_type: CelestialBodyType::RockyPlanet,
            radius: 180_000,
            orbit_radius: 3_500_000,
            orbit_speed: 5_000,
            rotation_speed: 4_000,
            initial_angle: 15_000,
            rings: None,
            moons: seq![
                MoonEntry {
                    name: "Luna"@,
                    radius: 60_000,
                    orbit_radius: 500_000,
                    orbit_speed: 9_000,
                    initial_angle: 0,
                },
            ],
        }
    } else if i == 3 {
        BodyEntry {
            name: "Jupiter"@,
            body_type: CelestialBodyType::GasGiant,
            radius: 350_000,
            orbit_radius: 5_500_000,
            orbit_speed: 3_000,
            rotation_speed: 2_500,
            initial_angle: 30_000,
            rings: Some((400_000, 600_000)),
            moons: seq![
                MoonEntry {
                    name: "Io"@,
                    radius: 80_000,
                    orbit_radius: 700_000,
                    orbit_speed: 15_000,
                    initial_angle: 0,
                },
                MoonEntry {
                    name: "Europa"@,
                    radius: 70_000,
                    orbit_radius: 900_000,
                    orbit_speed: 12_000,
                    initial_angle: 20_000,
                },
            ],
        }
    } else if i == 4 {
        BodyEntry {
            name: "Marte"@,
            body_type: CelestialBodyType::RockyPlanet,
            radius: 120_000,
            orbit_radius: 7_500_000,
            orbit_speed: 2_500,
            rotation_speed: 3_500,
            initial_angle: 45_000,
            rings: None,
            moons: seq![],
        }
    } else {
        BodyEntry {
            name: "Saturno"@,
            body_type: CelestialBodyType::GasGiant,
            radius: 300_000,
            orbit_radius: 9_500_000,
            orbit_speed: 2_000,
            rotation_speed: 2_000,
            initial_angle: 60_000,
            rings: Some((350_000, 550_000)),
            moons: seq![],
        }
    }
}

impl SolarSystem {
    /// The scene at time zero, with the six bodies of the catalogue.
    pub fn new() -> (system: SolarSystem)
        ensures
            system.time == 0,
            system.bodies@.len() == 6,
            forall|i: int| 0 <= i < 6 ==> (#[trigger] system.bodies@[i]).matches_entry(catalogue(i)),
    {
        let mut system = SolarSystem { bodies: Vec::new(), time: 0 };
        let star = CelestialBody::new(
            "Sol".to_string(),
            CelestialBodyType::Star,
            500_000,
            0,
            0,
            5_000,
            0,
        );
        system.bodies.push(star);
        let planet1 = CelestialBody::new(
            "Mercurio".to_string(),
            CelestialBodyType::RockyPlanet,
            150_000,
            2_000_000,
            8_000,
            6_000,
            0,
        ).add_moon(
            Moon {
                name: "Luna 1".to_string(),
                radius: 50_000,
                orbit_radius: 400_000,
                orbit_speed: 12_000,
                initial_angle: 0,
            },
        );
        system.bodies.push(planet1);
        let planet2 = CelestialBody::new(
            "Terra".to_string(),
            CelestialBodyType::RockyPlanet,
            180_000,
            3_500_000,
            5_000,
            4_000,
            15_000,
        ).add_moon(
            Moon {
                name: "Luna".to_string(),
                radius: 60_000,
                orbit_radius: 500_000,
                orbit_speed: 9_000,
                initial_angle: 0,
            },
        );
        system.bodies.push(planet2);
        let planet3 = CelestialBody::new(
            "Jupiter".to_string(),
            CelestialBodyType::GasGiant,
            350_000,
            5_500_000,
            3_000,
            2_500,
            30_000,
        ).with_rings(400_000, 600_000).add_moon(
            Moon {
                name: "Io".to_string(),
                radius: 80_000,
                orbit_radius: 700_000,
                orbit_speed: 15_000,
                initial_angle: 0,
            },
        ).add_moon(
            Moon {
                name: "Europa".to_string(),
                radius: 70_000,
                orbit_radius: 900_000,
                orbit_speed: 12_000,
                initial_angle: 20_000,
            },
        );
        system.bodies.push(planet3);
        let planet4 = CelestialBody::new(
            "Marte".to_string(),
            CelestialBodyType::RockyPlanet,
            120_000,
            7_500_000,
            2_500,
            3_500,
            45_000,
        );
        system.bodies.push(planet4);
        let planet5 = CelestialBody::new(
            "Saturno".to_string(),
            CelestialBodyType::GasGiant,
            300_000,
            9_500_000,
            2_000,
            2_000,
            60_000,
        ).with_rings(350_000, 550_000);
        system.bodies.push(planet5);
        system
    }

    /// Lets `delta_time` seconds pass.
    pub fn update(&mut self, delta_time: i32)
        ensures
            final(self).time == saturated(old(self).time + delta_time),
            final(self).bodies == old(self).bodies,
    {
        self.time = saturate(self.time as i128 + delta_time as i128);
    }

    /// The body at an index, if there is one.
    pub fn get_body_by_index(&self, index: usize) -> (body: Option<&CelestialBody>)
        ensures
            index < self.bodies@.len() ==> body == Some(&self.bodies@[index as int]),
            index >= self.bodies@.len() ==> body is None,
    {
        if index < self.bodies.len() {
            Some(&self.bodies[index])
        } else {
            None
        }
    }

    /// How many bodies there are.
    pub fn get_body_count(&self) -> (n: usize)
        ensures
            n == self.bodies@.len(),
    {
        self.bodies.len()
    }
}

} // verus!
