use vstd::prelude::*;

verus! {

/// The kinds of surface a sphere can have.
#[derive(Clone, Copy, Debug, PartialEq, Eq, Structural)]
pub enum MaterialKind {
    /// Diffuse: the outgoing ray leaves along the normal plus a random unit vector.
    Lambertian,
    /// Mirror-like, with the reflection perturbed by the fuzz radius.
    Metal,
    /// Clear glass that reflects or refracts.
    Dielectric,
}

/// How an incoming ray leaves a surface.
#[derive(Clone, Copy, Debug, PartialEq, Eq, Structural)]
pub enum Bounce {
    Diffuse,
    Reflect,
    Refract,
}

/// What the geometry of one hit says, as measured by the caller.
#[derive(Clone, Copy, Debug, PartialEq, Eq, Structural)]
pub struct ScatterFacts {
    /// Metal: the fuzzed reflection points away from the surface
    /// (its dot product with the normal is positive).
    pub above_surface: bool,
    /// Dielectric: `ratio * sin_theta > 1`, so refraction is impossible.
    pub total_internal: bool,
    /// Dielectric: the uniform sample fell below Schlick's reflectance. Drawn,
    /// and read, only where refraction is possible.
    pub sample_reflects: bool,
}

pub open spec fn scatter_spec(kind: MaterialKind, facts: ScatterFacts) -> Option<Bounce> {
    match kind {
        MaterialKind::Lambertian => Some(Bounce::Diffuse),
        MaterialKind::Metal => if facts.above_surface {
            Some(Bounce::Reflect)
        } else {
            None
        },
        MaterialKind::Dielectric => if facts.total_internal || facts.sample_reflects {
            Some(Bounce::Reflect)
        } else {
            Some(Bounce::Refract)
        },
    }
}

/// Decides whether a hit scatters and how; `None` means the ray is absorbed.
pub fn scatter(kind: MaterialKind, facts: ScatterFacts) -> (r: Option<Bounce>)
    ensures
        r == scatter_spec(kind, facts),
{
    match kind {
        MaterialKind::Lambertian => Some(Bounce::Diffuse),
        MaterialKind::Metal => {
            if facts.above_surface {
                Some(Bounce::Reflect)
            } else {
                None
            }
        },
        MaterialKind::Dielectric => {
            if facts.total_internal {
                Some(Bounce::Reflect)
            } else if facts.sample_reflects {
                Some(Bounce::Reflect)
            } else {
                Some(Bounce::Refract)
            }
        },
    }
}

/// Whether a dielectric hit needs a uniform sample to choose between
/// reflection and refraction.
pub fn needs_sample(kind: MaterialKind, total_internal: bool) -> (r: bool)
    ensures
        r == (kind == MaterialKind::Dielectric && !total_internal),
{
    match kind {
        MaterialKind::Dielectric => !total_internal,
        _ => false,
    }
}

/// Diffuse and glass surfaces never absorb; a metal absorbs exactly when its
/// fuzzed reflection points into the surface.
pub proof fn lemma_absorption(kind: MaterialKind, facts: ScatterFacts)
    ensures
        kind == MaterialKind::Lambertian ==> scatter_spec(kind, facts) is Some,
        kind == MaterialKind::Dielectric ==> scatter_spec(kind, facts) is Some,
        kind == MaterialKind::Metal ==> (scatter_spec(kind, facts) is None <==> !facts.above_surface),
{
}

} // verus!
