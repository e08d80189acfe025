use raytrace::material::{needs_sample, scatter, Bounce, MaterialKind, ScatterFacts};

fn facts(above_surface: bool, total_internal: bool, sample_reflects: bool) -> ScatterFacts {
    ScatterFacts { above_surface, total_internal, sample_reflects }
}

fn all_facts() -> Vec<ScatterFacts> {
    let mut v = Vec::new();
    for a in [false, true] {
        for b in [false, true] {
            for c in [false, true] {
                v.push(facts(a, b, c));
            }
        }
    }
    v
}

#[test]
fn lambertian_always_diffuses() {
    for f in all_facts() {
        assert_eq!(scatter(MaterialKind::Lambertian, f), Some(Bounce::Diffuse));
    }
}

#[test]
fn dielectric_never_absorbs() {
    for f in all_facts() {
        assert!(scatter(MaterialKind::Dielectric, f).is_some());
    }
}

#[test]
fn metal_absorbs_only_below_surface() {
    for f in all_facts() {
        let r = scatter(MaterialKind::Metal, f);
        assert_eq!(r.is_none(), !f.above_surface);
        if f.above_surface {
            assert_eq!(r, Some(Bounce::Reflect));
        }
    }
}

#[test]
fn dielectric_total_internal_reflection() {
    assert_eq!(scatter(MaterialKind::Dielectric, facts(false, true, false)), Some(Bounce::Reflect));
}

#[test]
fn dielectric_sample_chooses() {
    assert_eq!(scatter(MaterialKind::Dielectric, facts(false, false, true)), Some(Bounce::Reflect));
    assert_eq!(scatter(MaterialKind::Dielectric, facts(false, false, false)), Some(Bounce::Refract));
}

#[test]
fn sample_drawn_only_for_refracting_glass() {
    assert!(needs_sample(MaterialKind::Dielectric, false));
    assert!(!needs_sample(MaterialKind::Dielectric, true));
    assert!(!needs_sample(MaterialKind::Metal, false));
    assert!(!needs_sample(MaterialKind::Lambertian, false));
}
