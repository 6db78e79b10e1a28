use tracer::camera::Camera;
use tracer::fixed::{fp_div, fp_mul, fp_sqrt, isqrt, ONE};
use tracer::material::{Lambertian, Material, Metal};
use tracer::ray::Ray;
use tracer::render::{gamma, quantize, render};
use tracer::sampler::{random_in_unit_sphere, random_unit};
use tracer::sphere::Sphere;
use tracer::transport::{background, color, T_EPSILON, T_LIMIT};
use tracer::vec3::Vec3;
use tracer::world::World;

fn gray_lambertian() -> Material {
    Material::Lambertian(Lambertian {
        albedo: Vec3::new(500000, 500000, 500000),
    })
}

fn sample_world() -> World {
    // The two diffuse and two metal spheres of the sample scene.
    World {
        hittables: vec![
            Sphere {
                center: Vec3::new(0, 0, -ONE),
                radius: 500000,
                material: Material::Lambertian(Lambertian {
                    albedo: Vec3::new(800000, 300000, 300000),
                }),
            },
            Sphere {
                center: Vec3::new(0, -100500000, -ONE),
                radius: 100000000,
                material: Material::Lambertian(Lambertian {
                    albedo: Vec3::new(800000, 800000, 0),
                }),
            },
            Sphere {
                center: Vec3::new(ONE, 0, -ONE),
                radius: 500000,
                material: Material::Metal(Metal {
                    albedo: Vec3::new(800000, 600000, 200000),
                    fuzz: 0,
                }),
            },
            Sphere {
                center: Vec3::new(-ONE, 0, -ONE),
                radius: 500000,
                material: Material::Metal(Metal {
                    albedo: Vec3::new(800000, 800000, 800000),
                    fuzz: 700000,
                }),
            },
        ],
    }
}

fn sample_camera() -> Camera {
    Camera {
        origin: Vec3::new(0, 0, 0),
        lower_left_corner: Vec3::new(-2 * ONE, -ONE, -ONE),
        horizontal: Vec3::new(4 * ONE, 0, 0),
        vertical: Vec3::new(0, 2 * ONE, 0),
    }
}

#[test]
fn fixed_point_ops_exact_values() {
    assert_eq!(fp_mul(500000, 500000), 250000); // 0.5 * 0.5 == 0.25
    assert_eq!(fp_mul(800000, 900000), 720000); // 0.8 * 0.9 == 0.72
    assert_eq!(fp_mul(-500000, 500000), -250000);
    assert_eq!(fp_div(ONE, 2000000), 500000); // 1.0 / 2.0 == 0.5
    assert_eq!(fp_div(-ONE, 2000000), -500000);
    assert_eq!(isqrt(0), 0);
    assert_eq!(isqrt(1), 1);
    assert_eq!(isqrt(2), 1);
    assert_eq!(isqrt(1000000000000), 1000000);
    assert_eq!(isqrt(999999999999), 999999);
    assert_eq!(fp_sqrt(ONE), ONE); // sqrt(1.0) == 1.0
    assert_eq!(fp_sqrt(250000), 500000); // sqrt(0.25) == 0.5
}

#[test]
fn vector_ops_exact_values() {
    let a = Vec3::new(ONE, 2 * ONE, -ONE);
    let b = Vec3::new(500000, -500000, ONE);
    let s = a.add(&b);
    assert_eq!((s.x(), s.y(), s.z()), (1500000, 1500000, 0));
    let d = a.sub(&b);
    assert_eq!((d.x(), d.y(), d.z()), (500000, 2500000, -2000000));
    let n = a.neg();
    assert_eq!((n.x(), n.y(), n.z()), (-ONE, -2 * ONE, ONE));
    let h = a.mul(500000);
    assert_eq!((h.x(), h.y(), h.z()), (500000, ONE, -500000));
    let q = a.div(2 * ONE);
    assert_eq!((q.x(), q.y(), q.z()), (500000, ONE, -500000));
    // (1, 2, -1) . (0.5, -0.5, 1) == 0.5 - 1.0 - 1.0 == -1.5
    assert_eq!(a.dot(&b), -1500000);
    // |(3, 4, 0)| == 5, exactly.
    let v = Vec3::new(3 * ONE, 4 * ONE, 0);
    assert_eq!(v.length(), 5 * ONE);
    assert_eq!(v.squared_length(), 25 * ONE);
    let u = v.unit();
    assert_eq!((u.x(), u.y(), u.z()), (600000, 800000, 0));
    // Color channels read the same components.
    assert_eq!((a.r(), a.g(), a.b()), (a.x(), a.y(), a.z()));
}

#[test]
fn point_at_parameter_evaluates_the_ray() {
    let r = Ray::new(Vec3::new(ONE, 0, 0), Vec3::new(0, 2 * ONE, 0));
    let p = r.point_at_parameter(500000); // t = 0.5
    assert_eq!((p.x(), p.y(), p.z()), (ONE, ONE, 0));
    assert_eq!(r.origin().x(), ONE);
    assert_eq!(r.direction().y(), 2 * ONE);
}

#[test]
fn ray_sphere_round_trip_hits_the_surface() {
    // A unit-radius sphere two units straight ahead: the hit must satisfy
    // |point_at(t) - center| == radius, here exactly.
    let s = Sphere {
        center: Vec3::new(0, 0, -2 * ONE),
        radius: ONE,
        material: gray_lambertian(),
    };
    let r = Ray::new(Vec3::new(0, 0, 0), Vec3::new(0, 0, -ONE));
    let hit = s.hit(&r, T_EPSILON, T_LIMIT).expect("the ray aims at the center");
    assert_eq!(hit.t, ONE);
    assert_eq!((hit.p.x(), hit.p.y(), hit.p.z()), (0, 0, -ONE));
    let pc = hit.p.sub(&s.center);
    // Raw squared distance equals radius^2 exactly.
    assert_eq!(pc.dot2(&pc), (ONE as i128) * (ONE as i128));
    assert_eq!((hit.normal.x(), hit.normal.y(), hit.normal.z()), (0, 0, ONE));
}

#[test]
fn ray_sphere_oblique_hit_is_exact_here() {
    // Direction (0.6, 0.8, 0), center five units along it, radius one:
    // the hit is at t == 4 with an exactly unit normal.
    let s = Sphere {
        center: Vec3::new(3 * ONE, 4 * ONE, 0),
        radius: ONE,
        material: gray_lambertian(),
    };
    let r = Ray::new(Vec3::new(0, 0, 0), Vec3::new(600000, 800000, 0));
    let hit = s.hit(&r, T_EPSILON, T_LIMIT).expect("the ray aims at the center");
    assert_eq!(hit.t, 4 * ONE);
    assert_eq!((hit.normal.x(), hit.normal.y(), hit.normal.z()), (-600000, -800000, 0));
}

#[test]
fn normal_has_unit_length_within_tolerance() {
    // An intersection where the root is irrational, so truncation occurs:
    // the reported normal must still be unit up to the library's tolerance.
    let s = Sphere {
        center: Vec3::new(300000, -200000, -3 * ONE),
        radius: 700000,
        material: gray_lambertian(),
    };
    let r = Ray::new(Vec3::new(0, 0, 0), Vec3::new(100000, 0, -ONE));
    let hit = s.hit(&r, T_EPSILON, T_LIMIT).expect("the ray passes near the center");
    let n2 = hit.normal.dot2(&hit.normal);
    let unit2 = (ONE as i128) * (ONE as i128);
    assert!(n2 >= unit2 - 10000000000);
    assert!(n2 <= unit2 + 10000000000);
}

#[test]
fn miss_when_closest_approach_exceeds_radius() {
    // Straight up, while the sphere sits two units behind: a clean miss.
    let s = Sphere {
        center: Vec3::new(0, 0, -2 * ONE),
        radius: ONE,
        material: gray_lambertian(),
    };
    let up = Ray::new(Vec3::new(0, 0, 0), Vec3::new(0, ONE, 0));
    assert!(s.hit(&up, T_EPSILON, T_LIMIT).is_none());
    // Parallel to the sphere at distance 1.5 of a unit sphere: also a miss.
    let side = Ray::new(Vec3::new(1500000, 0, 0), Vec3::new(0, 0, -ONE));
    assert!(s.hit(&side, T_EPSILON, T_LIMIT).is_none());
    // A tangent ray (closest approach equals the radius) counts as a miss.
    let tangent = Ray::new(Vec3::new(ONE, 0, 0), Vec3::new(0, 0, -ONE));
    assert!(s.hit(&tangent, T_EPSILON, T_LIMIT).is_none());
}

#[test]
fn world_returns_the_nearest_of_two_overlapping_spheres() {
    let near = Sphere {
        center: Vec3::new(0, 0, -2 * ONE),
        radius: ONE,
        material: gray_lambertian(),
    };
    let far = Sphere {
        center: Vec3::new(0, 0, -5 * ONE),
        radius: ONE,
        material: Material::Metal(Metal {
            albedo: Vec3::new(800000, 800000, 800000),
            fuzz: 0,
        }),
    };
    let r = Ray::new(Vec3::new(0, 0, 0), Vec3::new(0, 0, -ONE));
    for world in [
        World { hittables: vec![near, far] },
        World { hittables: vec![far, near] },
    ] {
        let hit = world.hit(&r, T_EPSILON, T_LIMIT).expect("both spheres lie on the ray");
        assert_eq!(hit.t, ONE);
        assert!(matches!(hit.material, Material::Lambertian(_)));
    }
}

#[test]
fn world_tie_between_equal_spheres_still_reports_the_common_t() {
    let s = Sphere {
        center: Vec3::new(0, 0, -2 * ONE),
        radius: ONE,
        material: gray_lambertian(),
    };
    let world = World { hittables: vec![s, s] };
    let r = Ray::new(Vec3::new(0, 0, 0), Vec3::new(0, 0, -ONE));
    let hit = world.hit(&r, T_EPSILON, T_LIMIT).expect("both copies are hit");
    assert_eq!(hit.t, ONE);
}

#[test]
fn empty_world_always_misses() {
    let world = World { hittables: vec![] };
    let r = Ray::new(Vec3::new(0, 0, 0), Vec3::new(0, 0, -ONE));
    assert!(world.hit(&r, T_EPSILON, T_LIMIT).is_none());
    // The color of a ray through an empty world is the background gradient.
    let c = color(&r, &world, 50);
    let bg = background(&r);
    assert_eq!((c.x(), c.y(), c.z()), (bg.x(), bg.y(), bg.z()));
}

#[test]
fn lambertian_scatters_toward_normal_plus_sample() {
    let s = Sphere {
        center: Vec3::new(0, 0, -2 * ONE),
        radius: ONE,
        material: gray_lambertian(),
    };
    let r = Ray::new(Vec3::new(0, 0, 0), Vec3::new(0, 0, -ONE));
    let hit = s.hit(&r, T_EPSILON, T_LIMIT).unwrap();
    let sample = Vec3::new(100000, -200000, 300000);
    let sc = hit
        .material
        .scatter_with_sample(&r, &hit, &sample)
        .expect("a diffuse material always scatters");
    assert_eq!((sc.attenuation.x(), sc.attenuation.y(), sc.attenuation.z()), (500000, 500000, 500000));
    assert_eq!((sc.scattered.a.x(), sc.scattered.a.y(), sc.scattered.a.z()), (0, 0, -ONE));
    // direction == normal + sample, exactly.
    assert_eq!(
        (sc.scattered.b.x(), sc.scattered.b.y(), sc.scattered.b.z()),
        (100000, -200000, ONE + 300000)
    );
}

#[test]
fn metal_reflects_about_the_normal() {
    // Incoming straight down onto a floor sphere's top: reflect to straight up.
    let s = Sphere {
        center: Vec3::new(0, -2 * ONE, 0),
        radius: ONE,
        material: Material::Metal(Metal {
            albedo: Vec3::new(800000, 600000, 200000),
            fuzz: 0,
        }),
    };
    let r = Ray::new(Vec3::new(0, 0, 0), Vec3::new(0, -ONE, 0));
    let hit = s.hit(&r, T_EPSILON, T_LIMIT).unwrap();
    assert_eq!((hit.normal.x(), hit.normal.y(), hit.normal.z()), (0, ONE, 0));
    let sc = hit
        .material
        .scatter_with_sample(&r, &hit, &Vec3::new(0, 0, 0))
        .expect("the mirror direction leaves the surface");
    assert_eq!((sc.scattered.b.x(), sc.scattered.b.y(), sc.scattered.b.z()), (0, ONE, 0));
    assert_eq!((sc.attenuation.x(), sc.attenuation.y(), sc.attenuation.z()), (800000, 600000, 200000));
}

#[test]
fn metal_absorbs_a_grazing_reflection_into_the_surface() {
    // A fuzz sample pointing into the surface can push the scattered
    // direction below the horizon: the material then absorbs the ray.
    let s = Sphere {
        center: Vec3::new(0, -2 * ONE, 0),
        radius: ONE,
        material: Material::Metal(Metal {
            albedo: Vec3::new(800000, 800000, 800000),
            fuzz: ONE,
        }),
    };
    let r = Ray::new(Vec3::new(0, 0, 0), Vec3::new(0, -ONE, 0));
    let hit = s.hit(&r, T_EPSILON, T_LIMIT).unwrap();
    // The mirror direction is (0, ONE, 0); a sample of (0, -ONE + 1, 0)
    // scaled by fuzz == ONE drags its y component to 1 raw unit above zero,
    // and (0, -ONE, 0) itself would reach exactly zero: absorbed.
    let res = hit
        .material
        .scatter_with_sample(&r, &hit, &Vec3::new(0, -999999, 0));
    assert!(res.is_some());
    // A sample cancelling the reflection exactly leaves a direction in the
    // surface plane (dot product zero): absorbed.
    let res = hit
        .material
        .scatter_with_sample(&r, &hit, &Vec3::new(0, -ONE, 0));
    assert!(res.is_none());
    let res = hit
        .material
        .scatter_with_sample(&r, &hit, &Vec3::new(ONE - 1, -ONE + 1, 0));
    // y == 1 raw > 0: still scatters, but the direction is nearly tangent.
    let sc = res.expect("one raw unit above the horizon still scatters");
    assert_eq!(sc.scattered.b.y(), 1);
}

#[test]
fn depth_zero_returns_black_on_a_hit() {
    let world = sample_world();
    // Straight at the center sphere.
    let r = Ray::new(Vec3::new(0, 0, 0), Vec3::new(0, 0, -ONE));
    let c = color(&r, &world, 0);
    assert_eq!((c.x(), c.y(), c.z()), (0, 0, 0));
}

#[test]
fn a_missing_ray_gets_the_background_at_any_depth() {
    let world = sample_world();
    let r = Ray::new(Vec3::new(0, 0, 0), Vec3::new(0, ONE, 0));
    let c0 = color(&r, &world, 0);
    let c50 = color(&r, &world, 50);
    assert_eq!((c0.x(), c0.y(), c0.z()), (500000, 700000, ONE));
    assert_eq!((c50.x(), c50.y(), c50.z()), (500000, 700000, ONE));
}

#[test]
fn background_gradient_exact_values() {
    // Straight up: t == 1, the pure sky color (0.5, 0.7, 1.0).
    let up = Ray::new(Vec3::new(0, 0, 0), Vec3::new(0, ONE, 0));
    let c = background(&up);
    assert_eq!((c.x(), c.y(), c.z()), (500000, 700000, ONE));
    // Horizontal: t == 0.5, the halfway blend (0.75, 0.85, 1.0).
    let level = Ray::new(Vec3::new(0, 0, 0), Vec3::new(ONE, 0, 0));
    let c = background(&level);
    assert_eq!((c.x(), c.y(), c.z()), (750000, 850000, ONE));
    // Straight down: t == 0, pure white.
    let down = Ray::new(Vec3::new(0, 0, 0), Vec3::new(0, -ONE, 0));
    let c = background(&down);
    assert_eq!((c.x(), c.y(), c.z()), (ONE, ONE, ONE));
}

#[test]
fn energy_is_never_amplified() {
    let world = sample_world();
    let cam = sample_camera();
    // Many rays across the viewport, generous depth: every channel stays in
    // [0, ONE], the albedo-bounded range.
    for iu in 0..20 {
        for iv in 0..20 {
            let r = cam.get_ray(iu * 50000, iv * 50000);
            let c = color(&r, &world, 50);
            for ch in [c.x(), c.y(), c.z()] {
                assert!((0..=ONE).contains(&ch));
            }
        }
    }
}

#[test]
fn render_produces_w_h_4_bytes_with_opaque_alpha() {
    let world = sample_world();
    let cam = sample_camera();
    let buf = render(&world, &cam, 8, 6, 2, 10);
    assert_eq!(buf.len(), 8 * 6 * 4);
    for q in 0..(8 * 6) {
        assert_eq!(buf[4 * q + 3], 255);
    }
}

#[test]
fn render_smallest_image() {
    let world = World { hittables: vec![] };
    let cam = sample_camera();
    let buf = render(&world, &cam, 1, 1, 1, 0);
    assert_eq!(buf.len(), 4);
    assert_eq!(buf[3], 255);
}

#[test]
fn gamma_and_quantize_exact_values() {
    assert_eq!(gamma(0), 0);
    assert_eq!(gamma(ONE), ONE);
    assert_eq!(gamma(250000), 500000); // sqrt(0.25) == 0.5
    assert_eq!(quantize(0), 0);
    assert_eq!(quantize(ONE), 255); // 255.99 truncated
    assert_eq!(quantize(500000), 127); // 127.995 truncated
}

#[test]
fn gamma_quantize_is_monotone() {
    let mut prev: u8 = 0;
    let mut c: i64 = 0;
    while c <= ONE {
        let b = quantize(gamma(c));
        assert!(b >= prev);
        prev = b;
        c += 1709; // a stride coprime to the scale, covering the range
    }
    assert_eq!(quantize(gamma(ONE)), 255);
}

#[test]
fn camera_maps_viewport_coordinates_to_rays() {
    let cam = sample_camera();
    let r = cam.get_ray(500000, 500000);
    assert_eq!((r.a.x(), r.a.y(), r.a.z()), (0, 0, 0));
    assert_eq!((r.b.x(), r.b.y(), r.b.z()), (0, 0, -ONE));
    // A camera away from the world origin subtracts it from the direction.
    let moved = Camera {
        origin: Vec3::new(0, 0, ONE),
        ..cam
    };
    let r = moved.get_ray(500000, 500000);
    assert_eq!((r.a.x(), r.a.y(), r.a.z()), (0, 0, ONE));
    assert_eq!((r.b.x(), r.b.y(), r.b.z()), (0, 0, -2 * ONE));
}

#[test]
fn random_draws_stay_in_their_ranges() {
    for _ in 0..200 {
        let r = random_unit();
        assert!((0..ONE).contains(&r));
        let p = random_in_unit_sphere();
        let d2 = p.dot2(&p);
        assert!(d2 < (ONE as i128) * (ONE as i128));
        for ch in [p.x(), p.y(), p.z()] {
            assert!((-ONE..=ONE).contains(&ch));
        }
    }
}

#[test]
fn sample_scene_center_pixel_sees_the_red_sphere() {
    // One deterministic probe of the whole pipeline: the ray through the
    // viewport center hits the diffuse sphere at t == 0.5.
    let world = sample_world();
    let cam = sample_camera();
    let r = cam.get_ray(500000, 500000);
    let hit = world.hit(&r, T_EPSILON, T_LIMIT).expect("the center sphere is ahead");
    assert_eq!(hit.t, 500000);
    assert!(matches!(hit.material, Material::Lambertian(_)));
}
