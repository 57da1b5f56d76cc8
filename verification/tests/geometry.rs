//! Ray/primitive intersection: the exact scenarios and the edge cases.

use racy::vector::Vector;
use racy::ray::Ray;
use racy::sphere::Sphere;
use racy::plane::Plane;
use racy::material::Material;
use racy::camera::Camera;

#[test]
fn direct_at_sphere() {
    let sphere = Sphere::new(Vector { x: 0, y: 0, z: 262144 }, 65536, Material::mirror());
    let ray = Ray {
        origin: Vector { x: 0, y: 0, z: 0 },
        direction: Vector { x: 0, y: 0, z: 65536 },
    };
    match sphere.intersects(&ray) {
        None => panic!("Expected an intersection to occur, but got None"),
        Some(t) => assert_eq!(t, 196608),
    }
}

#[test]
fn inside_sphere_at_center() {
    let sphere = Sphere::new(Vector { x: 0, y: 0, z: 0 }, 65536, Material::mirror());
    // 1000 random rays out from the sphere's exact center must all leave
    // through the surface, at the radius up to fixed-point rounding.
    for _ in 0..1000 {
        let ray = Ray {
            origin: Vector { x: 0, y: 0, z: 0 },
            direction: Vector::random_norm(),
        };
        match sphere.intersects(&ray) {
            None => panic!("Expected an intersection to occur, but got None"),
            Some(t) => assert!((t - sphere.radius).abs() <= 64, "distance {} strays from the radius", t),
        }
    }
}

#[test]
fn inside_sphere_off_center() {
    let sphere = Sphere::new(Vector { x: 0, y: 0, z: 0 }, 65536, Material::mirror());
    let ray = Ray {
        origin: Vector { x: 0, y: 0, z: 32768 },
        direction: Vector { x: 0, y: 0, z: 65536 },
    };
    match sphere.intersects(&ray) {
        None => panic!("Expected an intersection to occur, but got None"),
        Some(t) => assert_eq!(t, 32768),
    }

    let sphere = Sphere::new(Vector { x: 0, y: 0, z: 0 }, 65536, Material::mirror());
    let ray = Ray {
        origin: Vector { x: 0, y: 0, z: -32768 },
        direction: Vector { x: 0, y: 0, z: 65536 },
    };
    match sphere.intersects(&ray) {
        None => panic!("Expected an intersection to occur, but got None"),
        Some(t) => assert_eq!(t, 98304),
    }
}

#[test]
fn away_from_sphere_misses() {
    let sphere = Sphere::new(Vector { x: 0, y: 0, z: 262144 }, 65536, Material::mirror());
    let ray = Ray {
        origin: Vector { x: 0, y: 0, z: 0 },
        direction: Vector { x: 0, y: 0, z: -65536 },
    };
    assert!(sphere.intersects(&ray).is_none());
}

#[test]
fn sphere_hit_point_is_on_the_surface() {
    // from (0,0,-4) toward a unit sphere at the origin: the hit lies at
    // (0,0,-1), three units along the ray
    let sphere = Sphere::new(Vector { x: 0, y: 0, z: 0 }, 65536, Material::mirror());
    let ray = Ray {
        origin: Vector { x: 0, y: 0, z: -262144 },
        direction: Vector { x: 0, y: 0, z: 65536 },
    };
    let t = sphere.intersects(&ray).expect("the ray points at the sphere");
    assert_eq!(t, 196608);
    let p = ray.point_at(t).expect("the hit lies in the world");
    assert_eq!(p, Vector { x: 0, y: 0, z: -65536 });
}

#[test]
fn plane_straight_on() {
    let plane = Plane::new(
        Vector { x: 0, y: -65536, z: 0 },
        Vector { x: 0, y: 65536, z: 0 },
        Material::mirror(),
    );
    let ray = Ray {
        origin: Vector { x: 0, y: 0, z: 0 },
        direction: Vector { x: 0, y: -65536, z: 0 },
    };
    assert_eq!(plane.intersects(&ray), Some(65536));
}

#[test]
fn plane_parallel_ray_misses() {
    let plane = Plane::new(
        Vector { x: 0, y: -65536, z: 0 },
        Vector { x: 0, y: 65536, z: 0 },
        Material::mirror(),
    );
    // orthogonal to the normal, from several origins: never a hit
    for oy in [-131072i64, 0, 131072, 262144] {
        let ray = Ray {
            origin: Vector { x: 0, y: oy, z: 0 },
            direction: Vector { x: 65536, y: 0, z: 0 },
        };
        assert!(plane.intersects(&ray).is_none());
    }
}

#[test]
fn plane_behind_ray_misses() {
    let plane = Plane::new(
        Vector { x: 0, y: -65536, z: 0 },
        Vector { x: 0, y: 65536, z: 0 },
        Material::mirror(),
    );
    let ray = Ray {
        origin: Vector { x: 0, y: 0, z: 0 },
        direction: Vector { x: 0, y: 65536, z: 0 },
    };
    assert!(plane.intersects(&ray).is_none());
}

#[test]
fn camera_refuses_degenerate_configuration() {
    let eye = Vector { x: 0, y: 0, z: 0 };
    assert!(Camera::new(eye, 0, 320, 320).is_none());
    assert!(Camera::new(eye, -65536, 320, 320).is_none());
    assert!(Camera::new(eye, 2949120, 0, 320).is_none());
    assert!(Camera::new(eye, 2949120, 320, 0).is_none());
    assert!(Camera::new(eye, 2949120, 320, 320).is_some());
}

#[test]
fn camera_center_ray_looks_forward() {
    let eye = Vector { x: 0, y: 0, z: 0 };
    let cam = Camera::new(eye, 2949120, 320, 320).expect("a sound configuration");
    let ray = cam.get_ray_from_uv(160, 160);
    assert_eq!(ray.origin, eye);
    // the default orientation looks down the negative z axis
    assert!(ray.direction.z < 0);
    assert!((ray.direction.length_squared() - 65536i64).abs() <= 64);
}

#[test]
fn points_beyond_the_world_are_refused() {
    let ray = Ray {
        origin: Vector { x: 0, y: 0, z: 0 },
        direction: Vector { x: 0, y: 0, z: 65536 },
    };
    // five thousand units down the ray lies outside the world
    assert!(ray.point_at(5000 * 65536).is_none());
    assert_eq!(ray.point_at(2 * 65536), Some(Vector { x: 0, y: 0, z: 131072 }));
}
