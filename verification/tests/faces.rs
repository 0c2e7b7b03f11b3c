use skybox::faces::{faces, Axis, CubeFace};

fn dot(a: Axis, b: Axis) -> i32 {
    a.x as i32 * b.x as i32 + a.y as i32 * b.y as i32 + a.z as i32 * b.z as i32
}

fn cross(a: Axis, b: Axis) -> Axis {
    Axis {
        x: a.y * b.z - a.z * b.y,
        y: a.z * b.x - a.x * b.z,
        z: a.x * b.y - a.y * b.x,
    }
}

#[test]
fn all_six_faces_in_order() {
    assert_eq!(
        faces(false),
        vec![
            CubeFace::North,
            CubeFace::South,
            CubeFace::East,
            CubeFace::West,
            CubeFace::Up,
            CubeFace::Down
        ]
    );
}

#[test]
fn north_only_is_the_first_face() {
    assert_eq!(faces(true), vec![CubeFace::North]);
}

#[test]
fn face_names() {
    let names: Vec<&str> = faces(false).into_iter().map(|f| f.name()).collect();
    assert_eq!(names, vec!["north", "south", "east", "west", "up", "down"]);
}

#[test]
fn face_axes() {
    assert_eq!(CubeFace::North.forward(), Axis { x: 0, y: 0, z: 1 });
    assert_eq!(CubeFace::South.forward(), Axis { x: 0, y: 0, z: -1 });
    assert_eq!(CubeFace::East.forward(), Axis { x: 1, y: 0, z: 0 });
    assert_eq!(CubeFace::West.forward(), Axis { x: -1, y: 0, z: 0 });
    assert_eq!(CubeFace::Up.forward(), Axis { x: 0, y: 1, z: 0 });
    assert_eq!(CubeFace::Down.forward(), Axis { x: 0, y: -1, z: 0 });
    for face in [CubeFace::North, CubeFace::South, CubeFace::East, CubeFace::West] {
        assert_eq!(face.up(), Axis { x: 0, y: 1, z: 0 });
    }
    for face in [CubeFace::Up, CubeFace::Down] {
        assert_eq!(face.up(), Axis { x: 0, y: 0, z: 1 });
    }
}

#[test]
fn face_axes_are_orthonormal() {
    for face in faces(false) {
        let (f, u) = (face.forward(), face.up());
        let r = cross(u, f);
        assert_eq!(dot(f, f), 1);
        assert_eq!(dot(u, u), 1);
        assert_eq!(dot(r, r), 1);
        assert_eq!(dot(f, u), 0);
        assert_eq!(dot(r, f), 0);
        assert_eq!(dot(r, u), 0);
    }
}

#[test]
fn faces_look_six_different_ways() {
    let all = faces(false);
    for (i, a) in all.iter().enumerate() {
        for (j, b) in all.iter().enumerate() {
            assert_eq!(a.forward() == b.forward(), i == j);
        }
    }
}
