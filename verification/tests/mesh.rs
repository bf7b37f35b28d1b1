use browser_ui::mesh::{
    flatten_instances, flatten_points, flatten_vertices, to_js_mesh, Instance, Mesh, Point3,
    Vertex, INSTANCE_STRIDE, VERTEX_STRIDE,
};

fn vertex(x: f32, y: f32, z: f32) -> Vertex {
    Vertex { position: [x.to_bits(), y.to_bits(), z.to_bits()] }
}

fn numbers(flat: &[u32]) -> Vec<f32> {
    flat.iter().map(|bits| f32::from_bits(*bits)).collect()
}

#[test]
fn vertices_are_flattened_with_stride_three() {
    let vertices = vec![vertex(1.0, 2.0, 3.0), vertex(4.0, 5.0, 6.0)];
    let flat = flatten_vertices(&vertices);
    assert_eq!(VERTEX_STRIDE, 3);
    assert_eq!(flat.len(), VERTEX_STRIDE * vertices.len());
    assert_eq!(numbers(&flat), vec![1.0, 2.0, 3.0, 4.0, 5.0, 6.0]);
}

#[test]
fn no_vertices_flatten_to_nothing() {
    assert_eq!(flatten_vertices(&Vec::new()), Vec::<u32>::new());
    assert_eq!(flatten_points(&Vec::new()), Vec::<u32>::new());
    assert_eq!(flatten_instances(&Vec::new()), Vec::<u32>::new());
}

#[test]
fn points_are_flattened_with_stride_three() {
    let points = vec![
        Point3 { coords: [0.5f32.to_bits(), (-1.0f32).to_bits(), 2.25f32.to_bits()] },
        Point3 { coords: [7.0f32.to_bits(), 8.0f32.to_bits(), 9.0f32.to_bits()] },
        Point3 { coords: [0.0f32.to_bits(), 0.0f32.to_bits(), 1.0f32.to_bits()] },
    ];
    let flat = flatten_points(&points);
    assert_eq!(flat.len(), 9);
    assert_eq!(numbers(&flat), vec![0.5, -1.0, 2.25, 7.0, 8.0, 9.0, 0.0, 0.0, 1.0]);
}

#[test]
fn instances_are_flattened_with_stride_eight() {
    let instances = vec![
        Instance {
            instance_position: [1.0f32.to_bits(), 2.0f32.to_bits(), 3.0f32.to_bits()],
            instance_direction: [4.0f32.to_bits(), 5.0f32.to_bits()],
            instance_color: [6.0f32.to_bits(), 7.0f32.to_bits(), 8.0f32.to_bits()],
        },
        Instance {
            instance_position: [9.0f32.to_bits(), 10.0f32.to_bits(), 11.0f32.to_bits()],
            instance_direction: [12.0f32.to_bits(), 13.0f32.to_bits()],
            instance_color: [14.0f32.to_bits(), 15.0f32.to_bits(), 16.0f32.to_bits()],
        },
    ];
    let flat = flatten_instances(&instances);
    assert_eq!(INSTANCE_STRIDE, 8);
    assert_eq!(flat.len(), INSTANCE_STRIDE * instances.len());
    let expected: Vec<f32> = (1..=16).map(|n| n as f32).collect();
    assert_eq!(numbers(&flat), expected);
}

#[test]
fn flat_mesh_keeps_indices_and_flattens_vertices() {
    let mesh = Mesh::new(
        vec![vertex(0.0, 0.0, 0.0), vertex(1.0, 0.0, 0.0), vertex(0.0, 1.0, 0.0)],
        vec![0, 1, 2],
    );
    let js = to_js_mesh(&mesh);
    assert_eq!(numbers(&js.vertices), vec![0.0, 0.0, 0.0, 1.0, 0.0, 0.0, 0.0, 1.0, 0.0]);
    assert_eq!(js.indices, vec![0u16, 1, 2]);
}

#[test]
fn flat_form_of_the_empty_mesh_is_empty() {
    let js = to_js_mesh(&Mesh::empty());
    assert!(js.vertices.is_empty());
    assert!(js.indices.is_empty());
}

#[test]
fn merging_appends_vertices_and_shifts_indices() {
    let mut left = Mesh::new(
        vec![vertex(0.0, 0.0, 0.0), vertex(1.0, 0.0, 0.0), vertex(0.0, 1.0, 0.0)],
        vec![0, 1, 2],
    );
    let right = Mesh::new(
        vec![vertex(5.0, 5.0, 0.0), vertex(6.0, 5.0, 0.0), vertex(5.0, 6.0, 0.0)],
        vec![2, 1, 0],
    );
    left.add_assign(&right);
    assert_eq!(left.vertices.len(), 6);
    assert_eq!(left.vertices[3], vertex(5.0, 5.0, 0.0));
    assert_eq!(left.indices, vec![0u16, 1, 2, 5, 4, 3]);
}

#[test]
fn merging_with_the_empty_mesh_changes_nothing() {
    let mesh = Mesh::new(vec![vertex(1.0, 2.0, 3.0)], vec![0, 0, 0]);
    let mut left = mesh.duplicate();
    left.add_assign(&Mesh::empty());
    assert_eq!(left, mesh);
    let mut right = Mesh::empty();
    right.add_assign(&mesh);
    assert_eq!(right, mesh);
}

#[test]
fn shifted_indices_count_round_within_sixteen_bits() {
    let many: Vec<Vertex> = (0..65535).map(|_| vertex(0.0, 0.0, 0.0)).collect();
    let mut left = Mesh::new(many, vec![]);
    let right = Mesh::new(vec![vertex(1.0, 1.0, 1.0), vertex(2.0, 2.0, 2.0)], vec![0, 1]);
    left.add_assign(&right);
    assert_eq!(left.vertices.len(), 65537);
    assert_eq!(left.indices, vec![65535u16, 0]);
}

#[test]
fn duplicate_of_a_mesh_is_equal_to_it() {
    let mesh = Mesh::new(vec![vertex(1.0, 2.0, 3.0), vertex(4.0, 5.0, 6.0)], vec![0, 1, 1]);
    assert_eq!(mesh.duplicate(), mesh);
}
