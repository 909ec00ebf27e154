use pathtracer::model::choose_material;
use pathtracer::model::faces;
use pathtracer::model::MaterialChoice;
use pathtracer::model::MeshError;
use pathtracer::mtl::process_mtl_file;

#[test]
fn triangles_take_every_attribute_the_mesh_has() {
    let indices = vec![0, 1, 2, 2, 1, 3];
    let list = faces(&indices, 12, 8, 12).unwrap();
    assert_eq!(list.len(), 2);
    assert_eq!(list[0].position, [0, 1, 2]);
    assert_eq!(list[0].texcoord, [Some(0), Some(1), Some(2)]);
    assert_eq!(list[0].normal, [Some(0), Some(1), Some(2)]);
    assert_eq!(list[1].position, [2, 1, 3]);
    assert_eq!(list[1].texcoord, [Some(2), Some(1), Some(3)]);
    assert_eq!(list[1].normal, [Some(2), Some(1), Some(3)]);
}

#[test]
fn missing_attributes_are_left_out() {
    let indices = vec![0, 1, 2];
    let list = faces(&indices, 9, 0, 0).unwrap();
    assert_eq!(list[0].position, [0, 1, 2]);
    assert_eq!(list[0].texcoord, [None, None, None]);
    assert_eq!(list[0].normal, [None, None, None]);
    // Texture coordinates for the first two vertices only.
    let list = faces(&indices, 9, 4, 0).unwrap();
    assert_eq!(list[0].texcoord, [Some(0), Some(1), None]);
    let list = faces(&indices, 9, 5, 0).unwrap();
    assert_eq!(list[0].texcoord, [Some(0), Some(1), None]);
    let list = faces(&indices, 9, 6, 0).unwrap();
    assert_eq!(list[0].texcoord, [Some(0), Some(1), Some(2)]);
    assert!(faces(&Vec::new(), 0, 0, 0).unwrap().is_empty());
}

#[test]
fn third_normal_follows_the_first_corner() {
    // Vertex 2 comes first and has no normal: the third corner gets none,
    // though its own vertex has one.
    let list = faces(&vec![2, 1, 0], 9, 0, 6).unwrap();
    assert_eq!(list[0].normal, [None, Some(1), None]);
    let list = faces(&vec![0, 2, 1], 9, 0, 6).unwrap();
    assert_eq!(list[0].normal, [Some(0), None, Some(1)]);
}

#[test]
fn indices_that_cannot_be_read_are_refused() {
    assert_eq!(faces(&vec![0, 1], 9, 0, 0).unwrap_err(), MeshError::RaggedIndices(0));
    assert_eq!(faces(&vec![0, 1, 2, 0], 9, 0, 0).unwrap_err(), MeshError::RaggedIndices(1));
    assert_eq!(faces(&vec![0, 1, 2, 0, 1], 9, 0, 0).unwrap_err(), MeshError::RaggedIndices(1));
    assert_eq!(faces(&vec![0, 1, 3], 9, 0, 0).unwrap_err(), MeshError::PositionOutOfRange(0));
    assert_eq!(faces(&vec![0, 1, 2], 8, 0, 0).unwrap_err(), MeshError::PositionOutOfRange(0));
    assert_eq!(
        faces(&vec![0, 1, 2, 0, u32::MAX, 1], 9, 0, 0).unwrap_err(),
        MeshError::PositionOutOfRange(1)
    );
    assert_eq!(faces(&vec![0, 1, 2], 9, 0, 6).unwrap_err(), MeshError::NormalOutOfRange(0));
    assert_eq!(
        faces(&vec![0, 1, 1, 1, 0, 2], 9, 0, 6).unwrap_err(),
        MeshError::NormalOutOfRange(1)
    );
    // The earlier fault wins.
    assert_eq!(
        faces(&vec![0, 1, 5, 0, 1], 9, 0, 0).unwrap_err(),
        MeshError::PositionOutOfRange(0)
    );
}

#[test]
fn material_is_found_by_the_name_the_model_lists() {
    let text = "newmtl wood\nnewmtl leaf\nnewmtl wood\n";
    let lines: Vec<String> = text.lines().map(|l| l.to_string()).collect();
    let library = process_mtl_file(&lines).unwrap();
    let names = vec!["leaf".to_string(), "stone".to_string(), "wood".to_string()];
    assert_eq!(choose_material(Some(0), &names, &library), MaterialChoice::Named(1));
    assert_eq!(choose_material(Some(2), &names, &library), MaterialChoice::Named(2));
    assert_eq!(choose_material(Some(1), &names, &library), MaterialChoice::UnknownName);
    assert_eq!(choose_material(Some(3), &names, &library), MaterialChoice::UnknownId);
    assert_eq!(choose_material(None, &names, &library), MaterialChoice::NoId);
    assert_eq!(choose_material(Some(0), &Vec::new(), &library), MaterialChoice::UnknownId);
}

#[test]
fn missing_materials_have_their_colours() {
    let rgb = |c: MaterialChoice| {
        c.fallback_color().map(|v| {
            (
                f64::from_bits(v.x.to_bits()),
                f64::from_bits(v.y.to_bits()),
                f64::from_bits(v.z.to_bits()),
            )
        })
    };
    assert_eq!(rgb(MaterialChoice::UnknownName), Some((0.8, 0.0, 0.0)));
    assert_eq!(rgb(MaterialChoice::UnknownId), Some((0.0, 0.8, 0.0)));
    assert_eq!(rgb(MaterialChoice::NoId), Some((0.0, 0.0, 0.8)));
    assert_eq!(rgb(MaterialChoice::Named(4)), None);
}
