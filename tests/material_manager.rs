use kiss3d_materials::{
    BindingError, Channel, GpuCommand, MaterialKind, Matrixerial, MatrixerialManager, Shader,
};

fn names(v: &[&str]) -> Vec<String> {
    v.iter().map(|s| s.to_string()).collect()
}

fn normals_shader() -> Shader {
    Shader::new(names(&["position", "normal"]), names(&["view", "transform", "scale"]))
}

fn draws(cmds: &[GpuCommand]) -> Vec<usize> {
    cmds.iter()
        .filter_map(|c| match c {
            GpuCommand::DrawElements { count } => Some(*count),
            _ => None,
        })
        .collect()
}

#[test]
fn builtins_are_registered() {
    let m = MatrixerialManager::new();
    assert!(m.get("object").is_some());
    assert!(m.get("normals").is_some());
    assert!(m.get("uvs").is_some());
    let kinds: Vec<MaterialKind> = ["object", "normals", "uvs"]
        .iter()
        .map(|n| m.material(m.get(n).unwrap()).unwrap().kind())
        .collect();
    assert_eq!(kinds, vec![MaterialKind::Object, MaterialKind::Normals, MaterialKind::Uvs]);
}

#[test]
fn unknown_name_misses() {
    let m = MatrixerialManager::new();
    assert_eq!(m.get("wireframe"), None);
    assert_eq!(m.get(""), None);
    assert_eq!(m.get("Object"), None);
}

#[test]
fn default_is_the_object_material() {
    let m = MatrixerialManager::new();
    assert_eq!(m.get("object"), Some(m.get_default()));
    assert_eq!(m.material(m.get_default()).unwrap().kind(), MaterialKind::Object);
}

#[test]
fn default_survives_overwrite_and_removal() {
    let mut m = MatrixerialManager::new();
    let d = m.get_default();
    let h = m.share(Matrixerial::builtin(MaterialKind::Normals));
    m.add(h, "object");
    assert_eq!(m.get("object"), Some(h));
    assert_eq!(m.get_default(), d);
    m.remove("object");
    assert_eq!(m.get("object"), None);
    assert_eq!(m.get_default(), d);
    assert_eq!(m.material(d).unwrap().kind(), MaterialKind::Object);
}

#[test]
fn add_then_get_gives_the_same_material() {
    let mut m = MatrixerialManager::new();
    let h = m.share(Matrixerial::new(MaterialKind::Normals, normals_shader()).unwrap());
    m.add(h, "n");
    assert_eq!(m.get("n"), Some(h));
    let got = m.material(m.get("n").unwrap()).unwrap();
    assert_eq!(got.kind(), MaterialKind::Normals);
    assert_eq!(got.shader().attributes, names(&["position", "normal"]));
}

#[test]
fn overwrite_keeps_the_first_material() {
    let mut m = MatrixerialManager::new();
    let first = m.share(Matrixerial::builtin(MaterialKind::Uvs));
    let second = m.share(Matrixerial::builtin(MaterialKind::Normals));
    assert_ne!(first, second);
    m.add(first, "n");
    m.add(second, "n");
    assert_eq!(m.get("n"), Some(second));
    let kept = m.material(first).unwrap();
    assert_eq!(kept.kind(), MaterialKind::Uvs);
    assert_eq!(draws(&kept.render(0, 6)), vec![6]);
}

#[test]
fn removal_keeps_handles_valid() {
    let mut m = MatrixerialManager::new();
    let h0 = m.share(Matrixerial::builtin(MaterialKind::Uvs));
    m.add(h0, "n");
    let h = m.get("n").unwrap();
    m.remove("n");
    assert_eq!(m.get("n"), None);
    let mat = m.material(h).unwrap();
    assert_eq!(mat.kind(), MaterialKind::Uvs);
    assert_eq!(draws(&mat.render(1, 12)), vec![12]);
}

#[test]
fn removing_an_unknown_name_does_nothing() {
    let mut m = MatrixerialManager::new();
    m.remove("missing");
    assert!(m.get("object").is_some());
    assert!(m.get("normals").is_some());
    assert!(m.get("uvs").is_some());
}

#[test]
fn construction_binds_first_slots() {
    let shader = Shader::new(
        names(&["color", "normal", "position", "normal"]),
        names(&["scale", "view", "transform", "view"]),
    );
    let mat = Matrixerial::new(MaterialKind::Normals, shader).unwrap();
    let cmds = mat.render(0, 3);
    assert_eq!(
        cmds[..3],
        [
            GpuCommand::UseProgram,
            GpuCommand::EnableAttribute { slot: 2 },
            GpuCommand::EnableAttribute { slot: 1 },
        ]
    );
}

#[test]
fn missing_attribute_fails_construction() {
    let shader = Shader::new(names(&["position"]), names(&["view", "transform", "scale"]));
    match Matrixerial::new(MaterialKind::Normals, shader) {
        Err(BindingError::MissingAttribute { material, name }) => {
            assert_eq!(material, MaterialKind::Normals);
            assert_eq!(name, "normal");
        }
        other => panic!("unexpected {:?}", other),
    }
}

#[test]
fn first_missing_attribute_is_named() {
    let shader = Shader::new(names(&["normal"]), names(&[]));
    match Matrixerial::new(MaterialKind::Object, shader) {
        Err(BindingError::MissingAttribute { material, name }) => {
            assert_eq!(material, MaterialKind::Object);
            assert_eq!(name, "position");
        }
        other => panic!("unexpected {:?}", other),
    }
}

#[test]
fn missing_uniform_fails_construction() {
    let shader = Shader::new(names(&["position", "tex_coord"]), names(&["view", "scale"]));
    match Matrixerial::new(MaterialKind::Uvs, shader) {
        Err(BindingError::MissingUniform { material, name }) => {
            assert_eq!(material, MaterialKind::Uvs);
            assert_eq!(name, "transform");
        }
        other => panic!("unexpected {:?}", other),
    }
}

#[test]
fn object_needs_light_and_color() {
    let shader = Shader::new(
        names(&["position", "normal", "tex_coord"]),
        names(&["view", "transform", "scale", "light_position"]),
    );
    match Matrixerial::new(MaterialKind::Object, shader) {
        Err(BindingError::MissingUniform { name, .. }) => assert_eq!(name, "color"),
        other => panic!("unexpected {:?}", other),
    }
}

#[test]
fn shader_lookup_gives_first_slot() {
    let shader = Shader::new(names(&["a", "b", "a"]), names(&["u"]));
    assert_eq!(shader.get_attrib("a").map(|a| a.slot), Some(0));
    assert_eq!(shader.get_attrib("b").map(|a| a.slot), Some(1));
    assert!(shader.get_attrib("u").is_none());
    assert_eq!(shader.get_uniform("u").map(|u| u.slot), Some(0));
    assert!(shader.get_uniform("a").is_none());
}

#[test]
fn default_material_renders_one_draw() {
    let m = MatrixerialManager::new();
    let mat = m.material(m.get_default()).unwrap();
    let sphere_indices: usize = 2880;
    let cmds = mat.render(0, sphere_indices);
    let expected = vec![
        GpuCommand::UseProgram,
        GpuCommand::EnableAttribute { slot: 0 },
        GpuCommand::EnableAttribute { slot: 1 },
        GpuCommand::EnableAttribute { slot: 2 },
        GpuCommand::UploadUniform { role: kiss3d_materials::UniformRole::View, slot: 0, pass: 0 },
        GpuCommand::UploadUniform { role: kiss3d_materials::UniformRole::Transform, slot: 1, pass: 0 },
        GpuCommand::UploadUniform { role: kiss3d_materials::UniformRole::Scale, slot: 2, pass: 0 },
        GpuCommand::UploadUniform {
            role: kiss3d_materials::UniformRole::LightPosition,
            slot: 3,
            pass: 0,
        },
        GpuCommand::UploadUniform { role: kiss3d_materials::UniformRole::Color, slot: 4, pass: 0 },
        GpuCommand::BindAttribute { channel: Channel::Position, slot: 0 },
        GpuCommand::BindAttribute { channel: Channel::Normal, slot: 1 },
        GpuCommand::BindAttribute { channel: Channel::TexCoord, slot: 2 },
        GpuCommand::BindFaces,
        GpuCommand::DrawElements { count: 2880 },
        GpuCommand::Unbind,
        GpuCommand::DisableAttribute { slot: 0 },
        GpuCommand::DisableAttribute { slot: 1 },
        GpuCommand::DisableAttribute { slot: 2 },
    ];
    assert_eq!(cmds, expected);
    assert_eq!(draws(&cmds), vec![sphere_indices]);
}

#[test]
fn every_enabled_attribute_is_disabled_after_the_draw() {
    for kind in [MaterialKind::Object, MaterialKind::Normals, MaterialKind::Uvs] {
        let cmds = Matrixerial::builtin(kind).render(2, 0);
        let draw_at = cmds.iter().position(|c| matches!(c, GpuCommand::DrawElements { .. })).unwrap();
        assert_eq!(cmds[draw_at + 1], GpuCommand::Unbind);
        for (i, c) in cmds.iter().enumerate() {
            if let GpuCommand::EnableAttribute { slot } = c {
                assert!(cmds[draw_at..]
                    .iter()
                    .any(|d| *d == GpuCommand::DisableAttribute { slot: *slot }));
                assert!(i < draw_at);
            }
        }
        assert_eq!(draws(&cmds), vec![0]);
    }
}

#[test]
fn builtin_shader_exposes_required_names() {
    let mat = Matrixerial::builtin(MaterialKind::Uvs);
    assert_eq!(mat.shader().attributes, names(&["position", "tex_coord"]));
    assert_eq!(mat.shader().uniforms, names(&["view", "transform", "scale"]));
}

#[test]
fn binding_error_names_material_and_input() {
    let shader = Shader::new(names(&["position"]), names(&["view", "transform", "scale"]));
    let err = Matrixerial::new(MaterialKind::Normals, shader).unwrap_err();
    assert_eq!(err.message(), "normals material: missing attribute `normal`");
    let shader = Shader::new(names(&["position", "tex_coord"]), names(&["view", "transform"]));
    let err = Matrixerial::new(MaterialKind::Uvs, shader).unwrap_err();
    assert_eq!(err.message(), "uvs material: missing uniform `scale`");
}
