use unm::uniform::UniformDef;
use unm::uniform_layout::calculate_uniform_offsets_and_total_size;

#[test]
fn uniforms_are_laid_out_by_name_with_wgsl_alignment() {
    let defs = vec![("b".to_string(), UniformDef::Vec3), ("a".to_string(), UniformDef::F32)];
    let (layout, total) = calculate_uniform_offsets_and_total_size(&defs);
    assert_eq!(total, 32);
    assert_eq!(layout.get(&"a".to_string()), Some((0, 4)));
    assert_eq!(layout.get(&"b".to_string()), Some((16, 16)));
    assert_eq!(layout.get(&"c".to_string()), None);
    assert!(layout.contains_key(&"a".to_string()));
    assert!(!layout.contains_key(&"c".to_string()));
    let names: Vec<&str> = layout.entries().iter().map(|e| e.0.as_str()).collect();
    assert_eq!(names, vec!["a", "b"]);
}

#[test]
fn matrix_and_vectors_layout() {
    let defs = vec![
        ("m".to_string(), UniformDef::Mat4),
        ("a".to_string(), UniformDef::Vec2),
        ("z".to_string(), UniformDef::F32),
    ];
    let (layout, total) = calculate_uniform_offsets_and_total_size(&defs);
    assert_eq!(layout.get(&"a".to_string()), Some((0, 8)));
    assert_eq!(layout.get(&"m".to_string()), Some((16, 64)));
    assert_eq!(layout.get(&"z".to_string()), Some((80, 4)));
    // the struct's size is rounded up to its largest alignment, 16
    assert_eq!(total, 96);
}

#[test]
fn layout_does_not_depend_on_the_order_given() {
    let d1 = vec![
        ("time".to_string(), UniformDef::F32),
        ("color".to_string(), UniformDef::Vec4),
        ("offset".to_string(), UniformDef::Vec2),
    ];
    let d2 = vec![
        ("offset".to_string(), UniformDef::Vec2),
        ("time".to_string(), UniformDef::F32),
        ("color".to_string(), UniformDef::Vec4),
    ];
    let (l1, t1) = calculate_uniform_offsets_and_total_size(&d1);
    let (l2, t2) = calculate_uniform_offsets_and_total_size(&d2);
    assert_eq!(t1, t2);
    assert_eq!(l1.entries(), l2.entries());
    assert_eq!(l1.get(&"color".to_string()), Some((0, 16)));
    assert_eq!(l1.get(&"offset".to_string()), Some((16, 8)));
    assert_eq!(l1.get(&"time".to_string()), Some((24, 4)));
    assert_eq!(t1, 32);
}

#[test]
fn names_are_ordered_by_bytes() {
    let defs = vec![
        ("é".to_string(), UniformDef::F32),
        ("Z".to_string(), UniformDef::F32),
        ("a".to_string(), UniformDef::F32),
        ("ab".to_string(), UniformDef::F32),
    ];
    let (layout, total) = calculate_uniform_offsets_and_total_size(&defs);
    let names: Vec<&str> = layout.entries().iter().map(|e| e.0.as_str()).collect();
    assert_eq!(names, vec!["Z", "a", "ab", "é"]);
    assert_eq!(total, 16);
    assert_eq!(layout.get(&"é".to_string()), Some((12, 4)));
}

#[test]
fn no_uniforms_no_bytes() {
    let (layout, total) = calculate_uniform_offsets_and_total_size(&Vec::new());
    assert_eq!(total, 0);
    assert!(layout.entries().is_empty());
}

#[test]
fn block_size_is_rounded_to_the_largest_alignment() {
    let defs = vec![("a".to_string(), UniformDef::Vec4), ("b".to_string(), UniformDef::F32)];
    let (layout, total) = calculate_uniform_offsets_and_total_size(&defs);
    assert_eq!(layout.get(&"a".to_string()), Some((0, 16)));
    assert_eq!(layout.get(&"b".to_string()), Some((16, 4)));
    assert_eq!(total, 32);
    let defs = vec![("x".to_string(), UniformDef::F32), ("y".to_string(), UniformDef::Vec2)];
    let (_, total) = calculate_uniform_offsets_and_total_size(&defs);
    assert_eq!(total, 16);
    let defs = vec![("x".to_string(), UniformDef::F32)];
    let (_, total) = calculate_uniform_offsets_and_total_size(&defs);
    assert_eq!(total, 4);
}
