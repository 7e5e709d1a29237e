use unm::uniform::{
    f32_bits_equal, fill_uniform_buffer, get_uniform_type_info, place_uniform_bytes,
    to_uniform_value, uniform_equal, uniform_to_bytes, Uniform, UniformDef, UniformSizeMismatch,
};
use unm::uniform_layout::calculate_uniform_offsets_and_total_size;
use unm::uniform_values::UniformValues;

fn f(x: f32) -> u32 {
    x.to_bits()
}

#[test]
fn type_info_follows_wgsl_rules() {
    assert_eq!(get_uniform_type_info(&UniformDef::F32), (4, 4));
    assert_eq!(get_uniform_type_info(&UniformDef::Vec2), (8, 8));
    assert_eq!(get_uniform_type_info(&UniformDef::Vec3), (16, 16));
    assert_eq!(get_uniform_type_info(&UniformDef::Vec4), (16, 16));
    assert_eq!(get_uniform_type_info(&UniformDef::Mat4), (64, 16));
}

#[test]
fn float_bit_equality_is_ieee_equality() {
    assert!(f32_bits_equal(f(1.5), f(1.5)));
    assert!(!f32_bits_equal(f(1.5), f(2.5)));
    assert!(f32_bits_equal(f(0.0), f(-0.0)));
    assert!(!f32_bits_equal(f(f32::NAN), f(f32::NAN)));
    assert!(!f32_bits_equal(f(f32::NAN), f(1.0)));
    assert!(f32_bits_equal(f(f32::INFINITY), f(f32::INFINITY)));
    assert!(!f32_bits_equal(f(f32::INFINITY), f(f32::NEG_INFINITY)));
}

#[test]
fn uniform_equality_compares_type_and_floats() {
    let a = Uniform::Vec2([f(1.0), f(0.0)]);
    let b = Uniform::Vec2([f(1.0), f(-0.0)]);
    let c = Uniform::Vec2([f(1.0), f(2.0)]);
    assert!(uniform_equal(&a, &b));
    assert!(!uniform_equal(&a, &c));
    assert!(!uniform_equal(&Uniform::F32(f(1.0)), &Uniform::Vec2([f(1.0), f(1.0)])));
    assert!(!uniform_equal(&Uniform::F32(f(f32::NAN)), &Uniform::F32(f(f32::NAN))));
    let m = Uniform::Mat4([[f(1.0); 4]; 4]);
    let mut cols = [[f(1.0); 4]; 4];
    assert!(uniform_equal(&m, &Uniform::Mat4(cols)));
    cols[3][2] = f(3.0);
    assert!(!uniform_equal(&m, &Uniform::Mat4(cols)));
}

#[test]
fn default_values_are_zero_of_the_type() {
    assert!(matches!(to_uniform_value(&UniformDef::F32), Uniform::F32(0)));
    assert!(matches!(to_uniform_value(&UniformDef::Vec3), Uniform::Vec3([0, 0, 0])));
    assert!(matches!(to_uniform_value(&UniformDef::Mat4), Uniform::Mat4(m) if m == [[0; 4]; 4]));
}

#[test]
fn uniform_bytes_have_slot_sizes_and_native_floats() {
    let one = uniform_to_bytes(&Uniform::F32(f(1.0)));
    assert_eq!(one, 1.0f32.to_ne_bytes().to_vec());
    let v3 = uniform_to_bytes(&Uniform::Vec3([f(1.0), f(2.0), f(3.0)]));
    assert_eq!(v3.len(), 16);
    let mut expected = Vec::new();
    for x in [1.0f32, 2.0, 3.0] {
        expected.extend_from_slice(&x.to_ne_bytes());
    }
    expected.extend_from_slice(&[0, 0, 0, 0]);
    assert_eq!(v3, expected);
    assert_eq!(uniform_to_bytes(&Uniform::Vec2([f(1.0), f(1.0)])).len(), 8);
    assert_eq!(uniform_to_bytes(&Uniform::Vec4([f(1.0); 4])).len(), 16);
    let m = uniform_to_bytes(&Uniform::Mat4([[f(0.0); 4]; 4]));
    assert_eq!(m, vec![0u8; 64]);
}

#[test]
fn placing_bytes_checks_the_size() {
    let mut buf = vec![0u8; 8];
    assert!(place_uniform_bytes(&mut buf, 4, 4, &vec![1, 2, 3, 4]));
    assert_eq!(buf, vec![0, 0, 0, 0, 1, 2, 3, 4]);
    assert!(!place_uniform_bytes(&mut buf, 0, 4, &vec![9, 9]));
    assert_eq!(buf, vec![0, 0, 0, 0, 1, 2, 3, 4]);
}

#[test]
fn filling_the_buffer_writes_each_slot() {
    let defs = vec![("b".to_string(), UniformDef::Vec2), ("a".to_string(), UniformDef::F32)];
    let (layout, total) = calculate_uniform_offsets_and_total_size(&defs);
    assert_eq!(total, 16);
    // slots in name order: a at 0 (4 bytes), b at 8 (8 bytes)
    let values = vec![Some(vec![1, 1, 1, 1]), None];
    let buf = fill_uniform_buffer(&layout, total, &values).unwrap();
    assert_eq!(buf, vec![1, 1, 1, 1, 0, 0, 0, 0, 0, 0, 0, 0, 0, 0, 0, 0]);
    let values = vec![None, Some(vec![2; 8])];
    let buf = fill_uniform_buffer(&layout, total, &values).unwrap();
    assert_eq!(buf, vec![0, 0, 0, 0, 0, 0, 0, 0, 2, 2, 2, 2, 2, 2, 2, 2]);
}

#[test]
fn filling_the_buffer_rejects_a_value_of_the_wrong_size() {
    let defs = vec![("a".to_string(), UniformDef::F32), ("b".to_string(), UniformDef::Vec4)];
    let (layout, total) = calculate_uniform_offsets_and_total_size(&defs);
    assert_eq!(total, 32);
    let values = vec![Some(vec![1, 1, 1, 1]), Some(vec![0; 8])];
    let err = fill_uniform_buffer(&layout, total, &values).unwrap_err();
    assert_eq!(err, UniformSizeMismatch { index: 1, expected: 16, got: 8 });
}

#[test]
fn uniform_values_keep_one_value_per_name() {
    let mut v = UniformValues::new();
    assert!(v.get(&"x".to_string()).is_none());
    v.insert("x".to_string(), Uniform::F32(f(1.0)));
    v.insert("y".to_string(), Uniform::F32(f(2.0)));
    v.insert("x".to_string(), Uniform::F32(f(3.0)));
    assert!(matches!(v.get(&"x".to_string()), Some(Uniform::F32(b)) if b == f(3.0)));
    assert!(matches!(v.get(&"y".to_string()), Some(Uniform::F32(b)) if b == f(2.0)));
    let c = v.copy();
    assert!(c.same_as(&v));
    let mut w = UniformValues::new();
    w.insert("y".to_string(), Uniform::F32(f(2.0)));
    w.insert("x".to_string(), Uniform::F32(f(3.0)));
    assert!(w.same_as(&v));
    w.insert("x".to_string(), Uniform::F32(f(4.0)));
    assert!(!w.same_as(&v));
    let mut z = UniformValues::new();
    z.insert("x".to_string(), Uniform::F32(f(3.0)));
    assert!(!z.same_as(&v));
}
