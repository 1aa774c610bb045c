use hive::compute::{deserialize_matrix, serialize_matrix, ComputeEngine, MatrixFormatError, MatrixFrame};

#[test]
fn engine_is_constructed() {
    assert_eq!(ComputeEngine::new(), ComputeEngine);
}

#[test]
fn frame_layout() {
    let m = MatrixFrame { rows: 1, cols: 2, cells: vec![1.0f32.to_bits(), 0x01020304] };
    let b = serialize_matrix(&m);
    assert_eq!(
        b,
        vec![1, 0, 0, 0, 0, 0, 0, 0, 2, 0, 0, 0, 0, 0, 0, 0, 0, 0, 0x80, 0x3f, 4, 3, 2, 1]
    );
}

#[test]
fn frame_round_trip() {
    let cells: Vec<u32> = [1.5f32, -2.0, 0.25, 8.0, 3.0, 0.0].iter().map(|f| f.to_bits()).collect();
    let m = MatrixFrame { rows: 2, cols: 3, cells };
    let back = deserialize_matrix(&serialize_matrix(&m)).unwrap();
    assert_eq!(back, m);
    assert_eq!(f32::from_bits(back.cells[0]), 1.5);
}

#[test]
fn empty_matrix_round_trip() {
    let m = MatrixFrame { rows: 0, cols: 5, cells: vec![] };
    assert_eq!(deserialize_matrix(&serialize_matrix(&m)), Ok(m));
}

#[test]
fn frame_errors() {
    assert_eq!(deserialize_matrix(&[0u8; 15]), Err(MatrixFormatError::TooShort));
    assert_eq!(deserialize_matrix(&[0u8; 18]), Err(MatrixFormatError::PartialCell));
    let mut b = vec![0u8; 16];
    b[0] = 1;
    b[8] = 1;
    assert_eq!(deserialize_matrix(&b), Err(MatrixFormatError::ShapeMismatch));
    b.extend_from_slice(&[0, 0, 0, 0]);
    assert_eq!(deserialize_matrix(&b).unwrap().cells, vec![0]);
}

#[test]
fn huge_shape_is_mismatch() {
    let mut b = vec![0xffu8; 16];
    b.extend_from_slice(&[0, 0, 0, 0]);
    assert_eq!(deserialize_matrix(&b), Err(MatrixFormatError::ShapeMismatch));
}
