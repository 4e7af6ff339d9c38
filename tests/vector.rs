use pg_nlp::error::NlpError;
use pg_nlp::vector::{check_finite, serialize_vector};

fn element_texts(v: &[f32]) -> Vec<String> {
    let mut buffer = ryu::Buffer::new();
    v.iter().map(|f| buffer.format(*f).to_string()).collect()
}

fn bits(v: &[f32]) -> Vec<u32> {
    v.iter().map(|f| f.to_bits()).collect()
}

#[test]
fn serialize_vector_test() {
    assert_eq!(serialize_vector(&element_texts(&[])), "[]");
    assert_eq!(serialize_vector(&element_texts(&[0.12345678907])), "[0.12345679]");
    assert_eq!(serialize_vector(&element_texts(&[1.0, 2.0])), "[1.0,2.0]");
}

#[test]
fn frames_texts_exactly() {
    assert_eq!(serialize_vector(&vec![]), "[]");
    assert_eq!(serialize_vector(&vec!["a".to_string()]), "[a]");
    assert_eq!(
        serialize_vector(&vec!["-1.5".to_string(), "0.0".to_string(), "3e-7".to_string()]),
        "[-1.5,0.0,3e-7]"
    );
}

#[test]
fn serialized_text_parses_back_to_the_same_bits() {
    let v = [0.1f32, -2.5, 1e-30, 3.4028235e38, f32::MIN_POSITIVE, 1.0 / 3.0];
    let text = serialize_vector(&element_texts(&v));
    let inner = &text[1..text.len() - 1];
    let back: Vec<f32> = inner.split(',').map(|p| p.parse().unwrap()).collect();
    assert_eq!(bits(&back), bits(&v));
}

#[test]
fn finite_vectors_are_accepted() {
    assert_eq!(check_finite(&bits(&[])), Ok(()));
    assert_eq!(check_finite(&bits(&[0.0, -0.0, 1.0, f32::MAX, f32::MIN, 1e-45])), Ok(()));
}

#[test]
fn non_finite_values_are_rejected() {
    assert_eq!(check_finite(&bits(&[1.0, f32::NAN])), Err(NlpError::SerializationError));
    assert_eq!(check_finite(&bits(&[f32::INFINITY])), Err(NlpError::SerializationError));
    assert_eq!(
        check_finite(&bits(&[f32::NEG_INFINITY, 2.0])),
        Err(NlpError::SerializationError)
    );
}
