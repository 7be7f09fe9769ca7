use aleph_alpha_client::cosine_similarity;
use search_stack_exchange::{extract_titles, Embedding, Embeddings};

fn store_of(count: usize) -> Embeddings {
    Embeddings::from_vec(vec![Embedding::new(); count])
}

fn most_similar(similarities: &[f32]) -> usize {
    let bits: Vec<u32> = similarities.iter().map(|similarity| similarity.to_bits()).collect();
    store_of(bits.len()).find_most_similar(&bits)
}

fn embedding(components: impl Fn(usize) -> f32) -> Embedding {
    let bits: Vec<u32> = (0..128).map(|i| components(i).to_bits()).collect();
    Embedding::try_from_slice(&bits).unwrap()
}

fn floats(embedding: &Embedding) -> Vec<f32> {
    embedding.0.iter().map(|bits| f32::from_bits(*bits)).collect()
}

fn nearest(embeddings: &Embeddings, needle: &Embedding) -> usize {
    let similarities: Vec<u32> = (0..embeddings.len())
        .map(|index| embeddings.get(index).unwrap())
        .map(|stored| cosine_similarity(&floats(&stored), &floats(needle)).to_bits())
        .collect();
    embeddings.find_most_similar(&similarities)
}

#[test]
fn similarity_of_a_vector_with_itself_is_one_and_the_order_does_not_matter() {
    let left = embedding(|i| (i as f32 * 0.37).sin() + 0.2);
    let right = embedding(|i| (i as f32 * 0.91).cos() - 0.1);
    let own = cosine_similarity(&floats(&left), &floats(&left));
    assert!((own - 1.0).abs() < 1.0e-5);
    assert_eq!(
        cosine_similarity(&floats(&left), &floats(&right)).to_bits(),
        cosine_similarity(&floats(&right), &floats(&left)).to_bits()
    );
}

#[test]
fn single_similarity_is_the_most_similar() {
    assert_eq!(0, most_similar(&[0.3]));
    assert_eq!(0, most_similar(&[-1.0]));
    assert_eq!(0, most_similar(&[f32::NEG_INFINITY]));
}

#[test]
fn greatest_similarity_wins() {
    assert_eq!(2, most_similar(&[0.1, 0.5, 0.9, 0.7]));
    assert_eq!(0, most_similar(&[0.95, 0.5, 0.9, 0.7]));
    assert_eq!(3, most_similar(&[0.1, 0.5, 0.9, 0.99]));
    assert_eq!(1, most_similar(&[-0.9, -0.1, -0.5]));
    assert_eq!(2, most_similar(&[-0.9, -0.1, 0.0, -0.5]));
    assert_eq!(1, most_similar(&[1.0e-40, 2.0e-40, -3.0e-40]));
    assert_eq!(1, most_similar(&[1.0, 1.000_000_1, 0.999_999_9]));
}

#[test]
fn first_of_equal_similarities_wins() {
    assert_eq!(1, most_similar(&[0.2, 0.8, 0.8]));
    assert_eq!(0, most_similar(&[0.8, 0.8, 0.8, 0.8]));
    assert_eq!(1, most_similar(&[-2.0, -1.0, -1.0, -3.0, -1.0]));
    assert_eq!(2, most_similar(&[0.1, 0.2, 1.0, 0.3, 1.0, 1.0]));
}

#[test]
fn the_two_zeros_are_equal() {
    assert_eq!(0, most_similar(&[-0.0, 0.0]));
    assert_eq!(0, most_similar(&[0.0, -0.0]));
    assert_eq!(1, most_similar(&[-1.0, -0.0, 0.0]));
}

#[test]
fn infinities_stand_at_the_ends() {
    assert_eq!(1, most_similar(&[f32::MAX, f32::INFINITY, 1.0]));
    assert_eq!(2, most_similar(&[f32::NEG_INFINITY, f32::MIN, -1.0e30]));
    assert_eq!(0, most_similar(&[f32::MIN, f32::NEG_INFINITY]));
}

#[test]
fn order_of_similarities_is_the_order_of_the_numbers() {
    let numbers = [
        f32::NEG_INFINITY,
        f32::MIN,
        -1.5,
        -1.0,
        -f32::MIN_POSITIVE,
        -1.0e-45,
        0.0,
        1.0e-45,
        f32::MIN_POSITIVE,
        0.5,
        1.0,
        f32::MAX,
        f32::INFINITY,
    ];
    for low in 0..numbers.len() {
        for high in low + 1..numbers.len() {
            assert_eq!(1, most_similar(&[numbers[low], numbers[high]]));
            assert_eq!(0, most_similar(&[numbers[high], numbers[low]]));
        }
    }
}

#[test]
fn query_among_the_stored_vectors_is_found() {
    let stored = vec![
        embedding(|i| (i as f32).sin()),
        embedding(|i| (i as f32 * 0.3).cos()),
        embedding(|i| 1.0 + (i % 7) as f32),
        embedding(|i| if i % 2 == 0 { 1.0 } else { -1.0 }),
    ];
    let embeddings = Embeddings::from_vec(stored.clone());
    for (index, needle) in stored.iter().enumerate() {
        assert_eq!(index, nearest(&embeddings, needle));
    }
}

#[test]
fn identical_copies_of_the_query_give_the_lower_index() {
    let needle = embedding(|i| (i as f32 * 0.11).sin());
    let other = embedding(|i| (i as f32 * 0.7).cos());
    let embeddings = Embeddings::from_vec(vec![other, needle, other, needle, needle]);
    assert_eq!(1, nearest(&embeddings, &needle));
}

#[test]
fn second_title_is_closest_to_the_query() {
    let titles = extract_titles(
        b"<?xml version=\"1.0\" encoding=\"utf-8\"?>\n<posts>\n\
          <row Id=\"1\" PostTypeId=\"1\" Title=\"Fast but blurry prints\" Body=\"a\" />\n\
          <row Id=\"2\" PostTypeId=\"1\" Title=\"Is 3D printing safe for your health?\" Body=\"b\" />\n\
          <row Id=\"4\" PostTypeId=\"2\" ParentId=\"2\" Body=\"c\" />\n\
          <row Id=\"3\" PostTypeId=\"1\" Title=\"Minimum layer height for large objects\" Body=\"d\" />\n\
          </posts>"
            .to_vec(),
    )
    .unwrap();
    let embeddings = Embeddings::from_vec(vec![
        embedding(|i| if i < 40 { 1.0 } else { 0.05 }),
        embedding(|i| if (40..80).contains(&i) { 1.0 } else { 0.05 }),
        embedding(|i| if i >= 80 { 1.0 } else { 0.05 }),
    ]);
    let mut bytes = Vec::new();
    embeddings.write(&mut bytes);
    let cached = Embeddings::from_reader_n(&mut bytes.as_slice(), titles.len()).unwrap();
    let query = embedding(|i| if (35..85).contains(&i) { 0.9 } else { 0.1 });

    let pos_answer = nearest(&cached, &query);
    let best_question = &titles[pos_answer];

    assert_eq!(1, pos_answer);
    assert_eq!("Is 3D printing safe for your health?", best_question);
}
