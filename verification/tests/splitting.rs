use db_ingest::splitter::{chunk_vec, plan_split, SplitError};

#[test]
fn chunks_keep_order_and_sizes() {
    let v: Vec<u64> = vec![1, 2, 3, 4, 5, 6, 7];
    let chunks = chunk_vec(v, 3);
    assert_eq!(chunks, vec![vec![1, 2, 3], vec![4, 5, 6], vec![7]]);
}

#[test]
fn chunks_concatenate_back_to_the_source() {
    let v: Vec<u64> = (0..25).collect();
    let chunks = chunk_vec(v.clone(), 4);
    let mut rebuilt: Vec<u64> = Vec::new();
    for c in &chunks {
        assert!(c.len() <= 4);
        rebuilt.extend_from_slice(c);
    }
    assert_eq!(rebuilt, v);
    for c in &chunks[..chunks.len() - 1] {
        assert_eq!(c.len(), 4);
    }
    assert_eq!(chunks.last().unwrap().len(), 1);
}

#[test]
fn an_evenly_divided_source_has_a_full_last_chunk() {
    let v: Vec<u64> = vec![1, 2, 3, 4];
    let chunks = chunk_vec(v, 2);
    assert_eq!(chunks, vec![vec![1, 2], vec![3, 4]]);
}

#[test]
fn an_empty_source_has_no_chunks() {
    let v: Vec<u64> = Vec::new();
    let chunks = chunk_vec(v, 3);
    assert!(chunks.is_empty());
}

#[test]
fn a_split_size_larger_than_the_source_gives_one_chunk() {
    let v: Vec<u64> = vec![1, 2];
    let chunks = chunk_vec(v, 10);
    assert_eq!(chunks, vec![vec![1, 2]]);
}

#[test]
fn plan_lays_out_numbered_chunk_files() {
    let plan = plan_split("data/roller.json", "[1, 2, 3, 4, 5]", 2).unwrap();
    assert_eq!(plan.dir, "data/roller");
    let files: Vec<(&str, &str)> = plan
        .files
        .iter()
        .map(|(p, b)| (p.as_str(), b.as_str()))
        .collect();
    assert_eq!(
        files,
        vec![
            ("data/roller/0.json", "[1,2]"),
            ("data/roller/1.json", "[3,4]"),
            ("data/roller/2.json", "[5]"),
        ]
    );
}

#[test]
fn plan_keeps_nested_values_intact() {
    let plan = plan_split("a.txt", "[{\"k\": [1, null]}, true]", 1).unwrap();
    assert_eq!(plan.dir, "a");
    assert_eq!(plan.files[0], ("a/0.txt".to_string(), "[{\"k\":[1,null]}]".to_string()));
    assert_eq!(plan.files[1], ("a/1.txt".to_string(), "[true]".to_string()));
}

#[test]
fn a_non_array_top_level_is_an_error_and_plans_nothing() {
    let r = plan_split("data/roller.json", "{\"a\": 1}", 2);
    assert_eq!(r, Err(SplitError::NotArray));
}

#[test]
fn an_unparsable_source_is_an_error() {
    let r = plan_split("data/roller.json", "oops", 2);
    assert!(matches!(r, Err(SplitError::NotJson(_))));
}

#[test]
fn a_path_without_an_extension_is_an_error() {
    let r = plan_split("justaname", "[1]", 2);
    assert_eq!(r, Err(SplitError::NoExtension));
}

#[test]
fn an_empty_array_plans_no_files() {
    let plan = plan_split("x.json", "[]", 3).unwrap();
    assert_eq!(plan.dir, "x");
    assert!(plan.files.is_empty());
}

#[test]
fn the_extension_after_the_last_dot_is_kept() {
    let plan = plan_split("a.b/c.d.json", "[0]", 1).unwrap();
    assert_eq!(plan.dir, "a.b/c.d");
    assert_eq!(plan.files[0].0, "a.b/c.d/0.json");
}

#[test]
fn chunk_texts_are_rendered_compactly() {
    let plan = plan_split("v.json", "[\"x\", \"y\"]", 1).unwrap();
    assert_eq!(plan.files[0].1, "[\"x\"]");
    assert_eq!(plan.files[1].1, "[\"y\"]");
}
