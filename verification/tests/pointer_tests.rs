use sim_admission::jsonptr::{escape, pointer_of};

#[test]
fn plain_tokens_are_unchanged() {
    assert_eq!(escape("metadata"), "metadata");
    assert_eq!(escape(""), "");
}

#[test]
fn slash_becomes_tilde_one() {
    assert_eq!(escape("simkube.io/simulation"), "simkube.io~1simulation");
    assert_eq!(escape("a/b/c"), "a~1b~1c");
}

#[test]
fn tilde_becomes_tilde_zero() {
    assert_eq!(escape("~"), "~0");
    assert_eq!(escape("a~1b"), "a~01b");
    assert_eq!(escape("~/"), "~0~1");
}

#[test]
fn pointers_join_escaped_segments() {
    let segs = vec![
        "metadata".to_string(),
        "labels".to_string(),
        "simkube.io/simulation".to_string(),
    ];
    assert_eq!(pointer_of(&segs), "/metadata/labels/simkube.io~1simulation");
    let empty: Vec<String> = Vec::new();
    assert_eq!(pointer_of(&empty), "");
}
