use swf_metadata::paths::{is_swf_path, output_path_for};

fn chars(v: Vec<char>) -> String {
    v.into_iter().collect()
}

#[test]
fn test_output_path_generation_json() {
    let output = chars(output_path_for("test.swf", "json"));
    assert_eq!(output, "test.swf.json");
}

#[test]
fn test_output_path_generation_yaml() {
    let output = chars(output_path_for("test.swf", "yaml"));
    assert_eq!(output, "test.swf.yaml");
}

#[test]
fn test_output_path_generation_text() {
    let output = chars(output_path_for("test.swf", "text"));
    assert_eq!(output, "test.swf.text");
}

#[test]
fn test_output_path_with_directory() {
    let output = chars(output_path_for("/path/to/animation.swf", "json"));
    assert_eq!(output, "/path/to/animation.swf.json");
}

#[test]
fn test_output_path_matches_std_with_extension() {
    // The derivation agrees with replacing the extension by "swf.<format>"
    // through the standard library's path handling.
    for (p, fmt) in [
        ("test.swf", "json"),
        ("/path/to/animation.swf", "yaml"),
        ("movie.mp4", "json"),
        ("noext", "text"),
        ("dir.d/file.SWF", "json"),
    ] {
        let ours = chars(output_path_for(p, fmt));
        let std_way = std::path::PathBuf::from(p)
            .with_extension(format!("swf.{}", fmt))
            .to_str()
            .unwrap()
            .to_string();
        assert_eq!(ours, std_way, "for input {:?}", p);
    }
}

#[test]
fn test_output_path_without_swf_suffix() {
    // A file with no recognizable extension still gets .swf.<format>
    // appended under the extension-replacement rule.
    assert_eq!(chars(output_path_for("archive", "json")), "archive.swf.json");
    assert_eq!(chars(output_path_for("movie.mp4", "json")), "movie.swf.json");
}

#[test]
fn test_is_swf_extension_lowercase() {
    assert!(is_swf_path("test.swf"));
}

#[test]
fn test_is_swf_extension_uppercase() {
    assert!(is_swf_path("test.SWF"));
}

#[test]
fn test_is_swf_extension_mixed_case() {
    assert!(is_swf_path("test.SwF"));
}

#[test]
fn test_is_swf_extension_negative() {
    assert!(!is_swf_path("a.swfx"));
    assert!(!is_swf_path("aswf"));
    assert!(!is_swf_path(".swf"));
    assert!(!is_swf_path("dir/.swf"));
    assert!(is_swf_path("dir/a.sWf"));
}
