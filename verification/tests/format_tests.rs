use swf_metadata::format::format_metadata;
use swf_metadata::jsonparse::parse_json;
use swf_metadata::metadata::Metadata;

fn chars(v: Vec<char>) -> String {
    v.into_iter().collect()
}

// Helper to create test metadata
fn create_test_metadata() -> Metadata {
    Metadata::new("test.swf".to_string(), (800, 600), 100, 30)
}

#[test]
fn test_metadata_to_json() {
    let metadata = create_test_metadata();
    let result = chars(format_metadata(&metadata, "json"));

    // Verify it's valid JSON
    assert!(result.contains("\"file_name\":\"test.swf\""));
    assert!(result.contains("\"stage_size\":[800,600]"));
    assert!(result.contains("\"no_of_frames\":100"));
    assert!(result.contains("\"frame_rate\":30"));

    // Verify it can be parsed back
    let parsed: serde_json::Value = serde_json::from_str(&result).unwrap();
    assert_eq!(parsed["file_name"], "test.swf");
    assert_eq!(parsed["stage_size"][0], 800);
    assert_eq!(parsed["stage_size"][1], 600);
}

#[test]
fn test_metadata_to_yaml() {
    let metadata = create_test_metadata();
    let result = chars(format_metadata(&metadata, "yaml"));

    // Verify YAML format
    assert!(result.contains("file_name: test.swf"));
    assert!(result.contains("stage_size:"));
    assert!(result.contains("- 800"));
    assert!(result.contains("- 600"));
    assert!(result.contains("no_of_frames: 100"));
    assert!(result.contains("frame_rate: 30"));
}

#[test]
fn test_metadata_to_yaml_loads_back() {
    let metadata = create_test_metadata();
    let result = chars(format_metadata(&metadata, "yaml"));
    let parsed: serde_yaml::Value = serde_yaml::from_str(&result).unwrap();
    assert_eq!(parsed["file_name"], serde_yaml::Value::from("test.swf"));
    assert_eq!(parsed["stage_size"][0], serde_yaml::Value::from(800));
    assert_eq!(parsed["stage_size"][1], serde_yaml::Value::from(600));
    assert_eq!(parsed["no_of_frames"], serde_yaml::Value::from(100));
    assert_eq!(parsed["frame_rate"], serde_yaml::Value::from(30));
}

#[test]
fn test_metadata_to_text() {
    let metadata = create_test_metadata();
    let result = chars(format_metadata(&metadata, "text"));

    // Verify text format
    assert!(result.contains("File: test.swf"));
    assert!(result.contains("Stage Size: (800, 600)"));
    assert!(result.contains("Number of Frames: 100"));
    assert!(result.contains("Frame Rate: 30"));
}

#[test]
fn test_format_metadata_default_to_text() {
    let metadata = create_test_metadata();
    let result = chars(format_metadata(&metadata, "unknown_format"));

    // Should default to text format
    assert!(result.contains("File: test.swf"));
    assert!(result.contains("Stage Size: (800, 600)"));
}

#[test]
fn test_unknown_selector_is_text_layout() {
    let metadata = create_test_metadata();
    let xml = chars(format_metadata(&metadata, "xml"));
    let text = chars(format_metadata(&metadata, "text"));
    assert_eq!(xml, text);
    assert_eq!(
        text,
        "File: test.swf\nStage Size: (800, 600)\nNumber of Frames: 100\nFrame Rate: 30"
    );
}

#[test]
fn test_json_exact_rendering() {
    let metadata = create_test_metadata();
    let result = chars(format_metadata(&metadata, "json"));
    assert_eq!(
        result,
        "{\"file_name\":\"test.swf\",\"stage_size\":[800,600],\"no_of_frames\":100,\"frame_rate\":30}"
    );
}

#[test]
fn test_format_deterministic() {
    let metadata = create_test_metadata();
    let once = chars(format_metadata(&metadata, "yaml"));
    let twice = chars(format_metadata(&metadata, "yaml"));
    assert_eq!(once, twice);
    let t1 = chars(format_metadata(&metadata, "other"));
    let t2 = chars(format_metadata(&metadata, "other"));
    assert_eq!(t1, t2);
}

#[test]
fn test_json_round_trip() {
    let metadata = create_test_metadata();
    let rendered = chars(format_metadata(&metadata, "json"));
    let parsed = parse_json(&rendered).unwrap();
    assert_eq!(parsed, metadata);
}

#[test]
fn test_json_round_trip_escaped_name() {
    let metadata = Metadata::new(
        "we\"ird\\na\tme\u{1}.swf".to_string(),
        (1, 2),
        3,
        4,
    );
    let rendered = chars(format_metadata(&metadata, "json"));
    // serde_json agrees on the escaping.
    let parsed_value: serde_json::Value = serde_json::from_str(&rendered).unwrap();
    assert_eq!(parsed_value["file_name"], "we\"ird\\na\tme\u{1}.swf");
    let parsed = parse_json(&rendered).unwrap();
    assert_eq!(parsed, metadata);
}

#[test]
fn test_parse_json_rejects_trailing_input() {
    let metadata = create_test_metadata();
    let mut rendered = chars(format_metadata(&metadata, "json"));
    rendered.push(' ');
    assert!(parse_json(&rendered).is_none());
    assert!(parse_json("not json").is_none());
}

#[test]
fn test_metadata_equality() {
    let metadata1 = create_test_metadata();
    let metadata2 = Metadata::new("test.swf".to_string(), (800, 600), 100, 30);
    assert_eq!(metadata1, metadata2);
}

#[test]
fn test_metadata_inequality() {
    let metadata1 = create_test_metadata();
    let metadata2 = Metadata::new("different.swf".to_string(), (800, 600), 100, 30);
    assert_ne!(metadata1, metadata2);
}

#[test]
fn test_yaml_exact_rendering() {
    let metadata = create_test_metadata();
    let result = chars(format_metadata(&metadata, "yaml"));
    assert_eq!(
        result,
        "file_name: test.swf\nstage_size:\n- 800\n- 600\nno_of_frames: 100\nframe_rate: 30\n"
    );
}

#[test]
fn test_extreme_values() {
    let metadata = Metadata::new("x".to_string(), (0, u32::MAX), 0, u32::MAX);
    let rendered = chars(format_metadata(&metadata, "json"));
    assert_eq!(
        rendered,
        "{\"file_name\":\"x\",\"stage_size\":[0,4294967295],\"no_of_frames\":0,\"frame_rate\":4294967295}"
    );
    let parsed = parse_json(&rendered).unwrap();
    assert_eq!(parsed, metadata);
}

#[test]
fn test_parse_json_rejects_out_of_range_numbers() {
    assert!(parse_json(
        "{\"file_name\":\"x\",\"stage_size\":[0,4294967296],\"no_of_frames\":0,\"frame_rate\":1}"
    )
    .is_none());
}

#[test]
fn test_empty_file_name() {
    let metadata = Metadata::new(String::new(), (1, 1), 1, 1);
    let rendered = chars(format_metadata(&metadata, "json"));
    assert_eq!(
        rendered,
        "{\"file_name\":\"\",\"stage_size\":[1,1],\"no_of_frames\":1,\"frame_rate\":1}"
    );
    let parsed = parse_json(&rendered).unwrap();
    assert_eq!(parsed, metadata);
}
