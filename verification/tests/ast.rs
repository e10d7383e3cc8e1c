use sleet::ast::{convert_path_to_string_path, convert_string_path_to_path, Path, PathSegment};

#[test]
fn a_path_is_written_with_dots_and_bracketed_indices() {
    let p = Path(vec![
        PathSegment::State,
        PathSegment::Key("items".to_string()),
        PathSegment::Index(12),
        PathSegment::DynamicOffset,
        PathSegment::Input,
    ]);
    assert_eq!(p.to_text(), "state.items.[12].[dynamic].input");
    assert_eq!(Path(Vec::new()).to_text(), "");
}

#[test]
fn a_path_lists_its_names_without_the_state_root() {
    let p = Path(vec![
        PathSegment::State,
        PathSegment::Key("items".to_string()),
        PathSegment::Index(0),
        PathSegment::DynamicOffset,
        PathSegment::Input,
    ]);
    assert_eq!(
        convert_path_to_string_path(&p),
        vec!["items".to_string(), "0".to_string(), "dynamic".to_string(), "input".to_string()]
    );
}

#[test]
fn names_survive_a_round_trip_through_a_path() {
    let names = vec!["state".to_string(), "counter".to_string()];
    let p = convert_string_path_to_path(names.clone());
    assert_eq!(p.to_text(), "state.counter");
    assert_eq!(convert_path_to_string_path(&p), names);
    assert_eq!(Path::from_names(vec!["a".to_string()]).to_text(), "a");
}
