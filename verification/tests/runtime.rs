use piccolo::runtime::{
    instance_names, is_running, launch_arguments, query_arguments, runtime_program, Observation,
};
use piccolo::text::{joined, owned, same_text};

fn names(list: &[&str]) -> Observation {
    Observation::Names(list.iter().map(|s| s.to_string()).collect())
}

#[test]
fn names_are_the_lines_that_are_not_empty() {
    assert_eq!(instance_names("web\n"), vec!["web".to_string()]);
    assert_eq!(instance_names("web"), vec!["web".to_string()]);
    assert_eq!(instance_names("web\nweb2\n"), vec!["web".to_string(), "web2".to_string()]);
    assert_eq!(instance_names("\n\nweb\n\ndb"), vec!["web".to_string(), "db".to_string()]);
    assert_eq!(instance_names("é\nweb"), vec!["é".to_string(), "web".to_string()]);
}

#[test]
fn empty_output_lists_no_names() {
    assert!(instance_names("").is_empty());
    assert!(instance_names("\n").is_empty());
    assert!(instance_names("\n\n\n").is_empty());
}

#[test]
fn names_keep_their_spaces() {
    assert_eq!(instance_names(" web \n"), vec![" web ".to_string()]);
    assert_eq!(instance_names("web\r\n"), vec!["web\r".to_string()]);
}

#[test]
fn running_means_an_instance_of_exactly_that_name() {
    assert!(is_running("web", &names(&["web"])));
    assert!(is_running("web", &names(&["db", "web"])));
    assert!(!is_running("web", &names(&["web2"])));
    assert!(!is_running("web", &names(&["my-web", "Web", "we"])));
    assert!(!is_running("web", &names(&[])));
    assert!(!is_running("", &names(&["web"])));
}

#[test]
fn unknown_counts_as_not_running() {
    assert!(!is_running("web", &Observation::Unavailable));
}

#[test]
fn substring_match_of_the_filter_is_not_running() {
    let listed = Observation::Names(instance_names("web-old\nweb2\n"));
    assert!(!is_running("web", &listed));
    let listed = Observation::Names(instance_names("web-old\nweb\n"));
    assert!(is_running("web", &listed));
}

#[test]
fn query_lists_the_names_under_a_filter() {
    assert_eq!(
        query_arguments("web"),
        vec![
            "ps".to_string(),
            "--filter=name=web".to_string(),
            "--format".to_string(),
            "{{.Names}}".to_string(),
        ]
    );
}

#[test]
fn launch_starts_a_detached_named_instance() {
    assert_eq!(
        launch_arguments("web", "nginx:latest"),
        vec![
            "run".to_string(),
            "-d".to_string(),
            "--name".to_string(),
            "web".to_string(),
            "nginx:latest".to_string(),
        ]
    );
}

#[test]
fn the_runtime_is_docker() {
    assert_eq!(runtime_program(), "docker");
}

#[test]
fn text_helpers_compare_copy_and_join() {
    assert!(same_text("abc", "abc"));
    assert!(!same_text("abc", "abd"));
    assert!(!same_text("abc", "ab"));
    assert!(same_text("", ""));
    assert_eq!(owned("abc"), "abc");
    assert_eq!(joined("ab", "cd"), "abcd");
    assert_eq!(joined("", ""), "");
}
