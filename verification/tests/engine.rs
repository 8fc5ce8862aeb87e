use piccolo::engine::{launch_outcome, plan, reconcile, Decision, Fault, Outcome};
use piccolo::model::{ComponentSpec, Task};
use piccolo::properties::Properties;
use piccolo::runtime::LaunchResult;

fn task(name: &str, image: Option<&str>) -> Task {
    Task { name: name.to_string(), image: image.map(|s| s.to_string()) }
}

#[test]
fn running_component_is_skipped() {
    assert!(matches!(plan(&task("web", Some("nginx")), true), Decision::Skip));
    assert!(matches!(plan(&task("web", None), true), Decision::Skip));
}

#[test]
fn absent_component_is_launched_from_its_image() {
    match plan(&task("web", Some("nginx:latest")), false) {
        Decision::Launch { name, image } => {
            assert_eq!(name, "web");
            assert_eq!(image, "nginx:latest");
        },
        other => panic!("{:?}", other),
    }
}

#[test]
fn absent_component_without_image_is_rejected() {
    assert!(matches!(plan(&task("web", None), false), Decision::Reject));
}

#[test]
fn reconcile_reads_the_image_from_the_properties() {
    let mut properties = Properties::new();
    properties.insert("container.image".to_string(), "redis:7".to_string());
    let component = ComponentSpec {
        name: "cache".to_string(),
        component_type: "container".to_string(),
        properties: Some(properties),
    };
    match reconcile(&component, false) {
        Decision::Launch { name, image } => {
            assert_eq!(name, "cache");
            assert_eq!(image, "redis:7");
        },
        other => panic!("{:?}", other),
    }
    assert!(matches!(reconcile(&component, true), Decision::Skip));
}

#[test]
fn reconcile_rejects_a_component_without_image() {
    let component = ComponentSpec {
        name: "cache".to_string(),
        component_type: "container".to_string(),
        properties: Some(Properties::new()),
    };
    assert!(matches!(reconcile(&component, false), Decision::Reject));
    let component = ComponentSpec {
        name: "cache".to_string(),
        component_type: "container".to_string(),
        properties: None,
    };
    assert!(matches!(reconcile(&component, false), Decision::Reject));
}

#[test]
fn launch_results_become_outcomes() {
    assert_eq!(launch_outcome(LaunchResult::Exited { success: true }), Outcome::Done);
    assert_eq!(
        launch_outcome(LaunchResult::Exited { success: false }),
        Outcome::Failed(Fault::ExitFailure)
    );
    assert_eq!(launch_outcome(LaunchResult::NotStarted), Outcome::Failed(Fault::NotStarted));
}
