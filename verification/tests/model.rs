use piccolo::model::{
    desired_tasks, CatalogSpec, CatalogState, ComponentSpec, StagedProperties, Task,
};
use piccolo::properties::Properties;

fn component(name: &str, image: Option<&str>) -> ComponentSpec {
    let properties = image.map(|image| {
        let mut properties = Properties::new();
        properties.insert("container.image".to_string(), image.to_string());
        properties
    });
    ComponentSpec { name: name.to_string(), component_type: "container".to_string(), properties }
}

fn catalog(name: &str, components: Option<Vec<ComponentSpec>>) -> CatalogState {
    CatalogState {
        id: name.to_string(),
        spec: CatalogSpec {
            site_id: "site".to_string(),
            name: name.to_string(),
            catalog_type: "staged".to_string(),
            properties: StagedProperties { components, removed_components: None },
            object_ref: None,
            generation: "1".to_string(),
        },
        status: None,
    }
}

fn plain(tasks: &[Task]) -> Vec<(String, Option<String>)> {
    tasks.iter().map(|t| (t.name.clone(), t.image.clone())).collect()
}

#[test]
fn image_is_the_container_image_property() {
    let with = component("web", Some("nginx:latest"));
    assert_eq!(with.container_image().map(|s| s.as_str()), Some("nginx:latest"));
    let task = with.task();
    assert_eq!(task.name, "web");
    assert_eq!(task.image.as_deref(), Some("nginx:latest"));
}

#[test]
fn component_without_properties_has_no_image() {
    let without = component("web", None);
    assert!(without.container_image().is_none());
    assert_eq!(without.task().image, None);
}

#[test]
fn component_with_other_properties_only_has_no_image() {
    let mut properties = Properties::new();
    properties.insert("container.ports".to_string(), "80".to_string());
    let c = ComponentSpec {
        name: "web".to_string(),
        component_type: "container".to_string(),
        properties: Some(properties),
    };
    assert!(c.container_image().is_none());
}

#[test]
fn no_catalogs_ask_for_nothing() {
    assert!(desired_tasks(&vec![]).is_empty());
}

#[test]
fn tasks_follow_catalogs_and_components_in_order() {
    let catalogs = vec![
        catalog("one", Some(vec![component("a", Some("img-a")), component("b", None)])),
        catalog("two", Some(vec![])),
        catalog("three", Some(vec![component("c", Some("img-c"))])),
    ];
    assert_eq!(
        plain(&desired_tasks(&catalogs)),
        vec![
            ("a".to_string(), Some("img-a".to_string())),
            ("b".to_string(), None),
            ("c".to_string(), Some("img-c".to_string())),
        ]
    );
}

#[test]
fn catalog_without_component_list_counts_as_empty() {
    let mut removal_only = catalog("gone", None);
    removal_only.spec.properties.removed_components = Some(vec![component("old", Some("img"))]);
    let catalogs = vec![removal_only, catalog("kept", Some(vec![component("web", Some("nginx"))]))];
    assert_eq!(
        plain(&desired_tasks(&catalogs)),
        vec![("web".to_string(), Some("nginx".to_string()))]
    );
}

#[test]
fn removed_components_are_never_tasks() {
    let mut c = catalog("one", Some(vec![component("web", Some("nginx"))]));
    c.spec.properties.removed_components = Some(vec![component("web", Some("nginx"))]);
    assert_eq!(desired_tasks(&vec![c]).len(), 1);
}
