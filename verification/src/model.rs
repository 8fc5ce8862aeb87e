//! The desired state as the control plane hands it out, and the work that
//! follows from it.
//!
//! Every value here is built anew from one response of the control plane and
//! dropped at the end of the iteration that fetched it.

use vstd::prelude::*;
use crate::properties::{lookup, Properties};

verus! {

/// What a successful authentication returns. The access token is the bearer
/// token of the requests that follow in the same iteration.
#[derive(Debug)]
pub struct Credential {
    pub access_token: String,
    pub token_type: String,
    pub user_name: String,
    pub roles: Option<Vec<String>>,
}

/// One workload unit. Its name is the name of its instance in the container
/// runtime; the image to start it from is the property `container.image`.
#[derive(Debug)]
pub struct ComponentSpec {
    pub name: String,
    pub component_type: String,
    pub properties: Option<Properties>,
}

/// The object that a catalog was derived from. Carried, never interpreted.
#[derive(Debug)]
pub struct ObjectRef {
    pub site_id: String,
    pub name: String,
    pub group: String,
    pub version: String,
    pub kind: String,
    pub scope: String,
}

/// What one catalog asks for: components to have present, and components to
/// have absent. Either list may be missing, which means that it is empty.
#[derive(Debug)]
pub struct StagedProperties {
    pub components: Option<Vec<ComponentSpec>>,
    pub removed_components: Option<Vec<ComponentSpec>>,
}

/// One deployable unit of desired state for the site.
#[derive(Debug)]
pub struct CatalogSpec {
    pub site_id: String,
    pub name: String,
    pub catalog_type: String,
    pub properties: StagedProperties,
    pub object_ref: Option<ObjectRef>,
    pub generation: String,
}

/// The status that the control plane reports of a catalog. Carried, never read.
#[derive(Debug)]
pub struct CatalogStatus {
    pub properties: Option<Properties>,
}

/// What the registry returns for one catalog.
#[derive(Debug)]
pub struct CatalogState {
    pub id: String,
    pub spec: CatalogSpec,
    pub status: Option<CatalogStatus>,
}

/// One component to have present: the name of its instance, and the image to
/// start it from where the desired state gives one.
#[derive(Debug)]
pub struct Task {
    pub name: String,
    pub image: Option<String>,
}

/// A task as plain values.
pub ghost struct TaskView {
    pub name: Seq<char>,
    pub image: Option<Seq<char>>,
}

impl View for Task {
    type V = TaskView;

    open spec fn view(&self) -> TaskView {
        TaskView {
            name: self.name@,
            image: match self.image {
                Some(image) => Some(image@),
                None => None,
            },
        }
    }
}

/// The key of the property that names a component's image.
pub open spec fn image_key() -> Seq<char> {
    "container.image"@
}

/// The tasks of a list, as plain values.
pub open spec fn task_views(tasks: Seq<Task>) -> Seq<TaskView> {
    Seq::new(tasks.len(), |i: int| tasks[i]@)
}

/// The tasks that a list of components asks for, one for each, in its order.
pub open spec fn tasks_of(components: Seq<ComponentSpec>) -> Seq<TaskView> {
    Seq::new(components.len(), |i: int| components[i].spec_task())
}

/// The tasks that a list of catalogs asks for: those of the first catalog,
/// then those of the second, and so on.
pub open spec fn desired(catalogs: Seq<CatalogState>) -> Seq<TaskView>
    decreases catalogs.len(),
{
    if catalogs.len() == 0 {
        Seq::empty()
    } else {
        desired(catalogs.drop_last()) + tasks_of(
            catalogs.last().spec.properties.present(),
        )
    }
}

impl ComponentSpec {
    /// The image that the component is to be started from, if it names one.
    pub open spec fn image(&self) -> Option<Seq<char>> {
        match self.properties {
            Some(properties) => lookup(properties.entries@, image_key()),
            None => None,
        }
    }

    /// The task that the component asks for.
    pub open spec fn spec_task(&self) -> TaskView {
        TaskView { name: self.name@, image: self.image() }
    }

    /// The image that the component is to be started from, if it names one.
    pub fn container_image(&self) -> (r: Option<&String>)
        ensures
            r is Some == self.image() is Some,
            r matches Some(image) ==> self.image() == Some(image@),
    {
        match &self.properties {
            Some(properties) => properties.get("container.image"),
            None => None,
        }
    }

    /// The task that the component asks for.
    pub fn task(&self) -> (r: Task)
        ensures
            r@ == self.spec_task(),
    {
        let image = match self.container_image() {
            Some(image) => Some(image.clone()),
            None => None,
        };
        Task { name: self.name.clone(), image }
    }
}

impl StagedProperties {
    /// The components to have present; none where the list is missing.
    pub open spec fn present(&self) -> Seq<ComponentSpec> {
        match self.components {
            Some(components) => components@,
            None => Seq::empty(),
        }
    }
}

/// The tasks that a list of catalogs asks for, in the order in which the
/// control plane gave the catalogs and, within each, its components. A catalog
/// without a list of components adds none.
pub fn desired_tasks(catalogs: &Vec<CatalogState>) -> (r: Vec<Task>)
    ensures
        task_views(r@) == desired(catalogs@),
{
    let mut tasks: Vec<Task> = Vec::new();
    let mut i: usize = 0;
    assert(catalogs@.take(0) =~= Seq::empty());
    while i < catalogs.len()
        invariant
            i <= catalogs.len(),
            task_views(tasks@) == desired(catalogs@.take(i as int)),
        decreases catalogs.len() - i,
    {
        let ghost done = desired(catalogs@.take(i as int));
        let ghost upto = catalogs@.take(i + 1);
        assert(upto.drop_last() =~= catalogs@.take(i as int));
        assert(upto.last() == catalogs@[i as int]);
        match &catalogs[i].spec.properties.components {
            Some(components) => {
                let mut j: usize = 0;
                while j < components.len()
                    invariant
                        j <= components.len(),
                        task_views(tasks@) == done + tasks_of(components@.take(j as int)),
                    decreases components.len() - j,
                {
                    let ghost before = tasks@;
                    let task = components[j].task();
                    tasks.push(task);
                    j += 1;
                    assert(task_views(tasks@) =~= done + tasks_of(components@.take(j as int))) by {
                        let earlier = done + tasks_of(components@.take(j - 1));
                        let now = done + tasks_of(components@.take(j as int));
                        assert(task_views(before) == earlier);
                        assert(task_views(tasks@).len() == now.len());
                        assert forall|k: int| 0 <= k < now.len() implies task_views(tasks@)[k]
                            == now[k] by {
                            if k < before.len() {
                                assert(task_views(before)[k] == before[k]@);
                                assert(earlier[k] == now[k]);
                            } else {
                                assert(tasks@[k] == task);
                            }
                        }
                    }
                }
                assert(components@.take(j as int) =~= components@);
            },
            None => {
                assert(tasks_of(Seq::<ComponentSpec>::empty()) =~= Seq::empty());
                assert(done + Seq::<TaskView>::empty() =~= done);
            },
        }
        i += 1;
    }
    assert(catalogs@.take(i as int) =~= catalogs@);
    tasks
}

} // verus!
