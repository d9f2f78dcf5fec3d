//! The entity model: what a declaration is, how it is addressed, and how a
//! scope selects declarations.

use vstd::prelude::*;
use vstd::std_specs::cmp::PartialEqSpecImpl;
use vstd::string::StringExecFns;

verus! {

/// A resource or module declaration found in a project.
#[derive(Debug)]
pub struct Resource {
    /// The type of the resource (e.g. `aws_instance`); empty for a module.
    pub resource_type: String,
    /// The declared name.
    pub name: String,
    /// Whether the declaration is a module.
    pub is_module: bool,
    /// The file that holds the declaration.
    pub file_path: String,
    /// Whether the block assigns `count`.
    pub has_count: bool,
    /// Whether the block assigns `for_each`.
    pub has_for_each: bool,
    /// The instance meant, where the declaration is repeated.
    pub index: Option<String>,
}

/// The mathematical value of a [`Resource`]: its fields, strings as
/// character sequences.
pub ghost struct ResourceView {
    pub resource_type: Seq<char>,
    pub name: Seq<char>,
    pub is_module: bool,
    pub file_path: Seq<char>,
    pub has_count: bool,
    pub has_for_each: bool,
    pub index: Option<Seq<char>>,
}

impl ResourceView {
    /// A module carries no resource type.
    pub open spec fn well_formed(self) -> bool {
        self.is_module ==> self.resource_type.len() == 0
    }

    /// The address of the declaration: `module.<name>` for a module,
    /// `<resource_type>.<name>` for a resource.
    pub open spec fn full_name(self) -> Seq<char> {
        if self.is_module {
            "module."@ + self.name
        } else {
            self.resource_type + "."@ + self.name
        }
    }

    /// An instance is singled out: an index is given and the declaration is
    /// repeated by `count` or by `for_each`.
    pub open spec fn is_indexed(self) -> bool {
        self.index is Some && (self.has_count || self.has_for_each)
    }

    /// The address handed to the external tool: the full name, followed by
    /// `[<index>]` where an instance is singled out.
    pub open spec fn target_string(self) -> Seq<char> {
        if self.is_indexed() {
            self.full_name() + "["@ + self.index->0 + "]"@
        } else {
            self.full_name()
        }
    }
}

impl View for Resource {
    type V = ResourceView;

    open spec fn view(&self) -> ResourceView {
        ResourceView {
            resource_type: self.resource_type@,
            name: self.name@,
            is_module: self.is_module,
            file_path: self.file_path@,
            has_count: self.has_count,
            has_for_each: self.has_for_each,
            index: self.index.deep_view(),
        }
    }
}

impl DeepView for Resource {
    type V = ResourceView;

    open spec fn deep_view(&self) -> ResourceView {
        self@
    }
}

impl Clone for Resource {
    fn clone(&self) -> (r: Self)
        ensures
            r@ == self@,
    {
        let index = match &self.index {
            Some(i) => Some(i.clone()),
            None => None,
        };
        Resource {
            resource_type: self.resource_type.clone(),
            name: self.name.clone(),
            is_module: self.is_module,
            file_path: self.file_path.clone(),
            has_count: self.has_count,
            has_for_each: self.has_for_each,
            index,
        }
    }
}

impl PartialEq for Resource {
    fn eq(&self, other: &Self) -> (r: bool) {
        let same_index = match (&self.index, &other.index) {
            (Some(a), Some(b)) => *a == *b,
            (None, None) => true,
            _ => false,
        };
        self.resource_type == other.resource_type && self.name == other.name && self.is_module
            == other.is_module && self.file_path == other.file_path && self.has_count
            == other.has_count && self.has_for_each == other.has_for_each && same_index
    }
}

impl PartialEqSpecImpl for Resource {
    open spec fn obeys_eq_spec() -> bool {
        true
    }

    open spec fn eq_spec(&self, other: &Self) -> bool {
        self@ == other@
    }
}

impl Eq for Resource {

}

impl Resource {
    /// Returns the full name of the declaration in the tool's format.
    pub fn full_name(&self) -> (r: String)
        ensures
            r@ == self@.full_name(),
    {
        if self.is_module {
            let mut r = String::from_str("module.");
            r.append(self.name.as_str());
            r
        } else {
            let mut r = self.resource_type.clone();
            r.append(".");
            r.append(self.name.as_str());
            r
        }
    }

    /// Returns the target string for the tool's `-target` flag.
    pub fn target_string(&self) -> (r: String)
        ensures
            r@ == self@.target_string(),
    {
        let mut r = self.full_name();
        if self.has_count || self.has_for_each {
            if let Some(index) = &self.index {
                r.append("[");
                r.append(index.as_str());
                r.append("]");
            }
        }
        r
    }
}

/// The full name and the target string are functions of the fields alone:
/// two entities with the same fields have the same full name and the same
/// target string, and so has one entity asked twice.
pub proof fn lemma_names_depend_on_fields_only(a: Resource, b: Resource)
    requires
        a@ == b@,
    ensures
        a@.full_name() == b@.full_name(),
        a@.target_string() == b@.target_string(),
{
}

/// A scope chosen by the user: a file, a module, or one resource.
#[derive(Debug)]
pub enum Target {
    File(String),
    Module(String),
    Resource(String, String),
}

/// The mathematical value of a [`Target`].
pub ghost enum TargetView {
    File(Seq<char>),
    Module(Seq<char>),
    Resource(Seq<char>, Seq<char>),
}

impl TargetView {
    /// Whether the scope holds the entity `e`: a file holds what it
    /// declares, a module scope holds the modules of that name, a resource
    /// scope the resources of that type and name.
    pub open spec fn selects(self, e: ResourceView) -> bool {
        match self {
            TargetView::File(path) => e.file_path == path,
            TargetView::Module(name) => e.is_module && e.name == name,
            TargetView::Resource(resource_type, name) => !e.is_module && e.resource_type
                == resource_type && e.name == name,
        }
    }
}

/// Every entity lies within the scope of its file and within the scope of
/// its own kind and name; a module scope holds no resource and a resource
/// scope no module.
pub proof fn lemma_scopes_cover_entities(e: ResourceView, target: TargetView)
    ensures
        TargetView::File(e.file_path).selects(e),
        e.is_module ==> TargetView::Module(e.name).selects(e),
        !e.is_module ==> TargetView::Resource(e.resource_type, e.name).selects(e),
        target is Module && target.selects(e) ==> e.is_module,
        target is Resource && target.selects(e) ==> !e.is_module,
{
}

impl View for Target {
    type V = TargetView;

    open spec fn view(&self) -> TargetView {
        match self {
            Target::File(path) => TargetView::File(path@),
            Target::Module(name) => TargetView::Module(name@),
            Target::Resource(resource_type, name) => TargetView::Resource(resource_type@, name@),
        }
    }
}

impl Clone for Target {
    fn clone(&self) -> (r: Self)
        ensures
            r@ == self@,
    {
        match self {
            Target::File(path) => Target::File(path.clone()),
            Target::Module(name) => Target::Module(name.clone()),
            Target::Resource(resource_type, name) => Target::Resource(
                resource_type.clone(),
                name.clone(),
            ),
        }
    }
}

impl PartialEq for Target {
    fn eq(&self, other: &Self) -> (r: bool) {
        match (self, other) {
            (Target::File(a), Target::File(b)) => *a == *b,
            (Target::Module(a), Target::Module(b)) => *a == *b,
            (Target::Resource(a, b), Target::Resource(c, d)) => *a == *c && *b == *d,
            _ => false,
        }
    }
}

impl PartialEqSpecImpl for Target {
    open spec fn obeys_eq_spec() -> bool {
        true
    }

    open spec fn eq_spec(&self, other: &Self) -> bool {
        self@ == other@
    }
}

impl Eq for Target {

}

impl Target {
    /// Tells whether the scope holds `entity`.
    pub fn selects(&self, entity: &Resource) -> (r: bool)
        ensures
            r == self@.selects(entity@),
    {
        match self {
            Target::File(path) => entity.file_path == *path,
            Target::Module(name) => entity.is_module && entity.name == *name,
            Target::Resource(resource_type, name) => !entity.is_module && entity.resource_type
                == *resource_type && entity.name == *name,
        }
    }
}

} // verus!
