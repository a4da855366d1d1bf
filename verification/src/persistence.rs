//! The stored data: projects grouped into named categories.

use vstd::prelude::*;

verus! {

/// A project: where it lives, what it is called and what describes it.
#[derive(Debug, PartialEq, Eq)]
pub struct Project {
    pub path: String,
    pub name: String,
    pub tags: Vec<String>,
    pub language: Option<String>,
    pub description: Option<String>,
}

/// A named group of projects.
#[derive(Debug, PartialEq, Eq)]
pub struct Category {
    pub name: String,
    pub projects: Vec<Project>,
}

/// All categories, and the file they are stored in.
#[derive(Debug)]
pub struct ProjectList {
    pub categories: Vec<Category>,
    pub path: String,
}

/// A project as its text.
pub struct ProjectModel {
    pub path: Seq<char>,
    pub name: Seq<char>,
    pub tags: Seq<Seq<char>>,
    pub language: Option<Seq<char>>,
    pub description: Option<Seq<char>>,
}

/// A category as its text.
pub struct CategoryModel {
    pub name: Seq<char>,
    pub projects: Seq<ProjectModel>,
}

/// The text of an optional string.
pub open spec fn opt_view(o: Option<String>) -> Option<Seq<char>> {
    match o {
        Some(s) => Some(s@),
        None => None,
    }
}

impl View for Project {
    type V = ProjectModel;

    open spec fn view(&self) -> ProjectModel {
        ProjectModel {
            path: self.path@,
            name: self.name@,
            tags: crate::text::views(self.tags@),
            language: opt_view(self.language),
            description: opt_view(self.description),
        }
    }
}

/// The models of a sequence of projects.
pub open spec fn projects_model(v: Seq<Project>) -> Seq<ProjectModel> {
    v.map_values(|p: Project| p@)
}

impl View for Category {
    type V = CategoryModel;

    open spec fn view(&self) -> CategoryModel {
        CategoryModel { name: self.name@, projects: projects_model(self.projects@) }
    }
}

/// The models of a sequence of categories.
pub open spec fn categories_model(v: Seq<Category>) -> Seq<CategoryModel> {
    v.map_values(|c: Category| c@)
}

impl View for ProjectList {
    type V = Seq<CategoryModel>;

    open spec fn view(&self) -> Seq<CategoryModel> {
        categories_model(self.categories@)
    }
}

/// A copy of an optional string.
pub fn copy_opt(o: &Option<String>) -> (r: Option<String>)
    ensures
        opt_view(r) == opt_view(*o),
{
    match o {
        Some(s) => Some(s.clone()),
        None => None,
    }
}

/// A copy of a list of strings.
pub fn copy_strings(v: &Vec<String>) -> (r: Vec<String>)
    ensures
        crate::text::views(r@) == crate::text::views(v@),
{
    let mut r: Vec<String> = Vec::new();
    let mut i: usize = 0;
    while i < v.len()
        invariant
            i <= v@.len(),
            r@.len() == i,
            forall|k: int| 0 <= k < i ==> (#[trigger] r@[k])@ == v@[k]@,
        decreases v@.len() - i,
    {
        r.push(v[i].clone());
        i += 1;
    }
    assert(crate::text::views(r@) =~= crate::text::views(v@));
    r
}

impl Clone for Project {
    fn clone(&self) -> (r: Self)
        ensures
            r@ == self@,
    {
        Project {
            path: self.path.clone(),
            name: self.name.clone(),
            tags: copy_strings(&self.tags),
            language: copy_opt(&self.language),
            description: copy_opt(&self.description),
        }
    }
}

impl Clone for Category {
    fn clone(&self) -> (r: Self)
        ensures
            r@ == self@,
    {
        let mut projects: Vec<Project> = Vec::new();
        let mut i: usize = 0;
        while i < self.projects.len()
            invariant
                i <= self.projects@.len(),
                projects@.len() == i,
                forall|k: int| 0 <= k < i ==> (#[trigger] projects@[k])@ == self.projects@[k]@,
            decreases self.projects@.len() - i,
        {
            projects.push(self.projects[i].clone());
            i += 1;
        }
        assert(projects_model(projects@) =~= projects_model(self.projects@));
        Category { name: self.name.clone(), projects }
    }
}

/// A copy of a list of categories.
pub fn copy_categories(v: &Vec<Category>) -> (r: Vec<Category>)
    ensures
        categories_model(r@) == categories_model(v@),
{
    let mut r: Vec<Category> = Vec::new();
    let mut i: usize = 0;
    while i < v.len()
        invariant
            i <= v@.len(),
            r@.len() == i,
            forall|k: int| 0 <= k < i ==> (#[trigger] r@[k])@ == v@[k]@,
        decreases v@.len() - i,
    {
        r.push(v[i].clone());
        i += 1;
    }
    assert(categories_model(r@) =~= categories_model(v@));
    r
}

} // verus!
