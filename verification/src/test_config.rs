//! A sample project list to try the application with.

use vstd::prelude::*;

use crate::datamodel::{EditMode, ProjectListView};
use crate::persistence::{Category, CategoryModel, Project, ProjectList, ProjectModel};

verus! {

/// The sample categories.
pub open spec fn sample_model() -> Seq<CategoryModel> {
    seq![
        CategoryModel {
            name: "Uncategorized"@,
            projects: seq![
                ProjectModel {
                    path: "/home/fgassmann/Projects/Rust/projektor"@,
                    name: "Projektor"@,
                    tags: seq!["Tui"@],
                    language: Some("Rust"@),
                    description: Some(
                        "Utility to keep track of Projects from the commandline.\nTrust me It's very cool. I just don't know what eslse to say about it.\n Bla"@,
                    ),
                },
                ProjectModel {
                    path: "/home/fgassmann/Projects/Rust/gdm-wallpaper-compositor"@,
                    name: "GDM-wallpaper-compositor"@,
                    tags: seq!["GDM"@, "Ricing"@],
                    language: Some("Rust"@),
                    description: None,
                },
                ProjectModel {
                    path: "/home/fgassmann/Projects/Upstream/ratatui"@,
                    name: "Ratatui"@,
                    tags: seq!["Tui"@],
                    language: Some("Rust"@),
                    description: None,
                },
                ProjectModel {
                    path: "/home/fgassmann/Projects/Upstream/linux-retroism"@,
                    name: "Linux Retroism Rice"@,
                    tags: seq!["Ricing"@, "Wayland"@],
                    language: None,
                    description: None,
                },
            ],
        },
        CategoryModel {
            name: "C"@,
            projects: seq![
                ProjectModel {
                    path: "/home/fgassmann/Projects/C/connect4"@,
                    name: "Connect 4 Raylib"@,
                    tags: seq![],
                    language: Some("C"@),
                    description: Some(
                        "Trying out Raylib by implementing a simple Connect4 game. Has a strong solver the player can play against."@,
                    ),
                },
            ],
        },
        CategoryModel { name: "Empty"@, projects: seq![] },
        CategoryModel {
            name: "Broken"@,
            projects: seq![
                ProjectModel {
                    path: "/homes/fgassmann/Projects/C/connect4"@,
                    name: "Connect 4 Raylib Broken"@,
                    tags: seq![],
                    language: Some("C"@),
                    description: Some(
                        "Trying out Raylib by implementing a simple Connect4 game. Has a strong solver the player can play against."@,
                    ),
                },
            ],
        },
    ]
}

/// A project from its texts.
fn project(
    path: &str,
    name: &str,
    tags: Vec<String>,
    language: Option<&str>,
    description: Option<&str>,
) -> (r: Project)
    ensures
        r@ == (ProjectModel {
            path: path@,
            name: name@,
            tags: crate::text::views(tags@),
            language: match language {
                Some(l) => Some(l@),
                None => None,
            },
            description: match description {
                Some(d) => Some(d@),
                None => None,
            },
        }),
{
    Project {
        path: String::from_str(path),
        name: String::from_str(name),
        tags,
        language: match language {
            Some(l) => Some(String::from_str(l)),
            None => None,
        },
        description: match description {
            Some(d) => Some(String::from_str(d)),
            None => None,
        },
    }
}

/// The sample project list, browsing with nothing selected and no filter.
pub fn get_test_config() -> (r: ProjectListView)
    ensures
        r.projects@ == sample_model(),
        r.selected is None,
        r.mode is ProjectView,
        r.filter@.len() == 0,
{
    let raylib = "Trying out Raylib by implementing a simple Connect4 game. Has a strong solver the player can play against.";
    let p1 = project(
        "/home/fgassmann/Projects/Rust/projektor",
        "Projektor",
        vec![String::from_str("Tui")],
        Some("Rust"),
        Some(
            "Utility to keep track of Projects from the commandline.\nTrust me It's very cool. I just don't know what eslse to say about it.\n Bla",
        ),
    );
    let p2 = project(
        "/home/fgassmann/Projects/Rust/gdm-wallpaper-compositor",
        "GDM-wallpaper-compositor",
        vec![String::from_str("GDM"), String::from_str("Ricing")],
        Some("Rust"),
        None,
    );
    let p3 = project(
        "/home/fgassmann/Projects/Upstream/ratatui",
        "Ratatui",
        vec![String::from_str("Tui")],
        Some("Rust"),
        None,
    );
    let p4 = project(
        "/home/fgassmann/Projects/Upstream/linux-retroism",
        "Linux Retroism Rice",
        vec![String::from_str("Ricing"), String::from_str("Wayland")],
        None,
        None,
    );
    let p5 = project("/home/fgassmann/Projects/C/connect4", "Connect 4 Raylib", vec![], Some("C"), Some(raylib));
    let p6 = project(
        "/homes/fgassmann/Projects/C/connect4",
        "Connect 4 Raylib Broken",
        vec![],
        Some("C"),
        Some(raylib),
    );
    assert(p1@.tags =~= seq!["Tui"@]);
    assert(p2@.tags =~= seq!["GDM"@, "Ricing"@]);
    assert(p3@.tags =~= seq!["Tui"@]);
    assert(p4@.tags =~= seq!["Ricing"@, "Wayland"@]);
    assert(p5@.tags =~= Seq::<Seq<char>>::empty());
    assert(p6@.tags =~= Seq::<Seq<char>>::empty());
    let ghost m = sample_model();
    let c1 = Category { name: String::from_str("Uncategorized"), projects: vec![p1, p2, p3, p4] };
    assert(c1@.projects =~= m[0].projects);
    let c2 = Category { name: String::from_str("C"), projects: vec![p5] };
    assert(c2@.projects =~= m[1].projects);
    let c3 = Category { name: String::from_str("Empty"), projects: vec![] };
    assert(c3@.projects =~= m[2].projects);
    let c4 = Category { name: String::from_str("Broken"), projects: vec![p6] };
    assert(c4@.projects =~= m[3].projects);
    let categories = vec![c1, c2, c3, c4];
    let r = ProjectListView {
        projects: ProjectList { categories, path: String::new() },
        selected: None,
        mode: EditMode::ProjectView,
        filter: String::new(),
    };
    assert(r.projects@ =~= sample_model());
    r
}

} // verus!
