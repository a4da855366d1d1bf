//! The project list as shown: the entries that pass the filter, the
//! selection among them, and what editing is going on.

use vstd::prelude::*;

use crate::config::Settings;
use crate::editor::editor::{editor_fresh, editor_key_post, editor_project, is_blank_form, is_form_for};
use crate::editor::{EditorEvent, ProjectEditor};
use crate::event::AppEvent;
use crate::keys::{KeyCode, KeyEvent};
use crate::persistence::opt_view;
use crate::persistence::{Category, CategoryModel, Project, ProjectList, ProjectModel};
use crate::text::{contains, occurs_in};

verus! {

/// What the list is doing.
#[derive(Debug)]
pub enum EditMode {
    /// Browsing the list.
    ProjectView,
    /// Typing the filter.
    EditFilter,
    /// Editing the selected project.
    EditingProject(ProjectEditor),
    /// Filling in a new project.
    CreatingProject(ProjectEditor),
}

impl Default for EditMode {
    fn default() -> (r: EditMode)
        ensures
            r is ProjectView,
    {
        EditMode::ProjectView
    }
}

/// Why the list refused a key.
#[derive(Clone, Copy, Debug, PartialEq, Eq, Structural)]
pub enum ViewError {
    /// Editing was asked for with no project selected.
    NothingSelected,
}

impl ViewError {
    /// The message shown for the error.
    pub fn message(&self) -> (r: String)
        ensures
            r@ == "Nothing Selected"@,
    {
        match self {
            ViewError::NothingSelected => String::from_str("Nothing Selected"),
        }
    }
}

/// What a key asks of the list.
#[derive(Clone, Copy, Debug, PartialEq, Eq, Structural)]
pub enum ListCommand {
    Quit,
    QuitWithSelected,
    NextTab,
    PrevTab,
    Next,
    Prev,
    Edit,
    New,
    Delete,
    Filter,
    /// Stop typing the filter.
    Leave,
    /// Delete the last character of the filter.
    Pop,
    /// Add a character to the filter.
    Push(char),
    Nothing,
}

/// Control-C (or 'C' with control only).
pub open spec fn is_interrupt(key: KeyEvent) -> bool {
    key.is_char_in('c', 'C') && key.modifiers.control_only()
}

/// What a key asks while browsing the list.
pub open spec fn browse_command(key: KeyEvent) -> ListCommand {
    if key.code == KeyCode::Esc || key.is_char_in('q', 'Q') {
        ListCommand::Quit
    } else if is_interrupt(key) {
        ListCommand::Quit
    } else if key.code == KeyCode::Enter {
        ListCommand::QuitWithSelected
    } else if key.code == KeyCode::Tab {
        ListCommand::NextTab
    } else if key.code == KeyCode::BackTab {
        ListCommand::PrevTab
    } else if key.is_char_in('j', 'J') || key.code == KeyCode::Down {
        ListCommand::Next
    } else if key.is_char_in('k', 'K') || key.code == KeyCode::Up {
        ListCommand::Prev
    } else if key.is_char_in('e', 'E') {
        ListCommand::Edit
    } else if key.is_char_in('n', 'N') {
        ListCommand::New
    } else if key.is_char_in('d', 'D') {
        ListCommand::Delete
    } else if key.is_char_in('f', 'F') {
        ListCommand::Filter
    } else {
        ListCommand::Nothing
    }
}

/// What a key asks while typing the filter.
pub open spec fn filter_command(key: KeyEvent) -> ListCommand {
    if key.code == KeyCode::Esc {
        ListCommand::Leave
    } else if is_interrupt(key) {
        ListCommand::Quit
    } else if key.code == KeyCode::Tab {
        ListCommand::NextTab
    } else if key.code == KeyCode::BackTab {
        ListCommand::PrevTab
    } else if key.code == KeyCode::Down {
        ListCommand::Next
    } else if key.code == KeyCode::Up {
        ListCommand::Prev
    } else if key.code == KeyCode::Backspace {
        ListCommand::Pop
    } else {
        match key.code {
            KeyCode::Char(c) => ListCommand::Push(c),
            _ => ListCommand::Nothing,
        }
    }
}

/// The editor the mode holds, if it holds one.
pub open spec fn editor_of(mode: EditMode) -> Option<ProjectEditor> {
    match mode {
        EditMode::EditingProject(e) => Some(e),
        EditMode::CreatingProject(e) => Some(e),
        _ => None,
    }
}

/// `post` differs from `pre` at most in its mode.
pub open spec fn only_mode_changed(pre: ProjectListView, post: ProjectListView) -> bool {
    &&& post.projects == pre.projects
    &&& post.selected == pre.selected
    &&& post.filter == pre.filter
}

/// The events that leave the list as it is.
pub open spec fn command_event(c: ListCommand) -> Option<AppEvent> {
    match c {
        ListCommand::Quit => Some(AppEvent::Quit),
        ListCommand::QuitWithSelected => Some(AppEvent::QuitWithSelected),
        ListCommand::NextTab => Some(AppEvent::NextTab),
        ListCommand::PrevTab => Some(AppEvent::PrevTab),
        _ => None,
    }
}

/// The categories once the project described by a form is saved: it replaces
/// the selected project when editing, and is added when creating.
pub open spec fn saved_model(pre: ProjectListView, e: ProjectEditor) -> Seq<CategoryModel> {
    let (cat, proj) = editor_project(e);
    if pre.mode is EditingProject {
        insert_model(pre.without_selected(), proj, cat)
    } else {
        insert_model(pre.projects@, proj, cat)
    }
}

/// What the list answers to a key.
pub open spec fn view_key_result(pre: ProjectListView, key: KeyEvent) -> Result<Option<AppEvent>, ViewError> {
    match pre.mode {
        EditMode::ProjectView => match browse_command(key) {
            ListCommand::Edit => if pre.selected_project() is Some {
                Ok(None)
            } else {
                Err(ViewError::NothingSelected)
            },
            ListCommand::Delete => Ok(Some(AppEvent::Save)),
            c => Ok(command_event(c)),
        },
        EditMode::EditFilter => Ok(command_event(filter_command(key))),
        EditMode::EditingProject(e) => if crate::editor::editor::editor_event(e, key) == Some(
            EditorEvent::Save,
        ) {
            Ok(Some(AppEvent::Save))
        } else {
            Ok(None)
        },
        EditMode::CreatingProject(e) => if crate::editor::editor::editor_event(e, key) == Some(
            EditorEvent::Save,
        ) {
            Ok(Some(AppEvent::Save))
        } else {
            Ok(None)
        },
    }
}

/// How a key changes the list, by mode.
pub open spec fn view_key_post(
    pre: ProjectListView,
    post: ProjectListView,
    key: KeyEvent,
    settings: Settings,
    r: Result<Option<AppEvent>, ViewError>,
) -> bool {
    &&& r == view_key_result(pre, key)
    &&& pre.mode is ProjectView ==> browse_post(pre, post, key, settings, r)
    &&& pre.mode is EditFilter ==> filter_post(pre, post, key, r)
    &&& editor_of(pre.mode) is Some ==> form_post(pre, post, key, r)
}

/// How a key changes the list while browsing, and what it returns.
pub open spec fn browse_post(
    pre: ProjectListView,
    post: ProjectListView,
    key: KeyEvent,
    settings: Settings,
    r: Result<Option<AppEvent>, ViewError>,
) -> bool {
    match browse_command(key) {
        ListCommand::Next => r == Ok::<Option<AppEvent>, ViewError>(None) && post.selected
            == pre.next_selection() && post.projects == pre.projects && post.mode == pre.mode
            && post.filter == pre.filter,
        ListCommand::Prev => r == Ok::<Option<AppEvent>, ViewError>(None) && post.selected
            == pre.prev_selection() && post.projects == pre.projects && post.mode == pre.mode
            && post.filter == pre.filter,
        ListCommand::Edit => match pre.selected_project() {
            Some((c, i)) => {
                &&& r == Ok::<Option<AppEvent>, ViewError>(None)
                &&& only_mode_changed(pre, post)
                &&& post.mode matches EditMode::EditingProject(e)
                &&& is_form_for(e, pre.projects@[c].name, pre.projects@[c].projects[i])
                &&& editor_fresh(e)
            },
            None => r == Err::<Option<AppEvent>, ViewError>(ViewError::NothingSelected) && post == pre,
        },
        ListCommand::New => {
            &&& r == Ok::<Option<AppEvent>, ViewError>(None)
            &&& only_mode_changed(pre, post)
            &&& post.mode matches EditMode::CreatingProject(e)
            &&& is_blank_form(e, opt_view(settings.default_folder))
            &&& editor_fresh(e)
        },
        ListCommand::Delete => {
            &&& r == Ok::<Option<AppEvent>, ViewError>(Some(AppEvent::Save))
            &&& post.projects@ == pre.without_selected()
            &&& post.projects.path == pre.projects.path
            &&& post.selected == pre.selected
            &&& post.mode == pre.mode
            &&& post.filter == pre.filter
        },
        ListCommand::Filter => r == Ok::<Option<AppEvent>, ViewError>(None) && only_mode_changed(
            pre,
            post,
        ) && post.mode is EditFilter,
        c => r == Ok::<Option<AppEvent>, ViewError>(command_event(c)) && post == pre,
    }
}

/// How a key changes the list while the filter is typed, and what it returns.
pub open spec fn filter_post(
    pre: ProjectListView,
    post: ProjectListView,
    key: KeyEvent,
    r: Result<Option<AppEvent>, ViewError>,
) -> bool {
    match filter_command(key) {
        ListCommand::Leave => r == Ok::<Option<AppEvent>, ViewError>(None) && only_mode_changed(
            pre,
            post,
        ) && post.mode is ProjectView,
        ListCommand::Next => r == Ok::<Option<AppEvent>, ViewError>(None) && post.selected
            == pre.next_selection() && post.projects == pre.projects && post.mode == pre.mode
            && post.filter == pre.filter,
        ListCommand::Prev => r == Ok::<Option<AppEvent>, ViewError>(None) && post.selected
            == pre.prev_selection() && post.projects == pre.projects && post.mode == pre.mode
            && post.filter == pre.filter,
        ListCommand::Pop => {
            &&& r == Ok::<Option<AppEvent>, ViewError>(None)
            &&& post.filter@ == (if pre.filter@.len() > 0 {
                pre.filter@.drop_last()
            } else {
                pre.filter@
            })
            &&& post.projects == pre.projects
            &&& post.selected == pre.selected
            &&& post.mode == pre.mode
        },
        ListCommand::Push(c) => {
            &&& r == Ok::<Option<AppEvent>, ViewError>(None)
            &&& post.filter@ == pre.filter@.push(c)
            &&& post.projects == pre.projects
            &&& post.selected == pre.selected
            &&& post.mode == pre.mode
        },
        c => r == Ok::<Option<AppEvent>, ViewError>(command_event(c)) && post == pre,
    }
}

/// How a key changes the list while a form is open, and what it returns.
pub open spec fn form_post(
    pre: ProjectListView,
    post: ProjectListView,
    key: KeyEvent,
    r: Result<Option<AppEvent>, ViewError>,
) -> bool {
    let e = editor_of(pre.mode).unwrap();
    match crate::editor::editor::editor_event(e, key) {
        Some(EditorEvent::Save) => {
            &&& r == Ok::<Option<AppEvent>, ViewError>(Some(AppEvent::Save))
            &&& post.mode is ProjectView
            &&& post.projects@ == saved_model(pre, e)
            &&& post.projects.path == pre.projects.path
            &&& post.selected == pre.selected
            &&& post.filter == pre.filter
        },
        Some(EditorEvent::Cancel) => {
            &&& r == Ok::<Option<AppEvent>, ViewError>(None)
            &&& only_mode_changed(pre, post)
            &&& post.mode is ProjectView
        },
        None => {
            &&& r == Ok::<Option<AppEvent>, ViewError>(None)
            &&& only_mode_changed(pre, post)
            &&& (pre.mode is EditingProject <==> post.mode is EditingProject)
            &&& (pre.mode is CreatingProject <==> post.mode is CreatingProject)
            &&& editor_key_post(e, editor_of(post.mode).unwrap(), key, None)
        },
    }
}

/// The text of a line of the list: a category heading is marked with a
/// triangle, a project is indented.
pub open spec fn entry_label_spec(cats: Seq<CategoryModel>, e: Entry) -> Seq<char> {
    match e {
        Entry::Header(c) => "\u{25bc} "@ + cats[c as int].name,
        Entry::Project { category, index } => "  "@ + cats[category as int].projects[index as int].name,
    }
}

/// A line of the list: a category heading, or a project of a category.
#[derive(Clone, Copy, Debug, PartialEq, Eq, Structural)]
pub enum Entry {
    Header(usize),
    Project { category: usize, index: usize },
}

/// The project list with its selection, mode and filter.
#[derive(Debug)]
pub struct ProjectListView {
    pub projects: ProjectList,
    /// The index of the selected entry, if any.
    pub selected: Option<usize>,
    pub mode: EditMode,
    pub filter: String,
}

/// Whether a project name passes the filter: the filter is empty or occurs in
/// the name.
pub open spec fn passes_filter(filter: Seq<char>, name: Seq<char>) -> bool {
    filter.len() == 0 || occurs_in(filter, name)
}

/// The entries for the first `n` projects of category `ci` that pass the filter.
pub open spec fn project_entries(ci: int, projects: Seq<ProjectModel>, filter: Seq<char>, n: nat) -> Seq<
    Entry,
>
    decreases n,
{
    if n == 0 {
        Seq::<Entry>::empty()
    } else {
        let rest = project_entries(ci, projects, filter, (n - 1) as nat);
        if passes_filter(filter, projects[n - 1].name) {
            rest.push(Entry::Project { category: ci as usize, index: (n - 1) as usize })
        } else {
            rest
        }
    }
}

/// The entries of category `ci`: its heading and its projects that pass the
/// filter, or nothing when none does.
pub open spec fn category_entries(ci: int, cat: CategoryModel, filter: Seq<char>) -> Seq<Entry> {
    let hits = project_entries(ci, cat.projects, filter, cat.projects.len());
    if hits.len() == 0 {
        Seq::<Entry>::empty()
    } else {
        seq![Entry::Header(ci as usize)] + hits
    }
}

/// The entries of the first `n` categories.
pub open spec fn entries_upto(cats: Seq<CategoryModel>, filter: Seq<char>, n: nat) -> Seq<Entry>
    decreases n,
{
    if n == 0 {
        Seq::<Entry>::empty()
    } else {
        entries_upto(cats, filter, (n - 1) as nat) + category_entries(n - 1, cats[n - 1], filter)
    }
}

/// The entries shown for the categories under a filter.
pub open spec fn entries_spec(cats: Seq<CategoryModel>, filter: Seq<char>) -> Seq<Entry> {
    entries_upto(cats, filter, cats.len())
}

/// The sizes fit in `usize`.
pub open spec fn sizes_fit(cats: Seq<CategoryModel>) -> bool {
    &&& cats.len() <= usize::MAX
    &&& forall|c: int| 0 <= c < cats.len() ==> #[trigger] cats[c].projects.len() <= usize::MAX
}

/// An entry of the list names a category, or a project of it that passes the filter.
pub open spec fn entry_valid(cats: Seq<CategoryModel>, filter: Seq<char>, e: Entry) -> bool {
    match e {
        Entry::Header(c) => c < cats.len(),
        Entry::Project { category, index } => {
            &&& category < cats.len()
            &&& index < cats[category as int].projects.len()
            &&& passes_filter(filter, cats[category as int].projects[index as int].name)
        },
    }
}

proof fn lemma_project_entries_valid(cats: Seq<CategoryModel>, filter: Seq<char>, ci: int, n: nat)
    requires
        sizes_fit(cats),
        0 <= ci < cats.len(),
        n <= cats[ci].projects.len(),
    ensures
        forall|k: int|
            0 <= k < project_entries(ci, cats[ci].projects, filter, n).len() ==> entry_valid(
                cats,
                filter,
                #[trigger] project_entries(ci, cats[ci].projects, filter, n)[k],
            ),
    decreases n,
{
    if n > 0 {
        lemma_project_entries_valid(cats, filter, ci, (n - 1) as nat);
        assert(cats[ci].projects.len() <= usize::MAX);
        let rest = project_entries(ci, cats[ci].projects, filter, (n - 1) as nat);
        let all = project_entries(ci, cats[ci].projects, filter, n);
        assert forall|k: int| 0 <= k < all.len() implies entry_valid(cats, filter, #[trigger] all[k]) by {
            if k < rest.len() {
                assert(all[k] == rest[k]);
            }
        }
    }
}

/// Every entry of the list names a category, or a project of it that passes
/// the filter.
pub proof fn lemma_entries_valid(cats: Seq<CategoryModel>, filter: Seq<char>, n: nat)
    requires
        sizes_fit(cats),
        n <= cats.len(),
    ensures
        forall|k: int|
            0 <= k < entries_upto(cats, filter, n).len() ==> entry_valid(
                cats,
                filter,
                #[trigger] entries_upto(cats, filter, n)[k],
            ),
    decreases n,
{
    if n > 0 {
        lemma_entries_valid(cats, filter, (n - 1) as nat);
        lemma_project_entries_valid(cats, filter, n - 1, cats[n - 1].projects.len());
        let a = entries_upto(cats, filter, (n - 1) as nat);
        let b = category_entries(n - 1, cats[n - 1], filter);
        assert forall|k: int| 0 <= k < (a + b).len() implies entry_valid(cats, filter, #[trigger] (a + b)[k]) by {
            if k >= a.len() {
                let hits = project_entries(n - 1, cats[n - 1].projects, filter, cats[n - 1].projects.len());
                if k > a.len() {
                    assert(b[k - a.len()] == hits[k - a.len() - 1]);
                }
            }
        }
    }
}

/// The sizes of stored categories fit in `usize`.
pub proof fn lemma_sizes_fit(l: &ProjectList)
    ensures
        sizes_fit(l@),
{
    assert(l.categories.len() == l.categories@.len());
    assert forall|c: int| 0 <= c < l@.len() implies #[trigger] l@[c].projects.len() <= usize::MAX by {
        assert(l.categories@[c].projects.len() == l.categories@[c].projects@.len());
    }
}

/// The selected project of a view, in its models and in its values.
pub proof fn lemma_selected_model(v: ProjectListView, c: int, i: int)
    requires
        v.selected_project() == Some((c, i)),
    ensures
        0 <= c < v.projects.categories@.len(),
        0 <= i < v.projects.categories@[c].projects@.len(),
        v.projects@[c] == v.projects.categories@[c]@,
        v.projects@[c].projects[i] == v.projects.categories@[c].projects@[i]@,
        passes_filter(v.filter@, v.projects@[c].projects[i].name),
{
    lemma_sizes_fit(&v.projects);
    lemma_entries_valid(v.projects@, v.filter@, v.projects@.len());
    assert(entry_valid(v.projects@, v.filter@, v.entries_view()[v.selected.unwrap() as int]));
}

/// The first project entry after index `i`, if any.
pub open spec fn next_project_from(es: Seq<Entry>, i: int) -> Option<int>
    decreases es.len() - i,
{
    if i + 1 < 0 || i + 1 >= es.len() {
        None
    } else if es[i + 1] is Project {
        Some(i + 1)
    } else {
        next_project_from(es, i + 1)
    }
}

/// The last project entry before index `i`, if any.
pub open spec fn prev_project_from(es: Seq<Entry>, i: int) -> Option<int>
    decreases i,
{
    if i - 1 < 0 || i - 1 >= es.len() {
        None
    } else if es[i - 1] is Project {
        Some(i - 1)
    } else {
        prev_project_from(es, i - 1)
    }
}

/// The index of the first category named `name` among the first `n`, or -1.
pub open spec fn find_category(cats: Seq<CategoryModel>, name: Seq<char>, n: nat) -> int
    decreases n,
{
    if n == 0 {
        -1
    } else {
        let f = find_category(cats, name, (n - 1) as nat);
        if f >= 0 {
            f
        } else if cats[n - 1].name == name {
            n - 1
        } else {
            -1
        }
    }
}

/// The categories after adding a project to the first category named `name`,
/// or to a new category of that name at the end when there is none.
pub open spec fn insert_model(cats: Seq<CategoryModel>, p: ProjectModel, name: Seq<char>) -> Seq<CategoryModel> {
    let i = find_category(cats, name, cats.len());
    if i >= 0 {
        cats.update(i, CategoryModel { name: cats[i].name, projects: cats[i].projects.push(p) })
    } else {
        cats.push(CategoryModel { name: name, projects: seq![p] })
    }
}

/// The categories after removing project `i` of category `c`.
pub open spec fn remove_model(cats: Seq<CategoryModel>, c: int, i: int) -> Seq<CategoryModel> {
    cats.update(c, CategoryModel { name: cats[c].name, projects: cats[c].projects.remove(i) })
}

impl ProjectListView {
    /// The entries the list shows.
    pub open spec fn entries_view(self) -> Seq<Entry> {
        entries_spec(self.projects@, self.filter@)
    }

    /// The selected entry, if the selection is on an entry.
    pub open spec fn selected_entry(self) -> Option<Entry> {
        match self.selected {
            Some(i) => if i < self.entries_view().len() {
                Some(self.entries_view()[i as int])
            } else {
                None
            },
            None => None,
        }
    }

    /// The category and project index of the selected entry, if it is a project.
    pub open spec fn selected_project(self) -> Option<(int, int)> {
        match self.selected_entry() {
            Some(Entry::Project { category, index }) => Some((category as int, index as int)),
            _ => None,
        }
    }

    /// The categories after removing the selected project, if one is selected.
    pub open spec fn without_selected(self) -> Seq<CategoryModel> {
        match self.selected_project() {
            Some((c, i)) => remove_model(self.projects@, c, i),
            None => self.projects@,
        }
    }

    /// The index the selection moves from: the selected one, or 0.
    pub open spec fn step_start(self) -> int {
        match self.selected {
            Some(i) => i as int,
            None => 0,
        }
    }

    /// Where `next` moves the selection.
    pub open spec fn next_selection(self) -> Option<usize> {
        match next_project_from(self.entries_view(), self.step_start()) {
            Some(j) => Some(j as usize),
            None => self.selected,
        }
    }

    /// Where `prev` moves the selection.
    pub open spec fn prev_selection(self) -> Option<usize> {
        match prev_project_from(self.entries_view(), self.step_start()) {
            Some(j) => Some(j as usize),
            None => self.selected,
        }
    }

    /// A view of the categories, browsing, with no selection and no filter.
    pub fn new(categories: Vec<Category>) -> (r: ProjectListView)
        ensures
            r.projects.categories == categories,
            r.projects.path@ == Seq::<char>::empty(),
            r.selected is None,
            r.mode is ProjectView,
            r.filter@ == Seq::<char>::empty(),
    {
        ProjectListView {
            projects: ProjectList { categories, path: String::new() },
            selected: None,
            mode: EditMode::ProjectView,
            filter: String::new(),
        }
    }

    /// Whether the project's name passes the filter.
    fn matches_filter(&self, project: &Project) -> (r: bool)
        ensures
            r == passes_filter(self.filter@, project.name@),
    {
        self.filter.as_str().is_empty() || contains(project.name.as_str(), self.filter.as_str())
    }

    /// The entries shown: for each category with a project that passes the
    /// filter, its heading followed by those projects.
    pub fn entries(&self) -> (r: Vec<Entry>)
        ensures
            r@ == self.entries_view(),
    {
        let cats = &self.projects.categories;
        let mut out: Vec<Entry> = Vec::new();
        let mut ci: usize = 0;
        while ci < cats.len()
            invariant
                cats == &self.projects.categories,
                ci <= cats@.len(),
                out@ == entries_upto(self.projects@, self.filter@, ci as nat),
            decreases cats@.len() - ci,
        {
            let cat = &cats[ci];
            let ghost cm = self.projects@[ci as int];
            let mut hits: Vec<Entry> = Vec::new();
            let mut pi: usize = 0;
            while pi < cat.projects.len()
                invariant
                    cat == &cats@[ci as int],
                    cm == cat@,
                    pi <= cat.projects@.len(),
                    hits@ == project_entries(ci as int, cm.projects, self.filter@, pi as nat),
                decreases cat.projects@.len() - pi,
            {
                if self.matches_filter(&cat.projects[pi]) {
                    hits.push(Entry::Project { category: ci, index: pi });
                }
                pi += 1;
            }
            if hits.len() > 0 {
                out.push(Entry::Header(ci));
                out.append(&mut hits);
            }
            proof {
                assert(entries_upto(self.projects@, self.filter@, (ci + 1) as nat)
                    =~= entries_upto(self.projects@, self.filter@, ci as nat) + category_entries(ci as int, cm, self.filter@));
            }
            assert(out@ =~= entries_upto(self.projects@, self.filter@, (ci + 1) as nat));
            ci += 1;
        }
        out
    }

    /// Moves the selection to the nearest project entry in direction `dir`
    /// (1: down, -1: up); when there is none the selection stays.
    fn step(&mut self, dir: isize)
        requires
            dir == 1 || dir == -1,
        ensures
            final(self).selected == (if dir == 1 {
                old(self).next_selection()
            } else {
                old(self).prev_selection()
            }),
            final(self).projects == old(self).projects,
            final(self).mode == old(self).mode,
            final(self).filter == old(self).filter,
    {
        let entries = self.entries();
        let ghost es = entries@;
        let ghost start = self.step_start();
        let mut i: usize = match self.selected {
            Some(s) => s,
            None => 0,
        };
        if dir == 1 {
            loop
                invariant
                    es == entries@,
                    es == self.entries_view(),
                    dir == 1,
                    next_project_from(es, start) == next_project_from(es, i as int),
                    self.projects == old(self).projects,
                    self.mode == old(self).mode,
                    self.filter == old(self).filter,
                    self.selected == old(self).selected,
                    start == old(self).step_start(),
                decreases es.len() - i,
            {
                if entries.len() == 0 || i >= entries.len() - 1 {
                    assert(next_project_from(es, i as int) is None);
                    return;
                }
                i += 1;
                if let Entry::Project { .. } = entries[i] {
                    assert(next_project_from(es, i - 1) == Some(i as int));
                    self.selected = Some(i);
                    return;
                }
            }
        } else {
            loop
                invariant
                    es == entries@,
                    es == self.entries_view(),
                    dir == -1,
                    prev_project_from(es, start) == prev_project_from(es, i as int),
                    self.projects == old(self).projects,
                    self.mode == old(self).mode,
                    self.filter == old(self).filter,
                    self.selected == old(self).selected,
                    start == old(self).step_start(),
                decreases i,
            {
                if i == 0 || i - 1 >= entries.len() {
                    assert(prev_project_from(es, i as int) is None);
                    return;
                }
                i -= 1;
                if let Entry::Project { .. } = entries[i] {
                    assert(prev_project_from(es, i + 1) == Some(i as int));
                    self.selected = Some(i);
                    return;
                }
            }
        }
    }

    /// Moves the selection down to the next project entry, if there is one.
    pub fn next(&mut self)
        ensures
            final(self).selected == old(self).next_selection(),
            final(self).projects == old(self).projects,
            final(self).mode == old(self).mode,
            final(self).filter == old(self).filter,
    {
        self.step(1);
    }

    /// Moves the selection up to the previous project entry, if there is one.
    pub fn prev(&mut self)
        ensures
            final(self).selected == old(self).prev_selection(),
            final(self).projects == old(self).projects,
            final(self).mode == old(self).mode,
            final(self).filter == old(self).filter,
    {
        self.step(-1);
    }

    /// The selected project and its category, when the selection is on a
    /// project entry.
    pub fn get_from_rendered(&self) -> (r: Option<(&Category, &Project)>)
        ensures
            r is Some <==> self.selected_project() is Some,
            r matches Some((c, p)) ==> {
                &&& *c == self.projects.categories@[self.selected_project().unwrap().0]
                &&& *p == c.projects@[self.selected_project().unwrap().1]
            },
    {
        let entries = self.entries();
        let i = match self.selected {
            Some(i) => i,
            None => return None,
        };
        if i >= entries.len() {
            return None;
        }
        match entries[i] {
            Entry::Project { category, index } => {
                proof {
                    lemma_sizes_fit(&self.projects);
                    lemma_entries_valid(self.projects@, self.filter@, self.projects@.len());
                    assert(entry_valid(self.projects@, self.filter@, entries@[i as int]));
                }
                Some((&self.projects.categories[category], &self.projects.categories[category].projects[index]))
            },
            Entry::Header(_) => None,
        }
    }

    /// Adds a project to the first category named `category`, or to a new
    /// category of that name at the end.
    pub fn insert(&mut self, project: Project, category: String)
        ensures
            final(self).projects@ == insert_model(old(self).projects@, project@, category@),
            final(self).projects.path == old(self).projects.path,
            final(self).selected == old(self).selected,
            final(self).mode == old(self).mode,
            final(self).filter == old(self).filter,
    {
        let ghost cats = self.projects@;
        let mut i: usize = 0;
        while i < self.projects.categories.len()
            invariant
                cats == self.projects@,
                cats == old(self).projects@,
                self.projects.path == old(self).projects.path,
                self.selected == old(self).selected,
                self.mode == old(self).mode,
                self.filter == old(self).filter,
                i <= self.projects.categories@.len(),
                find_category(cats, category@, i as nat) == -1,
            decreases self.projects.categories@.len() - i,
        {
            if self.projects.categories[i].name == category {
                assert(find_category(cats, category@, cats.len()) == i) by {
                    lemma_find_category_first(cats, category@, i as nat, cats.len());
                }
                let ghost old_cats = self.projects.categories@;
                let ghost p = project@;
                self.projects.categories[i].projects.push(project);
                let ghost new_cat = self.projects.categories@[i as int];
                assert(self.projects.categories@ == old_cats.update(i as int, new_cat));
                assert(new_cat.projects@ == old_cats[i as int].projects@.push(project));
                assert(new_cat@.projects =~= cats[i as int].projects.push(p));
                assert(self.projects@ =~= insert_model(cats, p, category@));
                return;
            }
            i += 1;
        }
        let ghost p = project@;
        let ghost name = category@;
        let v = vec![project];
        assert(crate::persistence::projects_model(v@) =~= seq![p]);
        self.projects.categories.push(Category { name: category, projects: v });
        assert(self.projects@ =~= insert_model(cats, p, name));
    }

    /// Removes the selected project, when the selection is on a project entry
    /// (`Some`); otherwise changes nothing (`None`).
    pub fn del_selected(&mut self) -> (r: Option<()>)
        ensures
            r is Some <==> old(self).selected_project() is Some,
            final(self).projects@ == old(self).without_selected(),
            r is None ==> *final(self) == *old(self),
            final(self).projects.path == old(self).projects.path,
            final(self).selected == old(self).selected,
            final(self).mode == old(self).mode,
            final(self).filter == old(self).filter,
    {
        let entries = self.entries();
        let i = match self.selected {
            Some(i) => i,
            None => return None,
        };
        if i >= entries.len() {
            return None;
        }
        match entries[i] {
            Entry::Project { category, index } => {
                let ghost cats = self.projects@;
                proof {
                    lemma_sizes_fit(&self.projects);
                    lemma_entries_valid(self.projects@, self.filter@, self.projects@.len());
                    assert(entry_valid(self.projects@, self.filter@, entries@[i as int]));
                }
                let ghost old_cats = self.projects.categories@;
                self.projects.categories[category].projects.remove(index);
                let ghost new_cat = self.projects.categories@[category as int];
                assert(self.projects.categories@ == old_cats.update(category as int, new_cat));
                assert(new_cat.projects@ == old_cats[category as int].projects@.remove(index as int));
                assert(new_cat@.projects =~= cats[category as int].projects.remove(index as int));
                assert(self.projects@ =~= remove_model(cats, category as int, index as int));
                Some(())
            },
            Entry::Header(_) => None,
        }
    }

    /// Handles a key according to the mode: browsing keys move, edit, create,
    /// delete or filter; filter keys edit the filter; form keys go to the
    /// editor, whose save stores the project. Returns the event for the
    /// application, or an error when editing is asked with nothing selected.
    pub fn handle_key_event(&mut self, key_event: KeyEvent, settings: &Settings) -> (r: Result<
        Option<AppEvent>,
        ViewError,
    >)
        ensures
            view_key_post(*old(self), *final(self), key_event, *settings, r),
    {
        match &mut self.mode {
            EditMode::ProjectView => match key_event.code {
                KeyCode::Esc | KeyCode::Char('q') | KeyCode::Char('Q') => {
                    return Ok(Some(AppEvent::Quit));
                },
                KeyCode::Char(c) if (c == 'c' || c == 'C') && key_event.modifiers.is_control_only() => {
                    return Ok(Some(AppEvent::Quit));
                },
                KeyCode::Enter => return Ok(Some(AppEvent::QuitWithSelected)),
                KeyCode::Tab => return Ok(Some(AppEvent::NextTab)),
                KeyCode::BackTab => return Ok(Some(AppEvent::PrevTab)),
                KeyCode::Char('j') | KeyCode::Char('J') | KeyCode::Down => self.next(),
                KeyCode::Char('k') | KeyCode::Char('K') | KeyCode::Up => self.prev(),
                KeyCode::Char('e') | KeyCode::Char('E') => self.edit_project()?,
                KeyCode::Char('n') | KeyCode::Char('N') => self.new_project(settings),
                KeyCode::Char('d') | KeyCode::Char('D') => {
                    self.del_selected();
                    return Ok(Some(AppEvent::Save));
                },
                KeyCode::Char('f') | KeyCode::Char('F') => self.mode = EditMode::EditFilter,
                _ => {},
            },
            EditMode::EditingProject(editor) => {
                let event = editor.handle_key_event(key_event);
                return self.finish_form_key(event);
            },
            EditMode::CreatingProject(editor) => {
                let event = editor.handle_key_event(key_event);
                return self.finish_form_key(event);
            },
            EditMode::EditFilter => match key_event.code {
                KeyCode::Esc => self.mode = EditMode::ProjectView,
                KeyCode::Char(c) if (c == 'c' || c == 'C') && key_event.modifiers.is_control_only() => {
                    return Ok(Some(AppEvent::Quit));
                },
                KeyCode::Tab => return Ok(Some(AppEvent::NextTab)),
                KeyCode::BackTab => return Ok(Some(AppEvent::PrevTab)),
                KeyCode::Down => self.next(),
                KeyCode::Up => self.prev(),
                KeyCode::Backspace => {
                    self.filter.pop();
                },
                KeyCode::Char(c) => {
                    self.filter.push(c);
                },
                KeyCode::Enter => {},
                _ => {},
            },
        }
        Ok(None)
    }

    /// Acts on what the form answered to a key: saving stores the project and
    /// closes the form, cancelling closes it.
    fn finish_form_key(&mut self, event: Option<EditorEvent>) -> (r: Result<Option<AppEvent>, ViewError>)
        requires
            editor_of(old(self).mode) is Some,
        ensures
            match event {
                Some(EditorEvent::Save) => {
                    &&& r == Ok::<Option<AppEvent>, ViewError>(Some(AppEvent::Save))
                    &&& final(self).mode is ProjectView
                    &&& final(self).projects@ == saved_model(*old(self), editor_of(old(self).mode).unwrap())
                    &&& final(self).projects.path == old(self).projects.path
                    &&& final(self).selected == old(self).selected
                    &&& final(self).filter == old(self).filter
                },
                Some(EditorEvent::Cancel) => {
                    &&& r == Ok::<Option<AppEvent>, ViewError>(None)
                    &&& only_mode_changed(*old(self), *final(self))
                    &&& final(self).mode is ProjectView
                },
                None => r == Ok::<Option<AppEvent>, ViewError>(None) && *final(self) == *old(self),
            },
    {
        match event {
            Some(EditorEvent::Save) => {
                self.save_project();
                Ok(Some(AppEvent::Save))
            },
            Some(EditorEvent::Cancel) => {
                self.mode = EditMode::ProjectView;
                Ok(None)
            },
            None => Ok(None),
        }
    }

    /// Stores the project of the open form: it replaces the selected project
    /// when editing, and is added when creating. The form closes.
    fn save_project(&mut self)
        requires
            editor_of(old(self).mode) is Some,
        ensures
            final(self).mode is ProjectView,
            final(self).projects@ == saved_model(*old(self), editor_of(old(self).mode).unwrap()),
            final(self).projects.path == old(self).projects.path,
            final(self).selected == old(self).selected,
            final(self).filter == old(self).filter,
    {
        let mode = std::mem::replace(&mut self.mode, EditMode::ProjectView);
        match mode {
            EditMode::EditingProject(p) => {
                let (cat, proj) = p.into_project();
                self.update_selected(proj, cat);
            },
            EditMode::CreatingProject(p) => {
                let (cat, proj) = p.into_project();
                self.insert(proj, cat);
            },
            _ => {
                assert(false);
            },
        }
    }

    /// Opens the form on the selected project, or fails when the selection is
    /// not on a project.
    fn edit_project(&mut self) -> (r: Result<(), ViewError>)
        ensures
            match old(self).selected_project() {
                Some((c, i)) => {
                    &&& r is Ok
                    &&& only_mode_changed(*old(self), *final(self))
                    &&& final(self).mode matches EditMode::EditingProject(e)
                    &&& is_form_for(e, old(self).projects@[c].name, old(self).projects@[c].projects[i])
                    &&& editor_fresh(e)
                },
                None => r == Err::<(), ViewError>(ViewError::NothingSelected) && *final(self) == *old(self),
            },
    {
        if let Some(p) = self.get_from_rendered() {
            proof {
                let (c, i) = self.selected_project().unwrap();
                lemma_sizes_fit(&self.projects);
                lemma_entries_valid(self.projects@, self.filter@, self.projects@.len());
                assert(entry_valid(self.projects@, self.filter@, self.entries_view()[self.selected.unwrap() as int]));
                assert(self.projects@[c] == self.projects.categories@[c]@);
                assert(self.projects@[c].projects[i] == self.projects.categories@[c].projects@[i]@);
            }
            self.mode = EditMode::EditingProject(ProjectEditor::from(p));
        } else {
            return Err(ViewError::NothingSelected);
        }
        Ok(())
    }

    /// Opens a blank form for a new project.
    fn new_project(&mut self, settings: &Settings)
        ensures
            only_mode_changed(*old(self), *final(self)),
            final(self).mode matches EditMode::CreatingProject(e) && is_blank_form(
                e,
                opt_view(settings.default_folder),
            ) && editor_fresh(e),
    {
        self.mode = EditMode::CreatingProject(ProjectEditor::new(settings));
    }

    /// The title of the list: with the filter when one is set or being typed.
    pub fn list_title(&self) -> (r: String)
        ensures
            r@ == (if self.filter@.len() > 0 || self.mode is EditFilter {
                "Projects/ "@ + self.filter@
            } else {
                "Projects"@
            }),
    {
        if !self.filter.as_str().is_empty() || matches!(self.mode, EditMode::EditFilter) {
            let mut t = String::from_str("Projects/ ");
            t.append(self.filter.as_str());
            t
        } else {
            String::from_str("Projects")
        }
    }

    /// The text of each entry shown, in order.
    pub fn entry_labels(&self) -> (r: Vec<String>)
        ensures
            r@.len() == self.entries_view().len(),
            forall|k: int|
                0 <= k < r@.len() ==> (#[trigger] r@[k])@ == entry_label_spec(
                    self.projects@,
                    self.entries_view()[k],
                ),
    {
        let entries = self.entries();
        proof {
            lemma_sizes_fit(&self.projects);
            lemma_entries_valid(self.projects@, self.filter@, self.projects@.len());
        }
        let mut labels: Vec<String> = Vec::new();
        let mut k: usize = 0;
        while k < entries.len()
            invariant
                entries@ == self.entries_view(),
                k <= entries@.len(),
                labels@.len() == k,
                forall|j: int| 0 <= j < entries@.len() ==> entry_valid(self.projects@, self.filter@, #[trigger] entries@[j]),
                forall|j: int|
                    0 <= j < k ==> (#[trigger] labels@[j])@ == entry_label_spec(self.projects@, entries@[j]),
            decreases entries@.len() - k,
        {
            let label = match entries[k] {
                Entry::Header(c) => {
                    assert(entry_valid(self.projects@, self.filter@, entries@[k as int]));
                    assert(self.projects@[c as int] == self.projects.categories@[c as int]@);
                    let mut t = String::from_str("\u{25bc} ");
                    t.append(self.projects.categories[c].name.as_str());
                    t
                },
                Entry::Project { category, index } => {
                    assert(entry_valid(self.projects@, self.filter@, entries@[k as int]));
                    assert(self.projects@[category as int] == self.projects.categories@[category as int]@);
                    assert(self.projects@[category as int].projects[index as int]
                        == self.projects.categories@[category as int].projects@[index as int]@);
                    let mut t = String::from_str("  ");
                    t.append(self.projects.categories[category].projects[index].name.as_str());
                    t
                },
            };
            labels.push(label);
            k += 1;
        }
        labels
    }

    /// Replaces the selected project: removes it (when the selection is on a
    /// project) and adds `project` to the category named `category`.
    pub fn update_selected(&mut self, project: Project, category: String)
        ensures
            final(self).projects@ == insert_model(old(self).without_selected(), project@, category@),
            final(self).projects.path == old(self).projects.path,
            final(self).selected == old(self).selected,
            final(self).mode == old(self).mode,
            final(self).filter == old(self).filter,
    {
        self.del_selected();
        self.insert(project, category);
    }
}

/// The first category of a name stays first when more categories are looked at.
proof fn lemma_find_category_first(cats: Seq<CategoryModel>, name: Seq<char>, i: nat, n: nat)
    requires
        i < n <= cats.len(),
        find_category(cats, name, i) == -1,
        cats[i as int].name == name,
    ensures
        find_category(cats, name, n) == i,
    decreases n,
{
    if n > i + 1 {
        lemma_find_category_first(cats, name, i, (n - 1) as nat);
    }
}

/// The number of projects in all categories.
pub open spec fn total_projects(cats: Seq<CategoryModel>) -> int
    decreases cats.len(),
{
    if cats.len() == 0 {
        0
    } else {
        total_projects(cats.drop_last()) + cats.last().projects.len()
    }
}

proof fn lemma_total_update(cats: Seq<CategoryModel>, i: int, c: CategoryModel)
    requires
        0 <= i < cats.len(),
    ensures
        total_projects(cats.update(i, c)) == total_projects(cats) - cats[i].projects.len()
            + c.projects.len(),
    decreases cats.len(),
{
    if i < cats.len() - 1 {
        assert(cats.update(i, c).drop_last() =~= cats.drop_last().update(i, c));
        lemma_total_update(cats.drop_last(), i, c);
    } else {
        assert(cats.update(i, c).drop_last() =~= cats.drop_last());
    }
}

proof fn lemma_find_category_found(cats: Seq<CategoryModel>, name: Seq<char>, n: nat)
    requires
        n <= cats.len(),
    ensures
        find_category(cats, name, n) >= 0 ==> find_category(cats, name, n) < n && cats[find_category(
            cats,
            name,
            n,
        )].name == name,
        find_category(cats, name, n) >= 0 ==> find_category(cats, name, find_category(cats, name, n) as nat) == -1,
        find_category(cats, name, n) < 0 ==> forall|k: int| 0 <= k < n ==> #[trigger] cats[k].name != name,
    decreases n,
{
    if n > 0 {
        lemma_find_category_found(cats, name, (n - 1) as nat);
    }
}

/// Adding a project puts it last in the first category of the given name
/// (made at the end when there was none), leaves every other category as it
/// was, and makes one project more.
pub proof fn lemma_insert_adds_project(cats: Seq<CategoryModel>, p: ProjectModel, name: Seq<char>)
    ensures
        ({
            let r = insert_model(cats, p, name);
            let i = find_category(r, name, r.len());
            &&& 0 <= i < r.len()
            &&& r[i].name == name
            &&& r[i].projects.len() > 0
            &&& r[i].projects.last() == p
            &&& forall|k: int| 0 <= k < r.len() && k != i ==> #[trigger] r[k] == cats[k]
            &&& total_projects(r) == total_projects(cats) + 1
        }),
{
    let r = insert_model(cats, p, name);
    lemma_find_category_found(cats, name, cats.len());
    let f = find_category(cats, name, cats.len());
    if f >= 0 {
        lemma_total_update(cats, f, r[f]);
        assert forall|k: nat| k <= f implies #[trigger] find_category(r, name, k) == find_category(cats, name, k) by {
            lemma_find_category_prefix(cats, r, name, k);
        }
        lemma_find_category_first(r, name, f as nat, r.len());
    } else {
        assert(r.drop_last() =~= cats);
        assert forall|k: nat| k <= cats.len() implies #[trigger] find_category(r, name, k) == find_category(cats, name, k) by {
            lemma_find_category_prefix(cats, r, name, k);
        }
        lemma_find_category_first(r, name, cats.len(), r.len());
    }
}

proof fn lemma_find_category_prefix(a: Seq<CategoryModel>, b: Seq<CategoryModel>, name: Seq<char>, n: nat)
    requires
        n <= a.len(),
        n <= b.len(),
        forall|k: int| 0 <= k < n ==> #[trigger] a[k].name == b[k].name,
    ensures
        find_category(a, name, n) == find_category(b, name, n),
    decreases n,
{
    if n > 0 {
        lemma_find_category_prefix(a, b, name, (n - 1) as nat);
    }
}

/// Deleting the selected project makes one project fewer; deleting with no
/// project selected changes nothing.
pub proof fn lemma_delete_removes_project(v: ProjectListView)
    ensures
        v.selected_project() is Some ==> total_projects(v.without_selected()) == total_projects(v.projects@) - 1,
        v.selected_project() is None ==> v.without_selected() == v.projects@,
{
    if let Some((c, i)) = v.selected_project() {
        lemma_selected_model(v, c, i);
        let cats = v.projects@;
        lemma_total_update(cats, c, CategoryModel { name: cats[c].name, projects: cats[c].projects.remove(i) });
    }
}

/// Moving down lands on the nearest project entry below, passing only
/// headings; when there is none below, only headings follow.
pub proof fn lemma_next_lands_on_project(es: Seq<Entry>, i: int)
    requires
        i >= 0,
    ensures
        match next_project_from(es, i) {
            Some(j) => i < j < es.len() && es[j] is Project && forall|k: int| i < k < j ==> #[trigger] es[k] is Header,
            None => forall|k: int| i < k < es.len() ==> #[trigger] es[k] is Header,
        },
    decreases es.len() - i,
{
    if i + 1 < es.len() && !(es[i + 1] is Project) {
        lemma_next_lands_on_project(es, i + 1);
    }
}

/// Moving up lands on the nearest project entry above, passing only
/// headings; when there is none above, only headings precede.
pub proof fn lemma_prev_lands_on_project(es: Seq<Entry>, i: int)
    requires
        i <= es.len(),
    ensures
        match prev_project_from(es, i) {
            Some(j) => 0 <= j < i && es[j] is Project && forall|k: int| j < k < i ==> #[trigger] es[k] is Header,
            None => forall|k: int| 0 <= k < i ==> #[trigger] es[k] is Header,
        },
    decreases i,
{
    if i - 1 >= 0 && !(es[i - 1] is Project) {
        lemma_prev_lands_on_project(es, i - 1);
    }
}

proof fn lemma_project_entries_complete(ci: int, projects: Seq<ProjectModel>, filter: Seq<char>, n: nat, i: int)
    requires
        0 <= i < n <= projects.len(),
        0 <= ci <= usize::MAX,
        projects.len() <= usize::MAX,
        passes_filter(filter, projects[i].name),
    ensures
        project_entries(ci, projects, filter, n).contains(Entry::Project { category: ci as usize, index: i as usize }),
    decreases n,
{
    let rest = project_entries(ci, projects, filter, (n - 1) as nat);
    if i < n - 1 {
        lemma_project_entries_complete(ci, projects, filter, (n - 1) as nat, i);
        let k = choose|k: int| 0 <= k < rest.len() && rest[k] == Entry::Project { category: ci as usize, index: i as usize };
        assert(project_entries(ci, projects, filter, n)[k] == rest[k]);
    } else {
        assert(project_entries(ci, projects, filter, n)[rest.len() as int] == Entry::Project { category: ci as usize, index: i as usize });
    }
}

/// Every project that passes the filter is shown, as an entry of its own.
pub proof fn lemma_entries_complete(cats: Seq<CategoryModel>, filter: Seq<char>, c: int, i: int)
    requires
        sizes_fit(cats),
        0 <= c < cats.len(),
        0 <= i < cats[c].projects.len(),
        passes_filter(filter, cats[c].projects[i].name),
    ensures
        entries_spec(cats, filter).contains(Entry::Project { category: c as usize, index: i as usize }),
{
    let e = Entry::Project { category: c as usize, index: i as usize };
    assert(cats[c].projects.len() <= usize::MAX);
    lemma_project_entries_complete(c, cats[c].projects, filter, cats[c].projects.len(), i);
    let hits = project_entries(c, cats[c].projects, filter, cats[c].projects.len());
    let k = choose|k: int| 0 <= k < hits.len() && hits[k] == e;
    let before = entries_upto(cats, filter, c as nat);
    let upto = entries_upto(cats, filter, (c + 1) as nat);
    assert(upto == before + category_entries(c, cats[c], filter));
    assert(upto[before.len() + 1 + k] == e);
    lemma_entries_upto_grow(cats, filter, (c + 1) as nat, cats.len(), before.len() + 1 + k);
}

proof fn lemma_entries_upto_grow(cats: Seq<CategoryModel>, filter: Seq<char>, m: nat, n: nat, k: int)
    requires
        m <= n <= cats.len(),
        0 <= k < entries_upto(cats, filter, m).len(),
    ensures
        k < entries_upto(cats, filter, n).len(),
        entries_upto(cats, filter, n)[k] == entries_upto(cats, filter, m)[k],
        entries_upto(cats, filter, n).contains(entries_upto(cats, filter, m)[k]),
    decreases n,
{
    if n > m {
        lemma_entries_upto_grow(cats, filter, m, (n - 1) as nat, k);
    }
    assert(entries_upto(cats, filter, n)[k] == entries_upto(cats, filter, m)[k]);
}

/// Typing a character into the filter and then Backspace gives back the
/// filter, the projects and the selection as they were.
pub proof fn lemma_filter_type_then_erase(
    v0: ProjectListView,
    v1: ProjectListView,
    v2: ProjectListView,
    typed: KeyEvent,
    erase: KeyEvent,
    settings: Settings,
    r1: Result<Option<AppEvent>, ViewError>,
    r2: Result<Option<AppEvent>, ViewError>,
)
    requires
        v0.mode is EditFilter,
        typed.code is Char,
        !is_interrupt(typed),
        erase.code == KeyCode::Backspace,
        view_key_post(v0, v1, typed, settings, r1),
        view_key_post(v1, v2, erase, settings, r2),
    ensures
        v2.filter@ == v0.filter@,
        v2.projects == v0.projects,
        v2.selected == v0.selected,
        v2.mode == v0.mode,
        r1 == Ok::<Option<AppEvent>, ViewError>(None),
        r2 == Ok::<Option<AppEvent>, ViewError>(None),
{
    assert(v1.filter@.drop_last() =~= v0.filter@);
}

/// Saving a form adds one project, except when it replaces the selected
/// project of the project being edited, which keeps the count.
pub proof fn lemma_save_counts(pre: ProjectListView, e: ProjectEditor)
    ensures
        total_projects(saved_model(pre, e)) == total_projects(pre.projects@) + 1 - (if pre.mode is EditingProject
            && pre.selected_project() is Some {
            1int
        } else {
            0int
        }),
{
    let (cat, proj) = editor_project(e);
    lemma_delete_removes_project(pre);
    if pre.mode is EditingProject {
        lemma_insert_adds_project(pre.without_selected(), proj, cat);
    } else {
        lemma_insert_adds_project(pre.projects@, proj, cat);
    }
}

/// Saving an open form (Control-S in the form, as `handle_key_event` does it)
/// closes the form and leaves the categories that deleting the selected
/// project (when the form edits a project) and then inserting the project of
/// `into_project` under its category leave; the selection, the filter and
/// the file path stay. `deleted` is the list as `del_selected` leaves it (or
/// as it was, for a new project), `inserted` as `insert` then leaves it.
pub proof fn lemma_save_is_delete_then_insert(
    pre: ProjectListView,
    post: ProjectListView,
    key: KeyEvent,
    settings: Settings,
    r: Result<Option<AppEvent>, ViewError>,
    deleted: ProjectListView,
    inserted: ProjectListView,
)
    requires
        editor_of(pre.mode) is Some,
        crate::editor::editor::editor_event(editor_of(pre.mode).unwrap(), key) == Some(
            EditorEvent::Save,
        ),
        view_key_post(pre, post, key, settings, r),
        pre.mode is EditingProject ==> deleted.projects@ == pre.without_selected(),
        pre.mode is CreatingProject ==> deleted.projects@ == pre.projects@,
        inserted.projects@ == insert_model(
            deleted.projects@,
            editor_project(editor_of(pre.mode).unwrap()).1,
            editor_project(editor_of(pre.mode).unwrap()).0,
        ),
    ensures
        r == Ok::<Option<AppEvent>, ViewError>(Some(AppEvent::Save)),
        post.mode is ProjectView,
        post.projects@ == inserted.projects@,
        post.projects.path == pre.projects.path,
        post.selected == pre.selected,
        post.filter == pre.filter,
{
}

/// A project whose name holds the filter anywhere, as a run of consecutive
/// characters, passes the filter and is listed.
pub proof fn lemma_filter_finds_anywhere(
    cats: Seq<CategoryModel>,
    filter: Seq<char>,
    c: int,
    i: int,
    before: Seq<char>,
    after: Seq<char>,
)
    requires
        sizes_fit(cats),
        0 <= c < cats.len(),
        0 <= i < cats[c].projects.len(),
        cats[c].projects[i].name == before + filter + after,
    ensures
        passes_filter(filter, cats[c].projects[i].name),
        entries_spec(cats, filter).contains(Entry::Project { category: c as usize, index: i as usize }),
{
    let name = cats[c].projects[i].name;
    let k = before.len() as int;
    assert(name.subrange(k, k + filter.len()) =~= filter);
    lemma_entries_complete(cats, filter, c, i);
}

/// A name passes a filter that is not empty only when the filter occurs in
/// it: the name is something, then the filter, then something.
pub proof fn lemma_filter_needs_occurrence(filter: Seq<char>, name: Seq<char>)
    requires
        filter.len() > 0,
        passes_filter(filter, name),
    ensures
        exists|before: Seq<char>, after: Seq<char>| name == before + filter + after,
{
    let k = choose|k: int|
        0 <= k && k + filter.len() <= name.len() && #[trigger] name.subrange(k, k + filter.len())
            == filter;
    let before = name.subrange(0, k);
    let after = name.subrange(k + filter.len(), name.len() as int);
    assert(name =~= before + filter + after);
}

/// While browsing, Up and `k` move the selection to the project entry before
/// it, Down and `j` to the project entry after it (either case of the letter,
/// whatever modifiers are held); the list itself stays as it was.
pub proof fn lemma_arrows_step(
    pre: ProjectListView,
    post: ProjectListView,
    key: KeyEvent,
    settings: Settings,
    r: Result<Option<AppEvent>, ViewError>,
)
    requires
        pre.mode is ProjectView,
        key.code == KeyCode::Up || key.code == KeyCode::Down || key.is_char_in('k', 'K')
            || key.is_char_in('j', 'J'),
        view_key_post(pre, post, key, settings, r),
    ensures
        r == Ok::<Option<AppEvent>, ViewError>(None),
        (key.code == KeyCode::Up || key.is_char_in('k', 'K')) ==> post.selected == pre.prev_selection(),
        (key.code == KeyCode::Down || key.is_char_in('j', 'J')) ==> post.selected == pre.next_selection(),
        (key.code == KeyCode::Up || key.is_char_in('k', 'K')) && pre.selected is Some ==> post.selected is Some
            && post.selected.unwrap() <= pre.selected.unwrap(),
        (key.code == KeyCode::Down || key.is_char_in('j', 'J')) && pre.selected is Some && pre.entries_view().len() <= usize::MAX
            ==> post.selected is Some
            && post.selected.unwrap() >= pre.selected.unwrap(),
        post.projects == pre.projects,
        post.mode == pre.mode,
        post.filter == pre.filter,
{
    if pre.step_start() <= pre.entries_view().len() {
        lemma_prev_lands_on_project(pre.entries_view(), pre.step_start());
    }
    lemma_next_lands_on_project(pre.entries_view(), pre.step_start());
}

/// Where an entry stands in the order of the list: category first, then the
/// heading before the projects, the projects by index.
pub open spec fn entry_rank(e: Entry) -> (int, int) {
    match e {
        Entry::Header(c) => (c as int, -1),
        Entry::Project { category, index } => (category as int, index as int),
    }
}

/// Whether one entry comes strictly before another in the order of the list.
pub open spec fn entry_before(a: Entry, b: Entry) -> bool {
    entry_rank(a).0 < entry_rank(b).0 || (entry_rank(a).0 == entry_rank(b).0 && entry_rank(a).1
        < entry_rank(b).1)
}

proof fn lemma_project_entries_sorted(ci: int, projects: Seq<ProjectModel>, filter: Seq<char>, n: nat)
    requires
        0 <= ci <= usize::MAX,
        n <= projects.len() <= usize::MAX,
    ensures
        forall|j: int, k: int|
            0 <= j < k < project_entries(ci, projects, filter, n).len() ==> entry_before(
                #[trigger] project_entries(ci, projects, filter, n)[j],
                #[trigger] project_entries(ci, projects, filter, n)[k],
            ),
        forall|k: int|
            0 <= k < project_entries(ci, projects, filter, n).len() ==> {
                let e = #[trigger] project_entries(ci, projects, filter, n)[k];
                e is Project && entry_rank(e).0 == ci && 0 <= entry_rank(e).1 < n
            },
    decreases n,
{
    if n > 0 {
        lemma_project_entries_sorted(ci, projects, filter, (n - 1) as nat);
    }
}

proof fn lemma_entries_upto_sorted(cats: Seq<CategoryModel>, filter: Seq<char>, n: nat)
    requires
        sizes_fit(cats),
        n <= cats.len(),
    ensures
        forall|j: int, k: int|
            0 <= j < k < entries_upto(cats, filter, n).len() ==> entry_before(
                #[trigger] entries_upto(cats, filter, n)[j],
                #[trigger] entries_upto(cats, filter, n)[k],
            ),
        forall|k: int|
            0 <= k < entries_upto(cats, filter, n).len() ==> 0 <= entry_rank(
                #[trigger] entries_upto(cats, filter, n)[k],
            ).0 < n,
    decreases n,
{
    if n > 0 {
        let m = (n - 1) as nat;
        lemma_entries_upto_sorted(cats, filter, m);
        assert(cats[m as int].projects.len() <= usize::MAX);
        lemma_project_entries_sorted(m as int, cats[m as int].projects, filter, cats[m as int].projects.len());
        let a = entries_upto(cats, filter, m);
        let b = category_entries(m as int, cats[m as int], filter);
        let hits = project_entries(m as int, cats[m as int].projects, filter, cats[m as int].projects.len());
        assert forall|k: int| 0 <= k < b.len() implies entry_rank(#[trigger] b[k]).0 == m && (k == 0 || entry_rank(b[k]).1 >= 0) && (k > 0 ==> entry_rank(b[k]).1 > -1) by {
            if k > 0 {
                assert(b[k] == hits[k - 1]);
            }
        }
        assert forall|j: int, k: int| 0 <= j < k < b.len() implies entry_before(#[trigger] b[j], #[trigger] b[k]) by {
            if j > 0 {
                assert(b[j] == hits[j - 1]);
                assert(b[k] == hits[k - 1]);
            } else {
                assert(b[k] == hits[k - 1]);
            }
        }
        let all = a + b;
        assert(entries_upto(cats, filter, n) == all);
        assert forall|j: int, k: int| 0 <= j < k < all.len() implies entry_before(#[trigger] all[j], #[trigger] all[k]) by {
            if k < a.len() {
            } else if j < a.len() {
                assert(all[k] == b[k - a.len()]);
            } else {
                assert(all[j] == b[j - a.len()]);
                assert(all[k] == b[k - a.len()]);
            }
        }
        assert forall|k: int| 0 <= k < all.len() implies 0 <= entry_rank(#[trigger] all[k]).0 < n by {
            if k >= a.len() {
                assert(all[k] == b[k - a.len()]);
            }
        }
    }
}

/// The list is in order: by category, each heading before its projects, the
/// projects by index; so no entry is shown twice.
pub proof fn lemma_entries_sorted(cats: Seq<CategoryModel>, filter: Seq<char>)
    requires
        sizes_fit(cats),
    ensures
        forall|j: int, k: int|
            0 <= j < k < entries_spec(cats, filter).len() ==> entry_before(
                #[trigger] entries_spec(cats, filter)[j],
                #[trigger] entries_spec(cats, filter)[k],
            ),
        forall|j: int, k: int|
            0 <= j < k < entries_spec(cats, filter).len() ==> #[trigger] entries_spec(cats, filter)[j]
                != #[trigger] entries_spec(cats, filter)[k],
{
    lemma_entries_upto_sorted(cats, filter, cats.len());
}

} // verus!