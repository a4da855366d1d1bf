//! The project editor form.

use vstd::prelude::*;

use super::input_fields::{
    at_first_line_end, multi_input_post, multi_start, path_input_post, path_takes,
    single_input_post, single_result, single_start, MultiLineInput, PathInput, PathRequest,
    SingleLineInput,
};
use super::EditorEvent;
use crate::config::Settings;
use crate::keys::{KeyCode, KeyEvent};
use crate::persistence::{opt_view, Category, Project, ProjectModel};
use crate::text::{
    is_clean_line, is_white, items_joined, join_items, join_lines, lemma_join_split_lines,
    lemma_split_append_plain, lemma_split_append_sep, lemma_trim_after_white, lemma_trim_clean,
    lemma_without_absent, split, split_at_char, trim, trim_end, trim_start, trimmed, without_char,
};
use crate::textbuf::{buffer_lines, buffer_well, buffer_wraps};

verus! {

/// The fields of the form, in the order Tab visits them.
#[derive(Clone, Copy, Debug, PartialEq, Eq, Structural)]
pub enum Fields {
    Name,
    Category,
    Path,
    Tags,
    Lang,
    Desc,
}

impl Fields {
    pub open spec fn next_spec(self) -> Fields {
        match self {
            Fields::Name => Fields::Category,
            Fields::Category => Fields::Path,
            Fields::Path => Fields::Tags,
            Fields::Tags => Fields::Lang,
            Fields::Lang => Fields::Desc,
            Fields::Desc => Fields::Name,
        }
    }

    pub open spec fn prev_spec(self) -> Fields {
        match self {
            Fields::Name => Fields::Desc,
            Fields::Category => Fields::Name,
            Fields::Path => Fields::Category,
            Fields::Tags => Fields::Path,
            Fields::Lang => Fields::Tags,
            Fields::Desc => Fields::Lang,
        }
    }

    /// The field after this one, wrapping from the last to the first.
    pub fn next(self) -> (r: Fields)
        ensures
            r == self.next_spec(),
    {
        match self {
            Fields::Name => Fields::Category,
            Fields::Category => Fields::Path,
            Fields::Path => Fields::Tags,
            Fields::Tags => Fields::Lang,
            Fields::Lang => Fields::Desc,
            Fields::Desc => Fields::Name,
        }
    }

    /// The field before this one, wrapping from the first to the last.
    pub fn prev(self) -> (r: Fields)
        ensures
            r == self.prev_spec(),
    {
        match self {
            Fields::Name => Fields::Desc,
            Fields::Category => Fields::Name,
            Fields::Path => Fields::Category,
            Fields::Tags => Fields::Path,
            Fields::Lang => Fields::Tags,
            Fields::Desc => Fields::Lang,
        }
    }
}

/// Tab and Shift-Tab undo each other.
pub proof fn lemma_next_prev_inverse(f: Fields)
    ensures
        f.next_spec().prev_spec() == f,
        f.prev_spec().next_spec() == f,
{
}

/// Six presses of Tab come back to the field they started from, and no
/// fewer do.
pub proof fn lemma_next_cycle(f: Fields)
    ensures
        f.next_spec().next_spec().next_spec().next_spec().next_spec().next_spec() == f,
        f.next_spec() != f,
        f.next_spec().next_spec() != f,
        f.next_spec().next_spec().next_spec() != f,
        f.next_spec().next_spec().next_spec().next_spec() != f,
        f.next_spec().next_spec().next_spec().next_spec().next_spec() != f,
{
}

/// The form for editing a project.
#[derive(Debug)]
pub struct ProjectEditor {
    pub name: SingleLineInput,
    pub category: SingleLineInput,
    pub path: PathInput,
    pub tags: SingleLineInput,
    pub lang: SingleLineInput,
    pub desc: MultiLineInput,
    pub selected: Fields,
}

/// Whether a key goes to the path field (it is selected and takes the key).
pub open spec fn routed_to_path(e: ProjectEditor, key: KeyEvent) -> bool {
    e.selected == Fields::Path && path_takes(e.path.mode, key)
}

/// Control-S (or Control-Shift-S reported as 'S' with control only).
pub open spec fn is_save_key(key: KeyEvent) -> bool {
    key.is_char_in('s', 'S') && key.modifiers.control_only()
}

/// What the editor answers to a key.
pub open spec fn editor_event(e: ProjectEditor, key: KeyEvent) -> Option<EditorEvent> {
    if routed_to_path(e, key) {
        None
    } else if key.code == KeyCode::Esc {
        Some(EditorEvent::Cancel)
    } else if is_save_key(key) {
        Some(EditorEvent::Save)
    } else {
        None
    }
}

/// Keys that the editor itself handles when they do not go to the path field.
pub open spec fn editor_command(key: KeyEvent) -> bool {
    key.code == KeyCode::Esc || is_save_key(key) || key.code == KeyCode::Tab || key.code
        == KeyCode::BackTab
}

/// The text fields other than `f` are as before.
pub open spec fn other_texts_kept(pre: ProjectEditor, post: ProjectEditor, f: Fields) -> bool {
    &&& f != Fields::Name ==> post.name == pre.name
    &&& f != Fields::Category ==> post.category == pre.category
    &&& f != Fields::Tags ==> post.tags == pre.tags
    &&& f != Fields::Lang ==> post.lang == pre.lang
    &&& f != Fields::Desc ==> post.desc == pre.desc
}

/// The selected text field changes as its own `input` says of the key.
pub open spec fn selected_field_post(pre: ProjectEditor, post: ProjectEditor, key: KeyEvent) -> bool {
    match pre.selected {
        Fields::Name => single_input_post(pre.name, post.name, key),
        Fields::Category => single_input_post(pre.category, post.category, key),
        Fields::Tags => single_input_post(pre.tags, post.tags, key),
        Fields::Lang => single_input_post(pre.lang, post.lang, key),
        Fields::Desc => multi_input_post(pre.desc, post.desc, key),
        Fields::Path => texts_kept(pre, post),
    }
}

/// Every text field holds a line and has its cursor within its text, and the
/// one-line fields do not wrap.
pub open spec fn editor_well(e: ProjectEditor) -> bool {
    &&& buffer_well(e.name.input)
    &&& buffer_well(e.category.input)
    &&& buffer_well(e.tags.input)
    &&& buffer_well(e.lang.input)
    &&& buffer_well(e.desc.input)
    &&& !buffer_wraps(e.name.input)
    &&& !buffer_wraps(e.category.input)
    &&& !buffer_wraps(e.tags.input)
    &&& !buffer_wraps(e.lang.input)
}

/// Every text field is ready for typing, its cursor at the end of its first
/// line, and the form is well formed.
pub open spec fn editor_fresh(e: ProjectEditor) -> bool {
    &&& at_first_line_end(e.name.input)
    &&& at_first_line_end(e.category.input)
    &&& at_first_line_end(e.tags.input)
    &&& at_first_line_end(e.lang.input)
    &&& at_first_line_end(e.desc.input)
    &&& editor_well(e)
}

/// The text fields are all as before.
pub open spec fn texts_kept(pre: ProjectEditor, post: ProjectEditor) -> bool {
    other_texts_kept(pre, post, Fields::Path)
}

/// How a key changes the form, and what the form answers (`r`).
pub open spec fn editor_key_post(
    pre: ProjectEditor,
    post: ProjectEditor,
    key_event: KeyEvent,
    r: Option<EditorEvent>,
) -> bool {
    &&& r == editor_event(pre, key_event)
    &&& routed_to_path(pre, key_event) ==> {
        &&& path_input_post(pre.path, post.path, key_event, true)
        &&& texts_kept(pre, post)
        &&& post.selected == pre.selected
    }
    &&& !routed_to_path(pre, key_event) ==> {
        &&& post.path == pre.path
        &&& key_event.code == KeyCode::Tab ==> post.selected == pre.selected.next_spec()
        &&& key_event.code == KeyCode::BackTab ==> post.selected == pre.selected.prev_spec()
        &&& key_event.code != KeyCode::Tab && key_event.code != KeyCode::BackTab ==> post.selected
            == pre.selected
        &&& editor_command(key_event) ==> texts_kept(pre, post)
        &&& !editor_command(key_event) ==> selected_field_post(pre, post, key_event)
        &&& other_texts_kept(pre, post, pre.selected)
    }
}

/// The tags written in a text: the pieces between commas, without surrounding
/// white space, leaving out the empty ones.
pub open spec fn tag_list(s: Seq<char>) -> Seq<Seq<char>> {
    kept_tags(split(s, ','))
}

/// The pieces without surrounding white space, leaving out the empty ones.
pub open spec fn kept_tags(pieces: Seq<Seq<char>>) -> Seq<Seq<char>>
    decreases pieces.len(),
{
    if pieces.len() == 0 {
        Seq::<Seq<char>>::empty()
    } else if trim(pieces.last()).len() > 0 {
        kept_tags(pieces.drop_last()).push(trim(pieces.last()))
    } else {
        kept_tags(pieces.drop_last())
    }
}

/// The value, or `d` when there is none.
pub open spec fn or_else(o: Option<Seq<char>>, d: Seq<char>) -> Seq<char> {
    match o {
        Some(s) => s,
        None => d,
    }
}

/// The category name and the project that a form describes.
pub open spec fn editor_project(e: ProjectEditor) -> (Seq<char>, ProjectModel) {
    (
        or_else(single_result(buffer_lines(e.category.input)), "Uncategorized"@),
        ProjectModel {
            path: e.path.current@,
            name: or_else(single_result(buffer_lines(e.name.input)), "Unnamed"@),
            tags: tag_list(or_else(single_result(buffer_lines(e.tags.input)), Seq::<char>::empty())),
            language: single_result(buffer_lines(e.lang.input)),
            description: Some(join_lines(buffer_lines(e.desc.input))),
        },
    )
}

/// A form with empty text fields, the name selected, and a path field that
/// starts at `start`.
pub open spec fn is_blank_form(e: ProjectEditor, start: Option<Seq<char>>) -> bool {
    &&& e.selected == Fields::Name
    &&& buffer_lines(e.name.input) == single_start(None)
    &&& buffer_lines(e.category.input) == single_start(None)
    &&& buffer_lines(e.tags.input) == single_start(None)
    &&& buffer_lines(e.lang.input) == single_start(None)
    &&& buffer_lines(e.desc.input) == multi_start(None)
    &&& e.path.mode is Normal
    &&& e.path.original@ == or_else(start, Seq::<char>::empty())
    &&& e.path.current@ == e.path.original@
    &&& e.path.request matches Some(PathRequest::Open(p)) && opt_view(p) == start
}

/// A form filled in from a project in a category, the name selected.
pub open spec fn is_form_for(e: ProjectEditor, cat: Seq<char>, proj: ProjectModel) -> bool {
    &&& e.selected == Fields::Name
    &&& buffer_lines(e.name.input) == single_start(Some(proj.name))
    &&& buffer_lines(e.category.input) == single_start(Some(cat))
    &&& buffer_lines(e.tags.input) == single_start(Some(join_items(proj.tags)))
    &&& buffer_lines(e.lang.input) == single_start(proj.language)
    &&& buffer_lines(e.desc.input) == multi_start(proj.description)
    &&& e.path.mode is Normal
    &&& e.path.original@ == proj.path
    &&& e.path.current@ == proj.path
    &&& e.path.request matches Some(PathRequest::Open(p)) && opt_view(p) == Some(proj.path)
}

/// The tags of a text: split at commas, trimmed, empty ones left out.
pub fn parse_tags(s: &str) -> (r: Vec<String>)
    ensures
        crate::text::views(r@) == tag_list(s@),
{
    let pieces = split_at_char(s, ',');
    let mut tags: Vec<String> = Vec::new();
    let mut i: usize = 0;
    while i < pieces.len()
        invariant
            i <= pieces@.len(),
            crate::text::views(pieces@) == split(s@, ','),
            crate::text::views(tags@) == kept_tags(crate::text::views(pieces@).take(i as int)),
        decreases pieces@.len() - i,
    {
        let ghost before = crate::text::views(pieces@).take(i as int);
        assert(crate::text::views(pieces@).take(i + 1).drop_last() =~= before);
        let t = trimmed(pieces[i].as_str());
        if !t.as_str().is_empty() {
            tags.push(t);
            assert(crate::text::views(tags@) =~= kept_tags(before).push(trim(pieces@[i as int]@)));
        }
        i += 1;
    }
    assert(crate::text::views(pieces@).take(pieces@.len() as int) =~= crate::text::views(pieces@));
    tags
}

impl ProjectEditor {
    /// A blank form whose path field starts at `start`.
    fn blank(start: Option<String>) -> (r: ProjectEditor)
        ensures
            is_blank_form(r, opt_view(start)),
            editor_fresh(r),
    {
        ProjectEditor {
            selected: Fields::Name,
            name: SingleLineInput::new(None),
            category: SingleLineInput::new(None),
            path: PathInput::new(start),
            tags: SingleLineInput::new(None),
            lang: SingleLineInput::new(None),
            desc: MultiLineInput::new(None),
        }
    }

    /// A blank form for a new project, whose path starts at the default folder
    /// of the settings.
    pub fn new(settings: &Settings) -> (r: ProjectEditor)
        ensures
            is_blank_form(r, opt_view(settings.default_folder)),
            editor_fresh(r),
    {
        let start = crate::persistence::copy_opt(&settings.default_folder);
        ProjectEditor::blank(start)
    }

    /// A form filled in from a project and its category.
    pub fn from(proj: (&Category, &Project)) -> (r: ProjectEditor)
        ensures
            is_form_for(r, proj.0.name@, proj.1@),
            editor_fresh(r),
    {
        let (category, project) = proj;
        let tagstr = items_joined(&project.tags);
        ProjectEditor {
            selected: Fields::Name,
            name: SingleLineInput::new(Some(project.name.clone())),
            category: SingleLineInput::new(Some(category.name.clone())),
            path: PathInput::new(Some(project.path.clone())),
            tags: SingleLineInput::new(Some(tagstr)),
            lang: SingleLineInput::new(crate::persistence::copy_opt(&project.language)),
            desc: MultiLineInput::new(crate::persistence::copy_opt(&project.description)),
        }
    }

    /// Handles a key: the path field takes it first when selected; then Esc
    /// cancels, Control-S saves, Tab and Shift-Tab move between fields, and
    /// any other key goes to the selected text field.
    pub fn handle_key_event(&mut self, key_event: KeyEvent) -> (r: Option<EditorEvent>)
        ensures
            editor_key_post(*old(self), *final(self), key_event, r),
            editor_well(*old(self)) ==> editor_well(*final(self)),
    {
        if self.selected == Fields::Path && self.path.input(key_event) {
            return None;
        }
        match key_event.code {
            KeyCode::Esc => {
                return Some(EditorEvent::Cancel);
            },
            KeyCode::Char(c) if (c == 's' || c == 'S') && key_event.modifiers.is_control_only() => {
                return Some(EditorEvent::Save);
            },
            KeyCode::Tab => self.selected = self.selected.next(),
            KeyCode::BackTab => self.selected = self.selected.prev(),
            _ => {
                match self.selected {
                    Fields::Name => self.name.input(key_event),
                    Fields::Category => self.category.input(key_event),
                    Fields::Tags => self.tags.input(key_event),
                    Fields::Lang => self.lang.input(key_event),
                    Fields::Desc => self.desc.input(key_event),
                    Fields::Path => false,
                };
            },
        }
        None
    }

    /// The category name and the project the form describes: blank name and
    /// category become "Unnamed" and "Uncategorized", tags are split at commas.
    pub fn into_project(self) -> (r: (String, Project))
        ensures
            (r.0@, r.1@) == editor_project(self),
    {
        let tag_text = match self.tags.result() {
            Some(s) => s,
            None => String::new(),
        };
        let tags = parse_tags(tag_text.as_str());
        let category = match self.category.result() {
            Some(s) => s,
            None => String::from_str("Uncategorized"),
        };
        let name = match self.name.result() {
            Some(s) => s,
            None => String::from_str("Unnamed"),
        };
        (
            category,
            Project {
                path: self.path.result(),
                name,
                tags,
                language: self.lang.result(),
                description: self.desc.result(),
            },
        )
    }
}

impl Default for ProjectEditor {
    fn default() -> (r: ProjectEditor)
        ensures
            is_blank_form(r, None),
            editor_fresh(r),
    {
        ProjectEditor::blank(None)
    }
}

/// The project a form describes lies at the folder the explorer of its path
/// field has selected, not at the path the field was opened with: two forms
/// that differ only in the opening path describe the same project.
pub proof fn lemma_form_path_is_selection(e: ProjectEditor, other: ProjectEditor)
    requires
        other == (ProjectEditor { path: PathInput { original: other.path.original, ..e.path }, ..e }),
    ensures
        editor_project(e).1.path == e.path.current@,
        editor_project(other) == editor_project(e),
{
}

/// A key that reaches the form keeps the folder the explorer has selected as
/// the project's path: after the explorer reports `c` as selected, the saved
/// project lies at `c`, whatever key comes next and whatever path the field
/// was opened with.
pub proof fn lemma_key_keeps_chosen_folder(
    pre: ProjectEditor,
    post: ProjectEditor,
    key: KeyEvent,
    r: Option<EditorEvent>,
    c: Seq<char>,
)
    requires
        pre.path.current@ == c,
        editor_key_post(pre, post, key, r),
    ensures
        post.path.current@ == c,
        editor_project(post).1.path == c,
{
}

/// What a single-line field makes of a value: its newlines dropped, its
/// surrounding white space dropped, and nothing when that leaves nothing.
pub open spec fn clean_line(s: Seq<char>) -> Option<Seq<char>> {
    if trim(without_char(s, '\n')).len() == 0 {
        None
    } else {
        Some(trim(without_char(s, '\n')))
    }
}

/// A form filled in from a project gives back, when saved unchanged: the
/// category, name and language cleaned as single lines (a blank name or
/// category becoming "Unnamed" or "Uncategorized"), the same path, the tags
/// re-read from their joined text, and the description with a newline added
/// (a missing description becoming a single newline).
pub proof fn lemma_form_round_trip(e: ProjectEditor, cat: Seq<char>, proj: ProjectModel)
    requires
        is_form_for(e, cat, proj),
    ensures
        editor_project(e) == (
            or_else(clean_line(cat), "Uncategorized"@),
            ProjectModel {
                path: proj.path,
                name: or_else(clean_line(proj.name), "Unnamed"@),
                tags: tag_list(or_else(clean_line(join_items(proj.tags)), Seq::<char>::empty())),
                language: match proj.language {
                    Some(l) => clean_line(l),
                    None => None,
                },
                description: Some(or_else(proj.description, Seq::<char>::empty()).push('\n')),
            },
        ),
{
    match proj.description {
        Some(d) => {
            lemma_join_split_lines(d);
        },
        None => {
            let one = seq![Seq::<char>::empty()];
            assert(join_lines(one) == join_lines(one.drop_last()) + one.last() + seq!['\n']);
            assert(join_lines(one.drop_last()) == Seq::<char>::empty());
            assert(join_lines(one) =~= Seq::<char>::empty().push('\n'));
        },
    }
    assert(trim(Seq::<char>::empty()) == Seq::<char>::empty());
}

/// A tag that survives being joined and re-read: a clean line without commas.
pub open spec fn is_clean_tag(t: Seq<char>) -> bool {
    is_clean_line(t) && !t.contains(',')
}

/// The pieces of the first `n` joined tags split at commas: the first tag,
/// then each further tag after a space.
pub open spec fn tag_pieces(tags: Seq<Seq<char>>, n: nat) -> Seq<Seq<char>>
    decreases n,
{
    if n == 0 {
        Seq::<Seq<char>>::empty()
    } else if n == 1 {
        seq![tags[0]]
    } else {
        tag_pieces(tags, (n - 1) as nat).push(seq![' '] + tags[n - 1])
    }
}

proof fn lemma_join_items_step(tags: Seq<Seq<char>>, n: nat)
    requires
        1 <= n <= tags.len(),
    ensures
        join_items(tags.take(n as int)) == (join_items(tags.take(n - 1)) + tags[n - 1]).push(',').push(' '),
{
    assert(tags.take(n as int).drop_last() =~= tags.take(n - 1));
    assert(tags.take(n as int).last() == tags[n - 1]);
    assert(join_items(tags.take(n as int)) =~= (join_items(tags.take(n - 1)) + tags[n - 1]).push(',').push(' '));
}

proof fn lemma_tag_pieces_split(tags: Seq<Seq<char>>, n: nat)
    requires
        1 <= n <= tags.len(),
        forall|k: int| 0 <= k < tags.len() ==> is_clean_tag(#[trigger] tags[k]),
    ensures
        split(join_items(tags.take(n - 1)) + tags[n - 1], ',') == tag_pieces(tags, n),
    decreases n,
{
    assert(is_clean_tag(tags[n - 1]));
    if n == 1 {
        assert(tags.take(0) =~= Seq::<Seq<char>>::empty());
        lemma_split_append_plain(Seq::<char>::empty(), tags[0], ',');
        assert(split(Seq::<char>::empty(), ',') =~= seq![Seq::<char>::empty()]);
        assert(Seq::<char>::empty() + tags[0] =~= tags[0]);
        assert(split(Seq::<char>::empty(), ',').update(0, Seq::<char>::empty() + tags[0]) =~= seq![tags[0]]);
    } else {
        lemma_tag_pieces_split(tags, (n - 1) as nat);
        lemma_join_items_step(tags, (n - 1) as nat);
        let a = join_items(tags.take(n - 2)) + tags[n - 2];
        let j = join_items(tags.take(n - 1));
        lemma_split_append_sep(a, ',');
        assert(!seq![' '].contains(',')) by {
            if seq![' '].contains(',') {
                let k = choose|k: int| 0 <= k < 1 && seq![' '][k] == ',';
            }
        }
        lemma_split_append_plain(a.push(','), seq![' '], ',');
        assert(a.push(',') + seq![' '] =~= j);
        let p = tag_pieces(tags, (n - 1) as nat);
        assert(split(j, ',') =~= p.push(seq![' '])) by {
            assert(Seq::<char>::empty() + seq![' '] =~= seq![' ']);
        }
        lemma_split_append_plain(j, tags[n - 1], ',');
        assert(split(j + tags[n - 1], ',') =~= p.push(seq![' '] + tags[n - 1]));
    }
}

proof fn lemma_kept_tag_pieces(tags: Seq<Seq<char>>, n: nat)
    requires
        n <= tags.len(),
        forall|k: int| 0 <= k < tags.len() ==> is_clean_tag(#[trigger] tags[k]),
    ensures
        kept_tags(tag_pieces(tags, n)) == tags.take(n as int),
    decreases n,
{
    if n == 1 {
        assert(is_clean_tag(tags[0]));
        lemma_trim_clean(tags[0]);
        assert(seq![tags[0]].drop_last() =~= Seq::<Seq<char>>::empty());
        assert(seq![tags[0]].last() == tags[0]);
        assert(kept_tags(Seq::<Seq<char>>::empty()) == Seq::<Seq<char>>::empty());
        assert(trim(tags[0]).len() > 0);
        assert(kept_tags(seq![tags[0]]) == kept_tags(Seq::<Seq<char>>::empty()).push(tags[0]));
        assert(kept_tags(seq![tags[0]]) =~= tags.take(1));
    } else if n > 1 {
        lemma_kept_tag_pieces(tags, (n - 1) as nat);
        assert(is_clean_tag(tags[n - 1]));
        lemma_trim_after_white(' ', tags[n - 1]);
        let p = tag_pieces(tags, (n - 1) as nat);
        assert(p.push(seq![' '] + tags[n - 1]).drop_last() =~= p);
        assert(kept_tags(tag_pieces(tags, n)) =~= tags.take(n as int));
    } else {
        assert(tags.take(0) =~= Seq::<Seq<char>>::empty());
    }
}

proof fn lemma_join_items_plain(tags: Seq<Seq<char>>, c: char)
    requires
        c != ',' && c != ' ',
        forall|k: int| 0 <= k < tags.len() ==> !(#[trigger] tags[k]).contains(c),
    ensures
        !join_items(tags).contains(c),
    decreases tags.len(),
{
    if tags.len() > 0 {
        lemma_join_items_plain(tags.drop_last(), c);
        let j = join_items(tags);
        let a = join_items(tags.drop_last());
        let t = tags.last();
        assert(!t.contains(c)) by {
            assert(tags[tags.len() - 1] == t);
        }
        assert(j == a + t + seq![',', ' ']);
        if j.contains(c) {
            let k = choose|k: int| 0 <= k < j.len() && j[k] == c;
            if k < a.len() {
                assert(a[k] == c);
            } else if k < a.len() + t.len() {
                assert(t[k - a.len()] == c);
            }
        }
    }
}

proof fn lemma_join_items_first(tags: Seq<Seq<char>>)
    requires
        tags.len() > 0,
        tags[0].len() > 0,
    ensures
        join_items(tags).len() > 0,
        join_items(tags)[0] == tags[0][0],
    decreases tags.len(),
{
    let a = join_items(tags.drop_last());
    assert(join_items(tags) == a + tags.last() + seq![',', ' ']);
    if tags.len() > 1 {
        lemma_join_items_first(tags.drop_last());
        assert(tags.drop_last()[0] == tags[0]);
        assert((a + tags.last() + seq![',', ' '])[0] == a[0]);
    } else {
        assert(tags.drop_last() =~= Seq::<Seq<char>>::empty());
        assert(a == Seq::<char>::empty());
        assert(tags.last() == tags[0]);
        assert((a + tags.last() + seq![',', ' '])[0] == tags.last()[0]);
    }
}

/// A form filled in from a project whose category, name and language are
/// clean lines and whose tags are clean lines without commas gives back,
/// when saved unchanged, the same category and project, except that a
/// newline is added to the description (a missing one becomes a newline).
pub proof fn lemma_form_round_trip_clean(e: ProjectEditor, cat: Seq<char>, proj: ProjectModel)
    requires
        is_form_for(e, cat, proj),
        is_clean_line(cat),
        is_clean_line(proj.name),
        forall|k: int| 0 <= k < proj.tags.len() ==> is_clean_tag(#[trigger] proj.tags[k]),
        proj.language matches Some(l) ==> is_clean_line(l),
    ensures
        editor_project(e) == (
            cat,
            ProjectModel {
                path: proj.path,
                name: proj.name,
                tags: proj.tags,
                language: proj.language,
                description: Some(or_else(proj.description, Seq::<char>::empty()).push('\n')),
            },
        ),
{
    lemma_form_round_trip(e, cat, proj);
    lemma_without_absent(cat, '\n');
    lemma_trim_clean(cat);
    lemma_without_absent(proj.name, '\n');
    lemma_trim_clean(proj.name);
    if let Some(l) = proj.language {
        lemma_without_absent(l, '\n');
        lemma_trim_clean(l);
    }
    let tags = proj.tags;
    let n = tags.len();
    if n == 0 {
        assert(tags =~= Seq::<Seq<char>>::empty());
        assert(join_items(tags) == Seq::<char>::empty());
        assert(without_char(Seq::<char>::empty(), '\n') == Seq::<char>::empty());
        assert(trim(Seq::<char>::empty()) == Seq::<char>::empty());
        assert(split(Seq::<char>::empty(), ',') =~= seq![Seq::<char>::empty()]);
        assert(seq![Seq::<char>::empty()].drop_last() =~= Seq::<Seq<char>>::empty());
        assert(kept_tags(seq![Seq::<char>::empty()]) == kept_tags(Seq::<Seq<char>>::empty()));
        assert(tag_list(Seq::<char>::empty()) =~= tags);
    } else {
        assert(tags.take(n as int) =~= tags);
        lemma_join_items_step(tags, n);
        let a = join_items(tags.take(n - 1)) + tags[n - 1];
        let j = join_items(tags);
        assert forall|k: int| 0 <= k < tags.len() implies !(#[trigger] tags[k]).contains('\n') by {
            assert(is_clean_tag(tags[k]));
        }
        lemma_join_items_plain(tags, '\n');
        lemma_without_absent(j, '\n');
        assert(is_clean_tag(tags[0]));
        lemma_join_items_first(tags);
        assert(!is_white(j[0]));
        assert(trim_start(j) == j);
        assert(j.last() == ' ');
        assert(j.drop_last() =~= a.push(','));
        assert(!is_white(j.drop_last().last()));
        assert(trim_end(j.drop_last()) == j.drop_last());
        assert(trim_end(j) == a.push(','));
        assert(trim(j) == a.push(','));
        lemma_split_append_sep(a, ',');
        lemma_tag_pieces_split(tags, n);
        lemma_kept_tag_pieces(tags, n);
        let p = tag_pieces(tags, n);
        assert(p.push(Seq::<char>::empty()).drop_last() =~= p);
        assert(trim(Seq::<char>::empty()) == Seq::<char>::empty());
        assert(tag_list(a.push(',')) == kept_tags(p));
    }
}

} // verus!
