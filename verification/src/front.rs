//! What a front end does on a key. The program around the library reads the
//! keys and draws the screen; which step a key asks for is decided here.

use vstd::prelude::*;

verus! {

/// A key, as far as the front ends tell keys apart.
#[derive(Clone, Copy, Debug, PartialEq, Eq, Structural)]
pub enum Key {
    Char(char),
    Tab,
    Up,
    Down,
    Enter,
    Esc,
    Other,
}

/// Whether keys move about the screen or write into the search bar.
#[derive(Clone, Copy, Debug, PartialEq, Eq, Structural)]
pub enum InputMode {
    View,
    Insert,
}

/// The part of the search screen that has the focus.
#[derive(Clone, Copy, Debug, PartialEq, Eq, Structural)]
pub enum FocusedWidget {
    SearchBar,
    Results,
}

/// What is searched for, and what kind of entry a result is.
#[derive(Clone, Copy, Debug, PartialEq, Eq, Structural)]
pub enum ResultType {
    Tag,
    Namespace,
    Image,
    Group,
}

/// What can be done with an entry.
#[derive(Clone, Copy, Debug, PartialEq, Eq, Structural)]
pub enum EditOption {
    Rename,
    Delete,
    AddTag,
    RemoveTag,
}

/// The screen that is shown: the search, or the editing of one entry.
#[derive(Clone, Copy, Debug, PartialEq, Eq, Structural)]
pub enum CurrentlyViewing {
    Search { search_type: ResultType },
    Editing { entry_type: ResultType },
}

/// The step that a key asks for.
#[derive(Clone, Copy, Debug, PartialEq, Eq, Structural)]
pub enum Step {
    /// Leave the program.
    Quit,
    /// Do nothing.
    Ignore,
    /// Search for entries of another kind.
    SearchFor(ResultType),
    /// Open the editing screen on the result that is selected.
    EditSelected,
    /// Let keys write into the search bar.
    StartTyping,
    /// Let keys move about the screen again.
    StopTyping,
    /// Give the focus to a part of the search screen.
    Focus(FocusedWidget),
    /// Select the line above, among the results or among the options.
    SelectPrevious,
    /// Select the line below, among the results or among the options.
    SelectNext,
    /// Empty the search bar, after answering what it holds as a query if
    /// `query` says so.
    Submit { query: bool },
    /// Put the first result in place of the last word of the search bar.
    Complete,
    /// Hand the key to the search bar, and then list the tags that hold its
    /// last word if `suggest` says so.
    Type { suggest: bool },
    /// Go back to the search for entries of a kind.
    Back(ResultType),
    /// Carry out what the name that was asked for is wanted for.
    Confirm,
    /// Carry out the option that is selected.
    Choose,
    /// Hand the key to the field that asks for a name.
    TypeName,
}

/// The step that a key asks for on the search screen while keys move about
/// the screen.
pub open spec fn viewing_step(focus: FocusedWidget, key: Key) -> Step {
    match key {
        Key::Char(c) => if c == 'q' {
            Step::Quit
        } else if c == 'e' {
            match focus {
                FocusedWidget::Results => Step::EditSelected,
                FocusedWidget::SearchBar => Step::StartTyping,
            }
        } else if focus == FocusedWidget::SearchBar && c == 'i' {
            Step::SearchFor(ResultType::Image)
        } else if focus == FocusedWidget::SearchBar && c == 't' {
            Step::SearchFor(ResultType::Tag)
        } else if focus == FocusedWidget::SearchBar && c == 'n' {
            Step::SearchFor(ResultType::Namespace)
        } else if focus == FocusedWidget::SearchBar && c == 'g' {
            Step::SearchFor(ResultType::Group)
        } else {
            Step::Ignore
        },
        Key::Tab => match focus {
            FocusedWidget::SearchBar => Step::Focus(FocusedWidget::Results),
            FocusedWidget::Results => Step::Focus(FocusedWidget::SearchBar),
        },
        Key::Up => if focus == FocusedWidget::Results {
            Step::SelectPrevious
        } else {
            Step::Ignore
        },
        Key::Down => if focus == FocusedWidget::Results {
            Step::SelectNext
        } else {
            Step::Ignore
        },
        _ => Step::Ignore,
    }
}

/// The step that a key asks for on the search screen while keys write into
/// the search bar.
pub open spec fn typing_step(search_type: ResultType, key: Key) -> Step {
    match key {
        Key::Enter => Step::Submit { query: search_type == ResultType::Image },
        Key::Tab => Step::Complete,
        Key::Esc => Step::StopTyping,
        _ => Step::Type { suggest: search_type == ResultType::Tag },
    }
}

/// The step that a key asks for on the editing screen; `asking` says that a
/// name is being asked for.
pub open spec fn editing_step(entry_type: ResultType, asking: bool, key: Key) -> Step {
    match key {
        Key::Char(c) => if c == 'q' {
            Step::Quit
        } else if asking {
            Step::TypeName
        } else {
            Step::Ignore
        },
        Key::Up => Step::SelectPrevious,
        Key::Down => Step::SelectNext,
        Key::Esc => if asking {
            Step::Ignore
        } else {
            Step::Back(entry_type)
        },
        Key::Enter => if asking {
            Step::Confirm
        } else {
            Step::Choose
        },
        _ => if asking {
            Step::TypeName
        } else {
            Step::Ignore
        },
    }
}

/// The step that a key asks for.
pub open spec fn step_for(
    view: CurrentlyViewing,
    mode: InputMode,
    focus: FocusedWidget,
    asking: bool,
    key: Key,
) -> Step {
    match view {
        CurrentlyViewing::Search { search_type } => match mode {
            InputMode::View => viewing_step(focus, key),
            InputMode::Insert => typing_step(search_type, key),
        },
        CurrentlyViewing::Editing { entry_type } => editing_step(entry_type, asking, key),
    }
}

/// Decides the step that a key asks for: `view` is the screen shown, `mode`
/// and `focus` the state of the search screen, and `asking` says that the
/// editing screen is asking for a name.
pub fn on_key(
    view: CurrentlyViewing,
    mode: InputMode,
    focus: FocusedWidget,
    asking: bool,
    key: Key,
) -> (step: Step)
    ensures
        step == step_for(view, mode, focus, asking, key),
{
    match view {
        CurrentlyViewing::Search { search_type } => match mode {
            InputMode::View => match key {
                Key::Char('q') => Step::Quit,
                Key::Char('i') => match focus {
                    FocusedWidget::SearchBar => Step::SearchFor(ResultType::Image),
                    _ => Step::Ignore,
                },
                Key::Char('t') => match focus {
                    FocusedWidget::SearchBar => Step::SearchFor(ResultType::Tag),
                    _ => Step::Ignore,
                },
                Key::Char('n') => match focus {
                    FocusedWidget::SearchBar => Step::SearchFor(ResultType::Namespace),
                    _ => Step::Ignore,
                },
                Key::Char('g') => match focus {
                    FocusedWidget::SearchBar => Step::SearchFor(ResultType::Group),
                    _ => Step::Ignore,
                },
                Key::Char('e') => match focus {
                    FocusedWidget::Results => Step::EditSelected,
                    FocusedWidget::SearchBar => Step::StartTyping,
                },
                Key::Tab => match focus {
                    FocusedWidget::SearchBar => Step::Focus(FocusedWidget::Results),
                    FocusedWidget::Results => Step::Focus(FocusedWidget::SearchBar),
                },
                Key::Up => match focus {
                    FocusedWidget::Results => Step::SelectPrevious,
                    _ => Step::Ignore,
                },
                Key::Down => match focus {
                    FocusedWidget::Results => Step::SelectNext,
                    _ => Step::Ignore,
                },
                _ => Step::Ignore,
            },
            InputMode::Insert => match key {
                Key::Enter => match search_type {
                    ResultType::Image => Step::Submit { query: true },
                    _ => Step::Submit { query: false },
                },
                Key::Tab => Step::Complete,
                Key::Esc => Step::StopTyping,
                _ => match search_type {
                    ResultType::Tag => Step::Type { suggest: true },
                    _ => Step::Type { suggest: false },
                },
            },
        },
        CurrentlyViewing::Editing { entry_type } => match key {
            Key::Char('q') => Step::Quit,
            Key::Up => Step::SelectPrevious,
            Key::Down => Step::SelectNext,
            Key::Esc => {
                if asking {
                    Step::Ignore
                } else {
                    Step::Back(entry_type)
                }
            },
            Key::Enter => {
                if asking {
                    Step::Confirm
                } else {
                    Step::Choose
                }
            },
            _ => {
                if asking {
                    Step::TypeName
                } else {
                    Step::Ignore
                }
            },
        },
    }
}

/// The name of the table that entries of a kind are kept in.
pub open spec fn table_name_of(kind: ResultType) -> Seq<char> {
    match kind {
        ResultType::Tag => "tags"@,
        ResultType::Image => "images"@,
        ResultType::Group => "groups"@,
        ResultType::Namespace => "namespaces"@,
    }
}

/// What can be done with an entry of a kind: a tag can be renamed and
/// deleted; anything else can also be given a tag and have one taken away.
pub open spec fn options_of(kind: ResultType) -> Seq<EditOption> {
    match kind {
        ResultType::Tag => seq![EditOption::Rename, EditOption::Delete],
        _ => seq![
            EditOption::Rename,
            EditOption::Delete,
            EditOption::AddTag,
            EditOption::RemoveTag,
        ],
    }
}

/// The table that entries of a kind are kept in, by its name, and what can
/// be done with such an entry.
pub fn edit_options(kind: ResultType) -> (r: (String, Vec<EditOption>))
    ensures
        r.0@ == table_name_of(kind),
        r.1@ == options_of(kind),
{
    let mut options: Vec<EditOption> = Vec::new();
    options.push(EditOption::Rename);
    options.push(EditOption::Delete);
    let name: &str = match kind {
        ResultType::Tag => "tags",
        ResultType::Image => "images",
        ResultType::Group => "groups",
        ResultType::Namespace => "namespaces",
    };
    match kind {
        ResultType::Tag => {},
        _ => {
            options.push(EditOption::AddTag);
            options.push(EditOption::RemoveTag);
        },
    }
    assert(options@ =~= options_of(kind));
    (name.to_owned(), options)
}

/// What carrying out an option comes to.
#[derive(Clone, Copy, Debug, PartialEq, Eq, Structural)]
pub enum Deed {
    /// Ask for the new name.
    AskName,
    /// Delete the entry from its table.
    Delete,
    /// Nothing.
    Nothing,
}

/// What carrying out `option` comes to: renaming asks for a name first,
/// deleting deletes, and the rest does nothing.
pub fn on_option(option: EditOption) -> (deed: Deed)
    ensures
        deed == match option {
            EditOption::Rename => Deed::AskName,
            EditOption::Delete => Deed::Delete,
            _ => Deed::Nothing,
        },
{
    match option {
        EditOption::Rename => Deed::AskName,
        EditOption::Delete => Deed::Delete,
        EditOption::AddTag => Deed::Nothing,
        EditOption::RemoveTag => Deed::Nothing,
    }
}

/// What a key does to an input field of the paged front end; `inserting`
/// says that the field is being written into.
#[derive(Clone, Copy, Debug, PartialEq, Eq, Structural)]
pub enum FieldStep {
    /// Start writing into the field.
    StartInserting,
    /// Stop writing into the field.
    StopInserting,
    /// Hand the key to the field.
    Write,
    /// Nothing.
    Ignore,
}

/// The step of an input field on a key: `i` starts the writing, the escape
/// key ends it, and while it lasts every other key is written.
pub fn on_field_key(inserting: bool, key: Key) -> (step: FieldStep)
    ensures
        step == match key {
            Key::Esc => FieldStep::StopInserting,
            _ => if inserting {
                FieldStep::Write
            } else if key == Key::Char('i') {
                FieldStep::StartInserting
            } else {
                FieldStep::Ignore
            },
        },
{
    match key {
        Key::Char('i') => {
            if !inserting {
                FieldStep::StartInserting
            } else {
                FieldStep::Write
            }
        },
        Key::Esc => FieldStep::StopInserting,
        _ => {
            if inserting {
                FieldStep::Write
            } else {
                FieldStep::Ignore
            }
        },
    }
}

/// What a key does to the paged front end.
#[derive(Clone, Copy, Debug, PartialEq, Eq, Structural)]
pub enum PageStep {
    /// Leave the program.
    Quit,
    /// Show the page that edits.
    ShowEdit,
    /// Show the page of results.
    ShowResult,
    /// Give the focus to the next widget of the page.
    FocusNext,
    /// Nothing.
    Ignore,
}

/// The step of the paged front end on a key.
pub fn on_page_key(key: Key) -> (step: PageStep)
    ensures
        step == match key {
            Key::Char(c) => if c == 'q' {
                PageStep::Quit
            } else if c == 'e' {
                PageStep::ShowEdit
            } else if c == 'r' {
                PageStep::ShowResult
            } else {
                PageStep::Ignore
            },
            Key::Tab => PageStep::FocusNext,
            _ => PageStep::Ignore,
        },
{
    match key {
        Key::Char('q') => PageStep::Quit,
        Key::Char('e') => PageStep::ShowEdit,
        Key::Char('r') => PageStep::ShowResult,
        Key::Tab => PageStep::FocusNext,
        _ => PageStep::Ignore,
    }
}

/// The kinds of page of the paged front end.
#[derive(Clone, Copy, Debug, PartialEq, Eq, Structural)]
pub enum PageType {
    Result,
    Edit,
    Custom,
}

/// The kinds of widget on a page.
#[derive(Clone, Copy, Debug, PartialEq, Eq, Structural)]
pub enum WidgetKind {
    /// A field to write into.
    Input,
    /// A line of text.
    Paragraph,
    /// A list, with a line selected if `selector` says so.
    List { selector: bool },
}

/// One widget of a page, before it is drawn: its kind, the part of the
/// page's layout that it fills, whether it has a border, the widget that the
/// focus goes to next, and whether it has the focus at first.
#[derive(Clone, Copy, Debug, PartialEq, Eq, Structural)]
pub struct WidgetPlan {
    pub kind: WidgetKind,
    pub slot: usize,
    pub bordered: bool,
    pub next: usize,
    pub focused: bool,
}

/// The widgets of a page of a kind. A page of results has a field above a
/// list; a page that edits has a heading above two lists side by side, and
/// once the focus has left the heading it goes from one list to the other; a
/// custom page starts empty.
pub open spec fn page_plan(page_type: PageType) -> Seq<WidgetPlan> {
    match page_type {
        PageType::Result => seq![
            WidgetPlan { kind: WidgetKind::Input, slot: 0, bordered: true, next: 1, focused: true },
            WidgetPlan {
                kind: WidgetKind::List { selector: true },
                slot: 1,
                bordered: true,
                next: 0,
                focused: false,
            },
        ],
        PageType::Edit => seq![
            WidgetPlan {
                kind: WidgetKind::Paragraph,
                slot: 0,
                bordered: false,
                next: 1,
                focused: true,
            },
            WidgetPlan {
                kind: WidgetKind::List { selector: false },
                slot: 1,
                bordered: true,
                next: 2,
                focused: false,
            },
            WidgetPlan {
                kind: WidgetKind::List { selector: true },
                slot: 2,
                bordered: true,
                next: 1,
                focused: false,
            },
        ],
        PageType::Custom => Seq::empty(),
    }
}

/// The widgets of a page of a kind, in the order in which they are drawn.
pub fn page_widgets(page_type: PageType) -> (r: Vec<WidgetPlan>)
    ensures
        r@ == page_plan(page_type),
{
    let mut widgets: Vec<WidgetPlan> = Vec::new();
    match page_type {
        PageType::Result => {
            widgets.push(
                WidgetPlan {
                    kind: WidgetKind::Input,
                    slot: 0,
                    bordered: true,
                    next: 1,
                    focused: true,
                },
            );
            widgets.push(
                WidgetPlan {
                    kind: WidgetKind::List { selector: true },
                    slot: 1,
                    bordered: true,
                    next: 0,
                    focused: false,
                },
            );
        },
        PageType::Edit => {
            widgets.push(
                WidgetPlan {
                    kind: WidgetKind::Paragraph,
                    slot: 0,
                    bordered: false,
                    next: 1,
                    focused: true,
                },
            );
            widgets.push(
                WidgetPlan {
                    kind: WidgetKind::List { selector: false },
                    slot: 1,
                    bordered: true,
                    next: 2,
                    focused: false,
                },
            );
            widgets.push(
                WidgetPlan {
                    kind: WidgetKind::List { selector: true },
                    slot: 2,
                    bordered: true,
                    next: 1,
                    focused: false,
                },
            );
        },
        PageType::Custom => {},
    }
    assert(widgets@ =~= page_plan(page_type));
    widgets
}

/// On every page the focus stays on the page, each widget fills a part of
/// its own, and the first widget, and no other, has the focus at first.
pub proof fn law_pages_are_closed(page_type: PageType, i: int)
    requires
        0 <= i < page_plan(page_type).len(),
    ensures
        page_plan(page_type)[i].next < page_plan(page_type).len(),
        page_plan(page_type)[i].slot == i,
        page_plan(page_type)[i].focused <==> i == 0,
{
}

/// While keys write into the search bar, no key leaves the program.
pub proof fn law_typing_never_quits(
    search_type: ResultType,
    focus: FocusedWidget,
    asking: bool,
    key: Key,
)
    ensures
        step_for(CurrentlyViewing::Search { search_type }, InputMode::Insert, focus, asking, key)
            != Step::Quit,
{
}

/// Only the enter key on the editing screen asks for a change of the rows.
pub proof fn law_only_enter_changes_rows(
    view: CurrentlyViewing,
    mode: InputMode,
    focus: FocusedWidget,
    asking: bool,
    key: Key,
)
    requires
        step_for(view, mode, focus, asking, key) == Step::Confirm || step_for(
            view,
            mode,
            focus,
            asking,
            key,
        ) == Step::Choose,
    ensures
        key == Key::Enter,
        view is Editing,
{
}

/// While a name is asked for, the editing screen is not left but by `q`.
pub proof fn law_asking_stays(
    entry_type: ResultType,
    mode: InputMode,
    focus: FocusedWidget,
    key: Key,
)
    ensures
        !(step_for(CurrentlyViewing::Editing { entry_type }, mode, focus, true, key) is Back),
        step_for(CurrentlyViewing::Editing { entry_type }, mode, focus, true, key) == Step::Quit
            ==> key == Key::Char('q'),
{
}

} // verus!
