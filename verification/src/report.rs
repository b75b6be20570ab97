//! The report: one table row for each visited entry.

use vstd::prelude::*;
use vstd::string::StringExecFns;
use prettytable::{Cell, Row, Table};
use crate::age::number_model;
use crate::config::ScanConfig;
use crate::entry::{found_views, visited_views, FoundEntry, FoundView, VisitedEntry, VisitedView};
use crate::walk::{survey, survey_model};

verus! {

/// The table of prettytable. What it holds is known through `table_rows`,
/// `table_titles` and `table_is_plain` alone.
#[verifier::external_type_specification]
#[verifier::external_body]
pub struct ExTable(Table);

/// The rows that a table holds below its titles, first to last. Each row is
/// given by the text of its first cell, the numbers that its other three cells
/// write in decimal, and the style tags that all four carry. The wrappers
/// below put in only texts of one line and one of two styles, which a cell
/// keeps as they are.
pub uninterp spec fn table_rows(table: Table) -> Seq<(Seq<char>, int, int, int, Seq<char>)>;

/// The texts of a table's title cells; none where no titles were set.
pub uninterp spec fn table_titles(table: Table) -> Seq<Seq<char>>;

/// Whether a table is drawn in the plain format: no border, the columns
/// parted by a bar, and a line between the titles and the rows.
pub uninterp spec fn table_is_plain(table: Table) -> bool;

/// `Table::new` of prettytable: the table that it makes holds no rows and no
/// titles.
#[verifier::external_body]
fn table_new() -> (table: Table)
    ensures
        table_rows(table).len() == 0,
        table_titles(table).len() == 0,
{
    Table::new()
}

/// `Table::set_format` of prettytable, with the crate's own format that draws
/// no border and parts the titles from the rows by a line: the table is in
/// the plain format afterwards, and rows and titles stay as they are.
#[verifier::external_body]
fn table_set_format(table: &mut Table)
    ensures
        table_is_plain(*final(table)),
        table_rows(*final(table)) == table_rows(*old(table)),
        table_titles(*final(table)) == table_titles(*old(table)),
{
    table.set_format(*prettytable::format::consts::FORMAT_NO_BORDER_LINE_SEPARATOR);
}

/// `Table::set_titles` of prettytable, with a row of four cells of the given
/// texts: these are the titles afterwards, and the rows and the format stay
/// as they are. Texts with a line break or an escape character are left out:
/// `Cell::new` cuts a text at its line breaks, and its measure of the width
/// may panic after an escape character.
#[verifier::external_body]
fn table_set_titles(table: &mut Table, first: &str, second: &str, third: &str, fourth: &str)
    requires
        !first@.contains('\n'),
        !first@.contains('\u{1b}'),
        !second@.contains('\n'),
        !second@.contains('\u{1b}'),
        !third@.contains('\n'),
        !third@.contains('\u{1b}'),
        !fourth@.contains('\n'),
        !fourth@.contains('\u{1b}'),
    ensures
        table_titles(*final(table)) == seq![first@, second@, third@, fourth@],
        table_rows(*final(table)) == table_rows(*old(table)),
        table_is_plain(*final(table)) == table_is_plain(*old(table)),
{
    let cells = vec![Cell::new(first), Cell::new(second), Cell::new(third), Cell::new(fourth)];
    table.set_titles(Row::new(cells));
}

/// `Table::add_row` of prettytable, with a row of four cells made by
/// `Cell::new` from the label and from the three numbers written in decimal,
/// each cell styled by `Cell::style_spec` with `style`: the row is appended
/// after the rows that were there, and the titles and the format stay as they
/// are. A label with a line break or an escape character is left out:
/// `Cell::new` cuts a text at its line breaks, and its measure of the width
/// may panic after an escape character. The style is `FY` or empty:
/// `style_spec` drops the tags it does not know, and panics on some.
#[verifier::external_body]
fn table_add_row(
    table: &mut Table,
    label: &str,
    created: i128,
    modified: i128,
    accessed: i128,
    style: &str,
)
    requires
        !label@.contains('\n'),
        !label@.contains('\u{1b}'),
        style@ =~= seq!['F', 'Y'] || style@.len() == 0,
    ensures
        table_rows(*final(table)) == table_rows(*old(table)).push(
            (label@, created as int, modified as int, accessed as int, style@),
        ),
        table_titles(*final(table)) == table_titles(*old(table)),
        table_is_plain(*final(table)) == table_is_plain(*old(table)),
{
    let cells = vec![
        Cell::new(label).style_spec(style),
        Cell::new(&created.to_string()).style_spec(style),
        Cell::new(&modified.to_string()).style_spec(style),
        Cell::new(&accessed.to_string()).style_spec(style),
    ];
    table.add_row(Row::new(cells));
}

/// Whether a table cell can hold a character as it is: any but a line break
/// and the escape character.
pub open spec fn fits(c: char) -> bool {
    c != '\n' && c != '\u{1b}'
}

/// A character as a cell shows it: a question mark in place of one that does
/// not fit.
pub open spec fn fitted_char(c: char) -> char {
    if fits(c) {
        c
    } else {
        '?'
    }
}

/// A name as a cell shows it: each character that does not fit replaced by a
/// question mark.
pub open spec fn fitted(name: Seq<char>) -> Seq<char> {
    name.map_values(|c: char| fitted_char(c))
}

/// The indentation of an entry at a given depth: four spaces for each level.
pub open spec fn indent(depth: nat) -> Seq<char>
    decreases depth,
{
    if depth == 0 {
        Seq::empty()
    } else {
        indent((depth - 1) as nat) + seq![' ', ' ', ' ', ' ']
    }
}

/// The text of an entry's first cell: its name behind its indentation.
pub open spec fn label_model(depth: nat, name: Seq<char>) -> Seq<char> {
    indent(depth) + name
}

/// The style of an entry's cells: yellow text for a directory, none for
/// anything else.
pub open spec fn style_model(is_dir: bool) -> Seq<char> {
    if is_dir {
        seq!['F', 'Y']
    } else {
        Seq::empty()
    }
}

/// The row of one entry.
pub open spec fn row_model(entry: VisitedView) -> (Seq<char>, int, int, int, Seq<char>) {
    (
        label_model(entry.depth, fitted(entry.display_name)),
        number_model(entry.created),
        number_model(entry.modified),
        number_model(entry.accessed),
        style_model(entry.is_dir),
    )
}

/// The rows of the entries, in their order.
pub open spec fn rows_model(entries: Seq<VisitedView>) -> Seq<
    (Seq<char>, int, int, int, Seq<char>),
> {
    entries.map_values(|entry: VisitedView| row_model(entry))
}

/// The titles of the report's four columns.
pub open spec fn titles_model() -> Seq<Seq<char>> {
    seq!["entry-name"@, "created"@, "last modified"@, "last access"@]
}

/// Makes a name fit a table cell: a line break or an escape character in it
/// becomes a question mark, and every other character stays.
pub fn fit_name(name: &str) -> (text: String)
    ensures
        text@ == fitted(name@),
{
    let n = name.unicode_len();
    let mut text = String::new();
    let mut i: usize = 0;
    while i < n
        invariant
            i <= n,
            n == name@.len(),
            text@ == fitted(name@.take(i as int)),
        decreases n - i,
    {
        let c = name.get_char(i);
        proof {
            reveal_strlit("?");
            assert("?"@ =~= seq!['?']);
            assert(name@.subrange(i as int, i + 1) =~= seq![c]);
            assert(fitted(name@.take(i + 1)) =~= fitted(name@.take(i as int)) + seq![
                fitted_char(c),
            ]);
        }
        if c == '\n' || c == '\u{1b}' {
            text.append("?");
        } else {
            text.append(name.substring_char(i, i + 1));
        }
        i += 1;
    }
    assert(name@.take(n as int) =~= name@);
    text
}

/// An indentation holds spaces only.
proof fn lemma_indent_spaces(depth: nat)
    ensures
        forall|i: int| 0 <= i < indent(depth).len() ==> #[trigger] indent(depth)[i] == ' ',
    decreases depth,
{
    if depth > 0 {
        lemma_indent_spaces((depth - 1) as nat);
        let before = indent((depth - 1) as nat);
        let step = seq![' ', ' ', ' ', ' '];
        assert forall|i: int| 0 <= i < indent(depth).len() implies #[trigger] indent(depth)[i]
            == ' ' by {
            if i < before.len() {
                assert(indent(depth)[i] == before[i]);
            } else {
                assert(indent(depth)[i] == step[i - before.len()]);
            }
        }
    }
}

/// The label of a fitted name holds neither a line break nor an escape
/// character.
pub proof fn lemma_label_fits(depth: nat, name: Seq<char>)
    ensures
        !label_model(depth, fitted(name)).contains('\n'),
        !label_model(depth, fitted(name)).contains('\u{1b}'),
{
    lemma_indent_spaces(depth);
    let text = label_model(depth, fitted(name));
    assert forall|i: int| 0 <= i < text.len() implies fits(#[trigger] text[i]) by {
        if i >= indent(depth).len() {
            assert(text[i] == fitted_char(name[i - indent(depth).len()]));
        }
    }
}

/// The text of an entry's first cell: the name, indented by four spaces for
/// each level of depth.
pub fn label(depth: usize, name: &str) -> (text: String)
    ensures
        text@ == label_model(depth as nat, name@),
{
    let mut text = String::new();
    let mut level: usize = 0;
    while level < depth
        invariant
            level <= depth,
            text@ == indent(level as nat),
        decreases depth - level,
    {
        proof {
            reveal_strlit("    ");
            assert("    "@ =~= seq![' ', ' ', ' ', ' ']);
        }
        text.append("    ");
        level += 1;
    }
    text.append(name);
    text
}

/// The style of an entry's cells.
pub fn style(is_dir: bool) -> (tags: &'static str)
    ensures
        tags@ == style_model(is_dir),
{
    proof {
        reveal_strlit("FY");
        reveal_strlit("");
        assert("FY"@ =~= seq!['F', 'Y']);
        assert(""@ =~= Seq::<char>::empty());
    }
    if is_dir {
        "FY"
    } else {
        ""
    }
}

/// Lays the entries out as a table in the plain format: under the four titles
/// one row for each entry, in the entries' order, with the indented name and
/// the three ages, the rows of directories in yellow. A line break or an
/// escape character in a name is shown as a question mark.
pub fn report(entries: &Vec<VisitedEntry>) -> (table: Table)
    ensures
        table_is_plain(table),
        table_titles(table) == titles_model(),
        table_rows(table) == rows_model(visited_views(entries@)),
{
    let ghost views = visited_views(entries@);
    let mut table = table_new();
    table_set_format(&mut table);
    proof {
        reveal_strlit("entry-name");
        reveal_strlit("created");
        reveal_strlit("last modified");
        reveal_strlit("last access");
    }
    table_set_titles(&mut table, "entry-name", "created", "last modified", "last access");
    assert(table_rows(table) =~= rows_model(views.take(0)));
    let mut i: usize = 0;
    while i < entries.len()
        invariant
            i <= entries.len(),
            views == visited_views(entries@),
            table_is_plain(table),
            table_titles(table) == titles_model(),
            table_rows(table) == rows_model(views.take(i as int)),
        decreases entries.len() - i,
    {
        let entry = &entries[i];
        let name = fit_name(entry.display_name.as_str());
        let text = label(entry.depth, name.as_str());
        let tags = style(entry.is_dir);
        proof {
            lemma_label_fits(entry.depth as nat, entry.display_name@);
        }
        table_add_row(
            &mut table,
            text.as_str(),
            entry.created.number(),
            entry.modified.number(),
            entry.accessed.number(),
            tags,
        );
        proof {
            assert(views[i as int] == entry@);
            assert(rows_model(views.take(i as int + 1)) =~= rows_model(views.take(i as int)).push(
                row_model(views[i as int]),
            ));
        }
        i += 1;
    }
    assert(views.take(entries@.len() as int) =~= views);
    table
}

/// The rows of a survey of a listing: one for each entry that the walk
/// visits, in the listing's order.
pub open spec fn survey_rows(listing: Seq<FoundView>, max_depth: usize, skip_hidden: bool) -> Seq<
    (Seq<char>, int, int, int, Seq<char>),
> {
    rows_model(survey_model(listing, max_depth, skip_hidden))
}

/// Surveys a listing and lays the visited entries out as a table in the plain
/// format: under the four titles one row for each entry that a walk with
/// these settings visits.
pub fn survey_report(config: &ScanConfig, listing: &Vec<FoundEntry>) -> (table: Table)
    ensures
        table_is_plain(table),
        table_titles(table) == titles_model(),
        table_rows(table) == survey_rows(
            found_views(listing@),
            config.max_depth,
            config.skip_hidden,
        ),
{
    let entries = survey(config, listing);
    report(&entries)
}

} // verus!
