//! Reading the table definitions out of a GraphQL schema.
//!
//! A table is a `type` whose header line carries the `@table` directive. Its
//! fields are the `name: Type` lines up to the closing brace.

use crate::text::chars_of;
use crate::text::contains_text;
use crate::text::copy_range;
use crate::text::find_char;
use crate::text::find_text;
use crate::text::first_at;
use crate::text::first_match;
use crate::text::first_token;
use crate::text::first_token_chars;
use crate::text::lemma_first_at;
use crate::text::lemma_first_match;
use crate::text::matches_at;
use crate::text::occurs_at;
use crate::text::string_of;
use crate::text::trim;
use crate::text::trim_chars;
use vstd::prelude::*;

verus! {

/// One field of a table, as a mathematical value.
pub struct FieldModel {
    pub name: Seq<char>,
    pub field_type: Seq<char>,
}

/// One table, as a mathematical value.
pub struct TableModel {
    pub name: Seq<char>,
    pub database: Seq<char>,
    pub fields: Seq<FieldModel>,
}

/// One field of a table.
#[derive(Debug)]
pub struct FieldDef {
    pub name: String,
    /// The type as written, without directives.
    pub field_type: String,
}

/// One table of a schema.
#[derive(Debug)]
pub struct TableDef {
    pub name: String,
    /// The database named by the `@table` directive, empty when it names none.
    pub database: String,
    pub fields: Vec<FieldDef>,
}

impl View for FieldDef {
    type V = FieldModel;

    open spec fn view(&self) -> FieldModel {
        FieldModel { name: self.name@, field_type: self.field_type@ }
    }
}

/// The fields as mathematical values.
pub open spec fn field_models(fields: Seq<FieldDef>) -> Seq<FieldModel> {
    Seq::new(fields.len(), |i: int| fields[i]@)
}

impl View for TableDef {
    type V = TableModel;

    open spec fn view(&self) -> TableModel {
        TableModel {
            name: self.name@,
            database: self.database@,
            fields: field_models(self.fields@),
        }
    }
}

/// The tables as mathematical values.
pub open spec fn table_models(tables: Seq<TableDef>) -> Seq<TableModel> {
    Seq::new(tables.len(), |i: int| tables[i]@)
}

/// The line opens a table: it begins with `type ` and holds `@table`.
pub open spec fn is_header(line: Seq<char>) -> bool {
    occurs_at(line, 0, "type "@) && contains_text(line, "@table"@)
}

/// The line closes a type: it is a lone `}`.
pub open spec fn is_close(line: Seq<char>) -> bool {
    line == "}"@
}

/// The line can declare a field: it holds a colon and is no comment.
pub open spec fn is_field_line(line: Seq<char>) -> bool {
    first_at(line, ':', 0) < line.len() && !(line.len() > 0 && line[0] == '#')
}

/// The name of the table that a header line opens: the first word after
/// `type `.
pub open spec fn table_name(line: Seq<char>) -> Seq<char> {
    first_token(line.skip("type "@.len() as int))
}

/// The text between the first two double quotes that follow the first `key`
/// in `line`; empty when `key` or either quote is missing.
pub open spec fn quoted_after(line: Seq<char>, key: Seq<char>) -> Seq<char> {
    let k = first_match(line, key, 0);
    if k < 0 {
        Seq::empty()
    } else {
        let open = first_at(line, '"', k + key.len());
        let close = first_at(line, '"', open + 1);
        if open >= line.len() || close >= line.len() {
            Seq::empty()
        } else {
            line.subrange(open + 1, close)
        }
    }
}

/// The database that a header line names with `database: "..."`.
pub open spec fn database_of(line: Seq<char>) -> Seq<char> {
    quoted_after(line, "database:"@)
}

/// The name of the field that a line declares: what stands before the first
/// colon, trimmed.
pub open spec fn field_name(line: Seq<char>) -> Seq<char> {
    trim(line.take(first_at(line, ':', 0)))
}

/// The type of the field that a line declares: what stands between the first
/// colon and the first `@` after it, trimmed.
pub open spec fn field_type(line: Seq<char>) -> Seq<char> {
    let rest = line.skip(first_at(line, ':', 0) + 1);
    trim(rest.take(first_at(rest, '@', 0)))
}

/// What has been read of a schema so far.
pub struct Reading {
    /// The tables that are complete.
    pub tables: Seq<TableModel>,
    /// The table whose closing brace has not been seen yet.
    pub open: Option<TableModel>,
}

impl Reading {
    /// Nothing has been read.
    pub open spec fn start() -> Reading {
        Reading { tables: Seq::empty(), open: None }
    }

    /// The open table, if any, is complete.
    pub open spec fn close(self) -> Reading {
        match self.open {
            Some(table) => Reading { tables: self.tables.push(table), open: None },
            None => self,
        }
    }

    /// Reads one trimmed line.
    ///
    /// A header completes the open table and opens the next one. A closing
    /// brace completes the open table. Inside a table, a line that declares a
    /// field with a name adds that field. Every other line is passed over.
    pub open spec fn line(self, line: Seq<char>) -> Reading {
        if is_header(line) {
            Reading {
                tables: self.close().tables,
                open: Some(
                    TableModel {
                        name: table_name(line),
                        database: database_of(line),
                        fields: Seq::empty(),
                    },
                ),
            }
        } else if is_close(line) {
            self.close()
        } else if self.open is Some && is_field_line(line) && field_name(line).len() > 0 {
            Reading {
                tables: self.tables,
                open: Some(
                    TableModel {
                        name: self.open->0.name,
                        database: self.open->0.database,
                        fields: self.open->0.fields.push(
                            FieldModel { name: field_name(line), field_type: field_type(line) },
                        ),
                    },
                ),
            }
        } else {
            self
        }
    }

    /// Reads the lines of `content` that begin at or after `from`. Lines end
    /// at a line feed and are trimmed before they are read.
    pub open spec fn lines_from(self, content: Seq<char>, from: int) -> Reading
        decreases content.len() - from,
    {
        if from < 0 || from > content.len() {
            self
        } else {
            let end = first_at(content, '\n', from);
            let next = self.line(trim(content.subrange(from, end)));
            if end >= content.len() {
                next
            } else {
                proof {
                    lemma_first_at(content, '\n', from);
                }
                next.lines_from(content, end + 1)
            }
        }
    }
}

/// The tables of a schema: those whose closing brace, or the header of a
/// later table, has been read by the end of the text.
pub open spec fn tables_of(content: Seq<char>) -> Seq<TableModel> {
    Reading::start().lines_from(content, 0).tables
}

/// Number of places before `upto` at which `@table` stands in `content`.
pub open spec fn table_marks(content: Seq<char>, upto: int) -> nat
    decreases upto,
{
    if upto <= 0 {
        0
    } else {
        table_marks(content, upto - 1) + if occurs_at(content, upto - 1, "@table"@) {
            1nat
        } else {
            0nat
        }
    }
}

fn read_quoted_after(line: &Vec<char>, key: &Vec<char>) -> (value: String)
    ensures
        value@ == quoted_after(line@, key@),
{
    proof {
        lemma_first_match(line@, key@, 0);
    }
    match find_text(line, key) {
        None => String::new(),
        Some(k) => {
            assert(k + key@.len() <= line@.len() == line.len());
            let open = find_char(line, '"', k + key.len());
            if open >= line.len() {
                return String::new();
            }
            let close = find_char(line, '"', open + 1);
            if close >= line.len() {
                return String::new();
            }
            string_of(line, open + 1, close)
        },
    }
}

fn read_field(line: &Vec<char>) -> (field: FieldDef)
    requires
        first_at(line@, ':', 0) < line@.len(),
    ensures
        field@.name == field_name(line@),
        field@.field_type == field_type(line@),
{
    let colon = find_char(line, ':', 0);
    assert(colon < line@.len() == line.len());
    let before = copy_range(line, 0, colon);
    let rest = copy_range(line, colon + 1, line.len());
    let at = find_char(&rest, '@', 0);
    let written = copy_range(&rest, 0, at);
    let name = trim_chars(&before);
    let ty = trim_chars(&written);
    FieldDef { name: string_of(&name, 0, name.len()), field_type: string_of(&ty, 0, ty.len()) }
}

fn read_header(line: &Vec<char>, type_word: &Vec<char>, key: &Vec<char>) -> (table: TableDef)
    requires
        occurs_at(line@, 0, type_word@),
        type_word@ == "type "@,
        key@ == "database:"@,
    ensures
        table@ == (TableModel {
            name: table_name(line@),
            database: database_of(line@),
            fields: Seq::empty(),
        }),
{
    let after = copy_range(line, type_word.len(), line.len());
    let name = first_token_chars(&after);
    let table = TableDef {
        name: string_of(&name, 0, name.len()),
        database: read_quoted_after(line, key),
        fields: Vec::new(),
    };
    proof {
        assert(name@.subrange(0, name@.len() as int) == name@);
        assert(field_models(table.fields@) =~= Seq::<FieldModel>::empty());
    }
    table
}

/// The exec counterpart of a reading.
struct Reader {
    tables: Vec<TableDef>,
    open: Option<TableDef>,
}

impl View for Reader {
    type V = Reading;

    closed spec fn view(&self) -> Reading {
        Reading {
            tables: table_models(self.tables@),
            open: match self.open {
                Some(table) => Some(table@),
                None => None,
            },
        }
    }
}

fn close_table(reader: Reader) -> (closed: Reader)
    ensures
        closed@ == reader@.close(),
{
    let Reader { tables, open } = reader;
    let mut tables = tables;
    let ghost before = tables@;
    match open {
        Some(table) => {
            tables.push(table);
            proof {
                assert(table_models(tables@) =~= table_models(before).push(table@));
            }
            Reader { tables, open: None }
        },
        None => Reader { tables, open: None },
    }
}

fn add_field(table: TableDef, field: FieldDef) -> (grown: TableDef)
    ensures
        grown@ == (TableModel {
            name: table@.name,
            database: table@.database,
            fields: table@.fields.push(field@),
        }),
{
    let TableDef { name, database, fields } = table;
    let mut fields = fields;
    let ghost before = fields@;
    fields.push(field);
    proof {
        assert(field_models(fields@) =~= field_models(before).push(field@));
    }
    TableDef { name, database, fields }
}

fn read_line(
    reader: Reader,
    line: &Vec<char>,
    type_word: &Vec<char>,
    directive: &Vec<char>,
    key: &Vec<char>,
    brace: &Vec<char>,
) -> (next: Reader)
    requires
        type_word@ == "type "@,
        directive@ == "@table"@,
        key@ == "database:"@,
        brace@ == "}"@,
    ensures
        next@ == reader@.line(line@),
{
    if matches_at(line, 0, type_word) && find_text(line, directive).is_some() {
        let closed = close_table(reader);
        let table = read_header(line, type_word, key);
        return Reader { tables: closed.tables, open: Some(table) };
    }
    if line.len() == brace.len() && matches_at(line, 0, brace) {
        proof {
            assert(line@.subrange(0, line@.len() as int) == line@);
        }
        return close_table(reader);
    }
    proof {
        if is_close(line@) {
            assert(line@.subrange(0, line@.len() as int) == line@);
        }
    }
    let Reader { tables, open } = reader;
    match open {
        Some(table) => {
            let colon = find_char(line, ':', 0);
            if colon < line.len() && !(line.len() > 0 && line[0] == '#') {
                let field = read_field(line);
                if field.name.as_str().is_empty() {
                    Reader { tables, open: Some(table) }
                } else {
                    Reader { tables, open: Some(add_field(table, field)) }
                }
            } else {
                Reader { tables, open: Some(table) }
            }
        },
        None => Reader { tables, open: None },
    }
}

/// Reads the table definitions out of the text of a schema.
///
/// Each line is trimmed. `type Name @table(database: "db") {` opens the table
/// `Name` in database `db`; a lone `}` closes it; in between, `field: Type
/// @directive` declares the field `field` of type `Type`, and lines that
/// begin with `#` are comments. A table that is still open at the end of the
/// text is left out.
pub fn parse_schema(content: &str) -> (tables: Vec<TableDef>)
    ensures
        table_models(tables@) == tables_of(content@),
{
    let text = chars_of(content);
    let type_word = chars_of("type ");
    let directive = chars_of("@table");
    let key = chars_of("database:");
    let brace = chars_of("}");
    let mut reader = Reader { tables: Vec::new(), open: None };
    proof {
        assert(reader@.tables =~= Reading::start().tables);
    }
    let mut from: usize = 0;
    loop
        invariant
            text@ == content@,
            type_word@ == "type "@,
            directive@ == "@table"@,
            key@ == "database:"@,
            brace@ == "}"@,
            from <= text@.len(),
            Reading::start().lines_from(content@, 0) == reader@.lines_from(content@, from as int),
        decreases text@.len() - from,
    {
        let end = find_char(&text, '\n', from);
        let segment = copy_range(&text, from, end);
        let line = trim_chars(&segment);
        reader = read_line(reader, &line, &type_word, &directive, &key, &brace);
        if end >= text.len() {
            return reader.tables;
        }
        from = end + 1;
    }
}

/// The texts of the items, in order.
pub open spec fn texts(items: Seq<String>) -> Seq<Seq<char>> {
    Seq::new(items.len(), |i: int| items[i]@)
}

/// The schema files of an application: those that its configuration lists;
/// when it lists none, the file `schema.graphql` if the application has one.
pub open spec fn chosen_schema_files(listed: Seq<Seq<char>>, default_exists: bool) -> Seq<
    Seq<char>,
> {
    if listed.len() > 0 {
        listed
    } else if default_exists {
        seq!["schema.graphql"@]
    } else {
        Seq::empty()
    }
}

/// Chooses the schema files in which the tables of an application are
/// counted. `listed` are the files named in its configuration, and
/// `default_exists` tells whether it has a `schema.graphql`.
pub fn schema_files(listed: Vec<String>, default_exists: bool) -> (files: Vec<String>)
    ensures
        texts(files@) == chosen_schema_files(texts(listed@), default_exists),
{
    if listed.len() > 0 {
        listed
    } else {
        let mut files: Vec<String> = Vec::new();
        if default_exists {
            files.push("schema.graphql".to_owned());
        }
        proof {
            assert(texts(files@) =~= chosen_schema_files(texts(listed@), default_exists));
        }
        files
    }
}

/// Counts the places at which `@table` stands in the text of a schema.
pub fn count_table_marks(content: &str) -> (n: usize)
    ensures
        n == table_marks(content@, content@.len() as int),
{
    let text = chars_of(content);
    let directive = chars_of("@table");
    let mut n: usize = 0;
    let mut i: usize = 0;
    while i < text.len()
        invariant
            text@ == content@,
            directive@ == "@table"@,
            i <= text@.len(),
            n == table_marks(text@, i as int),
            n <= i,
        decreases text@.len() - i,
    {
        if matches_at(&text, i, &directive) {
            n += 1;
        }
        i += 1;
    }
    n
}

} // verus!
