use yeti_benchmarks::schema::count_table_marks;
use yeti_benchmarks::schema::parse_schema;
use yeti_benchmarks::schema::TableDef;

type Plain = Vec<(String, String, Vec<(String, String)>)>;

fn plain(tables: &[TableDef]) -> Plain {
    tables
        .iter()
        .map(|t| {
            (
                t.name.clone(),
                t.database.clone(),
                t.fields.iter().map(|f| (f.name.clone(), f.field_type.clone())).collect(),
            )
        })
        .collect()
}

fn table(name: &str, database: &str, fields: &[(&str, &str)]) -> (String, String, Vec<(String, String)>) {
    (
        name.to_string(),
        database.to_string(),
        fields.iter().map(|(n, t)| (n.to_string(), t.to_string())).collect(),
    )
}

fn read_by_splitting(content: &str) -> Plain {
    let mut tables = Vec::new();
    let mut current_table: Option<(String, String)> = None;
    let mut current_fields: Vec<(String, String)> = Vec::new();
    for line in content.lines() {
        let trimmed = line.trim();
        if trimmed.starts_with("type ") && trimmed.contains("@table") {
            if let Some((name, db)) = current_table.take() {
                tables.push((name, db, current_fields.clone()));
                current_fields.clear();
            }
            let after_type = &trimmed[5..];
            let table_name = after_type.split_whitespace().next().unwrap_or("").to_string();
            let database = if let Some(start) = trimmed.find("database:") {
                let after_db = &trimmed[start + 9..];
                let after_db = after_db.trim();
                if let Some(q_start) = after_db.find('"') {
                    let rest = &after_db[q_start + 1..];
                    if let Some(q_end) = rest.find('"') {
                        rest[..q_end].to_string()
                    } else {
                        String::new()
                    }
                } else {
                    String::new()
                }
            } else {
                String::new()
            };
            current_table = Some((table_name, database));
        } else if trimmed == "}" {
            if let Some((name, db)) = current_table.take() {
                tables.push((name, db, current_fields.clone()));
                current_fields.clear();
            }
        } else if current_table.is_some() && trimmed.contains(':') && !trimmed.starts_with('#') {
            let parts: Vec<&str> = trimmed.splitn(2, ':').collect();
            if parts.len() == 2 {
                let field_name = parts[0].trim().to_string();
                let type_part = parts[1].trim();
                let field_type =
                    type_part.split('@').next().unwrap_or(type_part).trim().to_string();
                if !field_name.is_empty() {
                    current_fields.push((field_name, field_type));
                }
            }
        }
    }
    tables
}

const BOOKS: &str = r#"
# Demo schema
type Author @table(database: "demo-graphql") @export {
    id: ID! @primaryKey
    name: String! @indexed
    books: [Book] @relationship(from: "authorId")
}

type Book @table(database: "demo-graphql") @export {
    id: ID! @primaryKey
    title: String
    # price: Float
    price: Float @indexed
    authorId: ID
}

type Helper {
    ignored: String
}
"#;

#[test]
fn tables_and_fields_are_read() {
    let tables = parse_schema(BOOKS);
    assert_eq!(
        plain(&tables),
        vec![
            table(
                "Author",
                "demo-graphql",
                &[("id", "ID!"), ("name", "String!"), ("books", "[Book]")]
            ),
            table(
                "Book",
                "demo-graphql",
                &[("id", "ID!"), ("title", "String"), ("price", "Float"), ("authorId", "ID")]
            ),
        ]
    );
}

#[test]
fn empty_schema_has_no_tables() {
    assert!(parse_schema("").is_empty());
    assert!(parse_schema("\n\n").is_empty());
    assert!(parse_schema("type Plain {\n  a: Int\n}\n").is_empty());
}

#[test]
fn table_without_database_has_an_empty_one() {
    let tables = parse_schema("type T @table {\n x: Int\n}");
    assert_eq!(plain(&tables), vec![table("T", "", &[("x", "Int")])]);
    let tables = parse_schema("type T @table(database: demo) {\n}");
    assert_eq!(plain(&tables), vec![table("T", "", &[])]);
    let tables = parse_schema("type T @table(database: \"open) {\n}");
    assert_eq!(plain(&tables), vec![table("T", "", &[])]);
    let tables = parse_schema("type T @table(database:\"a\" other:\"b\") {\n}");
    assert_eq!(plain(&tables), vec![table("T", "a", &[])]);
}

#[test]
fn unclosed_table_is_left_out() {
    let tables = parse_schema("type A @table {\n a: Int\n}\ntype B @table {\n b: Int\n");
    assert_eq!(plain(&tables), vec![table("A", "", &[("a", "Int")])]);
}

#[test]
fn next_header_closes_the_open_table() {
    let tables = parse_schema("type A @table {\n a: Int\ntype B @table {\n b: Int\n}\n");
    assert_eq!(
        plain(&tables),
        vec![table("A", "", &[("a", "Int")]), table("B", "", &[("b", "Int")])]
    );
}

#[test]
fn lines_are_trimmed_and_comments_skipped() {
    let schema = "\t type  Wide   @table(database: \"d\")  {  \r\n\t  spaced  :  [Int!]!   @x  \r\n#c: d\n  # e: f\n : nameless\n  }  \r\n";
    let tables = parse_schema(schema);
    assert_eq!(plain(&tables), vec![table("Wide", "d", &[("spaced", "[Int!]!")])]);
}

#[test]
fn parser_agrees_with_string_splitting() {
    let schemas = [
        BOOKS,
        "",
        "}",
        "type @table",
        "type  @table {\n:\n a:\n a:@b\n}",
        "type A@table(database:\"x\"){\nf:T\n}",
        "type A @table(database: \"x\n}\n",
        "xtype A @table {\n a: b\n}",
        "type A @table {\n}\n}\n a: b\n",
        "type A @table { database: \"inline\" }\n a: \"q\" @d @e\n}",
        "type\u{a0}A @table {\n\u{2003}a\u{3000}:\u{85}B\u{2028}\n}",
        "type A @table {\r\n  a: B\r\n}\r\n",
        "type A @table {\n  key: Map<String: Int> @x\n  url: http://x\n}",
        "type A @table(database: \"one\") @table(database: \"two\") {\n}",
        "type A database: \"early\" @table {\n}",
        "type Ünï @table(database: \"dätä\") {\n  fëld: Tÿpe @dïr\n}",
    ];
    for schema in schemas {
        assert_eq!(plain(&parse_schema(schema)), read_by_splitting(schema));
    }
}

#[test]
fn table_marks_are_counted() {
    assert_eq!(count_table_marks(""), 0);
    assert_eq!(count_table_marks(BOOKS), 2);
    assert_eq!(count_table_marks("@table@table @tabl @table"), 3);
    assert_eq!(count_table_marks("@Table @ table"), 0);
    for text in [BOOKS, "@table", "x@tablex@table", "@@table", "@tabl@table"] {
        assert_eq!(count_table_marks(text), text.matches("@table").count());
    }
}
