use vstd::prelude::*;
use crate::models::{Linode, NewLinode, NewOrg, NewUser, NewUserOrg, Org, User};

verus! {

/// `items` separated by `", "`.
pub open spec fn comma_list(items: Seq<Seq<char>>) -> Seq<char>
    decreases items.len(),
{
    if items.len() == 0 {
        Seq::empty()
    } else if items.len() == 1 {
        items[0]
    } else {
        comma_list(items.drop_last()) + ", "@ + items.last()
    }
}

/// `n` placeholders `?`.
pub open spec fn placeholders(n: nat) -> Seq<Seq<char>> {
    Seq::new(n, |i: int| "?"@)
}

/// The statement that inserts one row into `table`, binding one parameter per column.
pub open spec fn insert_text(table: Seq<char>, columns: Seq<Seq<char>>) -> Seq<char> {
    "insert into "@ + table + " ("@ + comma_list(columns) + ") values ("@ + comma_list(
        placeholders(columns.len()),
    ) + ")"@
}

/// The statement that asks whether `table` has a row whose `column` equals the parameter.
pub open spec fn exists_text(table: Seq<char>, column: Seq<char>) -> Seq<char> {
    "select exists(select 1 from "@ + table + " where "@ + column + " = ?)"@
}

/// `items` separated by `", "`.
pub fn join_comma(items: &Vec<&str>) -> (r: String)
    ensures
        r@ == comma_list(items@.map_values(|x: &str| x@)),
{
    let ghost all = items@.map_values(|x: &str| x@);
    let mut s = String::new();
    let mut i: usize = 0;
    while i < items.len()
        invariant
            0 <= i <= items@.len(),
            all == items@.map_values(|x: &str| x@),
            s@ == comma_list(all.subrange(0, i as int)),
        decreases items.len() - i,
    {
        let ghost before = s@;
        assert(all.subrange(0, i + 1).drop_last() =~= all.subrange(0, i as int));
        if i > 0 {
            s.append(", ");
        }
        s.append(items[i]);
        if i == 0 {
            assert(before =~= Seq::<char>::empty());
            assert(s@ =~= all.subrange(0, 1)[0]);
        } else {
            assert(s@ =~= before + ", "@ + all.subrange(0, i + 1).last());
        }
        i = i + 1;
    }
    assert(all.subrange(0, i as int) =~= all);
    s
}

/// The insert statement for `table` with the given columns.
pub fn insert_sql(table: &str, columns: &Vec<&str>) -> (r: String)
    ensures
        r@ == insert_text(table@, columns@.map_values(|x: &str| x@)),
{
    let mut marks: Vec<&str> = Vec::new();
    let mut i: usize = 0;
    while i < columns.len()
        invariant
            0 <= i <= columns@.len(),
            marks@.map_values(|x: &str| x@) =~= placeholders(i as nat),
        decreases columns.len() - i,
    {
        let ghost before = marks@;
        marks.push("?");
        assert(marks@.map_values(|x: &str| x@) =~= before.map_values(|x: &str| x@).push("?"@));
        assert(placeholders((i + 1) as nat) =~= placeholders(i as nat).push("?"@));
        i = i + 1;
    }
    let mut s = String::from_str("insert into ");
    s.append(table);
    s.append(" (");
    let cols = join_comma(columns);
    s.append(cols.as_str());
    s.append(") values (");
    let qs = join_comma(&marks);
    s.append(qs.as_str());
    s.append(")");
    s
}

/// The existence query for `column` of `table`.
pub fn exists_sql(table: &str, column: &str) -> (r: String)
    ensures
        r@ == exists_text(table@, column@),
{
    let mut s = String::from_str("select exists(select 1 from ");
    s.append(table);
    s.append(" where ");
    s.append(column);
    s.append(" = ?)");
    s
}

/// Reads the single column of an existence query: the store answers 1 for yes.
pub fn exists_answer(column: u8) -> (r: bool)
    ensures
        r == (column == 1),
{
    column == 1
}

impl NewOrg {
    /// The statement that inserts an organization; its parameter is the name.
    pub fn insert_statement() -> (r: String)
        ensures
            r@ == insert_text("org"@, seq!["name"@]),
    {
        let cols: Vec<&str> = vec!["name"];
        assert(cols@.map_values(|x: &str| x@) =~= seq!["name"@]);
        insert_sql("org", &cols)
    }
}

impl NewUser {
    /// The statement that inserts a user; its parameter is the email.
    pub fn insert_statement() -> (r: String)
        ensures
            r@ == insert_text("user"@, seq!["email"@]),
    {
        let cols: Vec<&str> = vec!["email"];
        assert(cols@.map_values(|x: &str| x@) =~= seq!["email"@]);
        insert_sql("user", &cols)
    }
}

impl NewUserOrg {
    /// The statement that inserts a membership; its parameters are the user
    /// id and the organization id.
    pub fn insert_statement() -> (r: String)
        ensures
            r@ == insert_text("user_org"@, seq!["user"@, "org"@]),
    {
        let cols: Vec<&str> = vec!["user", "org"];
        assert(cols@.map_values(|x: &str| x@) =~= seq!["user"@, "org"@]);
        insert_sql("user_org", &cols)
    }
}

impl NewLinode {
    /// The statement that inserts a device; its parameters are the name and
    /// the owning organization id.
    pub fn insert_statement() -> (r: String)
        ensures
            r@ == insert_text("linode"@, seq!["name"@, "org"@]),
    {
        let cols: Vec<&str> = vec!["name", "org"];
        assert(cols@.map_values(|x: &str| x@) =~= seq!["name"@, "org"@]);
        insert_sql("linode", &cols)
    }
}

impl Org {
    /// The query that asks whether an organization has the given name.
    pub fn exists_statement() -> (r: String)
        ensures
            r@ == exists_text("org"@, "name"@),
    {
        exists_sql("org", "name")
    }
}

impl User {
    /// The query that asks whether a user has the given email.
    pub fn exists_statement() -> (r: String)
        ensures
            r@ == exists_text("user"@, "email"@),
    {
        exists_sql("user", "email")
    }
}

impl Linode {
    /// The query that asks whether a device has the given name.
    pub fn exists_statement() -> (r: String)
        ensures
            r@ == exists_text("linode"@, "name"@),
    {
        exists_sql("linode", "name")
    }
}

} // verus!
