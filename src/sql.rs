//! Statements built from an entity descriptor and a set of arguments, with
//! the values to bind in the order of their placeholders.
use vstd::prelude::*;
use vstd::string::*;
use crate::model::{Arg, Dialect, Kwargs, Operator, Value, connector, marker};
use crate::text::{join, split_marker, split_on_marker};

verus! {

/// The static metadata of a persisted entity type.
#[derive(Clone, Debug)]
pub struct Descriptor {
    /// The table name.
    pub name: String,
    /// The primary-key column.
    pub primary_key: String,
    /// The statement that creates the table.
    pub schema: String,
}

/// SQL text and the values to bind, in the order of the placeholders.
#[derive(Debug)]
pub struct Statement {
    pub sql: String,
    pub params: Vec<Value>,
}

/// Why a statement could not be built.
#[derive(Clone, Copy, Debug, PartialEq, Eq, Structural)]
pub enum BuildError {
    /// A filter or an update was given no argument.
    EmptyArguments,
}

/// The values of the arguments, in order.
pub open spec fn values_of(args: Seq<Arg>) -> Seq<Value> {
    args.map_values(|a: Arg| a.value)
}

/// Whether a key asks for a join: it has exactly three parts.
pub open spec fn is_join_key(k: Seq<char>) -> bool {
    split_marker(k).len() == 3
}

/// The predicate of one argument whose placeholder is `ph`.
pub open spec fn predicate(k: Seq<char>, ph: Seq<char>) -> Seq<char> {
    if is_join_key(k) {
        let p = split_marker(k);
        p[1] + "."@ + p[2] + " = "@ + ph
    } else {
        k + " = "@ + ph
    }
}

/// The join that a join key asks for, with a leading space; empty for a
/// plain column.
pub open spec fn join_clause(name: Seq<char>, pk: Seq<char>, k: Seq<char>) -> Seq<char> {
    if is_join_key(k) {
        let p = split_marker(k);
        " INNER JOIN "@ + p[1] + " ON "@ + name + "."@ + pk + " = "@ + p[1] + "."@ + p[0]
    } else {
        Seq::empty()
    }
}

/// The predicates of the arguments, the i-th bound to placeholder i + 1.
pub open spec fn predicates(d: Dialect, args: Seq<Arg>) -> Seq<Seq<char>> {
    Seq::new(args.len(), |i: int| predicate(args[i].key@, marker(d, (i + 1) as nat)))
}

/// The joins of all join keys, in argument order.
pub open spec fn join_clauses(name: Seq<char>, pk: Seq<char>, args: Seq<Arg>) -> Seq<char>
    decreases args.len(),
{
    if args.len() == 0 {
        Seq::empty()
    } else {
        join_clauses(name, pk, args.drop_last()) + join_clause(name, pk, args.last().key@)
    }
}

/// Whether some argument has a join key.
pub open spec fn has_join(args: Seq<Arg>) -> bool {
    exists|i: int| 0 <= i < args.len() && is_join_key(#[trigger] args[i].key@)
}

/// The select statement of a filter.
pub open spec fn filter_sql(
    name: Seq<char>,
    pk: Seq<char>,
    d: Dialect,
    op: Operator,
    args: Seq<Arg>,
) -> Seq<char> {
    let w = join(predicates(d, args), connector(op));
    if has_join(args) {
        "SELECT "@ + name + ".* FROM "@ + name + join_clauses(name, pk, args) + " WHERE "@ + w
    } else {
        "SELECT * FROM "@ + name + " WHERE "@ + w
    }
}

/// The column names of the arguments.
pub open spec fn columns(args: Seq<Arg>) -> Seq<Seq<char>> {
    args.map_values(|a: Arg| a.key@)
}

/// The placeholders 1 to n.
pub open spec fn markers(d: Dialect, n: nat) -> Seq<Seq<char>> {
    Seq::new(n, |i: int| marker(d, (i + 1) as nat))
}

/// The insert statement of the arguments.
pub open spec fn insert_sql(name: Seq<char>, d: Dialect, args: Seq<Arg>) -> Seq<char> {
    "INSERT INTO "@ + name + " ("@ + join(columns(args), ", "@) + ") VALUES ("@
        + join(markers(d, args.len()), ", "@) + ")"@
}

/// The assignments of an update, the i-th bound to placeholder i + 1.
pub open spec fn assignments(d: Dialect, args: Seq<Arg>) -> Seq<Seq<char>> {
    Seq::new(args.len(), |i: int| args[i].key@ + " = "@ + marker(d, (i + 1) as nat))
}

/// The update statement of the arguments, for the row whose primary key is
/// bound last.
pub open spec fn update_sql(name: Seq<char>, pk: Seq<char>, d: Dialect, args: Seq<Arg>) -> Seq<char> {
    "UPDATE "@ + name + " SET "@ + join(assignments(d, args), ", "@) + " WHERE "@ + pk + " = "@
        + marker(d, (args.len() + 1) as nat)
}

/// One step of a join: the first i + 1 parts are the first i parts, the
/// separator and part i.
pub proof fn lemma_join_step(p: Seq<Seq<char>>, sep: Seq<char>, i: int)
    requires
        0 <= i < p.len(),
    ensures
        i == 0 ==> join(p.take(1), sep) == p[0],
        i > 0 ==> join(p.take(i + 1), sep) == join(p.take(i), sep) + sep + p[i],
{
    assert(p.take(i + 1).drop_last() =~= p.take(i));
}

/// Moves the values out of the arguments, in order.
fn take_values(args: Vec<Arg>) -> (r: Vec<Value>)
    ensures
        r@ == values_of(args@),
{
    let ghost all = args@;
    let mut rest = args;
    let mut r: Vec<Value> = Vec::new();
    while rest.len() > 0
        invariant
            r@ + values_of(rest@) == values_of(all),
        decreases rest@.len(),
    {
        let ghost before = rest@;
        let a = rest.remove(0);
        proof {
            assert(values_of(before) =~= seq![a.value] + values_of(rest@));
            assert(r@.push(a.value) + values_of(rest@) =~= r@ + values_of(before));
        }
        r.push(a.value);
    }
    proof {
        assert(values_of(rest@) =~= Seq::<Value>::empty());
        assert(r@ + values_of(rest@) =~= r@);
    }
    r
}

/// Appends `sep` before every part but the first.
fn append_part(r: &mut String, i: usize, sep: &str, part: &str)
    ensures
        i == 0 ==> final(r)@ == old(r)@ + part@,
        i > 0 ==> final(r)@ == old(r)@ + sep@ + part@,
{
    if i > 0 {
        r.append(sep);
    }
    r.append(part);
}

impl Descriptor {
    /// The statement that creates the table: the schema, unchanged.
    pub fn migrate_sql(&self) -> (r: &str)
        ensures
            r@ == self.schema@,
    {
        self.schema.as_str()
    }

    /// Selects every row.
    pub fn all_sql(&self) -> (r: String)
        ensures
            r@ == "SELECT * FROM "@ + self.name@,
    {
        proof { reveal_strlit("SELECT * FROM "); }
        String::from_str("SELECT * FROM ").concat(self.name.as_str())
    }

    /// Counts every row.
    pub fn count_sql(&self) -> (r: String)
        ensures
            r@ == "SELECT COUNT(*) FROM "@ + self.name@,
    {
        proof { reveal_strlit("SELECT COUNT(*) FROM "); }
        String::from_str("SELECT COUNT(*) FROM ").concat(self.name.as_str())
    }

    /// Deletes every row of the table.
    pub fn delete_sql(&self) -> (r: String)
        ensures
            r@ == "DELETE FROM "@ + self.name@,
    {
        proof { reveal_strlit("DELETE FROM "); }
        String::from_str("DELETE FROM ").concat(self.name.as_str())
    }
    /// Selects the rows that the arguments match. A join key
    /// `a__b__c` joins table `b` on `b.a` = this table's primary key and
    /// tests `b.c`; the predicates are combined by the operator.
    pub fn filter_statement(&self, dialect: Dialect, kw: Kwargs) -> (r: Result<Statement, BuildError>)
        ensures
            kw.args@.len() == 0 ==> r == Err::<Statement, BuildError>(BuildError::EmptyArguments),
            kw.args@.len() > 0 ==> (r matches Ok(s) && s.sql@ == filter_sql(
                self.name@,
                self.primary_key@,
                dialect,
                kw.operator,
                kw.args@,
            ) && s.params@ == values_of(kw.args@)),
    {
        proof {
            reveal_strlit(".");
            reveal_strlit(" = ");
            reveal_strlit(" INNER JOIN ");
            reveal_strlit(" ON ");
            reveal_strlit("SELECT ");
            reveal_strlit(".* FROM ");
            reveal_strlit(" WHERE ");
            reveal_strlit("SELECT * FROM ");
        }
        let Kwargs { operator, args } = kw;
        let n = args.len();
        if n == 0 {
            return Err(BuildError::EmptyArguments);
        }
        let ghost name = self.name@;
        let ghost pk = self.primary_key@;
        let ghost preds = predicates(dialect, args@);
        let sep = operator.get();
        let mut where_text = String::new();
        let mut joins = String::new();
        let mut found = false;
        let mut i: usize = 0;
        proof {
            assert(where_text@ =~= Seq::<char>::empty());
            assert(args@.take(0) =~= Seq::<Arg>::empty());
            assert(joins@ =~= join_clauses(name, pk, args@.take(0)));
        }
        while i < n
            invariant
                n == args@.len(),
                i <= n,
                preds == predicates(dialect, args@),
                name == self.name@,
                pk == self.primary_key@,
                sep@ == connector(operator),
                i == 0 ==> where_text@ == Seq::<char>::empty(),
                i > 0 ==> where_text@ == join(preds.take(i as int), sep@),
                joins@ == join_clauses(name, pk, args@.take(i as int)),
                found == has_join(args@.take(i as int)),
            decreases n - i,
        {
            let key = args[i].key.as_str();
            let parts = split_on_marker(key);
            let ph = dialect.placeholder(i + 1);
            let ghost old_joins = joins@;
            let mut pred: String;
            if parts.len() == 3 {
                proof {
                    assert(parts@.map_values(|p: String| p@)[0] == parts@[0]@);
                    assert(parts@.map_values(|p: String| p@)[1] == parts@[1]@);
                    assert(parts@.map_values(|p: String| p@)[2] == parts@[2]@);
                }
                pred = parts[1].clone();
                pred.append(".");
                pred.append(parts[2].as_str());
                pred.append(" = ");
                pred.append(ph.as_str());
                joins.append(" INNER JOIN ");
                joins.append(parts[1].as_str());
                joins.append(" ON ");
                joins.append(self.name.as_str());
                joins.append(".");
                joins.append(self.primary_key.as_str());
                joins.append(" = ");
                joins.append(parts[1].as_str());
                joins.append(".");
                joins.append(parts[0].as_str());
                found = true;
                proof {
                    assert(pred@ =~= predicate(key@, ph@));
                    assert(joins@ =~= old_joins + join_clause(name, pk, key@));
                }
            } else {
                pred = String::from_str(key);
                pred.append(" = ");
                pred.append(ph.as_str());
                proof {
                    assert(pred@ =~= predicate(key@, ph@));
                    assert(joins@ =~= old_joins + join_clause(name, pk, key@));
                }
            }
            append_part(&mut where_text, i, sep, pred.as_str());
            proof {
                assert(pred@ == preds[i as int]);
                if i == 0 {
                    assert(where_text@ =~= pred@);
                }
                lemma_join_step(preds, sep@, i as int);
                let t = args@.take(i + 1);
                assert(t.drop_last() =~= args@.take(i as int));
                assert(t.last() == args@[i as int]);
                if has_join(t) {
                    let j = choose|j: int| 0 <= j < t.len() && is_join_key(#[trigger] t[j].key@);
                    if j < i {
                        assert(args@.take(i as int)[j] == t[j]);
                    }
                }
                if has_join(args@.take(i as int)) {
                    let j = choose|j: int|
                        0 <= j < i && is_join_key(#[trigger] args@.take(i as int)[j].key@);
                    assert(t[j] == args@.take(i as int)[j]);
                }
                if is_join_key(key@) {
                    assert(is_join_key(t[i as int].key@));
                }
            }
            i = i + 1;
        }
        proof {
            assert(args@.take(n as int) =~= args@);
            assert(preds.take(n as int) =~= preds);
        }
        let mut sql: String;
        if found {
            sql = String::from_str("SELECT ");
            sql.append(self.name.as_str());
            sql.append(".* FROM ");
            sql.append(self.name.as_str());
            sql.append(joins.as_str());
        } else {
            sql = String::from_str("SELECT * FROM ");
            sql.append(self.name.as_str());
        }
        sql.append(" WHERE ");
        sql.append(where_text.as_str());
        proof {
            assert(sql@ =~= filter_sql(name, pk, dialect, operator, args@));
        }
        let params = take_values(args);
        Ok(Statement { sql, params })
    }
    /// Inserts one row whose columns are the argument keys, in order.
    pub fn create_statement(&self, dialect: Dialect, kw: Kwargs) -> (r: Statement)
        ensures
            r.sql@ == insert_sql(self.name@, dialect, kw.args@),
            r.params@ == values_of(kw.args@),
    {
        proof {
            reveal_strlit(", ");
            reveal_strlit("INSERT INTO ");
            reveal_strlit(" (");
            reveal_strlit(") VALUES (");
            reveal_strlit(")");
        }
        let Kwargs { operator: _, args } = kw;
        let n = args.len();
        let ghost cols = columns(args@);
        let ghost phs = markers(dialect, n as nat);
        let mut fields = String::new();
        let mut holders = String::new();
        let mut i: usize = 0;
        proof {
            assert(fields@ =~= Seq::<char>::empty());
            assert(holders@ =~= Seq::<char>::empty());
        }
        while i < n
            invariant
                n == args@.len(),
                i <= n,
                cols == columns(args@),
                phs == markers(dialect, n as nat),
                i == 0 ==> fields@ == Seq::<char>::empty() && holders@ == Seq::<char>::empty(),
                i > 0 ==> fields@ == join(cols.take(i as int), ", "@),
                i > 0 ==> holders@ == join(phs.take(i as int), ", "@),
            decreases n - i,
        {
            let ph = dialect.placeholder(i + 1);
            append_part(&mut fields, i, ", ", args[i].key.as_str());
            append_part(&mut holders, i, ", ", ph.as_str());
            proof {
                lemma_join_step(cols, ", "@, i as int);
                lemma_join_step(phs, ", "@, i as int);
                if i == 0 {
                    assert(fields@ =~= cols[0]);
                    assert(holders@ =~= phs[0]);
                }
            }
            i = i + 1;
        }
        proof {
            assert(cols.take(n as int) =~= cols);
            assert(phs.take(n as int) =~= phs);
            if n == 0 {
                assert(join(cols, ", "@) == Seq::<char>::empty());
                assert(join(phs, ", "@) == Seq::<char>::empty());
            }
        }
        let mut sql = String::from_str("INSERT INTO ");
        sql.append(self.name.as_str());
        sql.append(" (");
        sql.append(fields.as_str());
        sql.append(") VALUES (");
        sql.append(holders.as_str());
        sql.append(")");
        proof {
            assert(sql@ =~= insert_sql(self.name@, dialect, args@));
        }
        let params = take_values(args);
        Statement { sql, params }
    }

    /// Updates the row whose primary key is `id`: one assignment per
    /// argument, whatever the operator; `id` is bound last.
    pub fn set_statement(&self, dialect: Dialect, id: Value, kw: Kwargs) -> (r: Result<Statement, BuildError>)
        requires
            kw.args@.len() < usize::MAX,
        ensures
            kw.args@.len() == 0 ==> r == Err::<Statement, BuildError>(BuildError::EmptyArguments),
            kw.args@.len() > 0 ==> (r matches Ok(s) && s.sql@ == update_sql(
                self.name@,
                self.primary_key@,
                dialect,
                kw.args@,
            ) && s.params@ == values_of(kw.args@).push(id)),
    {
        proof {
            reveal_strlit(", ");
            reveal_strlit(" = ");
            reveal_strlit("UPDATE ");
            reveal_strlit(" SET ");
            reveal_strlit(" WHERE ");
        }
        let Kwargs { operator: _, args } = kw;
        let n = args.len();
        if n == 0 {
            return Err(BuildError::EmptyArguments);
        }
        let ghost sets = assignments(dialect, args@);
        let mut fields = String::new();
        let mut i: usize = 0;
        proof {
            assert(fields@ =~= Seq::<char>::empty());
        }
        while i < n
            invariant
                n == args@.len(),
                i <= n,
                sets == assignments(dialect, args@),
                i == 0 ==> fields@ == Seq::<char>::empty(),
                i > 0 ==> fields@ == join(sets.take(i as int), ", "@),
            decreases n - i,
        {
            let ph = dialect.placeholder(i + 1);
            let mut one = String::from_str(args[i].key.as_str());
            one.append(" = ");
            one.append(ph.as_str());
            append_part(&mut fields, i, ", ", one.as_str());
            proof {
                assert(one@ =~= sets[i as int]);
                lemma_join_step(sets, ", "@, i as int);
                if i == 0 {
                    assert(fields@ =~= sets[0]);
                }
            }
            i = i + 1;
        }
        proof {
            assert(sets.take(n as int) =~= sets);
        }
        let last = dialect.placeholder(n + 1);
        let mut sql = String::from_str("UPDATE ");
        sql.append(self.name.as_str());
        sql.append(" SET ");
        sql.append(fields.as_str());
        sql.append(" WHERE ");
        sql.append(self.primary_key.as_str());
        sql.append(" = ");
        sql.append(last.as_str());
        proof {
            assert(sql@ =~= update_sql(self.name@, self.primary_key@, dialect, args@));
        }
        let mut params = take_values(args);
        params.push(id);
        Ok(Statement { sql, params })
    }
}

} // verus!
