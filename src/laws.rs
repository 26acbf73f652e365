//! Properties of the built statements that hold for every input.
use vstd::prelude::*;
use crate::model::{Arg, Dialect, Operator, connector, marker};
use crate::sql::{
    columns, filter_sql, has_join, is_join_key, join_clause, join_clauses, predicate, predicates,
    values_of,
};
use crate::text::{join, split_marker};

verus! {

/// Each part preceded by the separator, concatenated.
pub open spec fn prefixed(p: Seq<Seq<char>>, sep: Seq<char>) -> Seq<char>
    decreases p.len(),
{
    if p.len() == 0 {
        Seq::empty()
    } else {
        sep + p[0] + prefixed(p.drop_first(), sep)
    }
}

proof fn lemma_prefixed_push(p: Seq<Seq<char>>, sep: Seq<char>, x: Seq<char>)
    ensures
        prefixed(p.push(x), sep) == prefixed(p, sep) + sep + x,
    decreases p.len(),
{
    if p.len() == 0 {
        assert(p.push(x).drop_first() =~= Seq::<Seq<char>>::empty());
        assert(p.push(x)[0] == x);
        assert(prefixed(Seq::<Seq<char>>::empty(), sep) == Seq::<char>::empty());
        assert(prefixed(p.push(x), sep) =~= sep + x);
    } else {
        assert(p.push(x).drop_first() =~= p.drop_first().push(x));
        lemma_prefixed_push(p.drop_first(), sep, x);
        assert(prefixed(p.push(x), sep) =~= prefixed(p, sep) + sep + x);
    }
}

/// A non-empty join is the first part followed by every other part, each
/// preceded by the separator: n parts hold n - 1 separators between them.
pub proof fn lemma_join_is_first_then_prefixed(p: Seq<Seq<char>>, sep: Seq<char>)
    requires
        p.len() >= 1,
    ensures
        join(p, sep) == p[0] + prefixed(p.drop_first(), sep),
    decreases p.len(),
{
    if p.len() == 1 {
        assert(p.drop_first() =~= Seq::<Seq<char>>::empty());
        assert(p[0] + prefixed(p.drop_first(), sep) =~= p[0]);
    } else {
        let q = p.drop_last();
        lemma_join_is_first_then_prefixed(q, sep);
        assert(p.drop_first() =~= q.drop_first().push(p.last()));
        lemma_prefixed_push(q.drop_first(), sep, p.last());
        assert(join(p, sep) =~= p[0] + prefixed(p.drop_first(), sep));
    }
}

/// With the operator `And`, the condition of a filter on n arguments is the
/// n predicates in argument order, the first alone and each later one after
/// ` and `.
pub proof fn and_filter_joins_predicates(
    name: Seq<char>,
    pk: Seq<char>,
    d: Dialect,
    args: Seq<Arg>,
)
    requires
        args.len() >= 1,
    ensures
        ({
            let p = predicates(d, args);
            let w = p[0] + prefixed(p.drop_first(), " and "@);
            &&& p.len() == args.len()
            &&& forall|i: int| 0 <= i < args.len()
                ==> #[trigger] p[i] == predicate(args[i].key@, marker(d, (i + 1) as nat))
            &&& filter_sql(name, pk, d, Operator::And, args) == if has_join(args) {
                "SELECT "@ + name + ".* FROM "@ + name + join_clauses(name, pk, args)
                    + " WHERE "@ + w
            } else {
                "SELECT * FROM "@ + name + " WHERE "@ + w
            }
        }),
{
    let p = predicates(d, args);
    assert(connector(Operator::And) == " and "@);
    lemma_join_is_first_then_prefixed(p, " and "@);
}

proof fn lemma_join_clauses_append(name: Seq<char>, pk: Seq<char>, a: Seq<Arg>, b: Seq<Arg>)
    ensures
        join_clauses(name, pk, a + b) == join_clauses(name, pk, a) + join_clauses(name, pk, b),
    decreases b.len(),
{
    if b.len() == 0 {
        assert(a + b =~= a);
        assert(join_clauses(name, pk, a) + join_clauses(name, pk, b) =~= join_clauses(name, pk, a));
    } else {
        assert((a + b).drop_last() =~= a + b.drop_last());
        lemma_join_clauses_append(name, pk, a, b.drop_last());
        assert(join_clauses(name, pk, a + b) =~= join_clauses(name, pk, a) + join_clauses(name, pk, b));
    }
}

/// An argument with the join key `a__b__c` brings exactly one join,
/// ` INNER JOIN b ON <table>.<pk> = b.a`, at its own place among the joins,
/// and its predicate is `b.c = <placeholder>`; the select then reads the
/// table's columns only.
pub proof fn join_key_brings_one_join(
    name: Seq<char>,
    pk: Seq<char>,
    d: Dialect,
    op: Operator,
    args: Seq<Arg>,
    i: int,
    a: Seq<char>,
    b: Seq<char>,
    c: Seq<char>,
)
    requires
        0 <= i < args.len(),
        split_marker(args[i].key@) == seq![a, b, c],
    ensures
        predicates(d, args)[i] == b + "."@ + c + " = "@ + marker(d, (i + 1) as nat),
        join_clause(name, pk, args[i].key@)
            == " INNER JOIN "@ + b + " ON "@ + name + "."@ + pk + " = "@ + b + "."@ + a,
        join_clauses(name, pk, args) == join_clauses(name, pk, args.take(i))
            + join_clause(name, pk, args[i].key@) + join_clauses(name, pk, args.skip(i + 1)),
        has_join(args),
        filter_sql(name, pk, d, op, args) == "SELECT "@ + name + ".* FROM "@ + name
            + join_clauses(name, pk, args) + " WHERE "@ + join(predicates(d, args), connector(op)),
{
    assert(is_join_key(args[i].key@));
    assert(args =~= args.take(i) + (seq![args[i]] + args.skip(i + 1)));
    lemma_join_clauses_append(name, pk, args.take(i), seq![args[i]] + args.skip(i + 1));
    lemma_join_clauses_append(name, pk, seq![args[i]], args.skip(i + 1));
    assert(seq![args[i]].drop_last() =~= Seq::<Arg>::empty());
    assert(seq![args[i]].last() == args[i]);
    assert(join_clauses(name, pk, Seq::<Arg>::empty()) == Seq::<char>::empty());
    assert(join_clauses(name, pk, seq![args[i]]) =~= join_clause(name, pk, args[i].key@));
    assert(join_clauses(name, pk, args) =~= join_clauses(name, pk, args.take(i))
        + join_clause(name, pk, args[i].key@) + join_clauses(name, pk, args.skip(i + 1)));
}

/// A lookup by one plain column of an insert, with the value inserted there,
/// selects on that column alone and binds exactly that value: the insert
/// names the column at the same place as it holds the value.
pub proof fn lookup_by_inserted_column(
    name: Seq<char>,
    pk: Seq<char>,
    d: Dialect,
    args: Seq<Arg>,
    j: int,
    probe: Arg,
)
    requires
        0 <= j < args.len(),
        probe.key@ == args[j].key@,
        probe.value == args[j].value,
        !is_join_key(probe.key@),
    ensures
        columns(args)[j] == probe.key@,
        values_of(args)[j] == probe.value,
        filter_sql(name, pk, d, Operator::And, seq![probe])
            == "SELECT * FROM "@ + name + " WHERE "@ + probe.key@ + " = "@ + marker(d, 1),
        values_of(seq![probe]) == seq![args[j].value],
{
    let one = seq![probe];
    assert(!has_join(one)) by {
        if has_join(one) {
            let i = choose|i: int| 0 <= i < one.len() && is_join_key(#[trigger] one[i].key@);
            assert(one[i] == probe);
        }
    }
    assert(predicates(d, one).len() == 1);
    assert(values_of(one) =~= seq![args[j].value]);
}

} // verus!
