//! Laws of rendering, stated over the model of `SqlQuery` and proved.
use vstd::prelude::*;
use crate::query::{present, SqlQuery};
use crate::text::{
    decimal, head_ok, is_digit, join, lemma_clear_append_char, lemma_clear_prepend_char,
    lemma_concat_clear, lemma_decimal_digits, lemma_head_ok_extend, lemma_join_clear,
    lemma_join_push, lemma_missing_char, lemma_sole_occurrence, lemma_tail_ok_extend, none_hold,
    occurs_at, occurs_in, tail_ok, texts,
};

verus! {

/// A present portion preceded by the single space that separates it; nothing when absent.
pub open spec fn spaced(o: Option<Seq<char>>) -> Seq<char> {
    match o {
        Some(x) => " "@ + x,
        None => Seq::empty(),
    }
}

proof fn lemma_join_present(parts: Seq<Seq<char>>, o: Option<Seq<char>>)
    requires
        parts.len() > 0,
    ensures
        join(parts + present(o), " "@) == join(parts, " "@) + spaced(o),
{
    match o {
        Some(x) => {
            assert(parts + present(o) =~= parts.push(x));
            lemma_join_push(parts, " "@, x);
            assert(join(parts, " "@) + " "@ + x =~= join(parts, " "@) + spaced(o));
        },
        None => {
            assert(parts + present(o) =~= parts);
            assert(join(parts, " "@) + spaced(o) =~= join(parts, " "@));
        },
    }
}

/// The statement is the SELECT portion, then each present optional portion after one
/// space, always in the order WHERE, ORDER BY, LIMIT, then a single `;`.
pub proof fn lemma_layout(q: SqlQuery)
    ensures
        q.query_text() == q.select_text() + spaced(q.conditions_text()) + spaced(q.order_by_text())
            + spaced(q.limit_text()) + ";"@,
{
    let p0 = seq![q.select_text()];
    let p1 = p0 + present(q.conditions_text());
    let p2 = p1 + present(q.order_by_text());
    lemma_join_present(p0, q.conditions_text());
    lemma_join_present(p1, q.order_by_text());
    lemma_join_present(p2, q.limit_text());
    assert(p2 + present(q.limit_text()) == q.portions());
    assert(join(p0, " "@) == q.select_text());
    assert((q.select_text() + spaced(q.conditions_text()) + spaced(q.order_by_text())
        + spaced(q.limit_text())) + ";"@ =~= q.select_text() + spaced(q.conditions_text())
        + spaced(q.order_by_text()) + spaced(q.limit_text()) + ";"@);
}

/// The statement opens with `SELECT `, the columns joined by `, `, ` FROM ` and the table.
pub proof fn lemma_select_first(q: SqlQuery)
    ensures
        q.query_text().subrange(0, q.select_text().len() as int) == "SELECT "@ + join(
            texts(q.columns@),
            ", "@,
        ) + " FROM "@ + q.table_name@,
{
    lemma_layout(q);
    let rest = spaced(q.conditions_text()) + spaced(q.order_by_text()) + spaced(q.limit_text())
        + ";"@;
    assert(q.query_text() =~= q.select_text() + rest);
    assert(q.query_text().subrange(0, q.select_text().len() as int) =~= q.select_text());
}

/// Rendering reads nothing but the field values: builders whose fields hold the same
/// text and limit render the same statement, so rendering one builder twice gives the
/// same text.
pub proof fn lemma_same_fields_same_text(a: SqlQuery, b: SqlQuery)
    requires
        texts(a.columns@) == texts(b.columns@),
        a.table_name@ == b.table_name@,
        texts(a.conditions@) == texts(b.conditions@),
        texts(a.order_by@) == texts(b.order_by@),
        a.limit == b.limit,
    ensures
        a.query_text() == b.query_text(),
{
    assert(a.columns@.len() == texts(a.columns@).len());
    assert(b.columns@.len() == texts(b.columns@).len());
    assert(a.conditions@.len() == texts(a.conditions@).len());
    assert(b.conditions@.len() == texts(b.conditions@).len());
    assert(a.order_by@.len() == texts(a.order_by@).len());
    assert(b.order_by@.len() == texts(b.order_by@).len());
    assert(a.portions() =~= b.portions());
}

/// Facts on the fixed text of a statement that keep every seam safe for the keyword `w`.
spec fn frame_ok(w: Seq<char>) -> bool {
    &&& w.len() > 0
    &&& w[0] != ' '
    &&& forall|k: int| 0 <= k < w.len() ==> !is_digit(#[trigger] w[k])
    &&& !occurs_in("SELECT "@, w)
    &&& !occurs_in(", "@, w)
    &&& !occurs_in(" FROM "@, w)
    &&& !occurs_in(" AND "@, w)
    &&& !occurs_in(" "@, w)
    &&& tail_ok(w, "SELECT "@)
    &&& tail_ok(w, ", "@)
    &&& tail_ok(w, " FROM "@)
    &&& tail_ok(w, " AND "@)
    &&& tail_ok(w, "WHERE "@)
    &&& tail_ok(w, "ORDER BY "@)
    &&& tail_ok(w, "LIMIT "@)
    &&& head_ok(w, ", "@)
    &&& head_ok(w, " FROM "@)
    &&& head_ok(w, " AND "@)
    &&& head_ok(w, ";"@)
    &&& head_ok(w, "WHERE "@)
    &&& head_ok(w, "ORDER BY "@)
    &&& head_ok(w, "LIMIT "@)
    &&& head_ok(w, " "@ + "WHERE "@)
    &&& head_ok(w, " "@ + "ORDER BY "@)
    &&& head_ok(w, " "@ + "LIMIT "@)
}

proof fn lemma_joined_clear(v: Seq<String>, sep: Seq<char>, w: Seq<char>)
    requires
        w.len() > 0,
        none_hold(v, w),
        !occurs_in(sep, w),
        head_ok(w, sep),
        tail_ok(w, sep),
    ensures
        !occurs_in(join(texts(v), sep), w),
{
    assert forall|k: int| 0 <= k < texts(v).len() implies !occurs_in(#[trigger] texts(v)[k], w) by {
        assert(texts(v)[k] == v[k]@);
    }
    lemma_join_clear(texts(v), sep, w);
}

proof fn lemma_select_clear(q: SqlQuery, w: Seq<char>)
    requires
        frame_ok(w),
        none_hold(q.columns@, w),
        !occurs_in(q.table_name@, w),
    ensures
        !occurs_in(q.select_text(), w),
{
    let j = join(texts(q.columns@), ", "@);
    lemma_joined_clear(q.columns@, ", "@, w);
    lemma_concat_clear("SELECT "@, j, w);
    lemma_concat_clear("SELECT "@ + j, " FROM "@, w);
    lemma_tail_ok_extend(w, "SELECT "@ + j, " FROM "@);
    lemma_concat_clear("SELECT "@ + j + " FROM "@, q.table_name@, w);
}

/// `spaced` of a portion made of `lit` and `rest` is free of `w` and starts safely.
proof fn lemma_spaced_clear(lit: Seq<char>, rest: Seq<char>, w: Seq<char>)
    requires
        frame_ok(w),
        !occurs_in(lit, w),
        !occurs_in(rest, w),
        tail_ok(w, lit),
        head_ok(w, lit),
        head_ok(w, " "@ + lit),
    ensures
        !occurs_in(spaced(Some(lit + rest)), w),
        head_ok(w, spaced(Some(lit + rest))),
{
    lemma_concat_clear(lit, rest, w);
    lemma_head_ok_extend(w, lit, rest);
    lemma_concat_clear(" "@, lit + rest, w);
    lemma_head_ok_extend(w, " "@ + lit, rest);
    assert(" "@ + lit + rest =~= " "@ + (lit + rest));
}

proof fn lemma_conditions_clear(q: SqlQuery, w: Seq<char>)
    requires
        frame_ok(w),
        none_hold(q.conditions@, w),
        q.conditions@.len() > 0 ==> !occurs_in("WHERE "@, w),
    ensures
        !occurs_in(spaced(q.conditions_text()), w),
        q.conditions@.len() > 0 ==> head_ok(w, spaced(q.conditions_text())),
{
    if q.conditions@.len() > 0 {
        lemma_joined_clear(q.conditions@, " AND "@, w);
        lemma_spaced_clear("WHERE "@, join(texts(q.conditions@), " AND "@), w);
    } else {
        assert(!occurs_at(Seq::<char>::empty(), w, 0));
    }
}

proof fn lemma_order_by_clear(q: SqlQuery, w: Seq<char>)
    requires
        frame_ok(w),
        none_hold(q.order_by@, w),
        q.order_by@.len() > 0 ==> !occurs_in("ORDER BY "@, w),
    ensures
        !occurs_in(spaced(q.order_by_text()), w),
        q.order_by@.len() > 0 ==> head_ok(w, spaced(q.order_by_text())),
{
    if q.order_by@.len() > 0 {
        lemma_joined_clear(q.order_by@, ", "@, w);
        lemma_spaced_clear("ORDER BY "@, join(texts(q.order_by@), ", "@), w);
    } else {
        assert(!occurs_at(Seq::<char>::empty(), w, 0));
    }
}

proof fn lemma_decimal_clear(n: nat, w: Seq<char>)
    requires
        frame_ok(w),
    ensures
        !occurs_in(decimal(n), w),
{
    lemma_decimal_digits(n);
    assert(!is_digit(w[0]));
    lemma_missing_char(decimal(n), w, 0);
}

proof fn lemma_limit_clear(q: SqlQuery, w: Seq<char>)
    requires
        frame_ok(w),
        q.limit is Some ==> !occurs_in("LIMIT "@, w),
    ensures
        !occurs_in(spaced(q.limit_text()), w),
        q.limit is Some ==> head_ok(w, spaced(q.limit_text())),
{
    match q.limit {
        Some(n) => {
            lemma_decimal_clear(n as nat, w);
            lemma_spaced_clear("LIMIT "@, decimal(n as nat), w);
        },
        None => {
            assert(!occurs_at(Seq::<char>::empty(), w, 0));
        },
    }
}

proof fn lemma_fixed_literals()
    ensures
        "SELECT "@ =~= seq!['S', 'E', 'L', 'E', 'C', 'T', ' '],
        ", "@ =~= seq![',', ' '],
        " FROM "@ =~= seq![' ', 'F', 'R', 'O', 'M', ' '],
        " AND "@ =~= seq![' ', 'A', 'N', 'D', ' '],
        " "@ =~= seq![' '],
        ";"@ =~= seq![';'],
        "WHERE "@ =~= seq!['W', 'H', 'E', 'R', 'E', ' '],
        "ORDER BY "@ =~= seq!['O', 'R', 'D', 'E', 'R', ' ', 'B', 'Y', ' '],
        "LIMIT "@ =~= seq!['L', 'I', 'M', 'I', 'T', ' '],
{
    reveal_strlit("SELECT ");
    reveal_strlit(", ");
    reveal_strlit(" FROM ");
    reveal_strlit(" AND ");
    reveal_strlit(" ");
    reveal_strlit(";");
    reveal_strlit("WHERE ");
    reveal_strlit("ORDER BY ");
    reveal_strlit("LIMIT ");
}

proof fn lemma_where_frame()
    ensures
        frame_ok("WHERE"@),
{
    reveal_strlit("WHERE");
    lemma_fixed_literals();
    let w = "WHERE"@;
    assert(w =~= seq!['W', 'H', 'E', 'R', 'E']);
    lemma_missing_char("SELECT "@, w, 0);
    lemma_missing_char(", "@, w, 0);
    lemma_missing_char(" FROM "@, w, 0);
    lemma_missing_char(" AND "@, w, 0);
    lemma_missing_char(" "@, w, 0);
}

proof fn lemma_order_by_frame()
    ensures
        frame_ok("ORDER BY"@),
{
    reveal_strlit("ORDER BY");
    lemma_fixed_literals();
    let w = "ORDER BY"@;
    assert(w =~= seq!['O', 'R', 'D', 'E', 'R', ' ', 'B', 'Y']);
    lemma_missing_char("SELECT "@, w, 0);
    lemma_missing_char(", "@, w, 0);
    lemma_missing_char(" FROM "@, w, 6);
    lemma_missing_char(" AND "@, w, 0);
    lemma_missing_char(" "@, w, 0);
}

proof fn lemma_limit_frame()
    ensures
        frame_ok("LIMIT"@),
{
    reveal_strlit("LIMIT");
    lemma_fixed_literals();
    let w = "LIMIT"@;
    assert(w =~= seq!['L', 'I', 'M', 'I', 'T']);
    lemma_missing_char("SELECT "@, w, 1);
    lemma_missing_char(", "@, w, 0);
    lemma_missing_char(" FROM "@, w, 1);
    lemma_missing_char(" AND "@, w, 1);
    lemma_missing_char(" "@, w, 0);
}

proof fn lemma_semicolon_frame()
    ensures
        frame_ok(";"@),
        !occurs_in("WHERE "@, ";"@),
        !occurs_in("ORDER BY "@, ";"@),
        !occurs_in("LIMIT "@, ";"@),
{
    lemma_fixed_literals();
    let w = ";"@;
    lemma_missing_char("SELECT "@, w, 0);
    lemma_missing_char(", "@, w, 0);
    lemma_missing_char(" FROM "@, w, 0);
    lemma_missing_char(" AND "@, w, 0);
    lemma_missing_char(" "@, w, 0);
    lemma_missing_char("WHERE "@, w, 0);
    lemma_missing_char("ORDER BY "@, w, 0);
    lemma_missing_char("LIMIT "@, w, 0);
}

/// The statement before its `;` is free of `w` when every part of it is.
proof fn lemma_body_clear(q: SqlQuery, w: Seq<char>)
    requires
        frame_ok(w),
        none_hold(q.columns@, w),
        !occurs_in(q.table_name@, w),
        none_hold(q.conditions@, w),
        none_hold(q.order_by@, w),
        q.conditions@.len() > 0 ==> !occurs_in("WHERE "@, w),
        q.order_by@.len() > 0 ==> !occurs_in("ORDER BY "@, w),
        q.limit is Some ==> !occurs_in("LIMIT "@, w),
    ensures
        !occurs_in(
            q.select_text() + spaced(q.conditions_text()) + spaced(q.order_by_text()) + spaced(
                q.limit_text(),
            ),
            w,
        ),
{
    let s = q.select_text();
    let c = spaced(q.conditions_text());
    let o = spaced(q.order_by_text());
    let l = spaced(q.limit_text());
    lemma_select_clear(q, w);
    lemma_conditions_clear(q, w);
    lemma_order_by_clear(q, w);
    lemma_limit_clear(q, w);
    lemma_concat_clear(s, c, w);
    lemma_concat_clear(s + c, o, w);
    lemma_concat_clear(s + c + o, l, w);
}

/// A lone keyword set off by single spaces is its only occurrence.
proof fn lemma_set_off(pre: Seq<char>, w: Seq<char>, rest: Seq<char>)
    requires
        frame_ok(w),
        !occurs_in(pre, w),
        !occurs_in(rest, w),
        w.last() != ' ',
        head_ok(w, w),
        tail_ok(w, w) || head_ok(w, " "@),
    ensures
        forall|i: int|
            occurs_at(pre + " "@ + w + (" "@ + rest), w, i) <==> i == pre.len() + 1,
{
    lemma_fixed_literals();
    let a = pre + " "@;
    let b = " "@ + rest;
    lemma_clear_append_char(pre, " "@, w);
    lemma_clear_prepend_char(" "@, rest, w);
    lemma_head_ok_extend(w, w, b);
    if tail_ok(w, w) {
        lemma_tail_ok_extend(w, a, w);
    } else {
        lemma_head_ok_extend(w, " "@, rest);
    }
    lemma_sole_occurrence(a, w, b);
}

/// The statement ends with `;`.
pub proof fn lemma_ends_with_semicolon(q: SqlQuery)
    ensures
        q.query_text().len() > 0,
        q.query_text().last() == ';',
{
    lemma_fixed_literals();
}

/// The `;` at the end is the only one in the statement, unless a column, the table name,
/// a condition or an ordering key holds one.
pub proof fn lemma_single_semicolon(q: SqlQuery)
    requires
        none_hold(q.columns@, ";"@),
        !occurs_in(q.table_name@, ";"@),
        none_hold(q.conditions@, ";"@),
        none_hold(q.order_by@, ";"@),
    ensures
        forall|i: int| occurs_at(q.query_text(), ";"@, i) <==> i == q.query_text().len() - 1,
{
    lemma_fixed_literals();
    lemma_semicolon_frame();
    lemma_layout(q);
    lemma_body_clear(q, ";"@);
    let body = q.select_text() + spaced(q.conditions_text()) + spaced(q.order_by_text()) + spaced(
        q.limit_text(),
    );
    assert(!occurs_at(Seq::<char>::empty(), ";"@, 0));
    lemma_sole_occurrence(body, ";"@, Seq::empty());
    assert(body + ";"@ + Seq::<char>::empty() =~= q.query_text());
}

/// Without conditions the statement holds no `WHERE`, unless a column, the table name or
/// an ordering key holds it.
pub proof fn lemma_no_where_without_conditions(q: SqlQuery)
    requires
        q.conditions@.len() == 0,
        none_hold(q.columns@, "WHERE"@),
        !occurs_in(q.table_name@, "WHERE"@),
        none_hold(q.order_by@, "WHERE"@),
    ensures
        !occurs_in(q.query_text(), "WHERE"@),
{
    let w = "WHERE"@;
    lemma_where_frame();
    lemma_fixed_literals();
    reveal_strlit("WHERE");
    lemma_missing_char("ORDER BY "@, w, 0);
    lemma_missing_char("LIMIT "@, w, 0);
    lemma_missing_char(";"@, w, 0);
    lemma_layout(q);
    lemma_body_clear(q, w);
    let body = q.select_text() + spaced(q.conditions_text()) + spaced(q.order_by_text()) + spaced(
        q.limit_text(),
    );
    lemma_concat_clear(body, ";"@, w);
}

/// With conditions the statement holds `WHERE` exactly once, right after the SELECT
/// portion and a space, followed by a space and the conditions joined by ` AND `; unless
/// a column, the table name, a condition or an ordering key holds `WHERE`.
pub proof fn lemma_single_where(q: SqlQuery)
    requires
        q.conditions@.len() > 0,
        none_hold(q.columns@, "WHERE"@),
        !occurs_in(q.table_name@, "WHERE"@),
        none_hold(q.conditions@, "WHERE"@),
        none_hold(q.order_by@, "WHERE"@),
    ensures
        ({
            let p = (q.select_text().len() + 1) as int;
            &&& forall|i: int| occurs_at(q.query_text(), "WHERE"@, i) <==> i == p
            &&& q.query_text().subrange(
                p,
                p + ("WHERE "@ + join(texts(q.conditions@), " AND "@)).len(),
            ) == "WHERE "@ + join(texts(q.conditions@), " AND "@)
        }),
{
    let w = "WHERE"@;
    lemma_where_frame();
    lemma_fixed_literals();
    reveal_strlit("WHERE");
    assert(w =~= seq!['W', 'H', 'E', 'R', 'E']);
    lemma_missing_char("ORDER BY "@, w, 0);
    lemma_missing_char("LIMIT "@, w, 0);
    lemma_missing_char(";"@, w, 0);
    lemma_layout(q);
    let j = join(texts(q.conditions@), " AND "@);
    let o = spaced(q.order_by_text());
    let l = spaced(q.limit_text());
    lemma_select_clear(q, w);
    lemma_joined_clear(q.conditions@, " AND "@, w);
    lemma_order_by_clear(q, w);
    lemma_limit_clear(q, w);
    lemma_concat_clear(j, o, w);
    lemma_concat_clear(j + o, l, w);
    lemma_concat_clear(j + o + l, ";"@, w);
    let rest = j + o + l + ";"@;
    lemma_set_off(q.select_text(), w, rest);
    let s = q.select_text() + " "@ + w + (" "@ + rest);
    assert(q.query_text() =~= s);
    let p = (q.select_text().len() + 1) as int;
    assert(q.query_text().subrange(p, p + ("WHERE "@ + j).len()) =~= "WHERE "@ + j);
}

/// Without ordering keys the statement holds no `ORDER BY`, unless a column, the table
/// name or a condition holds it.
pub proof fn lemma_no_order_by_without_keys(q: SqlQuery)
    requires
        q.order_by@.len() == 0,
        none_hold(q.columns@, "ORDER BY"@),
        !occurs_in(q.table_name@, "ORDER BY"@),
        none_hold(q.conditions@, "ORDER BY"@),
    ensures
        !occurs_in(q.query_text(), "ORDER BY"@),
{
    let w = "ORDER BY"@;
    lemma_order_by_frame();
    lemma_fixed_literals();
    reveal_strlit("ORDER BY");
    lemma_missing_char("WHERE "@, w, 6);
    lemma_missing_char("LIMIT "@, w, 0);
    lemma_missing_char(";"@, w, 0);
    lemma_layout(q);
    lemma_body_clear(q, w);
    let body = q.select_text() + spaced(q.conditions_text()) + spaced(q.order_by_text()) + spaced(
        q.limit_text(),
    );
    lemma_concat_clear(body, ";"@, w);
}

/// With ordering keys the statement holds `ORDER BY` exactly once, after the SELECT and
/// WHERE portions and a space, followed by a space and the keys joined by `, `; unless a
/// column, the table name, a condition or an ordering key holds `ORDER BY`.
pub proof fn lemma_single_order_by(q: SqlQuery)
    requires
        q.order_by@.len() > 0,
        none_hold(q.columns@, "ORDER BY"@),
        !occurs_in(q.table_name@, "ORDER BY"@),
        none_hold(q.conditions@, "ORDER BY"@),
        none_hold(q.order_by@, "ORDER BY"@),
    ensures
        ({
            let p = (q.select_text().len() + spaced(q.conditions_text()).len() + 1) as int;
            &&& forall|i: int| occurs_at(q.query_text(), "ORDER BY"@, i) <==> i == p
            &&& q.query_text().subrange(
                p,
                p + ("ORDER BY "@ + join(texts(q.order_by@), ", "@)).len(),
            ) == "ORDER BY "@ + join(texts(q.order_by@), ", "@)
        }),
{
    let w = "ORDER BY"@;
    lemma_order_by_frame();
    lemma_fixed_literals();
    reveal_strlit("ORDER BY");
    assert(w =~= seq!['O', 'R', 'D', 'E', 'R', ' ', 'B', 'Y']);
    lemma_missing_char("WHERE "@, w, 6);
    lemma_missing_char("LIMIT "@, w, 0);
    lemma_missing_char(";"@, w, 0);
    lemma_layout(q);
    let c = spaced(q.conditions_text());
    let j = join(texts(q.order_by@), ", "@);
    let l = spaced(q.limit_text());
    lemma_select_clear(q, w);
    lemma_conditions_clear(q, w);
    lemma_concat_clear(q.select_text(), c, w);
    lemma_joined_clear(q.order_by@, ", "@, w);
    lemma_limit_clear(q, w);
    lemma_concat_clear(j, l, w);
    lemma_concat_clear(j + l, ";"@, w);
    let pre = q.select_text() + c;
    let rest = j + l + ";"@;
    lemma_set_off(pre, w, rest);
    assert(q.query_text() =~= pre + " "@ + w + (" "@ + rest));
    let p = (pre.len() + 1) as int;
    assert(q.query_text().subrange(p, p + ("ORDER BY "@ + j).len()) =~= "ORDER BY "@ + j);
}

/// Without a limit the statement holds no `LIMIT`, unless a column, the table name, a
/// condition or an ordering key holds it.
pub proof fn lemma_no_limit_when_unset(q: SqlQuery)
    requires
        q.limit is None,
        none_hold(q.columns@, "LIMIT"@),
        !occurs_in(q.table_name@, "LIMIT"@),
        none_hold(q.conditions@, "LIMIT"@),
        none_hold(q.order_by@, "LIMIT"@),
    ensures
        !occurs_in(q.query_text(), "LIMIT"@),
{
    let w = "LIMIT"@;
    lemma_limit_frame();
    lemma_fixed_literals();
    reveal_strlit("LIMIT");
    lemma_missing_char("WHERE "@, w, 1);
    lemma_missing_char("ORDER BY "@, w, 1);
    lemma_missing_char(";"@, w, 0);
    lemma_layout(q);
    lemma_body_clear(q, w);
    let body = q.select_text() + spaced(q.conditions_text()) + spaced(q.order_by_text()) + spaced(
        q.limit_text(),
    );
    lemma_concat_clear(body, ";"@, w);
}

/// With a limit `n` the statement holds `LIMIT` exactly once, and from there it reads
/// `LIMIT `, the decimal text of `n` and `;`; unless a column, the table name, a condition
/// or an ordering key holds `LIMIT`.
pub proof fn lemma_single_limit(q: SqlQuery, n: usize)
    requires
        q.limit == Some(n),
        none_hold(q.columns@, "LIMIT"@),
        !occurs_in(q.table_name@, "LIMIT"@),
        none_hold(q.conditions@, "LIMIT"@),
        none_hold(q.order_by@, "LIMIT"@),
    ensures
        ({
            let p = (q.select_text().len() + spaced(q.conditions_text()).len() + spaced(
                q.order_by_text(),
            ).len() + 1) as int;
            &&& forall|i: int| occurs_at(q.query_text(), "LIMIT"@, i) <==> i == p
            &&& q.query_text().subrange(p, q.query_text().len() as int) == "LIMIT "@ + decimal(
                n as nat,
            ) + ";"@
        }),
{
    let w = "LIMIT"@;
    lemma_limit_frame();
    lemma_fixed_literals();
    reveal_strlit("LIMIT");
    assert(w =~= seq!['L', 'I', 'M', 'I', 'T']);
    lemma_missing_char("WHERE "@, w, 1);
    lemma_missing_char("ORDER BY "@, w, 1);
    lemma_missing_char(";"@, w, 0);
    lemma_layout(q);
    let c = spaced(q.conditions_text());
    let o = spaced(q.order_by_text());
    let d = decimal(n as nat);
    lemma_select_clear(q, w);
    lemma_conditions_clear(q, w);
    lemma_order_by_clear(q, w);
    lemma_concat_clear(q.select_text(), c, w);
    lemma_concat_clear(q.select_text() + c, o, w);
    lemma_decimal_clear(n as nat, w);
    lemma_concat_clear(d, ";"@, w);
    let pre = q.select_text() + c + o;
    let rest = d + ";"@;
    lemma_set_off(pre, w, rest);
    assert(q.query_text() =~= pre + " "@ + w + (" "@ + rest));
    let p = (pre.len() + 1) as int;
    assert(q.query_text().subrange(p, q.query_text().len() as int) =~= "LIMIT "@ + d + ";"@);
}

} // verus!
