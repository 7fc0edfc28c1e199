//! The query builder and its rendering into one statement.
use vstd::prelude::*;
use vstd::string::*;
use crate::text::{decimal, join, join_strings, push_decimal, texts};

verus! {

/// The parts of one `SELECT` statement, held as plain values until rendered.
#[derive(Default)]
pub struct SqlQuery {
    pub columns: Vec<String>,
    pub table_name: String,
    pub conditions: Vec<String>,
    pub order_by: Vec<String>,
    pub limit: Option<usize>,
}

/// The one-element sequence for a present portion, the empty one for an absent portion.
pub open spec fn present(o: Option<Seq<char>>) -> Seq<Seq<char>> {
    match o {
        Some(x) => seq![x],
        None => Seq::empty(),
    }
}

impl SqlQuery {
    /// `SELECT <columns joined by ", "> FROM <table>`.
    pub open spec fn select_text(&self) -> Seq<char> {
        "SELECT "@ + join(texts(self.columns@), ", "@) + " FROM "@ + self.table_name@
    }

    /// `WHERE <conditions joined by " AND ">`, absent when there are no conditions.
    pub open spec fn conditions_text(&self) -> Option<Seq<char>> {
        if self.conditions@.len() == 0 {
            None
        } else {
            Some("WHERE "@ + join(texts(self.conditions@), " AND "@))
        }
    }

    /// `ORDER BY <keys joined by ", ">`, absent when there are no ordering keys.
    pub open spec fn order_by_text(&self) -> Option<Seq<char>> {
        if self.order_by@.len() == 0 {
            None
        } else {
            Some("ORDER BY "@ + join(texts(self.order_by@), ", "@))
        }
    }

    /// `LIMIT <n>` in decimal, absent when no limit is set.
    pub open spec fn limit_text(&self) -> Option<Seq<char>> {
        match self.limit {
            Some(n) => Some("LIMIT "@ + decimal(n as nat)),
            None => None,
        }
    }

    /// The portions that are present, in the fixed order SELECT, WHERE, ORDER BY, LIMIT.
    pub open spec fn portions(&self) -> Seq<Seq<char>> {
        seq![self.select_text()] + present(self.conditions_text()) + present(self.order_by_text())
            + present(self.limit_text())
    }

    /// The statement: the present portions joined by single spaces, then `;`.
    pub open spec fn query_text(&self) -> Seq<char> {
        join(self.portions(), " "@) + ";"@
    }

    /// Renders the whole statement.
    pub fn get_query(&self) -> (r: String)
        ensures
            r@ == self.query_text(),
    {
        let mut res: Vec<String> = Vec::new();
        res.push(self.get_select_portion());
        let ghost mut expected: Seq<Seq<char>> = seq![self.select_text()];
        assert(texts(res@) =~= expected);
        match self.get_conditions_portion() {
            Some(s) => {
                res.push(s);
            },
            None => {},
        }
        proof {
            expected = expected + present(self.conditions_text());
            assert(texts(res@) =~= expected);
        }
        match self.get_order_by_portion() {
            Some(s) => {
                res.push(s);
            },
            None => {},
        }
        proof {
            expected = expected + present(self.order_by_text());
            assert(texts(res@) =~= expected);
        }
        match self.get_limit_portion() {
            Some(s) => {
                res.push(s);
            },
            None => {},
        }
        proof {
            expected = expected + present(self.limit_text());
            assert(texts(res@) =~= expected);
            assert(expected =~= self.portions());
        }
        let mut out = join_strings(&res, " ");
        out.append(";");
        out
    }

    /// Renders the mandatory SELECT portion.
    pub fn get_select_portion(&self) -> (r: String)
        ensures
            r@ == self.select_text(),
    {
        let mut out = String::new();
        out.append("SELECT ");
        let joined = join_strings(&self.columns, ", ");
        out.append(joined.as_str());
        out.append(" FROM ");
        out.append(self.table_name.as_str());
        out
    }

    /// Renders the WHERE portion, or `None` when there are no conditions.
    pub fn get_conditions_portion(&self) -> (r: Option<String>)
        ensures
            r matches Some(s) ==> self.conditions_text() == Some(s@),
            r is None <==> self.conditions_text() is None,
    {
        if self.conditions.len() == 0 {
            return None;
        }
        let mut out = String::new();
        out.append("WHERE ");
        let joined = join_strings(&self.conditions, " AND ");
        out.append(joined.as_str());
        Some(out)
    }

    /// Renders the ORDER BY portion, or `None` when there are no ordering keys.
    pub fn get_order_by_portion(&self) -> (r: Option<String>)
        ensures
            r matches Some(s) ==> self.order_by_text() == Some(s@),
            r is None <==> self.order_by_text() is None,
    {
        if self.order_by.len() == 0 {
            return None;
        }
        let mut out = String::new();
        out.append("ORDER BY ");
        let joined = join_strings(&self.order_by, ", ");
        out.append(joined.as_str());
        Some(out)
    }

    /// Renders the LIMIT portion, or `None` when no limit is set.
    pub fn get_limit_portion(&self) -> (r: Option<String>)
        ensures
            r matches Some(s) ==> self.limit_text() == Some(s@),
            r is None <==> self.limit_text() is None,
    {
        match self.limit {
            Some(n) => {
                let mut out = String::new();
                out.append("LIMIT ");
                push_decimal(&mut out, n);
                Some(out)
            },
            None => None,
        }
    }
}

} // verus!
