//! Searches with optional filters. A search starts from a fixed selection and grows
//! by one clause per filter that the request carries; every value that a filter
//! brings is bound to a placeholder, never written into the text.

use vstd::prelude::*;
use vstd::string::StringExecFns;
use crate::permission::Permission;
use crate::sql::{copies, repeated, Statement, StatementView, Value, ValueView};
use crate::text::join;

verus! {

/// A search under construction: the text so far and the values bound so far.
pub struct Search {
    sql: String,
    params: Vec<Value>,
}

/// The text values of `values`, each as a bound value.
pub open spec fn as_texts(values: Seq<Seq<char>>) -> Seq<ValueView> {
    values.map_values(|t: Seq<char>| ValueView::Text(t))
}

/// The search with one more clause that binds `bound` in order.
pub open spec fn with_clause(s: StatementView, clause: Seq<char>, bound: Seq<ValueView>) -> StatementView {
    StatementView { sql: s.sql + clause, params: s.params + bound }
}

/// The pattern that matches every text around `fragment`.
pub open spec fn around(fragment: Seq<char>) -> Seq<char> {
    "%"@ + fragment + "%"@
}

/// The clause that keeps the rows whose `column` is one of as many values as
/// `count`.
pub open spec fn one_of_clause(column: Seq<char>, count: nat) -> Seq<char> {
    " AND "@ + column + " IN ("@ + join(copies("?"@, count), ", "@) + ")"@
}

impl View for Search {
    type V = StatementView;

    closed spec fn view(&self) -> StatementView {
        StatementView { sql: self.sql@, params: self.params@.map_values(|v: Value| v@) }
    }
}

impl Search {
    /// A search that starts from `selection`, a statement that ends in a condition,
    /// and binds nothing yet.
    pub fn new(selection: &str) -> (r: Search)
        ensures
            r@ == (StatementView { sql: selection@, params: Seq::<ValueView>::empty() }),
    {
        let search = Search { sql: selection.to_owned(), params: Vec::new() };
        assert(search@.params =~= Seq::<ValueView>::empty());
        search
    }

    /// Adds a clause and the one value that it binds.
    fn clause(&mut self, before: &str, column: &str, behind: &str, value: Value)
        ensures
            final(self)@ == with_clause(old(self)@, before@ + column@ + behind@, seq![value@]),
    {
        self.sql.append(before);
        self.sql.append(column);
        self.sql.append(behind);
        self.params.push(value);
        proof {
            let want = with_clause(old(self)@, before@ + column@ + behind@, seq![value@]);
            assert(self@.sql =~= want.sql);
            assert(self@.params =~= want.params);
        }
    }

    /// Keeps the rows whose `column` holds `fragment` somewhere.
    pub fn and_like(&mut self, column: &str, fragment: &str)
        ensures
            final(self)@ == with_clause(
                old(self)@,
                " AND "@ + column@ + " LIKE ?"@,
                seq![ValueView::Text(around(fragment@))],
            ),
    {
        let mut pattern = String::from_str("%");
        pattern.append(fragment);
        pattern.append("%");
        self.clause(" AND ", column, " LIKE ?", Value::Text(pattern));
    }

    /// Keeps the rows whose `column` is `value`.
    pub fn and_equals(&mut self, column: &str, value: &str)
        ensures
            final(self)@ == with_clause(old(self)@, " AND "@ + column@ + " = ?"@, seq![ValueView::Text(value@)]),
    {
        self.clause(" AND ", column, " = ?", Value::Text(value.to_owned()));
    }

    /// Keeps the rows whose `column` is `bound` at most.
    pub fn and_at_most(&mut self, column: &str, bound: u16)
        ensures
            final(self)@ == with_clause(old(self)@, " AND "@ + column@ + " <= ?"@, seq![ValueView::Integer(bound)]),
    {
        self.clause(" AND ", column, " <= ?", Value::Integer(bound));
    }

    /// Keeps the rows whose `column` is `bound` at least.
    pub fn and_at_least(&mut self, column: &str, bound: u16)
        ensures
            final(self)@ == with_clause(old(self)@, " AND "@ + column@ + " >= ?"@, seq![ValueView::Integer(bound)]),
    {
        self.clause(" AND ", column, " >= ?", Value::Integer(bound));
    }

    /// Keeps the rows whose `column` is one of `values`.
    pub fn and_one_of(&mut self, column: &str, values: &Vec<String>)
        ensures
            final(self)@ == with_clause(
                old(self)@,
                one_of_clause(column@, values@.len()),
                as_texts(values@.map_values(|t: String| t@)),
            ),
    {
        let ghost before = self@;
        self.sql.append(" AND ");
        self.sql.append(column);
        self.sql.append(" IN (");
        self.sql.append(repeated("?", ", ", values.len()).as_str());
        self.sql.append(")");
        let mut i: usize = 0;
        let ghost texts = values@.map_values(|t: String| t@);
        assert(self.params@.map_values(|v: Value| v@) =~= before.params + as_texts(texts.take(0)));
        while i < values.len()
            invariant
                i <= values.len(),
                texts == values@.map_values(|t: String| t@),
                self.params@.len() == before.params.len() + i,
                self.sql@ == before.sql + one_of_clause(column@, values@.len()),
                self.params@.map_values(|v: Value| v@) == before.params + as_texts(texts.take(i as int)),
            decreases values.len() - i,
        {
            let ghost bound = self.params@.map_values(|v: Value| v@);
            self.params.push(Value::Text(values[i].clone()));
            proof {
                let now = self.params@.map_values(|v: Value| v@);
                let want = before.params + as_texts(texts.take(i + 1));
                assert(now.len() == want.len());
                assert forall|k: int| 0 <= k < now.len() implies now[k] == want[k] by {
                    if k < bound.len() {
                        assert(now[k] == bound[k]);
                        if k >= before.params.len() {
                            assert(texts.take(i as int)[k - before.params.len()] == texts.take(i + 1)[k
                                - before.params.len()]);
                        }
                    } else {
                        assert(texts.take(i + 1)[i as int] == values@[i as int]@);
                    }
                }
                assert(now =~= want);
            }
            i += 1;
        }
        proof {
            assert(texts.take(values.len() as int) =~= texts);
        }
    }

    /// Keeps the rows whose `column` names one of `permissions`.
    pub fn and_permission_in(&mut self, column: &str, permissions: &Vec<Permission>)
        ensures
            final(self)@ == with_clause(
                old(self)@,
                one_of_clause(column@, permissions@.len()),
                as_texts(permissions@.map_values(|p: Permission| p.spec_name())),
            ),
    {
        let mut names: Vec<String> = Vec::new();
        let mut i: usize = 0;
        while i < permissions.len()
            invariant
                i <= permissions.len(),
                names@.len() == i,
                names@.map_values(|t: String| t@) == permissions@.take(i as int).map_values(
                    |p: Permission| p.spec_name(),
                ),
            decreases permissions.len() - i,
        {
            let ghost named = names@.map_values(|t: String| t@);
            names.push(permissions[i].to_string());
            proof {
                let now = names@.map_values(|t: String| t@);
                let want = permissions@.take(i + 1).map_values(|p: Permission| p.spec_name());
                assert(now.len() == want.len());
                assert forall|k: int| 0 <= k < now.len() implies now[k] == want[k] by {
                    if k < i {
                        assert(now[k] == named[k]);
                        assert(permissions@.take(i as int)[k] == permissions@.take(i + 1)[k]);
                    }
                }
                assert(now =~= want);
            }
            i += 1;
        }
        proof {
            assert(permissions@.take(permissions.len() as int) =~= permissions@);
        }
        self.and_one_of(column, &names);
    }

    /// Adds a fixed piece of text, such as a grouping.
    pub fn followed_by(&mut self, text: &str)
        ensures
            final(self)@ == with_clause(old(self)@, text@, Seq::<ValueView>::empty()),
    {
        self.sql.append(text);
        proof {
            assert(self@.params =~= with_clause(old(self)@, text@, Seq::<ValueView>::empty()).params);
        }
    }

    /// Cuts the result off after `count` rows.
    pub fn limit(&mut self, count: u16)
        ensures
            final(self)@ == with_clause(old(self)@, " LIMIT ?"@, seq![ValueView::Integer(count)]),
    {
        self.sql.append(" LIMIT ?");
        self.params.push(Value::Integer(count));
        proof {
            assert(self@.params =~= with_clause(old(self)@, " LIMIT ?"@, seq![ValueView::Integer(count)]).params);
        }
    }

    /// The statement that runs the search.
    pub fn finish(self) -> (r: Statement)
        ensures
            r@ == self@,
    {
        Statement { sql: self.sql, params: self.params }
    }
}

} // verus!
