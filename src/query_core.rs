use vstd::prelude::*;

use crate::filter::{
    comparison_symbol, filter_fragment, join_keyword, placeholder, qualified, ColExpr, FilterExpr,
    JoinArg, SqlValue,
};
use crate::sql_text::{join_strings, join_with, texts};

verus! {

/// Stage of a query that runs caller-supplied SQL text.
pub struct RawQuery;

/// Stage of a query whose SQL text is generated from its tables and filters.
pub struct NormalQuery;

/// Errors that the builder reports before any statement is sent.
#[derive(Clone, Debug, PartialEq, Eq)]
pub enum SsqlError {
    /// A filter or an ordering names a table that is not part of the query.
    Scope(String),
    /// A table of the query projects no column.
    EmptyProjection(String),
    /// A raw query holds no SQL text.
    MissingRawSql,
}

/// `s` ends with `suffix`.
pub open spec fn ends_with(s: Seq<char>, suffix: Seq<char>) -> bool {
    suffix.len() <= s.len() && s.subrange(s.len() - suffix.len(), s.len() as int) == suffix
}

/// The join predicate that `relations` gives for `table`: the first entry whose
/// key is `table`, or the empty text when there is none.
pub open spec fn relation_of(relations: Seq<(Seq<char>, Seq<char>)>, table: Seq<char>) -> Seq<char>
    decreases relations.len(),
{
    if relations.len() == 0 {
        Seq::empty()
    } else if relations[0].0 == table {
        relations[0].1
    } else {
        relation_of(relations.drop_first(), table)
    }
}

/// The text a join of `table` adds to the join clause.
pub open spec fn join_text(kind: JoinArg, table: Seq<char>, predicate: Seq<char>) -> Seq<char> {
    " "@ + join_keyword(kind) + " JOIN "@ + table + " "@ + predicate + " "@
}

/// One ordering key: the qualified column and its direction.
pub open spec fn order_item(table: Seq<char>, column: Seq<char>, asc: bool) -> Seq<char> {
    qualified(table, column) + if asc {
        " ASC"@
    } else {
        " DESC"@
    }
}

/// The ordering keys after `item` is added as the last one.
pub open spec fn append_order(order: Seq<char>, item: Seq<char>) -> Seq<char> {
    if order.len() == 0 {
        item
    } else {
        order + ", "@ + item
    }
}

/// The WHERE clause of a statement: the filters joined by AND, or nothing.
pub open spec fn where_clause(filters: Seq<Seq<char>>) -> Seq<char> {
    if filters.len() == 0 {
        Seq::empty()
    } else {
        " WHERE "@ + join_with(filters, " AND "@)
    }
}

/// The ORDER BY clause of a statement, or nothing.
pub open spec fn order_clause(order: Seq<char>) -> Seq<char> {
    if order.len() == 0 {
        Seq::empty()
    } else {
        " ORDER BY "@ + order
    }
}

/// One projected column, aliased by its qualified name.
pub open spec fn select_column(table: Seq<char>, column: Seq<char>) -> Seq<char> {
    qualified(table, column) + " AS \""@ + qualified(table, column) + "\""@
}

/// The projected columns of one table.
pub open spec fn select_table(table: Seq<char>, columns: Seq<Seq<char>>) -> Seq<char> {
    join_with(Seq::new(columns.len(), |k: int| select_column(table, columns[k])), ","@)
}

/// The projection of all tables, in the order they entered the query.
pub open spec fn select_list(tables: Seq<Seq<char>>, columns: Seq<Seq<Seq<char>>>) -> Seq<char> {
    join_with(Seq::new(tables.len(), |i: int| select_table(tables[i], columns[i])), ","@)
}

/// Every table projects at least one column.
pub open spec fn all_projected(columns: Seq<Seq<Seq<char>>>) -> bool {
    forall|i: int| 0 <= i < columns.len() ==> #[trigger] columns[i].len() > 0
}

/// `k` is the first table that projects no column.
pub open spec fn first_unprojected(columns: Seq<Seq<Seq<char>>>, k: int) -> bool {
    0 <= k < columns.len() && columns[k].len() == 0 && forall|j: int|
        0 <= j < k ==> #[trigger] columns[j].len() > 0
}

/// The generated SELECT statement: projection, main table, joins, filters
/// and ordering.
pub open spec fn select_statement(
    main_table: Seq<char>,
    tables: Seq<Seq<char>>,
    columns: Seq<Seq<Seq<char>>>,
    join: Seq<char>,
    filters: Seq<Seq<char>>,
    order: Seq<char>,
) -> Seq<char> {
    "SELECT "@ + select_list(tables, columns) + " FROM "@ + main_table + " "@ + join + where_clause(
        filters,
    ) + order_clause(order)
}

/// What turns a query of one stage into the SQL text sent to the database.
pub trait Executable {
    /// The query is in a state its statement can be built from.
    spec fn ready(&self) -> bool;

    /// The statement text, or `None` when the query cannot produce one.
    spec fn statement_spec(&self) -> Option<Seq<char>>;

    /// The error reported when the query cannot produce a statement.
    spec fn statement_error(&self) -> SsqlError;

    /// The statement text to send along with the bound parameters.
    fn statement(&self) -> (r: Result<String, SsqlError>)
        requires
            self.ready(),
        ensures
            r is Ok <==> self.statement_spec() is Some,
            r matches Ok(s) ==> self.statement_spec() == Some(s@),
            r matches Err(e) ==> e == self.statement_error(),
    ;
}

/// Query state: the tables in scope with their projected columns, the
/// compiled filters, the join and ordering text and the bound parameters.
pub struct QueryCore<Stage = NormalQuery> {
    main_table: String,
    tables: Vec<String>,
    fields: Vec<Vec<String>>,
    filters: Vec<String>,
    join: String,
    order: String,
    raw_sql: Option<String>,
    relations: Vec<(String, String)>,
    query_params: Vec<SqlValue>,
    query_idx_counter: usize,
    _stage: Stage,
}

impl<Stage> QueryCore<Stage> {
    /// The table the query was created for.
    pub closed spec fn main_table_view(&self) -> Seq<char> {
        self.main_table@
    }

    /// The tables in scope, in the order they entered the query.
    pub closed spec fn tables_view(&self) -> Seq<Seq<char>> {
        texts(self.tables@)
    }

    /// The projected columns of each table in scope.
    pub closed spec fn columns_view(&self) -> Seq<Seq<Seq<char>>> {
        self.fields@.map_values(|v: Vec<String>| texts(v@))
    }

    /// The compiled filter predicates, in registration order.
    pub closed spec fn filters_view(&self) -> Seq<Seq<char>> {
        texts(self.filters@)
    }

    /// The accumulated join clauses.
    pub closed spec fn join_view(&self) -> Seq<char> {
        self.join@
    }

    /// The accumulated ordering keys.
    pub closed spec fn order_view(&self) -> Seq<char> {
        self.order@
    }

    /// The raw SQL text, if any.
    pub closed spec fn raw_sql_view(&self) -> Option<Seq<char>> {
        match self.raw_sql {
            Some(s) => Some(s@),
            None => None,
        }
    }

    /// The relation lookup: table name to join predicate.
    pub closed spec fn relations_view(&self) -> Seq<(Seq<char>, Seq<char>)> {
        self.relations@.map_values(|p: (String, String)| (p.0@, p.1@))
    }

    /// The bound parameters, in placeholder order.
    pub closed spec fn params_view(&self) -> Seq<SqlValue> {
        self.query_params@
    }

    /// The number of the last placeholder handed out.
    pub closed spec fn counter_view(&self) -> nat {
        self.query_idx_counter as nat
    }

    /// The first table in scope that projects no column.
    pub closed spec fn first_unprojected_table(&self) -> String {
        self.tables@[choose|k: int| first_unprojected(self.columns_view(), k)]
    }

    /// The bound parameters, in placeholder order.
    pub fn params(&self) -> (r: &Vec<SqlValue>)
        ensures
            r@ == self.params_view(),
    {
        &self.query_params
    }
}

impl QueryCore<NormalQuery> {
    /// Well-formed: the main table is the first table in scope, tables occur
    /// once, each has its column list, and filter `i` is bound to parameter
    /// `i + 1`, the last one handed out.
    pub closed spec fn wf(&self) -> bool {
        &&& self.tables@.len() >= 1
        &&& self.fields@.len() == self.tables@.len()
        &&& self.tables_view()[0] == self.main_table_view()
        &&& forall|i: int, j: int|
            0 <= i < j < self.tables@.len() ==> #[trigger] self.tables_view()[i]
                != #[trigger] self.tables_view()[j]
        &&& self.query_idx_counter as nat == self.query_params@.len()
        &&& self.filters@.len() == self.query_params@.len()
        &&& forall|i: int|
            0 <= i < self.filters@.len() ==> ends_with(
                #[trigger] self.filters_view()[i],
                placeholder((i + 1) as nat),
            )
        &&& self.raw_sql is None
    }

    /// Everything but the filters, the parameters and the ordering agrees.
    pub open spec fn same_scope(&self, other: &Self) -> bool {
        &&& self.main_table_view() == other.main_table_view()
        &&& self.tables_view() == other.tables_view()
        &&& self.columns_view() == other.columns_view()
        &&& self.join_view() == other.join_view()
        &&& self.relations_view() == other.relations_view()
        &&& self.raw_sql_view() == other.raw_sql_view()
    }

    /// A query on one table projecting `fields.1`; `relations` maps a table
    /// name to the predicate that joins it.
    pub fn new(fields: (String, Vec<String>), relations: Vec<(String, String)>) -> (r: Self)
        ensures
            r.wf(),
            r.main_table_view() == fields.0@,
            r.tables_view() == seq![fields.0@],
            r.columns_view() == seq![texts(fields.1@)],
            r.filters_view() == Seq::<Seq<char>>::empty(),
            r.join_view() == Seq::<char>::empty(),
            r.order_view() == Seq::<char>::empty(),
            r.params_view() == Seq::<SqlValue>::empty(),
            r.counter_view() == 0,
            r.relations_view() == relations@.map_values(|p: (String, String)| (p.0@, p.1@)),
            r.raw_sql_view() is None,
    {
        let (name, columns) = fields;
        let main_table = name.clone();
        let mut tables: Vec<String> = Vec::new();
        tables.push(name);
        let mut all_fields: Vec<Vec<String>> = Vec::new();
        all_fields.push(columns);
        let r = QueryCore {
            main_table,
            tables,
            fields: all_fields,
            filters: Vec::new(),
            join: String::new(),
            order: String::new(),
            raw_sql: None,
            relations,
            query_params: Vec::new(),
            query_idx_counter: 0,
            _stage: NormalQuery,
        };
        assert(r.tables_view() =~= seq![fields.0@]);
        assert(r.columns_view() =~= seq![texts(fields.1@)]);
        assert(r.filters_view() =~= Seq::<Seq<char>>::empty());
        r
    }

    /// Whether `table` is in scope.
    pub fn contains_table(&self, table: &String) -> (r: bool)
        ensures
            r == self.tables_view().contains(table@),
    {
        let mut i: usize = 0;
        while i < self.tables.len()
            invariant
                i <= self.tables@.len(),
                forall|k: int| 0 <= k < i ==> self.tables_view()[k] != table@,
            decreases self.tables@.len() - i,
        {
            if self.tables[i] == *table {
                assert(self.tables_view()[i as int] == table@);
                return true;
            }
            i = i + 1;
        }
        false
    }

    /// Adds a predicate, ANDed after the earlier ones, with its value bound to
    /// the next positional parameter. A column of a table out of scope is
    /// refused and leaves the query as it was.
    pub fn filter(&mut self, filter_expr: FilterExpr) -> (r: Result<(), SsqlError>)
        requires
            old(self).wf(),
            old(self).params_view().len() < usize::MAX,
        ensures
            final(self).wf(),
            r is Ok <==> old(self).tables_view().contains(filter_expr.col.table@),
            r is Ok ==> {
                &&& final(self).same_scope(old(self))
                &&& final(self).order_view() == old(self).order_view()
                &&& final(self).filters_view() == old(self).filters_view().push(
                    filter_fragment(filter_expr, old(self).params_view().len() + 1),
                )
                &&& final(self).params_view() == old(self).params_view().push(filter_expr.value)
            },
            r is Err ==> *final(self) == *old(self) && r == Err::<(), SsqlError>(
                SsqlError::Scope(filter_expr.col.table),
            ),
    {
        if self.contains_table(&filter_expr.col.table) {
            let ghost e = filter_expr;
            let ghost old_filters = self.filters_view();
            let frag = filter_expr.to_sql(&mut self.query_idx_counter, &mut self.query_params);
            self.filters.push(frag);
            proof {
                assert(self.filters_view() =~= old_filters.push(frag@));
                let n = self.filters@.len() - 1;
                let pre = qualified(e.col.table@, e.col.field@) + " "@ + comparison_symbol(e.op)
                    + " "@;
                assert(frag@ =~= pre + placeholder((n + 1) as nat));
                assert(frag@.subrange(pre.len() as int, frag@.len() as int) =~= placeholder(
                    (n + 1) as nat,
                ));
                assert forall|i: int| 0 <= i < self.filters@.len() implies ends_with(
                    #[trigger] self.filters_view()[i],
                    placeholder((i + 1) as nat),
                ) by {
                    if i < n {
                        assert(self.filters_view()[i] == old_filters[i]);
                    }
                }
            }
            Ok(())
        } else {
            Err(SsqlError::Scope(filter_expr.col.table))
        }
    }

    /// Adds an ordering key after the earlier ones. A column of a table out of
    /// scope is refused and leaves the query as it was.
    pub fn order_by(&mut self, column: ColExpr, order_asc: bool) -> (r: Result<(), SsqlError>)
        requires
            old(self).wf(),
        ensures
            final(self).wf(),
            r is Ok <==> old(self).tables_view().contains(column.table@),
            r is Ok ==> {
                &&& final(self).same_scope(old(self))
                &&& final(self).filters_view() == old(self).filters_view()
                &&& final(self).params_view() == old(self).params_view()
                &&& final(self).order_view() == append_order(
                    old(self).order_view(),
                    order_item(column.table@, column.field@, order_asc),
                )
            },
            r is Err ==> *final(self) == *old(self) && r == Err::<(), SsqlError>(
                SsqlError::Scope(column.table),
            ),
    {
        if self.contains_table(&column.table) {
            let ghost old_order = self.order@;
            if !self.order.as_str().is_empty() {
                self.order.append(", ");
            }
            let name = column.full_column_name();
            self.order.append(name.as_str());
            if order_asc {
                self.order.append(" ASC");
            } else {
                self.order.append(" DESC");
            }
            assert(self.order@ =~= append_order(
                old_order,
                order_item(column.table@, column.field@, order_asc),
            ));
            assert(self.filters_view() == old(self).filters_view());
            assert(self.tables_view() == old(self).tables_view());
            Ok(())
        } else {
            Err(SsqlError::Scope(column.table))
        }
    }
    /// The join predicate for `table`: the first relation keyed by it, or the
    /// empty text.
    fn find_relation(&self, table: &String) -> (r: String)
        ensures
            r@ == relation_of(self.relations_view(), table@),
    {
        let ghost rels = self.relations_view();
        assert(rels.subrange(0, rels.len() as int) =~= rels);
        let mut i: usize = 0;
        while i < self.relations.len()
            invariant
                i <= self.relations@.len(),
                rels == self.relations_view(),
                relation_of(rels.subrange(i as int, rels.len() as int), table@) == relation_of(
                    rels,
                    table@,
                ),
            decreases self.relations@.len() - i,
        {
            let ghost rest = rels.subrange(i as int, rels.len() as int);
            assert(rest.drop_first() =~= rels.subrange(i + 1, rels.len() as int));
            assert(rest[0] == rels[i as int]);
            if self.relations[i].0 == *table {
                return self.relations[i].1.clone();
            }
            i = i + 1;
        }
        String::new()
    }

    /// Joins `table`, projecting `columns`, with the predicate that the
    /// relation lookup gives for it. The table must not be in scope yet.
    pub fn join(self, table: String, columns: Vec<String>, join_args: JoinArg) -> (r: Self)
        requires
            self.wf(),
            !self.tables_view().contains(table@),
        ensures
            r.wf(),
            r.main_table_view() == self.main_table_view(),
            r.tables_view() == self.tables_view().push(table@),
            r.columns_view() == self.columns_view().push(texts(columns@)),
            r.join_view() == self.join_view() + join_text(
                join_args,
                table@,
                relation_of(self.relations_view(), table@),
            ),
            r.relations_view() == self.relations_view(),
            r.raw_sql_view() == self.raw_sql_view(),
            r.filters_view() == self.filters_view(),
            r.order_view() == self.order_view(),
            r.params_view() == self.params_view(),
    {
        let mut q = self;
        let relation = q.find_relation(&table);
        q.join.append(" ");
        q.join.append(join_args.keyword());
        q.join.append(" JOIN ");
        q.join.append(table.as_str());
        q.join.append(" ");
        q.join.append(relation.as_str());
        q.join.append(" ");
        let ghost t = table@;
        q.tables.push(table);
        q.fields.push(columns);
        proof {
            assert(q.join@ =~= self.join@ + join_text(join_args, t, relation@));
            assert(q.tables_view() =~= self.tables_view().push(t));
            assert(q.columns_view() =~= self.columns_view().push(texts(columns@)));
            assert(q.filters_view() == self.filters_view());
            assert forall|i: int, j: int|
                0 <= i < j < q.tables@.len() implies #[trigger] q.tables_view()[i]
                != #[trigger] q.tables_view()[j] by {
                if j == q.tables@.len() - 1 {
                    assert(q.tables_view()[i] == self.tables_view()[i]);
                    assert(self.tables_view().contains(q.tables_view()[i]));
                }
            }
        }
        q
    }

    /// The WHERE clause: the filters ANDed in registration order, or the
    /// empty text when there is none.
    pub fn get_where_clause(&self) -> (r: String)
        ensures
            r@ == where_clause(self.filters_view()),
    {
        if self.filters.len() == 0 {
            String::new()
        } else {
            let mut s = String::from_str(" WHERE ");
            let body = join_strings(&self.filters, " AND ");
            s.append(body.as_str());
            s
        }
    }

    /// The ORDER BY clause, or the empty text when no key was added.
    pub fn get_order_clause(&self) -> (r: String)
        ensures
            r@ == order_clause(self.order_view()),
    {
        if self.order.as_str().is_empty() {
            String::new()
        } else {
            let mut s = String::from_str(" ORDER BY ");
            s.append(self.order.as_str());
            s
        }
    }

    /// The projection of every table in scope, or the first table that
    /// projects no column.
    pub fn select_fields(&self) -> (r: Result<String, SsqlError>)
        requires
            self.wf(),
        ensures
            r is Ok <==> all_projected(self.columns_view()),
            r matches Ok(s) ==> s@ == select_list(self.tables_view(), self.columns_view()),
            r is Err ==> r == Err::<String, SsqlError>(
                SsqlError::EmptyProjection(self.first_unprojected_table()),
            ),
    {
        let ghost ts = self.tables_view();
        let ghost cs = self.columns_view();
        let mut parts: Vec<String> = Vec::new();
        let mut i: usize = 0;
        while i < self.fields.len()
            invariant
                i <= self.fields@.len(),
                self.wf(),
                ts == self.tables_view(),
                cs == self.columns_view(),
                texts(parts@) =~= Seq::new(i as nat, |k: int| select_table(ts[k], cs[k])),
                forall|k: int| 0 <= k < i ==> #[trigger] cs[k].len() > 0,
            decreases self.fields@.len() - i,
        {
            let columns = &self.fields[i];
            let table = &self.tables[i];
            assert(cs[i as int] == texts(columns@));
            if columns.len() == 0 {
                assert(first_unprojected(cs, i as int));
                proof {
                    let k = choose|k: int| first_unprojected(cs, k);
                    if k < i {
                        assert(cs[k].len() > 0);
                    }
                    if k > i {
                        assert(cs[i as int].len() > 0);
                    }
                    assert(k == i);
                }
                return Err(SsqlError::EmptyProjection(table.clone()));
            }
            let mut rendered: Vec<String> = Vec::new();
            let mut j: usize = 0;
            while j < columns.len()
                invariant
                    j <= columns@.len(),
                    texts(rendered@) =~= Seq::new(
                        j as nat,
                        |k: int| select_column(table@, texts(columns@)[k]),
                    ),
                decreases columns@.len() - j,
            {
                let c = columns[j].clone();
                proof {
                    assert(texts(columns@)[j as int] == columns@[j as int]@);
                }
                let name = ColExpr::new(table.clone(), c).full_column_name();
                let mut item = name.clone();
                item.append(" AS \"");
                item.append(name.as_str());
                item.append("\"");
                let ghost prev = texts(rendered@);
                assert(item@ =~= select_column(table@, texts(columns@)[j as int]));
                rendered.push(item);
                assert(texts(rendered@) =~= prev.push(item@));
                j = j + 1;
            }
            let one = join_strings(&rendered, ",");
            assert(ts[i as int] == table@);
            assert(one@ == select_table(ts[i as int], cs[i as int]));
            let ghost prev = texts(parts@);
            parts.push(one);
            assert(texts(parts@) =~= prev.push(one@));
            i = i + 1;
        }
        Ok(join_strings(&parts, ","))
    }
}

impl Executable for QueryCore<NormalQuery> {
    open spec fn ready(&self) -> bool {
        self.wf()
    }

    open spec fn statement_spec(&self) -> Option<Seq<char>> {
        if all_projected(self.columns_view()) {
            Some(
                select_statement(
                    self.main_table_view(),
                    self.tables_view(),
                    self.columns_view(),
                    self.join_view(),
                    self.filters_view(),
                    self.order_view(),
                ),
            )
        } else {
            None
        }
    }

    open spec fn statement_error(&self) -> SsqlError {
        SsqlError::EmptyProjection(self.first_unprojected_table())
    }

    fn statement(&self) -> (r: Result<String, SsqlError>) {
        let select = match self.select_fields() {
            Ok(s) => s,
            Err(e) => {
                return Err(e);
            },
        };
        let mut sql = String::from_str("SELECT ");
        sql.append(select.as_str());
        sql.append(" FROM ");
        sql.append(self.main_table.as_str());
        sql.append(" ");
        sql.append(self.join.as_str());
        let where_part = self.get_where_clause();
        sql.append(where_part.as_str());
        let order_part = self.get_order_clause();
        sql.append(order_part.as_str());
        assert(sql@ =~= select_statement(
            self.main_table_view(),
            self.tables_view(),
            self.columns_view(),
            self.join_view(),
            self.filters_view(),
            self.order_view(),
        ));
        Ok(sql)
    }
}

impl QueryCore<RawQuery> {
    /// A query that runs `sql` as written, with `params` bound to its
    /// positional parameters in order.
    pub fn raw(sql: String, params: Vec<SqlValue>) -> (r: Self)
        ensures
            r.raw_sql_view() == Some(sql@),
            r.params_view() == params@,
    {
        let mut q = Self::default();
        q.raw_sql = Some(sql);
        q.query_idx_counter = params.len();
        q.query_params = params;
        q
    }
}

impl Default for QueryCore<RawQuery> {
    fn default() -> (r: Self)
        ensures
            r.raw_sql_view() is None,
            r.params_view() == Seq::<SqlValue>::empty(),
            r.tables_view() == Seq::<Seq<char>>::empty(),
            r.filters_view() == Seq::<Seq<char>>::empty(),
            r.main_table_view() == Seq::<char>::empty(),
            r.columns_view() == Seq::<Seq<Seq<char>>>::empty(),
            r.join_view() == Seq::<char>::empty(),
            r.order_view() == Seq::<char>::empty(),
            r.counter_view() == 0,
            r.relations_view() == Seq::<(Seq<char>, Seq<char>)>::empty(),
    {
        let r = QueryCore {
            main_table: String::new(),
            tables: Vec::new(),
            fields: Vec::new(),
            filters: Vec::new(),
            join: String::new(),
            order: String::new(),
            raw_sql: None,
            relations: Vec::new(),
            query_params: Vec::new(),
            query_idx_counter: 0,
            _stage: RawQuery,
        };
        assert(r.tables_view() =~= Seq::<Seq<char>>::empty());
        assert(r.filters_view() =~= Seq::<Seq<char>>::empty());
        assert(r.columns_view() =~= Seq::<Seq<Seq<char>>>::empty());
        assert(r.relations_view() =~= Seq::<(Seq<char>, Seq<char>)>::empty());
        r
    }
}

impl Executable for QueryCore<RawQuery> {
    open spec fn ready(&self) -> bool {
        true
    }

    open spec fn statement_spec(&self) -> Option<Seq<char>> {
        self.raw_sql_view()
    }

    open spec fn statement_error(&self) -> SsqlError {
        SsqlError::MissingRawSql
    }

    fn statement(&self) -> (r: Result<String, SsqlError>) {
        match &self.raw_sql {
            Some(s) => Ok(s.clone()),
            None => Err(SsqlError::MissingRawSql),
        }
    }
}

/// In a well-formed query there is one bound parameter per registered filter,
/// the parameter counter stands at their number, and filter `i` refers to
/// placeholder `i + 1`, the position of its value among the parameters.
pub proof fn lemma_params_match_filters(q: &QueryCore<NormalQuery>)
    requires
        q.wf(),
    ensures
        q.params_view().len() == q.filters_view().len(),
        q.counter_view() == q.params_view().len(),
        forall|i: int|
            0 <= i < q.filters_view().len() ==> ends_with(
                #[trigger] q.filters_view()[i],
                placeholder((i + 1) as nat),
            ),
{
}

/// The tables in scope of a well-formed query are the main table, first,
/// and the joined ones, each once: a table joined after `n` others stands at
/// position `n`, and no table stands twice.
pub proof fn lemma_scope_distinct(q: &QueryCore<NormalQuery>)
    requires
        q.wf(),
    ensures
        q.tables_view().len() >= 1,
        q.tables_view()[0] == q.main_table_view(),
        q.columns_view().len() == q.tables_view().len(),
        forall|i: int, j: int|
            0 <= i < q.tables_view().len() && 0 <= j < q.tables_view().len() && i != j
                ==> q.tables_view()[i] != q.tables_view()[j],
{
    assert forall|i: int, j: int|
        0 <= i < q.tables_view().len() && 0 <= j < q.tables_view().len() && i != j
            implies q.tables_view()[i] != q.tables_view()[j] by {
        if j < i {
            assert(q.tables_view()[j] != q.tables_view()[i]);
        }
    }
}

/// The WHERE clause is present exactly when some filter was registered, and
/// the ORDER BY clause exactly when some ordering key was added.
pub proof fn lemma_clauses_present_iff(filters: Seq<Seq<char>>, order: Seq<char>)
    ensures
        where_clause(filters).len() == 0 <==> filters.len() == 0,
        filters.len() > 0 ==> where_clause(filters).subrange(0, 7) == " WHERE "@,
        order_clause(order).len() == 0 <==> order.len() == 0,
        order.len() > 0 ==> order_clause(order).subrange(0, 10) == " ORDER BY "@,
{
    reveal_strlit(" WHERE ");
    reveal_strlit(" ORDER BY ");
    if filters.len() > 0 {
        let body = join_with(filters, " AND "@);
        assert((" WHERE "@ + body).subrange(0, 7) =~= " WHERE "@);
    }
    if order.len() > 0 {
        assert((" ORDER BY "@ + order).subrange(0, 10) =~= " ORDER BY "@);
    }
}

/// Adding an ordering key leaves the ordering non-empty.
pub proof fn lemma_order_nonempty_after_order_by(
    order: Seq<char>,
    table: Seq<char>,
    column: Seq<char>,
    asc: bool,
)
    ensures
        append_order(order, order_item(table, column, asc)).len() > 0,
{
    reveal_strlit(".");
    reveal_strlit(" ASC");
    reveal_strlit(" DESC");
    reveal_strlit(", ");
}

/// The predicates of the filters `es`, registered in order on a query that
/// already bound `start` parameters.
pub open spec fn fragments_from(es: Seq<FilterExpr>, start: nat) -> Seq<Seq<char>> {
    Seq::new(es.len(), |i: int| filter_fragment(es[i], start + i as nat + 1))
}

/// The values of the filters `es`, in order.
pub open spec fn values_of(es: Seq<FilterExpr>) -> Seq<SqlValue> {
    es.map_values(|e: FilterExpr| e.value)
}

/// Registering the filters `es` one by one, then `e`, yields the predicates
/// and parameters of `es.push(e)`: one parameter per filter, and filter `i`
/// refers to placeholder `start + i + 1`, the position of its value. From a
/// new query (`start == 0`) the predicates are `fragments_from(es, 0)` and
/// the parameters `values_of(es)`.
pub proof fn lemma_filter_sequence(es: Seq<FilterExpr>, e: FilterExpr, start: nat)
    ensures
        fragments_from(es, start).push(filter_fragment(e, start + es.len() + 1)) == fragments_from(
            es.push(e),
            start,
        ),
        values_of(es).push(e.value) == values_of(es.push(e)),
        values_of(es.push(e)).len() == fragments_from(es.push(e), start).len(),
        forall|i: int|
            0 <= i <= es.len() ==> ends_with(
                #[trigger] fragments_from(es.push(e), start)[i],
                placeholder(start + i as nat + 1),
            ) && values_of(es.push(e))[i] == es.push(e)[i].value,
{
    let all = es.push(e);
    assert(fragments_from(es, start).push(filter_fragment(e, start + es.len() + 1))
        =~= fragments_from(all, start));
    assert(values_of(es).push(e.value) =~= values_of(all));
    assert forall|i: int| 0 <= i <= es.len() implies ends_with(
        #[trigger] fragments_from(all, start)[i],
        placeholder(start + i as nat + 1),
    ) && values_of(all)[i] == all[i].value by {
        let f = all[i];
        let n = start + i as nat + 1;
        let pre = qualified(f.col.table@, f.col.field@) + " "@ + comparison_symbol(f.op) + " "@;
        assert(filter_fragment(f, n) =~= pre + placeholder(n));
        assert((pre + placeholder(n)).subrange(
            pre.len() as int,
            (pre + placeholder(n)).len() as int,
        ) =~= placeholder(n));
    }
}

/// The join clauses of the tables `tables`, joined in order with the kinds
/// `kinds` and the predicates that `relations` gives.
pub open spec fn join_texts(
    kinds: Seq<JoinArg>,
    tables: Seq<Seq<char>>,
    relations: Seq<(Seq<char>, Seq<char>)>,
) -> Seq<char>
    decreases tables.len(),
{
    if tables.len() == 0 || kinds.len() == 0 {
        Seq::empty()
    } else {
        join_texts(kinds.drop_last(), tables.drop_last(), relations) + join_text(
            kinds.last(),
            tables.last(),
            relation_of(relations, tables.last()),
        )
    }
}

/// Joining the tables `tables` one by one, then `table`, yields exactly one
/// clause per join, in call order. From a new query (empty join text, one
/// table in scope) the join text after the joins is `join_texts` of them and
/// the tables in scope are the main table followed by the joined ones.
pub proof fn lemma_join_sequence(
    kinds: Seq<JoinArg>,
    tables: Seq<Seq<char>>,
    kind: JoinArg,
    table: Seq<char>,
    relations: Seq<(Seq<char>, Seq<char>)>,
)
    requires
        kinds.len() == tables.len(),
    ensures
        join_texts(kinds, tables, relations) + join_text(kind, table, relation_of(relations, table))
            == join_texts(kinds.push(kind), tables.push(table), relations),
{
    assert(kinds.push(kind).drop_last() =~= kinds);
    assert(tables.push(table).drop_last() =~= tables);
}

} // verus!
