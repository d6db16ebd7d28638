use crate::error::CsvError;
use crate::plan::{plan_of, ExtractionPlan, Filter, FilterView, PlanView};
use crate::source::{layout_of, match_schema, texts, Source};
use crate::text::{same_text, to_upper, upper};
use vstd::pervasive::unreached;
use vstd::prelude::*;
use vstd::string::StringExecFns;

verus! {

/// One value of a table.
#[derive(Debug)]
pub enum Cell {
    /// No value.
    Null,
    /// A text.
    Text(String),
    /// A number, a date or another value that is no text: the form in which
    /// it is printed, and the whole number that it gives, if it gives one. A
    /// date gives the count of days since the first day of 1970.
    Native { shown: String, number: Option<i32> },
}

/// What a `Cell` holds.
pub ghost enum CellView {
    Null,
    Text(Seq<char>),
    Native { shown: Seq<char>, number: Option<i32> },
}

impl View for Cell {
    type V = CellView;

    open spec fn view(&self) -> CellView {
        match self {
            Cell::Null => CellView::Null,
            Cell::Text(text) => CellView::Text(text@),
            Cell::Native { shown, number } => CellView::Native { shown: shown@, number: *number },
        }
    }
}

impl CellView {
    /// The cell as it is printed: a text stands in double quotes, and a
    /// missing value is the word `null`.
    pub open spec fn shown(self) -> Seq<char> {
        match self {
            CellView::Null => "null"@,
            CellView::Text(text) => seq!['"'] + text + seq!['"'],
            CellView::Native { shown, number } => shown,
        }
    }
}

impl Cell {
    /// The cell as it is printed.
    pub fn to_text(&self) -> (text: String)
        ensures
            text@ == self@.shown(),
    {
        match self {
            Cell::Null => "null".to_owned(),
            Cell::Text(inner) => {
                let mut text = String::new();
                text.push('"');
                text.append(inner.as_str());
                text.push('"');
                assert(text@ =~= self@.shown());
                text
            },
            Cell::Native { shown, number } => shown.clone(),
        }
    }

    /// A cell with the same value.
    pub fn duplicate(&self) -> (cell: Cell)
        ensures
            cell@ == self@,
    {
        match self {
            Cell::Null => Cell::Null,
            Cell::Text(text) => Cell::Text(text.clone()),
            Cell::Native { shown, number } => Cell::Native { shown: shown.clone(), number: *number },
        }
    }
}

/// A table: the names of its columns, and its rows.
#[derive(Debug)]
pub struct Table {
    /// The names of the columns.
    pub header: Vec<String>,
    /// The rows. A row that is shorter than the header has no value in the
    /// columns that it does not reach.
    pub rows: Vec<Vec<Cell>>,
}

/// What a `Table` holds.
pub ghost struct TableView {
    pub header: Seq<Seq<char>>,
    pub rows: Seq<Seq<CellView>>,
}

/// The views of the cells of a row.
pub open spec fn cell_views(row: Seq<Cell>) -> Seq<CellView> {
    Seq::new(row.len(), |i: int| row[i]@)
}

/// The views of the rows of a table.
pub open spec fn row_views(rows: Seq<Vec<Cell>>) -> Seq<Seq<CellView>> {
    Seq::new(rows.len(), |i: int| cell_views(rows[i]@))
}

impl View for Table {
    type V = TableView;

    open spec fn view(&self) -> TableView {
        TableView { header: texts(self.header@), rows: row_views(self.rows@) }
    }
}

/// The value of `row` in column `at`.
pub open spec fn cell_of(row: Seq<CellView>, at: int) -> CellView {
    if 0 <= at < row.len() {
        row[at]
    } else {
        CellView::Null
    }
}

/// `at` is the first column of `header` with the name `name`.
pub open spec fn is_column_at(header: Seq<Seq<char>>, name: Seq<char>, at: int) -> bool {
    &&& 0 <= at < header.len()
    &&& header[at] == name
    &&& forall|j: int| 0 <= j < at ==> header[j] != name
}

/// `header` has a column with the name `name`.
pub open spec fn has_column(header: Seq<Seq<char>>, name: Seq<char>) -> bool {
    exists|at: int| 0 <= at < header.len() && header[at] == name
}

/// The first column of `header` with the name `name`.
pub open spec fn column_index(header: Seq<Seq<char>>, name: Seq<char>) -> int {
    choose|at: int| is_column_at(header, name, at)
}

/// A first column with a name is the one that `column_index` names.
pub proof fn lemma_column_index(header: Seq<Seq<char>>, name: Seq<char>, at: int)
    requires
        is_column_at(header, name, at),
    ensures
        column_index(header, name) == at,
        has_column(header, name),
{
    let other = column_index(header, name);
    assert(is_column_at(header, name, other));
}

/// The value of `row` in the column with the name `name`.
pub open spec fn cell_named(header: Seq<Seq<char>>, row: Seq<CellView>, name: Seq<char>) -> CellView {
    cell_of(row, column_index(header, name))
}

impl PlanView {
    /// `header` has every column that the plan reads.
    pub open spec fn fits(self, header: Seq<Seq<char>>) -> bool {
        &&& forall|k: int| 0 <= k < self.columns.len() ==> has_column(header, #[trigger] self.columns[k])
        &&& self.currency_column matches Some(name) ==> has_column(header, name)
        &&& forall|k: int|
            0 <= k < self.filters.len() ==> has_column(header, (#[trigger] self.filters[k]).column)
    }

    /// The row is in the currency `target`: the currency column holds a text
    /// whose upper-case form is `target`, or holds nothing where the plan
    /// accepts that. A plan without a currency column chooses every row.
    pub open spec fn in_currency(self, header: Seq<Seq<char>>, row: Seq<CellView>, target: Seq<char>) -> bool {
        match self.currency_column {
            None => true,
            Some(name) => match cell_named(header, row, name) {
                CellView::Null => self.accept_empty,
                CellView::Text(code) => upper(code) == target || (self.accept_empty
                    && code.len() == 0),
                CellView::Native { shown, number } => false,
            },
        }
    }

    /// The row passes every filter of the plan.
    pub open spec fn passes_filters(self, header: Seq<Seq<char>>, row: Seq<CellView>) -> bool {
        forall|k: int|
            0 <= k < self.filters.len() ==> (#[trigger] self.filters[k]).passes(
                cell_named(header, row, self.filters[k].column),
            )
    }

    /// The row is kept.
    pub open spec fn keeps(self, header: Seq<Seq<char>>, row: Seq<CellView>, target: Seq<char>) -> bool {
        self.in_currency(header, row, target) && self.passes_filters(header, row)
    }

    /// The values of the row in the plan's columns.
    pub open spec fn projection(self, header: Seq<Seq<char>>, row: Seq<CellView>) -> Seq<CellView> {
        Seq::new(self.columns.len(), |k: int| cell_named(header, row, self.columns[k]))
    }

    /// The projections of the rows that are kept, in the order of the rows.
    pub open spec fn kept(self, header: Seq<Seq<char>>, rows: Seq<Seq<CellView>>, target: Seq<char>) -> Seq<Seq<CellView>>
        decreases rows.len(),
    {
        if rows.len() == 0 {
            Seq::empty()
        } else {
            let before = self.kept(header, rows.drop_last(), target);
            if self.keeps(header, rows.last(), target) {
                before.push(self.projection(header, rows.last()))
            } else {
                before
            }
        }
    }
}

impl FilterView {
    /// The cell passes the filter: it holds the filter's text where it must,
    /// and does not where it must not.
    pub open spec fn passes(self, cell: CellView) -> bool {
        (cell == CellView::Text(self.value)) == self.equal
    }
}

/// Whether the first columns of a table are those of a known layout.
pub open spec fn known_format(table: TableView) -> bool {
    layout_of(table.header) is Some
}

/// What `filter_data_frame` makes of a table in a known layout: the
/// institution and the kept rows in the plan's six columns; or the error
/// where the table lacks a column that the plan reads.
pub open spec fn filtered(table: TableView, target: Seq<char>) -> Result<(Source, TableView), CsvError>
    recommends
        known_format(table),
{
    let plan = plan_of(layout_of(table.header)->0, target);
    if plan.fits(table.header) {
        Ok(
            (
                plan.source,
                TableView {
                    header: plan.columns,
                    rows: plan.kept(table.header, table.rows, target),
                },
            ),
        )
    } else {
        Err(CsvError::MissingColumn)
    }
}

/// The first column of `header` with the name `name`.
pub fn find_column(header: &Vec<String>, name: &str) -> (r: Option<usize>)
    ensures
        r matches Some(at) ==> is_column_at(texts(header@), name@, at as int),
        r is None ==> !has_column(texts(header@), name@),
{
    let mut i: usize = 0;
    while i < header.len()
        invariant
            i <= header@.len(),
            forall|j: int| 0 <= j < i ==> texts(header@)[j] != name@,
        decreases header@.len() - i,
    {
        if same_text(header[i].as_str(), name) {
            return Some(i);
        }
        i = i + 1;
    }
    None
}

/// Whether a currency code chooses a row: its upper-case form is the
/// currency asked for, or it is empty where that is accepted.
pub fn code_chosen(code: &str, upper_code: &str, accept_empty: bool, target: &str) -> (r: bool)
    ensures
        r == (upper_code@ == target@ || (accept_empty && code@.len() == 0)),
{
    same_text(upper_code, target) || (accept_empty && code.is_empty())
}

fn cell_ref(row: &Vec<Cell>, at: usize) -> (r: Option<&Cell>)
    ensures
        r matches Some(cell) ==> cell@ == cell_of(cell_views(row@), at as int),
        r is None ==> cell_of(cell_views(row@), at as int) == CellView::Null,
{
    if at < row.len() {
        Some(&row[at])
    } else {
        None
    }
}

fn cell_copy(row: &Vec<Cell>, at: usize) -> (cell: Cell)
    ensures
        cell@ == cell_of(cell_views(row@), at as int),
{
    match cell_ref(row, at) {
        Some(cell) => cell.duplicate(),
        None => Cell::Null,
    }
}

fn in_currency(accept_empty: bool, row: &Vec<Cell>, at: usize, target: &str) -> (r: bool)
    ensures
        r == match cell_of(cell_views(row@), at as int) {
            CellView::Null => accept_empty,
            CellView::Text(code) => upper(code) == target@ || (accept_empty && code.len()
                == 0),
            CellView::Native { shown, number } => false,
        },
{
    match cell_ref(row, at) {
        None => accept_empty,
        Some(Cell::Null) => accept_empty,
        Some(Cell::Text(code)) => {
            let raised = to_upper(code.as_str());
            code_chosen(code.as_str(), raised.as_str(), accept_empty, target)
        },
        Some(Cell::Native { shown, number }) => false,
    }
}

fn passes(filter: &Filter, row: &Vec<Cell>, at: usize) -> (r: bool)
    ensures
        r == filter@.passes(cell_of(cell_views(row@), at as int)),
{
    let holds = match cell_ref(row, at) {
        Some(Cell::Text(text)) => same_text(text.as_str(), filter.value.as_str()),
        _ => false,
    };
    holds == filter.equal
}

/// Each place of `at` is the first column with the name at the same place
/// of `names`.
pub open spec fn placed(header: Seq<Seq<char>>, names: Seq<Seq<char>>, at: Seq<usize>) -> bool {
    &&& at.len() == names.len()
    &&& forall|j: int| 0 <= j < names.len() ==> is_column_at(header, #[trigger] names[j], at[j] as int)
}

/// The names of the columns that the filters test.
pub open spec fn filter_columns(filters: Seq<FilterView>) -> Seq<Seq<char>> {
    Seq::new(filters.len(), |k: int| filters[k].column)
}

/// Where the plan's columns, its currency column and the columns of its
/// filters stand in a table.
struct Places {
    picks: Vec<usize>,
    currency: Option<usize>,
    tests: Vec<usize>,
}

impl Places {
    /// The places are those of the plan's columns in `header`.
    spec fn of(self, plan: PlanView, header: Seq<Seq<char>>) -> bool {
        &&& placed(header, plan.columns, self.picks@)
        &&& placed(header, filter_columns(plan.filters), self.tests@)
        &&& match plan.currency_column {
            Some(name) => self.currency is Some && is_column_at(header, name, self.currency->0 as int),
            None => self.currency is None,
        }
    }
}

/// Finds each column that the plan reads, or says that one is missing.
fn find_places(plan: &ExtractionPlan, header: &Vec<String>) -> (r: Option<Places>)
    ensures
        r matches Some(places) ==> places.of(plan@, texts(header@)) && plan@.fits(texts(header@)),
        r is None ==> !plan@.fits(texts(header@)),
{
    let ghost names = texts(header@);
    let ghost pv = plan@;
    let mut picks: Vec<usize> = Vec::new();
    let mut k: usize = 0;
    while k < plan.columns.len()
        invariant
            k <= plan.columns@.len(),
            pv == plan@,
            names == texts(header@),
            picks@.len() == k,
            forall|j: int| 0 <= j < k ==> is_column_at(names, #[trigger] pv.columns[j], picks@[j] as int),
        decreases plan.columns@.len() - k,
    {
        match find_column(header, plan.columns[k].as_str()) {
            Some(at) => {
                picks.push(at);
            },
            None => {
                assert(!has_column(names, pv.columns[k as int]));
                return None;
            },
        }
        k = k + 1;
    }
    let currency: Option<usize> = match &plan.currency_column {
        Some(name) => {
            match find_column(header, name.as_str()) {
                Some(at) => Some(at),
                None => {
                    return None;
                },
            }
        },
        None => None,
    };
    let mut tests: Vec<usize> = Vec::new();
    let mut k: usize = 0;
    while k < plan.filters.len()
        invariant
            k <= plan.filters@.len(),
            pv == plan@,
            names == texts(header@),
            tests@.len() == k,
            forall|j: int|
                0 <= j < k ==> is_column_at(
                    names,
                    #[trigger] filter_columns(pv.filters)[j],
                    tests@[j] as int,
                ),
        decreases plan.filters@.len() - k,
    {
        match find_column(header, plan.filters[k].column.as_str()) {
            Some(at) => {
                tests.push(at);
            },
            None => {
                assert(!has_column(names, pv.filters[k as int].column));
                return None;
            },
        }
        k = k + 1;
    }
    proof {
        assert forall|j: int| 0 <= j < pv.columns.len() implies has_column(
            names,
            #[trigger] pv.columns[j],
        ) by {
            lemma_column_index(names, pv.columns[j], picks@[j] as int);
        }
        assert forall|j: int| 0 <= j < pv.filters.len() implies has_column(
            names,
            (#[trigger] pv.filters[j]).column,
        ) by {
            assert(filter_columns(pv.filters)[j] == pv.filters[j].column);
            lemma_column_index(names, pv.filters[j].column, tests@[j] as int);
        }
        if let Some(name) = pv.currency_column {
            lemma_column_index(names, name, currency->0 as int);
        }
    }
    Some(Places { picks, currency, tests })
}

/// Whether the plan keeps a row.
fn keeps_row(plan: &ExtractionPlan, places: &Places, row: &Vec<Cell>, target: &str, Ghost(header): Ghost<Seq<Seq<char>>>) -> (r: bool)
    requires
        places.of(plan@, header),
    ensures
        r == plan@.keeps(header, cell_views(row@), target@),
{
    let ghost pv = plan@;
    let ghost cells = cell_views(row@);
    let chosen = match places.currency {
        Some(at) => {
            proof {
                lemma_column_index(header, pv.currency_column->0, at as int);
            }
            in_currency(plan.accept_empty, row, at, target)
        },
        None => true,
    };
    if !chosen {
        return false;
    }
    let mut f: usize = 0;
    while f < plan.filters.len()
        invariant
            f <= plan.filters@.len(),
            pv == plan@,
            cells == cell_views(row@),
            places.of(pv, header),
            forall|j: int|
                0 <= j < f ==> (#[trigger] pv.filters[j]).passes(
                    cell_named(header, cells, pv.filters[j].column),
                ),
        decreases plan.filters@.len() - f,
    {
        proof {
            assert(filter_columns(pv.filters)[f as int] == pv.filters[f as int].column);
            lemma_column_index(header, pv.filters[f as int].column, places.tests@[f as int] as int);
        }
        if !passes(&plan.filters[f], row, places.tests[f]) {
            assert(!pv.filters[f as int].passes(
                cell_named(header, cells, pv.filters[f as int].column),
            ));
            return false;
        }
        f = f + 1;
    }
    true
}

/// The values of a row in the plan's columns.
fn project_row(plan: &ExtractionPlan, places: &Places, row: &Vec<Cell>, Ghost(header): Ghost<Seq<Seq<char>>>) -> (cells: Vec<Cell>)
    requires
        places.of(plan@, header),
    ensures
        cell_views(cells@) == plan@.projection(header, cell_views(row@)),
{
    let ghost pv = plan@;
    let ghost from = cell_views(row@);
    let mut cells: Vec<Cell> = Vec::new();
    let mut c: usize = 0;
    while c < places.picks.len()
        invariant
            c <= places.picks@.len(),
            pv == plan@,
            from == cell_views(row@),
            places.of(pv, header),
            cells@.len() == c,
            forall|j: int| 0 <= j < c ==> (#[trigger] cells@[j])@ == cell_named(header, from, pv.columns[j]),
        decreases places.picks@.len() - c,
    {
        proof {
            lemma_column_index(header, pv.columns[c as int], places.picks@[c as int] as int);
        }
        cells.push(cell_copy(row, places.picks[c]));
        c = c + 1;
    }
    assert(cell_views(cells@) =~= pv.projection(header, from));
    cells
}

/// Chooses the plan for a table by its first columns, keeps the rows in the
/// currency `upper_currency` that pass the plan's filters, and gives them
/// back in the plan's six columns, together with the institution.
///
/// The table must be in a known layout: `match_schema` tells whether it is.
/// There is no plan for any other table, and none is guessed.
pub fn filter_data_frame(df: &Table, upper_currency: String) -> (r: Result<(Source, Table), CsvError>)
    requires
        known_format(df@),
    ensures
        r matches Ok(pair) ==> filtered(df@, upper_currency@) == Ok::<(Source, TableView), CsvError>(
            (pair.0, pair.1@),
        ),
        r matches Err(e) ==> filtered(df@, upper_currency@) == Err::<(Source, TableView), CsvError>(e),
{
    let ghost header = texts(df.header@);
    let ghost target = upper_currency@;
    let layout = match match_schema(&df.header) {
        Some(layout) => layout,
        None => unreached(),
    };
    let plan = layout.plan(upper_currency.as_str());
    let ghost pv = plan@;
    let places = match find_places(&plan, &df.header) {
        Some(places) => places,
        None => {
            return Err(CsvError::MissingColumn);
        },
    };
    let ghost all = row_views(df.rows@);
    let mut rows: Vec<Vec<Cell>> = Vec::new();
    let mut i: usize = 0;
    assert(all.take(0) =~= Seq::<Seq<CellView>>::empty());
    while i < df.rows.len()
        invariant
            i <= df.rows@.len(),
            pv == plan@,
            target == upper_currency@,
            all == row_views(df.rows@),
            places.of(pv, header),
            row_views(rows@) == pv.kept(header, all.take(i as int), target),
        decreases df.rows@.len() - i,
    {
        let row = &df.rows[i];
        proof {
            assert(all.take(i + 1).drop_last() =~= all.take(i as int));
            assert(all.take(i + 1).last() == cell_views(row@));
        }
        if keeps_row(&plan, &places, row, upper_currency.as_str(), Ghost(header)) {
            let cells = project_row(&plan, &places, row, Ghost(header));
            let ghost before = row_views(rows@);
            rows.push(cells);
            assert(row_views(rows@) =~= before.push(cell_views(cells@)));
        }
        i = i + 1;
    }
    assert(all.take(i as int) =~= all);
    let ExtractionPlan { source, columns, currency_column, accept_empty, filters } = plan;
    Ok((source, Table { header: columns, rows }))
}

} // verus!
