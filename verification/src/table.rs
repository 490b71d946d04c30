use vstd::prelude::*;
use crate::bbox::BBox;
use crate::trusted::push_char;

verus! {

/// A single cell of a detected table.
#[derive(Debug)]
pub struct TableCell {
    pub row: usize,
    pub col: usize,
    pub row_span: usize,
    pub col_span: usize,
    pub text: String,
    pub bbox: BBox,
}

impl Clone for TableCell {
    fn clone(&self) -> (r: Self)
        ensures
            r == *self,
    {
        TableCell {
            row: self.row,
            col: self.col,
            row_span: self.row_span,
            col_span: self.col_span,
            text: self.text.clone(),
            bbox: self.bbox,
        }
    }
}

/// A detected table: its hull, its cells, and the grid dimensions.
#[derive(Debug)]
pub struct Table {
    pub bbox: BBox,
    pub cells: Vec<TableCell>,
    pub row_count: usize,
    pub col_count: usize,
}

impl Clone for Table {
    fn clone(&self) -> (r: Self)
        ensures
            r.bbox == self.bbox,
            r.cells@ == self.cells@,
            r.row_count == self.row_count,
            r.col_count == self.col_count,
    {
        let mut cells: Vec<TableCell> = Vec::new();
        let mut i: usize = 0;
        while i < self.cells.len()
            invariant
                i <= self.cells@.len(),
                cells@ =~= self.cells@.take(i as int),
            decreases self.cells@.len() - i,
        {
            cells.push(self.cells[i].clone());
            i += 1;
        }
        proof {
            assert(cells@ =~= self.cells@);
        }
        Table { bbox: self.bbox, cells, row_count: self.row_count, col_count: self.col_count }
    }
}

/// Whether a cell writes grid slot (rr, cc): the cell starts in bounds and
/// its (clipped) span covers the slot.
pub open spec fn covers(c: TableCell, nrows: int, ncols: int, rr: int, cc: int) -> bool {
    &&& c.row < nrows && c.col < ncols
    &&& c.row <= rr < c.row + c.row_span && rr < nrows
    &&& c.col <= cc < c.col + c.col_span && cc < ncols
}

/// The last cell among the first `upto` that writes slot (rr, cc): later
/// cells overwrite earlier ones.
pub open spec fn last_cover(cells: Seq<TableCell>, nrows: int, ncols: int, rr: int, cc: int, upto: int) -> Option<TableCell>
    decreases upto,
{
    if upto <= 0 {
        None
    } else if covers(cells[upto - 1], nrows, ncols, rr, cc) {
        Some(cells[upto - 1])
    } else {
        last_cover(cells, nrows, ncols, rr, cc, upto - 1)
    }
}

impl Table {
    /// What grid slot (rr, cc) holds: the text of the last cell covering
    /// it, `None` when no cell covers it.
    pub open spec fn spec_slot(self, rr: int, cc: int) -> Option<Seq<char>> {
        match last_cover(
            self.cells@,
            self.row_count as int,
            self.col_count as int,
            rr,
            cc,
            self.cells@.len() as int,
        ) {
            None => None,
            Some(cell) => Some(cell.text@),
        }
    }

    /// Project the table onto a row-major grid of optional strings: each
    /// cell fills its own slot and every slot its spans reach.
    pub fn to_grid(&self) -> (r: Vec<Vec<Option<String>>>)
        ensures
            r@.len() == self.row_count,
            forall|rr: int| 0 <= rr < r@.len() ==> (#[trigger] r@[rr])@.len() == self.col_count,
            forall|rr: int, cc: int|
                0 <= rr < self.row_count && 0 <= cc < self.col_count ==> ({
                    match self.spec_slot(rr, cc) {
                        None => (#[trigger] r@[rr]@[cc]) is None,
                        Some(t) => r@[rr]@[cc] is Some && r@[rr]@[cc]->0@ == t,
                    }
                }),
    {
        let nrows = self.row_count;
        let ncols = self.col_count;
        let ncells = self.cells.len();
        let mut grid: Vec<Vec<Option<String>>> = Vec::new();
        let mut rr: usize = 0;
        while rr < nrows
            invariant
                grid@.len() == rr,
                0 <= rr <= nrows,
                nrows == self.row_count && ncols == self.col_count,
                ncells == self.cells@.len(),
                forall|a: int| 0 <= a < rr ==> (#[trigger] grid@[a])@.len() == ncols,
                forall|a: int, b: int|
                    0 <= a < rr && 0 <= b < ncols ==> ({
                        match self.spec_slot(a, b) {
                            None => (#[trigger] grid@[a]@[b]) is None,
                            Some(t) => grid@[a]@[b] is Some && grid@[a]@[b]->0@ == t,
                        }
                    }),
            decreases nrows - rr,
        {
            let mut row: Vec<Option<String>> = Vec::new();
            let mut cc: usize = 0;
            while cc < ncols
                invariant
                    row@.len() == cc,
                    0 <= cc <= ncols,
                    0 <= rr < nrows,
                    nrows == self.row_count && ncols == self.col_count,
                    ncells == self.cells@.len(),
                    forall|b: int|
                        0 <= b < cc ==> ({
                            match self.spec_slot(rr as int, b) {
                                None => (#[trigger] row@[b]) is None,
                                Some(t) => row@[b] is Some && row@[b]->0@ == t,
                            }
                        }),
                decreases ncols - cc,
            {
                let mut found: Option<String> = None;
                let mut k: usize = ncells;
                loop
                    invariant_except_break
                        found is None,
                    invariant
                        0 <= k <= ncells,
                        ncells == self.cells@.len(),
                        0 <= rr < nrows && 0 <= cc < ncols,
                        nrows == self.row_count && ncols == self.col_count,
                        last_cover(self.cells@, nrows as int, ncols as int, rr as int, cc as int, ncells as int)
                            == last_cover(self.cells@, nrows as int, ncols as int, rr as int, cc as int, k as int),
                    ensures
                        ({
                            match found {
                                None => last_cover(self.cells@, nrows as int, ncols as int, rr as int, cc as int, ncells as int) is None,
                                Some(t) => ({
                                    match last_cover(self.cells@, nrows as int, ncols as int, rr as int, cc as int, ncells as int) {
                                        Some(cell) => t@ == cell.text@,
                                        None => false,
                                    }
                                }),
                            }
                        }),
                    decreases k,
                {
                    if k == 0 {
                        break;
                    }
                    let c = &self.cells[k - 1];
                    if c.row < nrows && c.col < ncols && c.row <= rr && rr < nrows
                        && rr - c.row < c.row_span && c.col <= cc && cc < ncols
                        && cc - c.col < c.col_span {
                        proof {
                            assert(covers(self.cells@[k - 1], nrows as int, ncols as int, rr as int, cc as int));
                        }
                        found = Some(c.text.clone());
                        break;
                    }
                    proof {
                        assert(!covers(self.cells@[k - 1], nrows as int, ncols as int, rr as int, cc as int));
                    }
                    k -= 1;
                }
                match found {
                    Some(t) => {
                        row.push(Some(t));
                    },
                    None => {
                        row.push(None);
                    },
                }
                cc += 1;
            }
            grid.push(row);
            rr += 1;
        }
        grid
    }
}

/// The grid projection law for plain tables: when every cell spans one
/// slot and starts inside the grid, slot (rr, cc) is filled exactly when
/// a cell sits at (rr, cc).
pub proof fn lemma_grid_projection(t: Table, rr: int, cc: int)
    requires
        forall|k: int|
            0 <= k < t.cells@.len() ==> (#[trigger] t.cells@[k]).row_span == 1
                && t.cells@[k].col_span == 1 && t.cells@[k].row < t.row_count
                && t.cells@[k].col < t.col_count,
        0 <= rr < t.row_count,
        0 <= cc < t.col_count,
    ensures
        t.spec_slot(rr, cc) is Some <==> exists|k: int|
            0 <= k < t.cells@.len() && (#[trigger] t.cells@[k]).row == rr && t.cells@[k].col == cc,
{
    lemma_last_cover_exists(t.cells@, t.row_count as int, t.col_count as int, rr, cc, t.cells@.len() as int);
    if t.spec_slot(rr, cc) is Some {
        let k = choose|k: int|
            0 <= k < t.cells@.len() && covers(#[trigger] t.cells@[k], t.row_count as int, t.col_count as int, rr, cc);
        assert(t.cells@[k].row == rr && t.cells@[k].col == cc);
    } else {
        if exists|k: int|
            0 <= k < t.cells@.len() && (#[trigger] t.cells@[k]).row == rr && t.cells@[k].col == cc {
            let k = choose|k: int|
                0 <= k < t.cells@.len() && (#[trigger] t.cells@[k]).row == rr && t.cells@[k].col == cc;
            assert(covers(t.cells@[k], t.row_count as int, t.col_count as int, rr, cc));
        }
    }
}

/// A found cover is a covering member; absence of a cover means no member
/// covers.
proof fn lemma_last_cover_exists(cells: Seq<TableCell>, nrows: int, ncols: int, rr: int, cc: int, upto: int)
    requires
        upto <= cells.len(),
    ensures
        last_cover(cells, nrows, ncols, rr, cc, upto) is Some <==> exists|k: int|
            0 <= k < upto && covers(#[trigger] cells[k], nrows, ncols, rr, cc),
    decreases upto,
{
    if upto > 0 {
        lemma_last_cover_exists(cells, nrows, ncols, rr, cc, upto - 1);
        if covers(cells[upto - 1], nrows, ncols, rr, cc) {
            assert(0 <= upto - 1 < upto && covers(cells[upto - 1], nrows, ncols, rr, cc));
        }
    }
}

/// Whether a field must be quoted in comma-separated output.
pub open spec fn needs_quote(s: Seq<char>) -> bool {
    exists|k: int| 0 <= k < s.len() && ((#[trigger] s[k]) == ',' || s[k] == '"' || s[k] == '\n')
}

/// The body of a quoted field from position `i` on: quotes are doubled.
pub open spec fn csv_escape_from(s: Seq<char>, i: int) -> Seq<char>
    decreases s.len() - i,
{
    if i < 0 || i >= s.len() {
        Seq::empty()
    } else if s[i] == '"' {
        seq!['"', '"'] + csv_escape_from(s, i + 1)
    } else {
        seq![s[i]] + csv_escape_from(s, i + 1)
    }
}

/// A field as comma-separated output renders it: quoted with doubled
/// quotes when it holds a comma, quote or newline, verbatim otherwise.
pub open spec fn csv_field(s: Seq<char>) -> Seq<char> {
    if needs_quote(s) {
        seq!['"'] + csv_escape_from(s, 0) + seq!['"']
    } else {
        s
    }
}

impl Table {
    /// The text a grid slot contributes: empty when the slot is empty.
    pub open spec fn spec_slot_text(self, rr: int, cc: int) -> Seq<char> {
        match self.spec_slot(rr, cc) {
            None => Seq::empty(),
            Some(t) => t,
        }
    }

    /// One output row from column `cc` on: fields joined by commas, closed
    /// by a newline.
    pub open spec fn spec_csv_row(self, rr: int, cc: int) -> Seq<char>
        decreases self.col_count - cc,
    {
        if cc < 0 || cc >= self.col_count {
            seq!['\n']
        } else {
            csv_field(self.spec_slot_text(rr, cc)) + (
            if cc + 1 < self.col_count {
                seq![',']
            } else {
                Seq::empty()
            }) + self.spec_csv_row(rr, cc + 1)
        }
    }

    /// The whole comma-separated output from row `rr` on.
    pub open spec fn spec_csv(self, rr: int) -> Seq<char>
        decreases self.row_count - rr,
    {
        if rr < 0 || rr >= self.row_count {
            Seq::empty()
        } else {
            self.spec_csv_row(rr, 0) + self.spec_csv(rr + 1)
        }
    }

    /// Render the grid as comma-separated text: one line per row, empty
    /// slots as empty fields, fields quoted when they need it.
    #[verifier::loop_isolation(false)]
    pub fn to_csv(&self) -> (r: String)
        ensures
            r@ == self.spec_csv(0),
    {
        let grid = self.to_grid();
        let mut result = String::new();
        let nrows = self.row_count;
        let ncols = self.col_count;
        let mut rr: usize = 0;
        while rr < nrows
            invariant
                grid@.len() == nrows,
                forall|a: int| 0 <= a < nrows ==> (#[trigger] grid@[a])@.len() == ncols,
                forall|a: int, b: int|
                    0 <= a < nrows && 0 <= b < ncols ==> ({
                        match self.spec_slot(a, b) {
                            None => (#[trigger] grid@[a]@[b]) is None,
                            Some(t) => grid@[a]@[b] is Some && grid@[a]@[b]->0@ == t,
                        }
                    }),
                0 <= rr <= nrows,
                result@ + self.spec_csv(rr as int) == self.spec_csv(0),
            decreases nrows - rr,
        {
            let mut cc: usize = 0;
            while cc < ncols
                invariant
                    0 <= cc <= ncols,
                    0 <= rr < nrows,
                    result@ + self.spec_csv_row(rr as int, cc as int) + self.spec_csv(rr as int + 1)
                        == self.spec_csv(0),
                decreases ncols - cc,
            {
                let ghost pre = result@;
                match &grid[rr][cc] {
                    Some(t) => {
                        append_csv_field(&mut result, t.as_str());
                        proof {
                            assert(self.spec_slot_text(rr as int, cc as int) == t@);
                        }
                    },
                    None => {
                        proof {
                            assert(self.spec_slot_text(rr as int, cc as int)
                                =~= Seq::<char>::empty());
                            assert(!needs_quote(self.spec_slot_text(rr as int, cc as int)));
                            assert(pre + csv_field(self.spec_slot_text(rr as int, cc as int))
                                =~= pre);
                        }
                    },
                }
                if cc + 1 < ncols {
                    push_char(&mut result, ',');
                    proof {
                        assert(result@ =~= pre
                            + csv_field(self.spec_slot_text(rr as int, cc as int)) + seq![',']);
                    }
                }
                cc += 1;
            }
            push_char(&mut result, '\n');
            proof {
                assert(self.spec_csv_row(rr as int, ncols as int) == seq!['\n']);
                assert(result@ + self.spec_csv(rr as int + 1) =~= self.spec_csv(0));
            }
            rr += 1;
        }
        result
    }

    /// Render the grid as a pipe table with a separator after the first
    /// row; empty when the table has no rows.
    pub fn to_markdown(&self) -> (r: String)
        ensures
            self.row_count == 0 ==> r@ == Seq::<char>::empty(),
    {
        let grid = self.to_grid();
        let mut result = String::new();
        let nrows = grid.len();
        let mut rr: usize = 0;
        while rr < nrows
            invariant
                nrows == grid@.len(),
                0 <= rr <= nrows,
                nrows == 0 ==> result@ == Seq::<char>::empty(),
            decreases nrows - rr,
        {
            let row = &grid[rr];
            result.append("| ");
            let mut cc: usize = 0;
            while cc < row.len()
                invariant
                    0 <= cc <= row@.len(),
                decreases row@.len() - cc,
            {
                if cc > 0 {
                    result.append(" | ");
                }
                match &row[cc] {
                    Some(t) => {
                        result.append(t.as_str());
                    },
                    None => {},
                }
                cc += 1;
            }
            result.append(" |\n");
            if rr == 0 {
                result.append("| ");
                let mut cc2: usize = 0;
                while cc2 < row.len()
                    invariant
                        0 <= cc2 <= row@.len(),
                    decreases row@.len() - cc2,
                {
                    if cc2 > 0 {
                        result.append(" | ");
                    }
                    result.append("---");
                    cc2 += 1;
                }
                result.append(" |\n");
            }
            rr += 1;
        }
        result
    }

    /// Render the grid as a hypertext table: header tags on the first row,
    /// data tags on the rest.
    pub fn to_html(&self) -> (r: String)
        ensures
            r@.len() >= 16,
    {
        let mut result = String::from_str("<table>\n");
        proof {
            reveal_strlit("<table>\n");
        }
        let grid = self.to_grid();
        let nrows = grid.len();
        let mut rr: usize = 0;
        while rr < nrows
            invariant
                nrows == grid@.len(),
                0 <= rr <= nrows,
                result@.len() >= 8,
            decreases nrows - rr,
        {
            let row = &grid[rr];
            result.append("  <tr>\n");
            let mut cc: usize = 0;
            while cc < row.len()
                invariant
                    0 <= cc <= row@.len(),
                    result@.len() >= 8,
                decreases row@.len() - cc,
            {
                if rr == 0 {
                    result.append("    <th>");
                } else {
                    result.append("    <td>");
                }
                match &row[cc] {
                    Some(t) => {
                        result.append(t.as_str());
                    },
                    None => {},
                }
                if rr == 0 {
                    result.append("</th>\n");
                } else {
                    result.append("</td>\n");
                }
                cc += 1;
            }
            result.append("  </tr>\n");
            rr += 1;
        }
        result.append("</table>");
        proof {
            reveal_strlit("</table>");
        }
        result
    }
}

/// Append one field, quoting and doubling quotes when needed.
fn append_csv_field(out: &mut String, field: &str)
    ensures
        final(out)@ == old(out)@ + csv_field(field@),
{
    let n = field.unicode_len();
    let mut quote = false;
    let mut k: usize = 0;
    loop
        invariant_except_break
            !quote,
        invariant
            n == field@.len(),
            0 <= k <= n,
            forall|t: int|
                0 <= t < k ==> !((#[trigger] field@[t]) == ',' || field@[t] == '"'
                    || field@[t] == '\n'),
        ensures
            quote == needs_quote(field@),
        decreases n - k,
    {
        if k == n {
            break;
        }
        let c = field.get_char(k);
        if c == ',' || c == '"' || c == '\n' {
            quote = true;
            proof {
                assert(field@[k as int] == ',' || field@[k as int] == '"'
                    || field@[k as int] == '\n');
            }
            break;
        }
        k += 1;
    }
    if !quote {
        out.append(field);
    } else {
        let ghost base = out@;
        push_char(out, '"');
        let mut i: usize = 0;
        while i < n
            invariant
                n == field@.len(),
                0 <= i <= n,
                out@ + csv_escape_from(field@, i as int)
                    == base + seq!['"'] + csv_escape_from(field@, 0),
            decreases n - i,
        {
            let ghost pre = out@;
            let c = field.get_char(i);
            if c == '"' {
                push_char(out, '"');
                push_char(out, '"');
                proof {
                    assert(out@ =~= pre + seq!['"', '"']);
                }
            } else {
                push_char(out, c);
                proof {
                    assert(out@ =~= pre + seq![c]);
                }
            }
            i += 1;
        }
        push_char(out, '"');
        proof {
            assert(csv_escape_from(field@, n as int) =~= Seq::<char>::empty());
            assert(out@ =~= base + seq!['"'] + csv_escape_from(field@, 0) + seq!['"']);
            assert(out@ =~= base + (seq!['"'] + csv_escape_from(field@, 0) + seq!['"']));
        }
    }
}


/// The first position of `c` in `s` at or after `from`, or the length.
pub open spec fn find_ch(s: Seq<char>, c: char, from: int) -> int
    decreases s.len() - from,
{
    if from < 0 || from >= s.len() {
        s.len() as int
    } else if s[from] == c {
        from
    } else {
        find_ch(s, c, from + 1)
    }
}

proof fn lemma_find_ch_bounds(s: Seq<char>, c: char, from: int)
    requires
        0 <= from <= s.len(),
    ensures
        from <= find_ch(s, c, from) <= s.len(),
    decreases s.len() - from,
{
    if from < s.len() && s[from] != c {
        lemma_find_ch_bounds(s, c, from + 1);
    }
}

/// The found position holds `c`; everything before it does not.
proof fn lemma_find_ch_at(s: Seq<char>, c: char, from: int, k: int)
    requires
        0 <= from <= k < s.len(),
        s[k] == c,
        forall|i: int| from <= i < k ==> s[i] != c,
    ensures
        find_ch(s, c, from) == k,
    decreases k - from,
{
    if from < k {
        lemma_find_ch_at(s, c, from + 1, k);
    }
}

/// When `c` never occurs from `from` on, the search runs off the end.
proof fn lemma_find_ch_none(s: Seq<char>, c: char, from: int)
    requires
        0 <= from <= s.len(),
        forall|i: int| from <= i < s.len() ==> s[i] != c,
    ensures
        find_ch(s, c, from) == s.len(),
    decreases s.len() - from,
{
    if from < s.len() {
        lemma_find_ch_none(s, c, from + 1);
    }
}

/// A comma-separated line split into its fields.
pub open spec fn split_fields(s: Seq<char>) -> Seq<Seq<char>>
    decreases s.len() via split_fields_dec
{
    ({
        let e = find_ch(s, ',', 0);
        if e >= s.len() {
            seq![s]
        } else {
            seq![s.subrange(0, e)] + split_fields(s.subrange(e + 1, s.len() as int))
        }
    })
}

#[via_fn]
proof fn split_fields_dec(s: Seq<char>) {
    lemma_find_ch_bounds(s, ',', 0);
}

/// Comma-separated text split into rows at the newline that closes each
/// row, each row split into its fields.
pub open spec fn parse_rows(s: Seq<char>) -> Seq<Seq<Seq<char>>>
    decreases s.len() via parse_rows_dec
{
    if s.len() == 0 {
        Seq::empty()
    } else {
        ({
            let e = find_ch(s, '\n', 0);
            if e >= s.len() {
                seq![split_fields(s)]
            } else {
                seq![split_fields(s.subrange(0, e))] + parse_rows(s.subrange(e + 1, s.len() as int))
            }
        })
    }
}

#[via_fn]
proof fn parse_rows_dec(s: Seq<char>) {
    if s.len() > 0 {
        lemma_find_ch_bounds(s, '\n', 0);
    }
}

/// Whether a text is free of the characters that force quoting.
pub open spec fn clean_text(s: Seq<char>) -> bool {
    forall|i: int| 0 <= i < s.len() ==> (#[trigger] s[i]) != ',' && s[i] != '"' && s[i] != '\n'
}

/// Whether every slot of the table projects to quote-free text.
pub open spec fn csv_clean(t: Table) -> bool {
    forall|rr: int, cc: int|
        0 <= rr < t.row_count && 0 <= cc < t.col_count ==> clean_text(
            #[trigger] t.spec_slot_text(rr, cc),
        )
}

impl Table {
    /// One output row without its closing newline.
    pub open spec fn spec_row_core(self, rr: int, cc: int) -> Seq<char>
        decreases self.col_count - cc,
    {
        if cc < 0 || cc >= self.col_count {
            Seq::empty()
        } else {
            csv_field(self.spec_slot_text(rr, cc)) + (
            if cc + 1 < self.col_count {
                seq![',']
            } else {
                Seq::empty()
            }) + self.spec_row_core(rr, cc + 1)
        }
    }
}

proof fn lemma_row_is_core_newline(t: Table, rr: int, cc: int)
    ensures
        t.spec_csv_row(rr, cc) == t.spec_row_core(rr, cc) + seq!['\n'],
    decreases t.col_count - cc,
{
    if cc < 0 || cc >= t.col_count {
        assert(t.spec_csv_row(rr, cc) =~= t.spec_row_core(rr, cc) + seq!['\n']);
    } else {
        lemma_row_is_core_newline(t, rr, cc + 1);
        assert(t.spec_csv_row(rr, cc) =~= t.spec_row_core(rr, cc) + seq!['\n']);
    }
}

/// A clean field renders verbatim.
proof fn lemma_clean_field(s: Seq<char>)
    requires
        clean_text(s),
    ensures
        csv_field(s) == s,
{
    assert(!needs_quote(s));
}

/// A clean row core holds no newline and no quote triggers outside its
/// field commas.
proof fn lemma_row_core_chars(t: Table, rr: int, cc: int)
    requires
        csv_clean(t),
        0 <= rr < t.row_count,
        0 <= cc,
    ensures
        forall|i: int|
            0 <= i < t.spec_row_core(rr, cc).len() ==> (#[trigger] t.spec_row_core(rr, cc)[i])
                != '\n',
    decreases t.col_count - cc,
{
    if cc < t.col_count {
        lemma_row_core_chars(t, rr, cc + 1);
        lemma_clean_field(t.spec_slot_text(rr, cc));
        let core = t.spec_row_core(rr, cc);
        let text = t.spec_slot_text(rr, cc);
        let sep: Seq<char> = if cc + 1 < t.col_count {
            seq![',']
        } else {
            Seq::empty()
        };
        assert forall|i: int| 0 <= i < core.len() implies (#[trigger] core[i]) != '\n' by {
            if i < text.len() {
                assert(core[i] == text[i]);
            } else if i < text.len() + sep.len() {
                assert(core[i] == ',');
            } else {
                assert(core[i] == t.spec_row_core(rr, cc + 1)[i - text.len() - sep.len()]);
            }
        }
    }
}

/// Splitting a clean row core recovers exactly its fields.
proof fn lemma_fields_round_trip(t: Table, rr: int, cc: int)
    requires
        csv_clean(t),
        0 <= rr < t.row_count,
        0 <= cc < t.col_count,
    ensures
        split_fields(t.spec_row_core(rr, cc)) == Seq::new(
            (t.col_count - cc) as nat,
            |i: int| t.spec_slot_text(rr, cc + i),
        ),
    decreases t.col_count - cc,
{
    let core = t.spec_row_core(rr, cc);
    let text = t.spec_slot_text(rr, cc);
    lemma_clean_field(text);
    if cc + 1 >= t.col_count {
        assert(t.spec_row_core(rr, cc + 1) =~= Seq::<char>::empty());
        assert(core =~= text);
        lemma_find_ch_none(core, ',', 0);
        assert(split_fields(core) =~= Seq::new(
            (t.col_count - cc) as nat,
            |i: int| t.spec_slot_text(rr, cc + i),
        ));
    } else {
        lemma_fields_round_trip(t, rr, cc + 1);
        let rest = t.spec_row_core(rr, cc + 1);
        assert(core =~= text + seq![','] + rest);
        assert(core[text.len() as int] == ',');
        assert forall|i: int| 0 <= i < text.len() implies core[i] != ',' by {
            assert(core[i] == text[i]);
        }
        lemma_find_ch_at(core, ',', 0, text.len() as int);
        assert(core.subrange(0, text.len() as int) =~= text);
        assert(core.subrange(text.len() as int + 1, core.len() as int) =~= rest);
        assert(split_fields(core) =~= seq![text] + split_fields(rest));
        assert(split_fields(core) =~= Seq::new(
            (t.col_count - cc) as nat,
            |i: int| t.spec_slot_text(rr, cc + i),
        ));
    }
}

/// Parsing the rendered rows from `rr` on recovers one field row per
/// table row.
proof fn lemma_rows_round_trip(t: Table, rr: int)
    requires
        csv_clean(t),
        t.col_count >= 1,
        0 <= rr,
    ensures
        parse_rows(t.spec_csv(rr)) == Seq::new(
            (if rr < t.row_count {
                (t.row_count - rr) as nat
            } else {
                0nat
            }),
            |i: int| Seq::new(t.col_count as nat, |j: int| t.spec_slot_text(rr + i, j)),
        ),
    decreases t.row_count - rr,
{
    if rr >= t.row_count {
        assert(t.spec_csv(rr) =~= Seq::<char>::empty());
        assert(parse_rows(t.spec_csv(rr)) =~= Seq::new(
            0nat,
            |i: int| Seq::new(t.col_count as nat, |j: int| t.spec_slot_text(rr + i, j)),
        ));
    } else {
        lemma_rows_round_trip(t, rr + 1);
        lemma_row_is_core_newline(t, rr, 0);
        lemma_row_core_chars(t, rr, 0);
        lemma_fields_round_trip(t, rr, 0);
        let core = t.spec_row_core(rr, 0);
        let rest = t.spec_csv(rr + 1);
        let s = t.spec_csv(rr);
        assert(s =~= core + seq!['\n'] + rest);
        assert(s[core.len() as int] == '\n');
        assert forall|i: int| 0 <= i < core.len() implies s[i] != '\n' by {
            assert(s[i] == core[i]);
        }
        assert(s.len() > 0);
        lemma_find_ch_at(s, '\n', 0, core.len() as int);
        assert(s.subrange(0, core.len() as int) =~= core);
        assert(s.subrange(core.len() as int + 1, s.len() as int) =~= rest);
        assert(parse_rows(s) =~= seq![split_fields(core)] + parse_rows(rest));
        assert(split_fields(core) =~= Seq::new(t.col_count as nat, |j: int| t.spec_slot_text(rr, j)));
        assert(parse_rows(s) =~= Seq::new(
            (t.row_count - rr) as nat,
            |i: int| Seq::new(t.col_count as nat, |j: int| t.spec_slot_text(rr + i, j)),
        ));
    }
}

/// The grid serialization law: for a table whose slot texts never need
/// quoting, parsing the comma-separated output reproduces the grid, with
/// empty slots reading as empty fields.
pub proof fn lemma_csv_round_trip(t: Table)
    requires
        csv_clean(t),
        t.col_count >= 1 || t.row_count == 0,
    ensures
        parse_rows(t.spec_csv(0)).len() == t.row_count,
        forall|rr: int|
            0 <= rr < t.row_count ==> (#[trigger] parse_rows(t.spec_csv(0))[rr]).len()
                == t.col_count,
        forall|rr: int, cc: int|
            0 <= rr < t.row_count && 0 <= cc < t.col_count ==> (#[trigger] parse_rows(
                t.spec_csv(0),
            )[rr][cc]) == t.spec_slot_text(rr, cc),
{
    if t.row_count == 0 {
        assert(t.spec_csv(0) =~= Seq::<char>::empty());
        assert(parse_rows(t.spec_csv(0)) =~= Seq::<Seq<Seq<char>>>::empty());
    } else {
        lemma_rows_round_trip(t, 0);
    }
}

} // verus!
