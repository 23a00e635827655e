//! The XML rendering of a decoded file: one `schema` element carrying the
//! hex-rendered header and one `shncolumn` element per column, then one
//! `row` element per data row whose attributes are, in schema column
//! order, the column names paired with the canonical cell texts.

use vstd::prelude::*;
use vstd::string::StringExecFns;

use crate::escape::{escape_text, push_escaped};
use crate::text::{hex_string, hex_text};
use crate::types::{cell_text, format_cell, type_to_str, type_token, Cell, Column, Model, Row};

verus! {

/// One attribute inside a start tag: a leading space, the name verbatim,
/// and the escaped value between double quotes.
pub open spec fn attr_text(name: Seq<char>, value: Seq<char>) -> Seq<char> {
    " "@ + name + "=\""@ + escape_text(value) + "\""@
}

/// Appends one attribute.
fn push_attr(out: &mut String, name: &str, value: &str)
    ensures
        final(out)@ == old(out)@ + attr_text(name@, value@),
{
    out.append(" ");
    out.append(name);
    out.append("=\"");
    push_escaped(out, value);
    out.append("\"");
    assert(out@ =~= old(out)@ + attr_text(name@, value@));
}

/// One `shncolumn` element: the column name and its type token.
pub open spec fn column_text(c: Column) -> Seq<char> {
    "    <shncolumn"@ + attr_text("name"@, c.name@) + attr_text("type"@, type_token(c.data_type))
        + " />\n"@
}

/// Appends one `shncolumn` element.
fn push_column(out: &mut String, c: &Column)
    ensures
        final(out)@ == old(out)@ + column_text(*c),
{
    out.append("    <shncolumn");
    push_attr(out, "name", c.name.as_str());
    push_attr(out, "type", type_to_str(&c.data_type));
    out.append(" />\n");
    assert(out@ =~= old(out)@ + column_text(*c));
}

/// The `shncolumn` elements of all columns, in schema order.
pub open spec fn columns_text(cols: Seq<Column>) -> Seq<char>
    decreases cols.len(),
{
    if cols.len() == 0 {
        Seq::empty()
    } else {
        columns_text(cols.drop_last()) + column_text(cols.last())
    }
}

/// The whole `schema` element: its `cryptheader` attribute and its
/// `shncolumn` children; self-closing when the schema has no columns.
pub open spec fn schema_text(header: Seq<u8>, cols: Seq<Column>) -> Seq<char> {
    if cols.len() == 0 {
        "  <schema"@ + attr_text("cryptheader"@, hex_text(header)) + " />\n"@
    } else {
        "  <schema"@ + attr_text("cryptheader"@, hex_text(header)) + ">\n"@ + columns_text(cols)
            + "  </schema>\n"@
    }
}

/// Appends the `schema` element of the model.
fn push_schema(out: &mut String, m: &Model)
    ensures
        final(out)@ == old(out)@ + schema_text(m.crypt_header@, m.columns@),
{
    out.append("  <schema");
    let hex = hex_string(&m.crypt_header);
    push_attr(out, "cryptheader", hex.as_str());
    if m.columns.len() == 0 {
        out.append(" />\n");
        assert(out@ =~= old(out)@ + schema_text(m.crypt_header@, m.columns@));
    } else {
        out.append(">\n");
        let ghost base = out@;
        let mut i: usize = 0;
        while i < m.columns.len()
            invariant
                i <= m.columns@.len(),
                out@ == base + columns_text(m.columns@.take(i as int)),
            decreases m.columns@.len() - i,
        {
            push_column(out, &m.columns[i]);
            proof {
                assert(m.columns@.take(i + 1).drop_last() =~= m.columns@.take(i as int));
                assert(m.columns@.take(i + 1).last() == m.columns@[i as int]);
                assert(out@ =~= base + columns_text(m.columns@.take(i + 1)));
            }
            i = i + 1;
        }
        out.append("  </schema>\n");
        proof {
            assert(m.columns@.take(m.columns@.len() as int) =~= m.columns@);
            assert(out@ =~= old(out)@ + schema_text(m.crypt_header@, m.columns@));
        }
    }
}

/// The first `n` attributes of a row: the column names, in schema order,
/// each paired with the canonical text of the cell at the same position.
pub open spec fn row_attrs_text(cols: Seq<Column>, cells: Seq<Cell>, n: int) -> Seq<char>
    decreases n,
{
    if n <= 0 {
        Seq::empty()
    } else {
        row_attrs_text(cols, cells, n - 1) + attr_text(cols[n - 1].name@, cell_text(cells[n - 1]))
    }
}

/// One `row` element: its attributes follow the schema column order.
pub open spec fn row_text(cols: Seq<Column>, r: Row) -> Seq<char> {
    "  <row"@ + row_attrs_text(cols, r.cells@, cols.len() as int) + " />\n"@
}

/// One `row` element, rendered on its own: attribute names from the
/// schema, attribute values from the cells, in schema column order.
pub fn serialize_row(cols: &Vec<Column>, r: &Row) -> (s: String)
    requires
        r.cells@.len() == cols@.len(),
    ensures
        s@ == row_text(cols@, *r),
{
    let mut out = String::new();
    out.append("  <row");
    let mut i: usize = 0;
    while i < cols.len()
        invariant
            i <= cols@.len(),
            r.cells@.len() == cols@.len(),
            out@ == "  <row"@ + row_attrs_text(cols@, r.cells@, i as int),
        decreases cols@.len() - i,
    {
        let value = format_cell(&r.cells[i]);
        let col = &cols[i];
        push_attr(&mut out, col.name.as_str(), value.as_str());
        i = i + 1;
        assert(out@ =~= "  <row"@ + row_attrs_text(cols@, r.cells@, i as int));
    }
    out.append(" />\n");
    assert(out@ =~= row_text(cols@, *r));
    out
}

/// The `row` elements of all rows, in row order.
pub open spec fn rows_text(cols: Seq<Column>, rows: Seq<Row>) -> Seq<char>
    decreases rows.len(),
{
    if rows.len() == 0 {
        Seq::empty()
    } else {
        rows_text(cols, rows.drop_last()) + row_text(cols, rows.last())
    }
}

/// Everything before the rows: the XML declaration, the root start tag and
/// the `schema` element.
pub open spec fn prologue_text(m: Model) -> Seq<char> {
    "<?xml version=\"1.0\" encoding=\"utf-8\"?>\n<shnfile>\n"@ + schema_text(
        m.crypt_header@,
        m.columns@,
    )
}

/// Everything after the rows: the root end tag.
pub open spec fn epilogue_text() -> Seq<char> {
    "</shnfile>\n"@
}

/// The whole document.
pub open spec fn document_text(m: Model) -> Seq<char> {
    prologue_text(m) + rows_text(m.columns@, m.rows@) + epilogue_text()
}

/// The document prologue, rendered on its own.
pub fn serialize_prologue(m: &Model) -> (s: String)
    ensures
        s@ == prologue_text(*m),
{
    let mut out = String::from_str("<?xml version=\"1.0\" encoding=\"utf-8\"?>\n<shnfile>\n");
    push_schema(&mut out, m);
    out
}

/// The document epilogue, rendered on its own.
pub fn serialize_epilogue() -> (s: String)
    ensures
        s@ == epilogue_text(),
{
    String::from_str("</shnfile>\n")
}

/// The whole document in one string.
pub fn serialize(m: &Model) -> (s: String)
    requires
        m.wf(),
    ensures
        s@ == document_text(*m),
{
    let mut out = serialize_prologue(m);
    let mut i: usize = 0;
    while i < m.rows.len()
        invariant
            m.wf(),
            i <= m.rows@.len(),
            out@ == prologue_text(*m) + rows_text(m.columns@, m.rows@.take(i as int)),
        decreases m.rows@.len() - i,
    {
        assert(crate::types::row_wf(m.rows@[i as int], m.columns@));
        let row_s = serialize_row(&m.columns, &m.rows[i]);
        out.append(row_s.as_str());
        proof {
            assert(m.rows@.take(i + 1).drop_last() =~= m.rows@.take(i as int));
            assert(m.rows@.take(i + 1).last() == m.rows@[i as int]);
            assert(out@ =~= prologue_text(*m) + rows_text(m.columns@, m.rows@.take(i + 1)));
        }
        i = i + 1;
    }
    out.append("</shnfile>\n");
    proof {
        assert(m.rows@.take(m.rows@.len() as int) =~= m.rows@);
        assert(out@ =~= document_text(*m));
    }
    out
}

/// The texts of the serialization chunks of a model: the prologue, one
/// chunk per row, and the epilogue.
pub open spec fn chunk_texts(m: Model) -> Seq<Seq<char>> {
    seq![prologue_text(m)] + m.rows@.map_values(|r: Row| row_text(m.columns@, r)) + seq![
        epilogue_text(),
    ]
}

/// A sequence of texts joined in order, with nothing between them.
pub open spec fn joined(texts: Seq<Seq<char>>) -> Seq<char>
    decreases texts.len(),
{
    if texts.len() == 0 {
        Seq::empty()
    } else {
        joined(texts.drop_last()) + texts.last()
    }
}

proof fn lemma_joined_rows(p: Seq<char>, cols: Seq<Column>, rows: Seq<Row>)
    ensures
        joined(seq![p] + rows.map_values(|r: Row| row_text(cols, r))) == p + rows_text(cols, rows),
    decreases rows.len(),
{
    let f = |r: Row| row_text(cols, r);
    if rows.len() == 0 {
        assert(seq![p] + rows.map_values(f) =~= seq![p]);
        assert((seq![p]).drop_last() =~= Seq::<Seq<char>>::empty());
        assert(joined(seq![p]) == joined(Seq::<Seq<char>>::empty()) + p);
        assert(Seq::empty() + p =~= p);
        assert(p + rows_text(cols, rows) =~= p);
    } else {
        let rest = rows.drop_last();
        lemma_joined_rows(p, cols, rest);
        let whole = seq![p] + rows.map_values(f);
        assert(whole.drop_last() =~= seq![p] + rest.map_values(f));
        assert(whole.last() == row_text(cols, rows.last()));
        assert(joined(whole) == (p + rows_text(cols, rest)) + row_text(cols, rows.last()));
        assert((p + rows_text(cols, rest)) + row_text(cols, rows.last()) =~= p + rows_text(
            cols,
            rows,
        ));
    }
}

/// The chunks of a model, joined in order, are exactly its whole document:
/// emitting the prologue, then each row chunk in row order, then the
/// epilogue reproduces the single-string serialization, so a writer that
/// stops at the first failed chunk never reorders or invents output.
pub proof fn lemma_chunks_join(m: Model)
    ensures
        joined(chunk_texts(m)) == document_text(m),
{
    let f = |r: Row| row_text(m.columns@, r);
    let prefix = seq![prologue_text(m)] + m.rows@.map_values(f);
    lemma_joined_rows(prologue_text(m), m.columns@, m.rows@);
    assert(chunk_texts(m).drop_last() =~= prefix);
    assert(chunk_texts(m).last() == epilogue_text());
    assert(joined(chunk_texts(m)) == joined(prefix) + epilogue_text());
}

/// The serialization as a sequence of chunks: the prologue, one chunk per
/// row in row order, and the epilogue.
pub fn serialize_chunks(m: &Model) -> (chunks: Vec<String>)
    requires
        m.wf(),
    ensures
        chunks@.map_values(|c: String| c@) == chunk_texts(*m),
        chunks@.len() == m.rows@.len() + 2,
{
    let mut chunks: Vec<String> = Vec::new();
    chunks.push(serialize_prologue(m));
    let mut i: usize = 0;
    while i < m.rows.len()
        invariant
            m.wf(),
            i <= m.rows@.len(),
            chunks@.len() == i + 1,
            chunks@[0]@ == prologue_text(*m),
            forall|j: int| 0 <= j < i ==> (#[trigger] chunks@[j + 1])@ == row_text(
                m.columns@,
                m.rows@[j],
            ),
        decreases m.rows@.len() - i,
    {
        assert(crate::types::row_wf(m.rows@[i as int], m.columns@));
        let row_s = serialize_row(&m.columns, &m.rows[i]);
        chunks.push(row_s);
        i = i + 1;
    }
    chunks.push(serialize_epilogue());
    proof {
        let lhs = chunks@.map_values(|c: String| c@);
        let rhs = chunk_texts(*m);
        let row_texts = m.rows@.map_values(|r: Row| row_text(m.columns@, r));
        assert(lhs.len() == rhs.len());
        assert forall|k: int| 0 <= k < lhs.len() implies lhs[k] == rhs[k] by {
            assert(lhs[k] == chunks@[k]@);
            if k == 0 {
                assert(rhs[0] == prologue_text(*m));
            } else if k < lhs.len() - 1 {
                assert(chunks@[(k - 1) + 1]@ == row_text(m.columns@, m.rows@[k - 1]));
                assert(rhs[k] == row_texts[k - 1]);
                assert(row_texts[k - 1] == row_text(m.columns@, m.rows@[k - 1]));
            } else {
                assert(rhs[k] == epilogue_text());
            }
        }
        assert(lhs =~= rhs);
    }
    chunks
}

} // verus!
