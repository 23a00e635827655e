use std::io::Write;

use shn2xml::serialize::{serialize, serialize_chunks};
use shn2xml::types::{Cell, Column, DataType, Model, Row};

fn one_column_model() -> Model {
    Model {
        crypt_header: vec![0x00, 0x1a],
        columns: vec![Column {
            name: String::from("id"),
            data_type: DataType::UnsignedInteger,
        }],
        rows: vec![
            Row { cells: vec![Cell::UnsignedInteger(42)] },
            Row { cells: vec![Cell::UnsignedInteger(7)] },
        ],
    }
}

#[test]
fn end_to_end_one_column_two_rows() {
    let model = one_column_model();
    assert!(model.is_wf());
    let expected = "<?xml version=\"1.0\" encoding=\"utf-8\"?>\n\
                    <shnfile>\n\
                    \x20 <schema cryptheader=\"00 1a\">\n\
                    \x20   <shncolumn name=\"id\" type=\"u32\" />\n\
                    \x20 </schema>\n\
                    \x20 <row id=\"42\" />\n\
                    \x20 <row id=\"7\" />\n\
                    </shnfile>\n";
    assert_eq!(serialize(&model), expected);
}

#[test]
fn empty_model_serializes_to_bare_shnfile() {
    let model = Model { crypt_header: vec![], columns: vec![], rows: vec![] };
    assert!(model.is_wf());
    let expected = "<?xml version=\"1.0\" encoding=\"utf-8\"?>\n\
                    <shnfile>\n\
                    \x20 <schema cryptheader=\"\" />\n\
                    </shnfile>\n";
    assert_eq!(serialize(&model), expected);
}

#[test]
fn row_attributes_follow_schema_column_order() {
    let model = Model {
        crypt_header: vec![0xab],
        columns: vec![
            Column { name: String::from("zeta"), data_type: DataType::Byte },
            Column { name: String::from("alpha"), data_type: DataType::SignedShort },
            Column { name: String::from("mid"), data_type: DataType::StringFixedLen },
        ],
        rows: vec![Row {
            cells: vec![
                Cell::Byte(1),
                Cell::SignedShort(-5),
                Cell::StringFixedLen(String::from("x")),
            ],
        }],
    };
    assert!(model.is_wf());
    let out = serialize(&model);
    assert!(out.contains("<row zeta=\"1\" alpha=\"-5\" mid=\"x\" />"));
    assert!(out.contains(
        "<shncolumn name=\"zeta\" type=\"u8\" />\n    \
         <shncolumn name=\"alpha\" type=\"i16\" />\n    \
         <shncolumn name=\"mid\" type=\"StringFL\" />"
    ));
}

#[test]
fn attribute_values_are_escaped() {
    let model = Model {
        crypt_header: vec![],
        columns: vec![Column {
            name: String::from("note"),
            data_type: DataType::StringZeroTerminated,
        }],
        rows: vec![Row {
            cells: vec![Cell::StringZeroTerminated(String::from("a<b&\"c\"'d'>e"))],
        }],
    };
    assert!(model.is_wf());
    let out = serialize(&model);
    assert!(out.contains("<row note=\"a&lt;b&amp;&quot;c&quot;&apos;d&apos;&gt;e\" />"));
}

#[test]
fn chunks_join_to_the_whole_document() {
    let model = one_column_model();
    let chunks = serialize_chunks(&model);
    assert_eq!(chunks.len(), model.rows.len() + 2);
    let joined: String = chunks.concat();
    assert_eq!(joined, serialize(&model));
}

/// A sink that accepts only a fixed number of bytes, then fails.
struct ShortSink {
    budget: usize,
    written: Vec<u8>,
}

impl Write for ShortSink {
    fn write(&mut self, buf: &[u8]) -> std::io::Result<usize> {
        if buf.len() > self.budget {
            return Err(std::io::Error::new(std::io::ErrorKind::WriteZero, "sink full"));
        }
        self.budget -= buf.len();
        self.written.extend_from_slice(buf);
        Ok(buf.len())
    }

    fn flush(&mut self) -> std::io::Result<()> {
        Ok(())
    }
}

#[test]
fn write_failure_mid_rows_surfaces_as_io_error() {
    let model = one_column_model();
    let chunks = serialize_chunks(&model);
    let prologue_len = chunks[0].len();
    // Room for the prologue and the first row only: the second row's write fails.
    let mut sink = ShortSink { budget: prologue_len + chunks[1].len(), written: Vec::new() };
    let mut result = Ok(());
    for chunk in &chunks {
        result = sink.write_all(chunk.as_bytes());
        if result.is_err() {
            break;
        }
    }
    assert!(result.is_err());
    let partial = String::from_utf8(sink.written).unwrap();
    assert!(partial.ends_with("<row id=\"42\" />\n"));
    assert!(!partial.contains("</shnfile>"));
}
