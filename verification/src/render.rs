//! Rows of the report as delimited text.

use std::string::FromUtf8Error;
use vstd::prelude::*;
use vstd::slice::slice_to_vec;
use vstd::string::StringSliceAdditionalSpecFns;
use vstd::utf8::{
    decode_utf8, encode_utf8, encode_utf8_decode_utf8, encode_utf8_valid_utf8, is_ascii_chars,
    is_ascii_chars_encode_utf8, valid_utf8,
};

use crate::decimal::{
    decimal_text, digits, digits_stand_for_number, is_decimal_character, is_digit, push_digits,
    text_is_decimal_characters,
};
use crate::error::ReportError;
use crate::report::ClientRow;

verus! {

/// Error of the `csv` crate.
#[verifier::external_type_specification]
#[verifier::external_body]
pub struct ExCsvError(csv::Error);

/// Error of `String::from_utf8`.
#[verifier::external_type_specification]
#[verifier::external_body]
pub struct ExFromUtf8Error(FromUtf8Error);

/// The texts that a vector of fields holds.
pub open spec fn texts(fields: Seq<Vec<u8>>) -> Seq<Seq<u8>> {
    Seq::new(fields.len(), |i: int| fields[i]@)
}

/// Whether the character has a meaning of its own in delimited text: the
/// comma, the quotation mark, the carriage return and the line feed.
pub open spec fn is_special(byte: u8) -> bool {
    byte == ',' as u8 || byte == '"' as u8 || byte == '\r' as u8 || byte == '\n' as u8
}

/// Whether a record is written as it stands: it has a first field, which is
/// not empty, and no field holds a special character.
pub open spec fn plain(fields: Seq<Seq<u8>>) -> bool {
    &&& fields.len() >= 1
    &&& fields[0].len() >= 1
    &&& forall|i: int, j: int|
        0 <= i < fields.len() && 0 <= j < fields[i].len() ==> !is_special(#[trigger] fields[i][j])
}

/// The fields, with a comma between each two of them.
pub open spec fn comma_separated(fields: Seq<Seq<u8>>) -> Seq<u8>
    decreases fields.len(),
{
    if fields.len() == 0 {
        Seq::empty()
    } else if fields.len() == 1 {
        fields[0]
    } else {
        comma_separated(fields.drop_last()) + seq![',' as u8] + fields.last()
    }
}

/// The line of a record: its fields between commas, and a line feed.
pub open spec fn line_of(fields: Seq<Seq<u8>>) -> Seq<u8> {
    comma_separated(fields) + seq!['\n' as u8]
}

/// Writes one record with `csv::Writer::write_record`, on a writer of the
/// default settings made by `csv::Writer::from_writer` over an empty vector,
/// and gives back the vector that `csv::Writer::into_inner` returns.
///
/// Not proved: that the record is written, and that a record which begins
/// with a field that is not empty, and in which no field holds a comma, a
/// quotation mark, a carriage return or a line feed, is written as its
/// fields between commas and a line feed. The writer fails only where the
/// vector refuses bytes, which a vector never does, or where an earlier
/// record of the same writer had another number of fields, and this writer
/// has no earlier record.
#[verifier::external_body]
fn encode_record(fields: &Vec<Vec<u8>>) -> (encoded: Result<Vec<u8>, csv::Error>)
    requires
        plain(texts(fields@)),
    ensures
        encoded is Ok,
        encoded matches Ok(bytes) ==> bytes@ == line_of(texts(fields@)),
{
    let mut writer = csv::Writer::from_writer(Vec::new());
    writer.write_record(fields)?;
    writer.into_inner().map_err(|failed| csv::Error::from(failed.into_error()))
}

/// Converts bytes to text with `String::from_utf8`.
///
/// Not proved: that the conversion succeeds exactly on valid UTF-8, and that
/// the text is then what the bytes encode.
#[verifier::external_body]
fn text_from_utf8(bytes: Vec<u8>) -> (text: Result<String, FromUtf8Error>)
    ensures
        match text {
            Ok(decoded) => valid_utf8(bytes@) && decoded@ == decode_utf8(bytes@),
            Err(_) => !valid_utf8(bytes@),
        },
{
    String::from_utf8(bytes)
}

/// Whether every character is an ASCII character.
pub open spec fn is_ascii(bytes: Seq<u8>) -> bool {
    forall|i: int| 0 <= i < bytes.len() ==> #[trigger] bytes[i] < 128
}

/// The text that ASCII characters make.
pub open spec fn as_text(bytes: Seq<u8>) -> Seq<char> {
    Seq::new(bytes.len(), |i: int| bytes[i] as char)
}

/// ASCII characters are UTF-8, and encode the text that they make.
pub proof fn ascii_is_text(bytes: Seq<u8>)
    requires
        is_ascii(bytes),
    ensures
        valid_utf8(bytes),
        decode_utf8(bytes) == as_text(bytes),
{
    let text = as_text(bytes);
    assert(is_ascii_chars(text)) by {
        assert forall|i: int| 0 <= i < text.len() implies '\0' <= #[trigger] text[i]
            <= '\u{7f}' by {
            assert(bytes[i] < 128);
        }
    }
    is_ascii_chars_encode_utf8(text);
    assert(encode_utf8(text) =~= bytes) by {
        assert forall|i: int| 0 <= i < bytes.len() implies encode_utf8(text)[i] == bytes[i] by {
            assert(text[i] as u8 == encode_utf8(text)[i]);
            assert(bytes[i] < 128);
        }
    }
    encode_utf8_valid_utf8(text);
    encode_utf8_decode_utf8(text);
}

/// The names of the columns of the report.
pub open spec fn header() -> Seq<Seq<u8>> {
    seq![
        "client".spec_bytes(),
        "available".spec_bytes(),
        "held".spec_bytes(),
        "total".spec_bytes(),
        "locked".spec_bytes(),
    ]
}

/// The text that stands for a truth value.
pub open spec fn truth_text(value: bool) -> Seq<u8> {
    if value {
        "true".spec_bytes()
    } else {
        "false".spec_bytes()
    }
}

impl ClientRow {
    /// The fields of the row as text: the client as a decimal number, the
    /// three amounts as decimal text, and the lock as a truth value.
    pub open spec fn field_texts(self) -> Seq<Seq<u8>> {
        seq![
            digits(self.client as nat),
            decimal_text(self.available@),
            decimal_text(self.held@),
            decimal_text(self.total@),
            truth_text(self.locked),
        ]
    }

    /// The fields of the row as text, see [`ClientRow::field_texts`].
    pub fn fields(&self) -> (fields: Vec<Vec<u8>>)
        ensures
            texts(fields@) == self.field_texts(),
    {
        let mut client: Vec<u8> = Vec::new();
        push_digits(self.client as u64, &mut client);
        let locked = if self.locked {
            slice_to_vec("true".as_bytes())
        } else {
            slice_to_vec("false".as_bytes())
        };
        let mut fields: Vec<Vec<u8>> = Vec::new();
        fields.push(client);
        fields.push(self.available.to_text());
        fields.push(self.held.to_text());
        fields.push(self.total.to_text());
        fields.push(locked);
        assert(texts(fields@) =~= self.field_texts());
        fields
    }
}

/// The fields of the header, see [`header`].
pub fn header_fields() -> (fields: Vec<Vec<u8>>)
    ensures
        texts(fields@) == header(),
{
    let mut fields: Vec<Vec<u8>> = Vec::new();
    fields.push(slice_to_vec("client".as_bytes()));
    fields.push(slice_to_vec("available".as_bytes()));
    fields.push(slice_to_vec("held".as_bytes()));
    fields.push(slice_to_vec("total".as_bytes()));
    fields.push(slice_to_vec("locked".as_bytes()));
    assert(texts(fields@) =~= header());
    fields
}

/// Whether the character is a small letter.
spec fn is_letter(byte: u8) -> bool {
    'a' as u8 <= byte <= 'z' as u8
}

/// Whether a field is made of small letters only.
spec fn all_letters(field: Seq<u8>) -> bool {
    forall|i: int| 0 <= i < field.len() ==> is_letter(#[trigger] field[i])
}

/// The bytes of a text of small letters are those letters.
proof fn letters_encode_as_letters(word: Seq<char>)
    requires
        forall|i: int| 0 <= i < word.len() ==> 'a' <= #[trigger] word[i] <= 'z',
    ensures
        encode_utf8(word).len() == word.len(),
        all_letters(encode_utf8(word)),
{
    assert(is_ascii_chars(word));
    is_ascii_chars_encode_utf8(word);
    assert forall|i: int| 0 <= i < encode_utf8(word).len() implies is_letter(
        #[trigger] encode_utf8(word)[i],
    ) by {
        assert(word[i] as u8 == encode_utf8(word)[i]);
    }
}

/// The names of the columns and of the truth values are made of small
/// letters.
proof fn names_are_letters()
    ensures
        forall|i: int| 0 <= i < header().len() ==> all_letters(#[trigger] header()[i]),
        header()[0].len() == 6,
        all_letters(truth_text(true)),
        all_letters(truth_text(false)),
{
    reveal_strlit("client");
    reveal_strlit("available");
    reveal_strlit("held");
    reveal_strlit("total");
    reveal_strlit("locked");
    reveal_strlit("true");
    reveal_strlit("false");
    letters_encode_as_letters("client"@);
    letters_encode_as_letters("available"@);
    letters_encode_as_letters("held"@);
    letters_encode_as_letters("total"@);
    letters_encode_as_letters("locked"@);
    letters_encode_as_letters("true"@);
    letters_encode_as_letters("false"@);
}

/// Whether a field is made of ASCII characters none of which is special.
spec fn harmless(field: Seq<u8>) -> bool {
    forall|i: int| 0 <= i < field.len() ==> (#[trigger] field[i]) < 128 && !is_special(field[i])
}

/// The header is written as it stands, in ASCII characters.
proof fn header_is_harmless()
    ensures
        plain(header()),
        forall|i: int| 0 <= i < header().len() ==> harmless(#[trigger] header()[i]),
{
    names_are_letters();
    assert forall|i: int| 0 <= i < header().len() implies harmless(#[trigger] header()[i]) by {
        assert(all_letters(header()[i]));
        assert forall|j: int| 0 <= j < header()[i].len() implies (#[trigger] header()[i][j]) < 128
            && !is_special(header()[i][j]) by {
            assert(is_letter(header()[i][j]));
        }
    }
    assert forall|i: int, j: int|
        0 <= i < header().len() && 0 <= j < header()[i].len() implies !is_special(
        #[trigger] header()[i][j],
    ) by {
        assert(harmless(header()[i]));
    }
}

/// The fields of a row are written as they stand, in ASCII characters.
proof fn row_is_harmless(row: ClientRow)
    ensures
        plain(row.field_texts()),
        forall|i: int|
            0 <= i < row.field_texts().len() ==> harmless(#[trigger] row.field_texts()[i]),
{
    let fields = row.field_texts();
    names_are_letters();
    digits_stand_for_number(row.client as nat);
    text_is_decimal_characters(row.available@);
    text_is_decimal_characters(row.held@);
    text_is_decimal_characters(row.total@);
    assert forall|i: int| 0 <= i < fields.len() implies harmless(#[trigger] fields[i]) by {
        assert forall|j: int| 0 <= j < fields[i].len() implies (#[trigger] fields[i][j]) < 128
            && !is_special(fields[i][j]) by {
            if i == 0 {
                assert(is_digit(fields[i][j]));
            } else if i == 4 {
                assert(is_letter(fields[i][j]));
            } else {
                assert(is_decimal_character(fields[i][j]));
            }
        }
    }
    assert forall|i: int, j: int|
        0 <= i < fields.len() && 0 <= j < fields[i].len() implies !is_special(
        #[trigger] fields[i][j],
    ) by {
        assert(harmless(fields[i]));
    }
}

/// Fields in ASCII characters make a line in ASCII characters.
proof fn line_is_ascii(fields: Seq<Seq<u8>>)
    requires
        forall|i: int| 0 <= i < fields.len() ==> harmless(#[trigger] fields[i]),
    ensures
        is_ascii(comma_separated(fields)),
        is_ascii(line_of(fields)),
    decreases fields.len(),
{
    if fields.len() == 1 {
        assert(harmless(fields[0]));
    } else if fields.len() > 1 {
        line_is_ascii(fields.drop_last());
        assert(harmless(fields.last()));
    }
}

/// Lines in ASCII characters make a text in ASCII characters.
proof fn lines_are_ascii(lines: Seq<Seq<u8>>)
    requires
        forall|i: int| 0 <= i < lines.len() ==> is_ascii(#[trigger] lines[i]),
    ensures
        is_ascii(lines.flatten()),
    decreases lines.len(),
{
    if lines.len() > 0 {
        lines_are_ascii(lines.drop_first());
        assert(is_ascii(lines.first()));
    }
}

/// The records of the report of the rows, each as its fields: the header,
/// then the rows. The report of no rows has no record.
pub open spec fn records_of(rows: Seq<ClientRow>) -> Seq<Seq<Seq<u8>>> {
    if rows.len() == 0 {
        Seq::empty()
    } else {
        seq![header()] + rows.map_values(|row: ClientRow| row.field_texts())
    }
}

/// The report of the rows: the line of the header, then the lines of the
/// rows, all in ASCII characters. The report of no rows is empty.
pub open spec fn document(rows: Seq<ClientRow>) -> Seq<u8> {
    records_of(rows).map_values(|fields: Seq<Seq<u8>>| line_of(fields)).flatten()
}

/// The report of rows is made of ASCII characters.
pub proof fn document_is_ascii(rows: Seq<ClientRow>)
    ensures
        is_ascii(document(rows)),
{
    let lines = records_of(rows).map_values(|fields: Seq<Seq<u8>>| line_of(fields));
    assert forall|i: int| 0 <= i < lines.len() implies is_ascii(#[trigger] lines[i]) by {
        if i == 0 {
            header_is_harmless();
            line_is_ascii(header());
        } else {
            row_is_harmless(rows[i - 1]);
            line_is_ascii(rows[i - 1].field_texts());
        }
    }
    lines_are_ascii(lines);
}

/// The text that records make when they are written one after the other.
///
/// The answer is [`ReportError::Utf8`] exactly where the bytes of the
/// records are no UTF-8 text.
pub fn join_records(records: &Vec<Vec<u8>>) -> (joined: Result<String, ReportError>)
    ensures
        match joined {
            Ok(text) => valid_utf8(texts(records@).flatten()) && text@ == decode_utf8(
                texts(records@).flatten(),
            ),
            Err(reason) => reason == ReportError::Utf8 && !valid_utf8(texts(records@).flatten()),
        },
{
    let mut bytes: Vec<u8> = Vec::new();
    let mut i: usize = 0;
    while i < records.len()
        invariant
            i <= records@.len(),
            bytes@ == texts(records@.take(i as int)).flatten(),
        decreases records@.len() - i,
    {
        let record = &records[i];
        let mut j: usize = 0;
        while j < record.len()
            invariant
                j <= record@.len(),
                bytes@ == texts(records@.take(i as int)).flatten() + record@.take(j as int),
            decreases record@.len() - j,
        {
            bytes.push(record[j]);
            assert(record@.take(j + 1) =~= record@.take(j as int).push(record@[j as int]));
            j = j + 1;
        }
        proof {
            assert(record@.take(j as int) =~= record@);
            assert(texts(records@.take(i + 1)) =~= texts(records@.take(i as int)).push(record@));
            texts(records@.take(i as int)).lemma_flatten_push(record@);
        }
        i = i + 1;
    }
    proof {
        assert(records@.take(i as int) =~= records@);
    }
    match text_from_utf8(bytes) {
        Ok(text) => Ok(text),
        Err(error) => Err(ReportError::from(error)),
    }
}

/// The report of the rows as text, see [`document`].
///
/// Each row is written as one delimited record, after a record of the
/// column names. The report is always given: the header and the fields of a
/// row hold nothing that a record could not be written with.
pub fn render(rows: &Vec<ClientRow>) -> (report: Result<String, ReportError>)
    ensures
        report is Ok,
        report matches Ok(text) ==> text@ == as_text(document(rows@)),
{
    let mut encoded: Vec<Vec<u8>> = Vec::new();
    if rows.len() > 0 {
        proof {
            header_is_harmless();
        }
        match encode_record(&header_fields()) {
            Ok(record) => {
                encoded.push(record);
            },
            Err(error) => {
                return Err(ReportError::from(error));
            },
        }
        let mut i: usize = 0;
        while i < rows.len()
            invariant
                i <= rows@.len(),
                texts(encoded@) == (seq![header()] + rows@.take(i as int).map_values(
                    |row: ClientRow| row.field_texts(),
                )).map_values(|fields: Seq<Seq<u8>>| line_of(fields)),
            decreases rows@.len() - i,
        {
            let ghost before = texts(encoded@);
            proof {
                row_is_harmless(rows@[i as int]);
            }
            match encode_record(&rows[i].fields()) {
                Ok(record) => {
                    encoded.push(record);
                },
                Err(error) => {
                    return Err(ReportError::from(error));
                },
            }
            assert(texts(encoded@) =~= before.push(line_of(rows@[i as int].field_texts())));
            i = i + 1;
        }
        proof {
            assert(rows@.take(i as int) =~= rows@);
        }
    } else {
        assert(texts(encoded@) =~= records_of(rows@).map_values(
            |fields: Seq<Seq<u8>>| line_of(fields),
        ));
    }
    proof {
        document_is_ascii(rows@);
        ascii_is_text(document(rows@));
    }
    join_records(&encoded)
}

} // verus!
