//! What the jobs share: configuration decoding, the header of generated
//! files, the directory token's scopes, and the table of RFDs.

use crate::decimal::{parse_i32, parsed_i32};
use crate::vendor::texts;
use std::collections::BTreeMap;
use vstd::prelude::*;
use vstd::string::*;
use vstd::utf8::{decode_utf8, valid_utf8};

verus! {

/// The warning at the head of every generated file.
pub const TEMPLATE_WARNING: &'static str = "# THIS FILE HAS BEEN GENERATED BY THE CONFIGS REPO
# AND SHOULD NEVER BE EDITED BY HAND!!
# Instead change the link in configs/links.toml

";

/// The text of a generated file: the warning, then the contents.
pub fn with_template_warning(contents: &str) -> (r: String)
    ensures
        r@ == TEMPLATE_WARNING@ + contents@,
{
    let mut out: String = TEMPLATE_WARNING.to_owned();
    out.append(contents);
    out
}

/// The texts one after the other, with nothing between them.
pub open spec fn concatenated(bodies: Seq<String>) -> Seq<char>
    decreases bodies.len(),
{
    if bodies.len() == 0 {
        Seq::empty()
    } else {
        concatenated(bodies.drop_last()) + bodies.last()@
    }
}

/// Joins the contents of the configuration files, in the order given.
pub fn concat_contents(bodies: &Vec<String>) -> (r: String)
    ensures
        r@ == concatenated(bodies@),
{
    let mut contents: String = String::new();
    let mut i: usize = 0;
    while i < bodies.len()
        invariant
            i <= bodies.len(),
            contents@ == concatenated(bodies@.take(i as int)),
        decreases bodies.len() - i,
    {
        proof {
            assert(bodies@.take(i + 1).drop_last() =~= bodies@.take(i as int));
        }
        contents.append(bodies[i].as_str());
        i += 1;
    }
    proof {
        assert(bodies@.take(bodies.len() as int) =~= bodies@);
    }
    contents
}

/// `toml::Value`, a decoded TOML document; carried through as it is.
#[verifier::external_type_specification]
#[verifier::external_body]
pub struct ExTomlValue(toml::Value);

/// `toml::de::Error`, the decoder's error; only its text is taken from it.
#[verifier::external_type_specification]
#[verifier::external_body]
pub struct ExTomlError(toml::de::Error);

/// The document that `toml::from_str` decodes a text to; `None` where it
/// refuses the text.
pub uninterp spec fn toml_document(text: Seq<char>) -> Option<toml::Value>;

/// `toml::from_str`, asked for a `toml::Value`. It parses the text as one
/// TOML document and fails where the text is none. Both whether it succeeds
/// and the document it gives depend on the text alone, which is all that the
/// contract claims.
#[verifier::external_body]
fn toml_from_str(text: &str) -> (r: Result<toml::Value, toml::de::Error>)
    ensures
        match r {
            Ok(document) => toml_document(text@) == Some(document),
            Err(_) => toml_document(text@) is None,
        },
{
    toml::from_str::<toml::Value>(text)
}

/// The `Display` text of a `toml::de::Error`: the cause, with the line and
/// column where the crate knows them. Nothing is claimed of it.
#[verifier::external_body]
fn toml_error_message(error: &toml::de::Error) -> (r: String) {
    error.to_string()
}

/// The configuration did not decode.
#[derive(Debug)]
pub struct ConfigError {
    /// The cause, as the decoder words it.
    pub message: String,
}

/// Decodes the configuration from the contents of its files: they are joined
/// in the order given and decoded as one TOML document. The result is the
/// document of the joined text, and an error where that text is none.
pub fn read_config_from_files(bodies: &Vec<String>) -> (r: Result<toml::Value, ConfigError>)
    ensures
        match r {
            Ok(config) => toml_document(concatenated(bodies@)) == Some(config),
            Err(_) => toml_document(concatenated(bodies@)) is None,
        },
{
    let contents = concat_contents(bodies);
    match toml_from_str(contents.as_str()) {
        Ok(config) => Ok(config),
        Err(error) => Err(ConfigError { message: toml_error_message(&error) }),
    }
}

/// A document split in two, its parts given in order, joins back to the
/// document: the configuration decoded from the two files is the one decoded
/// from the whole.
pub proof fn lemma_split_files_join(whole: String, first: String, second: String)
    requires
        whole@ == first@ + second@,
    ensures
        concatenated(seq![first, second]) == concatenated(seq![whole]),
        toml_document(concatenated(seq![first, second])) == toml_document(
            concatenated(seq![whole]),
        ),
{
    reveal_with_fuel(concatenated, 3);
    let two = seq![first, second];
    let one = seq![whole];
    assert(two.drop_last() =~= seq![first]);
    assert(two.drop_last().drop_last() =~= Seq::<String>::empty());
    assert(one.drop_last() =~= Seq::<String>::empty());
    assert(concatenated(one) =~= whole@);
    assert(concatenated(two) =~= first@ + second@);
}

/// Joining is associative over the list of files: the files of two lists,
/// one list after the other, join to the two joined texts in that order.
pub proof fn lemma_concatenated_append(front: Seq<String>, back: Seq<String>)
    ensures
        concatenated(front + back) == concatenated(front) + concatenated(back),
    decreases back.len(),
{
    if back.len() == 0 {
        assert(front + back =~= front);
        assert(concatenated(front) + Seq::<char>::empty() =~= concatenated(front));
    } else {
        lemma_concatenated_append(front, back.drop_last());
        assert((front + back).drop_last() =~= front + back.drop_last());
        assert((front + back).last() == back.last());
        assert(concatenated(front + back) =~= concatenated(front) + concatenated(back));
    }
}

/// The scopes that the directory token is asked for, in order.
pub open spec fn gsuite_scope_texts() -> Seq<Seq<char>> {
    seq![
        "https://www.googleapis.com/auth/admin.directory.group"@,
        "https://www.googleapis.com/auth/admin.directory.resource.calendar"@,
        "https://www.googleapis.com/auth/admin.directory.user"@,
        "https://www.googleapis.com/auth/apps.groups.settings"@,
        "https://www.googleapis.com/auth/spreadsheets"@,
        "https://www.googleapis.com/auth/drive"@,
    ]
}

/// The scopes that the directory token is asked for.
pub fn gsuite_scopes() -> (r: Vec<&'static str>)
    ensures
        r@.len() == 6,
        forall|i: int| 0 <= i < 6 ==> (#[trigger] r@[i])@ == gsuite_scope_texts()[i],
{
    vec![
        "https://www.googleapis.com/auth/admin.directory.group",
        "https://www.googleapis.com/auth/admin.directory.resource.calendar",
        "https://www.googleapis.com/auth/admin.directory.user",
        "https://www.googleapis.com/auth/apps.groups.settings",
        "https://www.googleapis.com/auth/spreadsheets",
        "https://www.googleapis.com/auth/drive",
    ]
}

/// Whether an access token can be used: an empty one cannot.
pub fn access_token_is_valid(access_token: &str) -> (r: bool)
    ensures
        r == (access_token@.len() >= 1),
{
    !access_token.is_empty()
}

/// An RFD as the table of RFDs lists it.
#[derive(Debug)]
pub struct RFD {
    pub number: String,
    pub title: String,
    pub link: String,
    pub state: String,
    pub discussion: String,
}

/// What an RFD holds, as mathematical values.
pub struct RfdFields {
    pub number: Seq<char>,
    pub title: Seq<char>,
    pub link: Seq<char>,
    pub state: Seq<char>,
    pub discussion: Seq<char>,
}

impl View for RFD {
    type V = RfdFields;

    open spec fn view(&self) -> RfdFields {
        RfdFields {
            number: self.number@,
            title: self.title@,
            link: self.link@,
            state: self.state@,
            discussion: self.discussion@,
        }
    }
}

/// Why a table of RFDs could not be built.
#[derive(Clone, Copy, Debug, PartialEq, Eq, Structural)]
pub enum RfdError {
    /// The content is not UTF-8 text.
    NotUtf8,
    /// The text is not well-formed CSV.
    Csv,
    /// The row at this place, counted without the header, has fewer than
    /// five fields.
    MissingField { row: usize },
    /// The first field of the row at this place is not a 32-bit decimal
    /// number.
    BadNumber { row: usize },
}

/// The rows as texts.
pub open spec fn rows_view(rows: Seq<Vec<String>>) -> Seq<Seq<Seq<char>>> {
    rows.map_values(|row: Vec<String>| texts(row@))
}

/// What is wrong with a row, if anything. A row needs a first field that is
/// a number, and five fields in all; the number is looked at first.
pub open spec fn row_fault(row: Seq<Seq<char>>, place: usize) -> Option<RfdError> {
    if row.len() == 0 {
        Some(RfdError::MissingField { row: place })
    } else if parsed_i32(row[0]) is None {
        Some(RfdError::BadNumber { row: place })
    } else if row.len() < 5 {
        Some(RfdError::MissingField { row: place })
    } else {
        None
    }
}

/// The RFD that a row describes.
pub open spec fn rfd_of(row: Seq<Seq<char>>) -> RfdFields {
    RfdFields { number: row[0], title: row[1], link: row[2], state: row[3], discussion: row[4] }
}

/// The table that the rows describe: each row under its number, a later row
/// in place of an earlier one of the same number.
pub open spec fn rfd_table(rows: Seq<Seq<Seq<char>>>) -> Map<i32, RfdFields>
    decreases rows.len(),
{
    if rows.len() == 0 {
        Map::empty()
    } else {
        rfd_table(rows.drop_last()).insert(
            parsed_i32(rows.last()[0]).unwrap(),
            rfd_of(rows.last()),
        )
    }
}

/// The table as mathematical values.
pub open spec fn table_view(table: Map<i32, RFD>) -> Map<i32, RfdFields> {
    table.map_values(|rfd: RFD| rfd@)
}

/// `k` is the first row with a fault, and `error` is that fault.
pub open spec fn first_fault(rows: Seq<Seq<Seq<char>>>, k: int, error: RfdError) -> bool {
    &&& 0 <= k < rows.len()
    &&& row_fault(rows[k], k as usize) == Some(error)
    &&& forall|i: int| 0 <= i < k ==> row_fault(#[trigger] rows[i], i as usize) is None
}

/// `r` is what the rows give: their table where no row has a fault, else the
/// fault of the first row that has one.
pub open spec fn is_outcome_of(
    r: Result<BTreeMap<i32, RFD>, RfdError>,
    rows: Seq<Seq<Seq<char>>>,
) -> bool {
    match r {
        Ok(table) => {
            &&& forall|i: int|
                0 <= i < rows.len() ==> row_fault(#[trigger] rows[i], i as usize) is None
            &&& table_view(table@) == rfd_table(rows)
        },
        Err(error) => exists|k: int| first_fault(rows, k, error),
    }
}

/// Enters an RFD under its number, in place of an earlier one of that number.
fn enter(table: &mut BTreeMap<i32, RFD>, number: i32, rfd: RFD)
    ensures
        final(table)@ == old(table)@.insert(number, rfd),
{
    broadcast use vstd::laws_cmp::group_laws_cmp;

    table.insert(number, rfd);
}

/// Builds the table of RFDs from the rows of the CSV file, header left out.
pub fn rfds_from_rows(rows: &Vec<Vec<String>>) -> (r: Result<BTreeMap<i32, RFD>, RfdError>)
    ensures
        is_outcome_of(r, rows_view(rows@)),
{
    let ghost texts_of_rows = rows_view(rows@);
    let mut rfds: BTreeMap<i32, RFD> = BTreeMap::new();
    let mut i: usize = 0;
    proof {
        assert(texts_of_rows.take(0) =~= Seq::<Seq<Seq<char>>>::empty());
        assert(table_view(rfds@) =~= rfd_table(texts_of_rows.take(0)));
    }
    while i < rows.len()
        invariant
            i <= rows.len(),
            texts_of_rows == rows_view(rows@),
            forall|j: int| 0 <= j < i ==> row_fault(#[trigger] texts_of_rows[j], j as usize) is None,
            table_view(rfds@) == rfd_table(texts_of_rows.take(i as int)),
        decreases rows.len() - i,
    {
        let row = &rows[i];
        let ghost row_texts = texts_of_rows[i as int];
        assert(row_texts == texts(row@));
        if row.len() == 0 {
            proof {
                assert(first_fault(texts_of_rows, i as int, RfdError::MissingField { row: i }));
            }
            return Err(RfdError::MissingField { row: i });
        }
        assert(row_texts[0] == row[0]@);
        let number = match parse_i32(row[0].as_str()) {
            Some(n) => n,
            None => {
                proof {
                    assert(first_fault(texts_of_rows, i as int, RfdError::BadNumber { row: i }));
                }
                return Err(RfdError::BadNumber { row: i });
            },
        };
        if row.len() < 5 {
            proof {
                assert(first_fault(texts_of_rows, i as int, RfdError::MissingField { row: i }));
            }
            return Err(RfdError::MissingField { row: i });
        }
        let rfd = RFD {
            number: row[0].clone(),
            title: row[1].clone(),
            link: row[2].clone(),
            state: row[3].clone(),
            discussion: row[4].clone(),
        };
        proof {
            assert(row_texts[1] == row[1]@);
            assert(row_texts[2] == row[2]@);
            assert(row_texts[3] == row[3]@);
            assert(row_texts[4] == row[4]@);
            assert(rfd@ == rfd_of(row_texts));
            let next = texts_of_rows.take(i + 1);
            assert(next.drop_last() =~= texts_of_rows.take(i as int));
            assert(next.last() == row_texts);
            assert(table_view(rfds@.insert(number, rfd)) =~= table_view(rfds@).insert(number, rfd@));
        }
        enter(&mut rfds, number, rfd);
        i += 1;
    }
    proof {
        assert(texts_of_rows.take(rows.len() as int) =~= texts_of_rows);
    }
    Ok(rfds)
}

/// `csv::Error`, the reader's error; nothing is taken from it.
#[verifier::external_type_specification]
#[verifier::external_body]
pub struct ExCsvError(csv::Error);

/// The rows of a CSV text after its header row, each as its fields; `None`
/// where the `csv` crate's reader refuses the text.
pub uninterp spec fn csv_rows(text: Seq<char>) -> Option<Seq<Seq<Seq<char>>>>;

/// A `csv::Reader` with `,` as the delimiter and a header row, read to the
/// end through `records`. The rows come in the order of the text, the header
/// row is left out, and the first error ends the reading. What the rows are
/// depends on the text alone, which is all that the contract claims.
#[verifier::external_body]
fn csv_records(text: &str) -> (r: Result<Vec<Vec<String>>, csv::Error>)
    ensures
        match r {
            Ok(rows) => csv_rows(text@) == Some(rows_view(rows@)),
            Err(_) => csv_rows(text@) is None,
        },
{
    csv::ReaderBuilder::new()
        .delimiter(b',')
        .has_headers(true)
        .from_reader(text.as_bytes())
        .records()
        .map(|record| record.map(|fields| fields.iter().map(|field| field.to_string()).collect()))
        .collect()
}

/// `std::str::from_utf8`: the bytes as text where they are valid UTF-8, and
/// `None` where they are not. The text's bytes are the bytes given.
#[verifier::external_body]
fn utf8_text(bytes: &[u8]) -> (r: Option<&str>)
    ensures
        r is Some == valid_utf8(bytes@),
        r is Some ==> r.unwrap().spec_bytes() == bytes@,
{
    std::str::from_utf8(bytes).ok()
}

/// Builds the table of RFDs from the content of the repository's CSV file:
/// the content must be UTF-8 text and well-formed CSV with a header row, and
/// each row after the header must give an RFD.
pub fn get_rfds_from_repo(content: &[u8]) -> (r: Result<BTreeMap<i32, RFD>, RfdError>)
    ensures
        !valid_utf8(content@) ==> r == Err::<BTreeMap<i32, RFD>, RfdError>(RfdError::NotUtf8),
        valid_utf8(content@) ==> match csv_rows(decode_utf8(content@)) {
            None => r == Err::<BTreeMap<i32, RFD>, RfdError>(RfdError::Csv),
            Some(rows) => is_outcome_of(r, rows),
        },
{
    let text = match utf8_text(content) {
        Some(t) => t,
        None => {
            return Err(RfdError::NotUtf8);
        },
    };
    proof {
        vstd::utf8::encode_utf8_decode_utf8(text@);
    }
    match csv_records(text) {
        Ok(rows) => rfds_from_rows(&rows),
        Err(_) => Err(RfdError::Csv),
    }
}

} // verus!
