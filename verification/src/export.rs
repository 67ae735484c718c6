//! The technical inventory export. The CSV form is built here, through the
//! `csv` crate's writer; the JSON and YAML forms are serialised by the
//! application around this library.
use vstd::prelude::*;
use vstd::string::StringExecFns;
use vstd::utf8::{encode_utf8, valid_utf8};
use crate::commands::{kind_internal, CommandError};
use crate::domain::SoftwareItem;
use crate::text::{decimal, decimal_string, join, string_views};

verus! {

/// The version of the export document layout.
pub const EXPORT_SCHEMA_VERSION: u32 = 1;

/// The formats of the inventory export.
#[derive(Debug, Clone, Copy, PartialEq, Eq, Structural)]
pub enum ExportFormat {
    Json,
    Yaml,
    Csv,
}

/// An export request: which format to produce.
#[derive(Debug, Clone, Copy, PartialEq, Eq, Structural)]
pub struct ExportRequest {
    pub format: ExportFormat,
}

/// A finished export: the document and how it was made.
#[derive(Debug, Clone)]
pub struct ExportResponse {
    pub schema_version: u32,
    pub format: ExportFormat,
    pub content: String,
}

// ---------------------------------------------------------------------------
// The CSV writer of the `csv` crate
// ---------------------------------------------------------------------------

/// A `csv::Writer` that writes into a byte vector. Its contents are known
/// through `csv_written`, `csv_idle` and `csv_first_width`.
#[verifier::external_body]
pub struct CsvRecordWriter {
    inner: csv::Writer<Vec<u8>>,
}

/// The bytes that a CSV writer has taken in so far, whether still in its
/// buffer or already passed to the vector.
pub uninterp spec fn csv_written(w: CsvRecordWriter) -> Seq<u8>;

/// Whether the writer stands between records: every record it has begun
/// it has also ended.
pub uninterp spec fn csv_idle(w: CsvRecordWriter) -> bool;

/// The field count of the first record the writer ended, if any. The writer
/// refuses to end a later record with another field count.
pub uninterp spec fn csv_first_width(w: CsvRecordWriter) -> Option<nat>;

/// Whether a CSV field needs quotes: it holds the delimiter `,`, the quote
/// `"`, or a record terminator character `\n` or `\r`.
pub open spec fn csv_needs_quotes(field: Seq<char>) -> bool {
    exists|i: int|
        0 <= i < field.len() && (#[trigger] field[i] == ',' || field[i] == '"' || field[i] == '\n'
            || field[i] == '\r')
}

/// `field` with every quote doubled.
pub open spec fn csv_escape_quotes(field: Seq<char>) -> Seq<char>
    decreases field.len(),
{
    if field.len() == 0 {
        seq![]
    } else {
        (if field[0] == '"' {
            seq!['"', '"']
        } else {
            seq![field[0]]
        }) + csv_escape_quotes(field.drop_first())
    }
}

/// A field as the writer puts it: in quotes, with inner quotes doubled,
/// when it needs quotes; as it is otherwise.
pub open spec fn csv_field(field: Seq<char>) -> Seq<char> {
    if csv_needs_quotes(field) {
        seq!['"'] + csv_escape_quotes(field) + seq!['"']
    } else {
        field
    }
}

/// A record as the writer puts it: the fields separated by `,`, then `\n`;
/// a record whose fields come to nothing is written as `""`.
pub open spec fn csv_record(fields: Seq<Seq<char>>) -> Seq<char> {
    let body = join(fields.map_values(|f: Seq<char>| csv_field(f)), ","@);
    (if body.len() == 0 {
        seq!['"', '"']
    } else {
        body
    }) + seq!['\n']
}

/// A CSV writer over an empty byte vector, with the default configuration
/// (`,` delimiter, `"` quote, `\n` terminator, quotes only where needed).
///
/// Calls `csv::Writer::from_writer`; the contract says the new writer has
/// taken no bytes, stands between records, and has ended no record yet.
#[verifier::external_body]
fn csv_writer_new() -> (w: CsvRecordWriter)
    ensures
        csv_written(w) == Seq::<u8>::empty(),
        csv_idle(w),
        csv_first_width(w) is None,
{
    CsvRecordWriter { inner: csv::Writer::from_writer(Vec::new()) }
}

/// Writes one record.
///
/// Calls `csv::Writer::write_record` on a writer that stands between
/// records. The contract says: the call succeeds when this is the first
/// record or the record has the first record's field count (the writer's
/// only refusal; writing into a byte vector does not fail); on success the
/// writer has taken the UTF-8 bytes of `csv_record(fields)`, stands between
/// records again, and the first record's field count is this record's when
/// it was the first. Nothing is said of the writer after a refusal, which
/// leaves the record half written. The error is handed back as its
/// `Display` text.
#[verifier::external_body]
fn csv_write_record(w: &mut CsvRecordWriter, fields: &Vec<String>) -> (r: Result<(), String>)
    requires
        csv_idle(*old(w)),
    ensures
        (csv_first_width(*old(w)) is None || csv_first_width(*old(w)) == Some(fields@.len()))
            ==> r is Ok,
        r is Ok ==> csv_written(*final(w)) == csv_written(*old(w)) + encode_utf8(
            csv_record(string_views(fields@)),
        ),
        r is Ok ==> csv_idle(*final(w)),
        r is Ok ==> csv_first_width(*final(w)) == (match csv_first_width(*old(w)) {
            Some(n) => Some(n),
            None => Some(fields@.len()),
        }),
{
    match w.inner.write_record(fields) {
        Ok(()) => Ok(()),
        Err(e) => Err(format!("{e}")),
    }
}

/// Flushes the writer and hands back the byte vector.
///
/// Calls `csv::Writer::into_inner`, which flushes the buffer into the byte
/// vector (which does not fail) and hands the vector back. The contract
/// says that it succeeds and that the vector then holds every byte the
/// writer took in. The error is handed back as its `Display` text.
#[verifier::external_body]
fn csv_into_inner(w: CsvRecordWriter) -> (r: Result<Vec<u8>, String>)
    ensures
        r is Ok,
        r matches Ok(bytes) ==> bytes@ == csv_written(w),
{
    match w.inner.into_inner() {
        Ok(bytes) => Ok(bytes),
        Err(e) => Err(format!("{e}")),
    }
}

/// Converts bytes to a `String`.
///
/// Calls `String::from_utf8`, which succeeds exactly when the bytes are
/// valid UTF-8, and then holds the text they encode. The error is handed
/// back as its `Display` text.
#[verifier::external_body]
fn string_from_utf8(bytes: Vec<u8>) -> (r: Result<String, String>)
    ensures
        r is Ok <==> valid_utf8(bytes@),
        r matches Ok(s) ==> encode_utf8(s@) == bytes@,
{
    match String::from_utf8(bytes) {
        Ok(s) => Ok(s),
        Err(e) => Err(format!("{e}")),
    }
}

// ---------------------------------------------------------------------------
// The CSV export
// ---------------------------------------------------------------------------

/// The header record of the CSV export.
pub open spec fn csv_header() -> Seq<Seq<char>> {
    seq![
        "id"@,
        "packageName"@,
        "displayName"@,
        "category"@,
        "packageManager"@,
        "scope"@,
        "version"@,
        "installedSizeBytes"@,
        "updateAvailable"@,
        "classificationConfidence"@,
    ]
}

/// `true` or `false`, as `bool`'s `to_string` gives it.
pub open spec fn bool_text(b: bool) -> Seq<char> {
    if b {
        "true"@
    } else {
        "false"@
    }
}

/// The fields of an item's CSV record: an unknown version and an unknown
/// size are empty.
pub open spec fn csv_item_fields(item: SoftwareItem) -> Seq<Seq<char>> {
    seq![
        item.id@,
        item.package_name@,
        item.display_name@,
        item.category@,
        item.package_manager@,
        item.scope@,
        match item.version {
            Some(v) => v@,
            None => Seq::<char>::empty(),
        },
        match item.installed_size_bytes {
            Some(n) => decimal(n as nat),
            None => Seq::<char>::empty(),
        },
        bool_text(item.update_available),
        item.classification_confidence@,
    ]
}

/// The item records, one per item, in order.
pub open spec fn csv_item_records(items: Seq<SoftwareItem>) -> Seq<char>
    decreases items.len(),
{
    if items.len() == 0 {
        seq![]
    } else {
        csv_item_records(items.drop_last()) + csv_record(csv_item_fields(items.last()))
    }
}

/// The CSV export of `items`: the header record, then one record per item.
pub open spec fn csv_document(items: Seq<SoftwareItem>) -> Seq<char> {
    csv_record(csv_header()) + csv_item_records(items)
}

/// The header line of every CSV export: the column names, unquoted,
/// separated by `,`, then `\n`.
pub open spec fn csv_header_line() -> Seq<char> {
    join(csv_header(), ","@).push('\n')
}

proof fn lemma_plain_field(f: Seq<char>)
    requires
        forall|i: int| 0 <= i < f.len() ==> ('a' <= #[trigger] f[i] <= 'z' || 'A' <= f[i] <= 'Z'),
    ensures
        csv_field(f) == f,
{
}

proof fn lemma_join_len(parts: Seq<Seq<char>>, sep: Seq<char>)
    requires
        parts.len() > 0,
    ensures
        join(parts, sep).len() >= parts.last().len(),
    decreases parts.len(),
{
}

/// Every CSV export starts with the header line, whatever the items.
pub proof fn lemma_csv_export_starts_with_header(items: Seq<SoftwareItem>)
    ensures
        csv_record(csv_header()) == csv_header_line(),
        csv_document(items).take(csv_header_line().len() as int) == csv_header_line(),
{
    let h = csv_header();
    assert forall|j: int| 0 <= j < h.len() implies csv_field(#[trigger] h[j]) == h[j] by {
        reveal_strlit("id");
        reveal_strlit("packageName");
        reveal_strlit("displayName");
        reveal_strlit("category");
        reveal_strlit("packageManager");
        reveal_strlit("scope");
        reveal_strlit("version");
        reveal_strlit("installedSizeBytes");
        reveal_strlit("updateAvailable");
        reveal_strlit("classificationConfidence");
        lemma_plain_field(h[j]);
    }
    let fields = h.map_values(|f: Seq<char>| csv_field(f));
    assert(fields =~= h);
    reveal_strlit("classificationConfidence");
    lemma_join_len(h, ","@);
    assert(csv_record(h) =~= csv_header_line());
    assert(csv_document(items).take(csv_header_line().len() as int) =~= csv_header_line());
}

/// The export of no items is the header line alone.
pub proof fn lemma_csv_export_of_no_items()
    ensures
        csv_document(Seq::<SoftwareItem>::empty()) == csv_header_line(),
{
    lemma_csv_export_starts_with_header(Seq::<SoftwareItem>::empty());
    assert(csv_document(Seq::<SoftwareItem>::empty()) =~= csv_record(csv_header()));
}

/// The response to an export request: the document made for the requested
/// format, with the current schema version; a failure to make the document
/// is handed on as it is.
pub fn export_response(request: ExportRequest, content: Result<String, CommandError>) -> (r: Result<ExportResponse, CommandError>)
    ensures
        match content {
            Ok(c) => r matches Ok(resp) && resp.schema_version == EXPORT_SCHEMA_VERSION
                && resp.format == request.format && resp.content == c,
            Err(e) => r matches Err(e2) && e2 == e,
        },
{
    match content {
        Ok(c) => Ok(ExportResponse { schema_version: EXPORT_SCHEMA_VERSION, format: request.format, content: c }),
        Err(e) => Err(e),
    }
}

proof fn lemma_encode_utf8_concat(a: Seq<char>, b: Seq<char>)
    ensures
        encode_utf8(a + b) == encode_utf8(a) + encode_utf8(b),
    decreases a.len(),
{
    if a.len() > 0 {
        assert((a + b).drop_first() =~= a.drop_first() + b);
        lemma_encode_utf8_concat(a.drop_first(), b);
        assert(encode_utf8(a + b) =~= encode_utf8(a) + encode_utf8(b));
    } else {
        assert(a + b =~= b);
        assert(encode_utf8(a) =~= Seq::<u8>::empty());
        assert(encode_utf8(a) + encode_utf8(b) =~= encode_utf8(b));
    }
}

/// An internal error whose message is `prefix` followed by `detail`.
fn failure(prefix: &str, detail: &str) -> (e: CommandError)
    ensures
        e.kind@ == kind_internal(),
        e.message@ == prefix@ + detail@,
{
    let mut m = String::from_str(prefix);
    m.append(detail);
    CommandError::internal(m.as_str())
}

/// The fields of `item`'s CSV record.
fn item_fields(item: &SoftwareItem) -> (fields: Vec<String>)
    ensures
        string_views(fields@) == csv_item_fields(*item),
{
    let version = match &item.version {
        Some(v) => v.clone(),
        None => String::new(),
    };
    let size = match item.installed_size_bytes {
        Some(n) => decimal_string(n),
        None => String::new(),
    };
    let update = if item.update_available {
        String::from_str("true")
    } else {
        String::from_str("false")
    };
    let fields = vec![
        item.id.clone(),
        item.package_name.clone(),
        item.display_name.clone(),
        item.category.clone(),
        item.package_manager.clone(),
        item.scope.clone(),
        version,
        size,
        update,
        item.classification_confidence.clone(),
    ];
    proof {
        assert(string_views(fields@) =~= csv_item_fields(*item));
    }
    fields
}

/// Writes the CSV export of `items`: a header record, then one record per
/// item. It always succeeds.
pub fn export_csv(items: &Vec<SoftwareItem>) -> (r: Result<String, CommandError>)
    ensures
        r matches Ok(s) && s@ == csv_document(items@),
{
    let mut writer = csv_writer_new();
    let header = vec![
        String::from_str("id"),
        String::from_str("packageName"),
        String::from_str("displayName"),
        String::from_str("category"),
        String::from_str("packageManager"),
        String::from_str("scope"),
        String::from_str("version"),
        String::from_str("installedSizeBytes"),
        String::from_str("updateAvailable"),
        String::from_str("classificationConfidence"),
    ];
    proof {
        assert(string_views(header@) =~= csv_header());
    }
    match csv_write_record(&mut writer, &header) {
        Ok(()) => {},
        Err(e) => {
            return Err(failure("failed to write CSV header: ", e.as_str()));
        },
    }
    proof {
        lemma_encode_utf8_concat(Seq::<char>::empty(), csv_record(csv_header()));
        assert(Seq::<u8>::empty() + encode_utf8(csv_record(csv_header())) =~= encode_utf8(
            csv_record(csv_header()),
        ));
    }
    let n = items.len();
    let mut i: usize = 0;
    while i < n
        invariant
            n == items@.len(),
            i <= n,
            csv_written(writer) == encode_utf8(
                csv_record(csv_header()) + csv_item_records(items@.take(i as int)),
            ),
            csv_idle(writer),
            csv_first_width(writer) == Some(10nat),
        decreases n - i,
    {
        let fields = item_fields(&items[i]);
        proof {
            assert(string_views(fields@).len() == fields@.len());
            assert(csv_item_fields(items@[i as int]).len() == 10);
        }
        match csv_write_record(&mut writer, &fields) {
            Ok(()) => {},
            Err(e) => {
                let mut prefix = String::from_str("failed to write CSV row for ");
                prefix.append(items[i].id.as_str());
                prefix.append(": ");
                let err = failure(prefix.as_str(), e.as_str());
                proof {
                    assert(err.message@ =~= "failed to write CSV row for "@ + items@[i as int].id@
                        + ": "@ + e@);
                }
                return Err(err);
            },
        }
        proof {
            let before = csv_record(csv_header()) + csv_item_records(items@.take(i as int));
            let rec = csv_record(csv_item_fields(items@[i as int]));
            lemma_encode_utf8_concat(before, rec);
            assert(items@.take(i + 1).drop_last() =~= items@.take(i as int));
            assert(csv_record(csv_header()) + csv_item_records(items@.take(i + 1)) =~= before
                + rec);
        }
        i = i + 1;
    }
    proof {
        assert(items@.take(n as int) =~= items@);
    }
    let bytes = match csv_into_inner(writer) {
        Ok(bytes) => bytes,
        Err(e) => {
            return Err(failure("failed to finalize CSV export: ", e.as_str()));
        },
    };
    proof {
        vstd::utf8::encode_utf8_valid_utf8(csv_document(items@));
    }
    match string_from_utf8(bytes) {
        Ok(s) => {
            proof {
                vstd::utf8::encode_utf8_decode_utf8(s@);
                vstd::utf8::encode_utf8_decode_utf8(csv_document(items@));
            }
            Ok(s)
        },
        Err(e) => Err(failure("CSV export was not valid UTF-8: ", e.as_str())),
    }
}

// ---------------------------------------------------------------------------
// Reading the CSV export back
// ---------------------------------------------------------------------------

/// Whether `c` ends an unquoted field: the delimiter `,` or the record
/// terminator `\n`.
pub open spec fn csv_field_end(c: char) -> bool {
    c == ',' || c == '\n'
}

/// The length of the unquoted field at the start of `s`: up to the first
/// delimiter or terminator.
pub open spec fn csv_unquoted_len(s: Seq<char>) -> int
    decreases s.len(),
{
    if s.len() == 0 || csv_field_end(s[0]) {
        0
    } else {
        1 + csv_unquoted_len(s.drop_first())
    }
}

/// Reads the rest of a quoted field, after its opening quote: its text, a
/// doubled quote read as one quote, and the number of characters taken,
/// the closing quote included.
pub open spec fn csv_read_quoted(t: Seq<char>) -> (Seq<char>, int)
    decreases t.len(),
{
    if t.len() == 0 {
        (seq![], 0)
    } else if t[0] == '"' {
        if t.len() > 1 && t[1] == '"' {
            let r = csv_read_quoted(t.skip(2));
            (seq!['"'] + r.0, r.1 + 2)
        } else {
            (seq![], 1)
        }
    } else {
        let r = csv_read_quoted(t.drop_first());
        (seq![t[0]] + r.0, r.1 + 1)
    }
}

/// Reads the field at the start of `s`: a quoted field when `s` starts with
/// a quote, an unquoted one otherwise; gives its text and the number of
/// characters taken.
pub open spec fn csv_read_field(s: Seq<char>) -> (Seq<char>, int) {
    if s.len() > 0 && s[0] == '"' {
        let r = csv_read_quoted(s.drop_first());
        (r.0, r.1 + 1)
    } else {
        let k = csv_unquoted_len(s);
        (s.take(k), k)
    }
}

/// Reads the record at the start of `s`: fields separated by `,` up to a
/// `\n` (taken with the record) or the end; gives the fields and the number
/// of characters taken.
pub open spec fn csv_read_fields(s: Seq<char>) -> (Seq<Seq<char>>, int)
    decreases s.len(),
{
    let f = csv_read_field(s);
    let k = f.1;
    if 0 <= k < s.len() && s[k] == ',' {
        let r = csv_read_fields(s.skip(k + 1));
        (seq![f.0] + r.0, k + 1 + r.1)
    } else if 0 <= k < s.len() && s[k] == '\n' {
        (seq![f.0], k + 1)
    } else {
        (seq![f.0], k)
    }
}

/// Reads CSV text (`,` delimiter, `"` quote with doubled quotes inside,
/// `\n` terminator, no header handling) into its records.
pub open spec fn csv_read_records(s: Seq<char>) -> Seq<Seq<Seq<char>>>
    decreases s.len(),
{
    if s.len() == 0 {
        seq![]
    } else {
        let r = csv_read_fields(s);
        if 0 < r.1 <= s.len() {
            seq![r.0] + csv_read_records(s.skip(r.1))
        } else {
            seq![r.0]
        }
    }
}

proof fn lemma_unquoted_len(f: Seq<char>, t: Seq<char>)
    requires
        forall|i: int| 0 <= i < f.len() ==> !csv_field_end(#[trigger] f[i]),
        t.len() == 0 || csv_field_end(t[0]),
    ensures
        csv_unquoted_len(f + t) == f.len(),
    decreases f.len(),
{
    if f.len() == 0 {
        assert(f + t =~= t);
    } else {
        assert((f + t).drop_first() =~= f.drop_first() + t);
        assert((f + t)[0] == f[0]);
        lemma_unquoted_len(f.drop_first(), t);
    }
}

proof fn lemma_read_quoted(f: Seq<char>, t: Seq<char>)
    requires
        t.len() == 0 || t[0] != '"',
    ensures
        csv_read_quoted(csv_escape_quotes(f) + seq!['"'] + t) == (f, csv_escape_quotes(f).len() + 1int),
    decreases f.len(),
{
    let u = csv_escape_quotes(f) + seq!['"'] + t;
    if f.len() == 0 {
        assert(csv_escape_quotes(f) =~= Seq::<char>::empty());
        assert(u =~= seq!['"'] + t);
        assert(f =~= Seq::<char>::empty());
    } else {
        let rest = f.drop_first();
        let v = csv_escape_quotes(rest) + seq!['"'] + t;
        lemma_read_quoted(rest, t);
        assert(f =~= seq![f[0]] + rest);
        if f[0] == '"' {
            assert(u =~= seq!['"', '"'] + v);
            assert(u.skip(2) =~= v);
        } else {
            assert(u =~= seq![f[0]] + v);
            assert(u.drop_first() =~= v);
        }
    }
}

proof fn lemma_read_field(f: Seq<char>, t: Seq<char>)
    requires
        t.len() == 0 || csv_field_end(t[0]),
    ensures
        csv_read_field(csv_field(f) + t) == (f, csv_field(f).len() as int),
{
    if csv_needs_quotes(f) {
        let s = csv_field(f) + t;
        lemma_read_quoted(f, t);
        assert(s.drop_first() =~= csv_escape_quotes(f) + seq!['"'] + t);
    } else {
        assert forall|i: int| 0 <= i < f.len() implies !csv_field_end(#[trigger] f[i]) by {
            if csv_field_end(f[i]) {
                assert(csv_needs_quotes(f));
            }
        }
        if f.len() > 0 {
            if f[0] == '"' {
                assert(csv_needs_quotes(f));
            }
            assert((f + t)[0] == f[0]);
        }
        lemma_unquoted_len(f, t);
        assert((f + t).take(f.len() as int) =~= f);
    }
}

/// The text of a record's fields, before the terminator.
pub open spec fn csv_fields_text(fields: Seq<Seq<char>>) -> Seq<char> {
    join(fields.map_values(|f: Seq<char>| csv_field(f)), ","@)
}

proof fn lemma_join_front(parts: Seq<Seq<char>>, sep: Seq<char>)
    requires
        parts.len() >= 2,
    ensures
        join(parts, sep) == parts[0] + sep + join(parts.drop_first(), sep),
    decreases parts.len(),
{
    let dl = parts.drop_last();
    let df = parts.drop_first();
    assert(join(parts, sep) == join(dl, sep) + sep + parts.last());
    if parts.len() == 2 {
        assert(dl =~= seq![parts[0]]);
        assert(df =~= seq![parts[1]]);
        assert(join(dl, sep) == parts[0]);
        assert(join(df, sep) == parts[1]);
        assert(join(parts, sep) =~= parts[0] + sep + join(df, sep));
    } else {
        lemma_join_front(dl, sep);
        assert(dl.drop_first() =~= df.drop_last());
        assert(dl[0] == parts[0]);
        assert(df.last() == parts.last());
        assert(join(df, sep) == join(df.drop_last(), sep) + sep + df.last());
        assert(join(parts, sep) =~= parts[0] + sep + join(df, sep));
    }
}

proof fn lemma_read_fields(fs: Seq<Seq<char>>, rest: Seq<char>)
    requires
        fs.len() >= 1,
    ensures
        csv_read_fields(csv_fields_text(fs) + seq!['\n'] + rest) == (fs, csv_fields_text(fs).len() + 1int),
    decreases fs.len(),
{
    reveal_strlit(",");
    let cf = fs.map_values(|f: Seq<char>| csv_field(f));
    let text = csv_fields_text(fs);
    let s = text + seq!['\n'] + rest;
    if fs.len() == 1 {
        assert(text == csv_field(fs[0]));
        lemma_read_field(fs[0], seq!['\n'] + rest);
        assert(s =~= csv_field(fs[0]) + (seq!['\n'] + rest));
        assert(s[csv_field(fs[0]).len() as int] == '\n');
        assert(fs =~= seq![fs[0]]);
    } else {
        lemma_join_front(cf, ","@);
        let tail = fs.drop_first();
        assert(cf.drop_first() =~= tail.map_values(|f: Seq<char>| csv_field(f)));
        let ttext = csv_fields_text(tail);
        assert(text == csv_field(fs[0]) + seq![','] + ttext);
        let after = seq![','] + ttext + seq!['\n'] + rest;
        assert(s =~= csv_field(fs[0]) + after);
        lemma_read_field(fs[0], after);
        let k = csv_field(fs[0]).len() as int;
        assert(s[k] == ',');
        assert(s.skip(k + 1) =~= ttext + seq!['\n'] + rest);
        lemma_read_fields(tail, rest);
        assert(seq![fs[0]] + tail =~= fs);
    }
}

proof fn lemma_read_record(fs: Seq<Seq<char>>, rest: Seq<char>)
    requires
        fs.len() >= 2,
    ensures
        csv_read_records(csv_record(fs) + rest) == seq![fs] + csv_read_records(rest),
{
    reveal_strlit(",");
    let cf = fs.map_values(|f: Seq<char>| csv_field(f));
    lemma_join_front(cf, ","@);
    let text = csv_fields_text(fs);
    assert(text.len() >= 1);
    assert(csv_record(fs) == text + seq!['\n']);
    let s = csv_record(fs) + rest;
    assert(s =~= text + seq!['\n'] + rest);
    lemma_read_fields(fs, rest);
    assert(s.skip(text.len() + 1int) =~= rest);
}

proof fn lemma_item_records_front(items: Seq<SoftwareItem>)
    requires
        items.len() >= 1,
    ensures
        csv_item_records(items) == csv_record(csv_item_fields(items[0])) + csv_item_records(
            items.drop_first(),
        ),
    decreases items.len(),
{
    if items.len() == 1 {
        assert(items.drop_last() =~= Seq::<SoftwareItem>::empty());
        assert(items.drop_first() =~= Seq::<SoftwareItem>::empty());
        assert(csv_item_records(items) =~= csv_record(csv_item_fields(items[0])));
    } else {
        lemma_item_records_front(items.drop_last());
        assert(items.drop_last().drop_first() =~= items.drop_first().drop_last());
        assert(items.drop_first().last() == items.last());
        assert(csv_item_records(items) =~= csv_record(csv_item_fields(items[0]))
            + csv_item_records(items.drop_first()));
    }
}

proof fn lemma_read_item_records(items: Seq<SoftwareItem>)
    ensures
        csv_read_records(csv_item_records(items)) == items.map_values(
            |i: SoftwareItem| csv_item_fields(i),
        ),
    decreases items.len(),
{
    if items.len() == 0 {
        assert(csv_item_records(items) =~= Seq::<char>::empty());
        assert(items.map_values(|i: SoftwareItem| csv_item_fields(i)) =~= Seq::<Seq<Seq<char>>>::empty());
    } else {
        lemma_item_records_front(items);
        lemma_read_record(csv_item_fields(items[0]), csv_item_records(items.drop_first()));
        lemma_read_item_records(items.drop_first());
        assert(items.map_values(|i: SoftwareItem| csv_item_fields(i)) =~= seq![
            csv_item_fields(items[0]),
        ] + items.drop_first().map_values(|i: SoftwareItem| csv_item_fields(i)));
    }
}

/// Reading the CSV export back gives the header record, then one record per
/// item, in order, each of ten fields: id, package name, display name,
/// category, package manager, scope, version (or empty), installed size in
/// decimal (or empty), `true`/`false` for an available update, and
/// classification confidence.
pub proof fn lemma_csv_export_reads_back(items: Seq<SoftwareItem>)
    ensures
        csv_read_records(csv_document(items)) == seq![csv_header()] + items.map_values(
            |i: SoftwareItem| csv_item_fields(i),
        ),
        forall|r: int|
            0 <= r < csv_read_records(csv_document(items)).len() ==> (
            #[trigger] csv_read_records(csv_document(items))[r]).len() == 10,
{
    lemma_read_record(csv_header(), csv_item_records(items));
    lemma_read_item_records(items);
    let recs = csv_read_records(csv_document(items));
    assert forall|r: int| 0 <= r < recs.len() implies (#[trigger] recs[r]).len() == 10 by {
        if r > 0 {
            assert(recs[r] == csv_item_fields(items[r - 1]));
        }
    }
}

/// Reading the CSV export back, the first record is the column names and
/// record `r + 1` holds item `r`'s own values, column by column: id,
/// package name, display name, category, package manager, scope, version
/// (empty when unknown), installed size in decimal (empty when unknown),
/// `true` or `false` for an available update, classification confidence.
pub proof fn lemma_csv_export_columns(items: Seq<SoftwareItem>)
    ensures
        csv_read_records(csv_document(items)).len() == items.len() + 1,
        csv_read_records(csv_document(items))[0] == seq![
            "id"@,
            "packageName"@,
            "displayName"@,
            "category"@,
            "packageManager"@,
            "scope"@,
            "version"@,
            "installedSizeBytes"@,
            "updateAvailable"@,
            "classificationConfidence"@,
        ],
        forall|r: int|
            #![trigger items[r]]
            0 <= r < items.len() ==> {
                let rec = csv_read_records(csv_document(items))[r + 1];
                let item = items[r];
                &&& rec.len() == 10
                &&& rec[0] == item.id@
                &&& rec[1] == item.package_name@
                &&& rec[2] == item.display_name@
                &&& rec[3] == item.category@
                &&& rec[4] == item.package_manager@
                &&& rec[5] == item.scope@
                &&& rec[6] == (match item.version {
                    Some(v) => v@,
                    None => Seq::<char>::empty(),
                })
                &&& rec[7] == (match item.installed_size_bytes {
                    Some(n) => decimal(n as nat),
                    None => Seq::<char>::empty(),
                })
                &&& rec[8] == (if item.update_available {
                    "true"@
                } else {
                    "false"@
                })
                &&& rec[9] == item.classification_confidence@
            },
{
    lemma_csv_export_reads_back(items);
    let recs = csv_read_records(csv_document(items));
    assert(recs[0] == csv_header());
    assert forall|r: int| #![trigger items[r]] 0 <= r < items.len() implies {
        let rec = recs[r + 1];
        let item = items[r];
        &&& rec.len() == 10
        &&& rec[0] == item.id@
        &&& rec[1] == item.package_name@
        &&& rec[2] == item.display_name@
        &&& rec[3] == item.category@
        &&& rec[4] == item.package_manager@
        &&& rec[5] == item.scope@
        &&& rec[6] == (match item.version {
            Some(v) => v@,
            None => Seq::<char>::empty(),
        })
        &&& rec[7] == (match item.installed_size_bytes {
            Some(n) => decimal(n as nat),
            None => Seq::<char>::empty(),
        })
        &&& rec[8] == (if item.update_available {
            "true"@
        } else {
            "false"@
        })
        &&& rec[9] == item.classification_confidence@
    } by {
        assert(recs[r + 1] == csv_item_fields(items[r]));
    }
}

} // verus!
