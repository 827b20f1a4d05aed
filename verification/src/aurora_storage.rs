//! The storage of one wallet: options of fetches and searches, records,
//! and the decisions taken on what the database answers.
use vstd::prelude::*;

pub mod query_translator;
pub mod statement;

use std::sync::Arc;

use crate::errors::error_code::ErrorCode;
use crate::utils::handle_store::{HandleStore, law_no_object_under_non_positive_handle};
use crate::wql::{
    Operator,
    SqlArg,
    SqlArgView,
    args_view,
    parse_strings,
    spec_count_query,
    spec_fetch_query,
    spec_op_sql,
    spec_parse_strings,
    statement_as,
    strings_view,
};
use vstd::utf8::encode_utf8;

use crate::json::{
    JsonValue,
    JsonView,
    fields_view,
    items_view,
    json_text,
    json_to_string,
    lemma_json_view,
    field,
    from_text,
    parse_json,
    spec_field,
    spec_lookup,
    spec_struct_shape,
    struct_shape,
};

verus! {

/// The default of the flags that default to true.
pub fn default_true() -> (r: bool)
    ensures
        r,
{
    true
}

/// The default of the flags that default to false.
pub fn default_false() -> (r: bool)
    ensures
        !r,
{
    false
}

/// A flag of an options document: the boolean given for it, or `default`
/// where it is missing; `None` where it is given but not a boolean.
pub open spec fn spec_bool_field(doc: JsonView, name: Seq<char>, index: int, default: bool) -> Option<
    bool,
> {
    match spec_field(doc, name, index) {
        None => Some(default),
        Some(JsonView::Bool(b)) => Some(b),
        Some(_) => None,
    }
}

/// Reads a flag of an options document (see `spec_bool_field`).
fn bool_field(doc: &JsonValue, name: &str, index: usize, default: bool) -> (r: Option<bool>)
    ensures
        r == spec_bool_field(doc@, name@, index as int, default),
{
    match field(doc, name, index) {
        None => Some(default),
        Some(JsonValue::Bool(b)) => Some(*b),
        Some(_) => None,
    }
}

/// What a fetch retrieves besides the id. Defaults: type no, value yes,
/// tags yes.
#[derive(Debug, Clone, Copy, PartialEq, Eq, Structural)]
pub struct FetchOptions {
    pub retrieve_type: bool,
    pub retrieve_value: bool,
    pub retrieve_tags: bool,
}

/// The fetch options of a JSON document: an object with the members
/// `retrieveType`, `retrieveValue`, `retrieveTags` (others are ignored), or
/// an array of at most three flags in that order; each missing flag takes
/// its default, and a flag given as anything but a boolean is refused.
/// The document is the one `json_parse` gives, in which a member written
/// twice in the text is already reduced to one (the caller of the C
/// interface refuses such text before it gets here).
pub open spec fn spec_fetch_options(doc: JsonView) -> Option<FetchOptions> {
    match (
        spec_bool_field(doc, "retrieveType"@, 0, false),
        spec_bool_field(doc, "retrieveValue"@, 1, true),
        spec_bool_field(doc, "retrieveTags"@, 2, true),
    ) {
        (Some(t), Some(v), Some(g)) => if spec_struct_shape(doc, 3) {
            Some(FetchOptions { retrieve_type: t, retrieve_value: v, retrieve_tags: g })
        } else {
            None
        },
        _ => None,
    }
}

/// An options result that is `expected`, or `InvalidStructure` where there
/// is none.
pub open spec fn options_as<T>(r: Result<T, ErrorCode>, expected: Option<T>) -> bool {
    match expected {
        Some(o) => r == Ok::<T, ErrorCode>(o),
        None => r == Err::<T, ErrorCode>(ErrorCode::InvalidStructure),
    }
}

impl FetchOptions {
    /// Reads fetch options from a JSON document.
    pub fn from_value(doc: &JsonValue) -> (r: Result<FetchOptions, ErrorCode>)
        ensures
            options_as(r, spec_fetch_options(doc@)),
    {
        let t = bool_field(doc, "retrieveType", 0, default_false());
        let v = bool_field(doc, "retrieveValue", 1, default_true());
        let g = bool_field(doc, "retrieveTags", 2, default_true());
        match (t, v, g) {
            (Some(t), Some(v), Some(g)) => {
                if struct_shape(doc, 3) {
                    Ok(FetchOptions { retrieve_type: t, retrieve_value: v, retrieve_tags: g })
                } else {
                    Err(ErrorCode::InvalidStructure)
                }
            },
            _ => Err(ErrorCode::InvalidStructure),
        }
    }

    /// Reads fetch options from JSON text.
    pub fn from_json(options: &str) -> (r: Result<FetchOptions, ErrorCode>)
        ensures
            options_as(r, from_text(options@, |d: JsonView| spec_fetch_options(d))),
    {
        match parse_json(options) {
            Some(doc) => FetchOptions::from_value(&doc),
            None => Err(ErrorCode::InvalidStructure),
        }
    }
}

/// What a search retrieves. Each flag has a default where the JSON options
/// leave it out: records yes, total count no, type no, value yes, tags no.
#[derive(Debug, Clone, Copy, PartialEq, Eq, Structural)]
pub struct SearchOptions {
    pub retrieve_records: bool,
    pub retrieve_total_count: bool,
    pub retrieve_type: bool,
    pub retrieve_value: bool,
    pub retrieve_tags: bool,
}

/// The search options of a JSON document: an object with the members
/// `retrieveRecords`, `retrieveTotalCount`, `retrieveType`, `retrieveValue`,
/// `retrieveTags` (others are ignored), or an array of at most five flags in
/// that order; each missing flag takes its default, and a flag given as
/// anything but a boolean is refused. As for fetch options, a member
/// written twice in the text is already one member of the document.
pub open spec fn spec_search_options(doc: JsonView) -> Option<SearchOptions> {
    match (
        spec_bool_field(doc, "retrieveRecords"@, 0, true),
        spec_bool_field(doc, "retrieveTotalCount"@, 1, false),
        spec_bool_field(doc, "retrieveType"@, 2, false),
        spec_bool_field(doc, "retrieveValue"@, 3, true),
        spec_bool_field(doc, "retrieveTags"@, 4, false),
    ) {
        (Some(r), Some(c), Some(t), Some(v), Some(g)) => if spec_struct_shape(doc, 5) {
            Some(
                SearchOptions {
                    retrieve_records: r,
                    retrieve_total_count: c,
                    retrieve_type: t,
                    retrieve_value: v,
                    retrieve_tags: g,
                },
            )
        } else {
            None
        },
        _ => None,
    }
}

impl SearchOptions {
    /// Reads search options from a JSON document.
    pub fn from_value(doc: &JsonValue) -> (r: Result<SearchOptions, ErrorCode>)
        ensures
            options_as(r, spec_search_options(doc@)),
    {
        let rr = bool_field(doc, "retrieveRecords", 0, default_true());
        let rc = bool_field(doc, "retrieveTotalCount", 1, default_false());
        let rt = bool_field(doc, "retrieveType", 2, default_false());
        let rv = bool_field(doc, "retrieveValue", 3, default_true());
        let rg = bool_field(doc, "retrieveTags", 4, default_false());
        match (rr, rc, rt, rv, rg) {
            (Some(r), Some(c), Some(t), Some(v), Some(g)) => {
                if struct_shape(doc, 5) {
                    Ok(
                        SearchOptions {
                            retrieve_records: r,
                            retrieve_total_count: c,
                            retrieve_type: t,
                            retrieve_value: v,
                            retrieve_tags: g,
                        },
                    )
                } else {
                    Err(ErrorCode::InvalidStructure)
                }
            },
            _ => Err(ErrorCode::InvalidStructure),
        }
    }

    /// Reads search options from JSON text.
    pub fn from_json(options: &str) -> (r: Result<SearchOptions, ErrorCode>)
        ensures
            options_as(r, from_text(options@, |d: JsonView| spec_search_options(d))),
    {
        match parse_json(options) {
            Some(doc) => SearchOptions::from_value(&doc),
            None => Err(ErrorCode::InvalidStructure),
        }
    }
}

/// A key that no member of the object has.
pub open spec fn spec_absent(fields: Seq<(Seq<char>, JsonView)>, key: Seq<char>) -> bool {
    forall|i: int| 0 <= i < fields.len() ==> fields[i].0 != key
}

proof fn lemma_absent_lookup(fields: Seq<(Seq<char>, JsonView)>, key: Seq<char>)
    requires
        spec_absent(fields, key),
    ensures
        spec_lookup(fields, key) is None,
    decreases fields.len(),
{
    if fields.len() > 0 {
        assert(spec_absent(fields.drop_first(), key)) by {
            assert forall|i: int| 0 <= i < fields.drop_first().len() implies fields.drop_first()[i].0
                != key by {
                assert(fields.drop_first()[i] == fields[i + 1]);
            }
        }
        lemma_absent_lookup(fields.drop_first(), key);
    }
}

/// Each flag of the fetch options is read from the member of its own name:
/// in an object whose options are read, a flag given as `b` is `b`.
pub proof fn law_fetch_flags_read_by_name(fields: Seq<(Seq<char>, JsonView)>, b: bool)
    ensures
        spec_fetch_options(JsonView::Object(fields)) matches Some(o) ==> {
            &&& spec_lookup(fields, "retrieveType"@) == Some(JsonView::Bool(b)) ==> o.retrieve_type == b
            &&& spec_lookup(fields, "retrieveValue"@) == Some(JsonView::Bool(b)) ==> o.retrieve_value
                == b
            &&& spec_lookup(fields, "retrieveTags"@) == Some(JsonView::Bool(b)) ==> o.retrieve_tags == b
        },
{
}

/// Each flag of the search options is read from the member of its own
/// name: in an object whose options are read, a flag given as `b` is `b`.
pub proof fn law_search_flags_read_by_name(fields: Seq<(Seq<char>, JsonView)>, b: bool)
    ensures
        spec_search_options(JsonView::Object(fields)) matches Some(o) ==> {
            &&& spec_lookup(fields, "retrieveRecords"@) == Some(JsonView::Bool(b)) ==> o.retrieve_records
                == b
            &&& spec_lookup(fields, "retrieveTotalCount"@) == Some(JsonView::Bool(b))
                ==> o.retrieve_total_count == b
            &&& spec_lookup(fields, "retrieveType"@) == Some(JsonView::Bool(b)) ==> o.retrieve_type == b
            &&& spec_lookup(fields, "retrieveValue"@) == Some(JsonView::Bool(b)) ==> o.retrieve_value
                == b
            &&& spec_lookup(fields, "retrieveTags"@) == Some(JsonView::Bool(b)) ==> o.retrieve_tags == b
        },
{
}

/// Options given as an array of flags take them in the order of the
/// fields: type, value, tags for a fetch; records, total count, type,
/// value, tags for a search.
pub proof fn law_flags_in_field_order(a: bool, b: bool, c: bool, d: bool, e: bool)
    ensures
        spec_fetch_options(
            JsonView::Array(seq![JsonView::Bool(a), JsonView::Bool(b), JsonView::Bool(c)]),
        ) == Some(FetchOptions { retrieve_type: a, retrieve_value: b, retrieve_tags: c }),
        spec_search_options(
            JsonView::Array(
                seq![
                    JsonView::Bool(a),
                    JsonView::Bool(b),
                    JsonView::Bool(c),
                    JsonView::Bool(d),
                    JsonView::Bool(e),
                ],
            ),
        ) == Some(
            SearchOptions {
                retrieve_records: a,
                retrieve_total_count: b,
                retrieve_type: c,
                retrieve_value: d,
                retrieve_tags: e,
            },
        ),
{
}

/// An object that gives one fetch flag sets that flag, and only that one:
/// the others keep their defaults (type no, value yes, tags yes).
pub proof fn law_fetch_single_flag(b: bool)
    ensures
        spec_fetch_options(JsonView::Object(seq![("retrieveType"@, JsonView::Bool(b))])) == Some(
            FetchOptions { retrieve_type: b, retrieve_value: true, retrieve_tags: true },
        ),
        spec_fetch_options(JsonView::Object(seq![("retrieveValue"@, JsonView::Bool(b))])) == Some(
            FetchOptions { retrieve_type: false, retrieve_value: b, retrieve_tags: true },
        ),
        spec_fetch_options(JsonView::Object(seq![("retrieveTags"@, JsonView::Bool(b))])) == Some(
            FetchOptions { retrieve_type: false, retrieve_value: true, retrieve_tags: b },
        ),
{
    lemma_flag_names_differ();
    reveal_strlit("retrieveType");
    reveal_strlit("retrieveValue");
    reveal_strlit("retrieveTags");
    lemma_single_member_lookup("retrieveType"@, JsonView::Bool(b));
    lemma_single_member_lookup("retrieveValue"@, JsonView::Bool(b));
    lemma_single_member_lookup("retrieveTags"@, JsonView::Bool(b));
}

/// An object that gives one search flag sets that flag, and only that one:
/// the others keep their defaults (records yes, total count no, type no,
/// value yes, tags no).
pub proof fn law_search_single_flag(b: bool)
    ensures
        spec_search_options(JsonView::Object(seq![("retrieveRecords"@, JsonView::Bool(b))])) == Some(
            SearchOptions {
                retrieve_records: b,
                retrieve_total_count: false,
                retrieve_type: false,
                retrieve_value: true,
                retrieve_tags: false,
            },
        ),
        spec_search_options(JsonView::Object(seq![("retrieveTotalCount"@, JsonView::Bool(b))]))
            == Some(
            SearchOptions {
                retrieve_records: true,
                retrieve_total_count: b,
                retrieve_type: false,
                retrieve_value: true,
                retrieve_tags: false,
            },
        ),
        spec_search_options(JsonView::Object(seq![("retrieveType"@, JsonView::Bool(b))])) == Some(
            SearchOptions {
                retrieve_records: true,
                retrieve_total_count: false,
                retrieve_type: b,
                retrieve_value: true,
                retrieve_tags: false,
            },
        ),
        spec_search_options(JsonView::Object(seq![("retrieveValue"@, JsonView::Bool(b))])) == Some(
            SearchOptions {
                retrieve_records: true,
                retrieve_total_count: false,
                retrieve_type: false,
                retrieve_value: b,
                retrieve_tags: false,
            },
        ),
        spec_search_options(JsonView::Object(seq![("retrieveTags"@, JsonView::Bool(b))])) == Some(
            SearchOptions {
                retrieve_records: true,
                retrieve_total_count: false,
                retrieve_type: false,
                retrieve_value: true,
                retrieve_tags: b,
            },
        ),
{
    lemma_flag_names_differ();
    reveal_strlit("retrieveRecords");
    reveal_strlit("retrieveTotalCount");
    reveal_strlit("retrieveType");
    reveal_strlit("retrieveValue");
    reveal_strlit("retrieveTags");
    lemma_single_member_lookup("retrieveRecords"@, JsonView::Bool(b));
    lemma_single_member_lookup("retrieveTotalCount"@, JsonView::Bool(b));
    lemma_single_member_lookup("retrieveType"@, JsonView::Bool(b));
    lemma_single_member_lookup("retrieveValue"@, JsonView::Bool(b));
    lemma_single_member_lookup("retrieveTags"@, JsonView::Bool(b));
}

/// The names of the option flags are pairwise different.
proof fn lemma_flag_names_differ()
    ensures
        "retrieveRecords"@ != "retrieveTotalCount"@,
        "retrieveRecords"@ != "retrieveType"@,
        "retrieveRecords"@ != "retrieveValue"@,
        "retrieveRecords"@ != "retrieveTags"@,
        "retrieveTotalCount"@ != "retrieveType"@,
        "retrieveTotalCount"@ != "retrieveValue"@,
        "retrieveTotalCount"@ != "retrieveTags"@,
        "retrieveType"@ != "retrieveValue"@,
        "retrieveType"@ != "retrieveTags"@,
        "retrieveValue"@ != "retrieveTags"@,
{
    reveal_strlit("retrieveRecords");
    reveal_strlit("retrieveTotalCount");
    reveal_strlit("retrieveType");
    reveal_strlit("retrieveValue");
    reveal_strlit("retrieveTags");
    assert("retrieveRecords"@.len() == 15);
    assert("retrieveTotalCount"@.len() == 18);
    assert("retrieveType"@.len() == 12);
    assert("retrieveValue"@.len() == 13);
    assert("retrieveTags"@.len() == 12);
    assert("retrieveType"@[9] != "retrieveTags"@[9]);
}

proof fn lemma_single_member_lookup(key: Seq<char>, value: JsonView)
    ensures
        spec_lookup(seq![(key, value)], key) == Some(value),
        forall|other: Seq<char>| other != key ==> spec_lookup(seq![(key, value)], other) is None,
{
    let fields = seq![(key, value)];
    assert(fields.drop_first() =~= Seq::<(Seq<char>, JsonView)>::empty());
    assert forall|other: Seq<char>| other != key implies spec_lookup(fields, other) is None by {
        assert(spec_lookup(fields.drop_first(), other) is None);
    }
}

/// Options that leave every flag out take the defaults: an object without
/// the flags' names (whatever else it holds), or an empty array.
pub proof fn law_options_default(fields: Seq<(Seq<char>, JsonView)>)
    ensures
        spec_absent(fields, "retrieveType"@) && spec_absent(fields, "retrieveValue"@) && spec_absent(
            fields,
            "retrieveTags"@,
        ) ==> spec_fetch_options(JsonView::Object(fields)) == Some(
            FetchOptions { retrieve_type: false, retrieve_value: true, retrieve_tags: true },
        ),
        spec_absent(fields, "retrieveRecords"@) && spec_absent(fields, "retrieveTotalCount"@)
            && spec_absent(fields, "retrieveType"@) && spec_absent(fields, "retrieveValue"@)
            && spec_absent(fields, "retrieveTags"@) ==> spec_search_options(JsonView::Object(fields))
            == Some(
            SearchOptions {
                retrieve_records: true,
                retrieve_total_count: false,
                retrieve_type: false,
                retrieve_value: true,
                retrieve_tags: false,
            },
        ),
        spec_fetch_options(JsonView::Array(Seq::empty())) == Some(
            FetchOptions { retrieve_type: false, retrieve_value: true, retrieve_tags: true },
        ),
        spec_search_options(JsonView::Array(Seq::empty())) == Some(
            SearchOptions {
                retrieve_records: true,
                retrieve_total_count: false,
                retrieve_type: false,
                retrieve_value: true,
                retrieve_tags: false,
            },
        ),
{
    if spec_absent(fields, "retrieveType"@) {
        lemma_absent_lookup(fields, "retrieveType"@);
    }
    if spec_absent(fields, "retrieveValue"@) {
        lemma_absent_lookup(fields, "retrieveValue"@);
    }
    if spec_absent(fields, "retrieveTags"@) {
        lemma_absent_lookup(fields, "retrieveTags"@);
    }
    if spec_absent(fields, "retrieveRecords"@) {
        lemma_absent_lookup(fields, "retrieveRecords"@);
    }
    if spec_absent(fields, "retrieveTotalCount"@) {
        lemma_absent_lookup(fields, "retrieveTotalCount"@);
    }
}

// ---------------------------------------------------------------------------
// Records
// ---------------------------------------------------------------------------

/// Bytes with no NUL among them.
pub open spec fn spec_no_nul(b: Seq<u8>) -> bool {
    forall|i: int| 0 <= i < b.len() ==> b[i] != 0
}

/// The C string of a text: its UTF-8 bytes followed by a NUL.
pub open spec fn spec_c_text(s: Seq<char>) -> Seq<u8> {
    encode_utf8(s).push(0)
}

/// Whether a text can become a C string: its UTF-8 bytes hold no NUL.
pub open spec fn spec_c_text_ok(s: Seq<char>) -> bool {
    spec_no_nul(encode_utf8(s))
}

/// The C string of a text is its UTF-8 bytes and one NUL after them, the
/// only NUL in it: a reader of C strings gets the whole text back.
pub proof fn law_c_text_ends_at_its_only_nul(s: Seq<char>)
    requires
        spec_c_text_ok(s),
    ensures
        spec_c_text(s).len() == encode_utf8(s).len() + 1,
        spec_c_text(s).last() == 0,
        spec_c_text(s).drop_last() == encode_utf8(s),
        spec_no_nul(spec_c_text(s).drop_last()),
{
    assert(spec_c_text(s).drop_last() =~= encode_utf8(s));
}

/// Makes the C string of a text (`spec_c_text`); `None` where the text
/// holds a NUL.
pub fn c_text(s: &str) -> (r: Option<Vec<u8>>)
    ensures
        match r {
            Some(v) => spec_c_text_ok(s@) && v@ == spec_c_text(s@),
            None => !spec_c_text_ok(s@),
        },
{
    let bytes = s.as_bytes();
    let mut out: Vec<u8> = Vec::new();
    let mut i: usize = 0;
    while i < bytes.len()
        invariant
            0 <= i <= bytes@.len(),
            bytes@ == encode_utf8(s@),
            out@ == bytes@.take(i as int),
            forall|j: int| 0 <= j < i ==> bytes@[j] != 0,
        decreases bytes@.len() - i,
    {
        if bytes[i] == 0 {
            return None;
        }
        out.push(bytes[i]);
        assert(bytes@.take(i + 1) =~= bytes@.take(i as int).push(bytes@[i as int]));
        i = i + 1;
    }
    assert(bytes@.take(i as int) =~= bytes@);
    out.push(0);
    Some(out)
}

/// A record handed to the caller: its id, and its value, tags and type
/// where they were retrieved. The id, tags and type are C strings.
#[derive(Debug)]
pub struct Record {
    pub id: Vec<u8>,
    pub value: Option<Vec<u8>>,
    pub tags: Option<Vec<u8>>,
    pub type_: Option<Vec<u8>>,
}

/// The model of a record.
pub struct RecordView {
    pub id: Seq<u8>,
    pub value: Option<Seq<u8>>,
    pub tags: Option<Seq<u8>>,
    pub type_: Option<Seq<u8>>,
}

/// The model of optional bytes.
pub open spec fn opt_bytes(s: Option<Vec<u8>>) -> Option<Seq<u8>> {
    match s {
        Some(t) => Some(t@),
        None => None,
    }
}

impl View for Record {
    type V = RecordView;

    open spec fn view(&self) -> RecordView {
        RecordView {
            id: self.id@,
            value: opt_bytes(self.value),
            tags: opt_bytes(self.tags),
            type_: opt_bytes(self.type_),
        }
    }
}

impl Record {
    /// A record of these parts.
    pub fn new(id: Vec<u8>, value: Option<Vec<u8>>, tags: Option<Vec<u8>>, type_: Option<Vec<u8>>) -> (r:
        Self)
        ensures
            r.id == id,
            r.value == value,
            r.tags == tags,
            r.type_ == type_,
    {
        Record { id, value, tags, type_ }
    }
}

/// The C string of an optional text, or `None` where it holds a NUL.
fn opt_c_text(s: &Option<String>) -> (r: Result<Option<Vec<u8>>, ErrorCode>)
    ensures
        match s {
            Some(t) => if spec_c_text_ok(t@) {
                r matches Ok(Some(v)) && v@ == spec_c_text(t@)
            } else {
                r == Err::<Option<Vec<u8>>, ErrorCode>(ErrorCode::InvalidState)
            },
            None => r matches Ok(None),
        },
{
    match s {
        Some(t) => match c_text(t.as_str()) {
            Some(v) => Ok(Some(v)),
            None => Err(ErrorCode::InvalidState),
        },
        None => Ok(None),
    }
}

/// The model of the C string of an optional text.
pub open spec fn opt_c_text_view(s: Option<String>) -> Option<Seq<u8>> {
    match s {
        Some(t) => Some(spec_c_text(t@)),
        None => None,
    }
}

/// Whether an optional text can become a C string.
pub open spec fn opt_c_text_ok(s: Option<String>) -> bool {
    match s {
        Some(t) => spec_c_text_ok(t@),
        None => true,
    }
}

// ---------------------------------------------------------------------------
// What the database answers
// ---------------------------------------------------------------------------

/// What the database answered to a statement that changes rows: the
/// number of rows it changed, a server error with its code, or another
/// failure (of the connection or the driver).
#[derive(Debug, Clone, Copy, PartialEq, Eq, Structural)]
pub enum ExecReply {
    Done(u64),
    MySqlError(u16),
    OtherError,
}

/// The first row of the answer to a query: the row (as the columns the
/// caller read from it), no row at all, or a failure.
#[derive(Debug)]
pub enum RowReply<T> {
    Row(T),
    NoRow,
    Failed,
}

/// The statements that change rows, each with its own reading of the reply.
#[derive(Debug, Clone, Copy, PartialEq, Eq, Structural)]
pub enum Change {
    CreateWallet,
    DeleteWallet,
    AddRecord,
    DeleteRecord,
    UpdateRecordValue,
    AddRecordTags,
    UpdateRecordTags,
    DeleteRecordTags,
    SetMetadata,
}

/// The result of a statement that changes rows:
/// - creating a wallet or adding a record succeeds once done; a duplicate
///   key is `WalletAlreadyExistsError` or `RecordAlreadyExists`, invalid
///   JSON tags (3140) for a record are `InvalidStructure`;
/// - setting metadata succeeds once done;
/// - the others must change exactly one row, else the wallet is missing
///   (`InvalidState`) or the record is (`WalletNotFoundError`); for tags, a
///   syntax error (1064, adding or deleting) or invalid JSON (3140,
///   replacing) is `InvalidStructure`;
/// - any other failure is `IOError`.
pub open spec fn spec_change_outcome(change: Change, reply: ExecReply) -> ErrorCode {
    match reply {
        ExecReply::Done(rows) => match change {
            Change::CreateWallet | Change::AddRecord | Change::SetMetadata => ErrorCode::Success,
            Change::DeleteWallet => if rows == 1 {
                ErrorCode::Success
            } else {
                ErrorCode::InvalidState
            },
            _ => if rows == 1 {
                ErrorCode::Success
            } else {
                ErrorCode::WalletNotFoundError
            },
        },
        ExecReply::MySqlError(code) => match change {
            Change::CreateWallet => if code == 1062 {
                ErrorCode::WalletAlreadyExistsError
            } else {
                ErrorCode::IOError
            },
            Change::AddRecord => if code == 1062 {
                ErrorCode::RecordAlreadyExists
            } else if code == 3140 {
                ErrorCode::InvalidStructure
            } else {
                ErrorCode::IOError
            },
            Change::AddRecordTags | Change::DeleteRecordTags => if code == 1064 {
                ErrorCode::InvalidStructure
            } else {
                ErrorCode::IOError
            },
            Change::UpdateRecordTags => if code == 3140 {
                ErrorCode::InvalidStructure
            } else {
                ErrorCode::IOError
            },
            _ => ErrorCode::IOError,
        },
        ExecReply::OtherError => ErrorCode::IOError,
    }
}

/// Reads the reply to a statement that changes rows (see
/// `spec_change_outcome`).
pub fn change_outcome(change: Change, reply: &ExecReply) -> (r: ErrorCode)
    ensures
        r == spec_change_outcome(change, *reply),
{
    match reply {
        ExecReply::Done(rows) => match change {
            Change::CreateWallet | Change::AddRecord | Change::SetMetadata => ErrorCode::Success,
            Change::DeleteWallet => if *rows == 1 {
                ErrorCode::Success
            } else {
                ErrorCode::InvalidState
            },
            _ => if *rows == 1 {
                ErrorCode::Success
            } else {
                ErrorCode::WalletNotFoundError
            },
        },
        ExecReply::MySqlError(code) => match change {
            Change::CreateWallet => if *code == 1062 {
                ErrorCode::WalletAlreadyExistsError
            } else {
                ErrorCode::IOError
            },
            Change::AddRecord => if *code == 1062 {
                ErrorCode::RecordAlreadyExists
            } else if *code == 3140 {
                ErrorCode::InvalidStructure
            } else {
                ErrorCode::IOError
            },
            Change::AddRecordTags | Change::DeleteRecordTags => if *code == 1064 {
                ErrorCode::InvalidStructure
            } else {
                ErrorCode::IOError
            },
            Change::UpdateRecordTags => if *code == 3140 {
                ErrorCode::InvalidStructure
            } else {
                ErrorCode::IOError
            },
            _ => ErrorCode::IOError,
        },
        ExecReply::OtherError => ErrorCode::IOError,
    }
}

/// The id of a wallet found by name: the first column of the first row;
/// `InvalidState` where there is no such row or column, `IOError` where
/// the query failed.
pub open spec fn spec_wallet_id_outcome(reply: RowReply<Option<u64>>) -> Result<u64, ErrorCode> {
    match reply {
        RowReply::Row(Some(id)) => Ok(id),
        RowReply::Row(None) => Err(ErrorCode::InvalidState),
        RowReply::NoRow => Err(ErrorCode::InvalidState),
        RowReply::Failed => Err(ErrorCode::IOError),
    }
}

/// Reads the reply to the query for a wallet's id.
pub fn wallet_id_outcome(reply: &RowReply<Option<u64>>) -> (r: Result<u64, ErrorCode>)
    ensures
        r == spec_wallet_id_outcome(*reply),
{
    match reply {
        RowReply::Row(Some(id)) => Ok(*id),
        RowReply::Row(None) => Err(ErrorCode::InvalidState),
        RowReply::NoRow => Err(ErrorCode::InvalidState),
        RowReply::Failed => Err(ErrorCode::IOError),
    }
}

/// Whether a record exists, by the count of rows with its type and id:
/// `Success` for a positive count, `WalletNotFoundError` for none, and
/// `IOError` where the count could not be read.
pub open spec fn spec_record_exists_outcome(reply: RowReply<Option<u64>>) -> ErrorCode {
    match reply {
        RowReply::Row(Some(count)) => if count == 0 {
            ErrorCode::WalletNotFoundError
        } else {
            ErrorCode::Success
        },
        _ => ErrorCode::IOError,
    }
}

/// Reads the reply to the query that counts a record's rows.
pub fn record_exists_outcome(reply: &RowReply<Option<u64>>) -> (r: ErrorCode)
    ensures
        r == spec_record_exists_outcome(*reply),
{
    match reply {
        RowReply::Row(Some(count)) => if *count == 0 {
            ErrorCode::WalletNotFoundError
        } else {
            ErrorCode::Success
        },
        _ => ErrorCode::IOError,
    }
}

// ---------------------------------------------------------------------------
// The storage of one wallet
// ---------------------------------------------------------------------------

/// The columns read from the row of a fetched record: the value and the
/// tags (`None` where the column could not be read).
#[derive(Debug)]
pub struct FetchRow {
    pub value: Option<Vec<u8>>,
    pub tags: Option<String>,
}

/// The columns read from a row of a search: type, id, value, tags; the
/// outer `None` where the column could not be read, the inner where it
/// held NULL.
#[derive(Debug)]
pub struct SearchRow {
    pub type_: Option<Option<String>>,
    pub id: Option<String>,
    pub value: Option<Option<Vec<u8>>>,
    pub tags: Option<Option<String>>,
}

/// A search: the cursor of its records, if it retrieves records, and the
/// total count, if it retrieves that.
#[derive(Debug)]
pub struct Search<S> {
    pub records: Option<S>,
    pub total_count: Option<u64>,
}

/// The record a fetch gives: the id; the value and tags if asked for; the
/// type if asked for. `WalletNotFoundError` where the record is missing,
/// `IOError` where the query failed or a column could not be read,
/// `InvalidState` where a text holds a NUL character.
pub open spec fn spec_fetch_record(
    type_: Seq<char>,
    id: Seq<char>,
    options: FetchOptions,
    reply: RowReply<FetchRow>,
) -> Result<RecordView, ErrorCode> {
    match reply {
        RowReply::NoRow => Err(ErrorCode::WalletNotFoundError),
        RowReply::Failed => Err(ErrorCode::IOError),
        RowReply::Row(row) => match (row.value, row.tags) {
            (Some(value), Some(tags)) => if !spec_c_text_ok(id) {
                Err(ErrorCode::InvalidState)
            } else if options.retrieve_tags && !spec_c_text_ok(tags@) {
                Err(ErrorCode::InvalidState)
            } else if options.retrieve_type && !spec_c_text_ok(type_) {
                Err(ErrorCode::InvalidState)
            } else {
                Ok(
                    RecordView {
                        id: spec_c_text(id),
                        value: if options.retrieve_value {
                            Some(value@)
                        } else {
                            None
                        },
                        tags: if options.retrieve_tags {
                            Some(spec_c_text(tags@))
                        } else {
                            None
                        },
                        type_: if options.retrieve_type {
                            Some(spec_c_text(type_))
                        } else {
                            None
                        },
                    },
                )
            },
            _ => Err(ErrorCode::IOError),
        },
    }
}

/// The record a row of a search gives. `WalletNotFoundError` where the
/// search has no more rows, `IOError` where reading failed or a column
/// could not be read, `InvalidState` where a text holds a NUL character.
pub open spec fn spec_search_record(reply: RowReply<SearchRow>) -> Result<RecordView, ErrorCode> {
    match reply {
        RowReply::NoRow => Err(ErrorCode::WalletNotFoundError),
        RowReply::Failed => Err(ErrorCode::IOError),
        RowReply::Row(row) => match (row.type_, row.id, row.value, row.tags) {
            (Some(type_), Some(id), Some(value), Some(tags)) => if !spec_c_text_ok(id@) {
                Err(ErrorCode::InvalidState)
            } else if !opt_c_text_ok(tags) {
                Err(ErrorCode::InvalidState)
            } else if !opt_c_text_ok(type_) {
                Err(ErrorCode::InvalidState)
            } else {
                Ok(
                    RecordView {
                        id: spec_c_text(id@),
                        value: opt_bytes(value),
                        tags: opt_c_text_view(tags),
                        type_: opt_c_text_view(type_),
                    },
                )
            },
            _ => Err(ErrorCode::IOError),
        },
    }
}

/// A row of a search whose four columns all read, with texts free of NUL,
/// gives the record of exactly those columns: the id as a C string (its
/// UTF-8 bytes and a NUL); the value as it is; the tags and the type as C
/// strings where the columns hold a text, and none where they hold NULL.
pub proof fn law_search_row_gives_its_columns(row: SearchRow)
    requires
        row.type_ is Some,
        row.id is Some,
        row.value is Some,
        row.tags is Some,
        spec_no_nul(encode_utf8(row.id->0@)),
        row.tags matches Some(Some(t)) ==> spec_no_nul(encode_utf8(t@)),
        row.type_ matches Some(Some(t)) ==> spec_no_nul(encode_utf8(t@)),
    ensures
        spec_search_record(RowReply::Row(row)) matches Ok(rec) && {
            &&& rec.id == encode_utf8(row.id->0@).push(0)
            &&& (row.value matches Some(Some(v)) ==> rec.value == Some(v@))
            &&& (row.value matches Some(None) ==> rec.value is None)
            &&& (row.tags matches Some(Some(t)) ==> rec.tags == Some(encode_utf8(t@).push(0)))
            &&& (row.tags matches Some(None) ==> rec.tags is None)
            &&& (row.type_ matches Some(Some(t)) ==> rec.type_ == Some(encode_utf8(t@).push(0)))
            &&& (row.type_ matches Some(None) ==> rec.type_ is None)
        },
{
}

/// The row of a fetch whose value and tags columns read, with the id, the
/// tags and the type free of NUL, gives the record of what the options ask
/// for: always the id; the value exactly when the value is asked for; the
/// tags exactly when they are asked for; the type exactly when it is asked
/// for; the texts as C strings (their UTF-8 bytes and a NUL).
pub proof fn law_fetch_row_gives_what_is_asked(
    type_: Seq<char>,
    id: Seq<char>,
    options: FetchOptions,
    value: Vec<u8>,
    tags: String,
)
    requires
        spec_no_nul(encode_utf8(id)),
        spec_no_nul(encode_utf8(tags@)),
        spec_no_nul(encode_utf8(type_)),
    ensures
        spec_fetch_record(
            type_,
            id,
            options,
            RowReply::Row(FetchRow { value: Some(value), tags: Some(tags) }),
        ) matches Ok(rec) && {
            &&& rec.id == encode_utf8(id).push(0)
            &&& (rec.value is Some <==> options.retrieve_value)
            &&& (options.retrieve_value ==> rec.value == Some(value@))
            &&& (rec.tags is Some <==> options.retrieve_tags)
            &&& (options.retrieve_tags ==> rec.tags == Some(encode_utf8(tags@).push(0)))
            &&& (rec.type_ is Some <==> options.retrieve_type)
            &&& (options.retrieve_type ==> rec.type_ == Some(encode_utf8(type_).push(0)))
        },
{
}

/// The storage of one open wallet: its id in the database, and the
/// records, searches and metadata handed out to the caller under handles.
pub struct AuroraStorage<S> {
    wallet_id: u64,
    records: HandleStore<Record>,
    searches: HandleStore<Search<S>>,
    metadata: HandleStore<Vec<u8>>,
}

impl<S> AuroraStorage<S> {
    /// The wallet's id in the database.
    pub closed spec fn spec_wallet_id(&self) -> u64 {
        self.wallet_id
    }

    /// The records handed out, by handle.
    pub closed spec fn records(&self) -> Map<i32, Record> {
        self.records.handles()
    }

    /// The searches handed out, by handle.
    pub closed spec fn searches(&self) -> Map<i32, Search<S>> {
        self.searches.handles()
    }

    /// The metadata handed out, by handle, as C strings.
    pub closed spec fn metadata(&self) -> Map<i32, Vec<u8>> {
        self.metadata.handles()
    }

    /// How many handles each store has issued: records, searches, metadata.
    pub closed spec fn issued_counts(&self) -> (nat, nat, nat) {
        (self.records.issued(), self.searches.issued(), self.metadata.issued())
    }

    /// The handle stores are well formed.
    pub closed spec fn wf(&self) -> bool {
        &&& self.records.wf()
        &&& self.searches.wf()
        &&& self.metadata.wf()
    }

    /// Whether each handle store can still issue a handle.
    pub closed spec fn spec_has_room(&self) -> bool {
        &&& self.records.issued() < usize::MAX
        &&& self.searches.issued() < usize::MAX
        &&& self.metadata.issued() < usize::MAX
    }

    /// The storage of the wallet `wallet_id`, with nothing handed out.
    pub fn new(wallet_id: u64) -> (r: Self)
        ensures
            r.wf(),
            r.spec_has_room(),
            r.spec_wallet_id() == wallet_id,
            r.issued_counts() == (0nat, 0nat, 0nat),
            r.records() == Map::<i32, Record>::empty(),
            r.searches() == Map::<i32, Search<S>>::empty(),
            r.metadata() == Map::<i32, Vec<u8>>::empty(),
    {
        AuroraStorage {
            wallet_id,
            records: HandleStore::new(),
            searches: HandleStore::new(),
            metadata: HandleStore::new(),
        }
    }

    /// The wallet's id in the database.
    pub fn wallet_id(&self) -> (r: u64)
        ensures
            r == self.spec_wallet_id(),
    {
        self.wallet_id
    }

    /// Whether each handle store can still issue a handle.
    pub fn has_room(&self) -> (r: bool)
        ensures
            r == self.spec_has_room(),
    {
        self.records.can_insert() && self.searches.can_insert() && self.metadata.can_insert()
    }

    /// Drops a record handed out; `InvalidState` where there is none under
    /// the handle.
    pub fn free_record(&mut self, record_handle: i32) -> (r: ErrorCode)
        requires
            old(self).wf(),
        ensures
            final(self).wf(),
            r == if old(self).records().contains_key(record_handle) {
                ErrorCode::Success
            } else {
                ErrorCode::InvalidState
            },
            final(self).records() == old(self).records().remove(record_handle),
            final(self).searches() == old(self).searches(),
            final(self).metadata() == old(self).metadata(),
            final(self).spec_wallet_id() == old(self).spec_wallet_id(),
            final(self).spec_has_room() == old(self).spec_has_room(),
            final(self).issued_counts() == old(self).issued_counts(),
    {
        if self.records.remove(record_handle) {
            ErrorCode::Success
        } else {
            ErrorCode::InvalidState
        }
    }

    /// Drops a search handed out; `InvalidState` where there is none under
    /// the handle.
    pub fn free_search(&mut self, search_handle: i32) -> (r: ErrorCode)
        requires
            old(self).wf(),
        ensures
            final(self).wf(),
            r == if old(self).searches().contains_key(search_handle) {
                ErrorCode::Success
            } else {
                ErrorCode::InvalidState
            },
            final(self).searches() == old(self).searches().remove(search_handle),
            final(self).records() == old(self).records(),
            final(self).metadata() == old(self).metadata(),
            final(self).spec_wallet_id() == old(self).spec_wallet_id(),
            final(self).spec_has_room() == old(self).spec_has_room(),
            final(self).issued_counts() == old(self).issued_counts(),
    {
        if self.searches.remove(search_handle) {
            ErrorCode::Success
        } else {
            ErrorCode::InvalidState
        }
    }

    /// Drops metadata handed out; `InvalidState` where there is none under
    /// the handle.
    pub fn free_metadata(&mut self, metadata_handle: i32) -> (r: ErrorCode)
        requires
            old(self).wf(),
        ensures
            final(self).wf(),
            r == if old(self).metadata().contains_key(metadata_handle) {
                ErrorCode::Success
            } else {
                ErrorCode::InvalidState
            },
            final(self).metadata() == old(self).metadata().remove(metadata_handle),
            final(self).records() == old(self).records(),
            final(self).searches() == old(self).searches(),
            final(self).spec_wallet_id() == old(self).spec_wallet_id(),
            final(self).spec_has_room() == old(self).spec_has_room(),
            final(self).issued_counts() == old(self).issued_counts(),
    {
        if self.metadata.remove(metadata_handle) {
            ErrorCode::Success
        } else {
            ErrorCode::InvalidState
        }
    }

    /// The record under a handle, if there is one.
    pub fn get_record(&self, record_handle: i32) -> (r: Option<Arc<Record>>)
        ensures
            match r {
                Some(a) => self.records().contains_key(record_handle) && *a == self.records()[record_handle],
                None => !self.records().contains_key(record_handle),
            },
    {
        self.records.get(record_handle)
    }

    /// The search under a handle whose records can be fetched;
    /// `InvalidState` where there is no search under the handle or it does
    /// not retrieve records.
    pub fn search_for_fetch(&self, search_handle: i32) -> (r: Result<Arc<Search<S>>, ErrorCode>)
        ensures
            match r {
                Ok(a) => self.searches().contains_key(search_handle) && *a == self.searches()[search_handle]
                    && a.records is Some,
                Err(e) => e == ErrorCode::InvalidState && !(self.searches().contains_key(search_handle)
                    && self.searches()[search_handle].records is Some),
            },
    {
        match self.searches.get(search_handle) {
            Some(search) => {
                if search.records.is_some() {
                    Ok(search)
                } else {
                    Err(ErrorCode::InvalidState)
                }
            },
            None => Err(ErrorCode::InvalidState),
        }
    }

    /// The total count of a search; `InvalidState` where there is no search
    /// under the handle or it does not retrieve the count.
    pub fn get_search_total_count(&self, search_handle: i32) -> (r: Result<u64, ErrorCode>)
        ensures
            r == if self.searches().contains_key(search_handle) {
                match self.searches()[search_handle].total_count {
                    Some(c) => Ok(c),
                    None => Err(ErrorCode::InvalidState),
                }
            } else {
                Err(ErrorCode::InvalidState)
            },
    {
        match self.searches.get(search_handle) {
            Some(search) => match search.total_count {
                Some(c) => Ok(c),
                None => Err(ErrorCode::InvalidState),
            },
            None => Err(ErrorCode::InvalidState),
        }
    }

    /// Keeps a search under a new handle.
    pub fn store_search(&mut self, search: Search<S>) -> (handle: i32)
        requires
            old(self).wf(),
            old(self).spec_has_room(),
        ensures
            final(self).wf(),
            final(self).searches() == old(self).searches().insert(handle, search),
            final(self).records() == old(self).records(),
            final(self).metadata() == old(self).metadata(),
            final(self).spec_wallet_id() == old(self).spec_wallet_id(),
            handle == (old(self).issued_counts().1 + 1) as i32,
            final(self).issued_counts() == (
                old(self).issued_counts().0,
                old(self).issued_counts().1 + 1,
                old(self).issued_counts().2,
            ),
            old(self).issued_counts().1 < i32::MAX ==> 1 <= handle && !old(self).searches().contains_key(
                handle,
            ),
    {
        self.searches.insert(search)
    }

    /// Keeps a record under a new handle.
    fn store_record(&mut self, record: Record) -> (handle: i32)
        requires
            old(self).wf(),
            old(self).spec_has_room(),
        ensures
            final(self).wf(),
            final(self).records() == old(self).records().insert(handle, record),
            final(self).searches() == old(self).searches(),
            final(self).metadata() == old(self).metadata(),
            final(self).spec_wallet_id() == old(self).spec_wallet_id(),
            handle == (old(self).issued_counts().0 + 1) as i32,
            final(self).issued_counts() == (
                old(self).issued_counts().0 + 1,
                old(self).issued_counts().1,
                old(self).issued_counts().2,
            ),
            old(self).issued_counts().0 < i32::MAX ==> 1 <= handle && !old(self).records().contains_key(
                handle,
            ),
    {
        self.records.insert(record)
    }

    /// Makes the record of a fetch from the row the database gave (see
    /// `spec_fetch_record`) and hands it out under a new handle.
    pub fn fetch_record(
        &mut self,
        type_: &str,
        id: &str,
        options: &FetchOptions,
        reply: RowReply<FetchRow>,
    ) -> (r: Result<i32, ErrorCode>)
        requires
            old(self).wf(),
            old(self).spec_has_room(),
        ensures
            final(self).wf(),
            final(self).searches() == old(self).searches(),
            final(self).metadata() == old(self).metadata(),
            final(self).spec_wallet_id() == old(self).spec_wallet_id(),
            match spec_fetch_record(type_@, id@, *options, reply) {
                Ok(rec) => r matches Ok(h) && final(self).records().contains_key(h)
                    && final(self).records()[h]@ == rec && final(self).records() == old(self).records().insert(h, final(self).records()[h])
                    && h == (old(self).issued_counts().0 + 1) as i32
                    && final(self).issued_counts() == (
                        old(self).issued_counts().0 + 1,
                        old(self).issued_counts().1,
                        old(self).issued_counts().2,
                    ) && (old(self).issued_counts().0 < i32::MAX ==> 1 <= h && !old(self).records().contains_key(h)),
                Err(e) => r == Err::<i32, ErrorCode>(e) && final(self).records() == old(self).records()
                    && final(self).issued_counts() == old(self).issued_counts(),
            },
    {
        let ghost spec_reply = reply;
        match reply {
            RowReply::NoRow => Err(ErrorCode::WalletNotFoundError),
            RowReply::Failed => Err(ErrorCode::IOError),
            RowReply::Row(row) => match (row.value, row.tags) {
                (Some(value), Some(tags)) => {
                    let cid = match c_text(id) {
                        Some(c) => c,
                        None => return Err(ErrorCode::InvalidState),
                    };
                    let ctags = if options.retrieve_tags {
                        match c_text(tags.as_str()) {
                            Some(c) => Some(c),
                            None => return Err(ErrorCode::InvalidState),
                        }
                    } else {
                        None
                    };
                    let ctype = if options.retrieve_type {
                        match c_text(type_) {
                            Some(c) => Some(c),
                            None => return Err(ErrorCode::InvalidState),
                        }
                    } else {
                        None
                    };
                    {
                        let record = Record::new(
                            cid,
                            if options.retrieve_value {
                                Some(value)
                            } else {
                                None
                            },
                            ctags,
                            ctype,
                        );
                        let ghost rv = record@;
                        let h = self.store_record(record);
                        assert(self.records()[h]@ == rv);
                        Ok(h)
                    }
                },
                _ => Err(ErrorCode::IOError),
            },
        }
    }

    /// Makes the record of the next row of a search (see
    /// `spec_search_record`) and hands it out under a new handle.
    pub fn record_from_search_row(&mut self, reply: RowReply<SearchRow>) -> (r: Result<i32, ErrorCode>)
        requires
            old(self).wf(),
            old(self).spec_has_room(),
        ensures
            final(self).wf(),
            final(self).searches() == old(self).searches(),
            final(self).metadata() == old(self).metadata(),
            final(self).spec_wallet_id() == old(self).spec_wallet_id(),
            match spec_search_record(reply) {
                Ok(rec) => r matches Ok(h) && final(self).records().contains_key(h)
                    && final(self).records()[h]@ == rec && final(self).records() == old(self).records().insert(h, final(self).records()[h])
                    && h == (old(self).issued_counts().0 + 1) as i32
                    && final(self).issued_counts() == (
                        old(self).issued_counts().0 + 1,
                        old(self).issued_counts().1,
                        old(self).issued_counts().2,
                    ) && (old(self).issued_counts().0 < i32::MAX ==> 1 <= h && !old(self).records().contains_key(h)),
                Err(e) => r == Err::<i32, ErrorCode>(e) && final(self).records() == old(self).records()
                    && final(self).issued_counts() == old(self).issued_counts(),
            },
    {
        match reply {
            RowReply::NoRow => Err(ErrorCode::WalletNotFoundError),
            RowReply::Failed => Err(ErrorCode::IOError),
            RowReply::Row(row) => match (row.type_, row.id, row.value, row.tags) {
                (Some(type_), Some(id), Some(value), Some(tags)) => {
                    let cid = match c_text(id.as_str()) {
                        Some(c) => c,
                        None => return Err(ErrorCode::InvalidState),
                    };
                    let ctags = opt_c_text(&tags)?;
                    let ctype = opt_c_text(&type_)?;
                    let record = Record::new(cid, value, ctags, ctype);
                    let ghost rv = record@;
                    let h = self.store_record(record);
                    assert(self.records()[h]@ == rv);
                    Ok(h)
                },
                _ => Err(ErrorCode::IOError),
            },
        }
    }

    /// Hands out the wallet's metadata, read from the first column of the
    /// row the database gave, as a C string under a new handle.
    /// `WalletNotFoundError` where there is no row, `IOError` where the query
    /// failed or the column could not be read, `InvalidState` where the text
    /// holds a NUL character.
    pub fn get_metadata(&mut self, reply: RowReply<Option<String>>) -> (r: Result<
        (Arc<Vec<u8>>, i32),
        ErrorCode,
    >)
        requires
            old(self).wf(),
            old(self).spec_has_room(),
        ensures
            final(self).wf(),
            final(self).records() == old(self).records(),
            final(self).searches() == old(self).searches(),
            final(self).spec_wallet_id() == old(self).spec_wallet_id(),
            match reply {
                RowReply::Row(Some(m)) => if spec_c_text_ok(m@) {
                    r matches Ok((a, h)) && a@ == spec_c_text(m@) && final(self).metadata() == old(self).metadata().insert(h, *a)
                } else {
                    r == Err::<(Arc<Vec<u8>>, i32), ErrorCode>(ErrorCode::InvalidState)
                        && final(self).metadata() == old(self).metadata()
                },
                RowReply::NoRow => r == Err::<(Arc<Vec<u8>>, i32), ErrorCode>(ErrorCode::WalletNotFoundError)
                    && final(self).metadata() == old(self).metadata(),
                _ => r == Err::<(Arc<Vec<u8>>, i32), ErrorCode>(ErrorCode::IOError)
                    && final(self).metadata() == old(self).metadata(),
            },
            match r {
                Ok((_, h)) => h == (old(self).issued_counts().2 + 1) as i32 && final(self).issued_counts() == (
                    old(self).issued_counts().0,
                    old(self).issued_counts().1,
                    old(self).issued_counts().2 + 1,
                ) && (old(self).issued_counts().2 < i32::MAX ==> 1 <= h && !old(self).metadata().contains_key(h)),
                Err(_) => final(self).issued_counts() == old(self).issued_counts(),
            },
    {
        match reply {
            RowReply::Row(Some(m)) => {
                let c = match c_text(m.as_str()) {
                    Some(c) => c,
                    None => return Err(ErrorCode::InvalidState),
                };
                let handle = self.metadata.insert(c);
                match self.metadata.get(handle) {
                    Some(metadata) => Ok((metadata, handle)),
                    None => Err(ErrorCode::WalletNotFoundError),
                }
            },
            RowReply::NoRow => Err(ErrorCode::WalletNotFoundError),
            _ => Err(ErrorCode::IOError),
        }
    }
}

/// While no store of the storage has issued more than `i32::MAX` handles,
/// no record, search or metadata is under a handle below 1, such as `-1`:
/// freeing one gives `InvalidState`.
pub proof fn law_no_live_handle_below_one<S>(storage: &AuroraStorage<S>, handle: i32)
    requires
        storage.wf(),
        storage.issued_counts().0 <= i32::MAX,
        storage.issued_counts().1 <= i32::MAX,
        storage.issued_counts().2 <= i32::MAX,
        handle < 1,
    ensures
        !storage.records().contains_key(handle),
        !storage.searches().contains_key(handle),
        !storage.metadata().contains_key(handle),
{
    law_no_object_under_non_positive_handle(&storage.records, handle);
    law_no_object_under_non_positive_handle(&storage.searches, handle);
    law_no_object_under_non_positive_handle(&storage.metadata, handle);
}

// ---------------------------------------------------------------------------
// Statements made from the caller's input
// ---------------------------------------------------------------------------

/// The query that reads a record: its value and tags where asked for (the
/// empty text in place of the others), found by wallet, type and id.
pub open spec fn spec_fetch_record_statement(options: FetchOptions) -> Seq<char> {
    "SELECT "@ + (if options.retrieve_value {
        "value"@
    } else {
        "''"@
    }) + ", "@ + (if options.retrieve_tags {
        "tags"@
    } else {
        "''"@
    }) + " FROM items i WHERE wallet_id = :wallet_id AND type = :type AND name = :name"@
}

/// The statement reading a record selects the `value` column exactly when
/// the options ask for the value, and the `tags` column exactly when they
/// ask for the tags, each whatever the other flag is; in place of a column
/// not asked for it selects the empty text `''`.
pub proof fn law_fetch_statement_reads_what_is_asked(options: FetchOptions)
    ensures
        ("SELECT value, "@).is_prefix_of(spec_fetch_record_statement(options))
            <==> options.retrieve_value,
        ("SELECT '', "@).is_prefix_of(spec_fetch_record_statement(options))
            <==> !options.retrieve_value,
        (", tags FROM items i WHERE wallet_id = :wallet_id AND type = :type AND name = :name"@).is_suffix_of(
            spec_fetch_record_statement(options),
        ) <==> options.retrieve_tags,
        (", '' FROM items i WHERE wallet_id = :wallet_id AND type = :type AND name = :name"@).is_suffix_of(
            spec_fetch_record_statement(options),
        ) <==> !options.retrieve_tags,
{
    let stmt = spec_fetch_record_statement(options);
    let tail = " FROM items i WHERE wallet_id = :wallet_id AND type = :type AND name = :name"@;
    let with_value = "SELECT value, "@;
    let without_value = "SELECT '', "@;
    let with_tags = ", tags FROM items i WHERE wallet_id = :wallet_id AND type = :type AND name = :name"@;
    let without_tags = ", '' FROM items i WHERE wallet_id = :wallet_id AND type = :type AND name = :name"@;
    reveal_strlit("SELECT ");
    reveal_strlit("value");
    reveal_strlit("''");
    reveal_strlit(", ");
    reveal_strlit("tags");
    reveal_strlit(" FROM items i WHERE wallet_id = :wallet_id AND type = :type AND name = :name");
    reveal_strlit("SELECT value, ");
    reveal_strlit("SELECT '', ");
    reveal_strlit(", tags FROM items i WHERE wallet_id = :wallet_id AND type = :type AND name = :name");
    reveal_strlit(", '' FROM items i WHERE wallet_id = :wallet_id AND type = :type AND name = :name");
    let head = "SELECT "@ + (if options.retrieve_value {
        "value"@
    } else {
        "''"@
    }) + ", "@;
    let col = if options.retrieve_tags {
        "tags"@
    } else {
        "''"@
    };
    assert(stmt =~= head + (col + tail));
    assert(stmt =~= (head + col) + tail);
    if options.retrieve_value {
        assert(stmt.subrange(0, with_value.len() as int) =~= with_value);
        assert(stmt[7] != without_value[7]);
    } else {
        assert(stmt.subrange(0, without_value.len() as int) =~= without_value);
        assert(stmt[7] != with_value[7]);
    }
    let n = stmt.len() as int;
    let t = tail.len() as int;
    if options.retrieve_tags {
        assert(stmt.subrange(n - with_tags.len(), n) =~= with_tags);
        assert(stmt[n - t - 1] != without_tags[without_tags.len() - t - 1]);
    } else {
        assert(stmt.subrange(n - without_tags.len(), n) =~= without_tags);
        assert(stmt[n - t - 1] != with_tags[with_tags.len() - t - 1]);
    }
}

/// The query that reads a record. It is made whatever the options ask for,
/// so that a fetch of a missing record fails.
pub fn fetch_record_statement(options: &FetchOptions) -> (r: String)
    ensures
        r@ == spec_fetch_record_statement(*options),
{
    let mut q = String::from_str("SELECT ");
    q.append(if options.retrieve_value { "value" } else { "''" });
    q.append(", ");
    q.append(if options.retrieve_tags { "tags" } else { "''" });
    q.append(" FROM items i WHERE wallet_id = :wallet_id AND type = :type AND name = :name");
    q
}

/// A tag map given as JSON: it must be an object, and its members are the
/// tags.
pub open spec fn spec_tags(doc: JsonView) -> Option<Seq<(Seq<char>, JsonView)>> {
    match doc {
        JsonView::Object(fields) => Some(fields),
        _ => None,
    }
}

/// Reads a tag map from JSON text; `InvalidStructure` where the text is
/// not a JSON object.
pub fn parse_tags(tags_json: &str) -> (r: Result<Vec<(String, JsonValue)>, ErrorCode>)
    ensures
        match from_text(tags_json@, |d: JsonView| spec_tags(d)) {
            Some(t) => r matches Ok(v) && fields_view(v@) == t,
            None => r == Err::<Vec<(String, JsonValue)>, ErrorCode>(ErrorCode::InvalidStructure),
        },
{
    match parse_json(tags_json) {
        Some(doc) => {
            proof {
                lemma_json_view(doc);
            }
            match doc {
                JsonValue::Object(fields) => Ok(fields),
                _ => Err(ErrorCode::InvalidStructure),
            }
        },
        None => Err(ErrorCode::InvalidStructure),
    }
}

/// A list of tag names given as JSON: an array of strings.
pub open spec fn spec_tag_names(doc: JsonView) -> Option<Seq<Seq<char>>> {
    match doc {
        JsonView::Array(items) => spec_parse_strings(items),
        _ => None,
    }
}

/// Reads a list of tag names from JSON text; `InvalidStructure` where the
/// text is not a JSON array of strings.
pub fn parse_tag_names(tag_names_json: &str) -> (r: Result<Vec<String>, ErrorCode>)
    ensures
        match from_text(tag_names_json@, |d: JsonView| spec_tag_names(d)) {
            Some(t) => r matches Ok(v) && strings_view(v@) == t,
            None => r == Err::<Vec<String>, ErrorCode>(ErrorCode::InvalidStructure),
        },
{
    match parse_json(tag_names_json) {
        Some(doc) => {
            proof {
                lemma_json_view(doc);
            }
            match doc {
                JsonValue::Array(items) => parse_strings(&items),
                _ => Err(ErrorCode::InvalidStructure),
            }
        },
        None => Err(ErrorCode::InvalidStructure),
    }
}

/// `items` joined by `,`.
pub open spec fn spec_join_commas(items: Seq<Seq<char>>) -> Seq<char>
    decreases items.len(),
{
    if items.len() == 0 {
        Seq::empty()
    } else if items.len() == 1 {
        items[0]
    } else {
        spec_join_commas(items.drop_last()) + ","@ + items.last()
    }
}

/// One tag to set: its path and its value as JSON text, `'$."name"', value`.
pub open spec fn spec_tag_assignment(name: Seq<char>, value: JsonView) -> Seq<char> {
    "'$.\""@ + name + "\"', "@ + json_text(value)
}

/// The path of one tag to remove, `'$."name"'`.
pub open spec fn spec_tag_removal(name: Seq<char>) -> Seq<char> {
    "'$.\""@ + name + "\"'"@
}

/// The statement that adds tags to a record, or replaces their values; no
/// statement for no tags (the caller then only checks that the record
/// exists).
pub open spec fn spec_add_record_tags_statement(tags: Seq<(Seq<char>, JsonView)>) -> Option<
    Seq<char>,
> {
    if tags.len() == 0 {
        None
    } else {
        Some(
            "UPDATE items SET tags = JSON_SET(tags, "@ + spec_join_commas(
                Seq::new(tags.len(), |i: int| spec_tag_assignment(tags[i].0, tags[i].1)),
            ) + ") WHERE type = :type AND name = :name AND wallet_id = :wallet_id"@,
        )
    }
}

/// The statement that removes tags from a record; no statement for no
/// tags (the caller then only checks that the record exists).
pub open spec fn spec_delete_record_tags_statement(tag_names: Seq<Seq<char>>) -> Option<Seq<char>> {
    if tag_names.len() == 0 {
        None
    } else {
        Some(
            "UPDATE items SET tags = JSON_REMOVE(tags, "@ + spec_join_commas(
                Seq::new(tag_names.len(), |i: int| spec_tag_removal(tag_names[i])),
            ) + ") WHERE type = :type AND name = :name AND wallet_id = :wallet_id"@,
        )
    }
}

/// Whether `part` stands somewhere in `s`.
pub open spec fn spec_contains_text(s: Seq<char>, part: Seq<char>) -> bool {
    exists|k: int| 0 <= k && k + part.len() <= s.len() && #[trigger] s.subrange(k, k + part.len()) == part
}

proof fn lemma_contains_in_context(a: Seq<char>, s: Seq<char>, b: Seq<char>, part: Seq<char>)
    requires
        spec_contains_text(s, part),
    ensures
        spec_contains_text(a + s + b, part),
{
    let k = choose|k: int|
        0 <= k && k + part.len() <= s.len() && #[trigger] s.subrange(k, k + part.len()) == part;
    let whole = a + s + b;
    assert(whole.subrange(a.len() + k, a.len() + k + part.len()) =~= s.subrange(k, k + part.len()));
}

/// Every item joined by `spec_join_commas` stands in the joined text.
proof fn lemma_join_commas_contains(items: Seq<Seq<char>>, i: int)
    requires
        0 <= i < items.len(),
    ensures
        spec_contains_text(spec_join_commas(items), items[i]),
    decreases items.len(),
{
    reveal_strlit(",");
    let joined = spec_join_commas(items);
    if items.len() == 1 {
        let k: int = 0;
        assert(joined.subrange(k, k + items[i].len()) =~= items[i]);
    } else {
        let front = spec_join_commas(items.drop_last());
        assert(joined == front + ","@ + items.last());
        if i < items.len() - 1 {
            lemma_join_commas_contains(items.drop_last(), i);
            assert(items.drop_last()[i] == items[i]);
            lemma_contains_in_context(Seq::empty(), front, ","@ + items.last(), items[i]);
            assert(Seq::<char>::empty() + front + (","@ + items.last()) =~= joined);
        } else {
            let k: int = front.len() as int + 1;
            assert(joined.subrange(k, k + items[i].len()) =~= items[i]);
        }
    }
}

/// Adding tags: for a non-empty tag map there is a statement, an update of
/// the `tags` column by `JSON_SET` of the record found by type, name and
/// wallet, that sets every tag given, each as its path `'$."name"'` and
/// its value written as JSON; for no tags there is none.
pub proof fn law_add_tags_sets_every_tag(tags: Seq<(Seq<char>, JsonView)>)
    ensures
        tags.len() == 0 <==> spec_add_record_tags_statement(tags) is None,
        spec_add_record_tags_statement(tags) matches Some(q) ==> {
            &&& ("UPDATE items SET tags = JSON_SET(tags, "@).is_prefix_of(q)
            &&& (") WHERE type = :type AND name = :name AND wallet_id = :wallet_id"@).is_suffix_of(q)
            &&& forall|i: int|
                0 <= i < tags.len() ==> spec_contains_text(
                    q,
                    "'$.\""@ + (#[trigger] tags[i]).0 + "\"', "@ + json_text(tags[i].1),
                )
        },
{
    if tags.len() > 0 {
        let parts = Seq::new(tags.len(), |i: int| spec_tag_assignment(tags[i].0, tags[i].1));
        let head = "UPDATE items SET tags = JSON_SET(tags, "@;
        let tail = ") WHERE type = :type AND name = :name AND wallet_id = :wallet_id"@;
        let joined = spec_join_commas(parts);
        let q = head + joined + tail;
        assert(spec_add_record_tags_statement(tags) == Some(q));
        assert(q.subrange(0, head.len() as int) =~= head);
        assert(q.subrange(q.len() - tail.len(), q.len() as int) =~= tail);
        assert forall|i: int| 0 <= i < tags.len() implies spec_contains_text(
            q,
            "'$.\""@ + (#[trigger] tags[i]).0 + "\"', "@ + json_text(tags[i].1),
        ) by {
            lemma_join_commas_contains(parts, i);
            lemma_contains_in_context(head, joined, tail, parts[i]);
        }
    }
}

/// Removing tags: for a non-empty list of names there is a statement, an
/// update of the `tags` column by `JSON_REMOVE` of the record found by
/// type, name and wallet, that removes every tag named, each by its path
/// `'$."name"'`; for no names there is none.
pub proof fn law_delete_tags_removes_every_tag(tag_names: Seq<Seq<char>>)
    ensures
        tag_names.len() == 0 <==> spec_delete_record_tags_statement(tag_names) is None,
        spec_delete_record_tags_statement(tag_names) matches Some(q) ==> {
            &&& ("UPDATE items SET tags = JSON_REMOVE(tags, "@).is_prefix_of(q)
            &&& (") WHERE type = :type AND name = :name AND wallet_id = :wallet_id"@).is_suffix_of(q)
            &&& forall|i: int|
                0 <= i < tag_names.len() ==> spec_contains_text(
                    q,
                    "'$.\""@ + #[trigger] tag_names[i] + "\"'"@,
                )
        },
{
    if tag_names.len() > 0 {
        let parts = Seq::new(tag_names.len(), |i: int| spec_tag_removal(tag_names[i]));
        let head = "UPDATE items SET tags = JSON_REMOVE(tags, "@;
        let tail = ") WHERE type = :type AND name = :name AND wallet_id = :wallet_id"@;
        let joined = spec_join_commas(parts);
        let q = head + joined + tail;
        assert(spec_delete_record_tags_statement(tag_names) == Some(q));
        assert(q.subrange(0, head.len() as int) =~= head);
        assert(q.subrange(q.len() - tail.len(), q.len() as int) =~= tail);
        assert forall|i: int| 0 <= i < tag_names.len() implies spec_contains_text(
            q,
            "'$.\""@ + #[trigger] tag_names[i] + "\"'"@,
        ) by {
            lemma_join_commas_contains(parts, i);
            lemma_contains_in_context(head, joined, tail, parts[i]);
        }
    }
}

/// Makes the statement that adds tags (see `spec_add_record_tags_statement`).
pub fn add_record_tags_statement(tags: &Vec<(String, JsonValue)>) -> (r: Option<String>)
    ensures
        spec_add_record_tags_statement(fields_view(tags@)) == (match r {
            Some(q) => Some(q@),
            None => None::<Seq<char>>,
        }),
{
    if tags.len() == 0 {
        return None;
    }
    let ghost fv = fields_view(tags@);
    let ghost parts = Seq::new(fv.len(), |i: int| spec_tag_assignment(fv[i].0, fv[i].1));
    let mut paths = String::new();
    let mut i: usize = 0;
    while i < tags.len()
        invariant
            0 <= i <= tags.len(),
            fv == fields_view(tags@),
            parts == Seq::new(fv.len(), |i: int| spec_tag_assignment(fv[i].0, fv[i].1)),
            paths@ == spec_join_commas(parts.take(i as int)),
        decreases tags.len() - i,
    {
        if i > 0 {
            paths.append(",");
        }
        paths.append("'$.\"");
        paths.append(tags[i].0.as_str());
        paths.append("\"', ");
        paths.append(json_to_string(&tags[i].1).as_str());
        assert(parts.take(i + 1).drop_last() =~= parts.take(i as int));
        assert(parts.take(i + 1).last() == parts[i as int]);
        i = i + 1;
    }
    assert(parts.take(i as int) =~= parts);
    let mut q = String::from_str("UPDATE items SET tags = JSON_SET(tags, ");
    q.append(paths.as_str());
    q.append(") WHERE type = :type AND name = :name AND wallet_id = :wallet_id");
    Some(q)
}

/// Makes the statement that removes tags (see
/// `spec_delete_record_tags_statement`).
pub fn delete_record_tags_statement(tag_names: &Vec<String>) -> (r: Option<String>)
    ensures
        spec_delete_record_tags_statement(strings_view(tag_names@)) == (match r {
            Some(q) => Some(q@),
            None => None::<Seq<char>>,
        }),
{
    if tag_names.len() == 0 {
        return None;
    }
    let ghost nv = strings_view(tag_names@);
    let ghost parts = Seq::new(nv.len(), |i: int| spec_tag_removal(nv[i]));
    let mut paths = String::new();
    let mut i: usize = 0;
    while i < tag_names.len()
        invariant
            0 <= i <= tag_names.len(),
            nv == strings_view(tag_names@),
            parts == Seq::new(nv.len(), |i: int| spec_tag_removal(nv[i])),
            paths@ == spec_join_commas(parts.take(i as int)),
        decreases tag_names.len() - i,
    {
        if i > 0 {
            paths.append(",");
        }
        paths.append("'$.\"");
        paths.append(tag_names[i].as_str());
        paths.append("\"'");
        assert(parts.take(i + 1).drop_last() =~= parts.take(i as int));
        assert(parts.take(i + 1).last() == parts[i as int]);
        i = i + 1;
    }
    assert(parts.take(i as int) =~= parts);
    let mut q = String::from_str("UPDATE items SET tags = JSON_REMOVE(tags, ");
    q.append(paths.as_str());
    q.append(") WHERE type = :type AND name = :name AND wallet_id = :wallet_id");
    Some(q)
}

/// The statements of a search: the query that reads the records, if the
/// options ask for records, and the one that counts them, if they ask for
/// the total count; each with its arguments.
#[derive(Debug)]
pub struct SearchPlan {
    pub records: Option<(String, Vec<SqlArg>)>,
    pub count: Option<(String, Vec<SqlArg>)>,
}

/// What a search asks of the database: `InvalidStructure` where the
/// options or the query do not parse or the query cannot be translated;
/// else the statements the options ask for, over the query's condition,
/// each with the condition's arguments followed by the type and the wallet.
pub open spec fn plan_as(
    r: Result<SearchPlan, ErrorCode>,
    wallet_id: u64,
    type_: Seq<char>,
    query_json: Seq<char>,
    options_json: Seq<char>,
) -> bool {
    match (
        from_text(options_json, |d: JsonView| spec_search_options(d)),
        query_translator::spec_parse_from_json(query_json),
    ) {
        (Some(options), Some(query)) => match spec_op_sql(query) {
            Some((cond, args)) => r matches Ok(plan) && {
                let all_args = args + seq![SqlArgView::Text(type_), SqlArgView::UInt(wallet_id)];
                &&& (plan.records matches Some((q, a)) ==> options.retrieve_records && q@
                    == spec_fetch_query(options, cond) && args_view(a@) == all_args)
                &&& (plan.records is None ==> !options.retrieve_records)
                &&& (plan.count matches Some((q, a)) ==> options.retrieve_total_count && q@
                    == spec_count_query(cond) && args_view(a@) == all_args)
                &&& (plan.count is None ==> !options.retrieve_total_count)
            },
            None => r == Err::<SearchPlan, ErrorCode>(ErrorCode::InvalidStructure),
        },
        _ => r == Err::<SearchPlan, ErrorCode>(ErrorCode::InvalidStructure),
    }
}

/// Plans a search of the records of type `type_` in the wallet `wallet_id`
/// (see `plan_as`).
pub fn plan_search(wallet_id: u64, type_: &str, query_json: &str, options_json: &str) -> (r: Result<
    SearchPlan,
    ErrorCode,
>)
    ensures
        plan_as(r, wallet_id, type_@, query_json@, options_json@),
{
    let options = SearchOptions::from_json(options_json)?;
    let wql: Operator = query_translator::parse_from_json(query_json)?;
    let fetch = query_translator::wql_to_sql(wallet_id, type_, &wql, &options)?;
    let count = query_translator::wql_to_sql_count(wallet_id, type_, &wql)?;
    let records = if options.retrieve_records {
        Some(fetch)
    } else {
        None
    };
    let count = if options.retrieve_total_count {
        Some(count)
    } else {
        None
    };
    Ok(SearchPlan { records, count })
}

} // verus!
