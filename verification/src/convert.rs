//! Bulk conversion between the store and line-oriented records: factoid
//! export and per-line-tolerant factoid import, and the all-or-nothing
//! import of system error-code tables.

use vstd::prelude::*;
use vstd::string::StrSliceExecFns;

use crate::model::ErrorRecordView;
use crate::model::Factoid;
use crate::model::FactoidView;
use crate::model::Intent;
use crate::model::WinErrorVariant;
use crate::store::Store;
use crate::store::factoids_as_map;
use crate::text::spec_parse_hex_u32;
use crate::text::spec_trim;
use crate::text::parse_hex_u32;
use crate::text::str_eq;
use crate::text::trim_slice;

verus! {

/// One factoid record as exported: three text fields, the intent as a
/// tagged string.
#[derive(Debug, PartialEq, Eq)]
pub struct FactoidRecord {
    pub label: String,
    pub intent: String,
    pub description: String,
}

/// Mathematical image of a `FactoidRecord`.
pub struct FactoidRecordView {
    pub label: Seq<char>,
    pub intent: Seq<char>,
    pub description: Seq<char>,
}

impl View for FactoidRecord {
    type V = FactoidRecordView;

    open spec fn view(&self) -> FactoidRecordView {
        FactoidRecordView {
            label: self.label@,
            intent: self.intent@,
            description: self.description@,
        }
    }
}

/// A factoid record as read from one import line, each field present only
/// when the line supplied it. A line that did not even yield a record is
/// handed to the import as no record at all.
#[derive(Debug, PartialEq, Eq)]
pub struct RawFactoid {
    pub label: Option<String>,
    pub intent: Option<String>,
    pub description: Option<String>,
}

/// Mathematical image of a `RawFactoid`.
pub struct RawFactoidView {
    pub label: Option<Seq<char>>,
    pub intent: Option<Seq<char>>,
    pub description: Option<Seq<char>>,
}

impl View for RawFactoid {
    type V = RawFactoidView;

    open spec fn view(&self) -> RawFactoidView {
        RawFactoidView {
            label: match self.label {
                Some(l) => Some(l@),
                None => None,
            },
            intent: match self.intent {
                Some(t) => Some(t@),
                None => None,
            },
            description: match self.description {
                Some(d) => Some(d@),
                None => None,
            },
        }
    }
}

/// The tagged string that names an intent in a record.
pub open spec fn intent_tag(intent: Intent) -> Seq<char> {
    match intent {
        Intent::Say => "Say"@,
        Intent::Act => "Act"@,
        Intent::Notice => "Notice"@,
        Intent::Alias => "Alias"@,
        Intent::Forget => "Forget"@,
    }
}

/// Which intent a tagged string names, if any.
pub open spec fn spec_parse_intent(tag: Seq<char>) -> Option<Intent> {
    if tag == "Say"@ {
        Some(Intent::Say)
    } else if tag == "Act"@ {
        Some(Intent::Act)
    } else if tag == "Notice"@ {
        Some(Intent::Notice)
    } else if tag == "Alias"@ {
        Some(Intent::Alias)
    } else if tag == "Forget"@ {
        Some(Intent::Forget)
    } else {
        None
    }
}

/// Executable counterpart of [`intent_tag`].
pub fn intent_tag_string(intent: Intent) -> (r: String)
    ensures
        r@ == intent_tag(intent),
{
    match intent {
        Intent::Say => "Say".to_owned(),
        Intent::Act => "Act".to_owned(),
        Intent::Notice => "Notice".to_owned(),
        Intent::Alias => "Alias".to_owned(),
        Intent::Forget => "Forget".to_owned(),
    }
}

/// Executable counterpart of [`spec_parse_intent`].
pub fn parse_intent(tag: &str) -> (r: Option<Intent>)
    ensures
        r == spec_parse_intent(tag@),
{
    if str_eq(tag, "Say") {
        Some(Intent::Say)
    } else if str_eq(tag, "Act") {
        Some(Intent::Act)
    } else if str_eq(tag, "Notice") {
        Some(Intent::Notice)
    } else if str_eq(tag, "Alias") {
        Some(Intent::Alias)
    } else if str_eq(tag, "Forget") {
        Some(Intent::Forget)
    } else {
        None
    }
}

/// Law: the tag written for an intent is read back as that intent.
pub proof fn lemma_intent_tag_round_trip(intent: Intent)
    ensures
        spec_parse_intent(intent_tag(intent)) == Some(intent),
{
    reveal_strlit("Say");
    reveal_strlit("Act");
    reveal_strlit("Notice");
    reveal_strlit("Alias");
    reveal_strlit("Forget");
    assert("Say"@.len() == 3 && "Act"@.len() == 3 && "Notice"@.len() == 6 && "Alias"@.len() == 5
        && "Forget"@.len() == 6);
    assert("Say"@[0] == 'S' && "Act"@[0] == 'A' && "Notice"@[0] == 'N' && "Forget"@[0] == 'F');
}

/// The record written for a factoid on export.
pub open spec fn spec_record_of(f: FactoidView) -> FactoidRecordView {
    FactoidRecordView { label: f.label, intent: intent_tag(f.intent), description: f.description }
}

/// Executable counterpart of [`spec_record_of`].
pub fn record_of_factoid(f: &Factoid) -> (r: FactoidRecord)
    ensures
        r@ == spec_record_of(f@),
{
    FactoidRecord {
        label: f.label.clone(),
        intent: intent_tag_string(f.intent),
        description: f.description.clone(),
    }
}

/// The factoid an import record denotes: all three fields must be present
/// and the intent tag must name an intent, else the record is unusable.
pub open spec fn spec_validate(raw: RawFactoidView) -> Option<FactoidView> {
    match (raw.label, raw.intent, raw.description) {
        (Some(label), Some(tag), Some(description)) => match spec_parse_intent(tag) {
            Some(intent) => Some(FactoidView { label, intent, description }),
            None => None,
        },
        _ => None,
    }
}

/// Executable counterpart of [`spec_validate`].
pub fn validate_factoid(raw: &RawFactoid) -> (r: Option<Factoid>)
    ensures
        match r {
            Some(f) => spec_validate(raw@) == Some(f@),
            None => spec_validate(raw@) is None,
        },
{
    let label = match &raw.label {
        Some(l) => l,
        None => {
            return None;
        },
    };
    let tag = match &raw.intent {
        Some(t) => t,
        None => {
            return None;
        },
    };
    let description = match &raw.description {
        Some(d) => d,
        None => {
            return None;
        },
    };
    match parse_intent(tag.as_str()) {
        Some(intent) => Some(
            Factoid { label: label.clone(), intent, description: description.clone() },
        ),
        None => None,
    }
}

/// The views of a sequence of import lines.
pub open spec fn line_views(lines: Seq<Option<RawFactoid>>) -> Seq<Option<RawFactoidView>> {
    lines.map_values(
        |line: Option<RawFactoid>|
            match line {
                Some(raw) => Some(raw@),
                None => None,
            },
    )
}

/// What a factoid import leaves in the store: each usable record replaces
/// the factoid under its label, in line order; unusable lines change
/// nothing.
pub open spec fn spec_import(
    m: Map<Seq<char>, FactoidView>,
    lines: Seq<Option<RawFactoidView>>,
) -> Map<Seq<char>, FactoidView>
    decreases lines.len(),
{
    if lines.len() == 0 {
        m
    } else {
        let rest = spec_import(m, lines.drop_last());
        match lines.last() {
            Some(raw) => match spec_validate(raw) {
                Some(f) => rest.insert(f.label, f),
                None => rest,
            },
            None => rest,
        }
    }
}

/// How many lines of an import are skipped as unusable.
pub open spec fn spec_skipped(lines: Seq<Option<RawFactoidView>>) -> nat
    decreases lines.len(),
{
    if lines.len() == 0 {
        0
    } else {
        spec_skipped(lines.drop_last()) + match lines.last() {
            Some(raw) => if spec_validate(raw) is Some {
                0nat
            } else {
                1nat
            },
            None => 1nat,
        }
    }
}

/// Imports factoid records with per-line failure isolation: a line with no
/// usable record is skipped and counted, and every later line is still
/// processed. Returns how many lines were skipped.
pub fn import_factoids(store: &mut Store, lines: &Vec<Option<RawFactoid>>) -> (skipped: usize)
    requires
        old(store).wf(),
    ensures
        final(store).wf(),
        final(store).factoid_map() == spec_import(old(store).factoid_map(), line_views(lines@)),
        final(store).errors_seq() == old(store).errors_seq(),
        skipped == spec_skipped(line_views(lines@)),
{
    let ghost lv = line_views(lines@);
    let mut skipped: usize = 0;
    let mut i: usize = 0;
    while i < lines.len()
        invariant
            store.wf(),
            i <= lines@.len(),
            lv == line_views(lines@),
            lv.len() == lines@.len(),
            store.factoid_map() == spec_import(old(store).factoid_map(), lv.take(i as int)),
            store.errors_seq() == old(store).errors_seq(),
            skipped <= i,
            skipped == spec_skipped(lv.take(i as int)),
        decreases lines@.len() - i,
    {
        match &lines[i] {
            Some(raw) => {
                match validate_factoid(raw) {
                    Some(f) => {
                        store.create_or_replace(f);
                    },
                    None => {
                        skipped += 1;
                    },
                }
            },
            None => {
                skipped += 1;
            },
        }
        proof {
            assert(lv.take(i + 1).drop_last() =~= lv.take(i as int));
            assert(lv.take(i + 1).last() == lv[i as int]);
        }
        i += 1;
    }
    proof {
        assert(lv.take(lines@.len() as int) =~= lv);
    }
    skipped
}

/// Law: an import line with no usable record has no effect on the imported
/// map, and every line after it is still applied.
pub proof fn lemma_unusable_line_has_no_effect(
    m: Map<Seq<char>, FactoidView>,
    before: Seq<Option<RawFactoidView>>,
    line: Option<RawFactoidView>,
    after: Seq<Option<RawFactoidView>>,
)
    requires
        match line {
            Some(raw) => spec_validate(raw) is None,
            None => true,
        },
    ensures
        spec_import(m, before + seq![line] + after) == spec_import(m, before + after),
    decreases after.len(),
{
    if after.len() == 0 {
        assert((before + seq![line] + after).drop_last() =~= before);
        assert((before + seq![line] + after).last() == line);
        assert(before + after =~= before);
    } else {
        lemma_unusable_line_has_no_effect(m, before, line, after.drop_last());
        assert((before + seq![line] + after).drop_last() =~= before + seq![line]
            + after.drop_last());
        assert((before + seq![line] + after).last() == after.last());
        assert((before + after).drop_last() =~= before + after.drop_last());
        assert((before + after).last() == after.last());
    }
}

/// Exports every stored factoid as a record, in store iteration order. The
/// order carries no meaning and is not to be relied on.
pub fn export_factoids(store: &Store) -> (r: Vec<FactoidRecord>)
    ensures
        r@.map_values(|rec: FactoidRecord| rec@) == store.factoids_seq().map_values(
            |f: FactoidView| spec_record_of(f),
        ),
{
    let factoids = store.all_factoids();
    let ghost fs = store.factoids_seq();
    let mut out: Vec<FactoidRecord> = Vec::new();
    let mut i: usize = 0;
    while i < factoids.len()
        invariant
            fs == store.factoids_seq(),
            factoids@.map_values(|f: Factoid| f@) == fs,
            fs.len() == factoids@.len(),
            i <= factoids@.len(),
            out@.len() == i,
            forall|j: int| 0 <= j < i ==> out@[j]@ == spec_record_of(fs[j]),
        decreases factoids@.len() - i,
    {
        out.push(record_of_factoid(&factoids[i]));
        i += 1;
    }
    proof {
        assert(out@.map_values(|rec: FactoidRecord| rec@) =~= fs.map_values(
            |f: FactoidView| spec_record_of(f),
        ));
    }
    out
}

/// The import line that carries an exported record: all fields present.
pub open spec fn raw_of_record(rec: FactoidRecordView) -> RawFactoidView {
    RawFactoidView {
        label: Some(rec.label),
        intent: Some(rec.intent),
        description: Some(rec.description),
    }
}

/// The import lines that carry the export of a sequence of factoids.
pub open spec fn export_lines(fs: Seq<FactoidView>) -> Seq<Option<RawFactoidView>> {
    fs.map_values(|f: FactoidView| Some(raw_of_record(spec_record_of(f))))
}

proof fn lemma_import_of_export_lines(fs: Seq<FactoidView>)
    ensures
        spec_import(Map::<Seq<char>, FactoidView>::empty(), export_lines(fs)) == factoids_as_map(
            fs,
        ),
    decreases fs.len(),
{
    if fs.len() == 0 {
        assert(export_lines(fs) =~= Seq::<Option<RawFactoidView>>::empty());
    } else {
        lemma_import_of_export_lines(fs.drop_last());
        lemma_intent_tag_round_trip(fs.last().intent);
        assert(export_lines(fs).drop_last() =~= export_lines(fs.drop_last()));
        assert(export_lines(fs).last() == Some(raw_of_record(spec_record_of(fs.last()))));
        assert(spec_validate(raw_of_record(spec_record_of(fs.last()))) == Some(fs.last()));
    }
}

/// Law: importing the lines that carry a store's export into an empty store
/// rebuilds exactly the original label-to-factoid map, whatever the export
/// order.
pub proof fn lemma_export_import_round_trip(s: Store)
    ensures
        spec_import(Map::<Seq<char>, FactoidView>::empty(), export_lines(s.factoids_seq()))
            == s.factoid_map(),
{
    lemma_import_of_export_lines(s.factoids_seq());
}

/// One textual record of a system error-code table, as read from the file.
#[derive(Debug, PartialEq, Eq)]
pub struct WinError {
    pub code: String,
    pub name: String,
    pub desc: String,
}

/// Mathematical image of a `WinError`.
pub struct WinErrorView {
    pub code: Seq<char>,
    pub name: Seq<char>,
    pub desc: Seq<char>,
}

impl View for WinError {
    type V = WinErrorView;

    open spec fn view(&self) -> WinErrorView {
        WinErrorView { code: self.code@, name: self.name@, desc: self.desc@ }
    }
}

/// The hard error of an error-table import: the position of the first
/// record whose code field could not be parsed.
#[derive(Clone, Copy, Debug, PartialEq, Eq, Structural)]
pub struct MalformedCode {
    pub index: usize,
}

/// What parsing a textual code field yields: surrounding whitespace is
/// trimmed, the two-character radix prefix is stripped, and the remainder
/// must parse as a base-16 unsigned 32-bit integer. A code too short to
/// strip the prefix from is malformed.
pub open spec fn spec_parse_code(code: Seq<char>) -> Option<u32> {
    let t = spec_trim(code);
    if t.len() < 2 {
        None
    } else {
        spec_parse_hex_u32(t.skip(2))
    }
}

/// Executable counterpart of [`spec_parse_code`].
pub fn parse_error_code(code: &str) -> (r: Option<u32>)
    ensures
        r == spec_parse_code(code@),
{
    let t = trim_slice(code);
    let len = t.unicode_len();
    if len < 2 {
        return None;
    }
    let rest = t.substring_char(2, len);
    proof {
        assert(rest@ =~= spec_trim(code@).skip(2));
    }
    parse_hex_u32(rest)
}

/// The stored record an error-table record converts to, once its code is
/// known to parse.
pub open spec fn spec_error_record(rec: WinErrorView, variant: WinErrorVariant) -> ErrorRecordView {
    ErrorRecordView {
        code: spec_parse_code(rec.code)->0,
        variant,
        name: spec_trim(rec.name),
        description: spec_trim(rec.desc),
    }
}

/// The stored records of a whole error table.
pub open spec fn spec_error_records(
    records: Seq<WinErrorView>,
    variant: WinErrorVariant,
) -> Seq<ErrorRecordView> {
    records.map_values(|rec: WinErrorView| spec_error_record(rec, variant))
}

/// Imports one error-code table, stamping every record with `variant`.
/// All-or-nothing: the records are validated first, and a single malformed
/// code field aborts the import with the store unchanged — no partial
/// records are committed. On success every record is appended, trimmed, in
/// table order.
pub fn import_error_table(
    store: &mut Store,
    records: &Vec<WinError>,
    variant: WinErrorVariant,
) -> (r: Result<(), MalformedCode>)
    requires
        old(store).wf(),
    ensures
        final(store).wf(),
        final(store).factoid_map() == old(store).factoid_map(),
        final(store).factoids_seq() == old(store).factoids_seq(),
        match r {
            Ok(()) => (forall|k: int|
                0 <= k < records@.len() ==> spec_parse_code(records@[k]@.code) is Some)
                && final(store).errors_seq() == old(store).errors_seq() + spec_error_records(
                records@.map_values(|w: WinError| w@),
                variant,
            ),
            Err(e) => *final(store) == *old(store) && e.index < records@.len() && spec_parse_code(
                records@[e.index as int]@.code,
            ) is None && (forall|k: int|
                0 <= k < e.index ==> spec_parse_code(records@[k]@.code) is Some),
        },
{
    let ghost rv = records@.map_values(|w: WinError| w@);
    let mut codes: Vec<u32> = Vec::new();
    let mut i: usize = 0;
    while i < records.len()
        invariant
            *store == *old(store),
            store.wf(),
            i <= records@.len(),
            rv == records@.map_values(|w: WinError| w@),
            rv.len() == records@.len(),
            codes@.len() == i,
            forall|k: int| 0 <= k < i ==> #[trigger] spec_parse_code(rv[k].code) == Some(codes@[k]),
        decreases records@.len() - i,
    {
        match parse_error_code(records[i].code.as_str()) {
            Some(code) => {
                codes.push(code);
            },
            None => {
                proof {
                    assert forall|k: int| 0 <= k < i implies spec_parse_code(
                        records@[k]@.code,
                    ) is Some by {
                        assert(rv[k] == records@[k]@);
                    }
                }
                return Err(MalformedCode { index: i });
            },
        }
        i += 1;
    }
    let mut j: usize = 0;
    while j < records.len()
        invariant
            store.wf() == old(store).wf(),
            store.factoid_map() == old(store).factoid_map(),
            store.factoids_seq() == old(store).factoids_seq(),
            j <= records@.len(),
            rv == records@.map_values(|w: WinError| w@),
            rv.len() == records@.len(),
            codes@.len() == records@.len(),
            forall|k: int| 0 <= k < rv.len() ==> #[trigger] spec_parse_code(rv[k].code) == Some(codes@[k]),
            store.errors_seq() == old(store).errors_seq() + spec_error_records(
                rv.take(j as int),
                variant,
            ),
        decreases records@.len() - j,
    {
        let rec = &records[j];
        let name = trim_slice(rec.name.as_str()).to_owned();
        let desc = trim_slice(rec.desc.as_str()).to_owned();
        store.create_error(codes[j], variant, name, desc);
        proof {
            assert(spec_error_records(rv.take(j + 1), variant) =~= spec_error_records(
                rv.take(j as int),
                variant,
            ).push(spec_error_record(rv[j as int], variant)));
            assert(old(store).errors_seq() + spec_error_records(rv.take(j + 1), variant) =~= (old(
                store,
            ).errors_seq() + spec_error_records(rv.take(j as int), variant)).push(
                spec_error_record(rv[j as int], variant),
            ));
        }
        j += 1;
    }
    proof {
        assert(rv.take(records@.len() as int) =~= rv);
        assert(store.errors_seq() =~= old(store).errors_seq() + spec_error_records(rv, variant));
        assert forall|k: int| 0 <= k < records@.len() implies spec_parse_code(
            records@[k]@.code,
        ) is Some by {
            assert(rv[k] == records@[k]@);
        }
    }
    Ok(())
}

} // verus!
