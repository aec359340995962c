//! The parameter store boundary: decoding the records the remote store
//! returns, splitting a batch load into chunks the store accepts, and the form
//! in which a parameter is written back.

use crate::parameter::{Parameter, ParameterDataError, ParameterSet, ParameterValue};
use crate::secure_string::SecureString;
use vstd::prelude::*;
use vstd::string::{StrSliceExecFns, StringExecFns};

verus! {

/// The most names the store resolves in one batch request.
pub const MAX_BATCH: usize = 10;

/// A parameter record as the remote store returns it; any field may be
/// missing. `type_tag` is the store's name of the value type.
#[derive(Debug, Clone, PartialEq, Eq)]
pub struct RemoteParameter {
    pub name: Option<String>,
    pub type_tag: Option<String>,
    pub value: Option<String>,
    pub version: i64,
    pub last_modified_millis: Option<i64>,
    pub identifier: Option<String>,
}

/// How the store types a value written to it.
#[derive(Debug, Clone, Copy, PartialEq, Eq, Structural)]
pub enum WireType {
    String,
    StringList,
    SecureString,
}

/// The segments of `s` between commas, empty segments included: a text
/// without commas is one segment, so the empty text gives one empty segment.
pub open spec fn split_commas(s: Seq<char>) -> Seq<Seq<char>>
    decreases s.len(),
{
    if s.len() == 0 {
        seq![Seq::<char>::empty()]
    } else {
        let parts = split_commas(s.drop_last());
        if s.last() == ',' {
            parts.push(Seq::<char>::empty())
        } else {
            parts.update(parts.len() - 1, parts.last().push(s.last()))
        }
    }
}

/// The segments joined with commas between them.
pub open spec fn join_commas(parts: Seq<Seq<char>>) -> Seq<char>
    decreases parts.len(),
{
    if parts.len() == 0 {
        Seq::<char>::empty()
    } else if parts.len() == 1 {
        parts[0]
    } else {
        join_commas(parts.drop_last()) + seq![','] + parts.last()
    }
}

/// The texts of a list of strings.
pub open spec fn texts(v: Seq<String>) -> Seq<Seq<char>> {
    v.map_values(|s: String| s@)
}

/// An empty list value is one empty item, not an empty list.
pub proof fn lemma_empty_list_value_is_one_empty_item()
    ensures
        split_commas(Seq::<char>::empty()) == seq![Seq::<char>::empty()],
{
}

pub proof fn lemma_split_commas_nonempty(s: Seq<char>)
    ensures
        split_commas(s).len() >= 1,
    decreases s.len(),
{
    if s.len() > 0 {
        lemma_split_commas_nonempty(s.drop_last());
    }
}

/// Whether `s` holds no comma.
pub open spec fn comma_free(s: Seq<char>) -> bool {
    forall|i: int| 0 <= i < s.len() ==> s[i] != ','
}

proof fn lemma_split_comma_free(s: Seq<char>)
    requires
        comma_free(s),
    ensures
        split_commas(s) == seq![s],
    decreases s.len(),
{
    if s.len() > 0 {
        lemma_split_comma_free(s.drop_last());
        assert(s.drop_last().push(s.last()) =~= s);
        assert(seq![s.drop_last()].update(0, s) =~= seq![s]);
    } else {
        assert(s =~= Seq::<char>::empty());
    }
}

proof fn lemma_split_after_comma(a: Seq<char>, b: Seq<char>)
    requires
        comma_free(b),
    ensures
        split_commas(a + seq![','] + b) == split_commas(a).push(b),
    decreases b.len(),
{
    let joined = a + seq![','] + b;
    if b.len() == 0 {
        assert(joined.drop_last() =~= a);
        assert(b =~= Seq::<char>::empty());
    } else {
        let shorter = b.drop_last();
        lemma_split_after_comma(a, shorter);
        assert(joined.drop_last() =~= a + seq![','] + shorter);
        assert(joined.last() == b.last());
        assert(shorter.push(b.last()) =~= b);
        assert(split_commas(a).push(shorter).update(split_commas(a).len() as int, b)
            =~= split_commas(a).push(b));
    }
}

/// A non-empty list whose items hold no comma is read back as the same list
/// after being written joined by commas.
pub proof fn lemma_join_then_split(parts: Seq<Seq<char>>)
    requires
        parts.len() > 0,
        forall|i: int| 0 <= i < parts.len() ==> comma_free(#[trigger] parts[i]),
    ensures
        split_commas(join_commas(parts)) == parts,
    decreases parts.len(),
{
    if parts.len() == 1 {
        lemma_split_comma_free(parts[0]);
        assert(seq![parts[0]] =~= parts);
    } else {
        let front = parts.drop_last();
        assert forall|i: int| 0 <= i < front.len() implies comma_free(#[trigger] front[i]) by {
            assert(front[i] == parts[i]);
        }
        lemma_join_then_split(front);
        assert(comma_free(parts[parts.len() - 1]));
        lemma_split_after_comma(join_commas(front), parts.last());
        assert(front.push(parts.last()) =~= parts);
    }
}

/// Splits `s` on every comma, keeping empty segments.
pub fn split_on_commas(s: &str) -> (r: Vec<String>)
    ensures
        texts(r@) == split_commas(s@),
{
    let n = s.unicode_len();
    let mut parts: Vec<String> = Vec::new();
    let mut start: usize = 0;
    let mut i: usize = 0;
    assert(s@.subrange(0, 0) =~= Seq::<char>::empty());
    assert(texts(parts@) + seq![s@.subrange(0, 0)] =~= split_commas(s@.subrange(0, 0)));
    while i < n
        invariant
            n == s@.len(),
            start <= i <= n,
            texts(parts@) + seq![s@.subrange(start as int, i as int)] == split_commas(
                s@.subrange(0, i as int),
            ),
        decreases n - i,
    {
        let c = s.get_char(i);
        let ghost prefix = s@.subrange(0, i as int);
        let ghost next = s@.subrange(0, i + 1);
        assert(next.drop_last() =~= prefix);
        assert(next.last() == c);
        proof {
            lemma_split_commas_nonempty(prefix);
        }
        if c == ',' {
            let part = s.substring_char(start, i).to_owned();
            parts.push(part);
            assert(texts(parts@) =~= texts(parts@.drop_last()).push(part@));
            assert(s@.subrange((i + 1) as int, (i + 1) as int) =~= Seq::<char>::empty());
            assert(texts(parts@) + seq![s@.subrange((i + 1) as int, (i + 1) as int)] =~= split_commas(next));
            start = i + 1;
        } else {
            assert(s@.subrange(start as int, (i + 1) as int) =~= s@.subrange(start as int, i as int).push(c));
            assert(texts(parts@) + seq![s@.subrange(start as int, (i + 1) as int)] =~= split_commas(next));
        }
        i = i + 1;
    }
    let last = s.substring_char(start, n).to_owned();
    let ghost before = parts@;
    parts.push(last);
    assert(s@.subrange(0, n as int) =~= s@);
    assert(texts(parts@) =~= texts(before) + seq![last@]);
    parts
}

/// Joins `parts` with a comma between each two.
pub fn join_with_commas(parts: &Vec<String>) -> (r: String)
    ensures
        r@ == join_commas(texts(parts@)),
{
    if parts.len() == 0 {
        return String::new();
    }
    let mut out = parts[0].clone();
    let mut i: usize = 1;
    assert(texts(parts@).subrange(0, 1) =~= seq![parts@[0]@]);
    while i < parts.len()
        invariant
            1 <= i <= parts.len(),
            out@ == join_commas(texts(parts@).subrange(0, i as int)),
        decreases parts.len() - i,
    {
        let ghost done = texts(parts@).subrange(0, i as int);
        let ghost next = texts(parts@).subrange(0, i + 1);
        assert(next.drop_last() =~= done);
        assert(next.last() == parts@[i as int]@);
        out = out.concat(",");
        proof {
            reveal_strlit(",");
        }
        out = out.concat(parts[i].as_str());
        assert(out@ =~= join_commas(next));
        i = i + 1;
    }
    assert(texts(parts@).subrange(0, parts.len() as int) =~= texts(parts@));
    out
}

/// Whether `e` is `InvalidParameter` with the given detail.
pub open spec fn is_invalid_parameter(e: ParameterDataError, detail: Seq<char>) -> bool {
    e matches ParameterDataError::InvalidParameter(d) && d@ == detail
}

/// What decoding `record` yields, as far as the value: the error for each
/// missing field and each type tag that cannot be decoded, in the order the
/// checks are made; on success the value decoded and the record's metadata.
pub open spec fn decodes_to(record: RemoteParameter, r: Result<Parameter, ParameterDataError>) -> bool {
    if record.name is None {
        r is Err && is_invalid_parameter(r->Err_0, "parameters should have a name"@)
    } else if record.type_tag is None {
        r is Err && is_invalid_parameter(r->Err_0, "parameters should have a type"@)
    } else if record.value is None {
        r is Err && is_invalid_parameter(r->Err_0, "parameters should have a value"@)
    } else {
        let tag = record.type_tag.unwrap()@;
        let text = record.value.unwrap()@;
        if tag == "SecureString"@ || tag == "String"@ || tag == "StringList"@ {
            &&& r is Ok
            &&& r->Ok_0.name == record.name.unwrap()
            &&& r->Ok_0.version == Some(record.version)
            &&& r->Ok_0.last_modified_date == record.last_modified_millis
            &&& r->Ok_0.identifier == record.identifier
            &&& if tag == "SecureString"@ {
                r->Ok_0.value is SecureString && r->Ok_0.value->SecureString_0@ == text
            } else if tag == "String"@ {
                r->Ok_0.value is String && r->Ok_0.value->String_0@ == text
            } else {
                r->Ok_0.value is StringList && texts(r->Ok_0.value->StringList_0@) == split_commas(
                    text,
                )
            }
        } else if tag == "NewFeature"@ {
            r is Err && (r->Err_0 matches ParameterDataError::UnsupportedParameterType(t) && t@ == tag)
        } else {
            r is Err && r->Err_0 == ParameterDataError::UnknownParameterType
        }
    }
}

/// The parameters among `results`, in order.
pub open spec fn successes(results: Seq<Result<Parameter, ParameterDataError>>) -> Seq<Parameter>
    decreases results.len(),
{
    if results.len() == 0 {
        Seq::<Parameter>::empty()
    } else if results.last() is Ok {
        successes(results.drop_last()).push(results.last()->Ok_0)
    } else {
        successes(results.drop_last())
    }
}

/// The errors among `results`, in order.
pub open spec fn failures(results: Seq<Result<Parameter, ParameterDataError>>) -> Seq<ParameterDataError>
    decreases results.len(),
{
    if results.len() == 0 {
        Seq::<ParameterDataError>::empty()
    } else if results.last() is Err {
        failures(results.drop_last()).push(results.last()->Err_0)
    } else {
        failures(results.drop_last())
    }
}

/// `decoded` holds, in order, the parameters decoded from those of `records`
/// that decode, and `rejected` the errors of those that do not.
pub open spec fn decoded_parts(
    records: Seq<RemoteParameter>,
    decoded: Seq<Parameter>,
    rejected: Seq<ParameterDataError>,
) -> bool {
    exists|results: Seq<Result<Parameter, ParameterDataError>>|
        {
            &&& results.len() == records.len()
            &&& forall|i: int| 0 <= i < records.len() ==> decodes_to(#[trigger] records[i], results[i])
            &&& decoded == successes(results)
            &&& rejected == failures(results)
        }
}

/// A record with a name, a type, a value and a type tag that decodes.
pub open spec fn decodable(record: RemoteParameter) -> bool {
    &&& record.name is Some
    &&& record.type_tag is Some
    &&& record.value is Some
    &&& {
        let tag = record.type_tag.unwrap()@;
        tag == "SecureString"@ || tag == "String"@ || tag == "StringList"@
    }
}

proof fn lemma_all_successes(results: Seq<Result<Parameter, ParameterDataError>>)
    requires
        forall|i: int| 0 <= i < results.len() ==> (#[trigger] results[i]) is Ok,
    ensures
        successes(results).len() == results.len(),
        forall|i: int| 0 <= i < results.len() ==> #[trigger] successes(results)[i] == results[i]->Ok_0,
        failures(results).len() == 0,
    decreases results.len(),
{
    if results.len() > 0 {
        let prefix = results.drop_last();
        assert forall|i: int| 0 <= i < prefix.len() implies (#[trigger] prefix[i]) is Ok by {
            assert(prefix[i] == results[i]);
        }
        lemma_all_successes(prefix);
        assert(results.last() == results[results.len() - 1]);
        assert forall|i: int| 0 <= i < results.len() implies #[trigger] successes(results)[i]
            == results[i]->Ok_0 by {
            if i < results.len() - 1 {
                assert(successes(prefix)[i] == prefix[i]->Ok_0);
            }
        }
    }
}

/// When every record of a response decodes, none is lost: the decoded
/// parameters are one per record, in the same order and under the same names.
pub proof fn lemma_decodable_records_all_kept(
    records: Seq<RemoteParameter>,
    decoded: Seq<Parameter>,
    rejected: Seq<ParameterDataError>,
)
    requires
        decoded_parts(records, decoded, rejected),
        forall|i: int| 0 <= i < records.len() ==> decodable(#[trigger] records[i]),
    ensures
        decoded.len() == records.len(),
        forall|i: int| 0 <= i < records.len() ==> (#[trigger] decoded[i]).name == records[i].name->Some_0,
        rejected.len() == 0,
{
    let results = choose|results: Seq<Result<Parameter, ParameterDataError>>|
        {
            &&& results.len() == records.len()
            &&& forall|i: int| 0 <= i < records.len() ==> decodes_to(#[trigger] records[i], results[i])
            &&& decoded == successes(results)
            &&& rejected == failures(results)
        };
    assert forall|i: int| 0 <= i < results.len() implies (#[trigger] results[i]) is Ok by {
        assert(decodes_to(records[i], results[i]));
        assert(decodable(records[i]));
    }
    lemma_all_successes(results);
    assert forall|i: int| 0 <= i < records.len() implies (#[trigger] decoded[i]).name
        == records[i].name->Some_0 by {
        assert(decodes_to(records[i], results[i]));
        assert(successes(results)[i] == results[i]->Ok_0);
    }
}

/// The chunks a batch load of `names` is split into: consecutive runs of
/// `MAX_BATCH` names, the last one possibly shorter.
pub open spec fn chunks_of(names: Seq<String>) -> Seq<Seq<String>>
    decreases names.len(),
{
    if names.len() == 0 {
        Seq::<Seq<String>>::empty()
    } else if names.len() <= MAX_BATCH {
        seq![names]
    } else {
        seq![names.subrange(0, MAX_BATCH as int)] + chunks_of(
            names.subrange(MAX_BATCH as int, names.len() as int),
        )
    }
}

/// The names of all chunks, in order.
pub open spec fn flatten(chunks: Seq<Seq<String>>) -> Seq<String>
    decreases chunks.len(),
{
    if chunks.len() == 0 {
        Seq::<String>::empty()
    } else {
        chunks[0] + flatten(chunks.drop_first())
    }
}

/// A batch load is split into chunks of at most `MAX_BATCH` names that,
/// taken in order, are exactly the names asked for; more than `MAX_BATCH`
/// names take more than one chunk.
pub proof fn lemma_chunks_cover_names(names: Seq<String>)
    ensures
        flatten(chunks_of(names)) == names,
        chunks_of(names).len() == (names.len() + MAX_BATCH - 1) / (MAX_BATCH as int),
        forall|i: int|
            0 <= i < chunks_of(names).len() ==> 1 <= (#[trigger] chunks_of(names)[i]).len()
                <= MAX_BATCH,
        names.len() > MAX_BATCH ==> chunks_of(names).len() >= 2,
    decreases names.len(),
{
    if names.len() == 0 {
        assert(names =~= Seq::<String>::empty());
    } else if names.len() <= MAX_BATCH {
        let c = chunks_of(names);
        assert(c == seq![names]);
        assert(c.drop_first() =~= Seq::<Seq<String>>::empty());
        assert(flatten(c.drop_first()) == Seq::<String>::empty());
        assert(c[0] == names);
        assert(names + Seq::<String>::empty() =~= names);
    } else {
        let head = names.subrange(0, MAX_BATCH as int);
        let tail = names.subrange(MAX_BATCH as int, names.len() as int);
        lemma_chunks_cover_names(tail);
        let c = chunks_of(names);
        assert(c == seq![head] + chunks_of(tail));
        assert(c.drop_first() =~= chunks_of(tail));
        assert(head + tail =~= names);
        assert(c[0] == head);
        assert(flatten(c) == c[0] + flatten(c.drop_first()));
        assert forall|i: int| 0 <= i < c.len() implies 1 <= (#[trigger] c[i]).len() <= MAX_BATCH by {
            if i > 0 {
                assert(c[i] == chunks_of(tail)[i - 1]);
            }
        }
    }
}

/// Copies the names at positions `from` up to `to`.
fn copy_names(names: &Vec<String>, from: usize, to: usize) -> (r: Vec<String>)
    requires
        from <= to <= names@.len(),
    ensures
        r@ == names@.subrange(from as int, to as int),
{
    let mut out: Vec<String> = Vec::new();
    let mut i: usize = from;
    while i < to
        invariant
            from <= i <= to <= names@.len(),
            out@ == names@.subrange(from as int, i as int),
        decreases to - i,
    {
        out.push(names[i].clone());
        assert(out@ =~= names@.subrange(from as int, i + 1));
        i = i + 1;
    }
    out
}

/// A batch load in progress: the chunks of names still to request, and what
/// the responses so far decoded to. Any failed request ends the whole load.
pub struct ChunkedLoad {
    pending: Vec<Vec<String>>,
    loaded: ParameterSet,
    rejected: Vec<ParameterDataError>,
}

impl ChunkedLoad {
    /// The chunks not yet requested, in order.
    pub closed spec fn pending_chunks(&self) -> Seq<Seq<String>> {
        self.pending@.map_values(|c: Vec<String>| c@)
    }

    /// The parameters decoded so far, in the order of the responses.
    pub closed spec fn loaded_parameters(&self) -> Seq<Parameter> {
        self.loaded@
    }

    /// The errors of the records that did not decode, in order.
    pub closed spec fn rejected_records(&self) -> Seq<ParameterDataError> {
        self.rejected@
    }

    /// Starts the load of `names`.
    pub fn new(names: &Vec<String>) -> (r: Self)
        ensures
            r.pending_chunks() == chunks_of(names@),
            r.loaded_parameters() == Seq::<Parameter>::empty(),
            r.rejected_records() == Seq::<ParameterDataError>::empty(),
    {
        let n = names.len();
        let mut pending: Vec<Vec<String>> = Vec::new();
        let mut start: usize = 0;
        assert(names@.subrange(0, n as int) =~= names@);
        while start < n
            invariant
                n == names@.len(),
                start <= n,
                pending@.map_values(|c: Vec<String>| c@) + chunks_of(
                    names@.subrange(start as int, n as int),
                ) == chunks_of(names@),
            decreases n - start,
        {
            let end = if n - start > MAX_BATCH {
                start + MAX_BATCH
            } else {
                n
            };
            let chunk = copy_names(names, start, end);
            let ghost rest = names@.subrange(start as int, n as int);
            let ghost before = pending@.map_values(|c: Vec<String>| c@);
            pending.push(chunk);
            proof {
                assert(pending@.map_values(|c: Vec<String>| c@) =~= before.push(chunk@));
                if n - start > MAX_BATCH {
                    assert(rest.subrange(0, MAX_BATCH as int) =~= chunk@);
                    assert(rest.subrange(MAX_BATCH as int, rest.len() as int) =~= names@.subrange(
                        end as int,
                        n as int,
                    ));
                    assert(before.push(chunk@) + chunks_of(names@.subrange(end as int, n as int))
                        =~= before + chunks_of(rest));
                } else {
                    assert(rest =~= chunk@);
                    assert(names@.subrange(end as int, n as int) =~= Seq::<String>::empty());
                    assert(before.push(chunk@) + chunks_of(names@.subrange(end as int, n as int))
                        =~= before + chunks_of(rest));
                }
            }
            start = end;
        }
        assert(names@.subrange(n as int, n as int) =~= Seq::<String>::empty());
        assert(pending@.map_values(|c: Vec<String>| c@) + Seq::<Seq<String>>::empty()
            =~= pending@.map_values(|c: Vec<String>| c@));
        ChunkedLoad { pending, loaded: ParameterSet::new(), rejected: Vec::new() }
    }

    /// Takes the next chunk of names to request, if any is left.
    pub fn next_request(&mut self) -> (r: Option<Vec<String>>)
        ensures
            old(self).pending_chunks().len() == 0 ==> r is None && final(self).pending_chunks()
                == old(self).pending_chunks(),
            old(self).pending_chunks().len() > 0 ==> r is Some && r->Some_0@ == old(
                self,
            ).pending_chunks()[0] && final(self).pending_chunks() == old(
                self,
            ).pending_chunks().drop_first(),
            final(self).loaded_parameters() == old(self).loaded_parameters(),
            final(self).rejected_records() == old(self).rejected_records(),
    {
        if self.pending.len() == 0 {
            return None;
        }
        let chunk = self.pending.remove(0);
        assert(self.pending@.map_values(|c: Vec<String>| c@) =~= old(self).pending@.map_values(
            |c: Vec<String>| c@,
        ).drop_first());
        Some(chunk)
    }

    /// Adds what the response to a request decodes to.
    pub fn record_response(&mut self, records: &Vec<RemoteParameter>)
        ensures
            final(self).pending_chunks() == old(self).pending_chunks(),
            exists|decoded: Seq<Parameter>, rejected: Seq<ParameterDataError>|
                {
                    &&& decoded_parts(records@, decoded, rejected)
                    &&& final(self).loaded_parameters() == old(self).loaded_parameters() + decoded
                    &&& final(self).rejected_records() == old(self).rejected_records() + rejected
                },
    {
        let (decoded, mut rejected) = ParameterStoreAdapter::decode_records(records);
        let ghost d = decoded@;
        let ghost rj = rejected@;
        self.loaded.add_all_parameters(decoded);
        self.rejected.append(&mut rejected);
        assert(decoded_parts(records@, d, rj));
    }

    /// The error a failed request ends the load with.
    pub fn fail(self) -> (r: ParameterDataError)
        ensures
            r == ParameterDataError::ParameterDataLoadError,
    {
        ParameterDataError::ParameterDataLoadError
    }

    /// The parameters loaded, and the errors of the records left out.
    pub fn finish(self) -> (r: (ParameterSet, Vec<ParameterDataError>))
        ensures
            r.0@ == self.loaded_parameters(),
            r.1@ == self.rejected_records(),
    {
        (self.loaded, self.rejected)
    }
}

/// The remote parameter store, as far as its logic goes: the calls
/// themselves are made by the application.
pub struct ParameterStoreAdapter;

impl ParameterStoreAdapter {
    /// Decodes one record; a missing name, type or value, and a type tag that
    /// cannot be decoded, are errors.
    pub fn parse_ssm_parameter(record: &RemoteParameter) -> (r: Result<Parameter, ParameterDataError>)
        ensures
            decodes_to(*record, r),
    {
        let name = match &record.name {
            Some(name) => name.clone(),
            None => {
                return Err(
                    ParameterDataError::InvalidParameter(
                        "parameters should have a name".to_owned(),
                    ),
                );
            },
        };
        let tag = match &record.type_tag {
            Some(tag) => tag,
            None => {
                return Err(
                    ParameterDataError::InvalidParameter(
                        "parameters should have a type".to_owned(),
                    ),
                );
            },
        };
        let text = match &record.value {
            Some(text) => text,
            None => {
                return Err(
                    ParameterDataError::InvalidParameter(
                        "parameters should have a value".to_owned(),
                    ),
                );
            },
        };
        let value = if *tag == "SecureString".to_owned() {
            ParameterValue::SecureString(SecureString::from_text(text.as_str()))
        } else if *tag == "String".to_owned() {
            ParameterValue::String(text.clone())
        } else if *tag == "StringList".to_owned() {
            ParameterValue::StringList(split_on_commas(text.as_str()))
        } else if *tag == "NewFeature".to_owned() {
            return Err(ParameterDataError::UnsupportedParameterType(tag.clone()));
        } else {
            return Err(ParameterDataError::UnknownParameterType);
        };
        Ok(
            Parameter {
                name,
                value,
                version: Some(record.version),
                last_modified_date: record.last_modified_millis,
                identifier: record.identifier.clone(),
            },
        )
    }

    /// Decodes every record of a batch response: a record that does not
    /// decode is left out, and its error reported beside the parameters.
    pub fn decode_records(records: &Vec<RemoteParameter>) -> (r: (
        Vec<Parameter>,
        Vec<ParameterDataError>,
    ))
        ensures
            decoded_parts(records@, r.0@, r.1@),
    {
        let mut decoded: Vec<Parameter> = Vec::new();
        let mut rejected: Vec<ParameterDataError> = Vec::new();
        let ghost mut results: Seq<Result<Parameter, ParameterDataError>> = Seq::empty();
        let mut i: usize = 0;
        while i < records.len()
            invariant
                i <= records.len(),
                results.len() == i,
                forall|j: int| 0 <= j < i ==> decodes_to(#[trigger] records@[j], results[j]),
                decoded@ == successes(results),
                rejected@ == failures(results),
            decreases records.len() - i,
        {
            let result = Self::parse_ssm_parameter(&records[i]);
            let ghost prev = results;
            proof {
                results = prev.push(result);
                assert(results.drop_last() =~= prev);
                assert(results.last() == result);
            }
            match result {
                Ok(parameter) => decoded.push(parameter),
                Err(error) => rejected.push(error),
            }
            i = i + 1;
        }
        (decoded, rejected)
    }

    /// The names of a listing; every entry must carry one.
    pub fn parameter_names(names: Vec<Option<String>>) -> (r: Result<Vec<String>, ParameterDataError>)
        ensures
            r is Ok <==> forall|i: int| 0 <= i < names@.len() ==> (#[trigger] names@[i]) is Some,
            r is Ok ==> r->Ok_0@.len() == names@.len() && forall|i: int|
                0 <= i < names@.len() ==> (#[trigger] r->Ok_0@[i]) == names@[i]->Some_0,
            r is Err ==> is_invalid_parameter(r->Err_0, "parameters should have a name"@),
    {
        let mut out: Vec<String> = Vec::new();
        let mut i: usize = 0;
        while i < names.len()
            invariant
                i <= names@.len(),
                out@.len() == i,
                forall|j: int| 0 <= j < i ==> (#[trigger] names@[j]) is Some,
                forall|j: int| 0 <= j < i ==> (#[trigger] out@[j]) == names@[j]->Some_0,
            decreases names@.len() - i,
        {
            match &names[i] {
                Some(name) => out.push(name.clone()),
                None => {
                    return Err(
                        ParameterDataError::InvalidParameter(
                            "parameters should have a name".to_owned(),
                        ),
                    );
                },
            }
            i = i + 1;
        }
        Ok(out)
    }

    /// The text and the type under which a value is written to the store: a
    /// list is written as its items joined by commas.
    pub fn wire_form(value: &ParameterValue) -> (r: (String, WireType))
        ensures
            match *value {
                ParameterValue::String(text) => r.0@ == text@ && r.1 == WireType::String,
                ParameterValue::SecureString(secret) => r.0@ == secret@ && r.1
                    == WireType::SecureString,
                ParameterValue::StringList(items) => r.0@ == join_commas(texts(items@)) && r.1
                    == WireType::StringList,
            },
    {
        match value {
            ParameterValue::String(text) => (text.clone(), WireType::String),
            ParameterValue::SecureString(secret) => (secret.as_str().to_owned(), WireType::SecureString),
            ParameterValue::StringList(items) => (join_with_commas(items), WireType::StringList),
        }
    }

    /// The error reported for a failed write: the store's diagnostic, or a
    /// fixed text when it gave none.
    pub fn write_error(message: Option<&str>) -> (r: ParameterDataError)
        ensures
            r matches ParameterDataError::ParameterDataWriteError(reason) && reason@ == match message {
                Some(m) => m@,
                None => "unknown parameter error"@,
            },
    {
        match message {
            Some(m) => ParameterDataError::ParameterDataWriteError(m.to_owned()),
            None => ParameterDataError::ParameterDataWriteError("unknown parameter error".to_owned()),
        }
    }
}

} // verus!
