//! Assembly of bulk indexing requests: the daily index name, the action
//! line that precedes each document, and the request body.

use std::collections::hash_map::DefaultHasher;
use std::hash::Hasher;
use vstd::prelude::*;
use vstd::std_specs::hash::DefaultHasherAdditionalSpecFns;

use crate::text::{
    decimal, decimal_is_injective, decimal_reads_back, decimal_value, middle_is_determined,
    padded2_reads_back, signed_decimal_has_no_dot, signed_decimal_is_injective, split_at_first_dot, join_with, joined, padded2, push_padded2, push_signed_decimal, signed_decimal,
    u64_to_decimal,
};

verus! {

/// The state of a `DefaultHasher` after `<str as Hash>::hash` has fed it a
/// string, as a function of the state before and of the string.
pub uninterp spec fn str_hash_state(state: Seq<Seq<u8>>, item: Seq<char>) -> Seq<Seq<u8>>;

/// Calls `<str as Hash>::hash(item, state)`. The contract only names what
/// the call writes into the hasher: it depends on the string and on the
/// state before, and on nothing else; which bytes std writes is not stated.
#[verifier::external_body]
fn hash_str(item: &str, state: &mut DefaultHasher)
    ensures
        final(state)@ == str_hash_state(old(state)@, item@),
{
    std::hash::Hash::hash(item, state)
}

/// The document id that `get_hash` gives a payload: the decimal rendering
/// of its `DefaultHasher` digest.
pub open spec fn spec_hash_id(item: Seq<char>) -> Seq<char> {
    decimal(DefaultHasher::spec_finish(str_hash_state(Seq::empty(), item)) as nat)
}

/// The document id of a payload reads back as the digest of a fresh
/// `DefaultHasher` fed the whole payload, and two payloads get the same
/// id exactly when those digests agree: payloads that differ anywhere
/// are told apart as far as their digests are.
pub proof fn hash_id_is_digest_of_whole_payload(a: Seq<char>, b: Seq<char>)
    ensures
        decimal_value(spec_hash_id(a)) == DefaultHasher::spec_finish(
            str_hash_state(Seq::empty(), a),
        ),
        spec_hash_id(a) == spec_hash_id(b) <==> DefaultHasher::spec_finish(
            str_hash_state(Seq::empty(), a),
        ) == DefaultHasher::spec_finish(str_hash_state(Seq::empty(), b)),
{
    let da = DefaultHasher::spec_finish(str_hash_state(Seq::empty(), a));
    let db = DefaultHasher::spec_finish(str_hash_state(Seq::empty(), b));
    decimal_reads_back(da as nat);
    decimal_is_injective(da as nat, db as nat);
}

/// The id of a document: the digest of a fresh `DefaultHasher` fed with
/// the payload, rendered in decimal.
pub fn get_hash(item: &str) -> (id: String)
    ensures
        id@ == spec_hash_id(item@),
{
    let mut s = DefaultHasher::new();
    hash_str(item, &mut s);
    u64_to_decimal(s.finish())
}

/// The action line that precedes a document in a bulk request body.
pub open spec fn action_line(id: Seq<char>, ty: Seq<char>) -> Seq<char> {
    "{\"index\":{\"_id\":\""@ + id + "\", \"_type\": \""@ + ty + "\"}}"@
}

/// The action line tells documents apart: for the same type, different
/// ids give different lines, and for the same id, different types do.
pub proof fn action_line_names_id_and_type(id1: Seq<char>, id2: Seq<char>, ty1: Seq<char>, ty2: Seq<char>)
    ensures
        action_line(id1, ty1) == action_line(id2, ty1) <==> id1 == id2,
        action_line(id1, ty1) == action_line(id1, ty2) <==> ty1 == ty2,
{
    let head = "{\"index\":{\"_id\":\""@;
    let tail1 = "\", \"_type\": \""@ + ty1 + "\"}}"@;
    assert(action_line(id1, ty1) =~= head + id1 + tail1);
    assert(action_line(id2, ty1) =~= head + id2 + tail1);
    middle_is_determined(head, id1, id2, tail1);
    let head2 = head + id1 + "\", \"_type\": \""@;
    let tail2 = "\"}}"@;
    assert(action_line(id1, ty1) =~= head2 + ty1 + tail2);
    assert(action_line(id1, ty2) =~= head2 + ty2 + tail2);
    middle_is_determined(head2, ty1, ty2, tail2);
}

/// Renders the action line for a document with the given id and type.
pub fn bulk_action_line(id: &str, ty: &str) -> (line: String)
    ensures
        line@ == action_line(id@, ty@),
{
    let mut line = String::new();
    line.append("{\"index\":{\"_id\":\"");
    line.append(id);
    line.append("\", \"_type\": \"");
    line.append(ty);
    line.append("\"}}");
    line
}

/// The views of a sequence of strings.
pub open spec fn views(lines: Seq<String>) -> Seq<Seq<char>> {
    lines.map_values(|l: String| l@)
}

/// A bulk pack: documents of type `ty`, each preceded by its action line,
/// whose id is the hash of the document.
pub open spec fn is_bulk_pack(pack: Seq<Seq<char>>, ty: Seq<char>) -> bool {
    &&& pack.len() % 2 == 0
    &&& forall|k: int|
        0 <= k < pack.len() / 2 ==> #[trigger] pack[2 * k] == action_line(
            spec_hash_id(pack[2 * k + 1]),
            ty,
        )
}

/// Appends a document to a bulk pack: first its action line, whose id is
/// the hash of the payload, then the payload itself.
pub fn push_document(pack: &mut Vec<String>, payload: String, ty: &str)
    ensures
        views(final(pack)@) == views(old(pack)@).push(action_line(spec_hash_id(payload@), ty@)).push(
            payload@,
        ),
{
    let id = get_hash(payload.as_str());
    let line = bulk_action_line(id.as_str(), ty);
    let ghost p = payload@;
    pack.push(line);
    pack.push(payload);
    assert(views(final(pack)@) == views(old(pack)@).push(action_line(spec_hash_id(p), ty@)).push(p));
}

/// Pushing a document keeps a bulk pack a bulk pack of the same type.
pub proof fn push_document_keeps_bulk_pack(pack: Seq<Seq<char>>, payload: Seq<char>, ty: Seq<char>)
    requires
        is_bulk_pack(pack, ty),
    ensures
        is_bulk_pack(pack.push(action_line(spec_hash_id(payload), ty)).push(payload), ty),
{
    let next = pack.push(action_line(spec_hash_id(payload), ty)).push(payload);
    assert forall|k: int| 0 <= k < next.len() / 2 implies #[trigger] next[2 * k] == action_line(
        spec_hash_id(next[2 * k + 1]),
        ty,
    ) by {
        if k < pack.len() / 2 {
            assert(next[2 * k] == pack[2 * k]);
            assert(next[2 * k + 1] == pack[2 * k + 1]);
        } else {
            assert(2 * k == pack.len());
        }
    }
}

/// The name of the index for one day: `prefix-YYYY.MM.D`, the month
/// padded to two digits, the day not padded.
pub open spec fn spec_index_name(prefix: Seq<char>, year: int, month: int, day: int) -> Seq<char> {
    prefix + seq!['-'] + signed_decimal(year) + seq!['.'] + padded2(month) + seq!['.']
        + signed_decimal(day)
}

/// The index name tells days apart: under the same prefix, two dates
/// have the same name exactly when their years, months and days agree.
pub proof fn index_name_names_the_date(
    prefix: Seq<char>,
    y1: int,
    m1: int,
    d1: int,
    y2: int,
    m2: int,
    d2: int,
)
    ensures
        spec_index_name(prefix, y1, m1, d1) == spec_index_name(prefix, y2, m2, d2) <==> (y1 == y2
            && m1 == m2 && d1 == d2),
{
    if spec_index_name(prefix, y1, m1, d1) == spec_index_name(prefix, y2, m2, d2) {
        let head = prefix + seq!['-'];
        let r1 = signed_decimal(y1) + seq!['.'] + padded2(m1) + seq!['.'] + signed_decimal(d1);
        let r2 = signed_decimal(y2) + seq!['.'] + padded2(m2) + seq!['.'] + signed_decimal(d2);
        assert(spec_index_name(prefix, y1, m1, d1) =~= head + r1);
        assert(spec_index_name(prefix, y2, m2, d2) =~= head + r2);
        assert((head + r1).skip(head.len() as int) =~= r1);
        assert((head + r2).skip(head.len() as int) =~= r2);
        signed_decimal_has_no_dot(y1);
        signed_decimal_has_no_dot(y2);
        signed_decimal_has_no_dot(m1);
        signed_decimal_has_no_dot(m2);
        let t1 = padded2(m1) + seq!['.'] + signed_decimal(d1);
        let t2 = padded2(m2) + seq!['.'] + signed_decimal(d2);
        assert(r1 =~= signed_decimal(y1) + seq!['.'] + t1);
        assert(r2 =~= signed_decimal(y2) + seq!['.'] + t2);
        split_at_first_dot(signed_decimal(y1), t1, signed_decimal(y2), t2);
        split_at_first_dot(padded2(m1), signed_decimal(d1), padded2(m2), signed_decimal(d2));
        signed_decimal_is_injective(y1, y2);
        signed_decimal_is_injective(d1, d2);
        padded2_reads_back(m1);
        padded2_reads_back(m2);
    }
}

/// The daily index name from broken-down time fields, where the year
/// counts from 1900 and the month from 0.
pub fn index_name(prefix: &str, tm_year: i32, tm_mon: i32, tm_mday: i32) -> (name: String)
    requires
        tm_year + 1900 <= i32::MAX,
        tm_mon + 1 <= i32::MAX,
    ensures
        name@ == spec_index_name(prefix@, tm_year + 1900, tm_mon + 1, tm_mday as int),
{
    let year = tm_year + 1900;
    let month = tm_mon + 1;
    proof {
        reveal_strlit("-");
        reveal_strlit(".");
    }
    let mut name = prefix.to_owned();
    name.append("-");
    push_signed_decimal(&mut name, year as i64);
    name.append(".");
    push_padded2(&mut name, month as i64);
    name.append(".");
    push_signed_decimal(&mut name, tm_mday as i64);
    name
}

/// The body of a bulk request: the lines joined by newlines.
pub fn bulk_body(lines: &Vec<String>) -> (body: String)
    ensures
        body@ == joined(views(lines@), seq!['\n']),
{
    proof { reveal_strlit("\n"); }
    let body = join_with(lines, "\n");
    assert(views(lines@) =~= lines@.map_values(|p: String| p@));
    assert("\n"@ =~= seq!['\n']);
    body
}


/// How many records one bulk request gathers for a configured bulk size:
/// the size itself, and none for a size below one.
pub fn records_per_bulk(bulk_size: i64) -> (n: u64)
    ensures
        n as int == if bulk_size > 0 { bulk_size as int } else { 0 },
{
    if bulk_size > 0 {
        bulk_size as u64
    } else {
        0
    }
}

} // verus!
