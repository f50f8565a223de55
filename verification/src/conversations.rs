//! The rules of the conversation endpoints: identifiers, the order in
//! which conversations are listed, and the answers for what is not there.
use vstd::prelude::*;

use crate::error::{AppError, AppErrorView};
use crate::models::Conversation;
use crate::text::{chars_of, seq_lt};
use vstd::multiset::Multiset;

verus! {

broadcast use vstd::seq_lib::group_to_multiset_ensures;

/// An ASCII hexadecimal digit, in either case.
pub open spec fn is_hex_char(c: char) -> bool {
    ('0' <= c && c <= '9') || ('a' <= c && c <= 'f') || ('A' <= c && c <= 'F')
}

/// The hyphenated form: five groups of 8, 4, 4, 4 and 12 hex digits.
pub open spec fn hyphenated_uuid(s: Seq<char>) -> bool {
    &&& s.len() == 36
    &&& forall|i: int|
        0 <= i < 36 ==> if i == 8 || i == 13 || i == 18 || i == 23 {
            #[trigger] s[i] == '-'
        } else {
            is_hex_char(s[i])
        }
}

/// `c` equals the lower-case ASCII character `p` but for ASCII case.
pub open spec fn eq_ignore_ascii_case(c: char, p: char) -> bool {
    c == p || ('a' <= p && p <= 'z' && (c as int) == (p as int) - 32)
}

/// The texts that `uuid::Uuid::parse_str` accepts: 32 hex digits, the
/// hyphenated form, the hyphenated form in braces, or the hyphenated form
/// after `urn:uuid:` in any ASCII case.
pub open spec fn uuid_text(s: Seq<char>) -> bool {
    ||| s.len() == 32 && forall|i: int| 0 <= i < 32 ==> is_hex_char(#[trigger] s[i])
    ||| hyphenated_uuid(s)
    ||| s.len() == 38 && s[0] == '{' && s[37] == '}' && hyphenated_uuid(s.subrange(1, 37))
    ||| s.len() == 45 && hyphenated_uuid(s.skip(9)) && forall|i: int|
        0 <= i < 9 ==> eq_ignore_ascii_case(#[trigger] s[i], "urn:uuid:"@[i])
}

/// `uuid::Uuid::parse_str(text).is_ok()`. The crate's parser (`try_parse`)
/// dispatches on the byte length: 32 bytes of hex digits; 36 bytes in the
/// hyphenated form, or 38 bytes of it in braces; 45 bytes whose first nine
/// equal `urn:uuid:` ignoring ASCII case, followed by the hyphenated form.
/// Every accepted byte is ASCII, so this is `uuid_text` of the characters.
#[verifier::external_body]
fn uuid_is_valid(text: &str) -> (ok: bool)
    ensures
        ok == uuid_text(text@),
{
    uuid::Uuid::parse_str(text).is_ok()
}

pub open spec fn id_result_view(r: Result<String, AppError>) -> Result<Seq<char>, AppErrorView> {
    match r {
        Ok(s) => Ok(s@),
        Err(e) => Err(e@),
    }
}

/// A conversation id is kept as given when it is a UUID, and is a bad
/// request otherwise.
pub open spec fn conversation_id_spec(id: Seq<char>, is_uuid: bool) -> Result<Seq<char>, AppErrorView> {
    if is_uuid {
        Ok(id)
    } else {
        Err(AppErrorView::BadRequest("conversation id must be a UUID"@))
    }
}

/// The answer for a conversation id, given whether it parses as a UUID.
pub fn conversation_id_result(id: &str, is_uuid: bool) -> (r: Result<String, AppError>)
    ensures
        id_result_view(r) == conversation_id_spec(id@, is_uuid),
{
    if is_uuid {
        Ok(id.to_owned())
    } else {
        Err(AppError::bad_request("conversation id must be a UUID".to_owned()))
    }
}

/// Checks that a conversation id from the path is a UUID.
pub fn parse_conversation_id(id: &str) -> (r: Result<String, AppError>)
    ensures
        id_result_view(r) == conversation_id_spec(id@, uuid_text(id@)),
{
    conversation_id_result(id, uuid_is_valid(id))
}

/// The answer when a conversation looked up is not there.
pub fn require_conversation(found: Option<Conversation>) -> (r: Result<Conversation, AppError>)
    ensures
        found matches Some(c) ==> r == Ok::<Conversation, AppError>(c),
        found is None ==> (r matches Err(e) && e@ == AppErrorView::NotFound("conversation not found"@)),
{
    match found {
        Some(c) => Ok(c),
        None => Err(AppError::not_found("conversation not found".to_owned())),
    }
}

/// The answer for a path that no route serves.
pub fn route_not_found() -> (e: AppError)
    ensures
        e@ == AppErrorView::NotFound("route not found"@),
{
    AppError::not_found("route not found".to_owned())
}

/// Whether conversation `a` is listed before `b`: the most recently
/// updated first, then the most recently created, then by id.
pub open spec fn listed_before(a: Conversation, b: Conversation) -> bool {
    ||| seq_lt(b.updated_at@, a.updated_at@)
    ||| (b.updated_at@ == a.updated_at@ && seq_lt(b.created_at@, a.created_at@))
    ||| (b.updated_at@ == a.updated_at@ && b.created_at@ == a.created_at@ && seq_lt(a.id@, b.id@))
}

/// A list in listing order: no conversation comes after one that should
/// be listed after it.
pub open spec fn in_listing_order(s: Seq<Conversation>) -> bool {
    forall|i: int, j: int| 0 <= i < j < s.len() ==> !listed_before(#[trigger] s[j], #[trigger] s[i])
}

proof fn lemma_seq_lt_transitive(a: Seq<char>, b: Seq<char>, c: Seq<char>)
    requires
        seq_lt(a, b),
        seq_lt(b, c),
    ensures
        seq_lt(a, c),
    decreases a.len(),
{
    if a.len() > 0 && b.len() > 0 && c.len() > 0 && a[0] == b[0] && b[0] == c[0] {
        lemma_seq_lt_transitive(a.drop_first(), b.drop_first(), c.drop_first());
    }
}

proof fn lemma_seq_lt_irreflexive(a: Seq<char>)
    ensures
        !seq_lt(a, a),
    decreases a.len(),
{
    if a.len() > 0 {
        lemma_seq_lt_irreflexive(a.drop_first());
    }
}

proof fn lemma_listed_before_irreflexive(a: Conversation)
    ensures
        !listed_before(a, a),
{
    lemma_seq_lt_irreflexive(a.updated_at@);
    lemma_seq_lt_irreflexive(a.created_at@);
    lemma_seq_lt_irreflexive(a.id@);
}

proof fn lemma_listed_before_transitive(a: Conversation, b: Conversation, c: Conversation)
    requires
        listed_before(a, b),
        listed_before(b, c),
    ensures
        listed_before(a, c),
{
    lemma_seq_lt_irreflexive(a.updated_at@);
    lemma_seq_lt_irreflexive(b.updated_at@);
    lemma_seq_lt_irreflexive(a.created_at@);
    lemma_seq_lt_irreflexive(b.created_at@);
    if seq_lt(b.updated_at@, a.updated_at@) && seq_lt(c.updated_at@, b.updated_at@) {
        lemma_seq_lt_transitive(c.updated_at@, b.updated_at@, a.updated_at@);
    } else if b.updated_at@ == a.updated_at@ && c.updated_at@ == b.updated_at@ {
        if seq_lt(b.created_at@, a.created_at@) && seq_lt(c.created_at@, b.created_at@) {
            lemma_seq_lt_transitive(c.created_at@, b.created_at@, a.created_at@);
        } else if b.created_at@ == a.created_at@ && c.created_at@ == b.created_at@ {
            lemma_seq_lt_transitive(a.id@, b.id@, c.id@);
        }
    }
}

proof fn lemma_seq_lt_total(a: Seq<char>, b: Seq<char>)
    requires
        a != b,
    ensures
        seq_lt(a, b) || seq_lt(b, a),
    decreases a.len(),
{
    if a.len() > 0 && b.len() > 0 && a[0] == b[0] {
        if a.drop_first() == b.drop_first() {
            assert(a =~= seq![a[0]] + a.drop_first());
            assert(b =~= seq![b[0]] + b.drop_first());
        }
        lemma_seq_lt_total(a.drop_first(), b.drop_first());
    } else if a.len() == 0 && b.len() == 0 {
        assert(a =~= b);
    } else if a.len() > 0 && b.len() > 0 {
        assert((a[0] as int) != (b[0] as int));
    }
}

proof fn lemma_listed_before_total(a: Conversation, b: Conversation)
    requires
        a.id@ != b.id@,
    ensures
        listed_before(a, b) || listed_before(b, a),
{
    if a.updated_at@ != b.updated_at@ {
        lemma_seq_lt_total(a.updated_at@, b.updated_at@);
    } else if a.created_at@ != b.created_at@ {
        lemma_seq_lt_total(a.created_at@, b.created_at@);
    } else {
        lemma_seq_lt_total(a.id@, b.id@);
    }
}

/// The listing order compares whole timestamps: a conversation updated
/// later is listed first; with equal update times, one created later is
/// listed first; with both equal, the smaller id comes first.
pub proof fn lemma_listing_order_by_recency(a: Conversation, b: Conversation)
    ensures
        seq_lt(b.updated_at@, a.updated_at@) ==> listed_before(a, b) && !listed_before(b, a),
        a.updated_at@ == b.updated_at@ && seq_lt(b.created_at@, a.created_at@) ==> listed_before(a, b)
            && !listed_before(b, a),
        a.updated_at@ == b.updated_at@ && a.created_at@ == b.created_at@ && seq_lt(a.id@, b.id@)
            ==> listed_before(a, b) && !listed_before(b, a),
{
    lemma_seq_lt_irreflexive(a.updated_at@);
    lemma_seq_lt_irreflexive(a.created_at@);
    lemma_seq_lt_irreflexive(a.id@);
    if seq_lt(b.updated_at@, a.updated_at@) && seq_lt(a.updated_at@, b.updated_at@) {
        lemma_seq_lt_transitive(a.updated_at@, b.updated_at@, a.updated_at@);
    }
    if seq_lt(b.created_at@, a.created_at@) && seq_lt(a.created_at@, b.created_at@) {
        lemma_seq_lt_transitive(a.created_at@, b.created_at@, a.created_at@);
    }
    if seq_lt(a.id@, b.id@) && seq_lt(b.id@, a.id@) {
        lemma_seq_lt_transitive(a.id@, b.id@, a.id@);
    }
}

/// In a list in listing order, update times never increase along the list,
/// creation times never increase among equal update times, and ids
/// increase among equal update and creation times.
pub proof fn lemma_listing_is_most_recent_first(s: Seq<Conversation>, i: int, j: int)
    requires
        in_listing_order(s),
        0 <= i < j < s.len(),
    ensures
        !seq_lt(s[i].updated_at@, s[j].updated_at@),
        s[i].updated_at@ == s[j].updated_at@ ==> !seq_lt(s[i].created_at@, s[j].created_at@),
        s[i].updated_at@ == s[j].updated_at@ && s[i].created_at@ == s[j].created_at@ ==> !seq_lt(
            s[j].id@,
            s[i].id@,
        ),
{
    lemma_listing_order_by_recency(s[j], s[i]);
}

/// All conversations of `s` have different ids.
pub open spec fn distinct_ids(s: Seq<Conversation>) -> bool {
    forall|i: int, j: int| 0 <= i < j < s.len() ==> (#[trigger] s[i]).id@ != (#[trigger] s[j]).id@
}

/// The listing order leaves no choice: two lists in listing order that
/// hold the same conversations, with all-different ids, are the same
/// list, so the order in which the store returns conversations never
/// shows in the listing.
pub proof fn lemma_listing_order_is_unique(s: Seq<Conversation>, t: Seq<Conversation>)
    requires
        in_listing_order(s),
        in_listing_order(t),
        s.to_multiset() == t.to_multiset(),
        distinct_ids(s),
        distinct_ids(t),
    ensures
        s == t,
    decreases s.len(),
{
    s.to_multiset_ensures();
    t.to_multiset_ensures();
    if s.len() == 0 {
        assert(t.len() == 0);
        assert(s =~= t);
    } else {
        assert(t.len() == s.len());
        assert(s.to_multiset().count(s[0]) > 0);
        assert(t.contains(s[0]));
        let k = choose|k: int| 0 <= k < t.len() && t[k] == s[0];
        assert(t.to_multiset().count(t[0]) > 0);
        assert(s.contains(t[0]));
        let m = choose|m: int| 0 <= m < s.len() && s[m] == t[0];
        if k != 0 {
            assert(t[0].id@ != t[k].id@);
            assert(m != 0);
            assert(!listed_before(t[k], t[0]));
            assert(!listed_before(s[m], s[0]));
            lemma_listed_before_total(s[0], t[0]);
            assert(false);
        }
        assert(s[0] == t[0]);
        let s1 = s.drop_first();
        let t1 = t.drop_first();
        assert(s1 =~= s.remove(0));
        assert(t1 =~= t.remove(0));
        assert(s1.to_multiset() == s.to_multiset().remove(s[0]));
        assert(t1.to_multiset() == t.to_multiset().remove(t[0]));
        assert forall|i: int, j: int| 0 <= i < j < s1.len() implies !listed_before(
            #[trigger] s1[j],
            #[trigger] s1[i],
        ) by {
            assert(s1[j] == s[j + 1] && s1[i] == s[i + 1]);
        }
        assert forall|i: int, j: int| 0 <= i < j < t1.len() implies !listed_before(
            #[trigger] t1[j],
            #[trigger] t1[i],
        ) by {
            assert(t1[j] == t[j + 1] && t1[i] == t[i + 1]);
        }
        assert forall|i: int, j: int| 0 <= i < j < s1.len() implies (#[trigger] s1[i]).id@ != (
        #[trigger] s1[j]).id@ by {
            assert(s1[j] == s[j + 1] && s1[i] == s[i + 1]);
        }
        assert forall|i: int, j: int| 0 <= i < j < t1.len() implies (#[trigger] t1[i]).id@ != (
        #[trigger] t1[j]).id@ by {
            assert(t1[j] == t[j + 1] && t1[i] == t[i + 1]);
        }
        lemma_listing_order_is_unique(s1, t1);
        assert(s =~= seq![s[0]] + s1);
        assert(t =~= seq![t[0]] + t1);
    }
}

/// `a < b` for strings, by code point.
pub fn str_lt(a: &str, b: &str) -> (r: bool)
    ensures
        r == seq_lt(a@, b@),
{
    let x = chars_of(a);
    let y = chars_of(b);
    let mut i: usize = 0;
    assert(x@.skip(0) =~= x@);
    assert(y@.skip(0) =~= y@);
    loop
        invariant
            i <= x.len(),
            i <= y.len(),
            x@ == a@,
            y@ == b@,
            seq_lt(a@, b@) == seq_lt(x@.skip(i as int), y@.skip(i as int)),
        decreases x.len() - i,
    {
        if i == x.len() {
            return i < y.len();
        }
        if i == y.len() {
            return false;
        }
        assert(x@.skip(i as int)[0] == x@[i as int]);
        assert(y@.skip(i as int)[0] == y@[i as int]);
        if x[i] != y[i] {
            let cx = x[i];
            let cy = y[i];
            return cx < cy;
        }
        assert(x@.skip(i as int).drop_first() =~= x@.skip(i + 1));
        assert(y@.skip(i as int).drop_first() =~= y@.skip(i + 1));
        i += 1;
    }
}

fn listed_before_exec(a: &Conversation, b: &Conversation) -> (r: bool)
    ensures
        r == listed_before(*a, *b),
{
    if str_lt(b.updated_at.as_str(), a.updated_at.as_str()) {
        return true;
    }
    if b.updated_at != a.updated_at {
        return false;
    }
    if str_lt(b.created_at.as_str(), a.created_at.as_str()) {
        return true;
    }
    if b.created_at != a.created_at {
        return false;
    }
    str_lt(a.id.as_str(), b.id.as_str())
}

/// Puts conversations in listing order (see `listed_before`), keeping
/// every conversation exactly once.
pub fn sort_conversations(conversations: Vec<Conversation>) -> (sorted: Vec<Conversation>)
    ensures
        in_listing_order(sorted@),
        sorted@.to_multiset() == conversations@.to_multiset(),
{
    let mut remaining = conversations;
    let mut sorted: Vec<Conversation> = Vec::new();
    assert(sorted@.to_multiset().add(remaining@.to_multiset()) =~= conversations@.to_multiset());
    while remaining.len() > 0
        invariant
            in_listing_order(sorted@),
            sorted@.to_multiset().add(remaining@.to_multiset()) == conversations@.to_multiset(),
            forall|i: int, j: int|
                0 <= i < sorted@.len() && 0 <= j < remaining@.len() ==> !listed_before(
                    #[trigger] remaining@[j],
                    #[trigger] sorted@[i],
                ),
        decreases remaining.len(),
    {
        let mut best: usize = 0;
        let mut k: usize = 1;
        proof {
            lemma_listed_before_irreflexive(remaining@[0]);
        }
        while k < remaining.len()
            invariant
                0 <= best < k <= remaining.len(),
                forall|j: int| 0 <= j < k ==> !listed_before(#[trigger] remaining@[j], remaining@[best as int]),
            decreases remaining.len() - k,
        {
            if listed_before_exec(&remaining[k], &remaining[best]) {
                proof {
                    assert forall|j: int| 0 <= j < k + 1 implies !listed_before(
                        #[trigger] remaining@[j],
                        remaining@[k as int],
                    ) by {
                        if j < k && listed_before(remaining@[j], remaining@[k as int]) {
                            lemma_listed_before_transitive(
                                remaining@[j],
                                remaining@[k as int],
                                remaining@[best as int],
                            );
                        }
                        if j == k {
                            lemma_listed_before_irreflexive(remaining@[j]);
                        }
                    }
                }
                best = k;
            }
            k += 1;
        }
        let ghost old_remaining = remaining@;
        let ghost old_sorted = sorted@;
        let next = remaining.remove(best);
        assert(remaining@ == old_remaining.remove(best as int));
        sorted.push(next);
        proof {
            assert(old_sorted.push(next).to_multiset() == old_sorted.to_multiset().insert(next));
            assert(old_remaining.remove(best as int).to_multiset() == old_remaining.to_multiset().remove(
                next,
            ));
            assert(old_remaining.to_multiset().contains(next));
            assert(sorted@.to_multiset().add(remaining@.to_multiset()) =~= old_sorted.to_multiset().add(
                old_remaining.to_multiset(),
            ));
            assert forall|i: int, j: int| 0 <= i < j < sorted@.len() implies !listed_before(
                #[trigger] sorted@[j],
                #[trigger] sorted@[i],
            ) by {
                if j == sorted@.len() - 1 {
                    assert(sorted@[j] == old_remaining[best as int]);
                    assert(sorted@[i] == old_sorted[i]);
                } else {
                    assert(sorted@[j] == old_sorted[j]);
                    assert(sorted@[i] == old_sorted[i]);
                }
            }
            assert forall|i: int, j: int|
                0 <= i < sorted@.len() && 0 <= j < remaining@.len() implies !listed_before(
                #[trigger] remaining@[j],
                #[trigger] sorted@[i],
            ) by {
                let oj = if j < best {
                    j
                } else {
                    j + 1
                };
                assert(remaining@[j] == old_remaining[oj]);
                if i < old_sorted.len() {
                    assert(sorted@[i] == old_sorted[i]);
                } else {
                    assert(sorted@[i] == old_remaining[best as int]);
                }
            }
        }
    }
    assert(remaining@.to_multiset() =~= Multiset::<Conversation>::empty());
    assert(sorted@.to_multiset().add(remaining@.to_multiset()) =~= sorted@.to_multiset());
    sorted
}

} // verus!
