//! Identifiers and the time.
use crate::text::chars_of;
use vstd::prelude::*;
use vstd::string::*;

verus! {

/// A lowercase hexadecimal digit.
pub open spec fn is_hex(c: char) -> bool {
    '0' <= c <= '9' || 'a' <= c <= 'f'
}

/// A text of hexadecimal digits.
pub open spec fn all_hex(s: Seq<char>) -> bool {
    forall|i: int| 0 <= i < s.len() ==> is_hex(#[trigger] s[i])
}

/// A UUID as text: hexadecimal digits in five groups with hyphens between them.
pub open spec fn is_uuid_text(s: Seq<char>) -> bool {
    &&& s.len() == 36
    &&& forall|i: int|
        0 <= i < 36 ==> if i == 8 || i == 13 || i == 18 || i == 23 {
            #[trigger] s[i] == '-'
        } else {
            is_hex(s[i])
        }
}

/// `uuid::Uuid::new_v4` makes a random UUID, and its `to_string` writes it in lower case with
/// hyphens.
#[verifier::external_body]
fn new_uuid() -> (r: String)
    ensures
        is_uuid_text(r@),
{
    uuid::Uuid::new_v4().to_string()
}

/// `chrono::Utc::now` reads the clock, and `timestamp_millis` gives the milliseconds since the
/// start of 1970. Nothing is said of the result.
#[verifier::external_body]
pub(crate) fn now_millis() -> (r: i64) {
    chrono::Utc::now().timestamp_millis()
}

/// `s` without its hyphens.
pub open spec fn unhyphened(s: Seq<char>) -> Seq<char>
    decreases s.len(),
{
    if s.len() == 0 {
        Seq::empty()
    } else if s.last() == '-' {
        unhyphened(s.drop_last())
    } else {
        unhyphened(s.drop_last()).push(s.last())
    }
}

proof fn lemma_unhyphened_concat(a: Seq<char>, b: Seq<char>)
    ensures
        unhyphened(a + b) == unhyphened(a) + unhyphened(b),
    decreases b.len(),
{
    if b.len() == 0 {
        assert(a + b =~= a);
        assert(unhyphened(a) + Seq::empty() =~= unhyphened(a));
    } else {
        lemma_unhyphened_concat(a, b.drop_last());
        assert((a + b).drop_last() =~= a + b.drop_last());
        assert(unhyphened(a + b) =~= unhyphened(a) + unhyphened(b));
    }
}

proof fn lemma_unhyphened_hex(s: Seq<char>)
    requires
        all_hex(s),
    ensures
        unhyphened(s) == s,
    decreases s.len(),
{
    if s.len() > 0 {
        assert forall|i: int| 0 <= i < s.drop_last().len() implies is_hex(
            #[trigger] s.drop_last()[i],
        ) by {
            assert(s.drop_last()[i] == s[i]);
        }
        lemma_unhyphened_hex(s.drop_last());
        assert(is_hex(s[s.len() - 1]));
        assert(unhyphened(s) =~= s);
    }
}

proof fn lemma_unhyphened_uuid(s: Seq<char>)
    requires
        is_uuid_text(s),
    ensures
        unhyphened(s).len() == 32,
        all_hex(unhyphened(s)),
{
    let a = s.subrange(0, 8);
    let b = s.subrange(9, 13);
    let c = s.subrange(14, 18);
    let d = s.subrange(19, 23);
    let e = s.subrange(24, 36);
    let h = seq!['-'];
    assert(s =~= a + h + b + h + c + h + d + h + e);
    assert(unhyphened(h) =~= Seq::empty()) by {
        assert(h.drop_last() =~= Seq::empty());
        reveal_with_fuel(unhyphened, 2);
    }
    lemma_unhyphened_concat(a + h + b + h + c + h + d + h, e);
    lemma_unhyphened_concat(a + h + b + h + c + h + d, h);
    lemma_unhyphened_concat(a + h + b + h + c + h, d);
    lemma_unhyphened_concat(a + h + b + h + c, h);
    lemma_unhyphened_concat(a + h + b + h, c);
    lemma_unhyphened_concat(a + h + b, h);
    lemma_unhyphened_concat(a + h, b);
    lemma_unhyphened_concat(a, h);
    lemma_unhyphened_hex(a);
    lemma_unhyphened_hex(b);
    lemma_unhyphened_hex(c);
    lemma_unhyphened_hex(d);
    lemma_unhyphened_hex(e);
    assert(unhyphened(s) =~= a + b + c + d + e);
}

/// The identifier that `prefix` and the UUID `uuid` make.
pub fn tagged_id(prefix: &str, uuid: &str) -> (r: String)
    ensures
        r@ == prefix@ + unhyphened(uuid@),
{
    let mut out: String = prefix.to_owned();
    let chars = chars_of(uuid);
    let mut i: usize = 0;
    assert(out@ =~= prefix@ + unhyphened(uuid@.take(0)));
    while i < chars.len()
        invariant
            i <= chars@.len(),
            chars@ == uuid@,
            out@ == prefix@ + unhyphened(uuid@.take(i as int)),
        decreases chars@.len() - i,
    {
        assert(uuid@.take(i + 1).drop_last() == uuid@.take(i as int));
        if chars[i] != '-' {
            out.push(chars[i]);
        }
        assert(out@ =~= prefix@ + unhyphened(uuid@.take(i + 1)));
        i += 1;
    }
    assert(uuid@.take(uuid@.len() as int) == uuid@);
    out
}

/// An identifier with this prefix: hexadecimal digits follow it.
pub open spec fn is_tagged_id(id: Seq<char>, prefix: Seq<char>) -> bool {
    &&& prefix.is_prefix_of(id)
    &&& id.len() == prefix.len() + 32
    &&& all_hex(id.skip(prefix.len() as int))
}

fn new_tagged_id(prefix: &str) -> (r: String)
    ensures
        is_tagged_id(r@, prefix@),
{
    let uuid: String = new_uuid();
    proof {
        lemma_unhyphened_uuid(uuid@);
    }
    let r: String = tagged_id(prefix, uuid.as_str());
    assert(r@.skip(prefix@.len() as int) =~= unhyphened(uuid@));
    assert(prefix@.is_prefix_of(r@));
    r
}

/// A new identifier under which an exchange is logged.
pub fn new_trace_id() -> (r: String)
    ensures
        is_tagged_id(r@, "tr-"@),
{
    new_tagged_id("tr-")
}

/// A new identifier for a message.
pub fn new_message_id() -> (r: String)
    ensures
        is_tagged_id(r@, "msg_"@),
{
    new_tagged_id("msg_")
}

/// To take the hyphens out of a text leaves every other character, in its order.
pub proof fn law_only_hyphens_go(a: Seq<char>, b: Seq<char>, c: char)
    ensures
        unhyphened(a + b) == unhyphened(a) + unhyphened(b),
        unhyphened(seq!['-']) == Seq::<char>::empty(),
        c != '-' ==> unhyphened(seq![c]) == seq![c],
        unhyphened(Seq::empty()) == Seq::<char>::empty(),
{
    lemma_unhyphened_concat(a, b);
    reveal_with_fuel(unhyphened, 2);
    assert(seq!['-'].drop_last() =~= Seq::empty());
    assert(seq![c].drop_last() =~= Seq::empty());
    assert(Seq::<char>::empty().push(c) =~= seq![c]);
}

/// An identifier is its prefix and 32 hexadecimal digits in lower case.
pub proof fn law_identifier(id: Seq<char>, prefix: Seq<char>)
    ensures
        is_tagged_id(id, prefix) <==> exists|digits: Seq<char>|
            id == #[trigger] (prefix + digits) && digits.len() == 32 && forall|i: int|
                0 <= i < 32 ==> "0123456789abcdef"@.contains(#[trigger] digits[i]),
{
    reveal_strlit("0123456789abcdef");
    let set = "0123456789abcdef"@;
    assert forall|c: char| is_hex(c) implies #[trigger] set.contains(c) by {
        let k: int = if c <= '9' {
            (c as int) - ('0' as int)
        } else {
            (c as int) - ('a' as int) + 10
        };
        assert(0 <= k < 16);
        assert(set[k] == c);
    }
    assert forall|c: char| #[trigger] set.contains(c) implies is_hex(c) by {
        let k = choose|k: int| 0 <= k < set.len() && set[k] == c;
        assert(is_hex(set[k]));
    }
    if is_tagged_id(id, prefix) {
        let digits = id.skip(prefix.len() as int);
        assert(id =~= prefix + digits);
    }
    if exists|digits: Seq<char>|
        id == #[trigger] (prefix + digits) && digits.len() == 32 && forall|i: int|
            0 <= i < 32 ==> set.contains(#[trigger] digits[i]) {
        let digits = choose|digits: Seq<char>|
            id == #[trigger] (prefix + digits) && digits.len() == 32 && forall|i: int|
                0 <= i < 32 ==> set.contains(#[trigger] digits[i]);
        assert(id.skip(prefix.len() as int) =~= digits);
        assert(id.subrange(0, prefix.len() as int) =~= prefix);
        assert(all_hex(digits));
    }
}

} // verus!
