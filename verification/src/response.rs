//! Response normalization: the providers' structurally different response
//! shapes, reconciled into one ordered sequence of translation records.
//!
//! The response shapes are held as plain data. The unverified boundary decodes
//! a provider's JSON body into these shapes field for field; everything the
//! source text renders for a JSON string keeps its literal quote characters,
//! and a JSON null becomes `None`. Every decision — where the walk stops, what
//! is discarded, what lands in a record — is made here.

use vstd::prelude::*;

use crate::errors::MalformedResponseError;
use crate::text::{chars_to_string, replace_all, replace_chars, str_to_chars};

verus! {

/// One aligned unit of translation output: original-language span, translated
/// span, and the alternate translations offered for that span.
#[derive(Debug)]
pub struct TranslateResult {
    pub orig: String,
    pub trans: String,
    pub alter: Vec<String>,
}

/// A raw field value as extracted may keep the literal quote characters of
/// the underlying structured value; a record holds it with every such quote
/// removed.
pub open spec fn unquoted(s: Seq<char>) -> Seq<char> {
    replace_all(s, "\""@, Seq::<char>::empty())
}

/// Remove every double-quote character from a raw field value.
fn unquote(s: &str) -> (r: String)
    ensures
        r@ == unquoted(s@),
{
    let v = str_to_chars(s);
    let pat = str_to_chars("\"");
    let empty: Vec<char> = Vec::new();
    let out = replace_chars(&v, &pat, &empty);
    chars_to_string(&out)
}

/// One candidate tuple of the array-shape response: the translated span and
/// the original span, either of which may be the JSON null sentinel.
pub struct ArrayCandidate {
    pub trans: Option<String>,
    pub orig: Option<String>,
}

/// The array-shape response: the candidate tuples found in the response's
/// first element, in response order.
pub struct ArrayShapeResponse {
    pub candidates: Vec<ArrayCandidate>,
}

/// The candidate walk visits at most this many candidates, a safety cap
/// against a malformed or endless structure.
pub const MAX_ARRAY_CANDIDATES: usize = 100;

/// What an original span renders to: a JSON null renders as the word "null",
/// anything else keeps its text with quotes removed.
pub open spec fn orig_span(cand: ArrayCandidate) -> Seq<char> {
    match cand.orig {
        None => "null"@,
        Some(o) => unquoted(o@),
    }
}

/// The (translated, original) pairs the array-shape walk produces from a
/// candidate list, visiting at most `budget` candidates: the walk stops at
/// the first null-sentinel candidate, and a candidate whose translated span
/// is the single period — a splitter artifact — is discarded.
pub open spec fn array_pairs(c: Seq<ArrayCandidate>, budget: nat) -> Seq<(Seq<char>, Seq<char>)>
    decreases budget,
{
    if budget == 0 || c.len() == 0 {
        seq![]
    } else {
        match c[0].trans {
            None => seq![],
            Some(t) => {
                let rest = array_pairs(c.drop_first(), (budget - 1) as nat);
                if unquoted(t@) == "."@ {
                    rest
                } else {
                    seq![(unquoted(t@), orig_span(c[0]))] + rest
                }
            },
        }
    }
}

/// Whether `rs` holds exactly the pairs `ps`: record `i` carries translated
/// span `ps[i].0`, original span `ps[i].1` and no alternates.
pub open spec fn records_match(rs: Seq<TranslateResult>, ps: Seq<(Seq<char>, Seq<char>)>) -> bool {
    &&& rs.len() == ps.len()
    &&& forall|i: int|
        0 <= i < rs.len() ==> (#[trigger] rs[i]).trans@ == ps[i].0 && rs[i].orig@ == ps[i].1
            && rs[i].alter@.len() == 0
}

/// Normalize an array-shape response: walk the candidates in order until the
/// first null sentinel or the safety cap, discard bare-period artifacts, and
/// make one record, without alternates, of every candidate kept.
pub fn normalize_array(resp: &ArrayShapeResponse) -> (r: Vec<TranslateResult>)
    ensures
        records_match(r@, array_pairs(resp.candidates@, MAX_ARRAY_CANDIDATES as nat)),
        r@.len() <= MAX_ARRAY_CANDIDATES,
{
    let ghost c = resp.candidates@;
    let ghost target = array_pairs(c, MAX_ARRAY_CANDIDATES as nat);
    let mut out: Vec<TranslateResult> = Vec::new();
    let ghost mut done = Seq::<(Seq<char>, Seq<char>)>::empty();
    let mut i: usize = 0;
    let n = resp.candidates.len();
    proof {
        assert(c.skip(0) =~= c);
        assert(done + array_pairs(c, MAX_ARRAY_CANDIDATES as nat) =~= array_pairs(
            c,
            MAX_ARRAY_CANDIDATES as nat,
        ));
    }
    while i < n && i < MAX_ARRAY_CANDIDATES && resp.candidates[i].trans.is_some()
        invariant
            c == resp.candidates@,
            n == c.len(),
            i <= n,
            i <= MAX_ARRAY_CANDIDATES,
            out@.len() == done.len(),
            out@.len() <= i,
            target == done + array_pairs(c.skip(i as int), (MAX_ARRAY_CANDIDATES - i) as nat),
            records_match(out@, done),
        decreases n - i,
    {
        let ghost tail = c.skip(i as int);
        let ghost pre_done = done;
        let cand = &resp.candidates[i];
        let t = cand.trans.as_ref().unwrap();
        let st = unquote(t.as_str());
        proof {
            assert(tail[0] == c[i as int]);
            assert(tail.drop_first() =~= c.skip(i + 1));
        }
        let is_dot = st.unicode_len() == 1 && st.as_str().get_char(0) == '.';
        proof {
            reveal_strlit(".");
            assert("."@.len() == 1);
            if is_dot {
                assert(st@ =~= "."@);
            }
            assert(is_dot == (unquoted(t@) == "."@));
        }
        if !is_dot {
            let so = match &cand.orig {
                Some(o) => unquote(o.as_str()),
                None => String::from_str("null"),
            };
            let item = TranslateResult { trans: st, orig: so, alter: Vec::new() };
            out.push(item);
            proof {
                done = done.push((unquoted(t@), orig_span(c[i as int])));
                assert(pre_done + (seq![(unquoted(t@), orig_span(c[i as int]))] + array_pairs(
                    c.skip(i + 1),
                    (MAX_ARRAY_CANDIDATES - i - 1) as nat,
                )) =~= done + array_pairs(c.skip(i + 1), (MAX_ARRAY_CANDIDATES - i - 1) as nat));
            }
        }
        i = i + 1;
    }
    proof {
        let budget = (MAX_ARRAY_CANDIDATES - i) as nat;
        let tail = c.skip(i as int);
        if i == n {
            assert(tail.len() == 0);
            assert(array_pairs(tail, budget) =~= Seq::<(Seq<char>, Seq<char>)>::empty());
        } else if i == MAX_ARRAY_CANDIDATES {
            assert(budget == 0);
            assert(array_pairs(tail, budget) =~= Seq::<(Seq<char>, Seq<char>)>::empty());
        } else {
            assert(c[i as int].trans is None);
            assert(tail[0] == c[i as int]);
            assert(array_pairs(tail, budget) =~= Seq::<(Seq<char>, Seq<char>)>::empty());
        }
        assert(done + Seq::<(Seq<char>, Seq<char>)>::empty() =~= done);
    }
    out
}

/// One entry of the object-shape response's `sentences` list; a field is
/// `None` when the entry does not carry it.
pub struct SentenceEntry {
    pub trans: Option<String>,
    pub orig: Option<String>,
}

/// The object-shape response: the `sentences` list, and the candidate strings
/// of the first alternative-translations entry's `alternative` list, in
/// order. `alternatives` is `None` when that entry cannot be located at all.
pub struct ObjectShapeResponse {
    pub sentences: Vec<SentenceEntry>,
    pub alternatives: Option<Vec<String>>,
}

/// An object-shape response is malformed when the fields the one record is
/// built from are absent: no first sentence, a first sentence without both
/// spans, or no alternative-translations entry.
pub open spec fn object_malformed(resp: ObjectShapeResponse) -> bool {
    ||| resp.sentences@.len() == 0
    ||| resp.sentences@[0].trans is None
    ||| resp.sentences@[0].orig is None
    ||| resp.alternatives is None
}

/// The alternate list a record carries: every candidate but the first, quotes
/// removed. The first candidate duplicates the primary translation and is
/// skipped.
pub open spec fn alternates_of(alts: Seq<String>) -> Seq<Seq<char>> {
    if alts.len() == 0 {
        seq![]
    } else {
        Seq::new((alts.len() - 1) as nat, |j: int| unquoted(alts[j + 1]@))
    }
}

/// Whether `av` holds exactly the alternate spans `alts`.
pub open spec fn alternates_match(av: Seq<String>, alts: Seq<Seq<char>>) -> bool {
    &&& av.len() == alts.len()
    &&& forall|j: int| 0 <= j < av.len() ==> (#[trigger] av[j])@ == alts[j]
}

/// Normalize an object-shape response into exactly one record: primary
/// translated and original spans from the first sentence, alternates from
/// every alternative candidate but the first. Absent fields are a malformed
/// response, not a failure.
pub fn normalize_object(resp: &ObjectShapeResponse) -> (r: Result<
    Vec<TranslateResult>,
    MalformedResponseError,
>)
    ensures
        object_malformed(*resp) <==> r is Err,
        r matches Ok(v) ==> {
            &&& v@.len() == 1
            &&& v@[0].trans@ == unquoted(resp.sentences@[0].trans->0@)
            &&& v@[0].orig@ == unquoted(resp.sentences@[0].orig->0@)
            &&& alternates_match(v@[0].alter@, alternates_of(resp.alternatives->0@))
        },
{
    if resp.sentences.len() == 0 {
        return Err(MalformedResponseError);
    }
    let first = &resp.sentences[0];
    let (t, o) = match (&first.trans, &first.orig) {
        (Some(t), Some(o)) => (t, o),
        _ => {
            return Err(MalformedResponseError);
        },
    };
    let alts = match &resp.alternatives {
        Some(alts) => alts,
        None => {
            return Err(MalformedResponseError);
        },
    };
    let ghost alts_target = alternates_of(alts@);
    let mut alter: Vec<String> = Vec::new();
    let mut j: usize = 1;
    while j < alts.len()
        invariant
            alts_target == alternates_of(alts@),
            1 <= j,
            alts@.len() > 0 ==> j <= alts@.len(),
            alts@.len() == 0 ==> j == 1,
            alter@.len() == j - 1,
            forall|k: int| 0 <= k < alter@.len() ==> (#[trigger] alter@[k])@ == alts_target[k],
        decreases alts@.len() - j,
    {
        alter.push(unquote(alts[j].as_str()));
        j = j + 1;
    }
    let item = TranslateResult { trans: unquote(t.as_str()), orig: unquote(o.as_str()), alter };
    let mut out: Vec<TranslateResult> = Vec::new();
    out.push(item);
    Ok(out)
}

/// One translated span of the commercial provider's typed response.
pub struct Translation {
    pub detected_source_language: String,
    pub text: String,
}

/// The commercial provider's typed response: a list of translations.
pub struct DeepLResponse {
    pub translations: Vec<Translation>,
}

/// Normalize the commercial provider's response: one record per translation,
/// each carrying the sanitized request text as its original span and no
/// alternates.
pub fn normalize_deepl(resp: &DeepLResponse, sanitized: &str) -> (r: Vec<TranslateResult>)
    ensures
        r@.len() == resp.translations@.len(),
        forall|i: int|
            0 <= i < r@.len() ==> (#[trigger] r@[i]).trans@ == resp.translations@[i].text@
                && r@[i].orig@ == sanitized@ && r@[i].alter@.len() == 0,
{
    let mut out: Vec<TranslateResult> = Vec::new();
    let mut i: usize = 0;
    while i < resp.translations.len()
        invariant
            i <= resp.translations@.len(),
            out@.len() == i,
            forall|k: int|
                0 <= k < i ==> (#[trigger] out@[k]).trans@ == resp.translations@[k].text@
                    && out@[k].orig@ == sanitized@ && out@[k].alter@.len() == 0,
        decreases resp.translations@.len() - i,
    {
        let t = &resp.translations[i];
        let item = TranslateResult {
            trans: String::from_str(t.text.as_str()),
            orig: String::from_str(sanitized),
            alter: Vec::new(),
        };
        out.push(item);
        i = i + 1;
    }
    out
}

/// Everything one translate-and-render cycle hands the presenter: the
/// records, the proxy and theme the cycle ran with, how long the request
/// took, and the running sample index.
pub struct TranslateResults {
    pub results: Vec<TranslateResult>,
    pub proxy: String,
    pub theme: String,
    pub elapsed_ms: u64,
    pub index: usize,
}

/// All original spans of a record list, concatenated in order.
pub open spec fn concat_origs(rs: Seq<TranslateResult>) -> Seq<char>
    decreases rs.len(),
{
    if rs.len() == 0 {
        seq![]
    } else {
        rs[0].orig@ + concat_origs(rs.drop_first())
    }
}

/// All translated spans of a record list, concatenated in order.
pub open spec fn concat_trans(rs: Seq<TranslateResult>) -> Seq<char>
    decreases rs.len(),
{
    if rs.len() == 0 {
        seq![]
    } else {
        rs[0].trans@ + concat_trans(rs.drop_first())
    }
}

/// A string list, concatenated in order.
pub open spec fn concat_strings(ss: Seq<String>) -> Seq<char>
    decreases ss.len(),
{
    if ss.len() == 0 {
        seq![]
    } else {
        ss[0]@ + concat_strings(ss.drop_first())
    }
}

/// All alternate spans of a record list, record by record, concatenated in
/// order.
pub open spec fn concat_alters(rs: Seq<TranslateResult>) -> Seq<char>
    decreases rs.len(),
{
    if rs.len() == 0 {
        seq![]
    } else {
        concat_strings(rs[0].alter@) + concat_alters(rs.drop_first())
    }
}

/// Concatenate a string list in order.
fn join_string_list(ss: &Vec<String>) -> (r: String)
    ensures
        r@ == concat_strings(ss@),
{
    let mut r = String::new();
    let mut i: usize = 0;
    proof {
        assert(ss@.skip(0) =~= ss@);
        assert(r@ + concat_strings(ss@) =~= concat_strings(ss@));
    }
    while i < ss.len()
        invariant
            i <= ss@.len(),
            concat_strings(ss@) == r@ + concat_strings(ss@.skip(i as int)),
        decreases ss@.len() - i,
    {
        let ghost tail = ss@.skip(i as int);
        let ghost pre = r@;
        r.append(ss[i].as_str());
        proof {
            assert(tail[0] == ss@[i as int]);
            assert(tail.drop_first() =~= ss@.skip(i + 1));
            assert(pre + (ss@[i as int]@ + concat_strings(ss@.skip(i + 1))) =~= (pre
                + ss@[i as int]@) + concat_strings(ss@.skip(i + 1)));
        }
        i = i + 1;
    }
    proof {
        assert(ss@.skip(ss@.len() as int) =~= Seq::<String>::empty());
        assert(r@ + Seq::<char>::empty() =~= r@);
    }
    r
}

impl TranslateResults {
    /// Join the records into single original, translation and alternates
    /// lines, as the single-line presentation mode shows them.
    pub fn join_lines(&self) -> (r: (String, String, String))
        ensures
            r.0@ == concat_origs(self.results@),
            r.1@ == concat_trans(self.results@),
            r.2@ == concat_alters(self.results@),
    {
        let rs = &self.results;
        let mut orig_text = String::new();
        let mut trans_text = String::new();
        let mut alter_text = String::new();
        let mut i: usize = 0;
        proof {
            assert(rs@.skip(0) =~= rs@);
            assert(orig_text@ + concat_origs(rs@) =~= concat_origs(rs@));
            assert(trans_text@ + concat_trans(rs@) =~= concat_trans(rs@));
            assert(alter_text@ + concat_alters(rs@) =~= concat_alters(rs@));
        }
        while i < rs.len()
            invariant
                i <= rs@.len(),
                concat_origs(rs@) == orig_text@ + concat_origs(rs@.skip(i as int)),
                concat_trans(rs@) == trans_text@ + concat_trans(rs@.skip(i as int)),
                concat_alters(rs@) == alter_text@ + concat_alters(rs@.skip(i as int)),
            decreases rs@.len() - i,
        {
            let ghost tail = rs@.skip(i as int);
            let ghost pre_o = orig_text@;
            let ghost pre_t = trans_text@;
            let ghost pre_a = alter_text@;
            let v = &rs[i];
            orig_text.append(v.orig.as_str());
            trans_text.append(v.trans.as_str());
            let joined_alter = join_string_list(&v.alter);
            alter_text.append(joined_alter.as_str());
            proof {
                assert(tail[0] == rs@[i as int]);
                assert(tail.drop_first() =~= rs@.skip(i + 1));
                assert(pre_o + (rs@[i as int].orig@ + concat_origs(rs@.skip(i + 1))) =~= (pre_o
                    + rs@[i as int].orig@) + concat_origs(rs@.skip(i + 1)));
                assert(pre_t + (rs@[i as int].trans@ + concat_trans(rs@.skip(i + 1))) =~= (pre_t
                    + rs@[i as int].trans@) + concat_trans(rs@.skip(i + 1)));
                assert(pre_a + (concat_strings(rs@[i as int].alter@) + concat_alters(
                    rs@.skip(i + 1),
                )) =~= (pre_a + concat_strings(rs@[i as int].alter@)) + concat_alters(
                    rs@.skip(i + 1),
                ));
            }
            i = i + 1;
        }
        proof {
            assert(rs@.skip(rs@.len() as int) =~= Seq::<TranslateResult>::empty());
            assert(orig_text@ + Seq::<char>::empty() =~= orig_text@);
            assert(trans_text@ + Seq::<char>::empty() =~= trans_text@);
            assert(alter_text@ + Seq::<char>::empty() =~= alter_text@);
        }
        (orig_text, trans_text, alter_text)
    }
}

/// The index of the first null-sentinel candidate, or the list's length when
/// there is none.
pub open spec fn first_null(c: Seq<ArrayCandidate>) -> int
    decreases c.len(),
{
    if c.len() == 0 {
        0
    } else if c[0].trans is None {
        0
    } else {
        1 + first_null(c.drop_first())
    }
}

/// `first_null` names a position in the list, or its end.
pub proof fn lemma_first_null_bounds(c: Seq<ArrayCandidate>)
    ensures
        0 <= first_null(c) <= c.len(),
    decreases c.len(),
{
    if c.len() == 0 {
    } else if c[0].trans is None {
    } else {
        lemma_first_null_bounds(c.drop_first());
    }
}

/// The candidate walk never yields more records than its budget, whatever
/// the candidate list holds.
pub proof fn lemma_array_pairs_capped(c: Seq<ArrayCandidate>, budget: nat)
    ensures
        array_pairs(c, budget).len() <= budget,
    decreases budget,
{
    if budget == 0 || c.len() == 0 {
    } else {
        match c[0].trans {
            None => {},
            Some(t) => {
                lemma_array_pairs_capped(c.drop_first(), (budget - 1) as nat);
            },
        }
    }
}

/// The candidate walk stops at the first null sentinel: what stands beyond
/// it has no effect on the records.
pub proof fn lemma_array_pairs_stop_at_null(c: Seq<ArrayCandidate>, budget: nat)
    ensures
        array_pairs(c, budget) == array_pairs(c.take(first_null(c)), budget),
    decreases budget,
{
    lemma_first_null_bounds(c);
    if budget == 0 {
    } else if c.len() == 0 {
        assert(c.take(0).len() == 0);
    } else if c[0].trans is None {
        assert(c.take(0).len() == 0);
        assert(array_pairs(c.take(0), budget) =~= Seq::<(Seq<char>, Seq<char>)>::empty());
    } else {
        let rest = c.drop_first();
        lemma_first_null_bounds(rest);
        lemma_array_pairs_stop_at_null(rest, (budget - 1) as nat);
        let p = c.take(first_null(c));
        assert(p[0] == c[0]);
        assert(p.drop_first() =~= rest.take(first_null(rest)));
        assert(array_pairs(p, budget) == array_pairs(c, budget));
    }
}

/// No record the candidate walk yields carries the bare-period artifact as
/// its translated span.
pub proof fn lemma_array_pairs_no_period(c: Seq<ArrayCandidate>, budget: nat)
    ensures
        forall|i: int|
            0 <= i < array_pairs(c, budget).len() ==> (#[trigger] array_pairs(c, budget)[i]).0
                != "."@,
    decreases budget,
{
    if budget == 0 || c.len() == 0 {
    } else {
        match c[0].trans {
            None => {},
            Some(t) => {
                let rest = array_pairs(c.drop_first(), (budget - 1) as nat);
                lemma_array_pairs_no_period(c.drop_first(), (budget - 1) as nat);
                if unquoted(t@) != "."@ {
                    let whole = array_pairs(c, budget);
                    assert(whole == seq![(unquoted(t@), orig_span(c[0]))] + rest);
                    assert forall|i: int| 0 <= i < whole.len() implies (#[trigger] whole[i]).0
                        != "."@ by {
                        if i > 0 {
                            assert(whole[i] == rest[i - 1]);
                        }
                    }
                }
            },
        }
    }
}

/// The first alternative candidate is excluded from a record's alternates:
/// the alternates are exactly the later candidates, in order, and a first
/// candidate whose span recurs nowhere later does not appear at all.
pub proof fn lemma_alternates_exclude_first(alts: Seq<String>)
    requires
        alts.len() > 0,
        forall|j: int|
            1 <= j < alts.len() ==> unquoted((#[trigger] alts[j])@) != unquoted(alts[0]@),
    ensures
        alternates_of(alts).len() == alts.len() - 1,
        forall|j: int|
            0 <= j < alts.len() - 1 ==> #[trigger] alternates_of(alts)[j] == unquoted(
                alts[j + 1]@,
            ),
        !alternates_of(alts).contains(unquoted(alts[0]@)),
{
    let out = alternates_of(alts);
    assert forall|j: int| 0 <= j < out.len() implies #[trigger] out[j] != unquoted(
        alts[0]@,
    ) by {
        assert(out[j] == unquoted(alts[j + 1]@));
    }
    assert(!out.contains(unquoted(alts[0]@)));
}

} // verus!
