//! Text handling: character-level plumbing, the sanitizers applied before a
//! request is sent, and the `Text` sample taken from the system text source.
//!
//! All transformations are specified over `Seq<char>` views and executed over
//! `Vec<char>` buffers.

use vstd::prelude::*;

verus! {

/// Relies on `String::from(char)`: the returned string holds exactly the one
/// given character.
#[verifier::external_body]
fn char_to_string(c: char) -> (r: String)
    ensures
        r@ == seq![c],
{
    String::from(c)
}

/// The characters of `s`, in order, as a vector.
pub fn str_to_chars(s: &str) -> (v: Vec<char>)
    ensures
        v@ == s@,
{
    let n = s.unicode_len();
    let mut v: Vec<char> = Vec::new();
    let mut i: usize = 0;
    while i < n
        invariant
            n == s@.len(),
            i <= n,
            v@ == s@.take(i as int),
        decreases n - i,
    {
        v.push(s.get_char(i));
        proof {
            assert(s@.take(i + 1 as int) =~= s@.take(i as int).push(s@[i as int]));
        }
        i = i + 1;
    }
    proof {
        assert(s@.take(n as int) =~= s@);
    }
    v
}

/// The string holding the characters of `v`, in order.
pub fn chars_to_string(v: &Vec<char>) -> (r: String)
    ensures
        r@ == v@,
{
    let mut r = String::new();
    let mut i: usize = 0;
    while i < v.len()
        invariant
            i <= v@.len(),
            r@ == v@.take(i as int),
        decreases v@.len() - i,
    {
        let c = char_to_string(v[i]);
        r.append(c.as_str());
        proof {
            assert(v@.take(i + 1 as int) =~= v@.take(i as int).push(v@[i as int]));
        }
        i = i + 1;
    }
    proof {
        assert(v@.take(v@.len() as int) =~= v@);
    }
    r
}

/// Character-for-character string equality.
pub fn str_eq(a: &str, b: &str) -> (r: bool)
    ensures
        r == (a@ == b@),
{
    let na = a.unicode_len();
    let nb = b.unicode_len();
    if na != nb {
        return false;
    }
    let mut i: usize = 0;
    while i < na
        invariant
            na == a@.len(),
            na == b@.len(),
            i <= na,
            forall|k: int| 0 <= k < i ==> a@[k] == b@[k],
        decreases na - i,
    {
        if a.get_char(i) != b.get_char(i) {
            return false;
        }
        i = i + 1;
    }
    proof {
        assert(a@ =~= b@);
    }
    true
}

/// Whether the text contains a space character; presence of one selects the
/// sentence-wise (long, array-shape) request strategy.
pub fn contains_space(s: &str) -> (r: bool)
    ensures
        r == s@.contains(' '),
{
    let n = s.unicode_len();
    let mut i: usize = 0;
    while i < n
        invariant
            n == s@.len(),
            i <= n,
            forall|k: int| 0 <= k < i ==> s@[k] != ' ',
        decreases n - i,
    {
        if s.get_char(i) == ' ' {
            return true;
        }
        i = i + 1;
    }
    false
}

/// Whether a freshly sampled text is worth translating: it must be non-empty
/// and differ from the sample the previous cycle translated.
pub fn should_translate(current: &str, last: &str) -> (r: bool)
    ensures
        r == (current@.len() > 0 && current@ != last@),
{
    if current.unicode_len() == 0 {
        false
    } else {
        !str_eq(current, last)
    }
}

/// The result of replacing, left to right and without rescanning what was
/// already produced, each occurrence of `pat` in `s` by `rep`. `s` is returned
/// unchanged when `pat` is empty.
pub open spec fn replace_all(s: Seq<char>, pat: Seq<char>, rep: Seq<char>) -> Seq<char>
    decreases s.len(),
{
    if pat.len() == 0 || s.len() < pat.len() {
        s
    } else if s.take(pat.len() as int) == pat {
        rep + replace_all(s.skip(pat.len() as int), pat, rep)
    } else {
        seq![s[0]] + replace_all(s.drop_first(), pat, rep)
    }
}

/// Whether `pat` occurs in `s` starting at position `i`.
fn is_match_at(s: &Vec<char>, i: usize, pat: &Vec<char>) -> (r: bool)
    requires
        i + pat@.len() <= s@.len(),
    ensures
        r == (s@.subrange(i as int, i + pat@.len()) == pat@),
{
    let n = s.len();
    let mut j: usize = 0;
    while j < pat.len()
        invariant
            n == s@.len(),
            i + pat@.len() <= s@.len(),
            j <= pat@.len(),
            forall|k: int| 0 <= k < j ==> s@[i + k] == pat@[k],
        decreases pat@.len() - j,
    {
        proof {
            assert(i + j < n);
        }
        if s[i + j] != pat[j] {
            proof {
                assert(s@.subrange(i as int, i + pat@.len())[j as int] != pat@[j as int]);
            }
            return false;
        }
        j = j + 1;
    }
    proof {
        assert(s@.subrange(i as int, i + pat@.len()) =~= pat@);
    }
    true
}

/// Replace every occurrence of `pat` in `s` by `rep`, left to right.
pub fn replace_chars(s: &Vec<char>, pat: &Vec<char>, rep: &Vec<char>) -> (out: Vec<char>)
    ensures
        out@ == replace_all(s@, pat@, rep@),
{
    let mut out: Vec<char> = Vec::new();
    let mut i: usize = 0;
    proof {
        assert(s@.skip(0) =~= s@);
        assert(out@ + replace_all(s@, pat@, rep@) =~= replace_all(s@, pat@, rep@));
    }
    while i < s.len()
        invariant
            i <= s@.len(),
            replace_all(s@, pat@, rep@) == out@ + replace_all(s@.skip(i as int), pat@, rep@),
        decreases s@.len() - i,
    {
        let ghost tail = s@.skip(i as int);
        if pat.len() > 0 && pat.len() <= s.len() - i && is_match_at(s, i, pat) {
            let ghost pre = out@;
            let mut j: usize = 0;
            while j < rep.len()
                invariant
                    j <= rep@.len(),
                    out@ == pre + rep@.take(j as int),
                decreases rep@.len() - j,
            {
                out.push(rep[j]);
                proof {
                    assert(rep@.take(j + 1 as int) =~= rep@.take(j as int).push(rep@[j as int]));
                }
                j = j + 1;
            }
            proof {
                assert(rep@.take(rep@.len() as int) =~= rep@);
                assert(tail.take(pat@.len() as int) =~= s@.subrange(i as int, i + pat@.len()));
                assert(tail.skip(pat@.len() as int) =~= s@.skip(i + pat@.len()));
                assert(replace_all(tail, pat@, rep@) == rep@ + replace_all(
                    s@.skip(i + pat@.len()),
                    pat@,
                    rep@,
                ));
                assert(pre + (rep@ + replace_all(s@.skip(i + pat@.len()), pat@, rep@)) =~= (pre
                    + rep@) + replace_all(s@.skip(i + pat@.len()), pat@, rep@));
            }
            i = i + pat.len();
        } else {
            let ghost pre = out@;
            out.push(s[i]);
            proof {
                assert(tail.drop_first() =~= s@.skip(i + 1));
                assert(tail =~= seq![s@[i as int]] + s@.skip(i + 1));
                if pat@.len() == 0 {
                    assert(replace_all(tail, pat@, rep@) == tail);
                    assert(replace_all(s@.skip(i + 1), pat@, rep@) == s@.skip(i + 1));
                } else if tail.len() < pat@.len() {
                    assert(replace_all(tail, pat@, rep@) == tail);
                    assert(s@.skip(i + 1).len() < pat@.len());
                    assert(replace_all(s@.skip(i + 1), pat@, rep@) == s@.skip(i + 1));
                } else {
                    assert(tail.take(pat@.len() as int) =~= s@.subrange(i as int, i + pat@.len()));
                    assert(replace_all(tail, pat@, rep@) == seq![tail[0]] + replace_all(
                        tail.drop_first(),
                        pat@,
                        rep@,
                    ));
                }
                assert(replace_all(tail, pat@, rep@) == seq![s@[i as int]] + replace_all(
                    s@.skip(i + 1),
                    pat@,
                    rep@,
                ));
                assert(pre + (seq![s@[i as int]] + replace_all(s@.skip(i + 1), pat@, rep@)) =~= (pre
                    + seq![s@[i as int]]) + replace_all(s@.skip(i + 1), pat@, rep@));
                assert(out@ =~= pre + seq![s@[i as int]]);
            }
            i = i + 1;
        }
    }
    proof {
        assert(s@.skip(s@.len() as int) =~= Seq::<char>::empty());
        assert(out@ + Seq::<char>::empty() =~= out@);
    }
    out
}

/// Long-mode sanitization: the period of every occurrence of "al." is dropped,
/// so the upstream sentence splitter does not take the abbreviation for a
/// sentence boundary. Nothing else changes.
pub open spec fn long_sanitized(s: Seq<char>) -> Seq<char> {
    replace_all(s, "al."@, "al"@)
}

/// Long-mode sanitizer.
pub fn fliter_long(input: &str) -> (r: String)
    ensures
        r@ == long_sanitized(input@),
{
    let s = str_to_chars(input);
    let pat = str_to_chars("al.");
    let rep = str_to_chars("al");
    let out = replace_chars(&s, &pat, &rep);
    proof {
        reveal_strlit("al.");
        reveal_strlit("al");
        assert(pat@ =~= "al."@);
        assert(rep@ =~= "al"@);
    }
    chars_to_string(&out)
}

/// The punctuation and quotation characters stripped by short-mode
/// sanitization: ASCII sentence punctuation and the corresponding full-width
/// CJK forms.
pub open spec fn is_short_punct(c: char) -> bool {
    ||| c == '.'
    ||| c == ','
    ||| c == '?'
    ||| c == '!'
    ||| c == ':'
    ||| c == '"'
    ||| c == '('
    ||| c == ')'
    ||| c == '<'
    ||| c == '>'
    ||| c == '\u{201C}'
    ||| c == '\u{201D}'
    ||| c == '\u{3002}'
    ||| c == '\u{FF0C}'
    ||| c == '\u{FF1A}'
    ||| c == '\u{FF08}'
    ||| c == '\u{FF09}'
    ||| c == '\u{300A}'
    ||| c == '\u{300B}'
}

/// Short-mode sanitization: every character of the fixed punctuation set is
/// removed; all other characters stay, in order.
pub open spec fn short_sanitized(s: Seq<char>) -> Seq<char>
    decreases s.len(),
{
    if s.len() == 0 {
        Seq::empty()
    } else if is_short_punct(s[0]) {
        short_sanitized(s.drop_first())
    } else {
        seq![s[0]] + short_sanitized(s.drop_first())
    }
}

fn is_short_punct_exec(c: char) -> (r: bool)
    ensures
        r == is_short_punct(c),
{
    c == '.' || c == ',' || c == '?' || c == '!' || c == ':' || c == '"' || c == '(' || c == ')'
        || c == '<' || c == '>' || c == '\u{201C}' || c == '\u{201D}' || c == '\u{3002}'
        || c == '\u{FF0C}' || c == '\u{FF1A}' || c == '\u{FF08}' || c == '\u{FF09}'
        || c == '\u{300A}' || c == '\u{300B}'
}

/// Short-mode sanitizer.
pub fn fliter_short(input: &str) -> (r: String)
    ensures
        r@ == short_sanitized(input@),
{
    let s = str_to_chars(input);
    let mut out: Vec<char> = Vec::new();
    let mut i: usize = 0;
    proof {
        assert(s@.skip(0) =~= s@);
        assert(out@ + short_sanitized(s@) =~= short_sanitized(s@));
    }
    while i < s.len()
        invariant
            i <= s@.len(),
            short_sanitized(s@) == out@ + short_sanitized(s@.skip(i as int)),
        decreases s@.len() - i,
    {
        let ghost tail = s@.skip(i as int);
        let ghost pre = out@;
        let c = s[i];
        if !is_short_punct_exec(c) {
            out.push(c);
        }
        proof {
            assert(tail.drop_first() =~= s@.skip(i + 1));
            assert(tail[0] == s@[i as int]);
            if is_short_punct(s@[i as int]) {
                assert(short_sanitized(tail) == short_sanitized(s@.skip(i + 1)));
            } else {
                assert(short_sanitized(tail) == seq![s@[i as int]] + short_sanitized(
                    s@.skip(i + 1),
                ));
                assert(pre + (seq![s@[i as int]] + short_sanitized(s@.skip(i + 1))) =~= (pre
                    + seq![s@[i as int]]) + short_sanitized(s@.skip(i + 1)));
                assert(out@ =~= pre + seq![s@[i as int]]);
            }
        }
        i = i + 1;
    }
    proof {
        assert(s@.skip(s@.len() as int) =~= Seq::<char>::empty());
        assert(short_sanitized(Seq::<char>::empty()) == Seq::<char>::empty());
        assert(out@ + Seq::<char>::empty() =~= out@);
    }
    chars_to_string(&out)
}

/// The whitespace characters recognized when a sample is trimmed: the
/// Unicode white-space set, from the ASCII controls and space through the
/// no-break and typographic spaces to the line, paragraph and ideographic
/// separators.
pub open spec fn is_space_char(c: char) -> bool {
    ||| c == '\t'
    ||| c == '\n'
    ||| c == '\u{000B}'
    ||| c == '\u{000C}'
    ||| c == '\r'
    ||| c == ' '
    ||| c == '\u{0085}'
    ||| c == '\u{00A0}'
    ||| c == '\u{1680}'
    ||| c == '\u{2000}'
    ||| c == '\u{2001}'
    ||| c == '\u{2002}'
    ||| c == '\u{2003}'
    ||| c == '\u{2004}'
    ||| c == '\u{2005}'
    ||| c == '\u{2006}'
    ||| c == '\u{2007}'
    ||| c == '\u{2008}'
    ||| c == '\u{2009}'
    ||| c == '\u{200A}'
    ||| c == '\u{2028}'
    ||| c == '\u{2029}'
    ||| c == '\u{202F}'
    ||| c == '\u{205F}'
    ||| c == '\u{3000}'
}

/// `s` without its leading whitespace.
pub open spec fn trimmed_start(s: Seq<char>) -> Seq<char>
    decreases s.len(),
{
    if s.len() > 0 && is_space_char(s[0]) {
        trimmed_start(s.drop_first())
    } else {
        s
    }
}

/// `s` without its trailing whitespace.
pub open spec fn trimmed_end(s: Seq<char>) -> Seq<char>
    decreases s.len(),
{
    if s.len() > 0 && is_space_char(s.last()) {
        trimmed_end(s.drop_last())
    } else {
        s
    }
}

/// `s` without leading and trailing whitespace.
pub open spec fn trimmed(s: Seq<char>) -> Seq<char> {
    trimmed_end(trimmed_start(s))
}

fn is_space_char_exec(c: char) -> (r: bool)
    ensures
        r == is_space_char(c),
{
    c == '\t' || c == '\n' || c == '\u{000B}' || c == '\u{000C}' || c == '\r' || c == ' '
        || c == '\u{0085}' || c == '\u{00A0}' || c == '\u{1680}' || c == '\u{2000}'
        || c == '\u{2001}' || c == '\u{2002}' || c == '\u{2003}' || c == '\u{2004}'
        || c == '\u{2005}' || c == '\u{2006}' || c == '\u{2007}' || c == '\u{2008}'
        || c == '\u{2009}' || c == '\u{200A}' || c == '\u{2028}' || c == '\u{2029}'
        || c == '\u{202F}' || c == '\u{205F}' || c == '\u{3000}'
}

/// Remove leading and trailing whitespace from a character buffer.
fn trim_chars(v: &Vec<char>) -> (out: Vec<char>)
    ensures
        out@ == trimmed(v@),
{
    let n = v.len();
    let mut a: usize = 0;
    proof {
        assert(v@.skip(0) =~= v@);
    }
    while a < n && is_space_char_exec(v[a])
        invariant
            n == v@.len(),
            a <= n,
            trimmed_start(v@) == trimmed_start(v@.skip(a as int)),
        decreases n - a,
    {
        proof {
            let tail = v@.skip(a as int);
            assert(tail[0] == v@[a as int]);
            assert(tail.drop_first() =~= v@.skip(a + 1));
        }
        a = a + 1;
    }
    proof {
        let tail = v@.skip(a as int);
        if tail.len() > 0 {
            assert(tail[0] == v@[a as int]);
        }
        assert(trimmed_start(v@) == tail);
    }
    let mut b: usize = n;
    proof {
        assert(v@.skip(a as int).take(n - a) =~= v@.skip(a as int));
    }
    while b > a && is_space_char_exec(v[b - 1])
        invariant
            n == v@.len(),
            a <= b <= n,
            trimmed_end(v@.skip(a as int)) == trimmed_end(v@.skip(a as int).take(b - a)),
        decreases b,
    {
        proof {
            let part = v@.skip(a as int).take(b - a);
            assert(part.last() == v@[b - 1]);
            assert(part.drop_last() =~= v@.skip(a as int).take(b - 1 - a));
        }
        b = b - 1;
    }
    proof {
        let part = v@.skip(a as int).take(b - a);
        if part.len() > 0 {
            assert(part.last() == v@[b - 1]);
        }
        assert(trimmed_end(v@.skip(a as int)) == part);
        assert(part =~= v@.subrange(a as int, b as int));
    }
    let mut out: Vec<char> = Vec::new();
    let mut i: usize = a;
    while i < b
        invariant
            a <= i <= b <= n,
            n == v@.len(),
            out@ == v@.subrange(a as int, i as int),
        decreases b - i,
    {
        out.push(v[i]);
        proof {
            assert(v@.subrange(a as int, i + 1 as int) =~= v@.subrange(a as int, i as int).push(
                v@[i as int],
            ));
        }
        i = i + 1;
    }
    out
}

/// `s` without a single leading occurrence of `c`, if one is there.
pub open spec fn without_leading(s: Seq<char>, c: char) -> Seq<char> {
    if s.len() > 0 && s[0] == c {
        s.drop_first()
    } else {
        s
    }
}

/// What `Text::filter` makes of a raw sample: trim it, drop one leading
/// period and one leading comma, join hyphenated line breaks, escape the
/// query-delimiter characters `%`, `&` and `#`, turn the remaining line
/// breaks into spaces, and trim again.
pub open spec fn filtered_text(s: Seq<char>) -> Seq<char> {
    let t0 = trimmed(s);
    let t1 = without_leading(t0, '.');
    let t2 = without_leading(t1, ',');
    let t3 = replace_all(t2, "-\n"@, Seq::<char>::empty());
    let t4 = replace_all(t3, "%"@, "%25"@);
    let t5 = replace_all(t4, "&"@, "%26"@);
    let t6 = replace_all(t5, "#"@, "%23"@);
    let t7 = replace_all(t6, "\n"@, " "@);
    trimmed(t7)
}

/// One sample of system text, cleaned up and ready to translate.
pub struct Text {
    pub content: String,
}

impl Text {
    /// Wrap an already-filtered sample.
    pub fn new(content: &str) -> (t: Text)
        ensures
            t.content@ == content@,
    {
        let content = String::from_str(content);
        Text { content }
    }

    /// Clean up a raw sample as `filtered_text` describes.
    pub fn filter(content: &str) -> (r: String)
        ensures
            r@ == filtered_text(content@),
    {
        let v = str_to_chars(content);
        let t = trim_chars(&v);
        let t = strip_leading_char(&t, '.');
        let t = strip_leading_char(&t, ',');
        let pat_break = str_to_chars("-\n");
        let empty: Vec<char> = Vec::new();
        let t = replace_chars(&t, &pat_break, &empty);
        let pat_pct = str_to_chars("%");
        let rep_pct = str_to_chars("%25");
        let t = replace_chars(&t, &pat_pct, &rep_pct);
        let pat_amp = str_to_chars("&");
        let rep_amp = str_to_chars("%26");
        let t = replace_chars(&t, &pat_amp, &rep_amp);
        let pat_hash = str_to_chars("#");
        let rep_hash = str_to_chars("%23");
        let t = replace_chars(&t, &pat_hash, &rep_hash);
        let pat_nl = str_to_chars("\n");
        let rep_sp = str_to_chars(" ");
        let t = replace_chars(&t, &pat_nl, &rep_sp);
        let t = trim_chars(&t);
        chars_to_string(&t)
    }
}

/// Remove a single leading occurrence of `c` from the buffer, if one is there.
fn strip_leading_char(v: &Vec<char>, c: char) -> (out: Vec<char>)
    ensures
        out@ == without_leading(v@, c),
{
    let mut out: Vec<char> = Vec::new();
    let start: usize = if v.len() > 0 && v[0] == c {
        1
    } else {
        0
    };
    let mut i: usize = start;
    while i < v.len()
        invariant
            start <= i <= v@.len(),
            out@ == v@.subrange(start as int, i as int),
        decreases v@.len() - i,
    {
        out.push(v[i]);
        proof {
            assert(v@.subrange(start as int, i + 1 as int) =~= v@.subrange(
                start as int,
                i as int,
            ).push(v@[i as int]));
        }
        i = i + 1;
    }
    proof {
        if v@.len() > 0 && v@[0] == c {
            assert(v@.subrange(1, v@.len() as int) =~= v@.drop_first());
        } else {
            assert(v@.subrange(0, v@.len() as int) =~= v@);
        }
    }
    out
}

} // verus!
