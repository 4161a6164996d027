use vstd::prelude::*;
use crate::runstate::strings_view;

verus! {

/// The characters with the Unicode `White_Space` property, which is what
/// `char::is_whitespace` tests.
pub open spec fn is_white(c: char) -> bool {
    ('\u{9}' <= c && c <= '\u{d}') || c == ' ' || c == '\u{85}' || c == '\u{a0}' || c == '\u{1680}'
        || ('\u{2000}' <= c && c <= '\u{200a}') || c == '\u{2028}' || c == '\u{2029}' || c
        == '\u{202f}' || c == '\u{205f}' || c == '\u{3000}'
}

pub fn is_white_char(c: char) -> (r: bool)
    ensures
        r == is_white(c),
{
    ('\u{9}' <= c && c <= '\u{d}') || c == ' ' || c == '\u{85}' || c == '\u{a0}' || c == '\u{1680}'
        || ('\u{2000}' <= c && c <= '\u{200a}') || c == '\u{2028}' || c == '\u{2029}' || c
        == '\u{202f}' || c == '\u{205f}' || c == '\u{3000}'
}

/// A line with nothing but whitespace in it (or nothing at all).
pub open spec fn blank(s: Seq<char>) -> bool {
    forall|i: int| 0 <= i < s.len() ==> is_white(#[trigger] s[i])
}

pub fn is_blank(s: &str) -> (r: bool)
    ensures
        r == blank(s@),
{
    let n = s.unicode_len();
    let mut i: usize = 0;
    while i < n
        invariant
            n == s@.len(),
            i <= n,
            forall|k: int| 0 <= k < i ==> is_white(#[trigger] s@[k]),
        decreases n - i,
    {
        if !is_white_char(s.get_char(i)) {
            return false;
        }
        i = i + 1;
    }
    true
}

/// The pieces of `s` between its newline characters, in order: one more
/// piece than there are newlines.
pub open spec fn pieces(s: Seq<char>) -> Seq<Seq<char>>
    decreases s.len(),
{
    if s.len() == 0 {
        seq![Seq::empty()]
    } else if s.last() == '\n' {
        pieces(s.drop_last()).push(Seq::empty())
    } else {
        let p = pieces(s.drop_last());
        p.update(p.len() - 1, p.last().push(s.last()))
    }
}

/// A piece that ended at a newline loses a carriage return just before it.
pub open spec fn strip_cr(l: Seq<char>) -> Seq<char> {
    if l.len() > 0 && l.last() == '\r' {
        l.drop_last()
    } else {
        l
    }
}

/// The lines of `s`: split at "\n" or "\r\n", with the line endings left
/// out; a final line ending adds no empty line.
pub open spec fn text_lines(s: Seq<char>) -> Seq<Seq<char>> {
    let p = pieces(s);
    let k = if p.last().len() == 0 {
        p.len() - 1
    } else {
        p.len() as int
    };
    Seq::new(
        k as nat,
        |i: int|
            if i < p.len() - 1 {
                strip_cr(p[i])
            } else {
                p[i]
            },
    )
}

/// Whether `pat` occurs in `s` as a run of consecutive characters.
pub open spec fn occurs_in(pat: Seq<char>, s: Seq<char>) -> bool {
    exists|i: int| 0 <= i && i + pat.len() <= s.len() && #[trigger] s.subrange(i, i + pat.len()) == pat
}

/// Relies on `str::lines`: the lines of `s`, split at "\n" or "\r\n", line
/// endings excluded, the final one optional.
#[verifier::external_body]
fn split_lines(s: &str) -> (r: Vec<String>)
    ensures
        strings_view(r@) == text_lines(s@),
{
    s.lines().map(str::to_string).collect()
}

/// Relies on `str::contains` with a string pattern: whether `pat` occurs in `s`.
#[verifier::external_body]
fn has_part(s: &str, pat: &str) -> (r: bool)
    ensures
        r == occurs_in(pat@, s@),
{
    s.contains(pat)
}

/// A preview line is kept when it is not blank and holds none of the noise markers.
pub open spec fn kept(l: Seq<char>, noise: Seq<Seq<char>>) -> bool {
    !blank(l) && forall|k: int| 0 <= k < noise.len() ==> !occurs_in(#[trigger] noise[k], l)
}

/// The preview list derived from raw preview output.
pub open spec fn preview_spec(raw: Seq<char>, noise: Seq<Seq<char>>) -> Seq<Seq<char>> {
    text_lines(raw).filter(|l: Seq<char>| kept(l, noise))
}

pub fn keep_line(line: &str, noise: &Vec<String>) -> (r: bool)
    ensures
        r == kept(line@, strings_view(noise@)),
{
    if is_blank(line) {
        return false;
    }
    let ghost nv = strings_view(noise@);
    let mut k: usize = 0;
    while k < noise.len()
        invariant
            k <= noise@.len(),
            nv == strings_view(noise@),
            forall|t: int| 0 <= t < k ==> !occurs_in(#[trigger] nv[t], line@),
        decreases noise@.len() - k,
    {
        if has_part(line, noise[k].as_str()) {
            assert(nv[k as int] == noise@[k as int]@);
            return false;
        }
        assert(nv[k as int] == noise@[k as int]@);
        k = k + 1;
    }
    true
}

/// The lines of `raw`, in order, without blank lines and without lines
/// that hold any of the `noise` markers.
pub fn preview_lines(raw: &str, noise: &Vec<String>) -> (r: Vec<String>)
    ensures
        strings_view(r@) == preview_spec(raw@, strings_view(noise@)),
{
    let lines = split_lines(raw);
    let ghost nv = strings_view(noise@);
    let ghost pred = |l: Seq<char>| kept(l, nv);
    let ghost all = strings_view(lines@);
    let mut out: Vec<String> = Vec::new();
    let mut i: usize = 0;
    while i < lines.len()
        invariant
            i <= lines@.len(),
            all == strings_view(lines@),
            nv == strings_view(noise@),
            pred == (|l: Seq<char>| kept(l, nv)),
            strings_view(out@) == all.take(i as int).filter(pred),
        decreases lines@.len() - i,
    {
        let ghost prev = out@;
        let keep = keep_line(lines[i].as_str(), noise);
        proof {
            assert(all.take(i + 1) =~= all.take(i as int).push(all[i as int]));
            all.take(i as int).lemma_filter_push(all[i as int], pred);
        }
        if keep {
            out.push(lines[i].clone());
            assert(strings_view(out@) =~= strings_view(prev).push(all[i as int]));
        }
        i = i + 1;
    }
    assert(all.take(lines@.len() as int) =~= all);
    out
}

/// What a preview run tells the operator.
pub enum Preview {
    /// Pending items, one per kept line (possibly none).
    Pending(Vec<String>),
    /// The probe printed no usable list but wrote this to standard error.
    Advisory(String),
    /// Nothing is pending.
    NothingPending,
}

/// Interprets a finished preview run: a successful exit with non-blank
/// output yields the filtered list; otherwise standard error, when there is
/// any, becomes an advisory; otherwise nothing is pending.
pub fn classify_probe(success: bool, stdout: &str, stderr: &str, noise: &Vec<String>) -> (r: Preview)
    ensures
        success && !blank(stdout@) ==> (r matches Preview::Pending(v) && strings_view(v@)
            == preview_spec(stdout@, strings_view(noise@))),
        !(success && !blank(stdout@)) && stderr@.len() > 0 ==> (r matches Preview::Advisory(m)
            && m@ == stderr@),
        !(success && !blank(stdout@)) && stderr@.len() == 0 ==> r is NothingPending,
{
    if success && !is_blank(stdout) {
        Preview::Pending(preview_lines(stdout, noise))
    } else if !stderr.is_empty() {
        Preview::Advisory(stderr.to_owned())
    } else {
        Preview::NothingPending
    }
}

} // verus!
