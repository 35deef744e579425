//! Verified text utilities shared by every probe.
//!
//! The probed tools emit free-form text; all of the library's normalization
//! rules are built from the small set of operations here: splitting into
//! lines, fields and whitespace-separated tokens, substring search, trimming,
//! joining, and unsigned decimal parsing.  Each executable function is
//! specified against a spec-level function on `Seq<char>`.

use vstd::prelude::*;

verus! {

/// The ASCII spacing characters that the probed tools emit between fields.
/// Trimming and tokenization are deliberately defined over these four
/// alone: a non-ASCII Unicode blank is treated as an ordinary character.
pub open spec fn is_blank(c: char) -> bool {
    c == ' ' || c == '\t' || c == '\r' || c == '\n'
}

/// The view of an optional raw output: what a tool produced, or nothing
/// where the tool could not be run at all.
pub open spec fn opt_text_view(o: Option<&str>) -> Option<Seq<char>> {
    match o {
        Some(s) => Some(s@),
        None => None,
    }
}

/// Runtime check mirroring `is_blank`.
pub fn blank_char(c: char) -> (r: bool)
    ensures
        r == is_blank(c),
{
    c == ' ' || c == '\t' || c == '\r' || c == '\n'
}

/// The segments of `s` between occurrences of `sep`, empty segments kept:
/// splitting the empty sequence yields one empty segment, and every
/// occurrence of `sep` ends the current segment and starts a new one.
pub open spec fn split_at_sep(s: Seq<char>, sep: char) -> Seq<Seq<char>>
    decreases s.len(),
{
    if s.len() == 0 {
        seq![Seq::<char>::empty()]
    } else {
        let r = split_at_sep(s.drop_last(), sep);
        if s.last() == sep {
            r.push(Seq::<char>::empty())
        } else {
            r.update(r.len() - 1, r.last().push(s.last()))
        }
    }
}

pub proof fn lemma_split_at_sep_len(s: Seq<char>, sep: char)
    ensures
        split_at_sep(s, sep).len() >= 1,
    decreases s.len(),
{
    if s.len() > 0 {
        lemma_split_at_sep_len(s.drop_last(), sep);
    }
}

/// Split `s` on every occurrence of `sep`, keeping empty segments, as the
/// standard `split` of a pattern character does.
pub fn split_on_char(s: &str, sep: char) -> (r: Vec<String>)
    ensures
        r.deep_view() == split_at_sep(s@, sep),
{
    let n = s.unicode_len();
    let mut r: Vec<String> = Vec::new();
    let mut start: usize = 0;
    let mut i: usize = 0;
    proof {
        assert(s@.subrange(0, 0) =~= Seq::<char>::empty());
        assert(s@.take(0) =~= Seq::<char>::empty());
        assert(r.deep_view() =~= Seq::<Seq<char>>::empty());
        assert(r.deep_view().push(s@.subrange(0, 0)) =~= seq![Seq::<char>::empty()]);
    }
    while i < n
        invariant
            n == s@.len(),
            start <= i <= n,
            r.deep_view().push(s@.subrange(start as int, i as int)) == split_at_sep(
                s@.take(i as int),
                sep,
            ),
        decreases n - i,
    {
        proof {
            assert(s@.take(i + 1).drop_last() =~= s@.take(i as int));
            lemma_split_at_sep_len(s@.take(i as int), sep);
        }
        let c = s.get_char(i);
        if c == sep {
            let piece = s.substring_char(start, i).to_owned();
            r.push(piece);
            start = i + 1;
            proof {
                assert(s@.subrange(start as int, i + 1) =~= Seq::<char>::empty());
            }
        } else {
            proof {
                let old_last = s@.subrange(start as int, i as int);
                assert(old_last.push(s@[i as int]) =~= s@.subrange(start as int, i + 1));
                assert(split_at_sep(s@.take(i as int), sep).last() == old_last);
            }
        }
        i += 1;
    }
    proof {
        assert(s@.take(n as int) =~= s@);
    }
    let piece = s.substring_char(start, n).to_owned();
    r.push(piece);
    r
}

/// A line with a terminating carriage return removed, so that the
/// separator `"\r\n"` counts as a single line ending.
pub open spec fn strip_cr(line: Seq<char>) -> Seq<char> {
    if line.len() > 0 && line.last() == '\r' {
        line.drop_last()
    } else {
        line
    }
}

/// Each newline-terminated segment with its terminating carriage return
/// removed, in order.
pub open spec fn stripped_lines(lines: Seq<Seq<char>>) -> Seq<Seq<char>>
    decreases lines.len(),
{
    if lines.len() == 0 {
        Seq::<Seq<char>>::empty()
    } else {
        stripped_lines(lines.drop_last()).push(strip_cr(lines.last()))
    }
}

pub proof fn lemma_stripped_lines_len(lines: Seq<Seq<char>>)
    ensures
        stripped_lines(lines).len() == lines.len(),
    decreases lines.len(),
{
    if lines.len() > 0 {
        lemma_stripped_lines_len(lines.drop_last());
    }
}

/// The lines of `s`, as the standard `lines` iterator gives them: segments
/// between newlines, a `"\r\n"` sequence counting as one line ending, and
/// a trailing line ending not opening a final empty line.  A carriage
/// return not followed by a newline stays in its line.
pub open spec fn lines_of(s: Seq<char>) -> Seq<Seq<char>> {
    let raw = split_at_sep(s, '\n');
    let full = stripped_lines(raw.drop_last());
    if raw.last().len() == 0 {
        full
    } else {
        full.push(raw.last())
    }
}

pub proof fn lemma_lines_nonempty(s: Seq<char>)
    requires
        s.len() > 0,
    ensures
        lines_of(s).len() >= 1,
{
    let raw = split_at_sep(s, '\n');
    lemma_split_at_sep_len(s.drop_last(), '\n');
    if raw.last().len() == 0 {
        lemma_stripped_lines_len(raw.drop_last());
    }
}

/// Remove one terminating carriage return, where the line carries one.
fn strip_cr_line(line: &String) -> (r: String)
    ensures
        r@ == strip_cr(line@),
{
    let n = line.as_str().unicode_len();
    if n > 0 && line.as_str().get_char(n - 1) == '\r' {
        let r = line.as_str().substring_char(0, n - 1).to_owned();
        proof {
            assert(line@.subrange(0, n - 1) =~= line@.drop_last());
        }
        r
    } else {
        line.clone()
    }
}

/// Split `s` into its lines.
pub fn split_lines(s: &str) -> (r: Vec<String>)
    ensures
        r.deep_view() == lines_of(s@),
{
    let raw = split_on_char(s, '\n');
    proof {
        lemma_split_at_sep_len(s@, '\n');
        assert(raw.deep_view().len() == raw@.len());
    }
    let k = raw.len();
    let mut r: Vec<String> = Vec::new();
    let mut i: usize = 0;
    proof {
        assert(raw.deep_view().take(0) =~= Seq::<Seq<char>>::empty());
        assert(r.deep_view() =~= Seq::<Seq<char>>::empty());
    }
    while i < k - 1
        invariant
            1 <= k == raw@.len(),
            i <= k - 1,
            raw.deep_view().len() == raw@.len(),
            raw.deep_view() == split_at_sep(s@, '\n'),
            r.deep_view() == stripped_lines(raw.deep_view().take(i as int)),
        decreases k - i,
    {
        proof {
            assert(raw.deep_view().take(i + 1).drop_last() =~= raw.deep_view().take(i as int));
            assert(raw.deep_view().take(i + 1).last() == raw@[i as int]@);
        }
        let ghost prev = r.deep_view();
        let line = strip_cr_line(&raw[i]);
        r.push(line);
        proof {
            assert(r.deep_view() =~= prev.push(strip_cr(raw@[i as int]@)));
        }
        i += 1;
    }
    proof {
        assert(raw.deep_view().take(k - 1) =~= raw.deep_view().drop_last());
        assert(raw.deep_view().last() == raw@[k - 1]@);
    }
    if raw[k - 1].as_str().unicode_len() > 0 {
        let ghost prev = r.deep_view();
        let piece = raw[k - 1].clone();
        r.push(piece);
        proof {
            assert(r.deep_view() =~= prev.push(raw.deep_view().last()));
        }
    }
    r
}

/// The whitespace-separated tokens of `s`: maximal runs of characters that
/// are not ASCII blanks (see `is_blank`), in order.
pub open spec fn tokens_of(s: Seq<char>) -> Seq<Seq<char>>
    decreases s.len(),
{
    if s.len() == 0 {
        Seq::<Seq<char>>::empty()
    } else {
        let r = tokens_of(s.drop_last());
        if is_blank(s.last()) {
            r
        } else if s.len() == 1 || is_blank(s[s.len() - 2]) {
            r.push(seq![s.last()])
        } else {
            r.update(r.len() - 1, r.last().push(s.last()))
        }
    }
}

/// Split `s` into whitespace-separated tokens.
pub fn split_tokens(s: &str) -> (r: Vec<String>)
    ensures
        r.deep_view() == tokens_of(s@),
{
    let n = s.unicode_len();
    let mut r: Vec<String> = Vec::new();
    let mut start: usize = 0;
    let mut i: usize = 0;
    proof {
        assert(s@.take(0) =~= Seq::<char>::empty());
        assert(r.deep_view() =~= Seq::<Seq<char>>::empty());
    }
    while i < n
        invariant
            n == s@.len(),
            start <= i <= n,
            start == i ==> r.deep_view() == tokens_of(s@.take(i as int)) && (i == 0 || is_blank(
                s@[i - 1],
            )),
            start < i ==> r.deep_view().push(s@.subrange(start as int, i as int)) == tokens_of(
                s@.take(i as int),
            ) && !is_blank(s@[i - 1]),
        decreases n - i,
    {
        proof {
            assert(s@.take(i + 1).drop_last() =~= s@.take(i as int));
            assert(s@.take(i + 1).last() == s@[i as int]);
        }
        let c = s.get_char(i);
        if blank_char(c) {
            if start < i {
                let piece = s.substring_char(start, i).to_owned();
                r.push(piece);
            }
            start = i + 1;
        } else {
            if start == i {
                proof {
                    assert(s@.subrange(i as int, i + 1) =~= seq![s@[i as int]]);
                }
            } else {
                proof {
                    let dv = r.deep_view();
                    let pending = s@.subrange(start as int, i as int);
                    assert(tokens_of(s@.take(i as int)).last() == pending);
                    assert(tokens_of(s@.take(i as int)).len() == dv.len() + 1);
                    assert(dv.push(pending).update(dv.len() as int, pending.push(s@[i as int]))
                        =~= dv.push(pending.push(s@[i as int])));
                    assert(pending.push(s@[i as int]) =~= s@.subrange(start as int, i + 1));
                }
            }
        }
        i += 1;
    }
    proof {
        assert(s@.take(n as int) =~= s@);
    }
    if start < n {
        let piece = s.substring_char(start, n).to_owned();
        r.push(piece);
    }
    r
}

/// `pat` occurs in `hay` as a contiguous run, at any position.
pub open spec fn has_sub(hay: Seq<char>, pat: Seq<char>) -> bool {
    exists|k: int|
        0 <= k <= hay.len() - pat.len() && #[trigger] hay.subrange(k, k + pat.len() as int)
            == pat
}

/// `s` begins with `p`.
pub open spec fn has_prefix(s: Seq<char>, p: Seq<char>) -> bool {
    p.len() <= s.len() && s.subrange(0, p.len() as int) == p
}

/// Whether `pat` matches `hay` starting at position `k`.
pub fn matches_at(hay: &str, pat: &str, k: usize) -> (r: bool)
    requires
        k + pat@.len() <= hay@.len(),
    ensures
        r == (hay@.subrange(k as int, k + pat@.len() as int) == pat@),
{
    let hn = hay.unicode_len();
    let pn = pat.unicode_len();
    let mut j: usize = 0;
    while j < pn
        invariant
            hn == hay@.len(),
            pn == pat@.len(),
            k + pn <= hay@.len(),
            j <= pn,
            forall|jj: int| 0 <= jj < j ==> hay@[k + jj] == pat@[jj],
        decreases pn - j,
    {
        if s_get(hay, k + j) != s_get(pat, j) {
            proof {
                let piece = hay@.subrange(k as int, k + pn as int);
                assert(piece[j as int] == hay@[k + j]);
                assert(piece[j as int] != pat@[j as int]);
            }
            return false;
        }
        j += 1;
    }
    proof {
        assert(hay@.subrange(k as int, k + pn as int) =~= pat@);
    }
    true
}

/// Character of `s` at position `i`.
fn s_get(s: &str, i: usize) -> (c: char)
    requires
        i < s@.len(),
    ensures
        c == s@[i as int],
{
    s.get_char(i)
}

/// Substring search: whether `pat` occurs anywhere in `hay`.
pub fn contains_str(hay: &str, pat: &str) -> (r: bool)
    ensures
        r == has_sub(hay@, pat@),
{
    let hn = hay.unicode_len();
    let pn = pat.unicode_len();
    if pn > hn {
        return false;
    }
    if pn == 0 {
        proof {
            assert(has_sub(hay@, pat@)) by {
                assert(hay@.subrange(0, 0 + pat@.len() as int) =~= pat@);
            }
        }
        return true;
    }
    let end = hn - pn;
    let mut k: usize = 0;
    while k <= end
        invariant
            hn == hay@.len(),
            pn == pat@.len(),
            1 <= pn <= hn,
            end == hn - pn,
            k <= end + 1,
            forall|kk: int|
                0 <= kk < k ==> #[trigger] hay@.subrange(kk, kk + pn as int) != pat@,
        decreases end + 1 - k,
    {
        if matches_at(hay, pat, k) {
            return true;
        }
        k += 1;
    }
    false
}

/// Whether `s` begins with `p`.
pub fn starts_with_str(s: &str, p: &str) -> (r: bool)
    ensures
        r == has_prefix(s@, p@),
{
    let sn = s.unicode_len();
    let pn = p.unicode_len();
    if pn > sn {
        return false;
    }
    matches_at(s, p, 0)
}

/// Whether the views of `a` and `b` are the same character sequence.
pub fn str_eq(a: &str, b: &str) -> (r: bool)
    ensures
        r == (a@ == b@),
{
    let an = a.unicode_len();
    let bn = b.unicode_len();
    if an != bn {
        return false;
    }
    let r = matches_at(a, b, 0);
    proof {
        assert(a@.subrange(0, an as int) =~= a@);
    }
    r
}

/// The position of the first occurrence of `pat` in `hay`, meaningful when
/// one exists.
pub open spec fn sub_pos(hay: Seq<char>, pat: Seq<char>) -> int
    decreases hay.len(),
{
    if has_prefix(hay, pat) {
        0
    } else if hay.len() == 0 {
        0
    } else {
        1 + sub_pos(hay.drop_first(), pat)
    }
}

pub proof fn lemma_sub_pos_first(hay: Seq<char>, pat: Seq<char>, k: int)
    requires
        0 <= k,
        k + pat.len() <= hay.len(),
        hay.subrange(k, k + pat.len() as int) == pat,
        forall|kk: int| 0 <= kk < k ==> #[trigger] hay.subrange(kk, kk + pat.len() as int) != pat,
    ensures
        sub_pos(hay, pat) == k,
    decreases k,
{
    if k == 0 {
        assert(has_prefix(hay, pat));
    } else {
        assert(!has_prefix(hay, pat)) by {
            assert(hay.subrange(0, 0 + pat.len() as int) != pat);
            assert(hay.subrange(0, pat.len() as int) == hay.subrange(0, 0 + pat.len() as int));
        }
        let rest = hay.drop_first();
        assert(rest.subrange(k - 1, k - 1 + pat.len() as int) =~= hay.subrange(
            k,
            k + pat.len() as int,
        ));
        assert forall|kk: int| 0 <= kk < k - 1 implies #[trigger] rest.subrange(
            kk,
            kk + pat.len() as int,
        ) != pat by {
            assert(rest.subrange(kk, kk + pat.len() as int) =~= hay.subrange(
                kk + 1,
                kk + 1 + pat.len() as int,
            ));
        }
        lemma_sub_pos_first(rest, pat, k - 1);
    }
}

/// Find the position of the first occurrence of `pat` in `hay`.
pub fn find_sub(hay: &str, pat: &str) -> (r: Option<usize>)
    ensures
        match r {
            Some(k) => has_sub(hay@, pat@) && k == sub_pos(hay@, pat@) && k + pat@.len()
                <= hay@.len(),
            None => !has_sub(hay@, pat@),
        },
{
    let hn = hay.unicode_len();
    let pn = pat.unicode_len();
    if pn > hn {
        return None;
    }
    if pn == 0 {
        proof {
            assert(has_sub(hay@, pat@)) by {
                assert(hay@.subrange(0, 0 + pat@.len() as int) =~= pat@);
            }
            lemma_sub_pos_first(hay@, pat@, 0);
        }
        return Some(0);
    }
    let end = hn - pn;
    let mut k: usize = 0;
    while k <= end
        invariant
            hn == hay@.len(),
            pn == pat@.len(),
            1 <= pn <= hn,
            end == hn - pn,
            k <= end + 1,
            forall|kk: int|
                0 <= kk < k ==> #[trigger] hay@.subrange(kk, kk + pn as int) != pat@,
        decreases end + 1 - k,
    {
        if matches_at(hay, pat, k) {
            proof {
                lemma_sub_pos_first(hay@, pat@, k as int);
            }
            return Some(k);
        }
        k += 1;
    }
    None
}

/// `s` with leading and trailing ASCII blanks (see `is_blank`) removed.
pub open spec fn trimmed(s: Seq<char>) -> Seq<char>
    decreases s.len(),
{
    if s.len() == 0 {
        s
    } else if is_blank(s[0]) {
        trimmed(s.drop_first())
    } else if is_blank(s.last()) {
        trimmed(s.drop_last())
    } else {
        s
    }
}

/// Remove leading and trailing blanks from `s`.
pub fn trim_str(s: &str) -> (r: String)
    ensures
        r@ == trimmed(s@),
{
    let n = s.unicode_len();
    let mut lo: usize = 0;
    let mut hi: usize = n;
    proof {
        assert(s@.subrange(0, n as int) =~= s@);
    }
    while lo < hi && blank_char(s.get_char(lo))
        invariant
            n == s@.len(),
            lo <= hi <= n,
            trimmed(s@) == trimmed(s@.subrange(lo as int, hi as int)),
        decreases hi - lo,
    {
        proof {
            assert(s@.subrange(lo as int, hi as int).drop_first() =~= s@.subrange(
                lo + 1,
                hi as int,
            ));
        }
        lo += 1;
    }
    while lo < hi && blank_char(s.get_char(hi - 1))
        invariant
            n == s@.len(),
            lo <= hi <= n,
            trimmed(s@) == trimmed(s@.subrange(lo as int, hi as int)),
            lo < hi ==> !is_blank(s@[lo as int]),
        decreases hi,
    {
        proof {
            assert(s@.subrange(lo as int, hi as int).drop_last() =~= s@.subrange(
                lo as int,
                hi - 1,
            ));
        }
        hi -= 1;
    }
    let r = s.substring_char(lo, hi).to_owned();
    proof {
        if lo == hi {
            assert(s@.subrange(lo as int, hi as int) =~= Seq::<char>::empty());
        }
    }
    r
}

/// The parts joined in order with `sep` between neighbours.
pub open spec fn joined_with(parts: Seq<Seq<char>>, sep: Seq<char>) -> Seq<char>
    decreases parts.len(),
{
    if parts.len() == 0 {
        Seq::<char>::empty()
    } else if parts.len() == 1 {
        parts[0]
    } else {
        joined_with(parts.drop_last(), sep) + sep + parts.last()
    }
}

/// Join the strings of `parts` with `sep` between neighbours.
pub fn join_strings(parts: &Vec<String>, sep: &str) -> (r: String)
    ensures
        r@ == joined_with(parts.deep_view(), sep@),
{
    let mut r = String::new();
    let mut i: usize = 0;
    while i < parts.len()
        invariant
            i <= parts@.len(),
            parts.deep_view().len() == parts@.len(),
            r@ == joined_with(parts.deep_view().take(i as int), sep@),
        decreases parts@.len() - i,
    {
        proof {
            assert(parts.deep_view().take(i + 1).drop_last() =~= parts.deep_view().take(i as int));
            assert(parts.deep_view().take(i + 1).last() == parts.deep_view()[i as int]);
        }
        if i > 0 {
            r.append(sep);
        } else {
            proof {
                assert(parts.deep_view().take(1) =~= seq![parts.deep_view()[0]]);
            }
        }
        r.append(parts[i].as_str());
        i += 1;
    }
    proof {
        assert(parts.deep_view().take(parts@.len() as int) =~= parts.deep_view());
    }
    r
}

/// An ASCII decimal digit.
pub open spec fn is_digit(c: char) -> bool {
    48 <= c as u32 <= 57
}

/// The numeric value of a digit character.
pub open spec fn digit_val(c: char) -> int {
    c as u32 - 48
}

/// Every character of `s` is a decimal digit.
pub open spec fn all_digits(s: Seq<char>) -> bool {
    forall|k: int| 0 <= k < s.len() ==> is_digit(s[k])
}

/// The value of `s` read as a decimal numeral.
pub open spec fn dec_val(s: Seq<char>) -> int
    decreases s.len(),
{
    if s.len() == 0 {
        0
    } else {
        dec_val(s.drop_last()) * 10 + digit_val(s.last())
    }
}

/// The numeral after an optional leading plus sign, which the standard
/// unsigned parse also admits.
pub open spec fn digits_part(s: Seq<char>) -> Seq<char> {
    if s.len() > 0 && s[0] == '+' {
        s.drop_first()
    } else {
        s
    }
}

/// What parsing `s` as an unsigned 64-bit decimal yields: the value when
/// `s`, after an optional leading plus sign, is a non-empty run of digits
/// whose value fits, nothing otherwise.
pub open spec fn parsed_u64(s: Seq<char>) -> Option<u64> {
    if digits_part(s).len() > 0 && all_digits(digits_part(s)) && dec_val(digits_part(s))
        <= u64::MAX {
        Some(dec_val(digits_part(s)) as u64)
    } else {
        None
    }
}

pub proof fn lemma_dec_val_nonneg(s: Seq<char>)
    requires
        all_digits(s),
    ensures
        dec_val(s) >= 0,
    decreases s.len(),
{
    if s.len() > 0 {
        assert(all_digits(s.drop_last())) by {
            assert(forall|k: int|
                0 <= k < s.len() - 1 ==> s.drop_last()[k] == s[k]);
        }
        lemma_dec_val_nonneg(s.drop_last());
    }
}

pub proof fn lemma_dec_val_prefix_le(s: Seq<char>, j: int)
    requires
        all_digits(s),
        0 <= j <= s.len(),
    ensures
        dec_val(s.take(j)) <= dec_val(s),
    decreases s.len() - j,
{
    if j < s.len() {
        assert(all_digits(s.take(j + 1))) by {
            assert(forall|k: int| 0 <= k < j + 1 ==> s.take(j + 1)[k] == s[k]);
        }
        assert(s.take(j + 1).drop_last() =~= s.take(j));
        assert(s.take(j + 1).last() == s[j]);
        assert(all_digits(s.take(j))) by {
            assert(forall|k: int| 0 <= k < j ==> s.take(j)[k] == s[k]);
        }
        lemma_dec_val_nonneg(s.take(j));
        assert(dec_val(s.take(j)) <= dec_val(s.take(j + 1)));
        lemma_dec_val_prefix_le(s, j + 1);
    } else {
        assert(s.take(j) =~= s);
    }
}

/// Parse `s` as an unsigned 64-bit decimal numeral, an optional leading
/// plus sign admitted.
pub fn parse_u64(s: &str) -> (r: Option<u64>)
    ensures
        r == parsed_u64(s@),
{
    let n = s.unicode_len();
    if n == 0 {
        return None;
    }
    let start: usize = if s.get_char(0) == '+' {
        1
    } else {
        0
    };
    let ghost d = digits_part(s@);
    proof {
        assert(d =~= s@.subrange(start as int, n as int));
    }
    if start == n {
        return None;
    }
    let mut acc: u64 = 0;
    let mut i: usize = start;
    proof {
        assert(d.take(0) =~= Seq::<char>::empty());
    }
    while i < n
        invariant
            n == s@.len(),
            start <= i <= n,
            start <= 1,
            d == digits_part(s@),
            d == s@.subrange(start as int, n as int),
            all_digits(d.take(i - start)),
            acc == dec_val(d.take(i - start)),
        decreases n - i,
    {
        proof {
            assert(d.take(i - start + 1).drop_last() =~= d.take(i - start));
            assert(d.take(i - start + 1).last() == d[i - start]);
            assert(d[i - start] == s@[i as int]);
            assert(forall|k: int| 0 <= k < i - start + 1 ==> d.take(i - start + 1)[k] == d[k]);
        }
        let c = s.get_char(i);
        let u = c as u32;
        if u < 48 || u > 57 {
            proof {
                assert(!is_digit(d[i - start]));
            }
            return None;
        }
        let dg = (u - 48) as u64;
        let stepped = match acc.checked_mul(10) {
            Some(m) => m.checked_add(dg),
            None => None,
        };
        match stepped {
            Some(v) => {
                acc = v;
            },
            None => {
                proof {
                    if all_digits(d) {
                        assert(dec_val(d.take(i - start + 1)) > u64::MAX);
                        lemma_dec_val_prefix_le(d, i - start + 1);
                    }
                }
                return None;
            },
        }
        i += 1;
    }
    proof {
        assert(d.take(n - start) =~= d);
    }
    Some(acc)
}

/// Parse `s` as an unsigned decimal that must fit in 16 bits, as a port
/// number must.
pub fn parse_u16(s: &str) -> (r: Option<u16>)
    ensures
        r == match parsed_u64(s@) {
            Some(v) => if v <= u16::MAX as u64 {
                Some(v as u16)
            } else {
                None::<u16>
            },
            None => None::<u16>,
        },
{
    match parse_u64(s) {
        Some(v) => if v <= 65535 {
            Some(v as u16)
        } else {
            None
        },
        None => None,
    }
}

/// Parse `s` as an unsigned decimal that must fit in 32 bits.
pub fn parse_u32(s: &str) -> (r: Option<u32>)
    ensures
        r == match parsed_u64(s@) {
            Some(v) => if v <= u32::MAX as u64 {
                Some(v as u32)
            } else {
                None::<u32>
            },
            None => None::<u32>,
        },
{
    match parse_u64(s) {
        Some(v) => if v <= 4294967295 {
            Some(v as u32)
        } else {
            None
        },
        None => None,
    }
}

} // verus!
