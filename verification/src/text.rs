//! Character-level text operations: substring search, replacement, splitting
//! on a separator, and splitting into lines. Each executable function is
//! proved against a spec function over `Seq<char>`; strings cross the
//! boundary as `Vec<char>` buffers.

use vstd::prelude::*;
use vstd::string::StrSliceExecFns;

verus! {

/// The pattern `pat` occurs in `s` starting at position `i`.
pub open spec fn match_at(s: Seq<char>, pat: Seq<char>, i: int) -> bool {
    0 <= i && i + pat.len() <= s.len() && s.subrange(i, i + pat.len() as int) == pat
}

/// The pattern `pat` occurs somewhere in `s`.
pub open spec fn contains_seq(s: Seq<char>, pat: Seq<char>) -> bool {
    exists|i: int| match_at(s, pat, i)
}

/// `s` with every occurrence of `pat` replaced by `rep`, scanning left to
/// right over non-overlapping occurrences. An empty pattern leaves the text
/// unchanged.
pub open spec fn replace_all(s: Seq<char>, pat: Seq<char>, rep: Seq<char>) -> Seq<char>
    decreases s.len(),
{
    if pat.len() == 0 || s.len() == 0 {
        s
    } else if s.len() >= pat.len() && s.subrange(0, pat.len() as int) == pat {
        rep + replace_all(s.subrange(pat.len() as int, s.len() as int), pat, rep)
    } else {
        seq![s[0]] + replace_all(s.subrange(1, s.len() as int), pat, rep)
    }
}

/// The tokens of `s` split on separator `sep`, with `cur` the token built so
/// far. Splitting never yields an empty token list: text without the
/// separator is one token, and text that ends with the separator ends with
/// an empty token.
pub open spec fn split_from(s: Seq<char>, sep: Seq<char>, cur: Seq<char>) -> Seq<Seq<char>>
    decreases s.len(),
{
    if sep.len() == 0 || s.len() == 0 {
        seq![cur + s]
    } else if s.len() >= sep.len() && s.subrange(0, sep.len() as int) == sep {
        seq![cur] + split_from(s.subrange(sep.len() as int, s.len() as int), sep, Seq::empty())
    } else {
        split_from(s.subrange(1, s.len() as int), sep, cur.push(s[0]))
    }
}

/// The tokens of `s` split on the separator `sep`.
pub open spec fn split_seq(s: Seq<char>, sep: Seq<char>) -> Seq<Seq<char>> {
    split_from(s, sep, Seq::empty())
}

/// Splitting always yields at least one token.
pub proof fn lemma_split_from_len(s: Seq<char>, sep: Seq<char>, cur: Seq<char>)
    ensures
        split_from(s, sep, cur).len() >= 1,
    decreases s.len(),
{
    if sep.len() == 0 || s.len() == 0 {
    } else if s.len() >= sep.len() && s.subrange(0, sep.len() as int) == sep {
    } else {
        lemma_split_from_len(s.subrange(1, s.len() as int), sep, cur.push(s[0]));
    }
}

/// `l` with one trailing carriage return removed, if it has one.
pub open spec fn strip_trailing_cr(l: Seq<char>) -> Seq<char> {
    if l.len() > 0 && l[l.len() - 1] == '\r' {
        l.drop_last()
    } else {
        l
    }
}

/// The lines of `s`: the text split at newlines, a final line ending being
/// optional, and a carriage return before each newline not counted as part
/// of the line.
pub open spec fn lines_seq(s: Seq<char>) -> Seq<Seq<char>> {
    let parts = split_seq(s, seq!['\n']);
    let kept = if s.len() > 0 && s[s.len() - 1] == '\n' {
        parts.drop_last()
    } else {
        parts
    };
    kept.map_values(|l: Seq<char>| strip_trailing_cr(l))
}

/// The first of the lines `ls` in which `pat` occurs, or the empty line if
/// it occurs in none of them.
pub open spec fn first_line_containing(ls: Seq<Seq<char>>, pat: Seq<char>) -> Seq<char>
    decreases ls.len(),
{
    if ls.len() == 0 {
        Seq::empty()
    } else if contains_seq(ls[0], pat) {
        ls[0]
    } else {
        first_line_containing(ls.subrange(1, ls.len() as int), pat)
    }
}

/// The characters of `s`, in order.
pub fn chars_of(s: &str) -> (r: Vec<char>)
    ensures
        r@ == s@,
{
    let n = s.unicode_len();
    let mut r: Vec<char> = Vec::new();
    let mut i: usize = 0;
    while i < n
        invariant
            i <= n,
            n == s@.len(),
            r@ == s@.subrange(0, i as int),
        decreases n - i,
    {
        let c = s.get_char(i);
        r.push(c);
        proof {
            assert(r@ =~= s@.subrange(0, i + 1));
        }
        i = i + 1;
    }
    proof {
        assert(s@.subrange(0, n as int) =~= s@);
    }
    r
}

/// Relies on `String::push`: it appends the given character to the end of
/// the string.
#[verifier::external_body]
fn push_char(s: &mut String, c: char)
    ensures
        final(s)@ == old(s)@.push(c),
{
    s.push(c);
}

/// A string holding exactly the characters of `chars`, in order.
pub fn string_of(chars: &Vec<char>) -> (r: String)
    ensures
        r@ == chars@,
{
    let mut r = String::new();
    let mut i: usize = 0;
    while i < chars.len()
        invariant
            i <= chars@.len(),
            r@ == chars@.subrange(0, i as int),
        decreases chars@.len() - i,
    {
        push_char(&mut r, chars[i]);
        proof {
            assert(r@ =~= chars@.subrange(0, i + 1));
        }
        i = i + 1;
    }
    proof {
        assert(chars@.subrange(0, chars@.len() as int) =~= chars@);
    }
    r
}

/// A copy of the characters of `s`.
pub fn copy_chars(s: &Vec<char>) -> (r: Vec<char>)
    ensures
        r@ == s@,
{
    let mut r: Vec<char> = Vec::new();
    let mut i: usize = 0;
    while i < s.len()
        invariant
            i <= s@.len(),
            r@ == s@.subrange(0, i as int),
        decreases s@.len() - i,
    {
        r.push(s[i]);
        proof {
            assert(r@ =~= s@.subrange(0, i + 1));
        }
        i = i + 1;
    }
    proof {
        assert(s@.subrange(0, s@.len() as int) =~= s@);
    }
    r
}

/// Whether `pat` occurs in `s` at position `i`.
pub fn is_match_at(s: &Vec<char>, pat: &Vec<char>, i: usize) -> (b: bool)
    requires
        i <= s@.len(),
    ensures
        b == match_at(s@, pat@, i as int),
{
    let n = s.len();
    if n - i < pat.len() {
        return false;
    }
    let mut j: usize = 0;
    while j < pat.len()
        invariant
            j <= pat@.len(),
            n == s@.len(),
            i + pat@.len() <= n,
            forall|k: int| 0 <= k < j ==> s@[i + k] == pat@[k],
        decreases pat@.len() - j,
    {
        if s[i + j] != pat[j] {
            proof {
                assert(s@.subrange(i as int, i + pat@.len())[j as int] != pat@[j as int]);
            }
            return false;
        }
        j = j + 1;
    }
    proof {
        assert(s@.subrange(i as int, i + pat@.len()) =~= pat@);
    }
    true
}

/// Whether `pat` occurs anywhere in `s`.
pub fn contains_chars(s: &Vec<char>, pat: &Vec<char>) -> (b: bool)
    ensures
        b == contains_seq(s@, pat@),
{
    let n = s.len();
    let mut i: usize = 0;
    loop
        invariant
            i <= n,
            n == s@.len(),
            forall|k: int| 0 <= k < i ==> !match_at(s@, pat@, k),
        decreases n - i,
    {
        if is_match_at(s, pat, i) {
            proof {
                assert(match_at(s@, pat@, i as int));
            }
            return true;
        }
        if i == n {
            proof {
                assert(forall|k: int| match_at(s@, pat@, k) ==> 0 <= k <= n);
            }
            return false;
        }
        i = i + 1;
    }
}

/// `s` with every occurrence of `pat` replaced by `rep`.
pub fn replace_chars(s: &Vec<char>, pat: &Vec<char>, rep: &Vec<char>) -> (r: Vec<char>)
    ensures
        r@ == replace_all(s@, pat@, rep@),
{
    if pat.len() == 0 {
        return copy_chars(s);
    }
    let n = s.len();
    let mut out: Vec<char> = Vec::new();
    let mut i: usize = 0;
    proof {
        assert(s@.subrange(0, n as int) =~= s@);
        assert(out@ + replace_all(s@, pat@, rep@) =~= replace_all(s@, pat@, rep@));
    }
    while i < n
        invariant
            i <= n,
            n == s@.len(),
            pat@.len() > 0,
            out@ + replace_all(s@.subrange(i as int, n as int), pat@, rep@) == replace_all(
                s@,
                pat@,
                rep@,
            ),
        decreases n - i,
    {
        let ghost t = s@.subrange(i as int, n as int);
        if is_match_at(s, pat, i) {
            proof {
                assert(t.subrange(0, pat@.len() as int) =~= s@.subrange(i as int, i + pat@.len()));
                assert(replace_all(t, pat@, rep@) == rep@ + replace_all(
                    t.subrange(pat@.len() as int, t.len() as int),
                    pat@,
                    rep@,
                ));
                assert(t.subrange(pat@.len() as int, t.len() as int) =~= s@.subrange(
                    i + pat@.len(),
                    n as int,
                ));
            }
            let ghost out0 = out@;
            let mut j: usize = 0;
            while j < rep.len()
                invariant
                    j <= rep@.len(),
                    out@ == out0 + rep@.subrange(0, j as int),
                decreases rep@.len() - j,
            {
                out.push(rep[j]);
                proof {
                    assert(out@ =~= out0 + rep@.subrange(0, j + 1));
                }
                j = j + 1;
            }
            proof {
                assert(out@ =~= out0 + rep@);
                assert((out0 + rep@) + replace_all(s@.subrange(i + pat@.len(), n as int), pat@, rep@)
                    =~= out0 + (rep@ + replace_all(s@.subrange(i + pat@.len(), n as int), pat@, rep@)));
            }
            i = i + pat.len();
        } else {
            proof {
                assert(t.len() < pat@.len() || t.subrange(0, pat@.len() as int) != pat@) by {
                    if t.len() >= pat@.len() {
                        assert(t.subrange(0, pat@.len() as int) =~= s@.subrange(
                            i as int,
                            i + pat@.len(),
                        ));
                    }
                }
                assert(replace_all(t, pat@, rep@) == seq![t[0]] + replace_all(
                    t.subrange(1, t.len() as int),
                    pat@,
                    rep@,
                ));
                assert(t.subrange(1, t.len() as int) =~= s@.subrange(i + 1, n as int));
            }
            let ghost out0 = out@;
            out.push(s[i]);
            proof {
                assert(out@ =~= out0 + seq![s@[i as int]]);
                assert((out0 + seq![s@[i as int]]) + replace_all(
                    s@.subrange(i + 1, n as int),
                    pat@,
                    rep@,
                ) =~= out0 + (seq![s@[i as int]] + replace_all(
                    s@.subrange(i + 1, n as int),
                    pat@,
                    rep@,
                )));
            }
            i = i + 1;
        }
    }
    proof {
        assert(s@.subrange(n as int, n as int) =~= Seq::<char>::empty());
        assert(out@ + replace_all(Seq::<char>::empty(), pat@, rep@) =~= out@);
    }
    out
}

/// The tokens of `s` split on the non-empty separator `sep`.
pub fn split_chars(s: &Vec<char>, sep: &Vec<char>) -> (r: Vec<Vec<char>>)
    requires
        sep@.len() > 0,
    ensures
        r.deep_view() == split_seq(s@, sep@),
        r@.len() >= 1,
{
    let n = s.len();
    let mut done: Vec<Vec<char>> = Vec::new();
    let mut cur: Vec<char> = Vec::new();
    let mut i: usize = 0;
    proof {
        assert(s@.subrange(0, n as int) =~= s@);
        assert(done.deep_view() + split_from(s@, sep@, cur@) =~~= split_from(s@, sep@, Seq::empty()));
    }
    while i < n
        invariant
            i <= n,
            n == s@.len(),
            sep@.len() > 0,
            done.deep_view() + split_from(s@.subrange(i as int, n as int), sep@, cur@) == split_seq(
                s@,
                sep@,
            ),
        decreases n - i,
    {
        let ghost t = s@.subrange(i as int, n as int);
        if is_match_at(s, sep, i) {
            proof {
                assert(t.subrange(0, sep@.len() as int) =~= s@.subrange(i as int, i + sep@.len()));
                assert(split_from(t, sep@, cur@) == seq![cur@] + split_from(
                    t.subrange(sep@.len() as int, t.len() as int),
                    sep@,
                    Seq::empty(),
                ));
                assert(t.subrange(sep@.len() as int, t.len() as int) =~= s@.subrange(
                    i + sep@.len(),
                    n as int,
                ));
            }
            let ghost done0 = done.deep_view();
            let ghost curv = cur@;
            done.push(cur);
            cur = Vec::new();
            proof {
                assert(done.deep_view() =~~= done0 + seq![curv]);
                assert((done0 + seq![curv]) + split_from(
                    s@.subrange(i + sep@.len(), n as int),
                    sep@,
                    Seq::empty(),
                ) =~~= done0 + (seq![curv] + split_from(
                    s@.subrange(i + sep@.len(), n as int),
                    sep@,
                    Seq::empty(),
                )));
            }
            i = i + sep.len();
        } else {
            proof {
                assert(t.len() < sep@.len() || t.subrange(0, sep@.len() as int) != sep@) by {
                    if t.len() >= sep@.len() {
                        assert(t.subrange(0, sep@.len() as int) =~= s@.subrange(
                            i as int,
                            i + sep@.len(),
                        ));
                    }
                }
                assert(split_from(t, sep@, cur@) == split_from(
                    t.subrange(1, t.len() as int),
                    sep@,
                    cur@.push(t[0]),
                ));
                assert(t.subrange(1, t.len() as int) =~= s@.subrange(i + 1, n as int));
            }
            cur.push(s[i]);
            i = i + 1;
        }
    }
    proof {
        assert(s@.subrange(n as int, n as int) =~= Seq::<char>::empty());
        assert(split_from(Seq::<char>::empty(), sep@, cur@) == seq![cur@ + Seq::<char>::empty()]);
        assert(cur@ + Seq::<char>::empty() =~= cur@);
    }
    let ghost done0 = done.deep_view();
    let ghost curv = cur@;
    done.push(cur);
    proof {
        assert(done.deep_view() =~~= done0 + seq![curv]);
        lemma_split_from_len(s@, sep@, Seq::empty());
    }
    done
}

/// The lines of `s`, as `lines_seq` describes them.
pub fn lines_chars(s: &Vec<char>) -> (r: Vec<Vec<char>>)
    ensures
        r.deep_view() == lines_seq(s@),
{
    let mut sep: Vec<char> = Vec::new();
    sep.push('\n');
    proof {
        assert(sep@ =~= seq!['\n']);
    }
    let mut parts = split_chars(s, &sep);
    let ghost all_parts = parts.deep_view();
    if s.len() > 0 && s[s.len() - 1] == '\n' {
        parts.pop();
        proof {
            assert(parts.deep_view() =~~= all_parts.drop_last());
        }
    }
    let ghost kept = parts.deep_view();
    let mut out: Vec<Vec<char>> = Vec::new();
    let mut k: usize = 0;
    while k < parts.len()
        invariant
            k <= parts@.len(),
            parts.deep_view() == kept,
            kept.len() == parts@.len(),
            out.deep_view().len() == k,
            forall|j: int| 0 <= j < k ==> out.deep_view()[j] == strip_trailing_cr(kept[j]),
        decreases parts@.len() - k,
    {
        let mut q = copy_chars(&parts[k]);
        if q.len() > 0 {
            if q[q.len() - 1] == '\r' {
                q.pop();
            }
        }
        proof {
            assert(parts@[k as int].deep_view() =~= parts@[k as int]@);
            assert(q@ == strip_trailing_cr(kept[k as int]));
        }
        let ghost out0 = out.deep_view();
        let ghost qv = q@;
        out.push(q);
        proof {
            assert(out.deep_view() =~~= out0.push(qv));
        }
        k = k + 1;
    }
    proof {
        assert(out.deep_view() =~~= kept.map_values(|l: Seq<char>| strip_trailing_cr(l)));
    }
    out
}

/// The first of the lines `ls` in which `pat` occurs, or an empty buffer.
pub fn find_line(ls: &Vec<Vec<char>>, pat: &Vec<char>) -> (r: Vec<char>)
    ensures
        r@ == first_line_containing(ls.deep_view(), pat@),
{
    let ghost full = ls.deep_view();
    let mut k: usize = 0;
    proof {
        assert(full.subrange(0, full.len() as int) =~~= full);
    }
    while k < ls.len()
        invariant
            k <= ls@.len(),
            full == ls.deep_view(),
            full.len() == ls@.len(),
            first_line_containing(full, pat@) == first_line_containing(
                full.subrange(k as int, full.len() as int),
                pat@,
            ),
        decreases ls@.len() - k,
    {
        proof {
            assert(full[k as int] =~= ls@[k as int]@);
        }
        if contains_chars(&ls[k], pat) {
            proof {
                assert(first_line_containing(full.subrange(k as int, full.len() as int), pat@)
                    == full[k as int]);
            }
            return copy_chars(&ls[k]);
        }
        proof {
            let t = full.subrange(k as int, full.len() as int);
            assert(!contains_seq(t[0], pat@));
            assert(first_line_containing(t, pat@) == first_line_containing(
                t.subrange(1, t.len() as int),
                pat@,
            ));
            assert(t.subrange(1, t.len() as int) =~~= full.subrange(k + 1, full.len() as int));
        }
        k = k + 1;
    }
    proof {
        assert(full.subrange(full.len() as int, full.len() as int) =~~= Seq::<Seq<char>>::empty());
    }
    Vec::new()
}

} // verus!
